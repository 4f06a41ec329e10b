//! What a peer presented to be authenticated by, and what came of it.

use vstd::prelude::*;
use vstd::string::*;

use crate::mechanism::Mechanism;
use crate::text::same;

verus! {

/// What was proven of a presented identity.
#[derive(Clone, Copy, Debug, PartialEq, Eq, Structural)]
pub enum Verified {
    /// The peer holds the private half of what it presented.
    Proven,
}

impl View for Verified {
    type V = Verified;

    open spec fn view(&self) -> Verified {
        *self
    }
}

/// Named texts, in the order they were attached.
pub open spec fn pairs_view(pairs: Seq<(String, String)>) -> Seq<(Seq<char>, Seq<char>)> {
    pairs.map_values(|pair: (String, String)| (pair.0@, pair.1@))
}

/// The first text under a name.
pub open spec fn lookup(pairs: Seq<(Seq<char>, Seq<char>)>, name: Seq<char>) -> Option<Seq<char>>
    decreases pairs.len(),
{
    if pairs.len() == 0 {
        None
    } else if pairs[0].0 == name {
        Some(pairs[0].1)
    } else {
        lookup(pairs.drop_first(), name)
    }
}

/// The first text under a name.
fn find<'a>(pairs: &'a Vec<(String, String)>, name: &str) -> (found: Option<&'a str>)
    ensures
        match found {
            Some(text) => lookup(pairs_view(pairs@), name@) == Some(text@),
            None => lookup(pairs_view(pairs@), name@) is None,
        },
{
    let ghost all = pairs_view(pairs@);
    let mut i: usize = 0;
    assert(all.skip(0) =~= all);
    while i < pairs.len()
        invariant
            i <= pairs.len(),
            all == pairs_view(pairs@),
            lookup(all, name@) == lookup(all.skip(i as int), name@),
        decreases pairs.len() - i,
    {
        assert(all.skip(i as int)[0] == (pairs@[i as int].0@, pairs@[i as int].1@));
        if same(pairs[i].0.as_str(), name) {
            return Some(pairs[i].1.as_str());
        }
        assert(all.skip(i as int).drop_first() =~= all.skip(i + 1));
        i += 1;
    }
    None
}

/// One more named text behind the others.
fn attach(pairs: &mut Vec<(String, String)>, name: &str, text: &str)
    ensures
        pairs_view(final(pairs)@) == pairs_view(old(pairs)@).push((name@, text@)),
{
    pairs.push((name.to_owned(), text.to_owned()));
    assert(pairs_view(pairs@) =~= pairs_view(old(pairs)@).push((name@, text@)));
}

/// A copy of named texts.
fn copied(pairs: &Vec<(String, String)>) -> (copy: Vec<(String, String)>)
    ensures
        pairs_view(copy@) == pairs_view(pairs@),
{
    let mut copy: Vec<(String, String)> = Vec::new();
    let mut i: usize = 0;
    while i < pairs.len()
        invariant
            i <= pairs.len(),
            pairs_view(copy@) == pairs_view(pairs@).take(i as int),
        decreases pairs.len() - i,
    {
        attach(&mut copy, pairs[i].0.as_str(), pairs[i].1.as_str());
        assert(pairs_view(pairs@).take(i + 1) =~= pairs_view(pairs@).take(i as int).push(
            (pairs@[i as int].0@, pairs@[i as int].1@),
        ));
        i += 1;
    }
    assert(pairs_view(pairs@).take(i as int) =~= pairs_view(pairs@));
    copy
}

/// An identity a peer claims, with what it attached to prove it and what the
/// transport saw.
#[derive(Debug)]
pub struct Presented {
    /// How the identity is to be authenticated.
    pub mechanism: Mechanism,
    /// The identity itself.
    pub value: String,
    /// What the peer attached to prove it, by name.
    pub proofs: Vec<(String, String)>,
    /// What the transport reported, by name.
    pub evidence: Vec<(String, String)>,
}

/// The texts of a [`Presented`].
#[verifier::ext_equal]
pub struct PresentedView {
    pub mechanism: Seq<char>,
    pub value: Seq<char>,
    pub proofs: Seq<(Seq<char>, Seq<char>)>,
    pub evidence: Seq<(Seq<char>, Seq<char>)>,
}

impl View for Presented {
    type V = PresentedView;

    open spec fn view(&self) -> PresentedView {
        PresentedView {
            mechanism: self.mechanism@,
            value: self.value@,
            proofs: pairs_view(self.proofs@),
            evidence: pairs_view(self.evidence@),
        }
    }
}

impl Clone for Presented {
    fn clone(&self) -> (copy: Self)
        ensures
            copy@ == self@,
    {
        Presented {
            mechanism: self.mechanism.clone(),
            value: self.value.clone(),
            proofs: copied(&self.proofs),
            evidence: copied(&self.evidence),
        }
    }
}

impl Presented {
    /// An identity passed on by the transport, with nothing attached yet.
    #[must_use]
    pub fn passed(mechanism: Mechanism, value: &str) -> (presented: Self)
        ensures
            presented@ == (PresentedView {
                mechanism: mechanism@,
                value: value@,
                proofs: seq![],
                evidence: seq![],
            }),
    {
        let presented = Presented {
            mechanism,
            value: value.to_owned(),
            proofs: Vec::new(),
            evidence: Vec::new(),
        };
        assert(presented@.proofs =~= seq![]);
        assert(presented@.evidence =~= seq![]);
        presented
    }

    /// With this proof attached.
    #[must_use]
    pub fn with_proof(self, name: &str, proof_text: &str) -> (presented: Self)
        ensures
            presented@ == (PresentedView {
                proofs: self@.proofs.push((name@, proof_text@)),
                ..self@
            }),
    {
        let mut presented = self;
        attach(&mut presented.proofs, name, proof_text);
        presented
    }

    /// With this evidence reported.
    #[must_use]
    pub fn with_evidence(self, name: &str, seen: &str) -> (presented: Self)
        ensures
            presented@ == (PresentedView {
                evidence: self@.evidence.push((name@, seen@)),
                ..self@
            }),
    {
        let mut presented = self;
        attach(&mut presented.evidence, name, seen);
        presented
    }

    /// The proof attached under a name; the first, where there are more.
    #[must_use]
    pub fn proof_of(&self, name: &str) -> (found: Option<&str>)
        ensures
            match found {
                Some(text) => lookup(self@.proofs, name@) == Some(text@),
                None => lookup(self@.proofs, name@) is None,
            },
    {
        find(&self.proofs, name)
    }

    /// The evidence reported under a name; the first, where there is more.
    #[must_use]
    pub fn evidence_of(&self, name: &str) -> (found: Option<&str>)
        ensures
            match found {
                Some(text) => lookup(self@.evidence, name@) == Some(text@),
                None => lookup(self@.evidence, name@) is None,
            },
    {
        find(&self.evidence, name)
    }
}

} // verus!
