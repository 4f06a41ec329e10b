//! Laws of the authenticator: what is proven, what is refused, and what changes an
//! answer.

use vstd::prelude::*;

use crate::encoding::encodes;
use crate::gate::{
    admittance, claimed_fingerprint, held, named_user, proof_bytes_view, verdict, SESSION_PROOF,
    SIGNATURE_PROOF, USER,
};
use crate::key::{blob_fingerprint, signature_verdict, KeyView};
use crate::laws::encoding::{base64_holds_no_white_space, padding_is_optional};
use crate::laws::key::a_fingerprint_is_fifty_characters;
use crate::laws::signature::keys_with_one_blob_answer_alike;
use crate::laws::signed::{is_signed_data, signed_data_is_what_a_client_signs};
use crate::laws::text::{
    all_whitespace, no_whitespace, trailing_characters_are_taken_off,
    white_space_around_is_trimmed,
};
use crate::presented::{lookup, PresentedView, Verified};
use crate::signed::read_signed;
use crate::text::whitespace;

verus! {

/// The user that the transport reported.
pub open spec fn reported_user(presented: PresentedView) -> Option<Seq<char>> {
    lookup(presented.evidence, USER@)
}

/// An ssh-key is presented, with these session bytes and this signature.
pub open spec fn presents(presented: PresentedView, session: Seq<u8>, signature: Seq<u8>) -> bool {
    &&& presented.mechanism == "ssh-key"@
    &&& proof_bytes_view(presented, SIGNATURE_PROOF@) == Ok::<Seq<u8>, Seq<char>>(signature)
    &&& proof_bytes_view(presented, SESSION_PROOF@) == Ok::<Seq<u8>, Seq<char>>(session)
}

/// Where another mechanism was presented it is refused by name, whatever else
/// was presented.
pub proof fn another_mechanism_is_refused_by_name(keys: Seq<KeyView>, presented: PresentedView)
    requires
        presented.mechanism != "ssh-key"@,
    ensures
        verdict(keys, presented) == Err::<Verified, Seq<char>>(
            "'"@ + presented.mechanism
                + "' was presented and this authenticator verifies ssh-key"@,
        ),
{
}

/// The proof that is missing or not base64 is named, the signature before the
/// session bytes, whatever key is claimed.
pub proof fn a_proof_that_is_not_there_is_refused_by_name(
    keys: Seq<KeyView>,
    presented: PresentedView,
)
    requires
        presented.mechanism == "ssh-key"@,
    ensures
        proof_bytes_view(presented, SIGNATURE_PROOF@) matches Err(refusal) ==> verdict(
            keys,
            presented,
        ) == Err::<Verified, Seq<char>>(refusal),
        proof_bytes_view(presented, SIGNATURE_PROOF@) is Ok ==> (proof_bytes_view(
            presented,
            SESSION_PROOF@,
        ) matches Err(refusal) ==> verdict(keys, presented) == Err::<Verified, Seq<char>>(
            refusal,
        )),
{
}

/// No key is found under a fingerprint exactly where no key has it, and the key
/// that is found has it.
pub proof fn a_key_is_found_by_its_fingerprint(keys: Seq<KeyView>, fingerprint: Seq<char>)
    ensures
        held(keys, fingerprint) is None <==> forall|i: int|
            0 <= i < keys.len() ==> blob_fingerprint((#[trigger] keys[i]).blob) != fingerprint,
        held(keys, fingerprint) matches Some(key) ==> keys.contains(key) && blob_fingerprint(
            key.blob,
        ) == fingerprint,
    decreases keys.len(),
{
    if keys.len() > 0 {
        let others = keys.drop_first();
        a_key_is_found_by_its_fingerprint(others, fingerprint);
        if blob_fingerprint(keys[0].blob) != fingerprint {
            if held(keys, fingerprint) is None {
                assert forall|i: int| 0 <= i < keys.len() implies blob_fingerprint(
                    (#[trigger] keys[i]).blob,
                ) != fingerprint by {
                    if i > 0 {
                        assert(blob_fingerprint(others[i - 1].blob) != fingerprint);
                    }
                }
            } else {
                let key = held(keys, fingerprint)->0;
                let i = choose|i: int| 0 <= i < others.len() && others[i] == key;
                assert(keys[i + 1] == key);
            }
        } else {
            assert(keys[0] == held(keys, fingerprint)->0);
        }
    }
}

/// The first of the keys with a fingerprint is the one that is found.
pub proof fn the_first_key_with_a_fingerprint_is_found(
    before: Seq<KeyView>,
    key: KeyView,
    behind: Seq<KeyView>,
)
    requires
        forall|i: int|
            0 <= i < before.len() ==> blob_fingerprint((#[trigger] before[i]).blob)
                != blob_fingerprint(key.blob),
    ensures
        held(before + seq![key] + behind, blob_fingerprint(key.blob)) == Some(key),
    decreases before.len(),
{
    let keys = before + seq![key] + behind;
    if before.len() > 0 {
        let others = before.drop_first();
        assert forall|i: int| 0 <= i < others.len() implies blob_fingerprint(
            (#[trigger] others[i]).blob,
        ) != blob_fingerprint(key.blob) by {
            assert(others[i] == before[i + 1]);
        }
        the_first_key_with_a_fingerprint_is_found(others, key, behind);
        assert(keys.drop_first() =~= others + seq![key] + behind);
        assert(keys[0] == before[0]);
    } else {
        assert(keys[0] == key);
    }
}

/// A fingerprint that no held key has is refused by that fingerprint, whatever
/// the signature is and whatever it was made over.
pub proof fn an_unheld_fingerprint_is_refused(
    keys: Seq<KeyView>,
    presented: PresentedView,
    session: Seq<u8>,
    signature: Seq<u8>,
)
    requires
        presents(presented, session, signature),
        forall|i: int|
            0 <= i < keys.len() ==> blob_fingerprint((#[trigger] keys[i]).blob)
                != claimed_fingerprint(presented.value),
    ensures
        verdict(keys, presented) == Err::<Verified, Seq<char>>(
            "the node holds no authorized key with the fingerprint "@ + claimed_fingerprint(
                presented.value,
            ),
        ),
{
    a_key_is_found_by_its_fingerprint(keys, claimed_fingerprint(presented.value));
}

/// What was presented is proven exactly where the key it claims is held, that
/// key may stand for the session bytes, and the signature over exactly those
/// bytes is the key's.
pub proof fn what_is_proven(
    keys: Seq<KeyView>,
    presented: PresentedView,
    session: Seq<u8>,
    signature: Seq<u8>,
)
    requires
        presents(presented, session, signature),
    ensures
        verdict(keys, presented) is Ok <==> {
            &&& held(keys, claimed_fingerprint(presented.value)) matches Some(key)
            &&& admittance(key, session, reported_user(presented)) is Ok
            &&& signature_verdict(key.material, session, signature) is Ok
        },
{
}

/// Nothing is proven without both proofs, and then it is one of the held keys
/// that has the claimed fingerprint and made the signature over the session
/// bytes.
pub proof fn what_is_proven_was_signed_by_a_held_key(keys: Seq<KeyView>, presented: PresentedView)
    requires
        verdict(keys, presented) is Ok,
    ensures
        presented.mechanism == "ssh-key"@,
        proof_bytes_view(presented, SIGNATURE_PROOF@) is Ok,
        proof_bytes_view(presented, SESSION_PROOF@) is Ok,
        exists|i: int|
            {
                &&& 0 <= i < keys.len()
                &&& held(keys, claimed_fingerprint(presented.value)) == Some(#[trigger] keys[i])
                &&& blob_fingerprint(keys[i].blob) == claimed_fingerprint(presented.value)
                &&& signature_verdict(
                    keys[i].material,
                    proof_bytes_view(presented, SESSION_PROOF@)->Ok_0,
                    proof_bytes_view(presented, SIGNATURE_PROOF@)->Ok_0,
                ) is Ok
            },
{
    a_key_is_found_by_its_fingerprint(keys, claimed_fingerprint(presented.value));
    let key = held(keys, claimed_fingerprint(presented.value))->0;
    let i = choose|i: int| 0 <= i < keys.len() && keys[i] == key;
    assert(held(keys, claimed_fingerprint(presented.value)) == Some(keys[i]));
}

/// The fingerprint that is claimed is read through white space around it and
/// base64 padding behind it.
pub proof fn a_claimed_fingerprint_is_read(
    before: Seq<char>,
    blob: Seq<u8>,
    padding: nat,
    behind: Seq<char>,
)
    requires
        all_whitespace(before),
        all_whitespace(behind),
    ensures
        claimed_fingerprint(
            before + (blob_fingerprint(blob) + Seq::new(padding, |i: int| '=')) + behind,
        ) == blob_fingerprint(blob),
{
    let fingerprint = blob_fingerprint(blob);
    let written = fingerprint + Seq::new(padding, |i: int| '=');
    a_fingerprint_is_fifty_characters(blob);
    assert(!whitespace(fingerprint[0]));
    assert(written[0] == fingerprint[0]);
    if padding > 0 {
        assert(written.last() == '=');
    } else {
        assert(written =~= fingerprint);
        assert(!whitespace(fingerprint[49]));
    }
    white_space_around_is_trimmed(before, written, behind);
    trailing_characters_are_taken_off(fingerprint, '=', padding);
}

/// A proof is read through white space around it, with all of its padding, some
/// or none.
pub proof fn a_proof_is_read_as_it_was_attached(
    presented: PresentedView,
    name: Seq<char>,
    before: Seq<char>,
    text: Seq<char>,
    behind: Seq<char>,
    bytes: Seq<u8>,
)
    requires
        lookup(presented.proofs, name) == Some(before + text + behind),
        all_whitespace(before),
        all_whitespace(behind),
        encodes(text, bytes),
    ensures
        proof_bytes_view(presented, name) == Ok::<Seq<u8>, Seq<char>>(bytes),
{
    padding_is_optional(text, bytes);
    base64_holds_no_white_space(bytes);
    assert(no_whitespace(text));
    white_space_around_is_trimmed(before, text, behind);
}

/// A peer that holds a key of the node is proven: it claims the key's
/// fingerprint, presents the session bytes and the signature over them as
/// base64, may use the key for them, and the signature verifies.
pub proof fn a_holder_of_a_held_key_is_proven(
    keys: Seq<KeyView>,
    key: KeyView,
    presented: PresentedView,
    session: Seq<u8>,
    signature: Seq<u8>,
)
    requires
        held(keys, blob_fingerprint(key.blob)) == Some(key),
        presented.mechanism == "ssh-key"@,
        presented.value == blob_fingerprint(key.blob),
        lookup(presented.proofs, SIGNATURE_PROOF@) matches Some(text) && encodes(text, signature),
        lookup(presented.proofs, SESSION_PROOF@) matches Some(text) && encodes(text, session),
        admittance(key, session, reported_user(presented)) is Ok,
        signature_verdict(key.material, session, signature) is Ok,
    ensures
        verdict(keys, presented) == Ok::<Verified, Seq<char>>(Verified::Proven),
{
    let none = Seq::<char>::empty();
    let signature_text = lookup(presented.proofs, SIGNATURE_PROOF@)->0;
    let session_text = lookup(presented.proofs, SESSION_PROOF@)->0;
    let fingerprint = blob_fingerprint(key.blob);
    assert(none + signature_text + none =~= signature_text);
    assert(none + session_text + none =~= session_text);
    assert(none + (fingerprint + Seq::new(0, |i: int| '=')) + none =~= fingerprint);
    a_proof_is_read_as_it_was_attached(
        presented,
        SIGNATURE_PROOF@,
        none,
        signature_text,
        none,
        signature,
    );
    a_proof_is_read_as_it_was_attached(
        presented,
        SESSION_PROOF@,
        none,
        session_text,
        none,
        session,
    );
    a_claimed_fingerprint_is_read(none, key.blob, 0, none);
}

/// A key that is narrowed to one user is proven for that user only: the user
/// that the signed data names, and where it is an opaque challenge the one the
/// transport reported.
pub proof fn a_narrowed_key_is_proven_for_its_user_only(
    keys: Seq<KeyView>,
    presented: PresentedView,
    session: Seq<u8>,
    signature: Seq<u8>,
    only: Seq<char>,
)
    requires
        presents(presented, session, signature),
        verdict(keys, presented) is Ok,
        held(keys, claimed_fingerprint(presented.value)) matches Some(key) && key.user == Some(
            only,
        ),
    ensures
        named_user(session, reported_user(presented)) == Some(only),
{
}

/// A narrowed key that is used for another user is refused by the two names, and
/// where no user is named at all by the one it is authorized for.
pub proof fn another_user_is_refused_by_name(
    keys: Seq<KeyView>,
    key: KeyView,
    presented: PresentedView,
    session: Seq<u8>,
    signature: Seq<u8>,
    only: Seq<char>,
)
    requires
        presents(presented, session, signature),
        held(keys, claimed_fingerprint(presented.value)) == Some(key),
        key.user == Some(only),
        read_signed(session) matches Some(signed) ==> signed.blob == key.blob,
        named_user(session, reported_user(presented)) != Some(only),
    ensures
        verdict(keys, presented) == Err::<Verified, Seq<char>>(
            match named_user(session, reported_user(presented)) {
                Some(user) => "the key is authorized for '"@ + only + "' and not for '"@ + user
                    + "'"@,
                None => "the key is authorized for '"@ + only
                    + "' only, and neither the signed data nor ssh.user evidence names the user"@,
            },
        ),
{
}

/// Where the claimed key is held and may stand for the session bytes, the
/// signature alone decides.
pub proof fn the_signature_decides_for_an_admitted_key(
    keys: Seq<KeyView>,
    key: KeyView,
    presented: PresentedView,
    session: Seq<u8>,
    signature: Seq<u8>,
)
    requires
        presents(presented, session, signature),
        held(keys, claimed_fingerprint(presented.value)) == Some(key),
        admittance(key, session, reported_user(presented)) is Ok,
    ensures
        verdict(keys, presented) == (match signature_verdict(key.material, session, signature) {
            Ok(_) => Ok(Verified::Proven),
            Err(refusal) => Err(refusal),
        }),
{
}

/// Signed data that names another key than the claimed one is never proven.
#[verifier::rlimit(30)]
pub proof fn signed_data_that_names_another_key_is_refused(
    keys: Seq<KeyView>,
    presented: PresentedView,
    session: Seq<u8>,
    signature: Seq<u8>,
    user: Seq<char>,
    blob: Seq<u8>,
)
    requires
        presents(presented, session, signature),
        is_signed_data(session, user, blob),
        held(keys, claimed_fingerprint(presented.value)) matches Some(key) && key.blob != blob,
    ensures
        verdict(keys, presented) == Err::<Verified, Seq<char>>(
            "the key inside the signed data is not the key that was claimed"@,
        ),
{
    signed_data_is_what_a_client_signs(session, user, blob);
}

/// Where the session bytes are signed data, what the transport reported does
/// not change the answer.
#[verifier::rlimit(30)]
pub proof fn signed_data_overrides_what_the_transport_reported(
    keys: Seq<KeyView>,
    presented: PresentedView,
    evidence: Seq<(Seq<char>, Seq<char>)>,
    session: Seq<u8>,
    signature: Seq<u8>,
    user: Seq<char>,
    blob: Seq<u8>,
)
    requires
        presents(presented, session, signature),
        is_signed_data(session, user, blob),
    ensures
        verdict(keys, PresentedView { evidence, ..presented }) == verdict(keys, presented),
{
    signed_data_is_what_a_client_signs(session, user, blob);
}

/// What is found once one of the keys is narrowed is what was found before, but
/// for the user of that key.
proof fn lemma_narrowed(keys: Seq<KeyView>, i: int, user: Seq<char>, fingerprint: Seq<char>)
    requires
        0 <= i < keys.len(),
        keys[i].user is None,
    ensures
        ({
            let narrowed = keys.update(i, KeyView { user: Some(user), ..keys[i] });
            match held(narrowed, fingerprint) {
                None => held(keys, fingerprint) is None,
                Some(key) => held(keys, fingerprint) == Some(key) || held(keys, fingerprint)
                    == Some(KeyView { user: None, ..key }),
            }
        }),
    decreases keys.len(),
{
    let narrowed = keys.update(i, KeyView { user: Some(user), ..keys[i] });
    if i == 0 {
        assert(narrowed.drop_first() =~= keys.drop_first());
        assert(narrowed[0] == (KeyView { user: Some(user), ..keys[0] }));
        assert(keys[0] =~= (KeyView { user: None, ..narrowed[0] }));
    } else {
        let others = keys.drop_first();
        assert(narrowed.drop_first() =~= others.update(
            i - 1,
            KeyView { user: Some(user), ..others[i - 1] },
        ));
        lemma_narrowed(others, i - 1, user, fingerprint);
    }
}

/// To narrow a key to one user never proves more than before.
pub proof fn narrowing_a_key_proves_nothing_more(
    keys: Seq<KeyView>,
    i: int,
    user: Seq<char>,
    presented: PresentedView,
)
    requires
        0 <= i < keys.len(),
        keys[i].user is None,
        verdict(keys.update(i, KeyView { user: Some(user), ..keys[i] }), presented) is Ok,
    ensures
        verdict(keys, presented) is Ok,
{
    lemma_narrowed(keys, i, user, claimed_fingerprint(presented.value));
}

/// Keys behind others change nothing that is found before them.
proof fn lemma_held_together(front: Seq<KeyView>, back: Seq<KeyView>, fingerprint: Seq<char>)
    ensures
        held(front + back, fingerprint) == (if held(front, fingerprint) is Some {
            held(front, fingerprint)
        } else {
            held(back, fingerprint)
        }),
    decreases front.len(),
{
    if front.len() > 0 {
        assert((front + back).drop_first() =~= front.drop_first() + back);
        assert((front + back)[0] == front[0]);
        lemma_held_together(front.drop_first(), back, fingerprint);
    } else {
        assert(front + back =~= back);
    }
}

/// Keys with other fingerprints than the claimed one change no answer, wherever
/// they stand among the others.
pub proof fn other_keys_change_no_answer(
    before: Seq<KeyView>,
    others: Seq<KeyView>,
    behind: Seq<KeyView>,
    presented: PresentedView,
)
    requires
        forall|i: int|
            0 <= i < others.len() ==> blob_fingerprint((#[trigger] others[i]).blob)
                != claimed_fingerprint(presented.value),
    ensures
        verdict(before + others + behind, presented) == verdict(before + behind, presented),
{
    let claimed = claimed_fingerprint(presented.value);
    a_key_is_found_by_its_fingerprint(others, claimed);
    lemma_held_together(before, others, claimed);
    lemma_held_together(before + others, behind, claimed);
    lemma_held_together(before, behind, claimed);
}

/// Two lists of keys have the same blobs and users, and each key is whole.
pub open spec fn same_but_for_comments(left: Seq<KeyView>, right: Seq<KeyView>) -> bool {
    &&& left.len() == right.len()
    &&& forall|i: int|
        0 <= i < left.len() ==> {
            &&& (#[trigger] left[i]).well_formed() && right[i].well_formed()
            &&& left[i].blob == right[i].blob && left[i].user == right[i].user
        }
}

/// What is found in either list is the same but for the comment.
proof fn lemma_same_but_for_comments(
    left: Seq<KeyView>,
    right: Seq<KeyView>,
    fingerprint: Seq<char>,
)
    requires
        same_but_for_comments(left, right),
    ensures
        match (held(left, fingerprint), held(right, fingerprint)) {
            (Some(l), Some(r)) => l.blob == r.blob && l.user == r.user && l.material == r.material,
            (None, None) => true,
            _ => false,
        },
    decreases left.len(),
{
    if left.len() > 0 {
        assert(left[0].well_formed());
        keys_with_one_blob_answer_alike(left[0], right[0], seq![], seq![]);
        let (l, r) = (left.drop_first(), right.drop_first());
        assert forall|i: int| 0 <= i < l.len() implies {
            &&& (#[trigger] l[i]).well_formed() && r[i].well_formed()
            &&& l[i].blob == r[i].blob && l[i].user == r[i].user
        } by {
            assert(left[i + 1].well_formed());
        }
        lemma_same_but_for_comments(l, r, fingerprint);
    }
}

/// The blobs and the users of the keys decide every answer: the comments change
/// none.
pub proof fn comments_change_no_answer(
    left: Seq<KeyView>,
    right: Seq<KeyView>,
    presented: PresentedView,
)
    requires
        same_but_for_comments(left, right),
    ensures
        verdict(left, presented) == verdict(right, presented),
{
    lemma_same_but_for_comments(left, right, claimed_fingerprint(presented.value));
}

/// More keys behind the others leave every proven claim proven.
pub proof fn more_keys_leave_what_is_proven(
    keys: Seq<KeyView>,
    more: Seq<KeyView>,
    presented: PresentedView,
)
    requires
        verdict(keys, presented) is Ok,
    ensures
        verdict(keys + more, presented) is Ok,
{
    lemma_held_together(keys, more, claimed_fingerprint(presented.value));
}

} // verus!
