//! The ssh-key authenticator: whether a peer proved that it holds one of the
//! keys the node has authorized.

use vstd::prelude::*;
use vstd::string::*;

use crate::encoding::{decode_leniently, decoded_leniently};
use crate::error::{outcome, AuthenticateError};
use crate::key::{blob_fingerprint, parsed_line, signature_verdict, AuthorizedKey, KeyView};
use crate::mechanism::{ssh_key, Mechanism};
use crate::presented::{lookup, Presented, PresentedView, Verified};
use crate::signed::{read_signed, Signed};
use crate::text::{
    all_chars, chars_of, decimal, decimal_text, lines, same, same_bytes, split_lines, text_of, trim,
    trim_trailing, trimmed, without_trailing,
};

verus! {

/// The proof that the signature blob is attached under, base64.
pub const SIGNATURE_PROOF: &'static str = "ssh-key.signature";

/// The proof that the signed session bytes are attached under, base64.
pub const SESSION_PROOF: &'static str = "ssh-key.session";

/// The evidence a transport reports the SSH user name under, where the
/// session bytes do not carry it.
pub const USER: &'static str = "ssh.user";

/// The ssh-key authenticator: the keys the node holds as authorized.
#[derive(Debug)]
pub struct Verifier {
    keys: Vec<AuthorizedKey>,
}

/// What keys are, in order.
pub open spec fn keys_view(keys: Seq<AuthorizedKey>) -> Seq<KeyView> {
    keys.map_values(|key: AuthorizedKey| key@)
}

impl View for Verifier {
    type V = Seq<KeyView>;

    closed spec fn view(&self) -> Seq<KeyView> {
        keys_view(self.keys@)
    }
}

/// A line of an `authorized_keys` file that is passed over, once trimmed:
/// blank, or a comment.
pub open spec fn passed_over(line: Seq<char>) -> bool {
    line.len() == 0 || line[0] == '#'
}

/// The keys of these lines of an `authorized_keys` file, in order, or the
/// refusal of the first line that is none, by its number.
pub open spec fn keys_of_lines(lines: Seq<Seq<char>>) -> Result<Seq<KeyView>, Seq<char>>
    decreases lines.len(),
{
    if lines.len() == 0 {
        Ok(seq![])
    } else {
        match keys_of_lines(lines.drop_last()) {
            Err(refusal) => Err(refusal),
            Ok(keys) => {
                let line = trimmed(lines.last());
                if passed_over(line) {
                    Ok(keys)
                } else {
                    match parsed_line(line) {
                        Ok(key) => Ok(keys.push(key)),
                        Err(refusal) => Err(
                            "line "@ + decimal(lines.len()) + ": "@ + refusal,
                        ),
                    }
                }
            },
        }
    }
}

/// The keys of an `authorized_keys` file.
pub open spec fn keys_of_file(text: Seq<char>) -> Result<Seq<KeyView>, Seq<char>> {
    keys_of_lines(lines(text))
}

/// The first refusal among lines stays the refusal with more lines behind.
pub proof fn lemma_refusal_stays(lines: Seq<Seq<char>>, n: int)
    requires
        0 <= n <= lines.len(),
        keys_of_lines(lines.take(n)) is Err,
    ensures
        keys_of_lines(lines) == keys_of_lines(lines.take(n)),
    decreases lines.len(),
{
    if n < lines.len() {
        assert(lines.drop_last().take(n) =~= lines.take(n));
        lemma_refusal_stays(lines.drop_last(), n);
    } else {
        assert(lines.take(n) =~= lines);
    }
}

/// The bytes of the proof attached under a name.
pub open spec fn proof_bytes_view(presented: PresentedView, name: Seq<char>) -> Result<
    Seq<u8>,
    Seq<char>,
> {
    match lookup(presented.proofs, name) {
        None => Err("no "@ + name + " proof was presented"@),
        Some(encoded) => match decoded_leniently(trimmed(encoded)) {
            None => Err("the "@ + name + " proof is not base64"@),
            Some(bytes) => Ok(bytes),
        },
    }
}

/// The bytes of the proof attached under a name. Base64, padded or not:
/// transports differ.
fn proof_bytes(presented: &Presented, name: &str) -> (bytes: Result<Vec<u8>, AuthenticateError>)
    ensures
        outcome(bytes) == proof_bytes_view(presented@, name@),
{
    let encoded = match presented.proof_of(name) {
        Some(encoded) => encoded,
        None => {
            return Err(
                AuthenticateError::new(
                    String::from_str("no ").concat(name).concat(" proof was presented"),
                ),
            );
        },
    };
    let chars = chars_of(encoded);
    match decode_leniently(text_of(trim(chars.as_slice())).as_str()) {
        Some(bytes) => Ok(bytes),
        None => Err(
            AuthenticateError::new(
                String::from_str("the ").concat(name).concat(" proof is not base64"),
            ),
        ),
    }
}

/// The fingerprint a presented value claims: white space around it and base64
/// padding behind it are no part of it.
pub open spec fn claimed_fingerprint(value: Seq<char>) -> Seq<char> {
    without_trailing(trimmed(value), '=')
}

/// The first of the keys with this fingerprint.
pub open spec fn held(keys: Seq<KeyView>, fingerprint: Seq<char>) -> Option<KeyView>
    decreases keys.len(),
{
    if keys.len() == 0 {
        None
    } else if blob_fingerprint(keys[0].blob) == fingerprint {
        Some(keys[0])
    } else {
        held(keys.drop_first(), fingerprint)
    }
}

/// The user to be logged in: the one the signed data names, and where the data
/// is an opaque challenge the one the transport reported.
pub open spec fn named_user(session: Seq<u8>, reported: Option<Seq<char>>) -> Option<Seq<char>> {
    match read_signed(session) {
        Some(signed) => Some(signed.user),
        None => reported,
    }
}

/// Whether a key may stand for these session bytes at all: the key inside
/// signed data is this key, and a key narrowed to one user is used for that
/// user.
pub open spec fn admittance(
    key: KeyView,
    session: Seq<u8>,
    reported: Option<Seq<char>>,
) -> Result<(), Seq<char>> {
    let signed = read_signed(session);
    let user = named_user(session, reported);
    if signed is Some && (signed->0).blob != key.blob {
        Err("the key inside the signed data is not the key that was claimed"@)
    } else {
        match (key.user, user) {
            (None, _) => Ok(()),
            (Some(only), Some(user)) => if user == only {
                Ok(())
            } else {
                Err("the key is authorized for '"@ + only + "' and not for '"@ + user + "'"@)
            },
            (Some(only), None) => Err(
                "the key is authorized for '"@ + only
                    + "' only, and neither the signed data nor ssh.user evidence names the user"@,
            ),
        }
    }
}

/// Whether a key may stand for these session bytes at all, given the user that
/// the transport reported.
pub fn admitted(key: &AuthorizedKey, session: &[u8], reported: Option<&str>) -> (answer: Result<
    (),
    AuthenticateError,
>)
    ensures
        outcome(answer) == admittance(
            key@,
            session@,
            match reported {
                Some(user) => Some(user@),
                None => None,
            },
        ),
{
    let signed = Signed::read(session);
    let user = match signed {
        Some(signed) => {
            if !same_bytes(signed.blob, key.blob()) {
                return Err(
                    AuthenticateError::new(
                        "the key inside the signed data is not the key that was claimed".to_owned(),
                    ),
                );
            }
            Some(signed.user)
        },
        None => reported,
    };
    match (key.user(), user) {
        (None, _) => Ok(()),
        (Some(only), Some(user)) => if same(user, only) {
            Ok(())
        } else {
            Err(
                AuthenticateError::new(
                    String::from_str("the key is authorized for '").concat(only).concat(
                        "' and not for '",
                    ).concat(user).concat("'"),
                ),
            )
        },
        (Some(only), None) => Err(
            AuthenticateError::new(
                String::from_str("the key is authorized for '").concat(only).concat(
                    "' only, and neither the signed data nor ssh.user evidence names the user",
                ),
            ),
        ),
    }
}

/// The answer to what was presented, where `keys` are the keys authorized.
pub open spec fn verdict(keys: Seq<KeyView>, presented: PresentedView) -> Result<
    Verified,
    Seq<char>,
> {
    let claimed = claimed_fingerprint(presented.value);
    if presented.mechanism != "ssh-key"@ {
        Err(
            "'"@ + presented.mechanism
                + "' was presented and this authenticator verifies ssh-key"@,
        )
    } else {
        match proof_bytes_view(presented, SIGNATURE_PROOF@) {
            Err(refusal) => Err(refusal),
            Ok(signature) => match proof_bytes_view(presented, SESSION_PROOF@) {
                Err(refusal) => Err(refusal),
                Ok(session) => match held(keys, claimed) {
                    None => Err(
                        "the node holds no authorized key with the fingerprint "@ + claimed,
                    ),
                    Some(key) => match admittance(
                        key,
                        session,
                        lookup(presented.evidence, USER@),
                    ) {
                        Err(refusal) => Err(refusal),
                        Ok(_) => match signature_verdict(key.material, session, signature) {
                            Err(refusal) => Err(refusal),
                            Ok(_) => Ok(Verified::Proven),
                        },
                    },
                },
            },
        }
    }
}

impl Clone for Verifier {
    fn clone(&self) -> (copy: Self)
        ensures
            copy@ == self@,
    {
        let mut keys: Vec<AuthorizedKey> = Vec::new();
        let mut i: usize = 0;
        while i < self.keys.len()
            invariant
                i <= self.keys.len(),
                keys_view(keys@) == keys_view(self.keys@).take(i as int),
            decreases self.keys.len() - i,
        {
            let key = self.keys[i].clone();
            proof {
                assert(keys_view(keys@.push(key)) =~= keys_view(keys@).push(key@));
                assert(keys_view(self.keys@).take(i + 1) =~= keys_view(self.keys@).take(
                    i as int,
                ).push(key@));
            }
            keys.push(key);
            i += 1;
        }
        assert(keys_view(self.keys@).take(i as int) =~= keys_view(self.keys@));
        Verifier { keys }
    }
}

impl Verifier {
    /// Verifies against these keys.
    #[must_use]
    pub fn new(keys: Vec<AuthorizedKey>) -> (verifier: Self)
        ensures
            verifier@ == keys_view(keys@),
    {
        Verifier { keys }
    }

    /// Read an `authorized_keys` file: one key a line, blank lines and `#`
    /// comments passed over.
    ///
    /// Refused where a line is not a key this gate reads; the message gives
    /// the line's number.
    pub fn from_authorized_keys(text: &str) -> (read: Result<Self, AuthenticateError>)
        ensures
            outcome(read) == keys_of_file(text@),
    {
        let chars = chars_of(text);
        let found = split_lines(chars.as_slice());
        let ghost all = lines(text@);
        let mut keys: Vec<AuthorizedKey> = Vec::new();
        let mut i: usize = 0;
        assert(all_chars(found@).len() == found@.len());
        assert(keys_view(keys@) =~= seq![]);
        while i < found.len()
            invariant
                i <= found.len(),
                found@.len() == all.len(),
                all == all_chars(found@),
                all == lines(text@),
                keys_of_lines(all.take(i as int)) == Ok::<Seq<KeyView>, Seq<char>>(
                    keys_view(keys@),
                ),
            decreases found.len() - i,
        {
            let ghost now = all.take(i + 1);
            assert(now.drop_last() =~= all.take(i as int));
            assert(now.last() == found@[i as int]@);
            let line = trim(found[i]);
            if line.len() != 0 && line[0] != '#' {
                match AuthorizedKey::parse_chars(line) {
                    Ok(key) => {
                        assert(keys_view(keys@.push(key)) =~= keys_view(keys@).push(key@));
                        keys.push(key);
                    },
                    Err(refusal) => {
                        proof {
                            lemma_refusal_stays(all, i + 1);
                        }
                        let number = decimal_text(i + 1);
                        return Err(
                            AuthenticateError::new(
                                String::from_str("line ").concat(number.as_str()).concat(
                                    ": ",
                                ).concat(refusal.message.as_str()),
                            ),
                        );
                    },
                }
            }
            i += 1;
        }
        assert(all.take(i as int) =~= all);
        Ok(Verifier::new(keys))
    }

    /// The mechanism this authenticator verifies.
    #[must_use]
    pub fn mechanism(&self) -> (mechanism: Mechanism)
        ensures
            mechanism@ == "ssh-key"@,
    {
        ssh_key()
    }

    /// The first of the keys with this fingerprint.
    pub fn find(&self, fingerprint: &str) -> (found: Option<&AuthorizedKey>)
        ensures
            match found {
                Some(key) => held(self@, fingerprint@) == Some(key@) && key@.well_formed(),
                None => held(self@, fingerprint@) is None,
            },
    {
        let mut i: usize = 0;
        assert(self@.skip(0) =~= self@);
        while i < self.keys.len()
            invariant
                i <= self.keys.len(),
                held(self@, fingerprint@) == held(self@.skip(i as int), fingerprint@),
            decreases self.keys.len() - i,
        {
            assert(self@.skip(i as int)[0] == self.keys@[i as int]@);
            if same(self.keys[i].fingerprint().as_str(), fingerprint) {
                return Some(&self.keys[i]);
            }
            assert(self@.skip(i as int).drop_first() =~= self@.skip(i + 1));
            i += 1;
        }
        None
    }

    /// Verify what was presented: the key it claims is one the node holds, the
    /// key may stand for the session bytes, and the signature over them is the
    /// key's.
    pub fn verify(&self, presented: &Presented) -> (answer: Result<Verified, AuthenticateError>)
        ensures
            outcome(answer) == verdict(self@, presented@),
            answer is Ok ==> held(
                self@,
                claimed_fingerprint(presented@.value),
            )->0.well_formed(),
    {
        let name = presented.mechanism.name();
        if !same(name, self.mechanism().name()) {
            return Err(
                AuthenticateError::new(
                    String::from_str("'").concat(name).concat(
                        "' was presented and this authenticator verifies ssh-key",
                    ),
                ),
            );
        }
        let signature = proof_bytes(presented, SIGNATURE_PROOF)?;
        let session = proof_bytes(presented, SESSION_PROOF)?;

        let chars = chars_of(presented.value.as_str());
        let claimed = text_of(trim_trailing(trim(chars.as_slice()), '='));
        let key = match self.find(claimed.as_str()) {
            Some(key) => key,
            None => {
                return Err(
                    AuthenticateError::new(
                        String::from_str(
                            "the node holds no authorized key with the fingerprint ",
                        ).concat(claimed.as_str()),
                    ),
                );
            },
        };

        admitted(key, session.as_slice(), presented.evidence_of(USER))?;
        key.verify(session.as_slice(), signature.as_slice())?;
        Ok(Verified::Proven)
    }
}

} // verus!
