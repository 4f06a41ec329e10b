//! Laws of the authenticator in full: who is admitted, which claim is proven, and
//! what each other one is refused for.

use vstd::prelude::*;

use crate::crypto::sha256;
use crate::encoding::{decoded_leniently, encodes, unpadded};
use crate::gate::{
    admittance, claimed_fingerprint, held, named_user, proof_bytes_view, verdict, SESSION_PROOF,
    SIGNATURE_PROOF, USER,
};
use crate::key::{blob_fingerprint, signature_verdict, KeyView};
use crate::laws::accept::{
    accepts, a_signature_is_accepted_where_it_is_written_so, modulus_is_bare,
};
use crate::laws::blob::{a_fingerprint_is_of_the_whole_blob, one_fingerprint_is_one_digest};
use crate::laws::encoding::what_is_no_base64_is_not_decoded;
use crate::laws::gate::{
    a_claimed_fingerprint_is_read, a_key_is_found_by_its_fingerprint,
    a_proof_is_read_as_it_was_attached, the_first_key_with_a_fingerprint_is_found,
};
use crate::laws::presented::{a_text_is_found_where_it_is_the_first_under_its_name, first_under};
use crate::laws::signed::{is_signed_data, signed_data_is_what_a_client_signs};
use crate::laws::text::{
    a_text_is_what_is_left_and_trailing_characters, a_text_is_what_trimming_leaves_in_white_space,
    all_whitespace, trailing_characters_are_taken_off, white_space_around_is_trimmed,
};
use crate::presented::{lookup, PresentedView, Verified};
use crate::signed::read_signed;
use crate::text::{trimmed, whitespace};

verus! {

/// The session bytes are no signed data of any user and key: an opaque
/// challenge.
pub open spec fn opaque_challenge(session: Seq<u8>) -> bool {
    forall|user: Seq<char>, blob: Seq<u8>| !#[trigger] is_signed_data(session, user, blob)
}

/// Signed data is read where there is some, and an opaque challenge is not.
proof fn lemma_signed(session: Seq<u8>)
    ensures
        read_signed(session) is None <==> opaque_challenge(session),
        read_signed(session) matches Some(signed) ==> is_signed_data(
            session,
            signed.user,
            signed.blob,
        ),
{
    if let Some(signed) = read_signed(session) {
        signed_data_is_what_a_client_signs(session, signed.user, signed.blob);
    }
    if !opaque_challenge(session) {
        let (user, blob) = choose|user: Seq<char>, blob: Seq<u8>| #[trigger]
            is_signed_data(session, user, blob);
        signed_data_is_what_a_client_signs(session, user, blob);
    }
}

/// The user is the one that the signed data names, by the whole name; where the
/// session bytes are an opaque challenge it is the one that was reported, if any.
pub proof fn the_user_is_the_one_that_is_named(
    session: Seq<u8>,
    reported: Option<Seq<char>>,
    user: Seq<char>,
    blob: Seq<u8>,
)
    ensures
        is_signed_data(session, user, blob) ==> named_user(session, reported) == Some(user),
        opaque_challenge(session) ==> named_user(session, reported) == reported,
{
    lemma_signed(session);
    signed_data_is_what_a_client_signs(session, user, blob);
}

/// A key may be used for these session bytes by its users: it is narrowed to no
/// user, or to the one that the signed data names, or to the one that was
/// reported for an opaque challenge.
pub open spec fn is_of_the_user(
    key: KeyView,
    session: Seq<u8>,
    reported: Option<Seq<char>>,
) -> bool {
    match key.user {
        None => true,
        Some(only) => is_signed_data(session, only, key.blob) || (opaque_challenge(session)
            && reported == Some(only)),
    }
}

/// A key may stand for session bytes exactly where no signed data of another key
/// is there and the key is of the user, whatever the length of the bytes.
pub proof fn a_key_is_admitted_where_nothing_speaks_against_it(
    key: KeyView,
    session: Seq<u8>,
    reported: Option<Seq<char>>,
)
    ensures
        admittance(key, session, reported) is Ok <==> {
            &&& forall|user: Seq<char>, blob: Seq<u8>| #[trigger]
                is_signed_data(session, user, blob) ==> blob == key.blob
            &&& is_of_the_user(key, session, reported)
        },
{
    lemma_signed(session);
    if let Some(signed) = read_signed(session) {
        assert forall|user: Seq<char>, blob: Seq<u8>| #[trigger]
            is_signed_data(session, user, blob) implies user == signed.user && blob
            == signed.blob by {
            signed_data_is_what_a_client_signs(session, user, blob);
        }
    }
}

/// An opaque challenge is admitted for every key that is narrowed to no user, and
/// so is signed data that names the key, of whatever user.
pub proof fn a_key_for_any_user_is_admitted(
    key: KeyView,
    session: Seq<u8>,
    reported: Option<Seq<char>>,
    user: Seq<char>,
)
    requires
        key.user is None,
        opaque_challenge(session) || is_signed_data(session, user, key.blob),
    ensures
        admittance(key, session, reported) is Ok,
{
    lemma_signed(session);
    signed_data_is_what_a_client_signs(session, user, key.blob);
}

/// A key is refused for the first that speaks against it: the other key in the
/// signed data, the other user, or that no user is named.
pub proof fn a_key_is_refused_for_what_speaks_against_it(
    key: KeyView,
    session: Seq<u8>,
    reported: Option<Seq<char>>,
    only: Seq<char>,
    user: Seq<char>,
    blob: Seq<u8>,
)
    ensures
        is_signed_data(session, user, blob) && blob != key.blob ==> admittance(
            key,
            session,
            reported,
        ) == Err::<(), Seq<char>>(
            "the key inside the signed data is not the key that was claimed"@,
        ),
        key.user == Some(only) && user != only && (is_signed_data(session, user, key.blob) || (
        opaque_challenge(session) && reported == Some(user))) ==> admittance(key, session, reported)
            == Err::<(), Seq<char>>(
            "the key is authorized for '"@ + only + "' and not for '"@ + user + "'"@,
        ),
        key.user == Some(only) && opaque_challenge(session) && reported is None ==> admittance(
            key,
            session,
            reported,
        ) == Err::<(), Seq<char>>(
            "the key is authorized for '"@ + only
                + "' only, and neither the signed data nor ssh.user evidence names the user"@,
        ),
{
    lemma_signed(session);
    signed_data_is_what_a_client_signs(session, user, blob);
    signed_data_is_what_a_client_signs(session, user, key.blob);
}

/// The fingerprint that is claimed is what is left of the presented value without
/// the white space around it and then without the `=` behind it, whatever the
/// value.
pub proof fn the_claim_is_what_is_between(
    before: Seq<char>,
    claim: Seq<char>,
    padding: nat,
    behind: Seq<char>,
)
    requires
        all_whitespace(before),
        all_whitespace(behind),
        claim.len() > 0 ==> !whitespace(claim[0]) && claim.last() != '=',
        claim.len() > 0 && padding == 0 ==> !whitespace(claim.last()),
    ensures
        claimed_fingerprint(before + (claim + Seq::new(padding, |i: int| '=')) + behind) == claim,
{
    let written = claim + Seq::new(padding, |i: int| '=');
    if padding > 0 {
        assert(written.last() == '=');
        if claim.len() == 0 {
            assert(written[0] == '=');
        }
    } else {
        assert(written =~= claim);
    }
    white_space_around_is_trimmed(before, written, behind);
    trailing_characters_are_taken_off(claim, '=', padding);
}

/// A presented value that claims the key of a blob: its fingerprint, with white
/// space around it and `=` behind it.
pub open spec fn claim(before: Seq<char>, blob: Seq<u8>, padding: nat, behind: Seq<char>) -> Seq<
    char,
> {
    before + ("SHA256:"@ + unpadded(sha256(blob)@) + Seq::new(padding, |i: int| '=')) + behind
}

/// `value` claims the key of a blob.
pub open spec fn claims(value: Seq<char>, blob: Seq<u8>) -> bool {
    exists|before: Seq<char>, padding: nat, behind: Seq<char>|
        {
            &&& all_whitespace(before) && all_whitespace(behind)
            &&& value == #[trigger] claim(before, blob, padding, behind)
        }
}

/// The fingerprint that is claimed is that of a blob exactly where the value
/// claims the key of that blob.
pub proof fn a_key_is_claimed_by_its_fingerprint(value: Seq<char>, blob: Seq<u8>)
    ensures
        claimed_fingerprint(value) == blob_fingerprint(blob) <==> claims(value, blob),
{
    a_fingerprint_is_of_the_whole_blob(blob, sha256(blob)@);
    if claimed_fingerprint(value) == blob_fingerprint(blob) {
        let (before, behind) = a_text_is_what_trimming_leaves_in_white_space(value);
        let n = a_text_is_what_is_left_and_trailing_characters(trimmed(value), '=');
        assert(value == claim(before, blob, n, behind));
    }
    if claims(value, blob) {
        let (before, padding, behind) = choose|
            before: Seq<char>,
            padding: nat,
            behind: Seq<char>,
        |
            {
                &&& all_whitespace(before) && all_whitespace(behind)
                &&& value == #[trigger] claim(before, blob, padding, behind)
            };
        a_claimed_fingerprint_is_read(before, blob, padding, behind);
    }
}

/// A text with others around it.
pub open spec fn around(before: Seq<char>, text: Seq<char>, behind: Seq<char>) -> Seq<char> {
    before + text + behind
}

/// The first text under `name` is base64 of `bytes`, with white space around it.
pub open spec fn attached(
    pairs: Seq<(Seq<char>, Seq<char>)>,
    name: Seq<char>,
    bytes: Seq<u8>,
) -> bool {
    exists|before: Seq<char>, text: Seq<char>, behind: Seq<char>|
        {
            &&& all_whitespace(before) && all_whitespace(behind) && encodes(text, bytes)
            &&& first_under(pairs, name, #[trigger] around(before, text, behind))
        }
}

/// The bytes of a proof are those that are attached under its name, and a proof
/// without such bytes is refused as missing or as no base64.
pub proof fn a_proof_is_what_is_attached_under_its_name(
    presented: PresentedView,
    name: Seq<char>,
    bytes: Seq<u8>,
)
    ensures
        proof_bytes_view(presented, name) == Ok::<Seq<u8>, Seq<char>>(bytes) <==> attached(
            presented.proofs,
            name,
            bytes,
        ),
        (forall|i: int| 0 <= i < presented.proofs.len() ==> (#[trigger] presented.proofs[i]).0
            != name) ==> proof_bytes_view(presented, name) == Err::<Seq<u8>, Seq<char>>(
            "no "@ + name + " proof was presented"@,
        ),
        (exists|i: int| 0 <= i < presented.proofs.len() && (#[trigger] presented.proofs[i]).0
            == name) && (forall|other: Seq<u8>| !#[trigger]
            attached(presented.proofs, name, other)) ==> proof_bytes_view(presented, name) == Err::<
            Seq<u8>,
            Seq<char>,
        >("the "@ + name + " proof is not base64"@),
{
    let pairs = presented.proofs;
    a_text_is_found_where_it_is_the_first_under_its_name(pairs, name, seq![]);
    if let Some(found) = lookup(pairs, name) {
        let (before, behind) = a_text_is_what_trimming_leaves_in_white_space(found);
        a_text_is_found_where_it_is_the_first_under_its_name(pairs, name, found);
        if let Some(read) = decoded_leniently(trimmed(found)) {
            what_is_no_base64_is_not_decoded(trimmed(found));
            assert(encodes(trimmed(found), read));
            assert(found == around(before, trimmed(found), behind));
            assert(attached(pairs, name, read));
        }
    }
    if attached(pairs, name, bytes) {
        let (before, text, behind) = choose|
            before: Seq<char>,
            text: Seq<char>,
            behind: Seq<char>,
        |
            {
                &&& all_whitespace(before) && all_whitespace(behind) && encodes(text, bytes)
                &&& first_under(pairs, name, #[trigger] around(before, text, behind))
            };
        a_text_is_found_where_it_is_the_first_under_its_name(
            pairs,
            name,
            around(before, text, behind),
        );
        a_proof_is_read_as_it_was_attached(presented, name, before, text, behind, bytes);
    }
}

/// The user that the transport reported: the first under `ssh.user`.
pub open spec fn reported(presented: PresentedView, user: Seq<char>) -> bool {
    first_under(presented.evidence, "ssh.user"@, user)
}

/// This signature over these session bytes proves the `i`-th key: an ssh-key is
/// presented with both as base64, the key is the first one held that the value
/// claims, nothing speaks against it, and the signature is accepted with it.
pub open spec fn proves(
    keys: Seq<KeyView>,
    presented: PresentedView,
    i: int,
    session: Seq<u8>,
    signature: Seq<u8>,
) -> bool {
    &&& 0 <= i < keys.len()
    &&& presented.mechanism == "ssh-key"@
    &&& attached(presented.proofs, "ssh-key.signature"@, signature)
    &&& attached(presented.proofs, "ssh-key.session"@, session)
    &&& claims(presented.value, keys[i].blob)
    &&& forall|j: int| 0 <= j < i ==> sha256((#[trigger] keys[j]).blob) != sha256(keys[i].blob)
    &&& forall|user: Seq<char>, blob: Seq<u8>| #[trigger]
        is_signed_data(session, user, blob) ==> blob == keys[i].blob
    &&& keys[i].user matches Some(only) ==> is_signed_data(session, only, keys[i].blob) || (
    opaque_challenge(session) && reported(presented, only))
    &&& accepts(keys[i].material, session, signature)
}

/// The key that is found is the first that has the fingerprint.
proof fn lemma_first(keys: Seq<KeyView>, fingerprint: Seq<char>) -> (i: int)
    requires
        held(keys, fingerprint) is Some,
    ensures
        0 <= i < keys.len(),
        held(keys, fingerprint) == Some(keys[i]),
        blob_fingerprint(keys[i].blob) == fingerprint,
        forall|j: int| 0 <= j < i ==> blob_fingerprint((#[trigger] keys[j]).blob) != fingerprint,
    decreases keys.len(),
{
    if blob_fingerprint(keys[0].blob) == fingerprint {
        0
    } else {
        let others = keys.drop_first();
        let i = lemma_first(others, fingerprint);
        assert forall|j: int| 0 <= j < i + 1 implies blob_fingerprint((#[trigger] keys[j]).blob)
            != fingerprint by {
            if j > 0 {
                assert(blob_fingerprint(others[j - 1].blob) != fingerprint);
            }
        }
        i + 1
    }
}

/// What proves a key is proven.
proof fn lemma_proven(
    keys: Seq<KeyView>,
    presented: PresentedView,
    i: int,
    session: Seq<u8>,
    signature: Seq<u8>,
)
    requires
        proves(keys, presented, i, session, signature),
        modulus_is_bare(keys[i].material),
    ensures
        verdict(keys, presented) is Ok,
{
    let key = keys[i];
    a_proof_is_what_is_attached_under_its_name(presented, "ssh-key.signature"@, signature);
    a_proof_is_what_is_attached_under_its_name(presented, "ssh-key.session"@, session);
    a_key_is_claimed_by_its_fingerprint(presented.value, key.blob);
    let before = keys.take(i);
    assert forall|j: int| 0 <= j < before.len() implies blob_fingerprint(
        (#[trigger] before[j]).blob,
    ) != blob_fingerprint(key.blob) by {
        assert(before[j] == keys[j]);
        one_fingerprint_is_one_digest(keys[j].blob, key.blob);
    }
    the_first_key_with_a_fingerprint_is_found(before, key, keys.skip(i + 1));
    assert(before + seq![key] + keys.skip(i + 1) =~= keys);
    if let Some(only) = key.user {
        a_text_is_found_where_it_is_the_first_under_its_name(
            presented.evidence,
            "ssh.user"@,
            only,
        );
    }
    a_key_is_admitted_where_nothing_speaks_against_it(
        key,
        session,
        lookup(presented.evidence, USER@),
    );
    a_signature_is_accepted_where_it_is_written_so(key.material, session, signature);
}

/// What is proven was proven of a key.
proof fn lemma_proves(keys: Seq<KeyView>, presented: PresentedView)
    requires
        verdict(keys, presented) is Ok,
        forall|i: int| 0 <= i < keys.len() ==> modulus_is_bare((#[trigger] keys[i]).material),
    ensures
        exists|i: int, session: Seq<u8>, signature: Seq<u8>| #[trigger]
            proves(keys, presented, i, session, signature),
{
    let signature = proof_bytes_view(presented, SIGNATURE_PROOF@)->Ok_0;
    let session = proof_bytes_view(presented, SESSION_PROOF@)->Ok_0;
    let i = lemma_first(keys, claimed_fingerprint(presented.value));
    let key = keys[i];
    a_proof_is_what_is_attached_under_its_name(presented, "ssh-key.signature"@, signature);
    a_proof_is_what_is_attached_under_its_name(presented, "ssh-key.session"@, session);
    a_key_is_claimed_by_its_fingerprint(presented.value, key.blob);
    assert forall|j: int| 0 <= j < i implies sha256((#[trigger] keys[j]).blob) != sha256(
        key.blob,
    ) by {
        one_fingerprint_is_one_digest(keys[j].blob, key.blob);
    }
    if let Some(only) = key.user {
        a_text_is_found_where_it_is_the_first_under_its_name(
            presented.evidence,
            "ssh.user"@,
            only,
        );
    }
    a_key_is_admitted_where_nothing_speaks_against_it(
        key,
        session,
        lookup(presented.evidence, USER@),
    );
    assert(modulus_is_bare(key.material));
    a_signature_is_accepted_where_it_is_written_so(key.material, session, signature);
    assert(proves(keys, presented, i, session, signature));
}

/// What is presented is proven exactly where some signature over some session
/// bytes that it carries proves one of the keys.
pub proof fn a_claim_is_proven_where_a_signature_proves_a_key(
    keys: Seq<KeyView>,
    presented: PresentedView,
)
    requires
        forall|i: int| 0 <= i < keys.len() ==> modulus_is_bare((#[trigger] keys[i]).material),
    ensures
        verdict(keys, presented) == Ok::<Verified, Seq<char>>(Verified::Proven) <==> exists|
            i: int,
            session: Seq<u8>,
            signature: Seq<u8>,
        | #[trigger]
            proves(keys, presented, i, session, signature),
{
    if verdict(keys, presented) is Ok {
        lemma_proves(keys, presented);
    }
    if exists|i: int, session: Seq<u8>, signature: Seq<u8>| #[trigger]
        proves(keys, presented, i, session, signature) {
        let (i, session, signature) = choose|i: int, session: Seq<u8>, signature: Seq<u8>|
            #[trigger]
            proves(keys, presented, i, session, signature);
        assert(modulus_is_bare(keys[i].material));
        lemma_proven(keys, presented, i, session, signature);
    }
}

/// A claim with both proofs is refused for the first that fails: no held key has
/// the fingerprint, something speaks against the key, or the signature is not
/// accepted with it.
pub proof fn a_claim_is_refused_for_its_first_fault(
    keys: Seq<KeyView>,
    presented: PresentedView,
    session: Seq<u8>,
    signature: Seq<u8>,
    i: int,
)
    requires
        presented.mechanism == "ssh-key"@,
        attached(presented.proofs, "ssh-key.signature"@, signature),
        attached(presented.proofs, "ssh-key.session"@, session),
    ensures
        (forall|j: int| 0 <= j < keys.len() ==> !claims(presented.value, (#[trigger] keys[j]).blob))
            ==> verdict(keys, presented) == Err::<Verified, Seq<char>>(
            "the node holds no authorized key with the fingerprint "@ + claimed_fingerprint(
                presented.value,
            ),
        ),
        0 <= i < keys.len() && claims(presented.value, keys[i].blob) && (forall|j: int|
            0 <= j < i ==> sha256((#[trigger] keys[j]).blob) != sha256(keys[i].blob)) ==> match (
            admittance(keys[i], session, lookup(presented.evidence, "ssh.user"@)),
            signature_verdict(keys[i].material, session, signature),
        ) {
            (Err(refusal), _) => verdict(keys, presented) == Err::<Verified, Seq<char>>(refusal),
            (Ok(_), Err(refusal)) => verdict(keys, presented) == Err::<Verified, Seq<char>>(
                refusal,
            ),
            (Ok(_), Ok(_)) => verdict(keys, presented) == Ok::<Verified, Seq<char>>(
                Verified::Proven,
            ),
        },
{
    let claimed = claimed_fingerprint(presented.value);
    a_proof_is_what_is_attached_under_its_name(presented, "ssh-key.signature"@, signature);
    a_proof_is_what_is_attached_under_its_name(presented, "ssh-key.session"@, session);
    a_key_is_found_by_its_fingerprint(keys, claimed);
    if forall|j: int| 0 <= j < keys.len() ==> !claims(
        presented.value,
        (#[trigger] keys[j]).blob,
    ) {
        assert forall|j: int| 0 <= j < keys.len() implies blob_fingerprint(
            (#[trigger] keys[j]).blob,
        ) != claimed by {
            a_key_is_claimed_by_its_fingerprint(presented.value, keys[j].blob);
        }
    }
    if 0 <= i < keys.len() && claims(presented.value, keys[i].blob) && (forall|j: int|
        0 <= j < i ==> sha256((#[trigger] keys[j]).blob) != sha256(keys[i].blob)) {
        let key = keys[i];
        let before = keys.take(i);
        a_key_is_claimed_by_its_fingerprint(presented.value, key.blob);
        assert forall|j: int| 0 <= j < before.len() implies blob_fingerprint(
            (#[trigger] before[j]).blob,
        ) != blob_fingerprint(key.blob) by {
            assert(before[j] == keys[j]);
            one_fingerprint_is_one_digest(keys[j].blob, key.blob);
        }
        the_first_key_with_a_fingerprint_is_found(before, key, keys.skip(i + 1));
        assert(before + seq![key] + keys.skip(i + 1) =~= keys);
    }
}

/// What is presented under another mechanism, or without one of the two proofs,
/// is refused by that name.
pub proof fn a_claim_without_its_parts_is_refused(
    keys: Seq<KeyView>,
    presented: PresentedView,
    signature: Seq<u8>,
)
    ensures
        presented.mechanism != "ssh-key"@ ==> verdict(keys, presented) == Err::<
            Verified,
            Seq<char>,
        >(
            "'"@ + presented.mechanism
                + "' was presented and this authenticator verifies ssh-key"@,
        ),
        presented.mechanism == "ssh-key"@ && (forall|other: Seq<u8>| !#[trigger]
            attached(presented.proofs, "ssh-key.signature"@, other)) ==> verdict(keys, presented)
            == Err::<Verified, Seq<char>>(
            if exists|i: int|
                0 <= i < presented.proofs.len() && (#[trigger] presented.proofs[i]).0
                    == "ssh-key.signature"@ {
                "the "@ + "ssh-key.signature"@ + " proof is not base64"@
            } else {
                "no "@ + "ssh-key.signature"@ + " proof was presented"@
            },
        ),
        presented.mechanism == "ssh-key"@ && attached(
            presented.proofs,
            "ssh-key.signature"@,
            signature,
        ) && (forall|other: Seq<u8>| !#[trigger]
            attached(presented.proofs, "ssh-key.session"@, other)) ==> verdict(keys, presented)
            == Err::<Verified, Seq<char>>(
            if exists|i: int|
                0 <= i < presented.proofs.len() && (#[trigger] presented.proofs[i]).0
                    == "ssh-key.session"@ {
                "the "@ + "ssh-key.session"@ + " proof is not base64"@
            } else {
                "no "@ + "ssh-key.session"@ + " proof was presented"@
            },
        ),
{
    a_proof_is_what_is_attached_under_its_name(presented, "ssh-key.signature"@, signature);
    a_proof_is_what_is_attached_under_its_name(presented, "ssh-key.session"@, signature);
}

} // verus!
