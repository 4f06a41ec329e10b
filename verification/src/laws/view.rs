//! Laws of the views: what each value of the library stands for, part by part.

use vstd::prelude::*;

use crate::error::{outcome, AuthenticateError};
use crate::gate::keys_view;
use crate::key::{AuthorizedKey, Check, CheckView, Material, MaterialView};
use crate::presented::{pairs_view, Presented, Verified};
use crate::signed::Signed;
use crate::text::all_chars;

verus! {

/// What came of a check is the value that it gave, or the reason in the words
/// that it refused with.
pub proof fn an_outcome_is_the_value_or_the_reason<T: View>(result: Result<T, AuthenticateError>)
    ensures
        outcome(result) is Ok <==> result is Ok,
        result matches Ok(value) ==> outcome(result)->Ok_0 == value@,
        result matches Err(refusal) ==> outcome(result)->Err_0 == refusal.message@,
{
}

/// The fields of a key stand for their bytes, under their kind of key.
pub proof fn material_is_its_bytes(material: Material)
    ensures
        material matches Material::Ed25519(key) ==> material@ == MaterialView::Ed25519(key@),
        material matches Material::P256(point) ==> material@ == MaterialView::P256(point@),
        material matches Material::Rsa { exponent, modulus } ==> material@ == (MaterialView::Rsa {
            exponent: exponent@,
            modulus: modulus@,
        }),
{
}

/// A check stands for the bytes that it is made over, under its kind of key.
pub proof fn a_check_is_its_bytes(check: Check<'_>)
    ensures
        check matches Check::Ed25519 { key, signature } ==> check@ == (CheckView::Ed25519 {
            key: key@,
            signature: signature@,
        }),
        check matches Check::P256 { point, r, s } ==> check@ == (CheckView::P256 {
            point: point@,
            r: r@,
            s: s@,
        }),
        check matches Check::Rsa { exponent, modulus, whole } ==> check@ == (CheckView::Rsa {
            exponent: exponent@,
            modulus: modulus@,
            whole: whole@,
        }),
        check is Never ==> check@ == CheckView::Never,
{
}

/// Signed data stands for the user and the blob that it names.
pub proof fn signed_data_is_its_user_and_blob(signed: Signed<'_>)
    ensures
        signed@.user == signed.user@,
        signed@.blob == signed.blob@,
{
}

/// What is presented stands for its mechanism, its value, and the names and
/// texts that are attached and reported, in their order.
pub proof fn what_is_presented_is_its_texts(presented: Presented, i: int)
    ensures
        presented@.mechanism == presented.mechanism@,
        presented@.value == presented.value@,
        presented@.proofs.len() == presented.proofs@.len(),
        presented@.evidence.len() == presented.evidence@.len(),
        0 <= i < presented.proofs@.len() ==> presented@.proofs[i] == (
            presented.proofs@[i].0@,
            presented.proofs@[i].1@,
        ),
        0 <= i < presented.evidence@.len() ==> presented@.evidence[i] == (
            presented.evidence@[i].0@,
            presented.evidence@[i].1@,
        ),
{
}

/// Lists stand for what their items stand for, in their order.
pub proof fn lists_are_their_items(
    keys: Seq<AuthorizedKey>,
    pairs: Seq<(String, String)>,
    slices: Seq<&[char]>,
    i: int,
)
    ensures
        keys_view(keys).len() == keys.len(),
        pairs_view(pairs).len() == pairs.len(),
        all_chars(slices).len() == slices.len(),
        0 <= i < keys.len() ==> keys_view(keys)[i] == keys[i]@,
        0 <= i < pairs.len() ==> pairs_view(pairs)[i] == (pairs[i].0@, pairs[i].1@),
        0 <= i < slices.len() ==> all_chars(slices)[i] == slices[i]@,
{
}

/// There is one thing that can be proven, and it stands for itself.
pub proof fn what_is_proven_is_proven(verified: Verified)
    ensures
        verified@ == Verified::Proven,
{
}

} // verus!
