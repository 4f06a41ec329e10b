//! Laws of signatures: what verifies, what is refused and by which name.

use vstd::prelude::*;
use vstd::utf8::*;

use crate::crypto::{
    ed25519_verifies, encoded_message, p256_verifies, rsa_verifies, sha256,
};
use crate::key::{
    blob_fingerprint, check_holds, conclusion, signature_check, signature_verdict,
    unknown_algorithm, KeyView, MaterialView, ECDSA_P256, ED25519, RSA, RSA_SHA256,
};
use crate::laws::wire::{
    a_string_is_read_as_it_was_written, an_integer_is_read_as_it_was_written,
    an_integer_is_written_in_one_way_of_a_width, fits, mpint_value, padding_keeps_the_integer,
    padding_restores_dropped_zeros, put, put_mpint, significant_bytes, text_is_read_as_it_was_written,
};
use crate::wire::{after_string, read_string, read_text, significant, widened};

verus! {

/// The one signature algorithm that is verified with a key.
pub open spec fn algorithm_of(material: MaterialView) -> Seq<char> {
    match material {
        MaterialView::Ed25519(_) => ED25519@,
        MaterialView::P256(_) => ECDSA_P256@,
        MaterialView::Rsa { .. } => RSA_SHA256@,
    }
}

/// A signature blob, written: the algorithm's name and the signature.
pub open spec fn signature_blob(algorithm: Seq<char>, raw: Seq<u8>) -> Seq<u8> {
    put(encode_utf8(algorithm)) + put(raw)
}

/// The names of the algorithms fit a `string`, and no two are the same.
pub proof fn lemma_algorithms()
    ensures
        fits(encode_utf8(ED25519@)),
        fits(encode_utf8(ECDSA_P256@)),
        fits(encode_utf8(RSA_SHA256@)),
        fits(encode_utf8(RSA@)),
        RSA_SHA256@ != RSA@,
{
    reveal_strlit("ssh-ed25519");
    reveal_strlit("ecdsa-sha2-nistp256");
    reveal_strlit("rsa-sha2-256");
    reveal_strlit("ssh-rsa");
    is_ascii_chars_encode_utf8(ED25519@);
    is_ascii_chars_encode_utf8(ECDSA_P256@);
    is_ascii_chars_encode_utf8(RSA_SHA256@);
    is_ascii_chars_encode_utf8(RSA@);
    assert(RSA_SHA256@.len() == 12 && RSA@.len() == 7);
}

/// A key blob is the blob of one key: keys that have it have the same material
/// and fingerprint and answer every signature alike, whatever their users and
/// comments are.
pub proof fn keys_with_one_blob_answer_alike(
    left: KeyView,
    right: KeyView,
    data: Seq<u8>,
    signature: Seq<u8>,
)
    requires
        left.well_formed(),
        right.well_formed(),
        left.blob == right.blob,
    ensures
        left.material == right.material,
        blob_fingerprint(left.blob) == blob_fingerprint(right.blob),
        signature_verdict(left.material, data, signature) == signature_verdict(
            right.material,
            data,
            signature,
        ),
{
}

/// The name and the signature are read off a blob, whatever is behind them.
proof fn lemma_signature_blob(algorithm: Seq<char>, raw: Seq<u8>, rest: Seq<u8>)
    requires
        fits(encode_utf8(algorithm)),
        fits(raw),
    ensures
        read_text(signature_blob(algorithm, raw) + rest, "signature blob"@) == Ok::<
            Seq<char>,
            Seq<char>,
        >(algorithm),
        read_string(
            after_string(signature_blob(algorithm, raw) + rest),
            "signature blob"@,
        ) == Ok::<Seq<u8>, Seq<char>>(raw),
{
    assert(signature_blob(algorithm, raw) + rest =~= put(encode_utf8(algorithm)) + (put(raw)
        + rest));
    text_is_read_as_it_was_written(algorithm, put(raw) + rest, "signature blob"@);
    a_string_is_read_as_it_was_written(raw, rest, "signature blob"@);
}

/// A signature is accepted only under the one algorithm of the key that is
/// verified here, and only where the check of it holds.
pub proof fn only_the_key_s_own_algorithm_is_accepted(
    material: MaterialView,
    data: Seq<u8>,
    signature: Seq<u8>,
)
    requires
        signature_verdict(material, data, signature) is Ok,
    ensures
        read_text(signature, "signature blob"@) == Ok::<Seq<char>, Seq<char>>(
            algorithm_of(material),
        ),
        signature_check(material, signature) is Ok,
        signature_check(material, signature)->Ok_0.0 == algorithm_of(material),
        check_holds(signature_check(material, signature)->Ok_0.1, data),
{
}

/// A signature under any other algorithm is refused by that algorithm's name,
/// whatever the signature is.
pub proof fn another_algorithm_is_refused_by_name(
    material: MaterialView,
    data: Seq<u8>,
    algorithm: Seq<char>,
    raw: Seq<u8>,
    rest: Seq<u8>,
)
    requires
        fits(encode_utf8(algorithm)),
        fits(raw),
        algorithm != algorithm_of(material),
        !(material is Rsa && algorithm == RSA@),
    ensures
        signature_verdict(material, data, signature_blob(algorithm, raw) + rest) == Err::<
            (),
            Seq<char>,
        >(unknown_algorithm(algorithm)),
{
    lemma_signature_blob(algorithm, raw, rest);
}

/// A signature of an RSA key with SHA-1 is refused as such, whatever the
/// signature is.
pub proof fn sha_1_is_refused_by_name(
    exponent: Seq<u8>,
    modulus: Seq<u8>,
    data: Seq<u8>,
    raw: Seq<u8>,
    rest: Seq<u8>,
)
    requires
        fits(raw),
    ensures
        signature_verdict(
            MaterialView::Rsa { exponent, modulus },
            data,
            signature_blob(RSA@, raw) + rest,
        ) == Err::<(), Seq<char>>(
            "the signature is ssh-rsa, which is SHA-1, and this node verifies rsa-sha2-256: the client must offer it (RFC 8332)"@,
        ),
{
    lemma_algorithms();
    lemma_signature_blob(RSA@, raw, rest);
}

/// An Ed25519 signature is accepted exactly where it verifies with the key over
/// the data.
pub proof fn an_ed25519_signature_is_what_the_arithmetic_says(
    key: Seq<u8>,
    data: Seq<u8>,
    raw: Seq<u8>,
    rest: Seq<u8>,
)
    requires
        fits(raw),
    ensures
        signature_verdict(
            MaterialView::Ed25519(key),
            data,
            signature_blob(ED25519@, raw) + rest,
        ) == conclusion(ED25519@, ed25519_verifies(key, data, raw)),
{
    lemma_algorithms();
    lemma_signature_blob(ED25519@, raw, rest);
}

/// An ECDSA signature is accepted exactly where its two integers fit the curve
/// and verify with the key over the data.
pub proof fn an_ecdsa_signature_is_what_the_arithmetic_says(
    point: Seq<u8>,
    data: Seq<u8>,
    r: Seq<u8>,
    s: Seq<u8>,
    rest: Seq<u8>,
)
    requires
        fits(mpint_value(r)),
        fits(mpint_value(s)),
        fits(put_mpint(r) + put_mpint(s)),
    ensures
        signature_verdict(
            MaterialView::P256(point),
            data,
            signature_blob(ECDSA_P256@, put_mpint(r) + put_mpint(s)) + rest,
        ) == conclusion(
            ECDSA_P256@,
            significant(r).len() <= 32 && significant(s).len() <= 32 && p256_verifies(
                point,
                data,
                widened(significant(r), 32),
                widened(significant(s), 32),
            ),
        ),
{
    let raw = put_mpint(r) + put_mpint(s);
    lemma_algorithms();
    lemma_signature_blob(ECDSA_P256@, raw, rest);
    an_integer_is_read_as_it_was_written(r, put_mpint(s), "ECDSA signature"@);
    an_integer_is_read_as_it_was_written(s, seq![], "ECDSA signature"@);
    assert(put_mpint(s) + seq![] =~= put_mpint(s));
}

/// The leading zeros of an integer of thirty-two bytes come back before the
/// curve sees it, however it was written.
pub proof fn an_ecdsa_integer_keeps_its_width(integer: Seq<u8>)
    requires
        integer.len() == 32,
    ensures
        significant(integer).len() <= 32,
        widened(significant(integer), 32) == integer,
{
    significant_bytes(integer);
    padding_restores_dropped_zeros(integer);
}

/// An RSA signature is accepted exactly where, padded to the width of the
/// modulus, it verifies with the key over the data.
pub proof fn an_rsa_signature_is_what_the_arithmetic_says(
    exponent: Seq<u8>,
    modulus: Seq<u8>,
    data: Seq<u8>,
    raw: Seq<u8>,
    rest: Seq<u8>,
)
    requires
        fits(raw),
    ensures
        signature_verdict(
            MaterialView::Rsa { exponent, modulus },
            data,
            signature_blob(RSA_SHA256@, raw) + rest,
        ) == conclusion(
            RSA_SHA256@,
            rsa_verifies(modulus, exponent, data, widened(raw, modulus.len())),
        ),
{
    lemma_algorithms();
    lemma_signature_blob(RSA_SHA256@, raw, rest);
}

/// One RSA signature verifies over data of one digest only.
pub proof fn an_rsa_signature_is_of_one_digest(
    modulus: Seq<u8>,
    exponent: Seq<u8>,
    signature: Seq<u8>,
    left: Seq<u8>,
    right: Seq<u8>,
)
    requires
        rsa_verifies(modulus, exponent, left, signature),
        rsa_verifies(modulus, exponent, right, signature),
    ensures
        sha256(left) == sha256(right),
{
    let width = significant(modulus).len();
    let l = encoded_message(left, width);
    let r = encoded_message(right, width);
    an_integer_is_written_in_one_way_of_a_width(l, r);
    assert(l.skip(width - 32) =~= sha256(left)@);
    assert(r.skip(width - 32) =~= sha256(right)@);
    assert(sha256(left) =~= sha256(right));
}

/// An RSA signature whose leading zeros a client dropped is answered as the
/// whole one is.
pub proof fn dropped_leading_zeros_change_no_answer(
    exponent: Seq<u8>,
    modulus: Seq<u8>,
    data: Seq<u8>,
    raw: Seq<u8>,
    rest: Seq<u8>,
)
    requires
        fits(raw),
        raw.len() <= modulus.len(),
    ensures
        signature_verdict(
            MaterialView::Rsa { exponent, modulus },
            data,
            signature_blob(RSA_SHA256@, significant(raw)) + rest,
        ) == signature_verdict(
            MaterialView::Rsa { exponent, modulus },
            data,
            signature_blob(RSA_SHA256@, raw) + rest,
        ),
{
    let whole = widened(raw, modulus.len());
    significant_bytes(raw);
    padding_keeps_the_integer(raw, modulus.len());
    padding_restores_dropped_zeros(whole);
    an_rsa_signature_is_what_the_arithmetic_says(exponent, modulus, data, raw, rest);
    an_rsa_signature_is_what_the_arithmetic_says(
        exponent,
        modulus,
        data,
        significant(raw),
        rest,
    );
}

} // verus!
