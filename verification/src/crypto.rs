//! The digests and signature checks that other crates compute, from plain
//! bytes to plain values.
//!
//! Each is a function of the bytes it is given and of nothing else. The
//! contracts state what an RSA key and an RSA signature are, and speak of the
//! digest and of the arithmetic on curves by names. SHA-256 counts its input in bits in
//! sixty-four of them; no machine holds a slice long enough to overflow that.

use p256::ecdsa::signature::Verifier as _;
use rsa::BigUint;
use sha2::{Digest, Sha256};
use vstd::arithmetic::power::pow;
use vstd::prelude::*;

use crate::cursor::be_value;
use crate::wire::significant;

verus! {

/// The SHA-256 digest of `data`.
pub uninterp spec fn sha256(data: Seq<u8>) -> [u8; 32];

/// `sha2::Sha256::digest`: the digest depends on the data alone and is
/// thirty-two bytes.
#[verifier::external_body]
pub(crate) fn sha256_digest(data: &[u8]) -> (digest: [u8; 32])
    ensures
        digest == sha256(data@),
{
    Sha256::digest(data).into()
}

/// `key` is the encoding of a point that Ed25519 takes as a public key.
pub uninterp spec fn ed25519_usable(key: Seq<u8>) -> bool;

/// `ed25519_dalek::VerifyingKey::from_bytes`: whether the bytes decompress to
/// a point on the curve depends on the bytes alone.
#[verifier::external_body]
pub(crate) fn ed25519_is_usable(key: &[u8; 32]) -> (is: bool)
    ensures
        is == ed25519_usable(key@),
{
    ed25519_dalek::VerifyingKey::from_bytes(key).is_ok()
}

/// `signature` over `data` verifies strictly with the Ed25519 key `key`.
pub uninterp spec fn ed25519_verifies(key: Seq<u8>, data: Seq<u8>, signature: Seq<u8>) -> bool;

/// `ed25519_dalek::VerifyingKey::verify_strict`, of the key these bytes are
/// and the signature these bytes are: the answer depends on the bytes alone,
/// and is no where the signature is not sixty-four bytes.
#[verifier::external_body]
pub(crate) fn ed25519_verify(key: &[u8; 32], data: &[u8], signature: &[u8]) -> (holds: bool)
    ensures
        holds == ed25519_verifies(key@, data@, signature@),
        holds ==> signature@.len() == 64,
{
    let key = ed25519_dalek::VerifyingKey::from_bytes(key);
    let signature = ed25519_dalek::Signature::from_slice(signature);
    match (key, signature) {
        (Ok(key), Ok(signature)) => key.verify_strict(data, &signature).is_ok(),
        _ => false,
    }
}

/// `point` is the SEC1 encoding of a point that ECDSA over nistp256 takes as a
/// public key.
pub uninterp spec fn p256_usable(point: Seq<u8>) -> bool;

/// `p256::ecdsa::VerifyingKey::from_sec1_bytes`: whether the bytes are a point
/// depends on the bytes alone.
#[verifier::external_body]
pub(crate) fn p256_is_usable(point: &[u8]) -> (is: bool)
    ensures
        is == p256_usable(point@),
{
    p256::ecdsa::VerifyingKey::from_sec1_bytes(point).is_ok()
}

/// The pair of the big-endian integers `r` and `s` is an ECDSA signature over
/// `data` that verifies with the nistp256 key `point` and SHA-256.
pub uninterp spec fn p256_verifies(
    point: Seq<u8>,
    data: Seq<u8>,
    r: Seq<u8>,
    s: Seq<u8>,
) -> bool;

/// `p256::ecdsa::VerifyingKey::verify`, of the key these bytes are and of the
/// signature that `Signature::from_scalars` makes of the two integers: the
/// answer depends on the bytes alone, and is no where an integer is zero.
#[verifier::external_body]
pub(crate) fn p256_verify(point: &[u8], data: &[u8], r: &[u8; 32], s: &[u8; 32]) -> (holds: bool)
    ensures
        holds == p256_verifies(point@, data@, r@, s@),
        holds ==> be_value(r@) > 0 && be_value(s@) > 0,
{
    let key = p256::ecdsa::VerifyingKey::from_sec1_bytes(point);
    let signature = p256::ecdsa::Signature::from_scalars(*r, *s);
    match (key, signature) {
        (Ok(key), Ok(signature)) => key.verify(data, &signature).is_ok(),
        _ => false,
    }
}

/// The two integers make an RSA key that is used here: the modulus is odd and
/// of no more than 4096 bits, the exponent is odd, below the modulus, at least
/// two and of no more than thirty-three bits.
pub open spec fn rsa_usable(modulus: nat, exponent: nat) -> bool {
    &&& modulus < pow(256, 512)
    &&& modulus % 2 == 1
    &&& exponent < modulus
    &&& exponent % 2 == 1
    &&& 2 <= exponent <= 0x1_ffff_ffff
}

/// `rsa::RsaPublicKey::new` takes exactly the usable pairs of big-endian
/// integers.
#[verifier::external_body]
pub(crate) fn rsa_is_usable(modulus: &[u8], exponent: &[u8]) -> (is: bool)
    ensures
        is == rsa_usable(be_value(modulus@), be_value(exponent@)),
{
    let modulus = BigUint::from_bytes_be(modulus);
    rsa::RsaPublicKey::new(modulus, BigUint::from_bytes_be(exponent)).is_ok()
}

/// What PKCS #1 v1.5 writes in front of a SHA-256 digest to say that it is one:
/// the start of a DER `DigestInfo` (RFC 8017 section 9.2, note 1).
pub open spec fn sha256_digest_info() -> Seq<u8> {
    seq![
        0x30, 0x31, 0x30, 0x0d, 0x06, 0x09, 0x60, 0x86, 0x48, 0x01, 0x65, 0x03, 0x04, 0x02, 0x01,
        0x05, 0x00, 0x04, 0x20,
    ]
}

/// The message that PKCS #1 v1.5 has signed for `data` with SHA-256, `width`
/// bytes of it: `00 01`, as many `ff` as it takes, `00`, and the digest behind
/// what says that it is one (RFC 8017 section 9.2).
pub open spec fn encoded_message(data: Seq<u8>, width: nat) -> Seq<u8> {
    seq![0u8, 1u8] + Seq::new((width - 54) as nat, |i: int| 0xffu8) + seq![0u8]
        + sha256_digest_info() + sha256(data)@
}

/// `signature` over `data` is a PKCS #1 v1.5 signature with SHA-256 that
/// verifies with the RSA key of this modulus and exponent: it is as wide as the
/// modulus and below it, and raised to the exponent modulo the modulus it is the
/// message that is signed for `data`. A modulus that leaves no room for eight
/// `ff` in that message verifies nothing.
pub open spec fn rsa_verifies(
    modulus: Seq<u8>,
    exponent: Seq<u8>,
    data: Seq<u8>,
    signature: Seq<u8>,
) -> bool {
    let n = be_value(modulus);
    let e = be_value(exponent);
    let width = significant(modulus).len();
    &&& rsa_usable(n, e)
    &&& width >= 62
    &&& signature.len() == width
    &&& be_value(signature) < n
    &&& pow(be_value(signature) as int, e) % (n as int) == be_value(encoded_message(data, width))
}

/// `rsa::pkcs1v15::VerifyingKey::verify` with SHA-256, of the key these
/// integers make and the signature these bytes are: it accepts exactly the
/// signatures that verify as RFC 8017 section 8.2.2 has it, and none where the
/// integers make no usable key. The digest it takes of the data is that of
/// `sha2::Sha256::digest`.
#[verifier::external_body]
pub(crate) fn rsa_verify(
    modulus: &[u8],
    exponent: &[u8],
    data: &[u8],
    signature: &[u8],
) -> (holds: bool)
    ensures
        holds == rsa_verifies(modulus@, exponent@, data@, signature@),
{
    let modulus = BigUint::from_bytes_be(modulus);
    let key = rsa::RsaPublicKey::new(modulus, BigUint::from_bytes_be(exponent));
    let signature = rsa::pkcs1v15::Signature::try_from(signature);
    match (key.map(rsa::pkcs1v15::VerifyingKey::<Sha256>::new), signature) {
        (Ok(key), Ok(signature)) => key.verify(data, &signature).is_ok(),
        _ => false,
    }
}

} // verus!
