//! Laws of signatures in full: which signature blobs are accepted with which
//! key, and what each other one is refused for.

use vstd::arithmetic::power::pow;
use vstd::prelude::*;
use vstd::string::*;
use vstd::utf8::*;

use crate::crypto::{
    ed25519_verifies, encoded_message, p256_verifies, rsa_verifies, sha256, sha256_digest_info,
};
use crate::cursor::be_value;
use crate::key::{
    check_holds, conclusion, signature_check, signature_verdict, sized, CheckView, KeyView,
    MaterialView,
};
use crate::laws::blob::{
    a_whole_key_is_its_blob, no_string, positive, rsa_fields_written, taken,
    the_arithmetic_decides_what_is_usable, written,
};
use crate::laws::signature::lemma_algorithms;
use crate::laws::wire::{
    a_string_is_read_as_it_was_written, a_string_that_is_read_was_written,
    an_integer_is_read_off_each_encoding, an_integer_is_zeros_and_its_significant_bytes,
    bytes_that_are_no_text_are_refused, bytes_without_a_string_are_refused, fits,
    padding_is_zeros_in_front, padding_keeps_the_integer, put, text_is_read_as_it_was_written,
    text_that_is_read_was_written, zeros,
};
use crate::wire::{
    after_string, read_mpint, read_string, read_text, significant, string_value, widened,
};

verus! {

/// `signature` is a blob of the algorithm's name and the signature `raw`, with
/// `rest` behind them.
pub open spec fn is_signature(
    signature: Seq<u8>,
    algorithm: Seq<char>,
    raw: Seq<u8>,
    rest: Seq<u8>,
) -> bool {
    &&& fits(encode_utf8(algorithm)) && fits(raw)
    &&& signature == put(encode_utf8(algorithm)) + (put(raw) + rest)
}

/// The two integers of an ECDSA signature, with zeros in front of them and
/// `tail` behind them.
pub open spec fn two_integers(m: nat, r: Seq<u8>, n: nat, s: Seq<u8>, tail: Seq<u8>) -> Seq<u8> {
    put(zeros(m) + r) + (put(zeros(n) + s) + tail)
}

/// An integer of no more than thirty-two bytes, behind as many zeros as make it
/// that.
pub open spec fn thirty_two(integer: Seq<u8>) -> Seq<u8> {
    zeros((32 - integer.len()) as nat) + integer
}

/// The ECDSA signature `raw` is two positive integers of no more than thirty-two
/// bytes that verify over `data` with the key `point`.
pub open spec fn ecdsa_accepts(point: Seq<u8>, data: Seq<u8>, raw: Seq<u8>) -> bool {
    exists|m: nat, r: Seq<u8>, n: nat, s: Seq<u8>, tail: Seq<u8>|
        {
            &&& positive(m, r) && positive(n, s)
            &&& raw == #[trigger] two_integers(m, r, n, s, tail)
            &&& r.len() <= 32 && s.len() <= 32
            &&& p256_verifies(point, data, thirty_two(r), thirty_two(s))
        }
}

/// The RSA signature `raw` is no wider than the modulus and below it, and raised
/// to the exponent modulo the modulus it is the PKCS #1 v1.5 message of the
/// SHA-256 digest of `data`, as wide as the modulus.
pub open spec fn rsa_accepts(
    exponent: Seq<u8>,
    modulus: Seq<u8>,
    data: Seq<u8>,
    raw: Seq<u8>,
) -> bool {
    &&& taken(MaterialView::Rsa { exponent, modulus })
    &&& modulus.len() >= 62
    &&& raw.len() <= modulus.len()
    &&& be_value(raw) < be_value(modulus)
    &&& pow(be_value(raw) as int, be_value(exponent)) % (be_value(modulus) as int) == be_value(
        seq![0u8, 1u8] + Seq::new((modulus.len() - 54) as nat, |i: int| 0xffu8) + seq![
            0x00u8, 0x30, 0x31, 0x30, 0x0d, 0x06, 0x09, 0x60, 0x86, 0x48, 0x01, 0x65, 0x03, 0x04,
            0x02, 0x01, 0x05, 0x00, 0x04, 0x20,
        ] + sha256(data)@,
    )
}

/// A signature blob is accepted over `data` with a key: it is of the key's one
/// algorithm and verifies.
pub open spec fn accepts(material: MaterialView, data: Seq<u8>, signature: Seq<u8>) -> bool {
    match material {
        MaterialView::Ed25519(key) => exists|raw: Seq<u8>, rest: Seq<u8>| #[trigger]
            is_signature(signature, "ssh-ed25519"@, raw, rest) && ed25519_verifies(key, data, raw),
        MaterialView::P256(point) => exists|raw: Seq<u8>, rest: Seq<u8>| #[trigger]
            is_signature(signature, "ecdsa-sha2-nistp256"@, raw, rest) && ecdsa_accepts(
                point,
                data,
                raw,
            ),
        MaterialView::Rsa { exponent, modulus } => exists|raw: Seq<u8>, rest: Seq<u8>| #[trigger]
            is_signature(signature, "rsa-sha2-256"@, raw, rest) && rsa_accepts(
                exponent,
                modulus,
                data,
                raw,
            ),
    }
}

/// The modulus of a key starts with no zero.
pub open spec fn modulus_is_bare(material: MaterialView) -> bool {
    material matches MaterialView::Rsa { modulus, .. } ==> modulus.len() > 0 && modulus[0] != 0
}

/// The modulus of every whole key starts with no zero.
pub proof fn a_whole_key_has_a_bare_modulus(key: KeyView)
    requires
        key.well_formed(),
    ensures
        modulus_is_bare(key.material),
{
    a_whole_key_is_its_blob(key);
    if let MaterialView::Rsa { exponent, modulus } = key.material {
        let fields = choose|fields: Seq<u8>| #[trigger] written(fields, key.material);
        let (m, n) = choose|m: nat, n: nat|
            {
                &&& positive(m, exponent) && positive(n, modulus)
                &&& fields == #[trigger] rsa_fields_written(m, exponent, n, modulus)
            };
        assert(positive(n, modulus));
        assert(be_value(modulus) > 0);
    }
}

/// A signature blob is read as it was written.
proof fn lemma_signature(
    signature: Seq<u8>,
    algorithm: Seq<char>,
    raw: Seq<u8>,
    rest: Seq<u8>,
)
    requires
        is_signature(signature, algorithm, raw, rest),
    ensures
        read_text(signature, "signature blob"@) == Ok::<Seq<char>, Seq<char>>(algorithm),
        read_string(after_string(signature), "signature blob"@) == Ok::<Seq<u8>, Seq<char>>(raw),
{
    text_is_read_as_it_was_written(algorithm, put(raw) + rest, "signature blob"@);
    a_string_is_read_as_it_was_written(raw, rest, "signature blob"@);
}

/// A signature blob that is read was written.
proof fn lemma_signature_was_written(signature: Seq<u8>)
    requires
        read_text(signature, "signature blob"@) is Ok,
        read_string(after_string(signature), "signature blob"@) is Ok,
    ensures
        is_signature(
            signature,
            read_text(signature, "signature blob"@)->Ok_0,
            string_value(after_string(signature)),
            after_string(after_string(signature)),
        ),
{
    text_that_is_read_was_written(signature, "signature blob"@);
    a_string_that_is_read_was_written(after_string(signature));
}

/// What is checked of a signature blob: the whole signature with the key, the
/// two integers at thirty-two bytes each, or the signature at the width of the
/// modulus.
pub proof fn a_signature_is_checked_as_it_was_written(
    signature: Seq<u8>,
    raw: Seq<u8>,
    rest: Seq<u8>,
    key: Seq<u8>,
    exponent: Seq<u8>,
    modulus: Seq<u8>,
)
    ensures
        is_signature(signature, "ssh-ed25519"@, raw, rest) ==> signature_check(
            MaterialView::Ed25519(key),
            signature,
        ) == Ok::<(Seq<char>, CheckView), Seq<char>>(
            ("ssh-ed25519"@, CheckView::Ed25519 { key, signature: raw }),
        ),
        is_signature(signature, "rsa-sha2-256"@, raw, rest) ==> signature_check(
            MaterialView::Rsa { exponent, modulus },
            signature,
        ) == Ok::<(Seq<char>, CheckView), Seq<char>>(
            (
                "rsa-sha2-256"@,
                CheckView::Rsa {
                    exponent,
                    modulus,
                    whole: if raw.len() < modulus.len() {
                        zeros((modulus.len() - raw.len()) as nat) + raw
                    } else {
                        raw
                    },
                },
            ),
        ),
{
    if is_signature(signature, "ssh-ed25519"@, raw, rest) {
        lemma_signature(signature, "ssh-ed25519"@, raw, rest);
    }
    if is_signature(signature, "rsa-sha2-256"@, raw, rest) {
        lemma_signature(signature, "rsa-sha2-256"@, raw, rest);
        padding_is_zeros_in_front(raw, modulus.len());
    }
}

/// The two integers of an ECDSA signature are checked at thirty-two bytes each,
/// whatever zeros they were written with, and never where one is wider.
pub proof fn two_integers_are_checked_as_they_were_written(
    signature: Seq<u8>,
    m: nat,
    r: Seq<u8>,
    n: nat,
    s: Seq<u8>,
    tail: Seq<u8>,
    rest: Seq<u8>,
    point: Seq<u8>,
)
    requires
        positive(m, r),
        positive(n, s),
        is_signature(signature, "ecdsa-sha2-nistp256"@, two_integers(m, r, n, s, tail), rest),
    ensures
        signature_check(MaterialView::P256(point), signature) == Ok::<
            (Seq<char>, CheckView),
            Seq<char>,
        >(
            (
                "ecdsa-sha2-nistp256"@,
                if r.len() <= 32 && s.len() <= 32 {
                    CheckView::P256 { point, r: thirty_two(r), s: thirty_two(s) }
                } else {
                    CheckView::Never
                },
            ),
        ),
{
    lemma_signature(signature, "ecdsa-sha2-nistp256"@, two_integers(m, r, n, s, tail), rest);
    an_integer_is_read_off_each_encoding(m, r, put(zeros(n) + s) + tail, "ECDSA signature"@);
    an_integer_is_read_off_each_encoding(n, s, tail, "ECDSA signature"@);
    lemma_thirty_two(r);
    lemma_thirty_two(s);
}

/// Padding to thirty-two bytes.
proof fn lemma_thirty_two(integer: Seq<u8>)
    ensures
        integer.len() <= 32 ==> widened(integer, 32) == thirty_two(integer),
{
    padding_is_zeros_in_front(integer, 32);
    if integer.len() == 32 {
        assert(thirty_two(integer) =~= integer);
    }
}

/// A check is decided by the arithmetic of its kind of key, and one of integers
/// that are too wide by none.
pub proof fn a_check_is_what_the_arithmetic_says(
    key: Seq<u8>,
    exponent: Seq<u8>,
    data: Seq<u8>,
    r: Seq<u8>,
    s: Seq<u8>,
)
    ensures
        check_holds(CheckView::Ed25519 { key, signature: s }, data) <==> ed25519_verifies(
            key,
            data,
            s,
        ),
        check_holds(CheckView::P256 { point: key, r, s }, data) <==> p256_verifies(key, data, r, s),
        check_holds(CheckView::Rsa { exponent, modulus: key, whole: s }, data) <==> rsa_verifies(
            key,
            exponent,
            data,
            s,
        ),
        !check_holds(CheckView::Never, data),
        sized(CheckView::Ed25519 { key, signature: s }) <==> s.len() == 64,
        sized(CheckView::P256 { point: key, r, s }) <==> be_value(r) != 0 && be_value(s) != 0,
        sized(CheckView::Rsa { exponent, modulus: key, whole: s }) <==> s.len() == significant(
            key,
        ).len(),
        !sized(CheckView::Never),
{
}

/// A check that holds is answered with nothing, and one that does not with the
/// algorithm's name.
pub proof fn an_answer_is_concluded_from_its_check(algorithm: Seq<char>, holds: bool)
    ensures
        conclusion(algorithm, holds) is Ok <==> holds,
        !holds ==> conclusion(algorithm, holds)->Err_0 == "the "@ + algorithm
            + " signature does not verify with the authorized key"@,
{
}

/// An RSA signature, padded to the width of the modulus, verifies exactly where
/// it is accepted.
pub proof fn an_rsa_signature_is_a_message_under_the_exponent(
    exponent: Seq<u8>,
    modulus: Seq<u8>,
    data: Seq<u8>,
    raw: Seq<u8>,
)
    requires
        modulus.len() > 0,
        modulus[0] != 0,
    ensures
        rsa_verifies(modulus, exponent, data, widened(raw, modulus.len())) <==> rsa_accepts(
            exponent,
            modulus,
            data,
            raw,
        ),
{
    the_arithmetic_decides_what_is_usable(MaterialView::Rsa { exponent, modulus });
    padding_keeps_the_integer(raw, modulus.len());
    assert(significant(modulus) == modulus);
    assert(seq![0u8] + sha256_digest_info() =~= seq![
        0x00u8, 0x30, 0x31, 0x30, 0x0d, 0x06, 0x09, 0x60, 0x86, 0x48, 0x01, 0x65, 0x03, 0x04, 0x02,
        0x01, 0x05, 0x00, 0x04, 0x20,
    ]);
    let front = seq![0u8, 1u8] + Seq::new((modulus.len() - 54) as nat, |i: int| 0xffu8);
    assert(encoded_message(data, modulus.len()) =~= front + (seq![0u8] + sha256_digest_info())
        + sha256(data)@);
}

/// An integer that is read was written so.
proof fn lemma_integer_was_written(bytes: Seq<u8>) -> (n: nat)
    requires
        read_mpint(bytes, "ECDSA signature"@) is Ok,
    ensures
        positive(n, read_mpint(bytes, "ECDSA signature"@)->Ok_0),
        bytes == put(zeros(n) + read_mpint(bytes, "ECDSA signature"@)->Ok_0) + after_string(bytes),
{
    let value = string_value(bytes);
    a_string_that_is_read_was_written(bytes);
    an_integer_is_zeros_and_its_significant_bytes(value);
    let n = (value.len() - significant(value).len()) as nat;
    if n == 0 {
        assert(zeros(n) + significant(value) =~= significant(value));
    }
    n
}

/// An ECDSA signature blob is accepted only where it is written so.
#[verifier::rlimit(30)]
proof fn lemma_ecdsa(point: Seq<u8>, data: Seq<u8>, signature: Seq<u8>)
    ensures
        signature_verdict(MaterialView::P256(point), data, signature) is Ok <==> accepts(
            MaterialView::P256(point),
            data,
            signature,
        ),
{
    let material = MaterialView::P256(point);
    lemma_algorithms();
    if signature_verdict(material, data, signature) is Ok {
        let raw = string_value(after_string(signature));
        let rest = after_string(after_string(signature));
        lemma_signature_was_written(signature);
        let m = lemma_integer_was_written(raw);
        let n = lemma_integer_was_written(after_string(raw));
        let r = read_mpint(raw, "ECDSA signature"@)->Ok_0;
        let s = read_mpint(after_string(raw), "ECDSA signature"@)->Ok_0;
        let tail = after_string(after_string(raw));
        assert(raw == two_integers(m, r, n, s, tail));
        lemma_thirty_two(r);
        lemma_thirty_two(s);
        assert(ecdsa_accepts(point, data, raw));
        assert(is_signature(signature, "ecdsa-sha2-nistp256"@, raw, rest));
    }
    if accepts(material, data, signature) {
        let (raw, rest) = choose|raw: Seq<u8>, rest: Seq<u8>| #[trigger]
            is_signature(signature, "ecdsa-sha2-nistp256"@, raw, rest) && ecdsa_accepts(
                point,
                data,
                raw,
            );
        let (m, r, n, s, tail) = choose|
            m: nat,
            r: Seq<u8>,
            n: nat,
            s: Seq<u8>,
            tail: Seq<u8>,
        |
            {
                &&& positive(m, r) && positive(n, s)
                &&& raw == #[trigger] two_integers(m, r, n, s, tail)
                &&& r.len() <= 32 && s.len() <= 32
                &&& p256_verifies(point, data, thirty_two(r), thirty_two(s))
            };
        two_integers_are_checked_as_they_were_written(
            signature,
            m,
            r,
            n,
            s,
            tail,
            rest,
            point,
        );
    }
}

/// A signature blob is answered by its check where there is one, and otherwise as
/// it was refused before any arithmetic; a check is only of the key's own
/// algorithm.
pub proof fn a_signature_without_a_check_is_refused_as_it_is(
    material: MaterialView,
    data: Seq<u8>,
    signature: Seq<u8>,
)
    ensures
        match signature_check(material, signature) {
            Err(refusal) => signature_verdict(material, data, signature) == Err::<(), Seq<char>>(
                refusal,
            ),
            Ok((algorithm, check)) => {
                &&& signature_verdict(material, data, signature) is Ok <==> check_holds(check, data)
                &&& !check_holds(check, data) ==> signature_verdict(material, data, signature)
                    == Err::<(), Seq<char>>(
                    "the "@ + algorithm + " signature does not verify with the authorized key"@,
                )
                &&& read_text(signature, "signature blob"@) == Ok::<Seq<char>, Seq<char>>(algorithm)
                &&& algorithm == (match material {
                    MaterialView::Ed25519(_) => "ssh-ed25519"@,
                    MaterialView::P256(_) => "ecdsa-sha2-nistp256"@,
                    MaterialView::Rsa { .. } => "rsa-sha2-256"@,
                })
            },
        },
{
}

/// A signature blob is accepted with a key exactly where it is of the key's one
/// algorithm and verifies over the data.
pub proof fn a_signature_is_accepted_where_it_is_written_so(
    material: MaterialView,
    data: Seq<u8>,
    signature: Seq<u8>,
)
    requires
        modulus_is_bare(material),
    ensures
        signature_verdict(material, data, signature) is Ok <==> accepts(material, data, signature),
{
    lemma_algorithms();
    let raw = string_value(after_string(signature));
    let rest = after_string(after_string(signature));
    if signature_verdict(material, data, signature) is Ok {
        lemma_signature_was_written(signature);
    }
    match material {
        MaterialView::Ed25519(key) => {
            if signature_verdict(material, data, signature) is Ok {
                assert(is_signature(signature, "ssh-ed25519"@, raw, rest));
            }
            if accepts(material, data, signature) {
                let (raw, rest) = choose|raw: Seq<u8>, rest: Seq<u8>| #[trigger]
                    is_signature(signature, "ssh-ed25519"@, raw, rest) && ed25519_verifies(
                        key,
                        data,
                        raw,
                    );
                lemma_signature(signature, "ssh-ed25519"@, raw, rest);
            }
        },
        MaterialView::P256(point) => {
            lemma_ecdsa(point, data, signature);
        },
        MaterialView::Rsa { exponent, modulus } => {
            if signature_verdict(material, data, signature) is Ok {
                an_rsa_signature_is_a_message_under_the_exponent(exponent, modulus, data, raw);
                assert(is_signature(signature, "rsa-sha2-256"@, raw, rest));
            }
            if accepts(material, data, signature) {
                let (raw, rest) = choose|raw: Seq<u8>, rest: Seq<u8>| #[trigger]
                    is_signature(signature, "rsa-sha2-256"@, raw, rest) && rsa_accepts(
                        exponent,
                        modulus,
                        data,
                        raw,
                    );
                lemma_signature(signature, "rsa-sha2-256"@, raw, rest);
                an_rsa_signature_is_a_message_under_the_exponent(exponent, modulus, data, raw);
            }
        },
    }
}

/// How the refusals of a signature blob are spelled.
proof fn lemma_signature_refusals()
    ensures
        "the "@ + "signature blob"@ + " is truncated"@ == "the signature blob is truncated"@,
        "the "@ + "signature blob"@ + " names something not text"@
            == "the signature blob names something not text"@,
        "the "@ + "ECDSA signature"@ + " is truncated"@ == "the ECDSA signature is truncated"@,
        "the "@ + "ECDSA signature"@ + " holds a negative integer"@
            == "the ECDSA signature holds a negative integer"@,
{
    reveal_strlit("the ");
    reveal_strlit("signature blob");
    reveal_strlit("ECDSA signature");
    reveal_strlit(" is truncated");
    reveal_strlit(" names something not text");
    reveal_strlit(" holds a negative integer");
    reveal_strlit("the signature blob is truncated");
    reveal_strlit("the signature blob names something not text");
    reveal_strlit("the ECDSA signature is truncated");
    reveal_strlit("the ECDSA signature holds a negative integer");
    assert("the "@ + "signature blob"@ + " is truncated"@ =~= "the signature blob is truncated"@);
    assert("the "@ + "signature blob"@ + " names something not text"@
        =~= "the signature blob names something not text"@);
    assert("the "@ + "ECDSA signature"@ + " is truncated"@ =~= "the ECDSA signature is truncated"@);
    assert("the "@ + "ECDSA signature"@ + " holds a negative integer"@
        =~= "the ECDSA signature holds a negative integer"@);
}

/// A signature blob without a name or without a signature, or with a name that
/// is no text, is refused for that, whatever the key.
pub proof fn a_malformed_signature_blob_is_refused(
    material: MaterialView,
    data: Seq<u8>,
    bytes: Seq<u8>,
    value: Seq<u8>,
    algorithm: Seq<char>,
    rest: Seq<u8>,
)
    requires
        fits(value),
    ensures
        no_string(bytes) ==> signature_verdict(material, data, bytes) == Err::<(), Seq<char>>(
            "the signature blob is truncated"@,
        ),
        value == encode_utf8(algorithm) && no_string(bytes) ==> signature_verdict(
            material,
            data,
            put(value) + bytes,
        ) == Err::<(), Seq<char>>("the signature blob is truncated"@),
        (forall|text: Seq<char>| #[trigger] encode_utf8(text) != value) ==> signature_verdict(
            material,
            data,
            put(value) + rest,
        ) == Err::<(), Seq<char>>("the signature blob names something not text"@),
{
    lemma_signature_refusals();
    bytes_without_a_string_are_refused(bytes, "signature blob"@);
    if value == encode_utf8(algorithm) {
        text_is_read_as_it_was_written(algorithm, bytes, "signature blob"@);
    }
    if forall|text: Seq<char>| #[trigger] encode_utf8(text) != value {
        bytes_that_are_no_text_are_refused(value, rest, "signature blob"@);
    }
}

/// A signature blob that names another algorithm than the key's own is refused
/// by it: `ssh-rsa` of an RSA key as SHA-1, and every other by its name.
pub proof fn another_algorithm_is_refused(
    material: MaterialView,
    data: Seq<u8>,
    signature: Seq<u8>,
    algorithm: Seq<char>,
    raw: Seq<u8>,
    rest: Seq<u8>,
)
    requires
        is_signature(signature, algorithm, raw, rest),
        match material {
            MaterialView::Ed25519(_) => algorithm != "ssh-ed25519"@,
            MaterialView::P256(_) => algorithm != "ecdsa-sha2-nistp256"@,
            MaterialView::Rsa { .. } => algorithm != "rsa-sha2-256"@,
        },
    ensures
        signature_verdict(material, data, signature) == Err::<(), Seq<char>>(
            if material is Rsa && algorithm == "ssh-rsa"@ {
                "the signature is ssh-rsa, which is SHA-1, and this node verifies rsa-sha2-256: the client must offer it (RFC 8332)"@
            } else {
                "the signature algorithm '"@ + algorithm
                    + "' is not one this node verifies with the authorized key's type"@
            },
        ),
{
    lemma_signature(signature, algorithm, raw, rest);
}

/// A signature of the key's own algorithm that is not accepted is refused as not
/// verifying, and one of ECDSA that is no two positive integers for that.
pub proof fn a_signature_that_is_not_accepted_is_refused(
    material: MaterialView,
    data: Seq<u8>,
    signature: Seq<u8>,
    raw: Seq<u8>,
    rest: Seq<u8>,
)
    requires
        modulus_is_bare(material),
        !accepts(material, data, signature),
    ensures
        material is Ed25519 && is_signature(signature, "ssh-ed25519"@, raw, rest)
            ==> signature_verdict(material, data, signature) == Err::<(), Seq<char>>(
            "the "@ + "ssh-ed25519"@ + " signature does not verify with the authorized key"@,
        ),
        material is Rsa && is_signature(signature, "rsa-sha2-256"@, raw, rest)
            ==> signature_verdict(material, data, signature) == Err::<(), Seq<char>>(
            "the "@ + "rsa-sha2-256"@ + " signature does not verify with the authorized key"@,
        ),
{
    a_signature_is_accepted_where_it_is_written_so(material, data, signature);
    if is_signature(signature, "ssh-ed25519"@, raw, rest) {
        lemma_signature(signature, "ssh-ed25519"@, raw, rest);
    }
    if is_signature(signature, "rsa-sha2-256"@, raw, rest) {
        lemma_signature(signature, "rsa-sha2-256"@, raw, rest);
    }
}

/// An ECDSA signature of two positive integers that is not accepted is refused
/// as not verifying.
pub proof fn two_integers_that_do_not_verify_are_refused(
    point: Seq<u8>,
    data: Seq<u8>,
    signature: Seq<u8>,
    m: nat,
    r: Seq<u8>,
    n: nat,
    s: Seq<u8>,
    tail: Seq<u8>,
    rest: Seq<u8>,
)
    requires
        positive(m, r),
        positive(n, s),
        is_signature(signature, "ecdsa-sha2-nistp256"@, two_integers(m, r, n, s, tail), rest),
        !(r.len() <= 32 && s.len() <= 32 && p256_verifies(
            point,
            data,
            thirty_two(r),
            thirty_two(s),
        )),
    ensures
        signature_verdict(MaterialView::P256(point), data, signature) == Err::<(), Seq<char>>(
            "the "@ + "ecdsa-sha2-nistp256"@
                + " signature does not verify with the authorized key"@,
        ),
{
    two_integers_are_checked_as_they_were_written(signature, m, r, n, s, tail, rest, point);
}

/// An ECDSA signature with an integer that is missing or negative is refused for
/// that.
pub proof fn an_ecdsa_signature_is_refused_by_its_integers(
    point: Seq<u8>,
    data: Seq<u8>,
    signature: Seq<u8>,
    raw: Seq<u8>,
    m: nat,
    r: Seq<u8>,
    negative: Seq<u8>,
    bytes: Seq<u8>,
    rest: Seq<u8>,
)
    requires
        is_signature(signature, "ecdsa-sha2-nistp256"@, raw, rest),
        positive(m, r),
        fits(negative),
        negative.len() > 0,
        negative[0] >= 0x80,
    ensures
        no_string(raw) || (raw == put(zeros(m) + r) + bytes && no_string(bytes))
            ==> signature_verdict(MaterialView::P256(point), data, signature) == Err::<
            (),
            Seq<char>,
        >("the ECDSA signature is truncated"@),
        raw == put(negative) + bytes || raw == put(zeros(m) + r) + (put(negative) + bytes)
            ==> signature_verdict(MaterialView::P256(point), data, signature) == Err::<
            (),
            Seq<char>,
        >("the ECDSA signature holds a negative integer"@),
{
    let what = "ECDSA signature"@;
    lemma_signature_refusals();
    lemma_signature(signature, "ecdsa-sha2-nistp256"@, raw, rest);
    bytes_without_a_string_are_refused(raw, what);
    bytes_without_a_string_are_refused(bytes, what);
    assert(zeros(0) + negative =~= negative);
    an_integer_is_read_off_each_encoding(0, negative, bytes, what);
    an_integer_is_read_off_each_encoding(m, r, bytes, what);
    an_integer_is_read_off_each_encoding(m, r, put(negative) + bytes, what);
}

} // verus!
