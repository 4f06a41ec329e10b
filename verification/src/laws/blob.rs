//! Laws of key blobs and lines in full: which blobs and lines are which key, and
//! what each other one is refused for.

use vstd::arithmetic::power::{lemma_pow_multiplies, pow};
use vstd::prelude::*;
use vstd::string::*;
use vstd::utf8::*;

use crate::crypto::{ed25519_usable, p256_usable, sha256};
use crate::cursor::be_value;
use crate::encoding::{decoded, fully_padded, unpadded};
use crate::key::{
    admission, blob_fingerprint, fingerprint_text, is_key_type, key_fields, key_of_blob, key_type,
    parsed_line, rsa_fields, usable, KeyView, MaterialView,
};
use crate::laws::encoding::{
    base64_is_decoded_as_it_was_encoded, only_canonical_base64_is_decoded,
};
use crate::laws::key::{a_fingerprint_tells_digests_apart, lemma_key_types};
use crate::laws::wire::{
    a_string_is_read_as_it_was_written, a_string_that_is_read_was_written,
    an_integer_is_read_off_each_encoding, an_integer_is_zeros_and_its_significant_bytes,
    bytes_that_are_no_text_are_refused, bytes_without_a_string_are_refused, fits, in_front, put,
    text_is_read_as_it_was_written, text_that_is_read_was_written, zeros,
};
use crate::text::{joined, words};
use crate::wire::{after_string, read_mpint, significant, string_value};

verus! {

/// The type that a line and a blob name for a key.
pub open spec fn type_of(material: MaterialView) -> Seq<char> {
    match material {
        MaterialView::Ed25519(_) => "ssh-ed25519"@,
        MaterialView::P256(_) => "ecdsa-sha2-nistp256"@,
        MaterialView::Rsa { .. } => "ssh-rsa"@,
    }
}

/// One of the three types of keys.
pub open spec fn one_of_three(named: Seq<char>) -> bool {
    named == "ssh-ed25519"@ || named == "ecdsa-sha2-nistp256"@ || named == "ssh-rsa"@
}

/// A positive integer without leading zeros, that a `string` can hold behind `n`
/// zeros without a sign.
pub open spec fn positive(n: nat, integer: Seq<u8>) -> bool {
    &&& fits(zeros(n) + integer)
    &&& integer.len() > 0 ==> integer[0] != 0 && (n > 0 || integer[0] < 0x80)
}

/// The two integers of an RSA key, with zeros in front of them.
pub open spec fn rsa_fields_written(m: nat, exponent: Seq<u8>, n: nat, modulus: Seq<u8>) -> Seq<u8> {
    put(zeros(m) + exponent) + put(zeros(n) + modulus)
}

/// `fields` are the fields of this key: RFC 8709 section 4 for Ed25519, RFC 5656
/// section 3.1 for ECDSA, RFC 4253 section 6.6 for RSA.
pub open spec fn written(fields: Seq<u8>, material: MaterialView) -> bool {
    match material {
        MaterialView::Ed25519(key) => key.len() == 32 && fields == put(key),
        MaterialView::P256(point) => fits(point) && fields == put(encode_utf8("nistp256"@)) + put(
            point,
        ),
        MaterialView::Rsa { exponent, modulus } => exists|m: nat, n: nat|
            {
                &&& positive(m, exponent) && positive(n, modulus)
                &&& fields == #[trigger] rsa_fields_written(m, exponent, n, modulus)
            },
    }
}

/// `blob` is the whole blob of this key.
pub open spec fn is_blob_of(blob: Seq<u8>, material: MaterialView) -> bool {
    exists|fields: Seq<u8>|
        {
            &&& #[trigger] written(fields, material)
            &&& blob == put(encode_utf8(type_of(material))) + fields
        }
}

/// The arithmetic takes this as a key. An RSA key is an odd modulus of no more
/// than 4096 bits and an odd exponent from three up to thirty-three bits, below
/// the modulus.
pub open spec fn taken(material: MaterialView) -> bool {
    match material {
        MaterialView::Ed25519(key) => ed25519_usable(key),
        MaterialView::P256(point) => p256_usable(point),
        MaterialView::Rsa { exponent, modulus } => {
            &&& be_value(modulus) % 2 == 1 && be_value(modulus) < pow(2, 4096)
            &&& be_value(exponent) % 2 == 1 && 3 <= be_value(exponent) < 0x2_0000_0000
            &&& be_value(exponent) < be_value(modulus)
        },
    }
}

/// No `string` is in front of `bytes`.
pub open spec fn no_string(bytes: Seq<u8>) -> bool {
    forall|value: Seq<u8>, rest: Seq<u8>| !#[trigger] in_front(bytes, value, rest)
}

/// What is usable is what the arithmetic takes, whatever the size of the key.
pub proof fn the_arithmetic_decides_what_is_usable(material: MaterialView)
    ensures
        usable(material) <==> taken(material),
{
    reveal_with_fuel(pow, 9);
    assert(pow(2, 8) == 256);
    lemma_pow_multiplies(2, 8, 512);
}

/// The types of keys that are read are the three, and each key names its own.
pub proof fn there_are_three_types_of_keys(named: Seq<char>, material: MaterialView)
    ensures
        is_key_type(named) <==> one_of_three(named),
        key_type(material) == type_of(material),
{
}

/// The fields of an RSA key are read off each way they are written.
proof fn lemma_rsa_written(m: nat, exponent: Seq<u8>, n: nat, modulus: Seq<u8>, rest: Seq<u8>)
    requires
        positive(m, exponent),
        positive(n, modulus),
    ensures
        rsa_fields(rsa_fields_written(m, exponent, n, modulus) + rest) == Ok::<
            (MaterialView, Seq<u8>),
            Seq<char>,
        >((MaterialView::Rsa { exponent, modulus }, rest)),
{
    let second = put(zeros(n) + modulus) + rest;
    assert(rsa_fields_written(m, exponent, n, modulus) + rest =~= put(zeros(m) + exponent)
        + second);
    an_integer_is_read_off_each_encoding(m, exponent, second, "key blob"@);
    an_integer_is_read_off_each_encoding(n, modulus, rest, "key blob"@);
}

/// The fields of a key are read off each way they are written.
proof fn lemma_written(fields: Seq<u8>, material: MaterialView, rest: Seq<u8>)
    requires
        written(fields, material),
    ensures
        key_fields(type_of(material), fields + rest) == Ok::<
            (MaterialView, Seq<u8>),
            Seq<char>,
        >((material, rest)),
{
    lemma_key_types();
    match material {
        MaterialView::Ed25519(key) => {
            a_string_is_read_as_it_was_written(key, rest, "key blob"@);
        },
        MaterialView::P256(point) => {
            assert(fields + rest =~= put(encode_utf8("nistp256"@)) + (put(point) + rest));
            text_is_read_as_it_was_written("nistp256"@, put(point) + rest, "key blob"@);
            a_string_is_read_as_it_was_written(point, rest, "key blob"@);
        },
        MaterialView::Rsa { exponent, modulus } => {
            let (m, n) = choose|m: nat, n: nat|
                {
                    &&& positive(m, exponent) && positive(n, modulus)
                    &&& fields == #[trigger] rsa_fields_written(m, exponent, n, modulus)
                };
            lemma_rsa_written(m, exponent, n, modulus, rest);
        },
    }
}

/// A blob that starts with a key is answered by that key: it is the key where
/// the arithmetic takes it and nothing is behind it, and is refused for the
/// first of these that fails.
pub proof fn a_blob_is_answered_by_its_key(
    fields: Seq<u8>,
    material: MaterialView,
    rest: Seq<u8>,
)
    requires
        written(fields, material),
    ensures
        key_of_blob(
            type_of(material),
            put(encode_utf8(type_of(material))) + (fields + rest),
        ) == (if !taken(material) {
            Err(
                match material {
                    MaterialView::Ed25519(_) => "the Ed25519 key is not a point on the curve"@,
                    MaterialView::P256(_) => "the ECDSA key is not a point on nistp256"@,
                    MaterialView::Rsa { .. } => "the RSA modulus and exponent are not a usable key"@,
                },
            )
        } else if rest.len() > 0 {
            Err("the key blob carries more than its key"@)
        } else {
            Ok(material)
        }),
{
    lemma_key_types();
    text_is_read_as_it_was_written(type_of(material), fields + rest, "key blob"@);
    lemma_written(fields, material, rest);
    the_arithmetic_decides_what_is_usable(material);
}

/// An integer that is read was written so.
proof fn lemma_integer_was_written(bytes: Seq<u8>) -> (n: nat)
    requires
        read_mpint(bytes, "key blob"@) is Ok,
    ensures
        positive(n, read_mpint(bytes, "key blob"@)->Ok_0),
        bytes == put(zeros(n) + read_mpint(bytes, "key blob"@)->Ok_0) + after_string(bytes),
{
    let value = string_value(bytes);
    a_string_that_is_read_was_written(bytes);
    an_integer_is_zeros_and_its_significant_bytes(value);
    let n = (value.len() - significant(value).len()) as nat;
    if n == 0 {
        assert(zeros(n) + significant(value) =~= significant(value));
    }
    n
}

/// The fields that a key is read off were written for it.
#[verifier::rlimit(30)]
proof fn lemma_was_written(named: Seq<char>, bytes: Seq<u8>)
    requires
        one_of_three(named),
        key_fields(named, bytes) is Ok,
        key_fields(named, bytes)->Ok_0.1.len() == 0,
    ensures
        written(bytes, key_fields(named, bytes)->Ok_0.0),
        type_of(key_fields(named, bytes)->Ok_0.0) == named,
{
    let (material, rest) = key_fields(named, bytes)->Ok_0;
    match material {
        MaterialView::Ed25519(key) => {
            a_string_that_is_read_was_written(bytes);
            assert(put(key) + rest =~= put(key));
        },
        MaterialView::P256(point) => {
            text_that_is_read_was_written(bytes, "key blob"@);
            a_string_that_is_read_was_written(after_string(bytes));
            assert(put(point) + rest =~= put(point));
        },
        MaterialView::Rsa { exponent, modulus } => {
            let m = lemma_integer_was_written(bytes);
            let n = lemma_integer_was_written(after_string(bytes));
            assert(put(zeros(n) + modulus) + rest =~= put(zeros(n) + modulus));
            assert(bytes == rsa_fields_written(m, exponent, n, modulus));
        },
    }
}

/// A blob is a key exactly where it is that key's whole blob under that key's
/// type and the arithmetic takes the key.
pub proof fn a_blob_is_a_key_where_it_is_written_so(
    named: Seq<char>,
    blob: Seq<u8>,
    material: MaterialView,
)
    requires
        one_of_three(named),
    ensures
        key_of_blob(named, blob) == Ok::<MaterialView, Seq<char>>(material) <==> {
            &&& named == type_of(material)
            &&& is_blob_of(blob, material)
            &&& taken(material)
        },
{
    the_arithmetic_decides_what_is_usable(material);
    if key_of_blob(named, blob) == Ok::<MaterialView, Seq<char>>(material) {
        text_that_is_read_was_written(blob, "key blob"@);
        lemma_was_written(named, after_string(blob));
    }
    if named == type_of(material) && is_blob_of(blob, material) && taken(material) {
        let fields = choose|fields: Seq<u8>|
            {
                &&& #[trigger] written(fields, material)
                &&& blob == put(encode_utf8(type_of(material))) + fields
            };
        a_blob_is_answered_by_its_key(fields, material, seq![]);
        assert(fields + seq![] =~= fields);
    }
}

/// A key is whole exactly where its blob is written for it and the arithmetic
/// takes it.
pub proof fn a_whole_key_is_its_blob(key: KeyView)
    ensures
        key.well_formed() <==> is_blob_of(key.blob, key.material) && taken(key.material),
{
    a_blob_is_a_key_where_it_is_written_so(type_of(key.material), key.blob, key.material);
}

/// A blob whose first `string` is missing or is no text, or is another name than
/// the line's, is refused for that.
pub proof fn a_blob_is_refused_by_its_name(
    named: Seq<char>,
    bytes: Seq<u8>,
    value: Seq<u8>,
    inner: Seq<char>,
    rest: Seq<u8>,
)
    requires
        fits(value),
    ensures
        no_string(bytes) ==> key_of_blob(named, bytes) == Err::<MaterialView, Seq<char>>(
            "the key blob is truncated"@,
        ),
        (forall|text: Seq<char>| #[trigger] encode_utf8(text) != value) ==> key_of_blob(
            named,
            put(value) + rest,
        ) == Err::<MaterialView, Seq<char>>("the key blob names something not text"@),
        value == encode_utf8(inner) && inner != named ==> key_of_blob(named, put(value) + rest)
            == Err::<MaterialView, Seq<char>>(
            "the authorized key line says "@ + named + " and its blob says "@ + inner,
        ),
{
    lemma_key_blob_refusals();
    bytes_without_a_string_are_refused(bytes, "key blob"@);
    if forall|text: Seq<char>| #[trigger] encode_utf8(text) != value {
        bytes_that_are_no_text_are_refused(value, rest, "key blob"@);
    }
    if value == encode_utf8(inner) {
        text_is_read_as_it_was_written(inner, rest, "key blob"@);
    }
}

/// How the refusals of a key blob are spelled.
proof fn lemma_key_blob_refusals()
    ensures
        "the "@ + "key blob"@ + " is truncated"@ == "the key blob is truncated"@,
        "the "@ + "key blob"@ + " names something not text"@
            == "the key blob names something not text"@,
        "the "@ + "key blob"@ + " holds a negative integer"@
            == "the key blob holds a negative integer"@,
{
    reveal_strlit("the ");
    reveal_strlit("key blob");
    reveal_strlit(" is truncated");
    reveal_strlit("the key blob is truncated");
    reveal_strlit(" names something not text");
    reveal_strlit("the key blob names something not text");
    reveal_strlit(" holds a negative integer");
    reveal_strlit("the key blob holds a negative integer");
    assert("the "@ + "key blob"@ + " is truncated"@ =~= "the key blob is truncated"@);
    assert("the "@ + "key blob"@ + " names something not text"@
        =~= "the key blob names something not text"@);
    assert("the "@ + "key blob"@ + " holds a negative integer"@
        =~= "the key blob holds a negative integer"@);
}

/// A key whose first field is missing is refused as truncated, whatever its
/// type.
pub proof fn a_key_without_fields_is_refused(named: Seq<char>, bytes: Seq<u8>)
    requires
        one_of_three(named),
        no_string(bytes),
    ensures
        key_of_blob(named, put(encode_utf8(named)) + bytes) == Err::<MaterialView, Seq<char>>(
            "the key blob is truncated"@,
        ),
{
    lemma_key_types();
    lemma_key_blob_refusals();
    text_is_read_as_it_was_written(named, bytes, "key blob"@);
    bytes_without_a_string_are_refused(bytes, "key blob"@);
}

/// An Ed25519 key of any other length than thirty-two bytes is refused.
pub proof fn an_ed25519_key_of_another_length_is_refused(key: Seq<u8>, rest: Seq<u8>)
    requires
        fits(key),
        key.len() != 32,
    ensures
        key_of_blob(
            "ssh-ed25519"@,
            put(encode_utf8("ssh-ed25519"@)) + (put(key) + rest),
        ) == Err::<MaterialView, Seq<char>>("an Ed25519 key is thirty-two bytes"@),
{
    lemma_key_types();
    text_is_read_as_it_was_written("ssh-ed25519"@, put(key) + rest, "key blob"@);
    a_string_is_read_as_it_was_written(key, rest, "key blob"@);
}

/// An ECDSA key is refused where its curve is no text or another curve, and
/// where its point is missing.
pub proof fn an_ecdsa_key_is_refused_by_its_curve(
    value: Seq<u8>,
    curve: Seq<char>,
    rest: Seq<u8>,
)
    requires
        fits(value),
    ensures
        (forall|text: Seq<char>| #[trigger] encode_utf8(text) != value) ==> key_of_blob(
            "ecdsa-sha2-nistp256"@,
            put(encode_utf8("ecdsa-sha2-nistp256"@)) + (put(value) + rest),
        ) == Err::<MaterialView, Seq<char>>("the key blob names something not text"@),
        value == encode_utf8(curve) && curve != "nistp256"@ ==> key_of_blob(
            "ecdsa-sha2-nistp256"@,
            put(encode_utf8("ecdsa-sha2-nistp256"@)) + (put(value) + rest),
        ) == Err::<MaterialView, Seq<char>>(
            "the ECDSA key's curve is '"@ + curve + "' and this node verifies nistp256"@,
        ),
        value == encode_utf8("nistp256"@) && no_string(rest) ==> key_of_blob(
            "ecdsa-sha2-nistp256"@,
            put(encode_utf8("ecdsa-sha2-nistp256"@)) + (put(value) + rest),
        ) == Err::<MaterialView, Seq<char>>("the key blob is truncated"@),
{
    lemma_key_types();
    lemma_key_blob_refusals();
    text_is_read_as_it_was_written("ecdsa-sha2-nistp256"@, put(value) + rest, "key blob"@);
    if forall|text: Seq<char>| #[trigger] encode_utf8(text) != value {
        bytes_that_are_no_text_are_refused(value, rest, "key blob"@);
    }
    if value == encode_utf8(curve) {
        text_is_read_as_it_was_written(curve, rest, "key blob"@);
    }
    if value == encode_utf8("nistp256"@) {
        text_is_read_as_it_was_written("nistp256"@, rest, "key blob"@);
        bytes_without_a_string_are_refused(rest, "key blob"@);
    }
}

/// An RSA key is refused where one of its integers is negative, and where its
/// modulus is missing.
pub proof fn an_rsa_key_is_refused_by_its_integers(
    m: nat,
    exponent: Seq<u8>,
    negative: Seq<u8>,
    rest: Seq<u8>,
)
    requires
        positive(m, exponent),
        fits(negative),
        negative.len() > 0,
        negative[0] >= 0x80,
    ensures
        key_of_blob("ssh-rsa"@, put(encode_utf8("ssh-rsa"@)) + (put(negative) + rest)) == Err::<
            MaterialView,
            Seq<char>,
        >("the key blob holds a negative integer"@),
        key_of_blob(
            "ssh-rsa"@,
            put(encode_utf8("ssh-rsa"@)) + (put(zeros(m) + exponent) + (put(negative) + rest)),
        ) == Err::<MaterialView, Seq<char>>("the key blob holds a negative integer"@),
        no_string(rest) ==> key_of_blob(
            "ssh-rsa"@,
            put(encode_utf8("ssh-rsa"@)) + (put(zeros(m) + exponent) + rest),
        ) == Err::<MaterialView, Seq<char>>("the key blob is truncated"@),
{
    let what = "key blob"@;
    let second = put(negative) + rest;
    lemma_key_types();
    lemma_key_blob_refusals();
    assert(zeros(0) + negative =~= negative);
    an_integer_is_read_off_each_encoding(0, negative, rest, what);
    text_is_read_as_it_was_written("ssh-rsa"@, second, what);
    text_is_read_as_it_was_written("ssh-rsa"@, put(zeros(m) + exponent) + second, what);
    an_integer_is_read_off_each_encoding(m, exponent, second, what);
    text_is_read_as_it_was_written("ssh-rsa"@, put(zeros(m) + exponent) + rest, what);
    an_integer_is_read_off_each_encoding(m, exponent, rest, what);
    bytes_without_a_string_are_refused(rest, what);
}

/// A line is a key exactly where its words are the key's type, the padded base64
/// of the key's blob, and the comment's words, the blob is written for the key
/// and the arithmetic takes it. The key is then authorized for any user.
pub proof fn a_line_is_a_key_where_it_is_written_so(line: Seq<char>, key: KeyView)
    ensures
        parsed_line(line) == Ok::<KeyView, Seq<char>>(key) <==> {
            &&& words(line).len() >= 2
            &&& words(line)[0] == type_of(key.material)
            &&& words(line)[1] == fully_padded(key.blob)
            &&& is_blob_of(key.blob, key.material)
            &&& taken(key.material)
            &&& key.user is None
            &&& key.comment == joined(words(line).skip(2))
        },
{
    let found = words(line);
    if found.len() >= 2 && one_of_three(found[0]) {
        if found[1] == fully_padded(key.blob) {
            base64_is_decoded_as_it_was_encoded(key.blob);
        }
        if decoded(found[1]) is Some {
            only_canonical_base64_is_decoded(found[1]);
        }
        a_blob_is_a_key_where_it_is_written_so(found[0], key.blob, key.material);
    }
    if parsed_line(line) == Ok::<KeyView, Seq<char>>(key) {
        assert(key.blob == decoded(found[1])->0);
    }
}

/// A line that is no key is refused: by what it starts with where that is none
/// of the three types, as no base64 where the second word is not the padded
/// base64 of some bytes, and as the blob is otherwise.
pub proof fn a_line_is_refused_for_its_first_fault(line: Seq<char>, blob: Seq<u8>)
    ensures
        words(line).len() == 0 ==> parsed_line(line) == Err::<KeyView, Seq<char>>(
            "the authorized key line starts with '"@ + Seq::<char>::empty()
                + "': options are not enforced here and are refused, and the key types verified are ssh-ed25519, ecdsa-sha2-nistp256 and ssh-rsa"@,
        ),
        words(line).len() > 0 && !one_of_three(words(line)[0]) ==> parsed_line(line) == Err::<
            KeyView,
            Seq<char>,
        >(
            "the authorized key line starts with '"@ + words(line)[0]
                + "': options are not enforced here and are refused, and the key types verified are ssh-ed25519, ecdsa-sha2-nistp256 and ssh-rsa"@,
        ),
        words(line).len() > 0 && one_of_three(words(line)[0]) && (words(line).len() == 1
            || forall|bytes: Seq<u8>| words(line)[1] != #[trigger] fully_padded(bytes))
            ==> parsed_line(line) == Err::<KeyView, Seq<char>>(
            "the authorized key's blob is not base64"@,
        ),
        words(line).len() > 1 && one_of_three(words(line)[0]) && words(line)[1] == fully_padded(
            blob,
        ) ==> (key_of_blob(words(line)[0], blob) matches Err(refusal) ==> parsed_line(line)
            == Err::<KeyView, Seq<char>>(refusal)),
{
    let found = words(line);
    lemma_key_types();
    if found.len() == 0 {
        let named = Seq::<char>::empty();
        assert(!is_key_type(named));
        assert(found.len() == 0);
    }
    if found.len() > 1 {
        if found[1] == fully_padded(blob) {
            base64_is_decoded_as_it_was_encoded(blob);
        }
        if decoded(found[1]) is Some {
            only_canonical_base64_is_decoded(found[1]);
        }
    }
}

/// A key's fingerprint is `SHA256:` and the unpadded base64 of the digest of its
/// whole blob.
pub proof fn a_fingerprint_is_of_the_whole_blob(blob: Seq<u8>, digest: Seq<u8>)
    ensures
        fingerprint_text(digest) == "SHA256:"@ + unpadded(digest),
        blob_fingerprint(blob) == "SHA256:"@ + unpadded(sha256(blob)@),
{
}

/// Two blobs have one fingerprint exactly where the digests of the whole blobs
/// are one.
pub proof fn one_fingerprint_is_one_digest(left: Seq<u8>, right: Seq<u8>)
    ensures
        blob_fingerprint(left) == blob_fingerprint(right) <==> sha256(left) == sha256(right),
{
    if blob_fingerprint(left) == blob_fingerprint(right) {
        a_fingerprint_tells_digests_apart(sha256(left)@, sha256(right)@);
        assert(sha256(left) =~= sha256(right));
    }
}

/// Fields are admitted as a key where they are usable and nothing is behind
/// them, and are refused for the first of these that fails.
pub proof fn fields_are_admitted_where_they_are_usable_and_alone(
    material: MaterialView,
    good: bool,
    rest: Seq<u8>,
)
    ensures
        admission(material, good, rest) is Ok <==> good && rest.len() == 0,
        good && rest.len() == 0 ==> admission(material, good, rest)->Ok_0 == material,
        good && rest.len() > 0 ==> admission(material, good, rest)->Err_0
            == "the key blob carries more than its key"@,
        !good && material is Ed25519 ==> admission(material, good, rest)->Err_0
            == "the Ed25519 key is not a point on the curve"@,
        !good && material is P256 ==> admission(material, good, rest)->Err_0
            == "the ECDSA key is not a point on nistp256"@,
        !good && material is Rsa ==> admission(material, good, rest)->Err_0
            == "the RSA modulus and exponent are not a usable key"@,
{
}

} // verus!
