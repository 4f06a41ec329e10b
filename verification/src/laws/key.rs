//! Laws of keys: a key that was written is read back, a line that is no key
//! verified here is refused by what it starts with, and what a fingerprint
//! looks like.

use vstd::prelude::*;
use vstd::string::*;
use vstd::utf8::*;

use crate::crypto::sha256;
use crate::encoding::{decoded, fully_padded, unpadded};
use crate::key::{
    admission, blob_fingerprint, fingerprint_text, is_key_type, key_fields, key_of_blob, key_type,
    lemma_key_type, parsed_line, unknown_type, unusable, usable, KeyView, MaterialView, ECDSA_P256, ED25519, RSA,
};
use crate::laws::encoding::{
    base64_holds_no_white_space, base64_is_decoded_as_it_was_encoded,
    padded_and_unpadded_are_base64,
};
use crate::laws::text::{
    a_word_in_front_is_split_off, is_word, joined_words_are_split_again, no_whitespace,
    only_words_are_split_off,
};
use crate::laws::wire::{
    a_string_is_read_as_it_was_written, a_string_that_is_read_was_written,
    an_integer_is_read_as_it_was_written, an_integer_that_is_read_is_significant, fits,
    mpint_value, put, put_mpint, significant_bytes, text_is_read_as_it_was_written, text_that_is_read_was_written,
};
use crate::text::{joined, whitespace, words};
use crate::wire::{after_string, read_mpint, significant, string_value};

verus! {

/// The fields of a key, written.
pub open spec fn fields_of(material: MaterialView) -> Seq<u8> {
    match material {
        MaterialView::Ed25519(key) => put(key),
        MaterialView::P256(point) => put(encode_utf8("nistp256"@)) + put(point),
        MaterialView::Rsa { exponent, modulus } => put_mpint(exponent) + put_mpint(modulus),
    }
}

/// The blob of a key, written.
pub open spec fn blob_of(material: MaterialView) -> Seq<u8> {
    put(encode_utf8(key_type(material))) + fields_of(material)
}

/// The parts of a key are as long as the wire has them, and an integer starts
/// with no zero.
pub open spec fn measured(material: MaterialView) -> bool {
    match material {
        MaterialView::Ed25519(key) => key.len() == 32,
        MaterialView::P256(point) => fits(point),
        MaterialView::Rsa { exponent, modulus } => {
            &&& fits(mpint_value(exponent)) && fits(mpint_value(modulus))
            &&& significant(exponent) == exponent && significant(modulus) == modulus
        },
    }
}

/// The key types are words of characters that are single bytes on the wire,
/// none starts a comment, and no two are the same.
pub proof fn lemma_key_types()
    ensures
        is_word(ED25519@),
        is_word(ECDSA_P256@),
        is_word(RSA@),
        ED25519@[0] != '#' && ECDSA_P256@[0] != '#' && RSA@[0] != '#',
        fits(encode_utf8(ED25519@)),
        fits(encode_utf8(ECDSA_P256@)),
        fits(encode_utf8(RSA@)),
        fits(encode_utf8("nistp256"@)),
        ED25519@ != ECDSA_P256@,
        ED25519@ != RSA@,
        ECDSA_P256@ != RSA@,
{
    reveal_strlit("ssh-ed25519");
    reveal_strlit("ecdsa-sha2-nistp256");
    reveal_strlit("ssh-rsa");
    reveal_strlit("nistp256");
    is_ascii_chars_encode_utf8(ED25519@);
    is_ascii_chars_encode_utf8(ECDSA_P256@);
    is_ascii_chars_encode_utf8(RSA@);
    is_ascii_chars_encode_utf8("nistp256"@);
    assert(ED25519@.len() == 11 && ECDSA_P256@.len() == 19 && RSA@.len() == 7);
}

/// The fields of an Ed25519 key are read off what they were written as.
proof fn lemma_ed25519_fields(key: Seq<u8>, rest: Seq<u8>)
    requires
        key.len() == 32,
    ensures
        key_fields(ED25519@, put(key) + rest) == Ok::<(MaterialView, Seq<u8>), Seq<char>>(
            (MaterialView::Ed25519(key), rest),
        ),
{
    a_string_is_read_as_it_was_written(key, rest, "key blob"@);
}

/// The fields of an ECDSA key are read off what they were written as.
proof fn lemma_p256_fields(point: Seq<u8>, rest: Seq<u8>)
    requires
        fits(point),
    ensures
        key_fields(ECDSA_P256@, put(encode_utf8("nistp256"@)) + (put(point) + rest)) == Ok::<
            (MaterialView, Seq<u8>),
            Seq<char>,
        >((MaterialView::P256(point), rest)),
{
    lemma_key_types();
    text_is_read_as_it_was_written("nistp256"@, put(point) + rest, "key blob"@);
    a_string_is_read_as_it_was_written(point, rest, "key blob"@);
}

/// The fields of an RSA key are read off what they were written as.
proof fn lemma_rsa_fields(exponent: Seq<u8>, modulus: Seq<u8>, rest: Seq<u8>)
    requires
        fits(mpint_value(exponent)),
        fits(mpint_value(modulus)),
        significant(exponent) == exponent,
        significant(modulus) == modulus,
    ensures
        key_fields(RSA@, put_mpint(exponent) + (put_mpint(modulus) + rest)) == Ok::<
            (MaterialView, Seq<u8>),
            Seq<char>,
        >((MaterialView::Rsa { exponent, modulus }, rest)),
{
    lemma_key_types();
    an_integer_is_read_as_it_was_written(exponent, put_mpint(modulus) + rest, "key blob"@);
    an_integer_is_read_as_it_was_written(modulus, rest, "key blob"@);
}

/// The fields of a key are read off what they were written as.
proof fn lemma_fields(material: MaterialView, rest: Seq<u8>)
    requires
        measured(material),
    ensures
        key_fields(key_type(material), fields_of(material) + rest) == Ok::<
            (MaterialView, Seq<u8>),
            Seq<char>,
        >((material, rest)),
{
    let fields = fields_of(material) + rest;
    match material {
        MaterialView::Ed25519(key) => {
            lemma_ed25519_fields(key, rest);
        },
        MaterialView::P256(point) => {
            assert(fields =~= put(encode_utf8("nistp256"@)) + (put(point) + rest));
            lemma_p256_fields(point, rest);
        },
        MaterialView::Rsa { exponent, modulus } => {
            assert(fields =~= put_mpint(exponent) + (put_mpint(modulus) + rest));
            lemma_rsa_fields(exponent, modulus, rest);
        },
    }
}

/// A key's blob with `rest` behind it is that key where the arithmetic takes
/// it as one and nothing is behind it.
proof fn lemma_blob(material: MaterialView, rest: Seq<u8>)
    requires
        measured(material),
    ensures
        key_of_blob(key_type(material), blob_of(material) + rest) == admission(
            material,
            usable(material),
            rest,
        ),
{
    let fields = fields_of(material) + rest;
    lemma_key_types();
    assert(blob_of(material) + rest =~= put(encode_utf8(key_type(material))) + fields);
    text_is_read_as_it_was_written(key_type(material), fields, "key blob"@);
    lemma_fields(material, rest);
}

/// A key that was written is read back exactly where the arithmetic takes it
/// as a key, and is refused as unusable otherwise.
pub proof fn a_key_is_read_as_it_was_written(material: MaterialView)
    requires
        measured(material),
    ensures
        usable(material) ==> key_of_blob(key_type(material), blob_of(material)) == Ok::<
            MaterialView,
            Seq<char>,
        >(material),
        !usable(material) ==> key_of_blob(key_type(material), blob_of(material)) == Err::<
            MaterialView,
            Seq<char>,
        >(unusable(material)),
{
    lemma_blob(material, seq![]);
    assert(blob_of(material) + seq![] =~= blob_of(material));
}

/// A blob with anything behind its key is refused.
pub proof fn a_blob_that_carries_more_than_its_key_is_refused(
    material: MaterialView,
    rest: Seq<u8>,
)
    requires
        measured(material),
        usable(material),
        rest.len() > 0,
    ensures
        key_of_blob(key_type(material), blob_of(material) + rest) == Err::<
            MaterialView,
            Seq<char>,
        >("the key blob carries more than its key"@),
{
    lemma_blob(material, rest);
}

/// A key that is read is usable, of the type that was asked for, and has parts
/// as long as the wire has them; an Ed25519 or ECDSA key is read off the one
/// blob that it is written as.
#[verifier::rlimit(30)]
pub proof fn a_key_that_is_read_was_written(named: Seq<char>, blob: Seq<u8>)
    requires
        is_key_type(named),
        key_of_blob(named, blob) is Ok,
    ensures
        key_type(key_of_blob(named, blob)->Ok_0) == named,
        usable(key_of_blob(named, blob)->Ok_0),
        measured(key_of_blob(named, blob)->Ok_0),
        !(key_of_blob(named, blob)->Ok_0 is Rsa) ==> blob == blob_of(
            key_of_blob(named, blob)->Ok_0,
        ),
{
    let what = "key blob"@;
    let material = key_of_blob(named, blob)->Ok_0;
    lemma_key_types();
    lemma_key_type(named, blob);
    text_that_is_read_was_written(blob, what);
    let fields = after_string(blob);
    match material {
        MaterialView::Ed25519(key) => {
            a_string_that_is_read_was_written(fields);
            assert(put(key) + after_string(fields) =~= put(key));
        },
        MaterialView::P256(point) => {
            text_that_is_read_was_written(fields, what);
            a_string_that_is_read_was_written(after_string(fields));
            assert(put(point) + after_string(after_string(fields)) =~= put(point));
        },
        MaterialView::Rsa { exponent, modulus } => {
            an_integer_that_is_read_is_significant(fields, what);
            an_integer_that_is_read_is_significant(after_string(fields), what);
            lemma_mpint_fits(fields, what);
            lemma_mpint_fits(after_string(fields), what);
        },
    }
}

/// An integer that is read could be written.
proof fn lemma_mpint_fits(bytes: Seq<u8>, what: Seq<char>)
    requires
        read_mpint(bytes, what) is Ok,
    ensures
        fits(mpint_value(read_mpint(bytes, what)->Ok_0)),
{
    let value = string_value(bytes);
    let read = significant(value);
    a_string_that_is_read_was_written(bytes);
    significant_bytes(value);
    significant_bytes(read);
    if read.len() > 0 && read[0] >= 0x80 {
        assert(read.len() < value.len());
    }
}

/// A blob is refused where the line names another type than the blob does.
pub proof fn a_blob_of_another_type_is_refused(named: Seq<char>, inner: Seq<char>, rest: Seq<u8>)
    requires
        fits(encode_utf8(inner)),
        inner != named,
    ensures
        key_of_blob(named, put(encode_utf8(inner)) + rest) == Err::<MaterialView, Seq<char>>(
            "the authorized key line says "@ + named + " and its blob says "@ + inner,
        ),
{
    text_is_read_as_it_was_written(inner, rest, "key blob"@);
}

/// An ECDSA key on another curve is refused by that curve's name.
pub proof fn another_curve_is_refused_by_name(curve: Seq<char>, rest: Seq<u8>)
    requires
        fits(encode_utf8(curve)),
        curve != "nistp256"@,
    ensures
        key_of_blob(
            ECDSA_P256@,
            put(encode_utf8(ECDSA_P256@)) + (put(encode_utf8(curve)) + rest),
        ) == Err::<MaterialView, Seq<char>>(
            "the ECDSA key's curve is '"@ + curve + "' and this node verifies nistp256"@,
        ),
{
    lemma_key_types();
    text_is_read_as_it_was_written(ECDSA_P256@, put(encode_utf8(curve)) + rest, "key blob"@);
    text_is_read_as_it_was_written(curve, rest, "key blob"@);
}

/// A line that starts with anything but a key type verified here is refused by
/// what it starts with: options are, and every other key type.
pub proof fn a_line_is_refused_by_what_it_starts_with(word: Seq<char>, rest: Seq<char>)
    requires
        is_word(word),
        !is_key_type(word),
        rest.len() > 0 ==> whitespace(rest[0]),
    ensures
        parsed_line(word + rest) == Err::<KeyView, Seq<char>>(unknown_type(word)),
{
    a_word_in_front_is_split_off(word, rest);
}

/// A line as OpenSSH writes it is read back: the key it was written for, with
/// the words behind it as the comment, authorized for any user.
#[verifier::rlimit(30)]
pub proof fn a_line_is_read_as_it_was_written(material: MaterialView, comment: Seq<Seq<char>>)
    requires
        measured(material),
        usable(material),
        forall|i: int| 0 <= i < comment.len() ==> is_word(#[trigger] comment[i]),
    ensures
        parsed_line(
            joined(seq![key_type(material), fully_padded(blob_of(material))] + comment),
        ) == Ok::<KeyView, Seq<char>>(
            KeyView {
                blob: blob_of(material),
                material,
                user: None,
                comment: joined(comment),
            },
        ),
{
    let blob = blob_of(material);
    let list = seq![key_type(material), fully_padded(blob)] + comment;
    lemma_key_types();
    base64_holds_no_white_space(blob);
    assert forall|i: int| 0 <= i < list.len() implies is_word(#[trigger] list[i]) by {
        if i >= 2 {
            assert(list[i] == comment[i - 2]);
        }
    }
    joined_words_are_split_again(list);
    base64_is_decoded_as_it_was_encoded(blob);
    a_key_is_read_as_it_was_written(material);
    assert(list.skip(2) =~= comment);
}

/// A key that is read off a line is whole and usable, is narrowed to no user,
/// and its comment has the words that are behind the blob.
pub proof fn a_key_that_is_parsed_is_whole(line: Seq<char>)
    requires
        parsed_line(line) is Ok,
    ensures
        parsed_line(line)->Ok_0.well_formed(),
        parsed_line(line)->Ok_0.user is None,
        words(line)[0] == key_type(parsed_line(line)->Ok_0.material),
        words(line)[1] == fully_padded(parsed_line(line)->Ok_0.blob),
        words(parsed_line(line)->Ok_0.comment) == words(line).skip(2),
{
    let found = words(line);
    lemma_key_type(found[0], decoded(found[1])->0);
    only_words_are_split_off(line);
    let comment = found.skip(2);
    assert forall|i: int| 0 <= i < comment.len() implies is_word(#[trigger] comment[i]) by {
        assert(is_word(found[i + 2]));
    }
    joined_words_are_split_again(comment);
}

/// A fingerprint is fifty characters, none of them white space, and starts with
/// `SHA256:` and ends with no padding.
pub proof fn a_fingerprint_is_fifty_characters(blob: Seq<u8>)
    ensures
        blob_fingerprint(blob).len() == 50,
        blob_fingerprint(blob).take(7) == "SHA256:"@,
        no_whitespace(blob_fingerprint(blob)),
        blob_fingerprint(blob).last() != '=',
{
    let digest = sha256(blob)@;
    reveal_strlit("SHA256:");
    base64_holds_no_white_space(digest);
    assert(blob_fingerprint(blob).take(7) =~= "SHA256:"@);
    assert(blob_fingerprint(blob).last() == unpadded(digest).last());
}

/// Two digests print alike only where they are one.
pub proof fn a_fingerprint_tells_digests_apart(left: Seq<u8>, right: Seq<u8>)
    requires
        fingerprint_text(left) == fingerprint_text(right),
    ensures
        left == right,
{
    let name = "SHA256:"@;
    assert(fingerprint_text(left).skip(name.len() as int) =~= unpadded(left));
    assert(fingerprint_text(right).skip(name.len() as int) =~= unpadded(right));
    padded_and_unpadded_are_base64(left);
    padded_and_unpadded_are_base64(right);
}

} // verus!
