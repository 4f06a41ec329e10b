//! Base64 with the standard alphabet: RFC 4648 section 4.

use base64::alphabet;
use base64::engine::general_purpose::{STANDARD, STANDARD_NO_PAD};
use base64::engine::{DecodePaddingMode, GeneralPurpose, GeneralPurposeConfig};
use base64::Engine;
use vstd::prelude::*;

verus! {

/// The `k`-th of `bytes`, or zero past their end.
pub open spec fn octet(bytes: Seq<u8>, k: int) -> int {
    if 0 <= k < bytes.len() {
        bytes[k] as int
    } else {
        0
    }
}

/// The `i`-th group of six bits of `bytes`.
pub open spec fn sextet(bytes: Seq<u8>, i: int) -> int {
    let a = octet(bytes, i / 4 * 3);
    let b = octet(bytes, i / 4 * 3 + 1);
    let c = octet(bytes, i / 4 * 3 + 2);
    if i % 4 == 0 {
        a / 4
    } else if i % 4 == 1 {
        a % 4 * 16 + b / 16
    } else if i % 4 == 2 {
        b % 16 * 4 + c / 64
    } else {
        c % 64
    }
}

/// The character that stands for six bits.
pub open spec fn symbol(bits: int) -> char {
    if bits < 26 {
        ('A' as int + bits) as char
    } else if bits < 52 {
        ('a' as int + bits - 26) as char
    } else if bits < 62 {
        ('0' as int + bits - 52) as char
    } else if bits == 62 {
        '+'
    } else {
        '/'
    }
}

/// How many characters `n` bytes need.
pub open spec fn symbols(n: nat) -> nat {
    (4 * n + 2) / 3
}

/// How many `=` fill the last group of four behind `n` bytes.
pub open spec fn padding(n: nat) -> nat {
    ((3 - n % 3) % 3) as nat
}

/// The base64 of `bytes` without padding.
pub open spec fn unpadded(bytes: Seq<u8>) -> Seq<char> {
    Seq::new(symbols(bytes.len()), |i: int| symbol(sextet(bytes, i)))
}

/// The base64 of `bytes` with its padding.
pub open spec fn fully_padded(bytes: Seq<u8>) -> Seq<char> {
    unpadded(bytes) + Seq::new(padding(bytes.len()), |i: int| '=')
}

/// `text` is the base64 of `bytes` with all of its padding, some or none.
pub open spec fn encodes(text: Seq<char>, bytes: Seq<u8>) -> bool {
    &&& symbols(bytes.len()) <= text.len() <= fully_padded(bytes).len()
    &&& text == fully_padded(bytes).take(text.len() as int)
}

/// The bytes whose fully padded base64 `text` is, where there are such.
pub open spec fn decoded(text: Seq<char>) -> Option<Seq<u8>> {
    if exists|bytes: Seq<u8>| text == fully_padded(bytes) {
        Some(choose|bytes: Seq<u8>| text == fully_padded(bytes))
    } else {
        None
    }
}

/// The bytes whose base64 `text` is, padded or not, where there are such.
pub open spec fn decoded_leniently(text: Seq<char>) -> Option<Seq<u8>> {
    if exists|bytes: Seq<u8>| encodes(text, bytes) {
        Some(choose|bytes: Seq<u8>| encodes(text, bytes))
    } else {
        None
    }
}

/// `base64::Engine::decode` with the engine `STANDARD`, which wants canonical
/// padding and no stray bits behind the last byte: it takes exactly the texts
/// that are the fully padded base64 of some bytes, and gives those bytes.
#[verifier::external_body]
fn standard_decode(text: &str) -> (bytes: Option<Vec<u8>>)
    ensures
        bytes matches Some(found) ==> text@ == fully_padded(found@),
        bytes is None ==> forall|other: Seq<u8>| text@ != #[trigger] fully_padded(other),
{
    STANDARD.decode(text).ok()
}

/// `base64::Engine::decode` with an engine of the standard alphabet that is
/// indifferent to padding and wants no stray bits behind the last byte: it
/// takes exactly the texts that are the base64 of some bytes with any number
/// of the padding characters left off, and gives those bytes.
#[verifier::external_body]
fn indifferent_decode(text: &str) -> (bytes: Option<Vec<u8>>)
    ensures
        bytes matches Some(found) ==> encodes(text@, found@),
        bytes is None ==> forall|other: Seq<u8>| !#[trigger] encodes(text@, other),
{
    let config = GeneralPurposeConfig::new();
    let config = config.with_decode_padding_mode(DecodePaddingMode::Indifferent);
    GeneralPurpose::new(&alphabet::STANDARD, config).decode(text).ok()
}

/// `base64::Engine::encode` with the engine `STANDARD_NO_PAD`, over a SHA-256
/// digest: the base64 of the bytes without padding.
#[verifier::external_body]
pub(crate) fn encode_unpadded(bytes: &[u8; 32]) -> (text: String)
    ensures
        text@ == unpadded(bytes@),
{
    STANDARD_NO_PAD.encode(bytes)
}

/// A value below sixty-four has one character, which is never the padding.
proof fn lemma_symbol(x: int, y: int)
    requires
        0 <= x < 64,
        0 <= y < 64,
    ensures
        symbol(x) == symbol(y) ==> x == y,
        symbol(x) != '=',
{
}

proof fn lemma_sextet_range(bytes: Seq<u8>, i: int)
    ensures
        0 <= sextet(bytes, i) < 64,
{
}

/// One text is the base64 of one byte string only.
pub proof fn lemma_encodes_injective(text: Seq<char>, left: Seq<u8>, right: Seq<u8>)
    requires
        encodes(text, left),
        encodes(text, right),
    ensures
        left == right,
{
    let m = symbols(left.len());
    let n = symbols(right.len());
    if m < n {
        assert(text[m as int] == '=');
        lemma_sextet_range(right, m as int);
        lemma_symbol(sextet(right, m as int), 0);
        assert(text[m as int] == symbol(sextet(right, m as int)));
    }
    if n < m {
        assert(text[n as int] == '=');
        lemma_sextet_range(left, n as int);
        lemma_symbol(sextet(left, n as int), 0);
        assert(text[n as int] == symbol(sextet(left, n as int)));
    }
    assert(left.len() == right.len());
    assert forall|i: int| 0 <= i < m implies sextet(left, i) == sextet(right, i) by {
        lemma_sextet_range(left, i);
        lemma_sextet_range(right, i);
        lemma_symbol(sextet(left, i), sextet(right, i));
        assert(text[i] == symbol(sextet(left, i)));
        assert(text[i] == symbol(sextet(right, i)));
    }
    assert forall|j: int| 0 <= j < left.len() implies left[j] == right[j] by {
        let i = j / 3 * 4;
        if j % 3 == 0 {
            assert(sextet(left, i) == sextet(right, i));
            assert(sextet(left, i + 1) == sextet(right, i + 1));
        } else if j % 3 == 1 {
            assert(sextet(left, i + 1) == sextet(right, i + 1));
            assert(sextet(left, i + 2) == sextet(right, i + 2));
        } else {
            assert(sextet(left, i + 2) == sextet(right, i + 2));
            assert(sextet(left, i + 3) == sextet(right, i + 3));
        }
    }
    assert(left =~= right);
}

/// Fully padded base64 is base64.
pub proof fn lemma_fully_padded_encodes(bytes: Seq<u8>)
    ensures
        encodes(fully_padded(bytes), bytes),
{
    assert(fully_padded(bytes).take(fully_padded(bytes).len() as int) =~= fully_padded(bytes));
}

/// The bytes of fully padded base64, or `None` where the text is not that.
pub fn decode(text: &str) -> (bytes: Option<Vec<u8>>)
    ensures
        match bytes {
            Some(bytes) => decoded(text@) == Some(bytes@),
            None => decoded(text@) is None,
        },
{
    let bytes = standard_decode(text);
    proof {
        if let Some(bytes) = &bytes {
            let chosen = decoded(text@)->0;
            assert(text@ == fully_padded(bytes@));
            lemma_fully_padded_encodes(bytes@);
            lemma_fully_padded_encodes(chosen);
            lemma_encodes_injective(text@, bytes@, chosen);
        }
    }
    bytes
}

/// The bytes of base64, padded or not, or `None` where the text is not that.
pub fn decode_leniently(text: &str) -> (bytes: Option<Vec<u8>>)
    ensures
        match bytes {
            Some(bytes) => decoded_leniently(text@) == Some(bytes@),
            None => decoded_leniently(text@) is None,
        },
{
    let bytes = indifferent_decode(text);
    proof {
        if let Some(bytes) = &bytes {
            lemma_encodes_injective(text@, bytes@, decoded_leniently(text@)->0);
        }
    }
    bytes
}

} // verus!
