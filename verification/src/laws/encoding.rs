//! Laws of base64: what is decoded is what was encoded, padded or not.

use vstd::prelude::*;

use crate::encoding::{
    decoded, decoded_leniently, encodes, fully_padded, lemma_encodes_injective,
    lemma_fully_padded_encodes, octet, sextet, symbol, symbols, unpadded,
};
use crate::laws::text::no_whitespace;

verus! {

/// Bytes that were encoded with padding are decoded to themselves.
pub proof fn base64_is_decoded_as_it_was_encoded(bytes: Seq<u8>)
    ensures
        decoded(fully_padded(bytes)) == Some(bytes),
{
    let chosen = decoded(fully_padded(bytes))->0;
    lemma_fully_padded_encodes(bytes);
    lemma_fully_padded_encodes(chosen);
    lemma_encodes_injective(fully_padded(bytes), bytes, chosen);
}

/// Only the canonical text of some bytes is decoded to them where padding is
/// wanted.
pub proof fn only_canonical_base64_is_decoded(text: Seq<char>)
    requires
        decoded(text) is Some,
    ensures
        text == fully_padded(decoded(text)->0),
{
}

/// Where padding is optional, the same bytes are decoded with all of it, some
/// or none.
pub proof fn padding_is_optional(text: Seq<char>, bytes: Seq<u8>)
    requires
        encodes(text, bytes),
    ensures
        decoded_leniently(text) == Some(bytes),
{
    lemma_encodes_injective(text, bytes, decoded_leniently(text)->0);
}

/// The padded and the unpadded text of bytes both are their base64.
pub proof fn padded_and_unpadded_are_base64(bytes: Seq<u8>)
    ensures
        encodes(fully_padded(bytes), bytes),
        encodes(unpadded(bytes), bytes),
        decoded_leniently(fully_padded(bytes)) == Some(bytes),
        decoded_leniently(unpadded(bytes)) == Some(bytes),
{
    lemma_fully_padded_encodes(bytes);
    assert(fully_padded(bytes).take(unpadded(bytes).len() as int) =~= unpadded(bytes));
    padding_is_optional(fully_padded(bytes), bytes);
    padding_is_optional(unpadded(bytes), bytes);
}

/// What strict decoding takes, lenient decoding takes as the same bytes.
pub proof fn lenient_decoding_takes_what_strict_decoding_takes(text: Seq<char>)
    requires
        decoded(text) is Some,
    ensures
        decoded_leniently(text) == decoded(text),
{
    padded_and_unpadded_are_base64(decoded(text)->0);
}

/// Base64 holds no white space, and but for its padding no `=`.
pub proof fn base64_holds_no_white_space(bytes: Seq<u8>)
    ensures
        no_whitespace(unpadded(bytes)),
        no_whitespace(fully_padded(bytes)),
        forall|i: int| 0 <= i < unpadded(bytes).len() ==> #[trigger] unpadded(bytes)[i] != '=',
{
    assert forall|i: int| 0 <= i < symbols(bytes.len()) implies !crate::text::whitespace(
        #[trigger] unpadded(bytes)[i],
    ) && unpadded(bytes)[i] != '=' by {
        let bits = sextet(bytes, i);
        assert(0 <= bits < 64);
        assert(unpadded(bytes)[i] == symbol(bits));
    }
}

/// The characters of base64 are those of the standard alphabet, in its order.
pub proof fn the_alphabet_is_the_standard_one(bits: int)
    requires
        0 <= bits < 64,
    ensures
        symbol(bits)
            == "ABCDEFGHIJKLMNOPQRSTUVWXYZabcdefghijklmnopqrstuvwxyz0123456789+/"@[bits],
{
    reveal_strlit("ABCDEFGHIJKLMNOPQRSTUVWXYZabcdefghijklmnopqrstuvwxyz0123456789+/");
}

/// Bits are grouped six by six in one way only.
proof fn lemma_bits(a: (int, int), b: (int, int), c: (int, int), p: int, q: int, r: int, s: int)
    requires
        0 <= a.0 < 64,
        0 <= a.1 < 4,
        0 <= b.0 < 16,
        0 <= b.1 < 16,
        0 <= c.0 < 4,
        0 <= c.1 < 64,
        0 <= p < 64,
        0 <= q < 64,
        0 <= r < 64,
        0 <= s < 64,
        (a.0 * 4 + a.1) * 0x1_0000 + (b.0 * 16 + b.1) * 0x100 + (c.0 * 64 + c.1) == p * 0x4_0000
            + q * 0x1000 + r * 64 + s,
    ensures
        p == a.0,
        q == a.1 * 16 + b.0,
        r == b.1 * 4 + c.0,
        s == c.1,
{
    let (second, third) = (a.1 * 16 + b.0, b.1 * 4 + c.0);
    assert((a.0 - p) * 0x4_0000 + (second - q) * 0x1000 + (third - r) * 64 + (c.1 - s) == 0);
    assert(p == a.0);
    assert(q == second);
    assert(r == third);
}

/// Three bytes are the four characters of their twenty-four bits, six by six and
/// the first bits first; two bytes are the three of their sixteen bits and two
/// zeros behind them, and one byte the two of its eight bits and four zeros.
pub proof fn three_bytes_are_four_characters(
    a: u8,
    b: u8,
    c: u8,
    p: int,
    q: int,
    r: int,
    s: int,
)
    requires
        0 <= p < 64,
        0 <= q < 64,
        0 <= r < 64,
        0 <= s < 64,
        a * 0x1_0000 + b * 0x100 + c == p * 0x4_0000 + q * 0x1000 + r * 64 + s,
    ensures
        unpadded(seq![a, b, c]) == seq![symbol(p), symbol(q), symbol(r), symbol(s)],
        c == 0 ==> unpadded(seq![a, b]) == seq![symbol(p), symbol(q), symbol(r)],
        c == 0 && b == 0 ==> unpadded(seq![a]) == seq![symbol(p), symbol(q)],
{
    let (three, two, one) = (seq![a, b, c], seq![a, b], seq![a]);
    lemma_bits(
        (a as int / 4, a as int % 4),
        (b as int / 16, b as int % 16),
        (c as int / 64, c as int % 64),
        p,
        q,
        r,
        s,
    );
    assert(sextet(three, 0) == p && sextet(three, 1) == q);
    assert(sextet(three, 2) == r && sextet(three, 3) == s);
    assert(unpadded(three) =~= seq![symbol(p), symbol(q), symbol(r), symbol(s)]);
    if c == 0 {
        assert(sextet(two, 0) == p && sextet(two, 1) == q && sextet(two, 2) == r);
        assert(unpadded(two) =~= seq![symbol(p), symbol(q), symbol(r)]);
        if b == 0 {
            assert(sextet(one, 0) == p && sextet(one, 1) == q);
            assert(unpadded(one) =~= seq![symbol(p), symbol(q)]);
        }
    }
}

/// Bytes are encoded three by three, each three by themselves.
pub proof fn base64_goes_three_bytes_by_three(front: Seq<u8>, back: Seq<u8>)
    requires
        front.len() % 3 == 0,
    ensures
        unpadded(front + back) == unpadded(front) + unpadded(back),
{
    let m = front.len() as int / 3;
    assert(symbols(front.len()) == 4 * m);
    assert(symbols((front + back).len()) == 4 * m + symbols(back.len()));
    assert forall|i: int| 0 <= i < unpadded(front + back).len() implies #[trigger] unpadded(
        front + back,
    )[i] == (unpadded(front) + unpadded(back))[i] by {
        if i < 4 * m {
            assert(i / 4 < m);
            assert(octet(front + back, i / 4 * 3) == octet(front, i / 4 * 3));
            assert(octet(front + back, i / 4 * 3 + 1) == octet(front, i / 4 * 3 + 1));
            assert(octet(front + back, i / 4 * 3 + 2) == octet(front, i / 4 * 3 + 2));
        } else {
            let j = i - 4 * m;
            assert(j / 4 == i / 4 - m && j % 4 == i % 4);
            assert(octet(front + back, i / 4 * 3) == octet(back, j / 4 * 3));
            assert(octet(front + back, i / 4 * 3 + 1) == octet(back, j / 4 * 3 + 1));
            assert(octet(front + back, i / 4 * 3 + 2) == octet(back, j / 4 * 3 + 2));
        }
    }
    assert(unpadded(front + back) =~= unpadded(front) + unpadded(back));
}

/// Padding is the `=` that fill the last four characters, and nothing else.
pub proof fn padding_fills_the_last_four_characters(bytes: Seq<u8>)
    ensures
        fully_padded(bytes).len() % 4 == 0,
        fully_padded(bytes).len() < unpadded(bytes).len() + 4,
        fully_padded(bytes).take(unpadded(bytes).len() as int) == unpadded(bytes),
        forall|i: int|
            unpadded(bytes).len() <= i < fully_padded(bytes).len() ==> #[trigger] fully_padded(
                bytes,
            )[i] == '=',
{
    let n = bytes.len() as int;
    assert(n == n / 3 * 3 + n % 3);
    assert(fully_padded(bytes).take(unpadded(bytes).len() as int) =~= unpadded(bytes));
}

/// A text is the base64 of bytes exactly where it is their characters with some
/// of their padding behind them, or all or none.
pub proof fn base64_has_some_of_its_padding(text: Seq<char>, bytes: Seq<u8>)
    ensures
        encodes(text, bytes) <==> {
            &&& unpadded(bytes).len() <= text.len() <= fully_padded(bytes).len()
            &&& text == unpadded(bytes) + Seq::new(
                (text.len() - unpadded(bytes).len()) as nat,
                |i: int| '=',
            )
        },
{
    let whole = fully_padded(bytes);
    if unpadded(bytes).len() <= text.len() <= whole.len() {
        let n = (text.len() - unpadded(bytes).len()) as nat;
        assert(whole.take(text.len() as int) =~= unpadded(bytes) + Seq::new(n, |i: int| '='));
    }
}

/// A text that is the base64 of no bytes, padded or not, is not decoded.
pub proof fn what_is_no_base64_is_not_decoded(text: Seq<char>)
    ensures
        decoded(text) is None <==> forall|bytes: Seq<u8>| text != #[trigger] fully_padded(bytes),
        decoded_leniently(text) is None <==> forall|bytes: Seq<u8>|
            !#[trigger] encodes(text, bytes),
{
    if decoded(text) is Some {
        assert(text == fully_padded(decoded(text)->0));
    }
    if decoded_leniently(text) is Some {
        assert(encodes(text, decoded_leniently(text)->0));
    }
}

} // verus!
