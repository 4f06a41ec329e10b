//! Laws of the wire encoding: what is read is what was written.

use vstd::arithmetic::power::pow;
use vstd::prelude::*;
use vstd::utf8::*;

use crate::cursor::{be_value, lemma_be_value_4};
use crate::wire::{
    after_string, has_string, negative, read_mpint, read_string, read_text, significant, string_len,
    string_value, truncated, widened,
};

verus! {

/// A length as four big-endian bytes.
pub open spec fn four_bytes(n: nat) -> Seq<u8> {
    seq![
        (n / 0x100_0000) as u8,
        (n / 0x1_0000 % 256) as u8,
        (n / 0x100 % 256) as u8,
        (n % 256) as u8,
    ]
}

/// A `string` written.
pub open spec fn put(value: Seq<u8>) -> Seq<u8> {
    four_bytes(value.len()) + value
}

/// What a positive `mpint` holds: the integer without leading zeros, behind
/// one zero where it would read as negative.
pub open spec fn mpint_value(integer: Seq<u8>) -> Seq<u8> {
    let value = significant(integer);
    if value.len() > 0 && value[0] >= 0x80 {
        seq![0u8] + value
    } else {
        value
    }
}

/// A positive `mpint` written.
pub open spec fn put_mpint(integer: Seq<u8>) -> Seq<u8> {
    put(mpint_value(integer))
}

/// A value that a `string` can hold.
pub open spec fn fits(value: Seq<u8>) -> bool {
    value.len() < 0x1_0000_0000
}

/// A `string` that was written is read back, and nothing behind it is.
pub proof fn a_string_is_read_as_it_was_written(value: Seq<u8>, rest: Seq<u8>, what: Seq<char>)
    requires
        fits(value),
    ensures
        has_string(put(value) + rest),
        string_value(put(value) + rest) == value,
        read_string(put(value) + rest, what) == Ok::<Seq<u8>, Seq<char>>(value),
        after_string(put(value) + rest) == rest,
{
    let bytes = put(value) + rest;
    let length = bytes.take(4);
    assert(length =~= four_bytes(value.len()));
    lemma_be_value_4(length);
    assert(string_len(bytes) == value.len());
    assert(string_value(bytes) =~= value);
    assert(after_string(bytes) =~= rest);
}

/// The four bytes of the value of four bytes are those bytes.
proof fn lemma_four_bytes(bytes: Seq<u8>)
    requires
        bytes.len() == 4,
    ensures
        be_value(bytes) < 0x1_0000_0000,
        four_bytes(be_value(bytes)) == bytes,
{
    lemma_be_value_4(bytes);
    let n = be_value(bytes) as int;
    let (a, b, c, d) = (bytes[0] as int, bytes[1] as int, bytes[2] as int, bytes[3] as int);
    assert(n / 0x100 == a * 0x1_0000 + b * 0x100 + c && n % 256 == d);
    assert(n / 0x1_0000 == a * 0x100 + b);
    assert(n / 0x100_0000 == a);
    assert(four_bytes(be_value(bytes)) =~= bytes);
}

/// Bytes that a `string` is read off are that string written, with what is
/// left behind it.
pub proof fn a_string_that_is_read_was_written(bytes: Seq<u8>)
    requires
        has_string(bytes),
    ensures
        fits(string_value(bytes)),
        bytes == put(string_value(bytes)) + after_string(bytes),
{
    lemma_four_bytes(bytes.take(4));
    assert(bytes =~= put(string_value(bytes)) + after_string(bytes));
}

/// A `string` cut short anywhere is refused as truncated.
pub proof fn a_string_cut_short_is_refused(value: Seq<u8>, n: int, what: Seq<char>)
    requires
        fits(value),
        0 <= n < put(value).len(),
    ensures
        read_string(put(value).take(n), what) == Err::<Seq<u8>, Seq<char>>(truncated(what)),
{
    let bytes = put(value).take(n);
    if n >= 4 {
        assert(bytes.take(4) =~= four_bytes(value.len()));
        lemma_be_value_4(bytes.take(4));
        assert(string_len(bytes) == value.len());
    }
}

/// Text that was written is read back.
pub proof fn text_is_read_as_it_was_written(text: Seq<char>, rest: Seq<u8>, what: Seq<char>)
    requires
        fits(encode_utf8(text)),
    ensures
        read_text(put(encode_utf8(text)) + rest, what) == Ok::<Seq<char>, Seq<char>>(text),
        after_string(put(encode_utf8(text)) + rest) == rest,
{
    a_string_is_read_as_it_was_written(encode_utf8(text), rest, what);
    encode_utf8_valid_utf8(text);
    encode_utf8_decode_utf8(text);
}

/// Bytes that text is read off are that text written, with what is left behind
/// it.
pub proof fn text_that_is_read_was_written(bytes: Seq<u8>, what: Seq<char>)
    requires
        read_text(bytes, what) is Ok,
    ensures
        fits(encode_utf8(read_text(bytes, what)->Ok_0)),
        bytes == put(encode_utf8(read_text(bytes, what)->Ok_0)) + after_string(bytes),
{
    a_string_that_is_read_was_written(bytes);
    decode_utf8_encode_utf8(string_value(bytes));
}

/// Without its leading zeros an integer starts with none, and is a suffix of
/// what it was.
pub proof fn significant_bytes(integer: Seq<u8>)
    ensures
        significant(integer).len() <= integer.len(),
        significant(integer).len() > 0 ==> significant(integer)[0] != 0,
        significant(integer) == integer.skip(integer.len() - significant(integer).len()),
        forall|i: int|
            0 <= i < integer.len() - significant(integer).len() ==> #[trigger] integer[i] == 0,
    decreases integer.len(),
{
    if integer.len() > 0 && integer[0] == 0 {
        significant_bytes(integer.drop_first());
        let zeros = integer.len() - significant(integer).len();
        assert forall|i: int| 0 <= i < zeros implies #[trigger] integer[i] == 0 by {
            if i > 0 {
                assert(integer.drop_first()[i - 1] == 0);
            }
        }
    }
    assert(significant(integer) =~= integer.skip(integer.len() - significant(integer).len()));
}

/// A zero in front does not change an integer.
proof fn lemma_be_value_zero(integer: Seq<u8>)
    ensures
        be_value(seq![0u8] + integer) == be_value(integer),
    decreases integer.len(),
{
    let longer = seq![0u8] + integer;
    if integer.len() > 0 {
        lemma_be_value_zero(integer.drop_last());
        assert(longer.drop_last() =~= seq![0u8] + integer.drop_last());
    } else {
        assert(longer.drop_last() =~= integer);
        reveal_with_fuel(be_value, 2);
    }
}

/// Leading zeros do not change an integer.
pub proof fn leading_zeros_do_not_count(integer: Seq<u8>)
    ensures
        be_value(significant(integer)) == be_value(integer),
    decreases integer.len(),
{
    if integer.len() > 0 && integer[0] == 0 {
        leading_zeros_do_not_count(integer.drop_first());
        lemma_be_value_zero(integer.drop_first());
        assert(seq![0u8] + integer.drop_first() =~= integer);
    }
}

/// An integer is one byte string only of a given width.
pub proof fn an_integer_is_written_in_one_way_of_a_width(left: Seq<u8>, right: Seq<u8>)
    requires
        left.len() == right.len(),
        be_value(left) == be_value(right),
    ensures
        left == right,
    decreases left.len(),
{
    if left.len() > 0 {
        assert(left.last() == right.last() && be_value(left.drop_last()) == be_value(
            right.drop_last(),
        ));
        an_integer_is_written_in_one_way_of_a_width(left.drop_last(), right.drop_last());
        assert(left =~= left.drop_last().push(left.last()));
        assert(right =~= right.drop_last().push(right.last()));
    } else {
        assert(left =~= right);
    }
}

/// A positive integer that was written is read back, whatever zeros it was
/// written with.
pub proof fn an_integer_is_read_as_it_was_written(
    integer: Seq<u8>,
    rest: Seq<u8>,
    what: Seq<char>,
)
    requires
        fits(mpint_value(integer)),
    ensures
        read_mpint(put_mpint(integer) + rest, what) == Ok::<Seq<u8>, Seq<char>>(
            significant(integer),
        ),
        after_string(put_mpint(integer) + rest) == rest,
{
    let value = significant(integer);
    significant_bytes(integer);
    a_string_is_read_as_it_was_written(mpint_value(integer), rest, what);
    if value.len() > 0 && value[0] >= 0x80 {
        assert(mpint_value(integer).drop_first() =~= value);
    }
    reveal_with_fuel(significant, 2);
}

/// An integer that is read starts with no zero and has the value its bytes
/// have.
pub proof fn an_integer_that_is_read_is_significant(bytes: Seq<u8>, what: Seq<char>)
    requires
        read_mpint(bytes, what) is Ok,
    ensures
        read_mpint(bytes, what)->Ok_0 == significant(read_mpint(bytes, what)->Ok_0),
        be_value(read_mpint(bytes, what)->Ok_0) == be_value(string_value(bytes)),
{
    significant_bytes(string_value(bytes));
    leading_zeros_do_not_count(string_value(bytes));
}

/// An integer whose first bit is set is refused as negative.
pub proof fn a_negative_integer_is_refused(value: Seq<u8>, rest: Seq<u8>, what: Seq<char>)
    requires
        fits(value),
        value.len() > 0,
        value[0] >= 0x80,
    ensures
        read_mpint(put(value) + rest, what) == Err::<Seq<u8>, Seq<char>>(negative(what)),
{
    a_string_is_read_as_it_was_written(value, rest, what);
}

/// Padding keeps an integer's value, and what it was without leading zeros.
pub proof fn padding_keeps_the_integer(integer: Seq<u8>, width: nat)
    ensures
        integer.len() <= width ==> widened(integer, width).len() == width,
        be_value(widened(integer, width)) == be_value(integer),
        significant(widened(integer, width)) == significant(integer),
    decreases width,
{
    if integer.len() < width {
        let less = widened(integer, (width - 1) as nat);
        padding_keeps_the_integer(integer, (width - 1) as nat);
        assert(widened(integer, width) =~= seq![0u8] + less);
        lemma_be_value_zero(less);
        assert((seq![0u8] + less).drop_first() =~= less);
    }
}

/// Leading zeros that were dropped come back by padding to the full width.
pub proof fn padding_restores_dropped_zeros(integer: Seq<u8>)
    ensures
        widened(significant(integer), integer.len()) == integer,
{
    significant_bytes(integer);
    let zeros = integer.len() - significant(integer).len();
    assert forall|i: int| 0 <= i < integer.len() implies widened(
        significant(integer),
        integer.len(),
    )[i] == integer[i] by {
        if i < zeros {
            assert(integer[i] == 0);
        }
    }
    assert(widened(significant(integer), integer.len()) =~= integer);
}

/// `n` zero bytes.
pub open spec fn zeros(n: nat) -> Seq<u8> {
    Seq::new(n, |i: int| 0u8)
}

/// `bytes` are a `string` that holds `value`, with `rest` behind it.
pub open spec fn in_front(bytes: Seq<u8>, value: Seq<u8>, rest: Seq<u8>) -> bool {
    fits(value) && bytes == put(value) + rest
}

/// Bytes are big-endian digits of base 256: one byte is its own value, and bytes
/// in front of others count by as many powers as the others are.
pub proof fn bytes_are_digits_of_base_256(left: Seq<u8>, right: Seq<u8>, byte: u8)
    ensures
        be_value(seq![byte]) == byte,
        be_value(left + right) == be_value(left) * pow(256, right.len()) + be_value(right),
    decreases right.len(),
{
    reveal(pow);
    reveal_with_fuel(be_value, 2);
    assert(seq![byte].drop_last() =~= Seq::<u8>::empty());
    if right.len() > 0 {
        let less = right.drop_last();
        bytes_are_digits_of_base_256(left, less, byte);
        assert((left + right).drop_last() =~= left + less);
        assert((left + right).last() == right.last());
        let (l, p, r) = (be_value(left) as int, pow(256, less.len()), be_value(less) as int);
        assert(pow(256, right.len()) == 256 * p);
        assert((l * p + r) * 256 == l * (256 * p) + r * 256) by (nonlinear_arith);
    } else {
        assert(left + right =~= left);
        assert(pow(256, 0) == 1);
    }
}

/// A `string` is read off bytes exactly where one is in front of them, and the
/// bytes are refused as truncated everywhere else.
pub proof fn bytes_without_a_string_are_refused(bytes: Seq<u8>, what: Seq<char>)
    ensures
        has_string(bytes) <==> exists|value: Seq<u8>, rest: Seq<u8>|
            #[trigger] in_front(bytes, value, rest),
        !has_string(bytes) ==> {
            &&& read_string(bytes, what) == Err::<Seq<u8>, Seq<char>>(
                "the "@ + what + " is truncated"@,
            )
            &&& read_text(bytes, what) == Err::<Seq<char>, Seq<char>>(
                "the "@ + what + " is truncated"@,
            )
            &&& read_mpint(bytes, what) == Err::<Seq<u8>, Seq<char>>(
                "the "@ + what + " is truncated"@,
            )
            &&& after_string(bytes) == (if bytes.len() >= 4 {
                bytes.skip(4)
            } else {
                bytes
            })
        },
{
    if has_string(bytes) {
        a_string_that_is_read_was_written(bytes);
        assert(in_front(bytes, string_value(bytes), after_string(bytes)));
    }
    if exists|value: Seq<u8>, rest: Seq<u8>| #[trigger] in_front(bytes, value, rest) {
        let (value, rest) = choose|value: Seq<u8>, rest: Seq<u8>|
            #[trigger] in_front(bytes, value, rest);
        a_string_is_read_as_it_was_written(value, rest, what);
    }
}

/// A `string` that holds no encoded text is refused as none.
pub proof fn bytes_that_are_no_text_are_refused(value: Seq<u8>, rest: Seq<u8>, what: Seq<char>)
    requires
        fits(value),
        forall|text: Seq<char>| #[trigger] encode_utf8(text) != value,
    ensures
        read_text(put(value) + rest, what) == Err::<Seq<char>, Seq<char>>(
            "the "@ + what + " names something not text"@,
        ),
{
    a_string_is_read_as_it_was_written(value, rest, what);
    if valid_utf8(value) {
        decode_utf8_encode_utf8(value);
        assert(encode_utf8(decode_utf8(value)) == value);
    }
}

/// The zeros in front of an integer are what is dropped, and nothing else.
pub proof fn only_zeros_in_front_are_dropped(n: nat, integer: Seq<u8>)
    requires
        integer.len() > 0 ==> integer[0] != 0,
    ensures
        significant(zeros(n) + integer) == integer,
    decreases n,
{
    if n > 0 {
        only_zeros_in_front_are_dropped((n - 1) as nat, integer);
        assert((zeros(n) + integer).drop_first() =~= zeros((n - 1) as nat) + integer);
    } else {
        assert(zeros(n) + integer =~= integer);
    }
}

/// An integer is read off each of its encodings, whatever zeros are in front of
/// it, and refused as negative where the first bit is set.
pub proof fn an_integer_is_read_off_each_encoding(
    n: nat,
    integer: Seq<u8>,
    rest: Seq<u8>,
    what: Seq<char>,
)
    requires
        integer.len() > 0 ==> integer[0] != 0,
        fits(zeros(n) + integer),
    ensures
        read_mpint(put(zeros(n) + integer) + rest, what) == (if n == 0 && integer.len() > 0
            && integer[0] >= 0x80 {
            Err::<Seq<u8>, Seq<char>>("the "@ + what + " holds a negative integer"@)
        } else {
            Ok(integer)
        }),
        after_string(put(zeros(n) + integer) + rest) == rest,
{
    only_zeros_in_front_are_dropped(n, integer);
    a_string_is_read_as_it_was_written(zeros(n) + integer, rest, what);
}

/// Every integer is one without leading zeros, behind some zeros.
pub proof fn an_integer_is_zeros_and_its_significant_bytes(integer: Seq<u8>)
    ensures
        integer == zeros((integer.len() - significant(integer).len()) as nat) + significant(
            integer,
        ),
        significant(integer).len() > 0 ==> significant(integer)[0] != 0,
{
    significant_bytes(integer);
    let n = (integer.len() - significant(integer).len()) as nat;
    assert forall|i: int| 0 <= i < n implies integer[i] == zeros(n)[i] by {
        assert(integer[i] == 0);
    }
    assert(integer =~= zeros(n) + significant(integer));
}

/// Padding puts zeros in front up to the width, and changes nothing else.
pub proof fn padding_is_zeros_in_front(integer: Seq<u8>, width: nat)
    ensures
        integer.len() >= width ==> widened(integer, width) == integer,
        integer.len() < width ==> widened(integer, width) == zeros(
            (width - integer.len()) as nat,
        ) + integer,
{
    if integer.len() < width {
        assert(widened(integer, width) =~= zeros((width - integer.len()) as nat) + integer);
    }
}

} // verus!
