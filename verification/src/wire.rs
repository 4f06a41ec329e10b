//! The SSH wire encoding, read: RFC 4251 section 5.
//!
//! A `string` is a four-byte big-endian length and that many bytes; an
//! `mpint` is a string holding a two's-complement big-endian integer, which
//! for the positive integers of a key or a signature means an optional
//! leading zero byte. Key blobs, signature blobs and the data a client signs
//! are all made of these, so one reader over a cursor serves the three.

use vstd::prelude::*;
use vstd::slice::slice_subrange;
use vstd::string::*;
use vstd::utf8::*;

use crate::cursor::{be_value, Cursor};
use crate::error::{outcome, AuthenticateError};

verus! {

/// The length that a `string` at the front of `bytes` announces.
pub open spec fn string_len(bytes: Seq<u8>) -> nat {
    be_value(bytes.take(4))
}

/// `bytes` start with a whole `string`.
pub open spec fn has_string(bytes: Seq<u8>) -> bool {
    bytes.len() >= 4 && bytes.len() >= 4 + string_len(bytes)
}

/// What the `string` at the front of `bytes` holds.
pub open spec fn string_value(bytes: Seq<u8>) -> Seq<u8> {
    bytes.subrange(4, 4 + string_len(bytes) as int)
}

/// What is left of `bytes` once a `string` was asked of them. A length without
/// the bytes it promises is read all the same.
pub open spec fn after_string(bytes: Seq<u8>) -> Seq<u8> {
    if has_string(bytes) {
        bytes.skip(4 + string_len(bytes) as int)
    } else if bytes.len() >= 4 {
        bytes.skip(4)
    } else {
        bytes
    }
}

/// The refusal of bytes that end too early.
pub open spec fn truncated(what: Seq<char>) -> Seq<char> {
    "the "@ + what + " is truncated"@
}

/// The refusal of a `string` that is to be text and is not.
pub open spec fn not_text(what: Seq<char>) -> Seq<char> {
    "the "@ + what + " names something not text"@
}

/// The refusal of an integer below zero.
pub open spec fn negative(what: Seq<char>) -> Seq<char> {
    "the "@ + what + " holds a negative integer"@
}

/// One `string` read off `bytes`, which are called `what` in a refusal.
pub open spec fn read_string(bytes: Seq<u8>, what: Seq<char>) -> Result<Seq<u8>, Seq<char>> {
    if has_string(bytes) {
        Ok(string_value(bytes))
    } else {
        Err(truncated(what))
    }
}

/// One `string` read off `bytes` as text.
pub open spec fn read_text(bytes: Seq<u8>, what: Seq<char>) -> Result<Seq<char>, Seq<char>> {
    match read_string(bytes, what) {
        Err(refusal) => Err(refusal),
        Ok(value) => if valid_utf8(value) {
            Ok(decode_utf8(value))
        } else {
            Err(not_text(what))
        },
    }
}

/// A big-endian integer without its leading zeros.
pub open spec fn significant(integer: Seq<u8>) -> Seq<u8>
    decreases integer.len(),
{
    if integer.len() > 0 && integer[0] == 0 {
        significant(integer.drop_first())
    } else {
        integer
    }
}

/// One positive `mpint` read off `bytes`, without its leading zeros.
pub open spec fn read_mpint(bytes: Seq<u8>, what: Seq<char>) -> Result<Seq<u8>, Seq<char>> {
    match read_string(bytes, what) {
        Err(refusal) => Err(refusal),
        Ok(value) => if value.len() > 0 && value[0] >= 0x80 {
            Err(negative(what))
        } else {
            Ok(significant(value))
        },
    }
}

/// `core::str::from_utf8` takes exactly the well-formed UTF-8 sequences, and
/// gives the text whose encoding the bytes are.
#[verifier::external_body]
fn from_utf8<'a>(bytes: &'a [u8]) -> (text: Option<&'a str>)
    ensures
        text is Some <==> valid_utf8(bytes@),
        text matches Some(text) ==> text@ == decode_utf8(bytes@),
{
    core::str::from_utf8(bytes).ok()
}

/// Reading the SSH wire types off the front of some bytes, calling the bytes
/// `what` in a refusal.
pub trait Ssh<'a>: View<V = Seq<u8>> {
    /// One `string`. Refused where the length or the bytes it promises are
    /// not there.
    fn string(&mut self, what: &str) -> (read: Result<&'a [u8], AuthenticateError>)
        ensures
            final(self)@ == after_string(old(self)@),
            outcome(read) == read_string(old(self)@, what@),
    ;

    /// One `string` that is text, such as an algorithm name. Refused where the
    /// string is not there or is not UTF-8.
    fn text(&mut self, what: &str) -> (read: Result<&'a str, AuthenticateError>)
        ensures
            final(self)@ == after_string(old(self)@),
            outcome(read) == read_text(old(self)@, what@),
    ;

    /// One positive `mpint`, without its leading zeros. Refused where the
    /// string is not there, or the integer is negative.
    fn mpint(&mut self, what: &str) -> (read: Result<&'a [u8], AuthenticateError>)
        ensures
            final(self)@ == after_string(old(self)@),
            outcome(read) == read_mpint(old(self)@, what@),
    ;
}

/// The refusal of the bytes called `what`, with what is wrong with them.
fn refused(what: &str, how: &str) -> (refusal: AuthenticateError)
    ensures
        refusal.message@ == "the "@ + what@ + how@,
{
    AuthenticateError::new(String::from_str("the ").concat(what).concat(how))
}

impl<'a> Ssh<'a> for Cursor<'a> {
    fn string(&mut self, what: &str) -> (read: Result<&'a [u8], AuthenticateError>) {
        let length = match self.u32_be() {
            Ok(length) => length,
            Err(_) => {
                return Err(refused(what, " is truncated"));
            },
        };
        match self.take(length as usize) {
            Ok(value) => {
                assert(value@ =~= string_value(old(self)@));
                assert(self@ =~= after_string(old(self)@));
                Ok(value)
            },
            Err(_) => Err(refused(what, " is truncated")),
        }
    }

    fn text(&mut self, what: &str) -> (read: Result<&'a str, AuthenticateError>) {
        let value = self.string(what)?;
        match from_utf8(value) {
            Some(text) => Ok(text),
            None => Err(refused(what, " names something not text")),
        }
    }

    fn mpint(&mut self, what: &str) -> (read: Result<&'a [u8], AuthenticateError>) {
        let value = self.string(what)?;
        if value.len() > 0 && value[0] >= 0x80 {
            return Err(refused(what, " holds a negative integer"));
        }
        Ok(without_zeros(value))
    }
}

/// A big-endian integer without its leading zeros.
pub fn without_zeros(integer: &[u8]) -> (rest: &[u8])
    ensures
        rest@ == significant(integer@),
{
    let mut zeros: usize = 0;
    assert(integer@.skip(0) =~= integer@);
    while zeros < integer.len() && integer[zeros] == 0
        invariant
            zeros <= integer.len(),
            significant(integer@) == significant(integer@.skip(zeros as int)),
        decreases integer.len() - zeros,
    {
        assert(integer@.skip(zeros as int).drop_first() =~= integer@.skip(zeros + 1));
        zeros += 1;
    }
    assert(integer@.subrange(zeros as int, integer@.len() as int) =~= integer@.skip(zeros as int));
    slice_subrange(integer, zeros, integer.len())
}

/// `integer` behind as many zeros as make it `width` bytes.
pub open spec fn widened(integer: Seq<u8>, width: nat) -> Seq<u8> {
    if integer.len() >= width {
        integer
    } else {
        Seq::new((width - integer.len()) as nat, |i: int| 0u8) + integer
    }
}

/// Left-pad a big-endian integer to at least `width` bytes.
pub fn widen(integer: &[u8], width: usize) -> (wide: Vec<u8>)
    ensures
        wide@ == widened(integer@, width as nat),
{
    let mut wide: Vec<u8> = Vec::new();
    let zeros: usize = if integer.len() >= width {
        0
    } else {
        width - integer.len()
    };
    while wide.len() < zeros
        invariant
            wide@.len() <= zeros,
            forall|i: int| 0 <= i < wide@.len() ==> wide@[i] == 0,
        decreases zeros - wide@.len(),
    {
        wide.push(0);
    }
    wide.extend_from_slice(integer);
    assert(wide@ =~= widened(integer@, width as nat));
    wide
}

/// Left-pad a big-endian integer to `WIDTH` bytes.
///
/// `None` where it is wider than that.
#[must_use]
pub fn padded<const WIDTH: usize>(integer: &[u8]) -> (fixed: Option<[u8; WIDTH]>)
    ensures
        match fixed {
            Some(fixed) => integer@.len() <= WIDTH && fixed@ == widened(integer@, WIDTH as nat),
            None => integer@.len() > WIDTH,
        },
{
    let mut fixed = [0u8;WIDTH];
    if integer.len() > WIDTH {
        return None;
    }
    let start: usize = WIDTH - integer.len();
    let mut i: usize = 0;
    while i < integer.len()
        invariant
            i <= integer.len() <= WIDTH,
            start == WIDTH - integer.len(),
            forall|j: int| 0 <= j < start ==> fixed@[j] == 0,
            forall|j: int| 0 <= j < i ==> fixed@[start + j] == integer@[j],
        decreases integer.len() - i,
    {
        fixed[start + i] = integer[i];
        i += 1;
    }
    assert(fixed@ =~= widened(integer@, WIDTH as nat));
    Some(fixed)
}

} // verus!
