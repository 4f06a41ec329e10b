//! A cursor over borrowed bytes: what is read off the front is gone.

use vstd::prelude::*;
use vstd::slice::slice_subrange;

verus! {

/// Fewer bytes are left than were asked for.
#[derive(Clone, Copy, Debug, PartialEq, Eq, Structural)]
pub struct Truncated;

/// The bytes not read yet.
#[derive(Clone, Copy, Debug)]
pub struct Cursor<'a> {
    rest: &'a [u8],
}

impl<'a> View for Cursor<'a> {
    type V = Seq<u8>;

    closed spec fn view(&self) -> Seq<u8> {
        self.rest@
    }
}

/// The unsigned integer that `bytes` is in big-endian order.
pub open spec fn be_value(bytes: Seq<u8>) -> nat
    decreases bytes.len(),
{
    if bytes.len() == 0 {
        0
    } else {
        be_value(bytes.drop_last()) * 256 + bytes.last() as nat
    }
}

/// The value of four bytes, written out.
pub proof fn lemma_be_value_4(bytes: Seq<u8>)
    requires
        bytes.len() == 4,
    ensures
        be_value(bytes) == bytes[0] * 0x100_0000 + bytes[1] * 0x1_0000 + bytes[2] * 0x100
            + bytes[3],
{
    reveal_with_fuel(be_value, 5);
}

impl<'a> Cursor<'a> {
    /// A cursor at the first of these bytes.
    pub fn new(bytes: &'a [u8]) -> (cursor: Self)
        ensures
            cursor@ == bytes@,
    {
        Cursor { rest: bytes }
    }

    /// Whether every byte was read.
    pub fn is_empty(&self) -> (empty: bool)
        ensures
            empty == (self@.len() == 0),
    {
        self.rest.len() == 0
    }

    /// The next `n` bytes; none is read where fewer are left.
    pub fn take(&mut self, n: usize) -> (taken: Result<&'a [u8], Truncated>)
        ensures
            match taken {
                Ok(bytes) => {
                    &&& n <= old(self)@.len()
                    &&& bytes@ == old(self)@.take(n as int)
                    &&& final(self)@ == old(self)@.skip(n as int)
                },
                Err(_) => n > old(self)@.len() && final(self)@ == old(self)@,
            },
    {
        if n > self.rest.len() {
            return Err(Truncated);
        }
        let taken = slice_subrange(self.rest, 0, n);
        self.rest = slice_subrange(self.rest, n, self.rest.len());
        assert(taken@ =~= old(self)@.take(n as int));
        assert(self@ =~= old(self)@.skip(n as int));
        Ok(taken)
    }

    /// The next byte.
    pub fn byte(&mut self) -> (byte: Result<u8, Truncated>)
        ensures
            match byte {
                Ok(byte) => {
                    &&& old(self)@.len() > 0
                    &&& byte == old(self)@[0]
                    &&& final(self)@ == old(self)@.skip(1)
                },
                Err(_) => old(self)@.len() == 0 && final(self)@ == old(self)@,
            },
    {
        let bytes = self.take(1)?;
        Ok(bytes[0])
    }

    /// The next four bytes as an unsigned big-endian integer.
    pub fn u32_be(&mut self) -> (value: Result<u32, Truncated>)
        ensures
            match value {
                Ok(value) => {
                    &&& old(self)@.len() >= 4
                    &&& value == be_value(old(self)@.take(4))
                    &&& final(self)@ == old(self)@.skip(4)
                },
                Err(_) => old(self)@.len() < 4 && final(self)@ == old(self)@,
            },
    {
        let bytes = self.take(4)?;
        proof {
            lemma_be_value_4(bytes@);
        }
        Ok(
            bytes[0] as u32 * 0x100_0000 + bytes[1] as u32 * 0x1_0000 + bytes[2] as u32 * 0x100
                + bytes[3] as u32,
        )
    }
}

} // verus!
