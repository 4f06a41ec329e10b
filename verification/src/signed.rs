//! What an SSH client signs to authenticate: RFC 4252 section 7.

use vstd::prelude::*;

use crate::cursor::Cursor;
use crate::text::same;
use crate::wire::{after_string, has_string, read_text, string_value, Ssh};

verus! {

/// `SSH_MSG_USERAUTH_REQUEST`, RFC 4252 section 6.
pub const USERAUTH_REQUEST: u8 = 50;

/// What RFC 4252 signed data says about itself.
#[derive(Clone, Copy, Debug)]
pub struct Signed<'a> {
    /// The user to be logged in.
    pub user: &'a str,
    /// The key blob of the key that signed.
    pub blob: &'a [u8],
}

/// What a [`Signed`] says.
#[verifier::ext_equal]
pub struct SignedView {
    pub user: Seq<char>,
    pub blob: Seq<u8>,
}

impl<'a> View for Signed<'a> {
    type V = SignedView;

    open spec fn view(&self) -> SignedView {
        SignedView { user: self.user@, blob: self.blob@ }
    }
}

/// `bytes` start with this byte.
pub open spec fn starts_with(bytes: Seq<u8>, byte: u8) -> bool {
    bytes.len() > 0 && bytes[0] == byte
}

/// The signed data read as RFC 4252 section 7: the session identifier, the
/// request's number, the user name, the service, `publickey`, a one, the
/// algorithm and the key blob, and nothing behind it. `None` where the bytes
/// are not of that shape.
pub open spec fn read_signed(data: Seq<u8>) -> Option<SignedView> {
    let from_number = after_string(data);
    let from_user = from_number.skip(1);
    let from_service = after_string(from_user);
    let from_method = after_string(from_service);
    let from_one = after_string(from_method);
    let from_algorithm = from_one.skip(1);
    let from_blob = after_string(from_algorithm);
    let user = read_text(from_user, "signed data"@);
    if {
        &&& has_string(data)
        &&& starts_with(from_number, USERAUTH_REQUEST)
        &&& user is Ok
        &&& has_string(from_service)
        &&& read_text(from_method, "signed data"@) == Ok::<Seq<char>, Seq<char>>("publickey"@)
        &&& starts_with(from_one, 1)
        &&& has_string(from_algorithm)
        &&& has_string(from_blob)
        &&& after_string(from_blob).len() == 0
    } {
        Some(SignedView { user: user->Ok_0, blob: string_value(from_blob) })
    } else {
        None
    }
}

impl<'a> Signed<'a> {
    /// The signed data read as RFC 4252 section 7, or `None` where the bytes
    /// are not of that shape and are an opaque challenge.
    pub fn read(data: &'a [u8]) -> (signed: Option<Self>)
        ensures
            match signed {
                Some(signed) => read_signed(data@) == Some(signed@),
                None => read_signed(data@) is None,
            },
    {
        let mut reader = Cursor::new(data);
        reader.string("signed data").ok()?;
        if reader.byte().ok()? != USERAUTH_REQUEST {
            return None;
        }
        let user = reader.text("signed data").ok()?;
        reader.string("signed data").ok()?;
        let method = reader.text("signed data").ok()?;
        if !same(method, "publickey") || reader.byte().ok()? != 1 {
            return None;
        }
        reader.string("signed data").ok()?;
        let blob = reader.string("signed data").ok()?;
        if !reader.is_empty() {
            return None;
        }
        Some(Signed { user, blob })
    }
}

} // verus!
