//! The refusal every check of this library answers with.

use vstd::prelude::*;

verus! {

/// Why something was refused, in words.
#[derive(Debug)]
pub struct AuthenticateError {
    /// The reason, as it is shown to whoever operates the node.
    pub message: String,
}

impl Clone for AuthenticateError {
    fn clone(&self) -> (copy: Self)
        ensures
            copy == *self,
    {
        AuthenticateError { message: self.message.clone() }
    }
}

impl AuthenticateError {
    /// A refusal for this reason.
    pub fn new(message: String) -> (refusal: Self)
        ensures
            refusal.message == message,
    {
        AuthenticateError { message }
    }
}

/// What came of a check: the value it gave or the reason it refused for.
pub open spec fn outcome<T: View>(result: Result<T, AuthenticateError>) -> Result<T::V, Seq<char>> {
    match result {
        Ok(value) => Ok(value@),
        Err(refusal) => Err(refusal.message@),
    }
}

} // verus!
