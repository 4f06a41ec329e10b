//! The ways a peer may be authenticated, by name.

use vstd::prelude::*;
use vstd::string::*;

verus! {

/// A way to authenticate.
#[derive(Debug)]
pub struct Mechanism {
    name: String,
}

impl View for Mechanism {
    type V = Seq<char>;

    closed spec fn view(&self) -> Seq<char> {
        self.name@
    }
}

impl Clone for Mechanism {
    fn clone(&self) -> (copy: Self)
        ensures
            copy == *self,
    {
        Mechanism { name: self.name.clone() }
    }
}

impl Mechanism {
    /// The mechanism of this name.
    pub fn named(name: &str) -> (mechanism: Self)
        ensures
            mechanism@ == name@,
    {
        Mechanism { name: name.to_owned() }
    }

    /// The mechanism's name.
    #[must_use]
    pub fn name(&self) -> (name: &str)
        ensures
            name@ == self@,
    {
        self.name.as_str()
    }
}

/// A signature by an SSH key.
#[must_use]
pub fn ssh_key() -> (mechanism: Mechanism)
    ensures
        mechanism@ == "ssh-key"@,
{
    Mechanism::named("ssh-key")
}

/// A client certificate.
#[must_use]
pub fn certificate() -> (mechanism: Mechanism)
    ensures
        mechanism@ == "certificate"@,
{
    Mechanism::named("certificate")
}

} // verus!
