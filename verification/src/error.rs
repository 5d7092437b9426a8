//! Application error type: every failure is a message shown to the user.

use vstd::prelude::*;

verus! {

/// A user-facing error message.
#[derive(Debug)]
pub struct Error(pub String);

impl Error {
    /// The message shown to the user.
    pub open spec fn spec_message(&self) -> Seq<char> {
        self.0@
    }

    /// Builds an error from an owned message.
    pub fn new(message: String) -> (e: Error)
        ensures
            e.spec_message() == message@,
    {
        Error(message)
    }

    /// The message shown to the user.
    pub fn message(&self) -> (m: &str)
        ensures
            m@ == self.spec_message(),
    {
        self.0.as_str()
    }
}

impl From<String> for Error {
    fn from(message: String) -> (e: Error) {
        Error(message)
    }
}

impl vstd::std_specs::convert::FromSpecImpl<String> for Error {
    open spec fn obeys_from_spec() -> bool {
        true
    }

    open spec fn from_spec(message: String) -> Error {
        Error(message)
    }
}

} // verus!
