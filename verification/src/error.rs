//! The library's error type.
use vstd::prelude::*;

verus! {

/// Errors reported by the library, each with its message.
#[derive(Debug, Clone, PartialEq, Eq)]
pub enum Error {
    Channel(String),
    Config(String),
    Agent(String),
    Security(String),
}

impl Error {
    /// The message carried by the error.
    pub open spec fn spec_message(&self) -> Seq<char> {
        match self {
            Error::Channel(m) => m@,
            Error::Config(m) => m@,
            Error::Agent(m) => m@,
            Error::Security(m) => m@,
        }
    }

    /// The message carried by the error.
    pub fn message(&self) -> (r: String)
        ensures
            r@ == self.spec_message(),
    {
        match self {
            Error::Channel(m) => m.clone(),
            Error::Config(m) => m.clone(),
            Error::Agent(m) => m.clone(),
            Error::Security(m) => m.clone(),
        }
    }
}

} // verus!
