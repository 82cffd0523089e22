//! The library's error value.
use vstd::prelude::*;

verus! {

/// An error carried as a message.
#[derive(Clone, Debug, PartialEq, Eq, Hash)]
pub struct Error {
    pub message: String,
}

impl Error {
    /// An error that reads `message`.
    pub fn new(message: &str) -> (r: Error)
        ensures
            r.message@ == message@,
    {
        Error { message: String::from_str(message) }
    }
}

} // verus!
