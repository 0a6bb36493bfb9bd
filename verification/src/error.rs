//! The errors that the library reports.

use vstd::prelude::*;

verus! {

/// The category of an error.
#[derive(PartialEq, Eq, Structural, Clone, Copy, Debug)]
pub enum ErrorKind {
    /// Something that was looked up does not exist.
    NotFound,
    /// An argument does not allow the operation.
    InvalidInput,
    /// Data received is not what was expected.
    InvalidData,
    /// Any other failure.
    Other,
}

/// An error: its category and its message.
#[derive(Debug)]
pub struct MopError {
    pub kind: ErrorKind,
    pub message: String,
}

impl MopError {
    /// An error of the given kind with the given message.
    pub fn new(kind: ErrorKind, message: &str) -> (res: MopError)
        ensures
            res.kind == kind,
            res.message@ == message@,
    {
        MopError { kind, message: String::from_str(message) }
    }

    /// The message of the error.
    pub fn description(&self) -> (res: &str)
        ensures
            res@ == self.message@,
    {
        self.message.as_str()
    }
}

} // verus!
