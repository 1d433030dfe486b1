//! Failures of the object store and of the signed material.
use vstd::prelude::*;

verus! {

#[derive(Clone, Debug, PartialEq, Eq)]
pub enum Error {
    /// The object is absent.
    NotFound(String),
    /// A create raced with an object of the same name.
    Conflict(String),
    /// The signed material lacks an expected field.
    MissingResource(String),
    /// The signed material is not valid UTF-8 text.
    InvalidEncoding(String),
    /// Any other failure of the store or the network.
    Transport(String),
}

pub const STATUS_NOT_FOUND: u16 = 404;

pub const STATUS_CONFLICT: u16 = 409;

impl Error {
    /// The error for a store reply with HTTP status `code`.
    pub fn from_status(code: u16, message: String) -> (r: Error)
        ensures
            code == STATUS_NOT_FOUND ==> r == Error::NotFound(message),
            code == STATUS_CONFLICT ==> r == Error::Conflict(message),
            code != STATUS_NOT_FOUND && code != STATUS_CONFLICT ==> r == Error::Transport(message),
    {
        if code == STATUS_NOT_FOUND {
            Error::NotFound(message)
        } else if code == STATUS_CONFLICT {
            Error::Conflict(message)
        } else {
            Error::Transport(message)
        }
    }
}

} // verus!
