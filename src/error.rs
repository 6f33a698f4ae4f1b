//! The two ways a search can fail, and how each is told to the user.

use vstd::prelude::*;

verus! {

/// Why a file could not be read.
#[derive(Debug)]
pub enum IoCause {
    /// There is no file under the name.
    NotFound,
    /// Any other failure, with the system's description of it.
    Other(String),
}

#[derive(Debug)]
pub enum GrepError {
    /// program needs more arguments to run correctly
    NotEnoughParams,
    /// the file named could not be read: its name, and why
    IOError(String, IoCause),
}

/// The message that tells the user of `e`.
pub open spec fn message_of(e: GrepError) -> Seq<char> {
    match e {
        GrepError::NotEnoughParams => "usage: minigrep [-i] keywords filename"@,
        GrepError::IOError(filename, IoCause::NotFound) => "File "@ + filename@ + " not found."@,
        GrepError::IOError(_, IoCause::Other(description)) => description@,
    }
}

impl GrepError {
    /// The message that tells the user of this error: the usage line when
    /// arguments are missing, a short note when the file does not exist, and
    /// the system's own description for any other failure to read it.
    pub fn message(&self) -> (r: String)
        ensures
            r@ == message_of(*self),
    {
        match self {
            GrepError::NotEnoughParams => String::from_str("usage: minigrep [-i] keywords filename"),
            GrepError::IOError(filename, IoCause::NotFound) => {
                String::from_str("File ").concat(filename.as_str()).concat(" not found.")
            },
            GrepError::IOError(_, IoCause::Other(description)) => description.clone(),
        }
    }
}

} // verus!
