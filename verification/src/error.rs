//! What can go wrong before a program runs.

use crate::lexer;
use vstd::prelude::*;

verus! {

/// `std::io::Error`, the error of reading a file or the terminal. The
/// library only carries such a value from where it arose to where it is
/// reported: nothing is said of what is inside.
#[verifier::external_type_specification]
#[verifier::external_body]
pub struct ExIoError(std::io::Error);

#[derive(Debug)]
pub enum Error {
    /// The source could not be read.
    Io(std::io::Error),
    /// The program was started with too many arguments.
    Usage,
    /// The source could not be lexed.
    Lexer(lexer::Error),
}

impl From<std::io::Error> for Error {
    fn from(io_error: std::io::Error) -> (error: Self) {
        Error::Io(io_error)
    }
}

impl vstd::std_specs::convert::FromSpecImpl<std::io::Error> for Error {
    open spec fn obeys_from_spec() -> bool {
        true
    }

    open spec fn from_spec(io_error: std::io::Error) -> Self {
        Error::Io(io_error)
    }
}

impl From<lexer::Error> for Error {
    fn from(lexer_error: lexer::Error) -> (error: Self) {
        Error::Lexer(lexer_error)
    }
}

impl vstd::std_specs::convert::FromSpecImpl<lexer::Error> for Error {
    open spec fn obeys_from_spec() -> bool {
        true
    }

    open spec fn from_spec(lexer_error: lexer::Error) -> Self {
        Error::Lexer(lexer_error)
    }
}

} // verus!
