//! Errors of tokenizing and parsing variable types.

use vstd::prelude::*;

verus! {

/// Why a variable type could not be read.
#[derive(Debug, Clone, Copy, PartialEq, Eq, Structural)]
pub enum Error {
    /// A character that starts no token.
    UnknownChar(char),
    /// The input ended where a token was needed.
    UnexpectedEof,
    /// A token that does not fit, at this byte offset.
    UnexpectedToken(u16),
}

} // verus!
