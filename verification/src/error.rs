//! What can go wrong while a file is read.

use vstd::prelude::*;

verus! {

/// The ways in which reading a file, or a part of one, fails.
#[derive(Clone, Copy, PartialEq, Eq, Debug, Structural)]
pub enum DecodeError {
    /// The data does not begin with the signature of a calculator file.
    SignatureMismatch,
    /// The length that the header declares is not the length of the variable.
    LengthMismatch,
    /// The stored checksum is not the checksum of the variable.
    ChecksumMismatch,
    /// The comment is not UTF-8 text.
    InvalidCommentEncoding,
    /// The data ends before the region that is being read.
    Truncated,
}

} // verus!
