//! Outcome classification for decode failures.

use vstd::prelude::*;

verus! {

/// Why a decode step could not produce a value.
///
/// `Incomplete` means fewer bytes were available than the current decode
/// step requires; the caller may supply more bytes and retry the identical
/// call from the same start position.  `Malformed` means bytes were present
/// but violate the format; the record (and, for an unrecognized event code,
/// the remainder of the stream) is unrecoverable.
#[derive(Debug, Clone, Copy, PartialEq, Eq, Structural)]
pub enum ParseError {
    /// More input is needed before this record can be decoded.
    Incomplete,
    /// The bytes present violate the format; no retry can succeed.
    Malformed,
}

} // verus!
