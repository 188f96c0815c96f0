//! Error kinds surfaced by the builder and the result decoder.

use vstd::prelude::*;

verus! {

/// Everything that can go wrong while configuring the window or decoding
/// the child process's answer.
#[derive(Debug)]
pub enum Error {
    /// The child process could not be started, or a pipe failed.  Raised
    /// only by the unverified process shell, never by the decoder.
    IoError,
    /// The child's output did not parse as a signed integer when an index
    /// was requested.
    ParseIntError,
    /// The user cancelled the selection (the child exited non-zero).
    Interrupted,
    /// The user chose a blank line (successful exit, empty output).
    Blank,
    /// The requested width is out of range; returned only by width
    /// configuration, which leaves the builder unchanged.
    InvalidWidth(&'static str),
    /// A parsed index falls outside the valid candidate range.
    NotFound,
}

} // verus!
