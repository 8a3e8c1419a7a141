//! The closed failure taxonomy of the library.
//!
//! Every fallible operation returns exactly one of these four kinds, each
//! carrying the underlying message (or, for [`RazeError::NotFound`], the
//! offending path) as a plain string.  No error is retried or recovered
//! internally; the first failure aborts the call that met it.

use vstd::prelude::*;
use vstd::string::StringExecFns;

verus! {

/// One failure of a pack or unpack call.
#[derive(Debug)]
pub enum RazeError {
    /// A lower-level filesystem or stream operation failed; carries the
    /// originating message.
    Io(String),
    /// The source path (pack) or archive path (unpack) does not exist at call
    /// time; carries that path.
    NotFound(String),
    /// The compression encoder failed, or the archive writer could not be
    /// finished, while packing.
    CompressionError(String),
    /// The decompressor could not be initialised, or the compressed stream is
    /// malformed or truncated, while unpacking.
    DecompressionError(String),
}

/// Holds when `e` reports that the path `path` was not found.
pub open spec fn is_not_found_for(e: RazeError, path: Seq<char>) -> bool {
    e matches RazeError::NotFound(p) && p@ == path
}

impl RazeError {
    /// A human-readable description of the failure, in place of `Display`.
    pub fn message(&self) -> (m: String)
        ensures
            self matches RazeError::Io(s) ==> m@ == "I/O error occurred: "@ + s@,
            self matches RazeError::NotFound(s) ==> m@ == "The specified path was not found: "@
                + s@,
            self matches RazeError::CompressionError(s) ==> m@ == "Compression error: "@ + s@,
            self matches RazeError::DecompressionError(s) ==> m@ == "Decompression error: "@
                + s@,
    {
        match self {
            RazeError::Io(s) => String::from_str("I/O error occurred: ").concat(s.as_str()),
            RazeError::NotFound(s) => String::from_str("The specified path was not found: ")
                .concat(s.as_str()),
            RazeError::CompressionError(s) => String::from_str("Compression error: ").concat(
                s.as_str(),
            ),
            RazeError::DecompressionError(s) => String::from_str("Decompression error: ").concat(
                s.as_str(),
            ),
        }
    }
}

} // verus!
