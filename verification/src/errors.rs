//! Error classification for the filesystem operations.
//!
//! Every failure of the staging core is one of these kinds, always paired
//! with the path that triggered it, so that callers can report precisely
//! which file was at fault.

use vstd::prelude::*;

verus! {

/// The distinct ways a staging operation can fail.
#[derive(Clone, Copy, PartialEq, Eq, Structural, Debug)]
pub enum FsErrorKind {
    /// A required path does not exist.
    NotFound,
    /// A path exists but is not the expected kind of node
    /// (expected a regular file or a directory).
    WrongType,
    /// The destination already exists where create-only semantics apply.
    AlreadyExists,
    /// An underlying read/write/link/mkdir syscall failed.
    IOFailure,
    /// File content is not valid text.
    DecodeFailure,
}

/// A failure, annotated with the path that caused it.
#[derive(Debug)]
pub struct FsError {
    pub kind: FsErrorKind,
    pub path: String,
}

impl FsError {
    /// Builds an error of the given kind for the given path.
    pub fn new(kind: FsErrorKind, path: &str) -> (e: FsError)
        ensures
            e.kind == kind,
            e.path@ == path@,
    {
        FsError { kind, path: String::from_str(path) }
    }
}

} // verus!
