//! The error taxonomy of the tool.

use vstd::prelude::*;

verus! {

/// What kind of operation failed.
#[derive(PartialEq, Eq, Structural, Clone, Copy, Debug)]
pub enum ErrorKind {
    /// Reading, writing or flushing a stream.
    Io,
    /// Creating, opening, truncating or deleting a file.
    Filesystem,
    /// Listing the rotation directory: it is missing or may not be read.
    DirectoryAccess,
    /// Producing a compressed archive.
    Compression,
    /// A relay has stopped and its channel is closed.
    Channel,
    /// A path that cannot be resolved, or an archive name out of range.
    Path,
    /// A configuration value that cannot be used.
    Config,
}

/// A failure, tagged with its kind and carrying a description of what failed.
#[derive(Debug)]
pub struct RotatorError {
    pub kind: ErrorKind,
    pub msg: String,
}

impl RotatorError {
    /// An error of kind `kind` described by `msg`.
    pub fn new(kind: ErrorKind, msg: &str) -> (r: RotatorError)
        ensures
            r.kind == kind,
            r.msg@ == msg@,
    {
        RotatorError { kind, msg: String::from_str(msg) }
    }

    /// The description of the failure.
    pub fn message(&self) -> (r: String)
        ensures
            r@ == self.msg@,
    {
        self.msg.clone()
    }
}

} // verus!
