//! Error taxonomy of the sync engine.
//!
//! Every failure aborts the sync call that encountered it; nothing here is
//! retried. Paths and object keys are carried as byte strings, the form in
//! which the rest of the crate handles them.

use vstd::prelude::*;

verus! {

/// The storage operation an error arose from, kept for diagnostics.
///
/// `Pre` marks a failure in the preparation of an operation (for example the
/// initial listing request) rather than in the operation itself.
#[derive(Debug)]
pub enum OpSource {
    CreateObject,
    CopyObject,
    ReadObject,
    DownloadUrl,
    ListPrefix,
    Pre(Box<OpSource>),
}

impl OpSource {
    /// Wraps an operation tag as the preparation stage of that operation.
    pub fn pre(op: OpSource) -> (r: Self)
        ensures
            r matches OpSource::Pre(inner) && *inner == op,
    {
        OpSource::Pre(Box::new(op))
    }
}

/// A failure of one sync call.
#[derive(Debug)]
pub enum Error {
    /// The storage collaborator failed; tagged with the object key and the
    /// operation attempted.
    CloudStorage { object: Vec<u8>, op: OpSource },
    /// A local filesystem operation failed at the given path.
    Io { path: Vec<u8> },
    /// Fetching a signed download URL's bytes over HTTP failed.
    Transport,
    /// A listed key did not start with the expected prefix: an
    /// internal-invariant violation, not an expected condition.
    WrongPath { path: Vec<u8> },
    /// The destination path exists with the wrong type and overwriting was
    /// not forced.
    AlreadyExists { path: Vec<u8> },
    /// A listed object's checksum field was not a base64 encoding of at
    /// least four bytes.
    BadChecksum { encoded: Vec<u8> },
}

} // verus!
