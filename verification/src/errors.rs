//! Error taxonomy of the service.
//!
//! Indexing failures are per-file and non-fatal to a batch; query failures
//! travel back to the originating caller on the normal response path.

use vstd::prelude::*;

verus! {

/// Why a file could not be turned into an indexed document.
#[derive(Clone, Copy, Debug, PartialEq, Eq, Structural)]
pub enum IndexingError {
    /// The file does not exist.
    NotFound,
    /// The file exists but reading it failed.
    ReadFailure,
    /// The file was read but its content is not in the expected encoding.
    DecodeFailure,
    /// No registered indexer supports the file's extension.
    UnsupportedExtension,
}

/// Why a query did not produce a result list.
#[derive(Clone, Copy, Debug, PartialEq, Eq, Structural)]
pub enum QueryError {
    /// The query text is empty and cannot be executed.
    MalformedQuery,
    /// The engine has stopped or the channel to it is closed.
    EngineUnavailable,
    /// No response arrived within the configured duration.
    Timeout,
    /// The request was still unanswered when the engine shut down.
    ServiceStopping,
}

} // verus!
