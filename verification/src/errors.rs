//! The error taxonomy of the cache: lookup misses are ordinary recoverable
//! values, while exhausted downloads and malformed inputs carry a message.

use vstd::prelude::*;

use crate::arch::ToolCacheArch;

verus! {

/// An error of the tool cache.
#[derive(Debug)]
pub enum ToolCacheError {
    /// No cache entry matches a lookup.  Recoverable: callers branch on it to
    /// trigger an install flow.  It names exactly what was asked for.
    ToolNotFound {
        /// Tool name
        name: String,
        /// Tool version
        version: String,
        /// Tool architecture (if specified)
        arch: Option<ToolCacheArch>,
    },
    /// An input was malformed, such as an archive with no recognizable
    /// extension.
    InvalidInput(String),
    /// An underlying filesystem or network primitive failed.
    IoError(String),
    /// The transport failed before any response was seen.
    HttpError(String),
    /// The retry budget of a download was exhausted; carries the URL.
    DownloadError(String),
    /// Any other failure of the cache.
    GenericError(String),
}

/// An error of the actions-side helpers.
#[derive(Debug)]
pub enum ActionsError {
    /// A repository reference could not be parsed.
    RepositoryReferenceError(String),
}

} // verus!
