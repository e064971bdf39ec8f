//! A local, versioned, architecture-aware cache of installed tools, addressed
//! by filesystem convention: every entry lives under
//! `<root>/<name>/<version>/<arch>/`.
//!
//! The crate verifies the logic of the cache: the path scheme and its wildcard
//! expansion, the decomposition of matched directories into [`Tool`] values,
//! the lookup rules of [`ToolCache`], the archive-format dispatch, and the
//! decision rules of the bounded-retry downloader.  The filesystem scan itself
//! goes through the `glob` crate behind a small trusted boundary.

pub mod actions;
pub mod arch;
pub mod archives;
pub mod builder;
pub mod cache;
pub mod downloads;
pub mod errors;
pub mod platform;
pub mod reporef;
mod strutil;
pub mod tool;

pub use actions::Cache;
pub use arch::ToolCacheArch;
pub use archives::ArchiveFormat;
pub use builder::ToolCacheBuilder;
pub use cache::ToolCache;
pub use errors::{ActionsError, ToolCacheError};
pub use platform::ToolPlatform;
pub use reporef::RepositoryReference;
pub use tool::Tool;
