//! Archive-format dispatch.
//!
//! Which unpack routine a downloaded file calls for is decided purely by its
//! file extension: `.zip` unpacks as a zip archive, `.gz` and `.tgz`
//! gzip-decompress and then untar, `.tar` untars directly, and anything else
//! is invalid input — never a silent no-op.  The unpacking itself is
//! filesystem work and lives outside the library; this module owns the
//! decision.

use vstd::prelude::*;
use vstd::string::StrSliceExecFns;

use crate::errors::ToolCacheError;
use crate::strutil::{last_index_of, rfind_char, seq_views, str_eq};
use crate::tool::{path_segments, split_segments};

verus! {

/// The archive formats the extractor understands.
#[derive(Debug, Clone, Copy, PartialEq, Eq, Structural)]
pub enum ArchiveFormat {
    /// A zip archive.
    Zip,
    /// A gzip-compressed tarball (`.gz` or `.tgz`).
    TarGz,
    /// A plain tarball (`.tar`).
    Tar,
}

/// The extension a path dispatches on: in its last non-empty segment, what
/// follows the last `.`, unless that `.` leads the segment or is absent.
pub open spec fn extension_of(p: Seq<char>) -> Option<Seq<char>> {
    let segs = path_segments(p);
    if segs.len() == 0 {
        None
    } else {
        let file = segs[segs.len() - 1];
        match last_index_of(file, '.') {
            Some(i) => if i > 0 {
                Some(file.subrange(i + 1, file.len() as int))
            } else {
                None
            },
            None => None,
        }
    }
}

/// The format an extension names, if any.
pub open spec fn format_of_extension(e: Seq<char>) -> Option<ArchiveFormat> {
    if e == "zip"@ {
        Some(ArchiveFormat::Zip)
    } else if e == "gz"@ || e == "tgz"@ {
        Some(ArchiveFormat::TarGz)
    } else if e == "tar"@ {
        Some(ArchiveFormat::Tar)
    } else {
        None
    }
}

/// The format an archive path dispatches to, if any.
pub open spec fn dispatched_format(p: Seq<char>) -> Option<ArchiveFormat> {
    match extension_of(p) {
        Some(e) => format_of_extension(e),
        None => None,
    }
}

/// Decide the unpack routine for an archive path, by extension alone.  A
/// missing or unrecognized extension is invalid input.
pub fn archive_format(archive: &str) -> (r: Result<ArchiveFormat, ToolCacheError>)
    ensures
        match dispatched_format(archive@) {
            Some(f) => r matches Ok(g) && g == f,
            None => (r matches Err(e) && e matches ToolCacheError::InvalidInput(m) && m@
                == "Unknown archive format"@),
        },
{
    let segs = split_segments(archive);
    let k = segs.len();
    if k == 0 {
        return Err(ToolCacheError::InvalidInput("Unknown archive format".to_owned()));
    }
    let file = segs[k - 1].as_str();
    let n = file.unicode_len();
    proof {
        assert(file@ == seq_views(segs@)[k - 1]);
    }
    match rfind_char(file, '.') {
        Some(i) => {
            if i == 0 {
                return Err(ToolCacheError::InvalidInput("Unknown archive format".to_owned()));
            }
            let ext = file.substring_char(i + 1, n);
            if str_eq(ext, "zip") {
                Ok(ArchiveFormat::Zip)
            } else if str_eq(ext, "gz") || str_eq(ext, "tgz") {
                Ok(ArchiveFormat::TarGz)
            } else if str_eq(ext, "tar") {
                Ok(ArchiveFormat::Tar)
            } else {
                Err(ToolCacheError::InvalidInput("Unknown archive format".to_owned()))
            }
        },
        None => Err(ToolCacheError::InvalidInput("Unknown archive format".to_owned())),
    }
}

} // verus!
