//! The operating systems the cache distinguishes, with the wildcard `Any`.

use vstd::prelude::*;

use crate::arch::ToolCacheArch;
use crate::strutil::str_eq;

verus! {

/// An operating system, as the cache names them.  `Any` stands for every
/// platform; unknown identifiers parse to it.
#[derive(Debug, Clone, Copy, PartialEq, Eq, Structural)]
pub enum ToolPlatform {
    /// Windows
    Windows,
    /// Linux
    Linux,
    /// MacOS
    MacOS,
    /// Any other platform, and the wildcard
    Any,
}

/// The platform named by an OS identifier, as `std::env::consts::OS` spells
/// it: unknown identifiers map to the wildcard, never to an error.
pub open spec fn platform_of_string(s: Seq<char>) -> ToolPlatform {
    if s == "windows"@ {
        ToolPlatform::Windows
    } else if s == "linux"@ {
        ToolPlatform::Linux
    } else if s == "macos"@ {
        ToolPlatform::MacOS
    } else {
        ToolPlatform::Any
    }
}

/// The canonical lowercase label of a platform; the wildcard is written
/// `any`.
pub open spec fn platform_label(p: ToolPlatform) -> Seq<char> {
    match p {
        ToolPlatform::Windows => "windows"@,
        ToolPlatform::Linux => "linux"@,
        ToolPlatform::MacOS => "macos"@,
        ToolPlatform::Any => "any"@,
    }
}

/// The architecture a platform is assumed to ship: hosted runners carry X64
/// on Windows and Linux and ARM64 on MacOS by convention; an unknown platform
/// gives the wildcard.  A heuristic default, not a hardware probe.
pub open spec fn platform_default_arch(p: ToolPlatform) -> ToolCacheArch {
    match p {
        ToolPlatform::Windows => ToolCacheArch::X64,
        ToolPlatform::Linux => ToolCacheArch::X64,
        ToolPlatform::MacOS => ToolCacheArch::ARM64,
        ToolPlatform::Any => ToolCacheArch::Any,
    }
}

impl ToolPlatform {
    /// Parse a platform name; unknown names give the wildcard.
    pub fn from(s: &str) -> (r: ToolPlatform)
        ensures
            r == platform_of_string(s@),
    {
        if str_eq(s, "windows") {
            ToolPlatform::Windows
        } else if str_eq(s, "linux") {
            ToolPlatform::Linux
        } else if str_eq(s, "macos") {
            ToolPlatform::MacOS
        } else {
            ToolPlatform::Any
        }
    }

    /// The canonical lowercase label of this platform.
    pub fn to_string(&self) -> (r: String)
        ensures
            r@ == platform_label(*self),
    {
        match self {
            ToolPlatform::Windows => "windows".to_owned(),
            ToolPlatform::Linux => "linux".to_owned(),
            ToolPlatform::MacOS => "macos".to_owned(),
            ToolPlatform::Any => "any".to_owned(),
        }
    }

    /// The architecture this platform is assumed to ship (see
    /// [`platform_default_arch`]).
    pub fn default_arch(&self) -> (r: ToolCacheArch)
        ensures
            r == platform_default_arch(*self),
    {
        match self {
            ToolPlatform::Windows => ToolCacheArch::X64,
            ToolPlatform::Linux => ToolCacheArch::X64,
            ToolPlatform::MacOS => ToolCacheArch::ARM64,
            ToolPlatform::Any => ToolCacheArch::Any,
        }
    }
}

} // verus!
