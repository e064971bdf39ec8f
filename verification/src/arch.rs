//! The CPU architectures the cache distinguishes, with the wildcard `Any`.

use vstd::prelude::*;

use crate::strutil::{lower_seq, lower_str, str_eq};

verus! {

/// A CPU architecture of a cache entry.  `Any` is the wildcard: it stands for
/// every architecture in lookups, and unknown identifiers parse to it.
#[derive(Debug, Clone, Copy, PartialEq, Eq, Structural)]
pub enum ToolCacheArch {
    /// amd64 / x86_64
    X64,
    /// aarch64
    ARM64,
    /// Any other architecture, and the lookup wildcard
    Any,
}

/// The path-segment token of an architecture: the canonical directory name for
/// the concrete ones, and the match-any-depth glob token for the wildcard.
pub open spec fn arch_token(a: ToolCacheArch) -> Seq<char> {
    match a {
        ToolCacheArch::X64 => seq!['x', '6', '4'],
        ToolCacheArch::ARM64 => seq!['a', 'r', 'm', '6', '4'],
        ToolCacheArch::Any => seq!['*', '*'],
    }
}

/// The architecture named by a string: `x64` and `arm64` up to ASCII case,
/// anything else the wildcard.
pub open spec fn arch_of_string(s: Seq<char>) -> ToolCacheArch {
    if lower_seq(s) == seq!['x', '6', '4'] {
        ToolCacheArch::X64
    } else if lower_seq(s) == seq!['a', 'r', 'm', '6', '4'] {
        ToolCacheArch::ARM64
    } else {
        ToolCacheArch::Any
    }
}

/// The architecture of the host CPU identifier, as `std::env::consts::ARCH`
/// spells it: unknown identifiers map to the wildcard, never to an error.
pub open spec fn arch_of_cpu(s: Seq<char>) -> ToolCacheArch {
    if s == "x86_64"@ || s == "amd64"@ {
        ToolCacheArch::X64
    } else if s == "aarch64"@ {
        ToolCacheArch::ARM64
    } else {
        ToolCacheArch::Any
    }
}

impl ToolCacheArch {
    /// Parse an architecture name, case-insensitively; unknown names give the
    /// wildcard.
    pub fn from(s: &str) -> (r: ToolCacheArch)
        ensures
            r == arch_of_string(s@),
    {
        let lowered = lower_str(s);
        if str_eq(lowered.as_str(), "x64") {
            proof {
                reveal_strlit("x64");
                assert("x64"@ =~= seq!['x', '6', '4']);
            }
            ToolCacheArch::X64
        } else if str_eq(lowered.as_str(), "arm64") {
            proof {
                reveal_strlit("x64");
                reveal_strlit("arm64");
                assert("x64"@ =~= seq!['x', '6', '4']);
                assert("arm64"@ =~= seq!['a', 'r', 'm', '6', '4']);
            }
            ToolCacheArch::ARM64
        } else {
            proof {
                reveal_strlit("x64");
                reveal_strlit("arm64");
                assert("x64"@ =~= seq!['x', '6', '4']);
                assert("arm64"@ =~= seq!['a', 'r', 'm', '6', '4']);
            }
            ToolCacheArch::Any
        }
    }

    /// Map a host CPU identifier to an architecture; unknown identifiers give
    /// the wildcard.
    pub fn from_cpu(s: &str) -> (r: ToolCacheArch)
        ensures
            r == arch_of_cpu(s@),
    {
        if str_eq(s, "x86_64") || str_eq(s, "amd64") {
            ToolCacheArch::X64
        } else if str_eq(s, "aarch64") {
            ToolCacheArch::ARM64
        } else {
            ToolCacheArch::Any
        }
    }

    /// The path-segment token of this architecture.
    pub fn to_string(&self) -> (r: String)
        ensures
            r@ == arch_token(*self),
    {
        match self {
            ToolCacheArch::X64 => {
                proof {
                    reveal_strlit("x64");
                    assert("x64"@ =~= seq!['x', '6', '4']);
                }
                "x64".to_owned()
            },
            ToolCacheArch::ARM64 => {
                proof {
                    reveal_strlit("arm64");
                    assert("arm64"@ =~= seq!['a', 'r', 'm', '6', '4']);
                }
                "arm64".to_owned()
            },
            ToolCacheArch::Any => {
                proof {
                    reveal_strlit("**");
                    assert("**"@ =~= seq!['*', '*']);
                }
                "**".to_owned()
            },
        }
    }
}

} // verus!
