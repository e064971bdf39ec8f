//! The cache store: it owns the cache root, the resolved platform and
//! architecture and the retry budget, and performs lookups over the
//! filesystem convention `<root>/<name>/<version>/<arch>/`.
//!
//! The filesystem scan goes through the `glob` crate behind a trusted
//! boundary; everything the scan results are put through — decomposition,
//! name filtering, selection — is verified.

use vstd::prelude::*;
use vstd::string::StrSliceExecFns;

use crate::arch::ToolCacheArch;
use crate::builder::ToolCacheBuilder;
use crate::errors::ToolCacheError;
use crate::platform::{platform_default_arch, ToolPlatform};
use crate::strutil::{opt_view, seq_views};
use crate::tool::{
    install_path_view, lemma_first_tool_named_name, lemma_tools_of_paths_decompose,
    lemma_tools_of_paths_wf, tool_glob_view, tool_of_path, tool_views, Tool,
};

verus! {

/// Number of times a download is attempted by default.
pub const RETRY_COUNT: u8 = 10;

/// Declares `glob::PatternError`, the scanner's rejection of a malformed
/// pattern, so that the scan boundary can hand it through; it is mapped to a
/// library error right away.
#[verifier::external_type_specification]
#[verifier::external_body]
pub struct ExPatternError(glob::PatternError);

/// Whether the scanner accepts a glob pattern.  `glob::glob_with` validates
/// the pattern before it touches the filesystem, so acceptance is a function
/// of the pattern text alone.
pub uninterp spec fn glob_pattern_ok(pattern: Seq<char>) -> bool;

/// Relies on `glob::glob_with`: it walks the filesystem and yields the paths
/// matching the pattern, case-insensitively, with `*` never crossing a `/`.
/// It rejects a pattern, before any I/O, on the pattern text alone; of an
/// accepted pattern, what is on disk decides the matches, so nothing is
/// assumed of them; entries the walk cannot read are skipped, as the scan is
/// best effort.
#[verifier::external_body]
fn glob_paths(pattern: &str) -> (r: Result<Vec<String>, glob::PatternError>)
    ensures
        r matches Ok(_) ==> glob_pattern_ok(pattern@),
        r matches Err(_) ==> !glob_pattern_ok(pattern@),
{
    let options = glob::MatchOptions {
        case_sensitive: false,
        require_literal_separator: true,
        require_literal_leading_dot: false,
    };
    match glob::glob_with(pattern, options) {
        Ok(paths) => Ok(
            paths
                .filter_map(|entry| entry.ok())
                .map(|p| p.to_string_lossy().into_owned())
                .collect(),
        ),
        Err(e) => Err(e),
    }
}

/// Relies on `std::path::Path::is_dir`: whether the path names an existing
/// directory.  What is on disk decides the result, so nothing is assumed of
/// it.
#[verifier::external_body]
fn is_existing_dir(path: &String) -> bool {
    std::path::Path::new(path.as_str()).is_dir()
}

/// The mathematical value of a [`ToolCache`]: its configuration.
#[verifier::ext_equal]
pub struct ToolCacheView {
    /// The cache root directory.
    pub tool_cache: Seq<char>,
    /// The resolved architecture.
    pub arch: ToolCacheArch,
    /// The resolved platform.
    pub platform: ToolPlatform,
    /// The download retry budget.
    pub retry_count: u8,
}

/// The tool cache: the root directory under which every tool lives, the
/// platform and architecture resolved for this store, and the download retry
/// budget.  Immutable but for the retry budget; safe to share read-only.
#[derive(Debug, Clone)]
pub struct ToolCache {
    /// Tool Cache Path
    tool_cache: String,
    /// Platform Architecture
    arch: ToolCacheArch,
    /// Platform (OS)
    platform: ToolPlatform,
    /// Number of times to retry a download
    retry_count: u8,
}

impl View for ToolCache {
    type V = ToolCacheView;

    closed spec fn view(&self) -> ToolCacheView {
        ToolCacheView {
            tool_cache: self.tool_cache@,
            arch: self.arch,
            platform: self.platform,
            retry_count: self.retry_count,
        }
    }
}

impl ToolCache {
    /// A store over the given root, platform and architecture, with the
    /// default retry budget.  The caller resolves the root (environment
    /// override first, then the well-known directories) and has made sure it
    /// exists; the store itself never probes the host.
    pub fn new(tool_cache: String, arch: ToolCacheArch, platform: ToolPlatform) -> (r: ToolCache)
        ensures
            r@ == (ToolCacheView { tool_cache: tool_cache@, arch, platform, retry_count: RETRY_COUNT }),
    {
        ToolCache { tool_cache, arch, platform, retry_count: RETRY_COUNT }
    }

    /// Create a new [`ToolCacheBuilder`].
    pub fn build() -> (r: ToolCacheBuilder)
        ensures
            r@.tool_cache is None,
            r@.arch is None,
            r@.platform is None,
            r@.retry_count is None,
    {
        ToolCacheBuilder::new()
    }

    /// Get the platform of the store.
    pub fn platform(&self) -> (r: ToolPlatform)
        ensures
            r == self@.platform,
    {
        self.platform
    }

    /// Get the architecture of the store.
    pub fn arch(&self) -> (r: ToolCacheArch)
        ensures
            r == self@.arch,
    {
        self.arch
    }

    /// Get the cache root directory.
    pub fn get_tool_cache(&self) -> (r: &String)
        ensures
            r@ == self@.tool_cache,
    {
        &self.tool_cache
    }

    /// Get the download retry budget.
    pub fn retry_count(&self) -> (r: u8)
        ensures
            r == self@.retry_count,
    {
        self.retry_count
    }

    /// Set the number of times to retry a download.  The builder is the
    /// preferred way to configure this.
    pub fn set_retry_count(&mut self, count: u8)
        ensures
            final(self)@ == (ToolCacheView { retry_count: count, ..old(self)@ }),
    {
        self.retry_count = count;
    }

    /// Find a tool in the cache, resolving the architecture from the
    /// platform by convention: X64 on Windows and Linux, ARM64 on MacOS, the
    /// wildcard elsewhere.
    ///
    /// What comes back depends on the directories on disk: a returned tool
    /// carries the requested name and decomposes from the path it carries; a
    /// miss names exactly what was asked for; the generic error arises only
    /// where the scanner rejects the pattern.
    pub fn find(&self, tool: &str, version: &str) -> (r: Result<Tool, ToolCacheError>)
        ensures
            r matches Ok(t) ==> t@.name == tool@ && tool_of_path(t@.path) == Some(t@),
            r matches Err(e) ==> ((e matches ToolCacheError::ToolNotFound {
                name: n,
                version: v,
                arch: a,
            } && n@ == tool@ && v@ == version@ && a == Some(
                platform_default_arch(self@.platform),
            )) || (e matches ToolCacheError::GenericError(m) && m@
                == "Failed to read tool cache"@ && !glob_pattern_ok(
                tool_glob_view(
                    self@.tool_cache,
                    tool@,
                    version@,
                    platform_default_arch(self@.platform),
                ),
            ))),
    {
        let p = self.platform();
        let arch = p.default_arch();
        self.find_with_arch(tool, version, arch)
    }

    /// Find a tool in the cache with a specific architecture.
    ///
    /// The glob pattern is built by [`Tool::tool_path`]; the matches that are
    /// existing directories are decomposed and the first one whose name is
    /// the requested one is returned, so a broad wildcard can never hand back
    /// a sibling tool.  A returned tool decomposes from the path it carries.
    /// A miss is a `ToolNotFound` naming exactly the requested name, version
    /// and architecture; the generic error arises only where the scanner
    /// rejects the pattern.
    pub fn find_with_arch(&self, tool: &str, version: &str, arch: ToolCacheArch) -> (r: Result<
        Tool,
        ToolCacheError,
    >)
        ensures
            r matches Ok(t) ==> t@.name == tool@ && tool_of_path(t@.path) == Some(t@),
            r matches Err(e) ==> ((e matches ToolCacheError::ToolNotFound {
                name: n,
                version: v,
                arch: a,
            } && n@ == tool@ && v@ == version@ && a == Some(arch)) || (e matches
            ToolCacheError::GenericError(m) && m@ == "Failed to read tool cache"@
                && !glob_pattern_ok(tool_glob_view(self@.tool_cache, tool@, version@, arch)))),
    {
        let pattern = Tool::tool_path(self.tool_cache.as_str(), tool, version, arch);
        let scanned = match glob_paths(pattern.as_str()) {
            Ok(v) => v,
            Err(_) => {
                return Err(ToolCacheError::GenericError("Failed to read tool cache".to_owned()));
            },
        };
        let dirs = existing_dirs(&scanned);
        let mut tools = Tool::from_paths(&dirs);
        match Tool::find_named(&tools, tool) {
            Some(idx) => {
                proof {
                    lemma_first_tool_named_name(tool_views(tools@), tool@);
                    lemma_tools_of_paths_decompose(seq_views(dirs@));
                    assert(tool_views(tools@)[idx as int] == tools@[idx as int]@);
                }
                Ok(tools.remove(idx))
            },
            None => Err(
                ToolCacheError::ToolNotFound {
                    name: tool.to_owned(),
                    version: version.to_owned(),
                    arch: Some(arch),
                },
            ),
        }
    }

    /// Find all versions of a tool in the cache: version wildcard `*`,
    /// architecture wildcard, every match returned in traversal order, the
    /// undecomposable ones skipped.  Every returned tool decomposes from the
    /// path it carries, with a non-empty name and version; the generic error
    /// arises only where the scanner rejects the pattern.  Callers wanting
    /// version order sort themselves.
    pub fn find_all_version(&self, tool: &str) -> (r: Result<Vec<Tool>, ToolCacheError>)
        ensures
            r matches Ok(ts) ==> forall|i: int|
                0 <= i < ts@.len() ==> (#[trigger] ts@[i]@).name.len() > 0 && ts@[i]@.version.len()
                    > 0 && tool_of_path(ts@[i]@.path) == Some(ts@[i]@),
            r matches Err(e) ==> (e matches ToolCacheError::GenericError(m) && m@
                == "Failed to read tool cache"@ && !glob_pattern_ok(
                tool_glob_view(self@.tool_cache, tool@, "*"@, ToolCacheArch::Any),
            )),
    {
        let pattern = Tool::tool_path(self.tool_cache.as_str(), tool, "*", ToolCacheArch::Any);
        let scanned = match glob_paths(pattern.as_str()) {
            Ok(v) => v,
            Err(_) => {
                return Err(ToolCacheError::GenericError("Failed to read tool cache".to_owned()));
            },
        };
        let dirs = existing_dirs(&scanned);
        let tools = Tool::from_paths(&dirs);
        proof {
            lemma_tools_of_paths_wf(seq_views(dirs@));
            lemma_tools_of_paths_decompose(seq_views(dirs@));
            assert forall|i: int| 0 <= i < tools@.len() implies (#[trigger] tools@[i]@).name.len()
                > 0 && tools@[i]@.version.len() > 0 && tool_of_path(tools@[i]@.path) == Some(
                tools@[i]@,
            ) by {
                assert(tool_views(tools@)[i] == tools@[i]@);
            }
        }
        Ok(tools)
    }

    /// The path where a new installation of `<tool>` at `<version>` belongs:
    /// the root, the name, the literal version — this is a write target, no
    /// wildcarding — and the store's architecture.  The directory is not
    /// created here.
    pub fn new_tool_path(&self, tool: &str, version: &str) -> (r: String)
        ensures
            r@ == install_path_view(self@.tool_cache, tool@, version@, self@.arch),
    {
        proof {
            reveal_strlit("/");
            assert("/"@ =~= seq!['/']);
        }
        let mut out = self.tool_cache.clone();
        out.append("/");
        out.append(tool);
        out.append("/");
        out.append(version);
        out.append("/");
        let token = self.arch.to_string();
        out.append(token.as_str());
        out.append("/");
        proof {
            assert(out@ =~= install_path_view(self@.tool_cache, tool@, version@, self@.arch));
        }
        out
    }
}

/// Whether `xs` is an order-preserving subsequence of `ys`: every element of
/// `xs` is an element of `ys`, at strictly increasing positions.
pub open spec fn subsequence_of(xs: Seq<String>, ys: Seq<String>) -> bool
    decreases ys.len(),
{
    if xs.len() == 0 {
        true
    } else if ys.len() == 0 {
        false
    } else if xs[0] == ys[0] {
        subsequence_of(xs.drop_first(), ys.drop_first())
    } else {
        subsequence_of(xs, ys.drop_first())
    }
}

/// A subsequence stays one when the right-hand side grows.
proof fn lemma_subseq_extend(xs: Seq<String>, ys: Seq<String>, a: String)
    requires
        subsequence_of(xs, ys),
    ensures
        subsequence_of(xs, ys.push(a)),
    decreases ys.len(),
{
    if xs.len() > 0 {
        assert(ys.len() > 0);
        assert(ys.push(a)[0] == ys[0]);
        assert(ys.push(a).drop_first() =~= ys.drop_first().push(a));
        if xs[0] == ys[0] {
            lemma_subseq_extend(xs.drop_first(), ys.drop_first(), a);
        } else {
            lemma_subseq_extend(xs, ys.drop_first(), a);
        }
    }
}

/// One element is a subsequence of anything it ends.
proof fn lemma_subseq_single(a: String, ys: Seq<String>)
    ensures
        subsequence_of(seq![a], ys.push(a)),
    decreases ys.len(),
{
    assert(seq![a].drop_first() =~= Seq::<String>::empty());
    if ys.len() == 0 {
        assert(ys.push(a)[0] == a);
        assert(ys.push(a).drop_first() =~= Seq::<String>::empty());
        assert(subsequence_of(Seq::<String>::empty(), Seq::<String>::empty()));
    } else {
        assert(ys.push(a)[0] == ys[0]);
        assert(ys.push(a).drop_first() =~= ys.drop_first().push(a));
        if ys[0] == a {
            assert(subsequence_of(Seq::<String>::empty(), ys.drop_first().push(a)));
        } else {
            lemma_subseq_single(a, ys.drop_first());
        }
    }
}

/// A subsequence stays one when the same element ends both sides.
proof fn lemma_subseq_push(xs: Seq<String>, ys: Seq<String>, a: String)
    requires
        subsequence_of(xs, ys),
    ensures
        subsequence_of(xs.push(a), ys.push(a)),
    decreases ys.len(),
{
    if xs.len() == 0 {
        lemma_subseq_single(a, ys);
        assert(xs.push(a) =~= seq![a]);
    } else {
        assert(ys.len() > 0);
        assert(xs.push(a)[0] == xs[0]);
        assert(ys.push(a)[0] == ys[0]);
        assert(xs.push(a).drop_first() =~= xs.drop_first().push(a));
        assert(ys.push(a).drop_first() =~= ys.drop_first().push(a));
        if xs[0] == ys[0] {
            lemma_subseq_push(xs.drop_first(), ys.drop_first(), a);
        } else {
            lemma_subseq_push(xs, ys.drop_first(), a);
        }
    }
}

/// The scanned paths that exist as directories: an order-preserving
/// subsequence of the scan, nothing invented and nothing reordered.
fn existing_dirs(scanned: &Vec<String>) -> (r: Vec<String>)
    ensures
        subsequence_of(r@, scanned@),
{
    let mut dirs: Vec<String> = Vec::new();
    let total = scanned.len();
    let mut i: usize = 0;
    proof {
        assert(scanned@.subrange(0, 0) =~= Seq::<String>::empty());
    }
    while i < total
        invariant
            total == scanned@.len(),
            i <= total,
            subsequence_of(dirs@, scanned@.subrange(0, i as int)),
        decreases total - i,
    {
        let ghost pre = scanned@.subrange(0, i as int);
        if is_existing_dir(&scanned[i]) {
            let ghost prev = dirs@;
            dirs.push(scanned[i].clone());
            proof {
                lemma_subseq_push(prev, pre, scanned@[i as int]);
                assert(dirs@ =~= prev.push(scanned@[i as int]));
            }
        } else {
            proof {
                lemma_subseq_extend(dirs@, pre, scanned@[i as int]);
            }
        }
        i = i + 1;
        proof {
            assert(scanned@.subrange(0, i as int) =~= pre.push(scanned@[i - 1]));
        }
    }
    proof {
        assert(scanned@.subrange(0, total as int) =~= scanned@);
    }
    dirs
}

/// Which of the default cache directories a store should use, in the
/// documented priority order: an environment override wins outright; then the
/// first candidate that proved writable; then the fallback.  The probing
/// itself — reading the override, trying to create each candidate — is the
/// caller's, so the choice is a pure function of its findings.
pub open spec fn first_writable(
    candidates: Seq<Seq<char>>,
    writable: Seq<bool>,
    fallback: Seq<char>,
) -> Seq<char>
    decreases candidates.len(),
{
    if candidates.len() == 0 {
        fallback
    } else if writable[0] {
        candidates[0]
    } else {
        first_writable(candidates.drop_first(), writable.drop_first(), fallback)
    }
}

/// The resolved cache root (see [`first_writable`]).
pub open spec fn resolved_root(
    env_override: Option<Seq<char>>,
    candidates: Seq<Seq<char>>,
    writable: Seq<bool>,
    fallback: Seq<char>,
) -> Seq<char> {
    match env_override {
        Some(e) => e,
        None => first_writable(candidates, writable, fallback),
    }
}

/// Resolve the cache root from an environment snapshot: the override if one
/// is set, else the first candidate directory that proved writable, else the
/// fallback.
pub fn resolve_cache_root(
    env_override: Option<String>,
    candidates: &Vec<String>,
    writable: &Vec<bool>,
    fallback: String,
) -> (r: String)
    requires
        candidates@.len() == writable@.len(),
    ensures
        r@ == resolved_root(opt_view(env_override), seq_views(candidates@), writable@, fallback@),
{
    match env_override {
        Some(e) => e,
        None => {
            let n = candidates.len();
            let mut i: usize = 0;
            proof {
                assert(seq_views(candidates@).skip(0) =~= seq_views(candidates@));
                assert(writable@.skip(0) =~= writable@);
            }
            while i < n
                invariant
                    env_override is None,
                    n == candidates@.len(),
                    candidates@.len() == writable@.len(),
                    i <= n,
                    first_writable(seq_views(candidates@), writable@, fallback@) == first_writable(
                        seq_views(candidates@).skip(i as int),
                        writable@.skip(i as int),
                        fallback@,
                    ),
                decreases n - i,
            {
                proof {
                    assert(seq_views(candidates@).skip(i as int)[0] == seq_views(candidates@)[
                        i as int
                    ]);
                    assert(writable@.skip(i as int)[0] == writable@[i as int]);
                }
                if writable[i] {
                    proof {
                        assert(seq_views(candidates@).skip(i as int).len() > 0);
                        assert(first_writable(
                            seq_views(candidates@).skip(i as int),
                            writable@.skip(i as int),
                            fallback@,
                        ) == seq_views(candidates@)[i as int]);
                        assert(candidates@[i as int]@ == seq_views(candidates@)[i as int]);
                    }
                    return candidates[i].clone();
                }
                i = i + 1;
                proof {
                    assert(seq_views(candidates@).skip(i - 1).drop_first() =~= seq_views(
                        candidates@,
                    ).skip(i as int));
                    assert(writable@.skip(i - 1).drop_first() =~= writable@.skip(i as int));
                }
            }
            proof {
                assert(seq_views(candidates@).skip(n as int) =~= Seq::<Seq<char>>::empty());
            }
            fallback
        },
    }
}

} // verus!
