//! The path scheme of the cache and the [`Tool`] entity.
//!
//! Every cache entry lives under `<root>/<name>/<version>/<arch>/`.  A lookup
//! builds a glob pattern over that convention; a matched directory is
//! decomposed back into a `Tool` from its last three path segments.

use vstd::prelude::*;
use vstd::string::StrSliceExecFns;

use crate::arch::{arch_of_string, arch_token, ToolCacheArch};
use crate::errors::ToolCacheError;
use crate::strutil::{
    replace_char, replace_seq, seq_views, split_char, split_string, str_eq,
};

verus! {

/// A version pattern with every `x` rewritten to the match-any token `*`.
/// This is literal character substitution, not template parsing: `12.x`
/// becomes `12.*`, but an `x` anywhere in the string is rewritten too.
pub open spec fn wildcard_version(v: Seq<char>) -> Seq<char> {
    replace_seq(v, 'x', '*')
}

/// The path of a tool at a version, taken literally:
/// `<root>/<name>/<version>/<arch>/`, the architecture written as its token.
/// This is what an installation writes to; nothing is wildcarded.
pub open spec fn install_path_view(
    root: Seq<char>,
    name: Seq<char>,
    version: Seq<char>,
    arch: ToolCacheArch,
) -> Seq<char> {
    root + seq!['/'] + name + seq!['/'] + version + seq!['/'] + arch_token(arch) + seq!['/']
}

/// The glob pattern of a lookup: `<root>/<name>/<version>/<arch>/`, with the
/// version wildcarded and the architecture written as its token.  The
/// trailing separator anchors the match to the architecture-leaf directory,
/// never a file.
pub open spec fn tool_glob_view(
    root: Seq<char>,
    name: Seq<char>,
    version: Seq<char>,
    arch: ToolCacheArch,
) -> Seq<char> {
    install_path_view(root, name, wildcard_version(version), arch)
}

/// The pieces of a split with the empty ones dropped.
pub open spec fn keep_nonempty(ps: Seq<Seq<char>>) -> Seq<Seq<char>>
    decreases ps.len(),
{
    if ps.len() == 0 {
        Seq::empty()
    } else {
        let rest = keep_nonempty(ps.drop_last());
        if ps.last().len() > 0 {
            rest.push(ps.last())
        } else {
            rest
        }
    }
}

/// The non-empty `/`-separated segments of a path.
pub open spec fn path_segments(p: Seq<char>) -> Seq<Seq<char>> {
    keep_nonempty(split_char(p, '/'))
}

/// The mathematical value of a [`Tool`]: its four fields as sequences.
#[verifier::ext_equal]
pub struct ToolView {
    /// Tool name
    pub name: Seq<char>,
    /// Tool version
    pub version: Seq<char>,
    /// Tool architecture
    pub arch: ToolCacheArch,
    /// Tool path
    pub path: Seq<char>,
}

/// The decomposition of a matched directory path: its last three non-empty
/// segments are architecture, version and name, in that order from the end.
/// A path with fewer than three segments decomposes to nothing.
pub open spec fn tool_of_path(p: Seq<char>) -> Option<ToolView> {
    let segs = path_segments(p);
    if segs.len() < 3 {
        None
    } else {
        Some(
            ToolView {
                name: segs[segs.len() - 3],
                version: segs[segs.len() - 2],
                arch: arch_of_string(segs[segs.len() - 1]),
                path: p,
            },
        )
    }
}

/// The tools decomposed from a list of scanned paths, in order, the
/// undecomposable paths skipped: the bulk-scan policy is best effort, a
/// malformed directory name never aborts the whole scan.
pub open spec fn tools_of_paths(ps: Seq<Seq<char>>) -> Seq<ToolView>
    decreases ps.len(),
{
    if ps.len() == 0 {
        Seq::empty()
    } else {
        let rest = tools_of_paths(ps.drop_last());
        match tool_of_path(ps.last()) {
            Some(t) => rest.push(t),
            None => rest,
        }
    }
}

/// The first tool of a list whose name is the one requested.
pub open spec fn first_tool_named(ts: Seq<ToolView>, name: Seq<char>) -> Option<ToolView>
    decreases ts.len(),
{
    if ts.len() == 0 {
        None
    } else if ts[0].name == name {
        Some(ts[0])
    } else {
        first_tool_named(ts.drop_first(), name)
    }
}

/// The views of a sequence of tools.
pub open spec fn tool_views(ts: Seq<Tool>) -> Seq<ToolView> {
    Seq::new(ts.len(), |i: int| ts[i]@)
}

/// The tool a name selects carries exactly that name.
pub proof fn lemma_first_tool_named_name(ts: Seq<ToolView>, name: Seq<char>)
    requires
        first_tool_named(ts, name) is Some,
    ensures
        first_tool_named(ts, name).unwrap().name == name,
    decreases ts.len(),
{
    if ts.len() > 0 && ts[0].name != name {
        lemma_first_tool_named_name(ts.drop_first(), name);
    }
}

/// Every kept piece is non-empty.
pub proof fn lemma_keep_nonempty_elems(ps: Seq<Seq<char>>)
    ensures
        forall|i: int|
            0 <= i < keep_nonempty(ps).len() ==> (#[trigger] keep_nonempty(ps)[i]).len() > 0,
    decreases ps.len(),
{
    if ps.len() > 0 {
        lemma_keep_nonempty_elems(ps.drop_last());
        let rest = keep_nonempty(ps.drop_last());
        assert forall|i: int| 0 <= i < keep_nonempty(ps).len() implies (#[trigger] keep_nonempty(
            ps,
        )[i]).len() > 0 by {
            if ps.last().len() > 0 {
                if i < rest.len() {
                    assert(keep_nonempty(ps)[i] == rest[i]);
                } else {
                    assert(keep_nonempty(ps)[i] == ps.last());
                }
            } else {
                assert(keep_nonempty(ps)[i] == rest[i]);
            }
        }
    }
}

/// A decomposed path carries a non-empty name and version.
pub proof fn lemma_tool_of_path_wf(p: Seq<char>)
    ensures
        tool_of_path(p) is Some ==> tool_of_path(p).unwrap().name.len() > 0 && tool_of_path(
            p,
        ).unwrap().version.len() > 0,
{
    lemma_keep_nonempty_elems(split_char(p, '/'));
}

/// Every tool a scan decomposes is a fixpoint of decomposition: decomposing
/// the path it carries gives the tool itself back.
pub proof fn lemma_tools_of_paths_decompose(ps: Seq<Seq<char>>)
    ensures
        forall|i: int|
            0 <= i < tools_of_paths(ps).len() ==> tool_of_path(
                (#[trigger] tools_of_paths(ps)[i]).path,
            ) == Some(tools_of_paths(ps)[i]),
    decreases ps.len(),
{
    if ps.len() > 0 {
        lemma_tools_of_paths_decompose(ps.drop_last());
        let rest = tools_of_paths(ps.drop_last());
        assert forall|i: int| 0 <= i < tools_of_paths(ps).len() implies tool_of_path(
            (#[trigger] tools_of_paths(ps)[i]).path,
        ) == Some(tools_of_paths(ps)[i]) by {
            match tool_of_path(ps.last()) {
                Some(t) => {
                    if i < rest.len() {
                        assert(tools_of_paths(ps)[i] == rest[i]);
                    } else {
                        assert(tools_of_paths(ps)[i] == t);
                        assert(t.path == ps.last());
                    }
                },
                None => {
                    assert(tools_of_paths(ps)[i] == rest[i]);
                },
            }
        }
    }
}

/// Every tool decomposed by a scan carries a non-empty name and version.
pub proof fn lemma_tools_of_paths_wf(ps: Seq<Seq<char>>)
    ensures
        forall|i: int|
            0 <= i < tools_of_paths(ps).len() ==> (#[trigger] tools_of_paths(ps)[i]).name.len() > 0
                && tools_of_paths(ps)[i].version.len() > 0,
    decreases ps.len(),
{
    if ps.len() > 0 {
        lemma_tools_of_paths_wf(ps.drop_last());
        lemma_tool_of_path_wf(ps.last());
    }
}

/// A path joined onto a base directory, in the manner of `Path::join`: an
/// absolute right-hand side replaces the base.
pub open spec fn joined_path(base: Seq<char>, rel: Seq<char>) -> Seq<char> {
    if rel.len() > 0 && rel[0] == '/' {
        rel
    } else if base.len() == 0 || base.last() == '/' {
        base + rel
    } else {
        base + seq!['/'] + rel
    }
}

/// Splitting distributes over a separator: the pieces of `a ++ sep ++ b`
/// are the pieces of `a` followed by the pieces of `b`.
pub proof fn lemma_split_char_concat(a: Seq<char>, b: Seq<char>, sep: char)
    ensures
        split_char(a + seq![sep] + b, sep) == split_char(a, sep) + split_char(b, sep),
    decreases b.len(),
{
    let s = a + seq![sep] + b;
    crate::strutil::lemma_split_char_len(a, sep);
    if b.len() == 0 {
        assert(s.last() == sep);
        assert(s.drop_last() =~= a);
        assert(split_char(s, sep) =~= split_char(a, sep) + split_char(b, sep));
    } else {
        let c = b.last();
        let s0 = a + seq![sep] + b.drop_last();
        lemma_split_char_concat(a, b.drop_last(), sep);
        crate::strutil::lemma_split_char_len(b.drop_last(), sep);
        assert(s.drop_last() =~= s0);
        assert(s.last() == c);
        let x = split_char(a, sep);
        let y = split_char(b.drop_last(), sep);
        if c == sep {
            assert(split_char(s, sep) =~= x + split_char(b, sep));
        } else {
            assert((x + y).last() == y.last());
            assert(split_char(s, sep) =~= x + split_char(b, sep));
        }
    }
}

/// Dropping empty pieces distributes over concatenation.
pub proof fn lemma_keep_nonempty_concat(x: Seq<Seq<char>>, y: Seq<Seq<char>>)
    ensures
        keep_nonempty(x + y) == keep_nonempty(x) + keep_nonempty(y),
    decreases y.len(),
{
    if y.len() == 0 {
        assert(x + y =~= x);
        assert(keep_nonempty(x) + keep_nonempty(y) =~= keep_nonempty(x));
    } else {
        lemma_keep_nonempty_concat(x, y.drop_last());
        assert((x + y).drop_last() =~= x + y.drop_last());
        assert((x + y).last() == y.last());
        assert(keep_nonempty(x + y) =~= keep_nonempty(x) + keep_nonempty(y));
    }
}

/// The segments of `a ++ / ++ b` are the segments of `a` followed by the
/// segments of `b`.
pub proof fn lemma_path_segments_concat(a: Seq<char>, b: Seq<char>)
    ensures
        path_segments(a + seq!['/'] + b) == path_segments(a) + path_segments(b),
{
    lemma_split_char_concat(a, b, '/');
    lemma_keep_nonempty_concat(split_char(a, '/'), split_char(b, '/'));
}

/// A piece without separators splits to itself alone.
pub proof fn lemma_split_no_sep(s: Seq<char>, sep: char)
    requires
        forall|i: int| 0 <= i < s.len() ==> s[i] != sep,
    ensures
        split_char(s, sep) == seq![s],
    decreases s.len(),
{
    if s.len() == 0 {
        assert(split_char(s, sep) == seq![Seq::<char>::empty()]);
        assert(split_char(s, sep) =~~= seq![s]);
    } else {
        let s0 = s.drop_last();
        assert forall|i: int| 0 <= i < s0.len() implies s0[i] != sep by {
            assert(s0[i] == s[i]);
        }
        lemma_split_no_sep(s0, sep);
        assert(s.last() != sep);
        assert(split_char(s, sep) == seq![s0].update(0, seq![s0].last().push(s.last())));
        assert(seq![s0].last() == s0);
        assert(s0.push(s.last()) =~= s);
        assert(split_char(s, sep) =~= seq![s]);
    }
}

/// A non-empty piece without separators is a single segment.
pub proof fn lemma_single_segment(s: Seq<char>)
    requires
        s.len() > 0,
        !s.contains('/'),
    ensures
        path_segments(s) == seq![s],
{
    assert forall|i: int| 0 <= i < s.len() implies s[i] != '/' by {
        if s[i] == '/' {
            assert(s.contains('/'));
        }
    }
    lemma_split_no_sep(s, '/');
    assert(seq![s].drop_last() =~= Seq::<Seq<char>>::empty());
    assert(keep_nonempty(Seq::<Seq<char>>::empty()) == Seq::<Seq<char>>::empty());
    assert(keep_nonempty(seq![s]) =~= seq![s]);
    assert(path_segments(s) =~= seq![s]);
}

/// The empty path has no segments.
pub proof fn lemma_path_segments_empty()
    ensures
        path_segments(Seq::<char>::empty()) == Seq::<Seq<char>>::empty(),
{
    let e = Seq::<char>::empty();
    let one = seq![e];
    assert(split_char(e, '/') == one);
    assert(one.drop_last() =~= Seq::<Seq<char>>::empty());
    assert(keep_nonempty(Seq::<Seq<char>>::empty()) == Seq::<Seq<char>>::empty());
    assert(one.last() == e);
    assert(keep_nonempty(one) == Seq::<Seq<char>>::empty());
}

/// An architecture token is a single non-empty segment, and parsing it gives
/// the architecture back — the wildcard included, since its glob token names
/// no concrete architecture.
pub proof fn lemma_arch_token_round_trip(a: ToolCacheArch)
    ensures
        arch_of_string(arch_token(a)) == a,
        arch_token(a).len() > 0,
        !arch_token(a).contains('/'),
{
    let tok = arch_token(a);
    assert(crate::strutil::lower_seq(tok) =~= tok);
    assert forall|i: int| 0 <= i < tok.len() implies tok[i] != '/' by {}
    if tok.contains('/') {
        let i = choose|i: int| 0 <= i < tok.len() && tok[i] == '/';
        assert(false);
    }
    match a {
        ToolCacheArch::X64 => {
            assert(arch_of_string(tok) == ToolCacheArch::X64);
        },
        ToolCacheArch::ARM64 => {
            assert(crate::strutil::lower_seq(tok) != seq!['x', '6', '4']);
            assert(arch_of_string(tok) == ToolCacheArch::ARM64);
        },
        ToolCacheArch::Any => {
            assert(crate::strutil::lower_seq(tok) != seq!['x', '6', '4']);
            assert(crate::strutil::lower_seq(tok) != seq!['a', 'r', 'm', '6', '4']);
            assert(arch_of_string(tok) == ToolCacheArch::Any);
        },
    }
}

/// The round trip of the path scheme: decomposing the path the scheme builds
/// for `(name, version, arch)` gives back exactly that name, version and
/// architecture, whatever the root.  The version must not hold the wildcard
/// letter `x`, which the scheme rewrites; neither name nor version may hold
/// a separator.
pub proof fn lemma_tool_path_round_trip(
    root: Seq<char>,
    name: Seq<char>,
    version: Seq<char>,
    arch: ToolCacheArch,
)
    requires
        name.len() > 0,
        !name.contains('/'),
        version.len() > 0,
        !version.contains('/'),
        !version.contains('x'),
    ensures
        tool_of_path(tool_glob_view(root, name, version, arch)) == Some(
            ToolView { name, version, arch, path: tool_glob_view(root, name, version, arch) },
        ),
{
    let g = tool_glob_view(root, name, version, arch);
    let tok = arch_token(arch);
    lemma_arch_token_round_trip(arch);
    assert(wildcard_version(version) =~= version) by {
        assert forall|i: int| 0 <= i < version.len() implies wildcard_version(version)[i]
            == version[i] by {
            if version[i] == 'x' {
                assert(version.contains('x'));
            }
        }
    }
    let e = Seq::<char>::empty();
    let t3 = tok + seq!['/'] + e;
    let t2 = version + seq!['/'] + t3;
    let t1 = name + seq!['/'] + t2;
    assert(g =~= root + seq!['/'] + t1);
    lemma_path_segments_concat(root, t1);
    lemma_path_segments_concat(name, t2);
    lemma_path_segments_concat(version, t3);
    lemma_path_segments_concat(tok, e);
    lemma_single_segment(name);
    lemma_single_segment(version);
    lemma_single_segment(tok);
    lemma_path_segments_empty();
    let segs = path_segments(g);
    assert(segs =~= path_segments(root) + seq![name] + seq![version] + seq![tok]);
    let n = segs.len();
    assert(n == path_segments(root).len() + 3);
    assert(segs[n - 3] == name);
    assert(segs[n - 2] == version);
    assert(segs[n - 1] == tok);
    assert(tool_of_path(g) == Some(ToolView { name, version, arch, path: g }));
}

/// The selection law behind a lookup hit: when a scan returns the very
/// directory the scheme builds for `(name, version, arch)`, decomposing and
/// selecting by name yields exactly that tool.
pub proof fn lemma_scan_hit(
    root: Seq<char>,
    name: Seq<char>,
    version: Seq<char>,
    arch: ToolCacheArch,
)
    requires
        name.len() > 0,
        !name.contains('/'),
        version.len() > 0,
        !version.contains('/'),
        !version.contains('x'),
    ensures
        ({
            let g = tool_glob_view(root, name, version, arch);
            first_tool_named(tools_of_paths(seq![g]), name) == Some(
                ToolView { name, version, arch, path: g },
            )
        }),
{
    lemma_tool_path_round_trip(root, name, version, arch);
    let g = tool_glob_view(root, name, version, arch);
    let tv = ToolView { name, version, arch, path: g };
    assert(seq![g].drop_last() =~= Seq::<Seq<char>>::empty());
    assert(tools_of_paths(Seq::<Seq<char>>::empty()) == Seq::<ToolView>::empty());
    assert(seq![g].last() == g);
    assert(tools_of_paths(seq![g]) =~= seq![tv]);
    assert(first_tool_named(seq![tv], name) == Some(tv));
}

/// A resolved, existing cache entry: name, version, architecture and the
/// matched directory path.  Produced by successful lookups; it carries no
/// liveness guarantee afterward, since the filesystem can change
/// concurrently.
#[derive(Debug, Clone)]
pub struct Tool {
    /// Tool Name
    name: String,
    /// Tool Version
    version: String,
    /// Tool Architecture
    arch: ToolCacheArch,
    /// Tool Path
    path: String,
}

impl View for Tool {
    type V = ToolView;

    closed spec fn view(&self) -> ToolView {
        ToolView { name: self.name@, version: self.version@, arch: self.arch, path: self.path@ }
    }
}

impl Tool {
    /// Create a new Tool.
    pub fn new(name: String, version: String, arch: ToolCacheArch, path: String) -> (r: Tool)
        ensures
            r@ == (ToolView { name: name@, version: version@, arch, path: path@ }),
    {
        Tool { name, version, arch, path }
    }

    /// Get the Tool name.
    pub fn name(&self) -> (r: &String)
        ensures
            r@ == self@.name,
    {
        &self.name
    }

    /// Get the Tool version.
    pub fn version(&self) -> (r: &String)
        ensures
            r@ == self@.version,
    {
        &self.version
    }

    /// Get the Tool architecture.
    pub fn arch(&self) -> (r: &ToolCacheArch)
        ensures
            *r == self@.arch,
    {
        &self.arch
    }

    /// Get the Tool path.
    pub fn path(&self) -> (r: &String)
        ensures
            r@ == self@.path,
    {
        &self.path
    }

    /// Join a path onto the Tool path.
    pub fn join(&self, path: &str) -> (r: String)
        ensures
            r@ == joined_path(self@.path, path@),
    {
        join_segments(self.path.as_str(), path)
    }

    /// Decompose a matched directory path: the last three non-empty segments
    /// are architecture, version and name, from the end.  A path with fewer
    /// than three segments is rejected.
    pub fn try_from(path: String) -> (r: Result<Tool, ToolCacheError>)
        ensures
            match tool_of_path(path@) {
                Some(tv) => r matches Ok(t) && t@ == tv,
                None => r matches Err(e) && e matches ToolCacheError::GenericError(m) && m@
                    == "Invalid Tool Path"@,
            },
    {
        let segs = split_segments(path.as_str());
        let k = segs.len();
        if k < 3 {
            Err(ToolCacheError::GenericError("Invalid Tool Path".to_owned()))
        } else {
            let arch = ToolCacheArch::from(segs[k - 1].as_str());
            let version = segs[k - 2].clone();
            let name = segs[k - 3].clone();
            proof {
                assert(seq_views(segs@)[k - 1] == segs@[k - 1]@);
                assert(seq_views(segs@)[k - 2] == segs@[k - 2]@);
                assert(seq_views(segs@)[k - 3] == segs@[k - 3]@);
            }
            Ok(Tool { name, version, arch, path })
        }
    }

    /// Decompose every scanned path into a tool, in order, skipping the
    /// paths that do not decompose: a malformed directory name never aborts
    /// the whole scan.
    pub fn from_paths(paths: &Vec<String>) -> (r: Vec<Tool>)
        ensures
            tool_views(r@) == tools_of_paths(seq_views(paths@)),
    {
        let mut out: Vec<Tool> = Vec::new();
        let n = paths.len();
        let mut i: usize = 0;
        proof {
            assert(seq_views(paths@).subrange(0, 0) =~= Seq::<Seq<char>>::empty());
            assert(tool_views(out@) =~= tools_of_paths(seq_views(paths@).subrange(0, 0)));
        }
        while i < n
            invariant
                n == paths@.len(),
                i <= n,
                tool_views(out@) == tools_of_paths(seq_views(paths@).subrange(0, i as int)),
            decreases n - i,
        {
            match Tool::try_from(paths[i].clone()) {
                Ok(t) => { out.push(t) },
                Err(_) => {},
            }
            i = i + 1;
            proof {
                let all = seq_views(paths@);
                let pre = all.subrange(0, i - 1);
                let cur = all.subrange(0, i as int);
                assert(cur.drop_last() =~= pre);
                assert(cur.last() == paths@[i - 1]@);
                assert(tool_views(out@) =~~= tools_of_paths(cur));
            }
        }
        proof {
            assert(seq_views(paths@).subrange(0, n as int) =~= seq_views(paths@));
        }
        out
    }

    /// The position of the first tool in the list whose name is the one
    /// requested.
    pub fn find_named(tools: &Vec<Tool>, name: &str) -> (r: Option<usize>)
        ensures
            match r {
                Some(i) => i < tools@.len() && first_tool_named(tool_views(tools@), name@)
                    == Some(tools@[i as int]@),
                None => first_tool_named(tool_views(tools@), name@) is None,
            },
    {
        let n = tools.len();
        let mut i: usize = 0;
        proof {
            assert(tool_views(tools@).skip(0) =~= tool_views(tools@));
        }
        while i < n
            invariant
                n == tools@.len(),
                i <= n,
                first_tool_named(tool_views(tools@), name@) == first_tool_named(
                    tool_views(tools@).skip(i as int),
                    name@,
                ),
            decreases n - i,
        {
            proof {
                assert(tool_views(tools@).skip(i as int)[0] == tool_views(tools@)[i as int]);
            }
            if str_eq(tools[i].name().as_str(), name) {
                return Some(i);
            }
            i = i + 1;
            proof {
                assert(tool_views(tools@).skip(i - 1).drop_first() =~= tool_views(tools@).skip(
                    i as int,
                ));
            }
        }
        proof {
            assert(tool_views(tools@).skip(n as int) =~= Seq::<ToolView>::empty());
        }
        None
    }

    /// The glob pattern that finds `<root>/<tool>/<version>/<arch>/`, with
    /// the version wildcarded (every `x` becomes `*`) and the architecture
    /// written as its token.
    pub fn tool_path(toolcache_root: &str, tool: &str, version: &str, arch: ToolCacheArch) -> (r:
        String)
        ensures
            r@ == tool_glob_view(toolcache_root@, tool@, version@, arch),
    {
        proof {
            reveal_strlit("/");
            assert("/"@ =~= seq!['/']);
        }
        let mut out = toolcache_root.to_owned();
        out.append("/");
        out.append(tool);
        out.append("/");
        let wild = replace_char(version, 'x', '*');
        out.append(wild.as_str());
        out.append("/");
        let token = arch.to_string();
        out.append(token.as_str());
        out.append("/");
        proof {
            assert(out@ =~= tool_glob_view(toolcache_root@, tool@, version@, arch));
        }
        out
    }
}

/// The non-empty `/`-separated segments of a path, as owned strings.
pub fn split_segments(path: &str) -> (r: Vec<String>)
    ensures
        seq_views(r@) == path_segments(path@),
{
    let pieces = split_string(path, '/');
    let mut segs: Vec<String> = Vec::new();
    let n = pieces.len();
    let mut i: usize = 0;
    proof {
        assert(seq_views(pieces@).subrange(0, 0) =~= Seq::<Seq<char>>::empty());
    }
    while i < n
        invariant
            n == pieces@.len(),
            i <= n,
            seq_views(segs@) == keep_nonempty(seq_views(pieces@).subrange(0, i as int)),
        decreases n - i,
    {
        if pieces[i].as_str().unicode_len() > 0 {
            segs.push(pieces[i].clone());
        }
        i = i + 1;
        proof {
            let all = seq_views(pieces@);
            let pre = all.subrange(0, i - 1);
            let cur = all.subrange(0, i as int);
            assert(cur.drop_last() =~= pre);
            assert(cur.last() == pieces@[i - 1]@);
            assert(seq_views(segs@) =~~= keep_nonempty(cur));
        }
    }
    proof {
        assert(seq_views(pieces@).subrange(0, n as int) =~= seq_views(pieces@));
        assert(seq_views(segs@) == path_segments(path@));
    }
    segs
}

/// A path joined onto a base directory (see [`joined_path`]).
fn join_segments(base: &str, rel: &str) -> (r: String)
    ensures
        r@ == joined_path(base@, rel@),
{
    proof {
        reveal_strlit("/");
        assert("/"@ =~= seq!['/']);
    }
    if rel.unicode_len() > 0 && rel.get_char(0) == '/' {
        return rel.to_owned();
    }
    let base_len = base.unicode_len();
    let mut out = base.to_owned();
    if base_len == 0 || base.get_char(base_len - 1) == '/' {
        out.append(rel);
        proof {
            assert(out@ =~= joined_path(base@, rel@));
        }
        out
    } else {
        out.append("/");
        out.append(rel);
        proof {
            assert(out@ =~= joined_path(base@, rel@));
        }
        out
    }
}

} // verus!
