//! Parsing of repository references of the form
//! `owner/name[/path/to/action][@reference]`.
//!
//! Everything after the first `@` is the reference.  What is before it splits
//! on `/`: the first piece is the owner, the second the name, and the rest,
//! joined again, the path inside the repository.  A path segment `..` is
//! rejected as traversal.

use vstd::prelude::*;
use vstd::string::StrSliceExecFns;

use crate::errors::ActionsError;
use crate::strutil::{
    first_index_of, lemma_split_char_len, opt_view, seq_views, split_char, split_string, str_eq,
};

verus! {

/// The part of a reference before the first `@`: the repository coordinates.
pub open spec fn repo_part(s: Seq<char>) -> Seq<char> {
    match first_index_of(s, '@') {
        Some(i) => s.subrange(0, i),
        None => s,
    }
}

/// The part of a reference after the first `@`, if any: the branch or tag.
pub open spec fn ref_part(s: Seq<char>) -> Option<Seq<char>> {
    match first_index_of(s, '@') {
        Some(i) => Some(s.subrange(i + 1, s.len() as int)),
        None => None,
    }
}

/// The `/`-separated pieces of the repository coordinates.
pub open spec fn repo_segments(s: Seq<char>) -> Seq<Seq<char>> {
    split_char(repo_part(s), '/')
}

/// The owner: the first piece.
pub open spec fn owner_of(s: Seq<char>) -> Seq<char> {
    repo_segments(s)[0]
}

/// The repository name: the second piece, or empty where there is none.
pub open spec fn name_of(s: Seq<char>) -> Seq<char> {
    if repo_segments(s).len() >= 2 {
        repo_segments(s)[1]
    } else {
        Seq::empty()
    }
}

/// The pieces after owner and name: the path inside the repository.
pub open spec fn extra_segments(s: Seq<char>) -> Seq<Seq<char>> {
    if repo_segments(s).len() <= 2 {
        Seq::empty()
    } else {
        repo_segments(s).skip(2)
    }
}

/// Segments joined as `Path::push` joins them: empty segments vanish except
/// for the separator they leave behind.
pub open spec fn pushed_path(parts: Seq<Seq<char>>) -> Seq<char>
    decreases parts.len(),
{
    if parts.len() == 0 {
        Seq::empty()
    } else {
        let buf = pushed_path(parts.drop_last());
        if buf.len() == 0 || buf.last() == '/' {
            buf + parts.last()
        } else {
            buf + seq!['/'] + parts.last()
        }
    }
}

/// The path inside the repository, as a character sequence.
pub open spec fn action_path_of(s: Seq<char>) -> Seq<char> {
    pushed_path(extra_segments(s))
}

/// Whether some path segment is `..`: such a reference is rejected.
pub open spec fn has_traversal(s: Seq<char>) -> bool {
    exists|i: int|
        0 <= i < extra_segments(s).len() && extra_segments(s)[i] == seq!['.', '.']
}

/// The rendering of a parsed reference back to one string.
pub open spec fn rendered(
    owner: Seq<char>,
    name: Seq<char>,
    path: Option<Seq<char>>,
    reference: Option<Seq<char>>,
) -> Seq<char> {
    let base = owner + seq!['/'] + name;
    let with_path = match path {
        Some(p) => base + seq!['/'] + p,
        None => base,
    };
    match reference {
        Some(q) => with_path + seq!['@'] + q,
        None => with_path,
    }
}

/// The owner, name, path and reference of a repository.
#[derive(Debug, Default, Clone, PartialEq, Eq)]
pub struct RepositoryReference {
    /// Repository owner
    pub owner: String,
    /// Repository name
    pub name: String,
    /// Repository path
    pub path: Option<String>,
    /// Repository reference / branch
    pub reference: Option<String>,
}

impl RepositoryReference {
    /// Parse a repository reference.
    ///
    /// `owner/name` come from the first two `/`-pieces before the first `@`;
    /// further pieces form the path; what follows the `@` is the reference.
    /// A path segment `..` is rejected as traversal.
    pub fn parse(reporef: &str) -> (r: Result<RepositoryReference, ActionsError>)
        ensures
            has_traversal(reporef@) ==> (r matches Err(e) && e matches
                ActionsError::RepositoryReferenceError(m) && m@ == "Path traversal detected"@),
            !has_traversal(reporef@) ==> (r matches Ok(rr) && {
                &&& rr.owner@ == owner_of(reporef@)
                &&& rr.name@ == name_of(reporef@)
                &&& opt_view(rr.path) == (if action_path_of(reporef@).len() == 0 {
                    Option::<Seq<char>>::None
                } else {
                    Some(action_path_of(reporef@))
                })
                &&& opt_view(rr.reference) == ref_part(reporef@)
            }),
    {
        let n = reporef.unicode_len();
        let (repository, reference): (String, Option<String>) = match crate::strutil::find_char(
            reporef,
            '@',
        ) {
            Some(i) => (
                reporef.substring_char(0, i).to_owned(),
                Some(reporef.substring_char(i + 1, n).to_owned()),
            ),
            None => (reporef.to_owned(), None),
        };
        proof {
            assert(repository@ == repo_part(reporef@));
            assert(opt_view(reference) == ref_part(reporef@));
        }
        let segs = split_string(repository.as_str(), '/');
        proof {
            lemma_split_char_len(repository@, '/');
            assert(seq_views(segs@) == repo_segments(reporef@));
            assert(segs@.len() == seq_views(segs@).len());
        }
        let owner = segs[0].clone();
        let name = if segs.len() >= 2 {
            segs[1].clone()
        } else {
            String::new()
        };
        let total = segs.len();
        let ghost parts = seq_views(segs@);

        // Reject traversal before assembling the path.
        let mut i: usize = 2;
        while i < total
            invariant
                total == segs@.len(),
                parts == seq_views(segs@),
                parts == repo_segments(reporef@),
                2 <= i,
                total >= 2 ==> i <= total,
                forall|j: int| 2 <= j < i && j < total ==> parts[j] != seq!['.', '.'],
            decreases total - i,
        {
            if str_eq(segs[i].as_str(), "..") {
                proof {
                    reveal_strlit("..");
                    assert(".."@ =~= seq!['.', '.']);
                    assert(parts[i as int] == segs@[i as int]@);
                    assert(parts.len() > 2);
                    assert(extra_segments(reporef@) == parts.skip(2));
                    assert(extra_segments(reporef@)[i - 2] == parts[i as int]);
                    assert(has_traversal(reporef@));
                }
                return Err(
                    ActionsError::RepositoryReferenceError("Path traversal detected".to_owned()),
                );
            }
            proof {
                reveal_strlit("..");
                assert(".."@ =~= seq!['.', '.']);
            }
            i = i + 1;
        }
        proof {
            if has_traversal(reporef@) {
                let k = choose|k: int|
                    0 <= k < extra_segments(reporef@).len() && extra_segments(reporef@)[k]
                        == seq!['.', '.'];
                assert(extra_segments(reporef@)[k] == parts[k + 2]);
                assert(false);
            }
        }

        // Assemble the path as `Path::push` would.
        let mut buf = String::new();
        let mut k: usize = 2;
        while k < total
            invariant
                total == segs@.len(),
                parts == seq_views(segs@),
                2 <= k,
                total >= 2 ==> k <= total && buf@ == pushed_path(parts.subrange(2, k as int)),
                total < 2 ==> buf@ == Seq::<char>::empty(),
            decreases total - k,
        {
            proof {
                reveal_strlit("/");
                assert("/"@ =~= seq!['/']);
            }
            let piece = segs[k].as_str();
            let blen = buf.as_str().unicode_len();
            if blen == 0 {
                buf.append(piece);
            } else if buf.as_str().get_char(blen - 1) == '/' {
                buf.append(piece);
            } else {
                buf.append("/");
                buf.append(piece);
            }
            k = k + 1;
            proof {
                let cur = parts.subrange(2, k as int);
                assert(cur.drop_last() =~= parts.subrange(2, k - 1));
                assert(cur.last() == parts[k - 1]);
                assert(buf@ == pushed_path(cur));
            }
        }
        proof {
            if total >= 2 {
                assert(parts.subrange(2, total as int) =~= extra_segments(reporef@));
            }
            assert(buf@ == action_path_of(reporef@));
        }
        let path = if buf.as_str().unicode_len() == 0 {
            Option::<String>::None
        } else {
            Some(buf)
        };
        Ok(RepositoryReference { owner, name, path, reference })
    }

    /// Render the reference back to one string:
    /// `owner/name[/path][@reference]`.
    pub fn display(&self) -> (r: String)
        ensures
            r@ == rendered(
                self.owner@,
                self.name@,
                opt_view(self.path),
                opt_view(self.reference),
            ),
    {
        proof {
            reveal_strlit("/");
            reveal_strlit("@");
            assert("/"@ =~= seq!['/']);
            assert("@"@ =~= seq!['@']);
        }
        let mut out = self.owner.clone();
        out.append("/");
        out.append(self.name.as_str());
        match &self.path {
            Some(p) => {
                out.append("/");
                out.append(p.as_str());
            },
            None => {},
        }
        match &self.reference {
            Some(q) => {
                out.append("@");
                out.append(q.as_str());
            },
            None => {},
        }
        out
    }
}

} // verus!
