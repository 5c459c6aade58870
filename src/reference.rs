//! Git revision selectors and the refspecs fetched for each.

use vstd::prelude::*;
use crate::text::{is_prefix, starts_with, views};

verus! {

/// A revision of a git repository, as a dependency names it.
#[derive(Clone, Debug, PartialEq, Eq, Hash)]
pub enum Reference {
    Branch(String),
    Rev(String),
    Tag(String),
}

/// A revision of a git repository, where absence of a selector is written
/// out as `Default` (the remote's default branch).
#[derive(Clone, Debug, PartialEq, Eq)]
pub enum GitReference {
    Default,
    Branch(String),
    Rev(String),
    Tag(String),
}

pub open spec fn is_hex_digit(c: char) -> bool {
    ('0' <= c && c <= '9') || ('a' <= c && c <= 'f') || ('A' <= c && c <= 'F')
}

/// At least seven characters, all of them hexadecimal digits.
pub open spec fn hash_like(s: Seq<char>) -> bool {
    s.len() >= 7 && forall|i: int| 0 <= i < s.len() ==> is_hex_digit(#[trigger] s[i])
}

/// Whether `id` reads as an (abbreviated) commit id.
pub fn is_commit_hash_like(id: &str) -> (r: bool)
    ensures
        r == hash_like(id@),
{
    let n = id.unicode_len();
    if n < 7 {
        return false;
    }
    let mut i: usize = 0;
    while i < n
        invariant
            n == id@.len(),
            i <= n,
            forall|j: int| 0 <= j < i ==> is_hex_digit(#[trigger] id@[j]),
        decreases n - i,
    {
        let c = id.get_char(i);
        if !(('0' <= c && c <= '9') || ('a' <= c && c <= 'f') || ('A' <= c && c <= 'F')) {
            return false;
        }
        i += 1;
    }
    true
}

impl Reference {
    /// The text of the selector, whatever its kind.
    pub open spec fn text(&self) -> Seq<char> {
        match self {
            Reference::Branch(s) => s@,
            Reference::Rev(s) => s@,
            Reference::Tag(s) => s@,
        }
    }

    /// The text of the selector, as `git rev-parse` takes it.
    pub fn as_str(&self) -> (r: &str)
        ensures
            r@ == self.text(),
    {
        match self {
            Reference::Branch(s) => s.as_str(),
            Reference::Rev(s) => s.as_str(),
            Reference::Tag(s) => s.as_str(),
        }
    }

    /// The refspecs to fetch so that the revision `r` (the default branch
    /// where `r` is `None`) becomes available in a bare clone.
    pub fn refspecs(r: Option<&Reference>) -> (out: Vec<String>)
        ensures
            views(out@) == refspecs_of(match r {
                Some(x) => Some(*x),
                None => None,
            }),
    {
        let mut out: Vec<String> = Vec::new();
        match r {
            None => {
                out.push(String::from_str("+HEAD:refs/remotes/origin/HEAD"));
            },
            Some(Reference::Branch(b)) => {
                out.push(
                    String::from_str("+refs/heads/").concat(b.as_str()).concat(
                        ":refs/remotes/origin/",
                    ).concat(b.as_str()),
                );
            },
            Some(Reference::Tag(t)) => {
                out.push(
                    String::from_str("+refs/tags/").concat(t.as_str()).concat(
                        ":refs/remotes/origin/tags/",
                    ).concat(t.as_str()),
                );
            },
            Some(Reference::Rev(v)) => {
                if starts_with(v.as_str(), "refs/") {
                    out.push(String::from_str("+").concat(v.as_str()).concat(":").concat(v.as_str()));
                } else if is_commit_hash_like(v.as_str()) {
                    out.push(
                        String::from_str("+").concat(v.as_str()).concat(":refs/commit/").concat(
                            v.as_str(),
                        ),
                    );
                } else {
                    out.push(String::from_str("+refs/heads/*:refs/remotes/origin/*"));
                    out.push(String::from_str("+HEAD:refs/remotes/origin/HEAD"));
                }
            },
        }
        proof {
            assert(views(out@) =~= refspecs_of(
                match r {
                    Some(x) => Some(*x),
                    None => None,
                },
            ));
        }
        out
    }
}

/// The refspecs fetched for a revision: the named branch or tag, the exact
/// ref or commit, and otherwise every branch together with the default one.
pub open spec fn refspecs_of(r: Option<Reference>) -> Seq<Seq<char>> {
    match r {
        None => seq!["+HEAD:refs/remotes/origin/HEAD"@],
        Some(Reference::Branch(b)) => seq!["+refs/heads/"@ + b@ + ":refs/remotes/origin/"@ + b@],
        Some(Reference::Tag(t)) => seq![
            "+refs/tags/"@ + t@ + ":refs/remotes/origin/tags/"@ + t@,
        ],
        Some(Reference::Rev(v)) => if is_prefix("refs/"@, v@) {
            seq!["+"@ + v@ + ":"@ + v@]
        } else if hash_like(v@) {
            seq!["+"@ + v@ + ":refs/commit/"@ + v@]
        } else {
            seq!["+refs/heads/*:refs/remotes/origin/*"@, "+HEAD:refs/remotes/origin/HEAD"@]
        },
    }
}

/// The revision that a selector stands for in a clone of the remote.
pub open spec fn rev_of(r: GitReference) -> Seq<char> {
    match r {
        GitReference::Default => "refs/remotes/origin/HEAD"@,
        GitReference::Branch(b) => "refs/remotes/origin/"@ + b@,
        GitReference::Tag(t) => t@,
        GitReference::Rev(v) => v@,
    }
}

impl GitReference {
    /// The revision to check out: the remote-tracking ref of a branch (or of
    /// the default branch), and a tag or commit as it is written.
    pub fn rev(&self) -> (r: String)
        ensures
            r@ == rev_of(*self),
    {
        match self {
            GitReference::Default => String::from_str("refs/remotes/origin/HEAD"),
            GitReference::Branch(b) => String::from_str("refs/remotes/origin/").concat(b.as_str()),
            GitReference::Tag(t) => t.clone(),
            GitReference::Rev(v) => v.clone(),
        }
    }
}

} // verus!
