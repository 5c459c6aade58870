//! Where a dependency comes from: a remote repository, a revision or a
//! release of it, or a directory on disk.

use vstd::prelude::*;
use crate::reference::Reference;
use crate::text::{
    first_index, find_char, opt_view, starts_with, strip_leading, strip_trailing, trim_char,
};

verus! {

/// A remote git repository, by the parts of its URL that the cache layout
/// reads: the URL as written out, its host (if any) and its path.
#[derive(Clone, Debug, PartialEq, Eq, Hash)]
pub struct Remote {
    pub url: String,
    pub host: Option<String>,
    pub path: String,
}

/// What `url::Url::parse` makes of a text: its serialization, host and path.
pub uninterp spec fn url_parts(s: Seq<char>) -> Option<(Seq<char>, Option<Seq<char>>, Seq<char>)>;

/// Relies on `url::Url::parse`, `Url::as_str`, `Url::host_str` and
/// `Url::path`: `None` where the text is no absolute URL.
#[verifier::external_body]
fn parse_url(s: &str) -> (r: Option<(String, Option<String>, String)>)
    ensures
        r.is_some() == url_parts(s@).is_some(),
        r.is_some() ==> r.unwrap().0@ == url_parts(s@).unwrap().0 && opt_view(r.unwrap().1)
            == url_parts(s@).unwrap().1 && r.unwrap().2@ == url_parts(s@).unwrap().2,
{
    match url::Url::parse(s) {
        Ok(u) => {
            let host = match u.host_str() {
                Some(h) => Some(h.to_string()),
                None => None,
            };
            Some((u.as_str().to_string(), host, u.path().to_string()))
        },
        Err(_) => None,
    }
}

/// The path of a URL with its leading and trailing slashes removed.
pub open spec fn trimmed_path(path: Seq<char>) -> Seq<char> {
    strip_trailing(strip_leading(path, '/'), '/')
}

/// The first segment of a URL path: the repository's owner.
pub open spec fn owner_of(path: Seq<char>) -> Seq<char> {
    let t = trimmed_path(path);
    t.subrange(0, first_index(t, '/') as int)
}

/// `s` without a trailing `.git`.
pub open spec fn strip_git(s: Seq<char>) -> Seq<char> {
    if s.len() >= 4 && s.subrange(s.len() - 4, s.len() as int) == ".git"@ {
        s.subrange(0, s.len() - 4)
    } else {
        s
    }
}

/// The second segment of a URL path, without `.git`: the repository's name.
pub open spec fn name_of(path: Seq<char>) -> Option<Seq<char>> {
    let t = trimmed_path(path);
    let i = first_index(t, '/');
    if i == t.len() {
        None
    } else {
        let rest = t.subrange(i as int + 1, t.len() as int);
        Some(strip_git(rest.subrange(0, first_index(rest, '/') as int)))
    }
}

/// `s` without a trailing `.git`.
fn strip_git_suffix(s: &str) -> (r: &str)
    ensures
        r@ == strip_git(s@),
{
    let n = s.unicode_len();
    if n >= 4 && starts_with(s.substring_char(n - 4, n), ".git") {
        proof {
            reveal_strlit(".git");
            assert(s@.subrange(n - 4, n as int).subrange(0, 4) =~= s@.subrange(n - 4, n as int));
        }
        s.substring_char(0, n - 4)
    } else {
        proof {
            reveal_strlit(".git");
            if n >= 4 {
                assert(s@.subrange(n - 4, n as int).subrange(0, 4) =~= s@.subrange(n - 4, n as int));
            }
        }
        s
    }
}

impl Remote {
    /// Parses an absolute URL; `None` where `s` is not one.
    pub fn parse(s: &str) -> (r: Option<Remote>)
        ensures
            r.is_some() == url_parts(s@).is_some(),
            r.is_some() ==> r.unwrap().url@ == url_parts(s@).unwrap().0 && opt_view(r.unwrap().host)
                == url_parts(s@).unwrap().1 && r.unwrap().path@ == url_parts(s@).unwrap().2,
    {
        match parse_url(s) {
            Some((url, host, path)) => Some(Remote { url, host, path }),
            None => None,
        }
    }

    /// The host of the repository's URL.
    pub fn host(&self) -> (r: Option<String>)
        ensures
            opt_view(r) == opt_view(self.host),
    {
        match &self.host {
            Some(h) => Some(h.clone()),
            None => None,
        }
    }

    /// The repository's owner: the first segment of the URL's path.
    pub fn owner(&self) -> (r: String)
        ensures
            r@ == owner_of(self.path@),
    {
        let t = trim_char(self.path.as_str(), '/');
        let i = find_char(t, '/');
        String::from_str(t.substring_char(0, i))
    }

    /// The repository's name: the second segment of the URL's path, without
    /// a `.git` suffix; `None` where the path has a single segment.
    pub fn name(&self) -> (r: Option<String>)
        ensures
            opt_view(r) == name_of(self.path@),
    {
        let t = trim_char(self.path.as_str(), '/');
        let n = t.unicode_len();
        let i = find_char(t, '/');
        if i == n {
            return None;
        }
        let rest = t.substring_char(i + 1, n);
        let j = find_char(rest, '/');
        Some(String::from_str(strip_git_suffix(rest.substring_char(0, j))))
    }

    /// The URL as written out, without trailing slashes.
    pub fn display(&self) -> (r: String)
        ensures
            r@ == strip_trailing(self.url@, '/'),
    {
        let s = self.url.as_str();
        let n = s.unicode_len();
        let mut hi: usize = n;
        proof {
            assert(s@.subrange(0, n as int) =~= s@);
        }
        while hi > 0 && s.get_char(hi - 1) == '/'
            invariant
                n == s@.len(),
                hi <= n,
                strip_trailing(s@, '/') == strip_trailing(s@.subrange(0, hi as int), '/'),
            decreases hi,
        {
            proof {
                assert(s@.subrange(0, hi as int).drop_last() =~= s@.subrange(0, hi - 1));
            }
            hi -= 1;
        }
        String::from_str(s.substring_char(0, hi))
    }
}

/// A revision of a remote repository.
#[derive(Clone, Debug, PartialEq, Eq, Hash)]
pub struct GitSource {
    pub reference: Option<Reference>,
    pub repo: Remote,
}

/// A release asset of a hosted repository: the release's tag and the file
/// name of the asset, which may hold `{tag}`, `{name}`, `{repo}` and
/// `{release}`.
#[derive(Clone, Debug, PartialEq, Eq, Hash)]
pub struct GitHubRelease {
    pub repo: Remote,
    pub tag: String,
    pub asset: String,
}

/// Where the content of a dependency comes from.
#[derive(Clone, Debug, PartialEq, Eq, Hash)]
pub enum Source {
    Release(GitHubRelease),
    Git(GitSource),
    Path { path: Vec<String> },
}

/// The name a source gives its project: the repository's name, or the last
/// component of a directory.
pub open spec fn source_name(s: Source) -> Option<Seq<char>> {
    match s {
        Source::Release(r) => name_of(r.repo.path@),
        Source::Git(g) => name_of(g.repo.path@),
        Source::Path { path } => if path@.len() == 0 {
            None
        } else {
            Some(path@.last()@)
        },
    }
}

impl Source {
    /// The name of the source's project, used where a dependency gives no
    /// addon name of its own.
    pub fn name(&self) -> (r: Option<String>)
        ensures
            opt_view(r) == source_name(*self),
    {
        match self {
            Source::Release(r) => r.repo.name(),
            Source::Git(g) => g.repo.name(),
            Source::Path { path } => {
                if path.len() == 0 {
                    None
                } else {
                    Some(path[path.len() - 1].clone())
                }
            },
        }
    }
}

} // verus!
