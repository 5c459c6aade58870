//! Layout of the fetch cache: one bare clone per remote, one checkout per
//! commit, one extracted directory per release asset, all under a cache
//! root that the caller passes in.

use vstd::prelude::*;
use crate::reference::Reference;
use crate::source::{GitHubRelease, Remote, name_of, owner_of};
use crate::text::{
    ends_with, is_suffix, last_index, lower_of, lowercase, opt_view, replace_all, replace_char,
    replace_chars, replace_str, rfind_char, views,
};

verus! {

/// The cache key of a remote: host, owner and name, each lower-cased, with
/// `.` in the host and `/` in the owner written as `_`, joined by `_`.
pub open spec fn remote_id(r: Remote) -> Option<Seq<char>> {
    match (opt_view(r.host), name_of(r.path@)) {
        (Some(h), Some(n)) => Some(
            lower_of(replace_char(h, '.', '_')) + "_"@ + lower_of(
                replace_char(owner_of(r.path@), '/', '_'),
            ) + "_"@ + lower_of(n),
        ),
        _ => None,
    }
}

/// The directory name of a remote in the cache; `None` where its URL has no
/// host or its path no repository name.
pub fn remote_id_of(remote: &Remote) -> (r: Option<String>)
    ensures
        opt_view(r) == remote_id(*remote),
{
    let host = match &remote.host {
        Some(h) => h,
        None => return None,
    };
    let name = match remote.name() {
        Some(n) => n,
        None => return None,
    };
    let owner = remote.owner();
    let id = lowercase(replace_chars(host.as_str(), '.', '_').as_str()).concat("_").concat(
        lowercase(replace_chars(owner.as_str(), '/', '_').as_str()).as_str(),
    ).concat("_").concat(lowercase(name.as_str()).as_str());
    Some(id)
}

/// The bare clone of a remote: `<cache>/git/repo/<remote id>`.
pub open spec fn repo_dir(cache: Seq<Seq<char>>, id: Seq<char>) -> Seq<Seq<char>> {
    cache + seq!["git"@, "repo"@, id]
}

/// The checkout of one commit: `<cache>/git/checkout/<remote id>/<short id>`.
pub open spec fn checkout_dir(cache: Seq<Seq<char>>, id: Seq<char>, short_id: Seq<char>) -> Seq<
    Seq<char>,
> {
    cache + seq!["git"@, "checkout"@, id, short_id]
}

/// Directory of the bare clone of `remote` under the cache root `cache`.
pub fn repo_path(cache: &Vec<String>, remote: &Remote) -> (r: Option<Vec<String>>)
    ensures
        match r {
            Some(p) => remote_id(*remote).is_some() && views(p@) == repo_dir(
                views(cache@),
                remote_id(*remote).unwrap(),
            ),
            None => remote_id(*remote).is_none(),
        },
{
    let id = match remote_id_of(remote) {
        Some(id) => id,
        None => return None,
    };
    let tail = vec![String::from_str("git"), String::from_str("repo"), id];
    let r = crate::paths::concat_paths(cache, &tail);
    proof {
        assert(views(tail@) =~= seq!["git"@, "repo"@, remote_id(*remote).unwrap()]);
    }
    Some(r)
}

/// Directory of the checkout of the commit with abbreviated id `short_id`.
pub fn checkout_path(cache: &Vec<String>, remote: &Remote, short_id: &str) -> (r: Option<
    Vec<String>,
>)
    ensures
        match r {
            Some(p) => remote_id(*remote).is_some() && views(p@) == checkout_dir(
                views(cache@),
                remote_id(*remote).unwrap(),
                short_id@,
            ),
            None => remote_id(*remote).is_none(),
        },
{
    let id = match remote_id_of(remote) {
        Some(id) => id,
        None => return None,
    };
    let tail = vec![
        String::from_str("git"),
        String::from_str("checkout"),
        id,
        String::from_str(short_id),
    ];
    let r = crate::paths::concat_paths(cache, &tail);
    proof {
        assert(views(tail@) =~= seq!["git"@, "checkout"@, remote_id(*remote).unwrap(), short_id@]);
    }
    Some(r)
}

/// A checkout of one commit of a remote: its directory in the cache and
/// the revision it is pinned to.
#[derive(Clone, Debug, PartialEq, Eq)]
pub struct Checkout {
    pub path: Vec<String>,
    pub reference: Option<Reference>,
}

/// The checkout of the commit `commit` (abbreviated `short_id`): its
/// directory, and the commit itself as the revision it is pinned to.
pub fn pinned_checkout(cache: &Vec<String>, remote: &Remote, commit: &str, short_id: &str) -> (r:
    Option<Checkout>)
    ensures
        match r {
            Some(c) => remote_id(*remote).is_some() && views(c.path@) == checkout_dir(
                views(cache@),
                remote_id(*remote).unwrap(),
                short_id@,
            ) && (c.reference matches Some(Reference::Rev(x)) && x@ == commit@),
            None => remote_id(*remote).is_none(),
        },
{
    match checkout_path(cache, remote, short_id) {
        Some(path) => Some(Checkout { path, reference: Some(Reference::Rev(String::from_str(commit))) }),
        None => None,
    }
}

/// What to do for a commit whose checkout directory is known to exist or
/// not: use it as it is, or fetch and check it out there.
#[derive(Clone, Copy, Debug, PartialEq, Eq, Structural)]
pub enum CheckoutAction {
    Reuse,
    Create,
}

/// A cached checkout is never made again: only a missing directory is
/// created.
pub open spec fn checkout_action(exists: bool) -> CheckoutAction {
    if exists {
        CheckoutAction::Reuse
    } else {
        CheckoutAction::Create
    }
}

pub fn plan_checkout(exists: bool) -> (r: CheckoutAction)
    ensures
        r == checkout_action(exists),
{
    if exists {
        CheckoutAction::Reuse
    } else {
        CheckoutAction::Create
    }
}

/// The cache's checkout directories after a fetch of the checkout at
/// `dir`, and what the fetch did there.
pub open spec fn fetch_checkout(
    dirs: Set<Seq<Seq<char>>>,
    dir: Seq<Seq<char>>,
) -> (Set<Seq<Seq<char>>>, CheckoutAction) {
    (dirs.insert(dir), checkout_action(dirs.contains(dir)))
}

/// Fetching one commit of one remote twice creates its checkout at most
/// once: both fetches compute the same directory, which the remote's cache
/// key (the same for URLs that differ only in case) and the commit's id
/// decide, and the second fetch finds what the first made and reuses it.
pub proof fn lemma_checkout_reused(
    dirs: Set<Seq<Seq<char>>>,
    cache: Seq<Seq<char>>,
    a: Remote,
    b: Remote,
    short_id: Seq<char>,
)
    requires
        remote_id(a).is_some(),
        remote_id(a) == remote_id(b),
    ensures
        ({
            let first = checkout_dir(cache, remote_id(a).unwrap(), short_id);
            let second = checkout_dir(cache, remote_id(b).unwrap(), short_id);
            let (after, _) = fetch_checkout(dirs, first);
            &&& first == second
            &&& fetch_checkout(after, second).1 == CheckoutAction::Reuse
            &&& fetch_checkout(after, second).0 == after
        }),
{
    let first = checkout_dir(cache, remote_id(a).unwrap(), short_id);
    let after = dirs.insert(first);
    assert(after.insert(first) =~= after);
}

/// The repository name that stands in for `{name}` and `{repo}`, or the
/// token itself where the URL names none.
pub open spec fn name_or(r: Remote, token: Seq<char>) -> Seq<char> {
    match name_of(r.path@) {
        Some(n) => n,
        None => token,
    }
}

/// The asset's file name with its tokens filled in.
pub open spec fn asset_name_of(r: GitHubRelease) -> Seq<char> {
    replace_all(
        replace_all(
            replace_all(
                replace_all(r.asset@, "{tag}"@, r.tag@),
                "{name}"@,
                name_or(r.repo, "{name}"@),
            ),
            "{repo}"@,
            name_or(r.repo, "{repo}"@),
        ),
        "{release}"@,
        r.tag@,
    )
}

/// The extension of the last path segment of `s`: what follows its last
/// `.`, where that `.` is not the segment's first character.
pub open spec fn extension_of(s: Seq<char>) -> Option<Seq<char>> {
    let f = s.subrange(last_index(s, '/') + 1, s.len() as int);
    let k = last_index(f, '.');
    if k <= 0 {
        None
    } else {
        Some(f.subrange(k + 1, f.len() as int))
    }
}

/// The directory name of an extracted asset: its filled-in name without the
/// extension of the asset as written.
pub open spec fn asset_dir_name(r: GitHubRelease) -> Seq<char> {
    let a = asset_name_of(r);
    match extension_of(r.asset@) {
        Some(e) => if is_suffix("."@ + e, a) {
            a.subrange(0, a.len() - e.len() - 1)
        } else {
            a
        },
        None => a,
    }
}

/// The extraction directory of a release asset:
/// `<cache>/asset/<remote id>/<tag>/<asset name>`.
pub open spec fn release_dir(cache: Seq<Seq<char>>, r: GitHubRelease) -> Seq<Seq<char>> {
    cache + seq!["asset"@, remote_id(r.repo).unwrap(), r.tag@, asset_dir_name(r)]
}

pub(crate) fn file_extension(s: &str) -> (r: Option<String>)
    ensures
        opt_view(r) == extension_of(s@),
{
    let n = s.unicode_len();
    let start: usize = match rfind_char(s, '/') {
        Some(i) => i + 1,
        None => 0,
    };
    let f = s.substring_char(start, n);
    let m = f.unicode_len();
    match rfind_char(f, '.') {
        Some(k) => {
            if k == 0 {
                None
            } else {
                Some(String::from_str(f.substring_char(k + 1, m)))
            }
        },
        None => None,
    }
}

impl GitHubRelease {
    /// The asset's file name, with `{tag}` and `{release}` replaced by the
    /// release's tag and `{name}` and `{repo}` by the repository's name.
    pub fn get_asset_name(&self) -> (r: String)
        ensures
            r@ == asset_name_of(*self),
    {
        proof {
            reveal_strlit("{tag}");
            reveal_strlit("{name}");
            reveal_strlit("{repo}");
            reveal_strlit("{release}");
        }
        let name = self.repo.name();
        let a = replace_str(self.asset.as_str(), "{tag}", self.tag.as_str());
        let a = match &name {
            Some(n) => replace_str(a.as_str(), "{name}", n.as_str()),
            None => replace_str(a.as_str(), "{name}", "{name}"),
        };
        let a = match &name {
            Some(n) => replace_str(a.as_str(), "{repo}", n.as_str()),
            None => replace_str(a.as_str(), "{repo}", "{repo}"),
        };
        replace_str(a.as_str(), "{release}", self.tag.as_str())
    }

    /// The directory under the cache root `cache` that the asset is
    /// extracted into; `None` where the remote has no cache key.
    pub fn get_path(&self, cache: &Vec<String>) -> (r: Option<Vec<String>>)
        ensures
            match r {
                Some(p) => remote_id(self.repo).is_some() && views(p@) == release_dir(
                    views(cache@),
                    *self,
                ),
                None => remote_id(self.repo).is_none(),
            },
    {
        let id = match remote_id_of(&self.repo) {
            Some(id) => id,
            None => return None,
        };
        let a = self.get_asset_name();
        let dir = match file_extension(self.asset.as_str()) {
            Some(e) => {
                proof {
                    reveal_strlit(".");
                }
                let dotted = String::from_str(".").concat(e.as_str());
                if ends_with(a.as_str(), dotted.as_str()) {
                    let n = a.as_str().unicode_len();
                    String::from_str(a.as_str().substring_char(0, n - e.as_str().unicode_len() - 1))
                } else {
                    a
                }
            },
            None => a,
        };
        let tail = vec![String::from_str("asset"), id, self.tag.clone(), dir];
        let r = crate::paths::concat_paths(cache, &tail);
        proof {
            assert(views(tail@) =~= seq![
                "asset"@,
                remote_id(self.repo).unwrap(),
                self.tag@,
                asset_dir_name(*self),
            ]);
        }
        Some(r)
    }

    /// Whether the asset must still be downloaded: only where its extraction
    /// directory holds nothing yet.
    pub fn needs_download(dir_has_entries: bool) -> (r: bool)
        ensures
            r == !dir_has_entries,
    {
        !dir_has_entries
    }
}

/// What `url::Url::set_path` makes of the URL `url` (as `Url::parse` reads
/// it) given the path `path`, written out; `None` where `url` does not parse.
pub uninterp spec fn url_with_path(url: Seq<char>, path: Seq<char>) -> Option<Seq<char>>;

/// What `url::Url::join` makes of `input` against the URL `base`, written
/// out; `None` where either does not parse.
pub uninterp spec fn url_joined(base: Seq<char>, input: Seq<char>) -> Option<Seq<char>>;

/// Relies on `url::Url::parse`, `Url::set_path` and `Url::as_str`.
#[verifier::external_body]
fn set_url_path(url: &str, path: &str) -> (r: Option<String>)
    ensures
        opt_view(r) == url_with_path(url@, path@),
{
    match url::Url::parse(url) {
        Ok(mut u) => {
            u.set_path(path);
            Some(u.as_str().to_string())
        },
        Err(_) => None,
    }
}

/// Relies on `url::Url::parse`, `Url::join` and `Url::as_str`.
#[verifier::external_body]
fn join_url(base: &str, input: &str) -> (r: Option<String>)
    ensures
        opt_view(r) == url_joined(base@, input@),
{
    match url::Url::parse(base) {
        Ok(u) => match u.join(input) {
            Ok(j) => Some(j.as_str().to_string()),
            Err(_) => None,
        },
        Err(_) => None,
    }
}

/// The download location of a release asset: the repository's
/// `<owner>/<name>/releases/download/` directory, then `<tag>/<asset>`.
pub open spec fn asset_url_of(r: GitHubRelease) -> Option<Seq<char>> {
    match name_of(r.repo.path@) {
        None => None,
        Some(n) => match url_with_path(
            r.repo.url@,
            owner_of(r.repo.path@) + "/"@ + n + "/releases/download/"@,
        ) {
            None => None,
            Some(base) => url_joined(base, r.tag@ + "/"@ + asset_name_of(r)),
        },
    }
}

impl GitHubRelease {
    /// Where the asset is downloaded from; `None` where the repository URL
    /// names no repository or the location does not form a URL.
    pub fn asset_url(&self) -> (r: Option<String>)
        ensures
            opt_view(r) == asset_url_of(*self),
    {
        let name = match self.repo.name() {
            Some(n) => n,
            None => return None,
        };
        let path = self.repo.owner().concat("/").concat(name.as_str()).concat("/releases/download/");
        let base = match set_url_path(self.repo.url.as_str(), path.as_str()) {
            Some(b) => b,
            None => return None,
        };
        let input = self.tag.clone().concat("/").concat(self.get_asset_name().as_str());
        join_url(base.as_str(), input.as_str())
    }
}

} // verus!
