//! How a dependency is written down from what a user asks for: a location
//! (a repository URL or a directory), an optional addon name, and a
//! revision or a release asset.

use vstd::prelude::*;
use crate::dependency::{Dependency, Hook, copy_remote, same_source};
use crate::paths::{copy_path, relative_path, relative_path_of};
use crate::reference::Reference;
use crate::source::{GitHubRelease, GitSource, Remote, Source, source_name};
use crate::text::{opt_view, views};

verus! {

/// A revision of a repository: at most one of a branch, a commit and a tag.
#[derive(Clone, Debug, Default, PartialEq, Eq)]
pub struct GitRevArgs {
    pub branch: Option<String>,
    pub rev: Option<String>,
    pub tag: Option<String>,
}

/// A release and one of its assets.
#[derive(Clone, Debug, Default, PartialEq, Eq)]
pub struct ReleaseArgs {
    pub release: Option<String>,
    pub asset: Option<String>,
}

/// Where an addon is: a repository URL or a directory.
#[derive(Clone, Debug, PartialEq, Eq)]
pub enum Uri {
    Url(Remote),
    Path(Vec<String>),
}

/// The revision a set of revision arguments selects: a commit first, then
/// a tag, then a branch.
pub open spec fn selected_reference(a: GitRevArgs) -> Option<Reference> {
    if a.rev.is_some() {
        Some(Reference::Rev(a.rev.unwrap()))
    } else if a.tag.is_some() {
        Some(Reference::Tag(a.tag.unwrap()))
    } else if a.branch.is_some() {
        Some(Reference::Branch(a.branch.unwrap()))
    } else {
        None
    }
}

impl GitRevArgs {
    /// The revision selected: a commit before a tag before a branch.
    pub fn reference(&self) -> (r: Option<Reference>)
        ensures
            crate::dependency::same_reference(r, selected_reference(*self)),
    {
        match (&self.rev, &self.tag, &self.branch) {
            (Some(v), _, _) => Some(Reference::Rev(v.clone())),
            (None, Some(t), _) => Some(Reference::Tag(t.clone())),
            (None, None, Some(b)) => Some(Reference::Branch(b.clone())),
            (None, None, None) => None,
        }
    }
}

/// The source that a location and its arguments name: a release asset
/// where both a release and an asset are given, else a revision.
pub open spec fn args_source(uri: Uri, rev: GitRevArgs, release: ReleaseArgs) -> Source {
    match uri {
        Uri::Path(p) => Source::Path { path: p },
        Uri::Url(repo) => if release.release.is_some() && release.asset.is_some() {
            Source::Release(
                GitHubRelease { repo, tag: release.release.unwrap(), asset: release.asset.unwrap() },
            )
        } else {
            Source::Git(GitSource { reference: selected_reference(rev), repo })
        },
    }
}

impl Uri {
    /// A directory location written relative to `base` (both canonical); a
    /// URL stays as it is.
    pub fn relative_to(&mut self, base: &Vec<String>)
        ensures
            match *old(self) {
                Uri::Path(p) => *final(self) is Path && views((*final(self))->Path_0@)
                    == relative_path_of(views(p@), views(base@)),
                Uri::Url(u) => *final(self) == *old(self),
            },
    {
        let next = match self {
            Uri::Path(p) => Some(relative_path(p, base)),
            Uri::Url(_) => None,
        };
        match next {
            Some(p) => {
                *self = Uri::Path(p);
            },
            None => {},
        }
    }
}

proof fn lemma_same_source_name(a: Source, b: Source)
    requires
        same_source(a, b),
    ensures
        source_name(a) == source_name(b),
{
    match (a, b) {
        (Source::Path { path: x }, Source::Path { path: y }) => {
            assert(views(x@).len() == x@.len());
            assert(views(y@).len() == y@.len());
            if x@.len() > 0 {
                assert(views(x@)[x@.len() - 1] == x@[x@.len() - 1]@);
                assert(views(y@)[y@.len() - 1] == y@[y@.len() - 1]@);
            }
        },
        _ => {},
    }
}

/// The dependency that a user's arguments describe: its addon name is the
/// name given, else the name of the source's project.
pub fn dependency_from_args(uri: &Uri, name: &Option<String>, rev: &GitRevArgs, release: &ReleaseArgs) -> (r:
    Dependency)
    ensures
        same_source(r.source, args_source(*uri, *rev, *release)),
        opt_view(r.addon) == (if name.is_some() {
            opt_view(*name)
        } else {
            source_name(args_source(*uri, *rev, *release))
        }),
        r.included_from.is_none(),
        r.replace.is_none(),
        r.hooks.pre.is_none() && r.hooks.post.is_none(),
{
    let source = match uri {
        Uri::Path(p) => Source::Path { path: copy_path(p) },
        Uri::Url(repo) => match (&release.release, &release.asset) {
            (Some(tag), Some(asset)) => Source::Release(
                GitHubRelease { repo: copy_remote(repo), tag: tag.clone(), asset: asset.clone() },
            ),
            _ => Source::Git(GitSource { reference: rev.reference(), repo: copy_remote(repo) }),
        },
    };
    let addon = match name {
        Some(n) => Some(n.clone()),
        None => source.name(),
    };
    proof {
        assert(same_source(source, args_source(*uri, *rev, *release)));
        lemma_same_source_name(source, args_source(*uri, *rev, *release));
    }
    Dependency {
        addon,
        included_from: None,
        replace: None,
        source,
        hooks: Hook { pre: None, post: None },
    }
}


/// The keys of a manifest entry that say where an addon comes from.
#[derive(Clone, Debug, Default, PartialEq, Eq)]
pub struct SourceFields {
    pub path: Option<Vec<String>>,
    pub git: Option<String>,
    pub branch: Option<String>,
    pub rev: Option<String>,
    pub tag: Option<String>,
    pub release: Option<String>,
    pub asset: Option<String>,
}

/// Why a manifest entry names no source.
#[derive(Clone, Debug, PartialEq, Eq)]
pub enum SourceError {
    /// The keys mix the shapes of different sources, or name none.
    Mixed,
    /// The repository is no URL.
    InvalidUrl(String),
}

pub open spec fn revision_count(f: SourceFields) -> int {
    (if f.branch.is_some() { 1int } else { 0int }) + (if f.rev.is_some() { 1int } else { 0int }) + (
    if f.tag.is_some() {
        1int
    } else {
        0int
    })
}

/// A directory alone; or a repository with a release and an asset; or a
/// repository with at most one of a branch, a commit and a tag.
pub open spec fn path_shape(f: SourceFields) -> bool {
    f.path.is_some() && f.git.is_none() && revision_count(f) == 0 && f.release.is_none()
        && f.asset.is_none()
}

pub open spec fn release_shape(f: SourceFields) -> bool {
    f.path.is_none() && f.git.is_some() && revision_count(f) == 0 && f.release.is_some()
        && f.asset.is_some()
}

pub open spec fn git_shape(f: SourceFields) -> bool {
    f.path.is_none() && f.git.is_some() && revision_count(f) <= 1 && f.release.is_none()
        && f.asset.is_none()
}

impl SourceFields {
    /// The source an entry describes. Exactly one shape must fit: anything
    /// else is `Mixed`, and a repository that is no URL is `InvalidUrl`.
    pub fn source(&self) -> (r: Result<Source, SourceError>)
        ensures
            r is Ok <==> (path_shape(*self) || ((release_shape(*self) || git_shape(*self))
                && crate::source::url_parts(self.git.unwrap()@).is_some())),
            (r is Err && r->Err_0 is Mixed) <==> !(path_shape(*self) || release_shape(*self)
                || git_shape(*self)),
            r is Ok ==> match r->Ok_0 {
                Source::Path { path } => path_shape(*self) && views(path@) == views(
                    self.path.unwrap()@,
                ),
                Source::Release(rel) => release_shape(*self) && rel.tag@ == self.release.unwrap()@
                    && rel.asset@ == self.asset.unwrap()@ && rel.repo.url@ == crate::source::url_parts(
                    self.git.unwrap()@,
                ).unwrap().0,
                Source::Git(g) => git_shape(*self) && crate::dependency::same_reference(
                    g.reference,
                    selected_reference(
                        GitRevArgs { branch: self.branch, rev: self.rev, tag: self.tag },
                    ),
                ) && g.repo.url@ == crate::source::url_parts(self.git.unwrap()@).unwrap().0,
            },
    {
        let revisions: u8 = (if self.branch.is_some() { 1u8 } else { 0u8 }) + (if self.rev.is_some() {
            1u8
        } else {
            0u8
        }) + (if self.tag.is_some() { 1u8 } else { 0u8 });
        let no_release = self.release.is_none() && self.asset.is_none();
        match (&self.path, &self.git) {
            (Some(p), None) => {
                if revisions == 0 && no_release {
                    Ok(Source::Path { path: copy_path(p) })
                } else {
                    Err(SourceError::Mixed)
                }
            },
            (None, Some(g)) => {
                let releases = self.release.is_some() && self.asset.is_some() && revisions == 0;
                let revision = no_release && revisions <= 1;
                if !releases && !revision {
                    return Err(SourceError::Mixed);
                }
                let repo = match Remote::parse(g.as_str()) {
                    Some(r) => r,
                    None => return Err(SourceError::InvalidUrl(g.clone())),
                };
                if releases {
                    Ok(
                        Source::Release(
                            GitHubRelease {
                                repo,
                                tag: self.release.as_ref().unwrap().clone(),
                                asset: self.asset.as_ref().unwrap().clone(),
                            },
                        ),
                    )
                } else {
                    let args = GitRevArgs {
                        branch: crate::dependency::copy_opt_str(&self.branch),
                        rev: crate::dependency::copy_opt_str(&self.rev),
                        tag: crate::dependency::copy_opt_str(&self.tag),
                    };
                    let reference = args.reference();
                    proof {
                        assert(crate::dependency::same_reference(
                            selected_reference(args),
                            selected_reference(
                                GitRevArgs { branch: self.branch, rev: self.rev, tag: self.tag },
                            ),
                        ));
                    }
                    Ok(Source::Git(GitSource { reference, repo }))
                }
            },
            _ => Err(SourceError::Mixed),
        }
    }
}

} // verus!
