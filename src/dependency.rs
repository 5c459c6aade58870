//! Dependencies as a manifest declares them, their install hooks, and the
//! containment rule for dependencies that name a directory on disk.

use vstd::prelude::*;
use crate::paths::{copy_path, is_within, joined, join_path, path_prefix, same_path, str_eq};
use crate::reference::Reference;
use crate::source::{GitHubRelease, GitSource, Remote, Source};
use crate::text::{opt_view, views};

verus! {

/// Shell commands run in an addon's install directory before and after its
/// files are put in place.
#[derive(Clone, Debug, Default, PartialEq, Eq, Hash)]
pub struct Hook {
    pub pre: Option<String>,
    pub post: Option<String>,
}

/// A hook command that ran and did not succeed.
#[derive(Clone, Debug, PartialEq, Eq)]
pub enum HookError {
    Failed(Option<i32>),
}

/// The command line that runs `script` through the shell.
pub open spec fn shell_argv(script: Seq<char>) -> Seq<Seq<char>> {
    seq!["sh"@, "-c"@, script]
}

fn shell_command(script: &String) -> (r: Vec<String>)
    ensures
        views(r@) == shell_argv(script@),
{
    let r = vec![String::from_str("sh"), String::from_str("-c"), script.clone()];
    proof {
        assert(views(r@) =~= shell_argv(script@));
    }
    r
}

impl Hook {
    /// The command line of the pre-install hook, if there is one.
    pub fn run_pre(&self) -> (r: Option<Vec<String>>)
        ensures
            r.is_some() == self.pre.is_some(),
            r.is_some() ==> views(r.unwrap()@) == shell_argv(self.pre.unwrap()@),
    {
        match &self.pre {
            Some(s) => Some(shell_command(s)),
            None => None,
        }
    }

    /// The command line of the post-install hook, if there is one.
    pub fn run_post(&self) -> (r: Option<Vec<String>>)
        ensures
            r.is_some() == self.post.is_some(),
            r.is_some() ==> views(r.unwrap()@) == shell_argv(self.post.unwrap()@),
    {
        match &self.post {
            Some(s) => Some(shell_command(s)),
            None => None,
        }
    }

    /// The outcome of a hook command from its exit status: a failure stops
    /// the install.
    pub fn check_status(success: bool, code: Option<i32>) -> (r: Result<(), HookError>)
        ensures
            r.is_ok() == success,
            !success ==> r == Err::<(), HookError>(HookError::Failed(code)),
    {
        if success {
            Ok(())
        } else {
            Err(HookError::Failed(code))
        }
    }
}

/// A declared requirement on an addon.
#[derive(Clone, Debug, PartialEq, Eq, Hash)]
pub struct Dependency {
    /// The addon's name; every dependency needs one before it is resolved.
    pub addon: Option<String>,
    /// The directory of the manifest that declared the dependency; a
    /// relative `Path` source is read from there.
    pub included_from: Option<Vec<String>>,
    /// The name of an addon that this one stands in for.
    pub replace: Option<String>,
    pub source: Source,
    pub hooks: Hook,
}

pub open spec fn opt_path(p: Option<Vec<String>>) -> Option<Seq<Seq<char>>> {
    match p {
        Some(v) => Some(views(v@)),
        None => None,
    }
}

pub open spec fn same_remote(a: Remote, b: Remote) -> bool {
    a.url@ == b.url@ && opt_view(a.host) == opt_view(b.host) && a.path@ == b.path@
}

pub open spec fn same_reference(a: Option<Reference>, b: Option<Reference>) -> bool {
    match (a, b) {
        (None, None) => true,
        (Some(Reference::Branch(x)), Some(Reference::Branch(y))) => x@ == y@,
        (Some(Reference::Rev(x)), Some(Reference::Rev(y))) => x@ == y@,
        (Some(Reference::Tag(x)), Some(Reference::Tag(y))) => x@ == y@,
        _ => false,
    }
}

pub open spec fn same_source(a: Source, b: Source) -> bool {
    match (a, b) {
        (Source::Release(x), Source::Release(y)) => same_remote(x.repo, y.repo) && x.tag@ == y.tag@
            && x.asset@ == y.asset@,
        (Source::Git(x), Source::Git(y)) => same_remote(x.repo, y.repo) && same_reference(
            x.reference,
            y.reference,
        ),
        (Source::Path { path: x }, Source::Path { path: y }) => views(x@) == views(y@),
        _ => false,
    }
}

/// Two dependencies written identically: every field holds the same text.
pub open spec fn same_dependency(a: Dependency, b: Dependency) -> bool {
    &&& opt_view(a.addon) == opt_view(b.addon)
    &&& opt_path(a.included_from) == opt_path(b.included_from)
    &&& opt_view(a.replace) == opt_view(b.replace)
    &&& same_source(a.source, b.source)
    &&& opt_view(a.hooks.pre) == opt_view(b.hooks.pre)
    &&& opt_view(a.hooks.post) == opt_view(b.hooks.post)
}

fn same_opt_str(a: &Option<String>, b: &Option<String>) -> (r: bool)
    ensures
        r == (opt_view(*a) == opt_view(*b)),
{
    match (a, b) {
        (Some(x), Some(y)) => str_eq(x, y),
        (None, None) => true,
        _ => false,
    }
}

fn same_remote_exec(a: &Remote, b: &Remote) -> (r: bool)
    ensures
        r == same_remote(*a, *b),
{
    str_eq(&a.url, &b.url) && same_opt_str(&a.host, &b.host) && str_eq(&a.path, &b.path)
}

fn same_reference_exec(a: &Option<Reference>, b: &Option<Reference>) -> (r: bool)
    ensures
        r == same_reference(*a, *b),
{
    match (a, b) {
        (None, None) => true,
        (Some(Reference::Branch(x)), Some(Reference::Branch(y))) => str_eq(x, y),
        (Some(Reference::Rev(x)), Some(Reference::Rev(y))) => str_eq(x, y),
        (Some(Reference::Tag(x)), Some(Reference::Tag(y))) => str_eq(x, y),
        _ => false,
    }
}

fn same_source_exec(a: &Source, b: &Source) -> (r: bool)
    ensures
        r == same_source(*a, *b),
{
    match (a, b) {
        (Source::Release(x), Source::Release(y)) => same_remote_exec(&x.repo, &y.repo) && str_eq(
            &x.tag,
            &y.tag,
        ) && str_eq(&x.asset, &y.asset),
        (Source::Git(x), Source::Git(y)) => same_remote_exec(&x.repo, &y.repo)
            && same_reference_exec(&x.reference, &y.reference),
        (Source::Path { path: x }, Source::Path { path: y }) => same_path(x, y),
        _ => false,
    }
}

/// Where a `Path` source was found outside the directory it was declared
/// in, or could not be read.
#[derive(Clone, Debug, PartialEq, Eq)]
pub enum DependencyError {
    InsecurePath(Vec<String>),
    InvalidPath(Vec<String>),
    MissingPath,
    NotFound(Vec<String>),
}

impl Dependency {
    /// Whether `self` and `other` are written identically.
    pub fn same_as(&self, other: &Dependency) -> (r: bool)
        ensures
            r == same_dependency(*self, *other),
    {
        let from = match (&self.included_from, &other.included_from) {
            (Some(x), Some(y)) => same_path(x, y),
            (None, None) => true,
            _ => false,
        };
        same_opt_str(&self.addon, &other.addon) && from && same_opt_str(
            &self.replace,
            &other.replace,
        ) && same_source_exec(&self.source, &other.source) && same_opt_str(
            &self.hooks.pre,
            &other.hooks.pre,
        ) && same_opt_str(&self.hooks.post, &other.hooks.post)
    }

    /// The directory that a `Path` source names: the path itself where it
    /// is absolute, else the path under the directory the dependency was
    /// declared in. `None` for other sources.
    pub fn local_path(&self) -> (r: Option<Result<Vec<String>, DependencyError>>)
        ensures
            match self.source {
                Source::Path { path } => match self.included_from {
                    Some(root) => r.is_some() && r.unwrap().is_ok() && views(r.unwrap().unwrap()@)
                        == joined(views(root@), views(path@)),
                    None => r == Some(Err::<Vec<String>, DependencyError>(DependencyError::MissingPath)),
                },
                _ => r.is_none(),
            },
    {
        match &self.source {
            Source::Path { path } => match &self.included_from {
                Some(root) => Some(Ok(join_path(root, path))),
                None => Some(Err(DependencyError::MissingPath)),
            },
            _ => None,
        }
    }
}

/// A `Path` source is accepted only where its canonical form lies under the
/// canonical form of the directory the dependency was declared in; the
/// check is on canonical paths so that a symbolic link cannot lead out.
pub fn check_rooted(root: &Vec<String>, canonical: &Vec<String>) -> (r: Result<
    Vec<String>,
    DependencyError,
>)
    ensures
        r.is_ok() == path_prefix(views(root@), views(canonical@)),
        r.is_ok() ==> views(r.unwrap()@) == views(canonical@),
        !r.is_ok() ==> (r matches Err(DependencyError::InsecurePath(p)) && views(p@) == views(
            canonical@,
        )),
{
    if is_within(root, canonical) {
        Ok(copy_path(canonical))
    } else {
        Err(DependencyError::InsecurePath(copy_path(canonical)))
    }
}

pub(crate) fn copy_opt_str(a: &Option<String>) -> (r: Option<String>)
    ensures
        opt_view(r) == opt_view(*a),
{
    match a {
        Some(s) => Some(s.clone()),
        None => None,
    }
}

pub(crate) fn copy_remote(a: &Remote) -> (r: Remote)
    ensures
        same_remote(r, *a),
{
    Remote { url: a.url.clone(), host: copy_opt_str(&a.host), path: a.path.clone() }
}

fn copy_reference(a: &Option<Reference>) -> (r: Option<Reference>)
    ensures
        same_reference(r, *a),
{
    match a {
        None => None,
        Some(Reference::Branch(x)) => Some(Reference::Branch(x.clone())),
        Some(Reference::Rev(x)) => Some(Reference::Rev(x.clone())),
        Some(Reference::Tag(x)) => Some(Reference::Tag(x.clone())),
    }
}

pub(crate) fn copy_source(a: &Source) -> (r: Source)
    ensures
        same_source(r, *a),
{
    match a {
        Source::Release(x) => Source::Release(
            GitHubRelease { repo: copy_remote(&x.repo), tag: x.tag.clone(), asset: x.asset.clone() },
        ),
        Source::Git(x) => Source::Git(
            GitSource { reference: copy_reference(&x.reference), repo: copy_remote(&x.repo) },
        ),
        Source::Path { path } => Source::Path { path: copy_path(path) },
    }
}

/// `a` and `b` are written identically but for the directory they were
/// declared in.
pub open spec fn same_but_root(a: Dependency, b: Dependency) -> bool {
    &&& opt_view(a.addon) == opt_view(b.addon)
    &&& opt_view(a.replace) == opt_view(b.replace)
    &&& same_source(a.source, b.source)
    &&& opt_view(a.hooks.pre) == opt_view(b.hooks.pre)
    &&& opt_view(a.hooks.post) == opt_view(b.hooks.post)
}

impl Dependency {
    /// The same dependency, declared in the directory `root`.
    pub fn rooted_at(&self, root: &Vec<String>) -> (r: Dependency)
        ensures
            same_but_root(r, *self),
            opt_path(r.included_from) == Some(views(root@)),
    {
        Dependency {
            addon: copy_opt_str(&self.addon),
            included_from: Some(copy_path(root)),
            replace: copy_opt_str(&self.replace),
            source: copy_source(&self.source),
            hooks: Hook { pre: copy_opt_str(&self.hooks.pre), post: copy_opt_str(&self.hooks.post) },
        }
    }
}

impl Dependency {
    /// A copy of the dependency, written identically.
    pub fn copy(&self) -> (r: Dependency)
        ensures
            same_dependency(r, *self),
    {
        Dependency {
            addon: copy_opt_str(&self.addon),
            included_from: match &self.included_from {
                Some(p) => Some(copy_path(p)),
                None => None,
            },
            replace: copy_opt_str(&self.replace),
            source: copy_source(&self.source),
            hooks: Hook { pre: copy_opt_str(&self.hooks.pre), post: copy_opt_str(&self.hooks.post) },
        }
    }
}

} // verus!
