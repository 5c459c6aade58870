//! The resolved set of addons and the rules that merge a newly located
//! addon into it: one install per addon name (versions of one major line
//! merge to the highest), and one addon per install subfolder.

use vstd::prelude::*;
use std::collections::VecDeque;
use crate::dependency::{Dependency, Hook, same_but_root, same_dependency};
use crate::manifest::{
    Manifest, ManifestError, Section, dep_at, entry_refs, kept, kept_upto, overridden, query_at,
    refs_upto, selected_as, selects_cleanly, visible,
};
use crate::paths::str_eq;
use crate::text::views;
use crate::version::{Version, triple_less, version_less};

verus! {

/// A located addon: its root directory, its own manifest (if any), the
/// subfolder it installs into, its version (if known) and its hooks.
#[derive(Clone, Debug, PartialEq, Eq)]
pub struct Addon {
    pub manifest: Option<Manifest>,
    pub path: Vec<String>,
    pub subfolder: String,
    pub version: Option<Version>,
    pub hooks: Hook,
}

/// An addon accepted for installation, with its name and the dependency
/// that brought it in.
#[derive(Clone, Debug, PartialEq, Eq)]
pub struct Resolved {
    pub name: String,
    pub addon: Addon,
    pub dependency: Dependency,
}

/// Why the addon set cannot be resolved.
#[derive(Clone, Debug, PartialEq, Eq)]
pub enum ResolveError {
    /// The addon is required twice in ways that cannot be reconciled: the
    /// accepted version, then the other one.
    IncompatibleVersions(String, Option<Version>, Option<Version>),
    /// The subfolder, the addon that asked for it, and the addon that holds it.
    SubfolderCollision(String, String, String),
    /// A dependency without an addon name.
    MissingName,
    Manifest(ManifestError),
    /// `accept` was called with no dependency taken from the queue.
    NothingPending,
}

/// What happened to an addon offered to the set.
#[derive(Clone, Copy, Debug, PartialEq, Eq, Structural)]
pub enum Merge {
    /// A new name: the addon was added.
    Added,
    /// The addon replaced the lower version held under its name.
    Replaced,
    /// The set already holds this addon or a version at least as high.
    Kept,
}

/// The resolved addons, at most one per name and one per subfolder: the
/// map from addon name to addon and dependency, and the map from subfolder
/// to addon name, both read off one list whose invariant keeps names and
/// subfolders unique. (A map keyed by `String` is not one whose contents
/// Verus can follow; the list states the same facts.)
#[derive(Clone, Debug, PartialEq, Eq)]
pub struct ResolvedSet {
    pub entries: Vec<Resolved>,
}

pub open spec fn names_unique(s: Seq<Resolved>) -> bool {
    forall|i: int, j: int| 0 <= i < j < s.len() ==> (#[trigger] s[i]).name@ != (#[trigger] s[j]).name@
}

pub open spec fn subfolders_unique(s: Seq<Resolved>) -> bool {
    forall|i: int, j: int|
        0 <= i < j < s.len() ==> (#[trigger] s[i]).addon.subfolder@ != (#[trigger] s[j]).addon.subfolder@
}

/// The position of the entry named `name`, if any.
pub open spec fn position(s: Seq<Resolved>, name: Seq<char>) -> Option<int> {
    if exists|i: int| 0 <= i < s.len() && (#[trigger] s[i]).name@ == name {
        Some(choose|i: int| 0 <= i < s.len() && (#[trigger] s[i]).name@ == name)
    } else {
        None
    }
}

/// Another addon than `name` installs into `subfolder`.
pub open spec fn claimed_by_other(s: Seq<Resolved>, name: Seq<char>, subfolder: Seq<char>) -> bool {
    exists|i: int|
        0 <= i < s.len() && (#[trigger] s[i]).name@ != name && s[i].addon.subfolder@ == subfolder
}

/// The held entry `e` and a newly located `addon` for the same name cannot
/// both stand: an unversioned entry admits only an identical dependency; a
/// versioned one only a version of the same major line.
pub open spec fn incompatible(e: Resolved, addon: Addon, dep: Dependency) -> bool {
    match e.addon.version {
        None => !same_dependency(dep, e.dependency),
        Some(vp) => match addon.version {
            None => true,
            Some(vn) => vp.major != vn.major,
        },
    }
}

/// The new addon ranks above the held entry: both have versions and the
/// new one has the higher precedence.
pub open spec fn ranks_above(e: Resolved, addon: Addon) -> bool {
    match (e.addon.version, addon.version) {
        (Some(vp), Some(vn)) => version_less(vp, vn),
        _ => false,
    }
}

/// The versions an `IncompatibleVersions` error carries: none where the
/// held addon has no version; the held one second where the new addon has
/// none; else the held one, then the new one.
pub open spec fn conflict_versions(held: Option<Version>, new: Option<Version>) -> (
    Option<Version>,
    Option<Version>,
) {
    match held {
        None => (None, None),
        Some(vp) => match new {
            None => (None, Some(vp)),
            Some(vn) => (Some(vp), Some(vn)),
        },
    }
}

/// `r` refuses the addon because another name holds its subfolder, and
/// names the subfolder, the addon, and the holder.
pub open spec fn collision(
    s: Seq<Resolved>,
    name: Seq<char>,
    addon: Addon,
    r: Result<Merge, ResolveError>,
) -> bool {
    r matches Err(ResolveError::SubfolderCollision(sf, n, o)) && sf@ == addon.subfolder@ && n@ == name
        && o@ != name && exists|i: int|
        0 <= i < s.len() && (#[trigger] s[i]).name@ == o@ && s[i].addon.subfolder@ == addon.subfolder@
}

/// `r` is the outcome of offering `addon`, located for `dep`, under `name`
/// to the entries `s`: a new name is added unless another addon holds its
/// subfolder; an incompatible requirement is refused with both versions; a
/// version that ranks above the held one of its major line replaces it
/// (subfolder permitting); anything else keeps what is held.
pub open spec fn merge_outcome(
    s: Seq<Resolved>,
    name: Seq<char>,
    addon: Addon,
    dep: Dependency,
    r: Result<Merge, ResolveError>,
) -> bool {
    match position(s, name) {
        None => if claimed_by_other(s, name, addon.subfolder@) {
            collision(s, name, addon, r)
        } else {
            r == Ok::<Merge, ResolveError>(Merge::Added)
        },
        Some(i) => {
            let e = s[i];
            if incompatible(e, addon, dep) {
                r matches Err(ResolveError::IncompatibleVersions(n, a, b)) && n@ == name && (a, b)
                    == conflict_versions(e.addon.version, addon.version)
            } else if ranks_above(e, addon) {
                if claimed_by_other(s, name, addon.subfolder@) {
                    collision(s, name, addon, r)
                } else {
                    r == Ok::<Merge, ResolveError>(Merge::Replaced)
                }
            } else {
                r == Ok::<Merge, ResolveError>(Merge::Kept)
            }
        },
    }
}

impl ResolvedSet {
    pub open spec fn wf(&self) -> bool {
        names_unique(self.entries@) && subfolders_unique(self.entries@)
    }

    /// The set with nothing in it.
    pub fn new() -> (r: ResolvedSet)
        ensures
            r.wf(),
            r.entries@.len() == 0,
    {
        ResolvedSet { entries: Vec::new() }
    }

    /// The position of the entry named `name`, if any.
    pub fn find(&self, name: &String) -> (r: Option<usize>)
        requires
            self.wf(),
        ensures
            match r {
                Some(i) => i < self.entries@.len() && self.entries@[i as int].name@ == name@
                    && position(self.entries@, name@) == Some(i as int),
                None => position(self.entries@, name@).is_none(),
            },
    {
        let mut i: usize = 0;
        while i < self.entries.len()
            invariant
                self.wf(),
                i <= self.entries@.len(),
                forall|k: int| 0 <= k < i ==> (#[trigger] self.entries@[k]).name@ != name@,
            decreases self.entries.len() - i,
        {
            if str_eq(&self.entries[i].name, name) {
                proof {
                    let c = choose|k: int|
                        0 <= k < self.entries@.len() && (#[trigger] self.entries@[k]).name@ == name@;
                    if c != i {
                        if c < i {
                            assert(self.entries@[c].name@ != self.entries@[i as int].name@);
                        } else {
                            assert(self.entries@[i as int].name@ != self.entries@[c].name@);
                        }
                    }
                }
                return Some(i);
            }
            i += 1;
        }
        None
    }

    /// The addon name that holds `subfolder` other than `name`, if any.
    pub fn owner_other_than(&self, name: &String, subfolder: &String) -> (r: Option<String>)
        ensures
            r.is_some() == claimed_by_other(self.entries@, name@, subfolder@),
            r.is_some() ==> exists|i: int|
                0 <= i < self.entries@.len() && (#[trigger] self.entries@[i]).name@ != name@
                    && self.entries@[i].addon.subfolder@ == subfolder@ && self.entries@[i].name@
                    == r.unwrap()@,
    {
        let mut i: usize = 0;
        while i < self.entries.len()
            invariant
                i <= self.entries@.len(),
                forall|k: int|
                    0 <= k < i ==> !((#[trigger] self.entries@[k]).name@ != name@
                        && self.entries@[k].addon.subfolder@ == subfolder@),
            decreases self.entries.len() - i,
        {
            let e = &self.entries[i];
            if !str_eq(&e.name, name) && str_eq(&e.addon.subfolder, subfolder) {
                return Some(e.name.clone());
            }
            i += 1;
        }
        None
    }

    /// Decides what offering `addon`, located for `dep` under `name`, does
    /// to the set, without changing it.
    pub fn decide(&self, name: &String, addon: &Addon, dep: &Dependency) -> (r: Result<
        Merge,
        ResolveError,
    >)
        requires
            self.wf(),
        ensures
            merge_outcome(self.entries@, name@, *addon, *dep, r),
    {
        let found = self.find(name);
        match found {
            Some(i) => {
                let e = &self.entries[i];
                match &e.addon.version {
                    None => {
                        if !dep.same_as(&e.dependency) {
                            return Err(ResolveError::IncompatibleVersions(name.clone(), None, None));
                        }
                        return Ok(Merge::Kept);
                    },
                    Some(vp) => match &addon.version {
                        None => {
                            return Err(
                                ResolveError::IncompatibleVersions(
                                    name.clone(),
                                    None,
                                    Some(vp.copy()),
                                ),
                            );
                        },
                        Some(vn) => {
                            if vp.major != vn.major {
                                return Err(
                                    ResolveError::IncompatibleVersions(
                                        name.clone(),
                                        Some(vp.copy()),
                                        Some(vn.copy()),
                                    ),
                                );
                            }
                            if !vp.precedes(vn) {
                                return Ok(Merge::Kept);
                            }
                        },
                    },
                }
            },
            None => {},
        }
        match self.owner_other_than(name, &addon.subfolder) {
            Some(other) => Err(
                ResolveError::SubfolderCollision(addon.subfolder.clone(), name.clone(), other),
            ),
            None => {
                if found.is_some() {
                    Ok(Merge::Replaced)
                } else {
                    Ok(Merge::Added)
                }
            },
        }
    }

    /// Puts the addon in place after `decide` gave `m`: appended under a new
    /// name, or in the place of the entry it replaces.
    fn apply(&mut self, m: Merge, name: String, addon: Addon, dep: Dependency)
        requires
            old(self).wf(),
            m != Merge::Kept,
            merge_outcome(old(self).entries@, name@, addon, dep, Ok(m)),
        ensures
            final(self).wf(),
            ({
                let s = old(self).entries@;
                let n = Resolved { name, addon, dependency: dep };
                if m == Merge::Added {
                    position(s, name@).is_none() && final(self).entries@ == s.push(n)
                } else {
                    position(s, name@).is_some() && final(self).entries@ == s.update(
                        position(s, name@).unwrap(),
                        n,
                    )
                }
            }),
    {
        if m == Merge::Added {
            self.entries.push(Resolved { name, addon, dependency: dep });
        } else {
            let i = self.find(&name).unwrap();
            self.entries.set(i, Resolved { name, addon, dependency: dep });
        }
    }

    /// Offers `addon`, located for `dep`, under `name`: adds it under a new
    /// name, replaces a lower version of the same major line, keeps what is
    /// held otherwise, or reports why the two cannot both be installed. The
    /// set changes only on `Added` (the entry is appended) and `Replaced`
    /// (the entry takes the old one's place).
    pub fn insert(&mut self, name: String, addon: Addon, dep: Dependency) -> (r: Result<
        Merge,
        ResolveError,
    >)
        requires
            old(self).wf(),
        ensures
            final(self).wf(),
            merge_outcome(old(self).entries@, name@, addon, dep, r),
            ({
                let s = old(self).entries@;
                let n = Resolved { name, addon, dependency: dep };
                match r {
                    Ok(Merge::Added) => final(self).entries@ == s.push(n),
                    Ok(Merge::Replaced) => position(s, name@).is_some() && final(self).entries@
                        == s.update(position(s, name@).unwrap(), n),
                    _ => final(self).entries@ == s,
                }
            }),
    {
        let r = self.decide(&name, &addon, &dep);
        match r {
            Ok(Merge::Added) => self.apply(Merge::Added, name, addon, dep),
            Ok(Merge::Replaced) => self.apply(Merge::Replaced, name, addon, dep),
            _ => {},
        }
        r
    }
}

/// Versions of one major line merge to the higher: a new version that
/// ranks above the held one replaces it (where no other addon holds its
/// subfolder), one that ranks below leaves the held one in place, and a
/// version of another major line is refused.
pub proof fn lemma_version_merge(
    s: Seq<Resolved>,
    name: Seq<char>,
    addon: Addon,
    dep: Dependency,
    r: Result<Merge, ResolveError>,
)
    requires
        position(s, name).is_some(),
        s[position(s, name).unwrap()].addon.version.is_some(),
        addon.version.is_some(),
        merge_outcome(s, name, addon, dep, r),
    ensures
        ({
            let vp = s[position(s, name).unwrap()].addon.version.unwrap();
            let vn = addon.version.unwrap();
            &&& vp.major != vn.major ==> (r matches Err(ResolveError::IncompatibleVersions(n, a, b))
                && n@ == name && a == Some(vp) && b == Some(vn))
            &&& vp.major == vn.major && triple_less(vp, vn) && !claimed_by_other(
                s,
                name,
                addon.subfolder@,
            ) ==> r == Ok::<Merge, ResolveError>(Merge::Replaced)
            &&& vp.major == vn.major && triple_less(vn, vp) ==> r == Ok::<Merge, ResolveError>(
                Merge::Kept,
            )
        }),
{
}

/// A new addon whose subfolder another addon already holds is refused,
/// and the refusal names the subfolder and both addons.
pub proof fn lemma_subfolder_collision(
    s: Seq<Resolved>,
    name: Seq<char>,
    addon: Addon,
    dep: Dependency,
    r: Result<Merge, ResolveError>,
)
    requires
        position(s, name).is_none(),
        claimed_by_other(s, name, addon.subfolder@),
        merge_outcome(s, name, addon, dep, r),
    ensures
        r matches Err(ResolveError::SubfolderCollision(sf, n, o)) && sf@ == addon.subfolder@ && n@
            == name && o@ != name && exists|i: int|
            0 <= i < s.len() && (#[trigger] s[i]).name@ == o@ && s[i].addon.subfolder@
                == addon.subfolder@,
{
}

/// A manifest read during a resolution: the addon it belongs to (none for
/// the project's own), the manifest, and whether its development sections
/// are read.
pub type Reading = (Option<Seq<char>>, Manifest, bool);

/// The entries that a reading selects, as (section, position) pairs.
pub open spec fn reading_kept(r: Reading, targets: Seq<Option<String>>) -> Seq<(int, int)> {
    kept(r.1, entry_refs(r.1, r.2, targets))
}

/// `d` is written as one of the entries that the reading selects.
pub open spec fn selected_by(r: Reading, targets: Seq<Option<String>>, d: Dependency) -> bool {
    exists|k: int|
        0 <= k < reading_kept(r, targets).len() && same_but_root(
            d,
            #[trigger] dep_at(r.1, reading_kept(r, targets)[k]),
        )
}

/// `d` comes from one of the manifests read.
pub open spec fn drawn(read: Seq<Reading>, targets: Seq<Option<String>>, d: Dependency) -> bool {
    exists|idx: int| 0 <= idx < read.len() && #[trigger] selected_by(read[idx], targets, d)
}

/// The dependency is for the addon named `n`.
pub open spec fn names(d: Dependency, n: Seq<char>) -> bool {
    d.addon.is_some() && d.addon.unwrap()@ == n
}

/// Some resolved entry is named `n`.
pub open spec fn held(s: Seq<Resolved>, n: Seq<char>) -> bool {
    exists|e: int| 0 <= e < s.len() && (#[trigger] s[e]).name@ == n
}

/// A resolution in progress: the environment and targets it is for, the
/// addons accepted so far, the dependencies still to visit (first to
/// last), the one taken from the queue and not yet accepted, and (as a
/// record for the laws below) the manifests read so far. Dependencies are
/// visited breadth first. An addon offered again under a name already
/// held adds nothing to the queue unless its version ranks strictly above
/// the held one, and an unversioned one is refused unless written
/// identically, so manifests that require each other in a cycle cannot
/// keep the queue growing.
pub struct Install {
    pub dev: bool,
    pub targets: Vec<Option<String>>,
    pub resolved: ResolvedSet,
    pub queue: VecDeque<Dependency>,
    pub current: Option<Dependency>,
    pub read: Ghost<Seq<Reading>>,
}

/// The selected entry `d` of a manifest read has been dealt with, or is
/// still to be: it waits in the queue, is the one taken, or an addon of its
/// name is resolved.
pub open spec fn processed(i: Install, d: Dependency) -> bool {
    (exists|j: int| 0 <= j < i.queue@.len() && same_but_root(#[trigger] i.queue@[j], d)) || (
    i.current.is_some() && same_but_root(i.current.unwrap(), d)) || (d.addon.is_some() && held(
        i.resolved.entries@,
        d.addon.unwrap()@,
    ))
}

impl Install {
    /// The resolution's invariant: the resolved set is well formed; the
    /// project's manifest is the first read, with the resolution's
    /// environment, and every later one is the production part of the
    /// manifest of a resolved addon; every queued, taken or resolved
    /// dependency comes from a manifest read; and every entry a manifest
    /// read selects has been or will be visited.
    pub open spec fn wf(&self) -> bool {
        let rd = self.read@;
        let t = self.targets@;
        let s = self.resolved.entries@;
        &&& self.resolved.wf()
        &&& rd.len() > 0 && rd[0].0.is_none() && rd[0].2 == self.dev
        &&& forall|idx: int|
            1 <= idx < rd.len() ==> !(#[trigger] rd[idx]).2 && rd[idx].0.is_some() && held(
                s,
                rd[idx].0.unwrap(),
            )
        &&& forall|j: int| 0 <= j < self.queue@.len() ==> drawn(rd, t, #[trigger] self.queue@[j])
        &&& self.current.is_some() ==> drawn(rd, t, self.current.unwrap())
        &&& forall|e: int|
            0 <= e < s.len() ==> drawn(rd, t, (#[trigger] s[e]).dependency) && names(
                s[e].dependency,
                s[e].name@,
            )
        &&& forall|e: int|
            0 <= e < s.len() && (#[trigger] s[e]).addon.manifest.is_some() ==> exists|idx: int|
                0 <= idx < rd.len() && #[trigger] rd[idx] == (
                    Some(s[e].name@),
                    s[e].addon.manifest.unwrap(),
                    false,
                )
        &&& forall|idx: int, k: int|
            0 <= idx < rd.len() && 0 <= k < reading_kept(rd[idx], t).len() ==> processed(
                *self,
                #[trigger] dep_at(rd[idx].1, reading_kept(rd[idx], t)[k]),
            )
    }

    /// Starts resolving `manifest`, found in the directory `root`, for the
    /// environment `dev` and the targets `targets`: nothing is accepted
    /// yet, and the queue holds what the manifest selects.
    pub fn new(manifest: &Manifest, root: &Vec<String>, dev: bool, targets: Vec<Option<String>>) -> (r:
        Result<Install, ResolveError>)
        ensures
            r is Ok <==> selects_cleanly(*manifest, dev, targets@),
            r is Err ==> r->Err_0 is Manifest,
            r is Ok ==> {
                let i = r->Ok_0;
                &&& i.wf()
                &&& i.dev == dev
                &&& i.targets@ == targets@
                &&& i.resolved.entries@.len() == 0
                &&& i.current.is_none()
                &&& i.read@ == seq![(None::<Seq<char>>, *manifest, dev)]
                &&& selected_as(*manifest, views(root@), dev, targets@, i.queue@)
            },
    {
        let deps = match manifest.dependencies(root, dev, &targets) {
            Ok(d) => d,
            Err(e) => return Err(ResolveError::Manifest(e)),
        };
        let mut queue: VecDeque<Dependency> = VecDeque::new();
        append_all(&mut queue, deps);
        let ghost rd: Seq<Reading> = seq![(None::<Seq<char>>, *manifest, dev)];
        let r = Install {
            dev,
            targets,
            resolved: ResolvedSet::new(),
            queue,
            current: None,
            read: Ghost(rd),
        };
        proof {
            let t = r.targets@;
            let ks = reading_kept(rd[0], t);
            assert forall|j: int| 0 <= j < r.queue@.len() implies drawn(rd, t, #[trigger] r.queue@[j]) by {
                assert(same_but_root(r.queue@[j], dep_at(rd[0].1, ks[j])));
                assert(selected_by(rd[0], t, r.queue@[j]));
            }
            assert forall|idx: int, k: int|
                0 <= idx < rd.len() && 0 <= k < reading_kept(rd[idx], t).len() implies processed(
                r,
                #[trigger] dep_at(rd[idx].1, reading_kept(rd[idx], t)[k]),
            ) by {
                assert(same_but_root(r.queue@[k], dep_at(rd[0].1, ks[k])));
            }
        }
        Ok(r)
    }

    /// Takes the next dependency to visit, if any is left, and returns a
    /// copy of it; until it is accepted, the same one is returned again.
    pub fn next_dependency(&mut self) -> (r: Option<Dependency>)
        requires
            old(self).wf(),
        ensures
            final(self).wf(),
            final(self).dev == old(self).dev,
            final(self).targets@ == old(self).targets@,
            final(self).resolved == old(self).resolved,
            final(self).read@ == old(self).read@,
            old(self).current.is_some() ==> final(self).current == old(self).current
                && final(self).queue@ == old(self).queue@,
            old(self).current.is_none() && old(self).queue@.len() == 0 ==> final(self).current.is_none()
                && final(self).queue@.len() == 0,
            old(self).current.is_none() && old(self).queue@.len() > 0 ==> final(self).current == Some(
                old(self).queue@[0],
            ) && final(self).queue@ == old(self).queue@.drop_first(),
            r.is_some() == final(self).current.is_some(),
            r.is_some() ==> same_dependency(r.unwrap(), final(self).current.unwrap()),
    {
        if self.current.is_none() {
            let ghost before = *self;
            self.current = self.queue.pop_front();
            proof {
                let t = self.targets@;
                let rd = self.read@;
                assert forall|idx: int, k: int|
                    0 <= idx < rd.len() && 0 <= k < reading_kept(rd[idx], t).len() implies processed(
                    *self,
                    #[trigger] dep_at(rd[idx].1, reading_kept(rd[idx], t)[k]),
                ) by {
                    let d = dep_at(rd[idx].1, reading_kept(rd[idx], t)[k]);
                    assert(processed(before, d));
                    if exists|j: int| 0 <= j < before.queue@.len() && same_but_root(#[trigger] before.queue@[j], d) {
                        let j = choose|j: int| 0 <= j < before.queue@.len() && same_but_root(#[trigger] before.queue@[j], d);
                        if j > 0 {
                            assert(self.queue@[j - 1] == before.queue@[j]);
                        }
                    }
                }
                assert forall|j: int| 0 <= j < self.queue@.len() implies drawn(rd, t, #[trigger] self.queue@[j]) by {
                    assert(self.queue@[j] == before.queue@[j + 1]);
                }
            }
        }
        match &self.current {
            Some(d) => Some(d.copy()),
            None => None,
        }
    }

    /// Accepts `addon`, located for the dependency taken from the queue,
    /// whose content lies in `dep_root`. A dependency without a name is
    /// refused. Otherwise the addon is merged into the resolved set; where
    /// it is added or replaces a lower version, the production dependencies
    /// that its own manifest selects for the same targets join the end of
    /// the queue (development ones never do). A kept addon adds nothing. On
    /// an error nothing changes.
    pub fn accept(&mut self, addon: Addon, dep_root: &Vec<String>) -> (r: Result<Merge, ResolveError>)
        requires
            old(self).wf(),
        ensures
            final(self).wf(),
            accept_outcome(*old(self), *final(self), addon, views(dep_root@), r),
    {
        let dep_ref = match &self.current {
            Some(d) => d,
            None => return Err(ResolveError::NothingPending),
        };
        let name = match &dep_ref.addon {
            Some(n) => n.clone(),
            None => return Err(ResolveError::MissingName),
        };
        let m = match self.resolved.decide(&name, &addon, dep_ref) {
            Ok(m) => m,
            Err(e) => return Err(e),
        };
        let ghost before = *self;
        if m == Merge::Kept {
            self.current = None;
            proof {
                lemma_kept_keeps_invariant(before, *self, name@);
            }
            return Ok(Merge::Kept);
        }
        let more = match &addon.manifest {
            Some(sub) => match sub.dependencies(dep_root, false, &self.targets) {
                Ok(v) => Some(v),
                Err(e) => return Err(ResolveError::Manifest(e)),
            },
            None => None,
        };
        let ghost sub = addon.manifest;
        let dep = self.current.take().unwrap();
        let ghost n = Resolved { name, addon, dependency: dep };
        self.resolved.apply(m, name, addon, dep);
        let ghost mid = *self;
        match more {
            Some(v) => {
                let ghost vv = v@;
                let ghost q0 = self.queue@;
                assert(selected_as(sub.unwrap(), views(dep_root@), false, self.targets@, vv));
                append_all(&mut self.queue, v);
                self.read = Ghost(self.read@.push((Some(n.name@), sub.unwrap(), false)));
                proof {
                    assert(self.queue@.subrange(q0.len() as int, self.queue@.len() as int) =~= vv);
                    assert(self.queue@.subrange(0, q0.len() as int) =~= q0);
                }
            },
            None => {},
        }
        proof {
            lemma_taken_keeps_invariant(before, *self, n, m, sub, views(dep_root@));
        }
        Ok(m)
    }

    /// The accepted addons, once the queue is empty.
    pub fn into_addons(self) -> (r: Vec<Addon>)
        ensures
            r@.len() == self.resolved.entries@.len(),
            forall|i: int| 0 <= i < r@.len() ==> r@[i] == (#[trigger] self.resolved.entries@[i]).addon,
    {
        let mut entries = self.resolved.entries;
        let ghost all = entries@;
        let mut out: Vec<Addon> = Vec::new();
        while entries.len() > 0
            invariant
                out@.len() + entries@.len() == all.len(),
                entries@ == all.subrange(out@.len() as int, all.len() as int),
                forall|i: int| 0 <= i < out@.len() ==> out@[i] == (#[trigger] all[i]).addon,
            decreases entries.len(),
        {
            let e = entries.remove(0);
            out.push(e.addon);
            proof {
                assert(entries@ =~= all.subrange(out@.len() as int, all.len() as int));
            }
        }
        out
    }
}

/// Nothing but the pending dependency changed, or nothing at all.
pub open spec fn unchanged(before: Install, after: Install) -> bool {
    after.dev == before.dev && after.targets@ == before.targets@ && after.resolved == before.resolved
        && after.queue@ == before.queue@ && after.current == before.current && after.read@
        == before.read@
}

/// What `accept` does with `addon` for the dependency taken from the queue.
pub open spec fn accept_outcome(
    before: Install,
    after: Install,
    addon: Addon,
    dep_root: Seq<Seq<char>>,
    r: Result<Merge, ResolveError>,
) -> bool {
    match before.current {
        None => r == Err::<Merge, ResolveError>(ResolveError::NothingPending) && unchanged(before, after),
        Some(dep) => match dep.addon {
            None => r == Err::<Merge, ResolveError>(ResolveError::MissingName) && unchanged(before, after),
            Some(name) => {
                let s = before.resolved.entries@;
                let n = Resolved { name, addon, dependency: dep };
                match r {
                    Ok(Merge::Kept) => merge_outcome(s, name@, addon, dep, r) && after.dev == before.dev
                        && after.targets@ == before.targets@ && after.resolved == before.resolved
                        && after.queue@ == before.queue@ && after.current.is_none() && after.read@
                        == before.read@,
                    Ok(m) => {
                        &&& merge_outcome(s, name@, addon, dep, r)
                        &&& after.dev == before.dev && after.targets@ == before.targets@
                        &&& after.current.is_none()
                        &&& m == Merge::Added ==> after.resolved.entries@ == s.push(n)
                        &&& m == Merge::Replaced ==> position(s, name@).is_some()
                            && after.resolved.entries@ == s.update(position(s, name@).unwrap(), n)
                        &&& match addon.manifest {
                            None => after.queue@ == before.queue@ && after.read@ == before.read@,
                            Some(sub) => selects_cleanly(sub, false, before.targets@)
                                && selected_as(
                                sub,
                                dep_root,
                                false,
                                before.targets@,
                                after.queue@.subrange(before.queue@.len() as int, after.queue@.len() as int),
                            ) && after.queue@.subrange(0, before.queue@.len() as int) == before.queue@
                                && after.queue@.len() >= before.queue@.len()
                                && after.read@ == before.read@.push((Some(name@), sub, false)),
                        }
                    },
                    Err(ResolveError::Manifest(_)) => (exists|m: Merge|
                        m != Merge::Kept && #[trigger] merge_outcome(s, name@, addon, dep, Ok(m)))
                        && addon.manifest.is_some() && !selects_cleanly(
                        addon.manifest.unwrap(),
                        false,
                        before.targets@,
                    ) && unchanged(before, after),
                    Err(_) => merge_outcome(s, name@, addon, dep, r) && unchanged(before, after),
                }
            },
        },
    }
}

/// Taking the pending dependency off after a merge that kept the held
/// addon keeps the invariant: its name is resolved.
proof fn lemma_kept_keeps_invariant(before: Install, after: Install, name: Seq<char>)
    requires
        before.wf(),
        before.current.is_some(),
        names(before.current.unwrap(), name),
        held(before.resolved.entries@, name),
        after.dev == before.dev,
        after.targets@ == before.targets@,
        after.resolved == before.resolved,
        after.queue@ == before.queue@,
        after.current.is_none(),
        after.read@ == before.read@,
    ensures
        after.wf(),
{
    let rd = after.read@;
    let t = after.targets@;
    assert forall|idx: int, k: int|
        0 <= idx < rd.len() && 0 <= k < reading_kept(rd[idx], t).len() implies processed(
        after,
        #[trigger] dep_at(rd[idx].1, reading_kept(rd[idx], t)[k]),
    ) by {
        let d = dep_at(rd[idx].1, reading_kept(rd[idx], t)[k]);
        assert(processed(before, d));
        if exists|j: int| 0 <= j < before.queue@.len() && same_but_root(#[trigger] before.queue@[j], d) {
            let j = choose|j: int| 0 <= j < before.queue@.len() && same_but_root(#[trigger] before.queue@[j], d);
            assert(same_but_root(after.queue@[j], d));
        }
    }
}

/// A held name stays held when an entry is added or an entry is put in the
/// place of one of the same name.
proof fn lemma_held_kept(s: Seq<Resolved>, s2: Seq<Resolved>, n: Resolved, added: bool, x: Seq<char>)
    requires
        held(s, x),
        added ==> s2 == s.push(n),
        !added ==> position(s, n.name@).is_some() && s2 == s.update(position(s, n.name@).unwrap(), n),
    ensures
        held(s2, x),
{
    let e = choose|e: int| 0 <= e < s.len() && (#[trigger] s[e]).name@ == x;
    if added {
        assert(s2[e] == s[e]);
    } else {
        let p = position(s, n.name@).unwrap();
        if e == p {
            assert(s2[p].name@ == x);
        } else {
            assert(s2[e] == s[e]);
        }
    }
}

/// Accepting the pending dependency's addon (added, or replacing a lower
/// version) and queuing what its manifest selects keeps the invariant.
proof fn lemma_taken_keeps_invariant(
    before: Install,
    after: Install,
    n: Resolved,
    m: Merge,
    sub: Option<Manifest>,
    root: Seq<Seq<char>>,
)
    requires
        before.wf(),
        before.current == Some(n.dependency),
        names(n.dependency, n.name@),
        m != Merge::Kept,
        merge_outcome(before.resolved.entries@, n.name@, n.addon, n.dependency, Ok(m)),
        n.addon.manifest == sub,
        after.dev == before.dev,
        after.targets@ == before.targets@,
        after.current.is_none(),
        after.resolved.wf(),
        m == Merge::Added ==> after.resolved.entries@ == before.resolved.entries@.push(n),
        m == Merge::Replaced ==> position(before.resolved.entries@, n.name@).is_some()
            && after.resolved.entries@ == before.resolved.entries@.update(
            position(before.resolved.entries@, n.name@).unwrap(),
            n,
        ),
        sub.is_none() ==> after.queue@ == before.queue@ && after.read@ == before.read@,
        sub.is_some() ==> selected_as(
            sub.unwrap(),
            root,
            false,
            before.targets@,
            after.queue@.subrange(before.queue@.len() as int, after.queue@.len() as int),
        ) && after.queue@.subrange(0, before.queue@.len() as int) == before.queue@
            && after.queue@.len() >= before.queue@.len() && after.read@ == before.read@.push(
            (Some(n.name@), sub.unwrap(), false),
        ),
    ensures
        after.wf(),
{
    let s = before.resolved.entries@;
    let s2 = after.resolved.entries@;
    let rd0 = before.read@;
    let rd = after.read@;
    let t = after.targets@;
    let added = m == Merge::Added;
    let nq = before.queue@.len();
    assert(m == Merge::Added || m == Merge::Replaced);
    // Every reading of before is a reading of after, at the same place.
    assert forall|idx: int| 0 <= idx < rd0.len() implies rd[idx] == rd0[idx] by {}
    assert forall|d: Dependency| drawn(rd0, t, d) implies drawn(rd, t, d) by {
        let idx = choose|idx: int| 0 <= idx < rd0.len() && #[trigger] selected_by(rd0[idx], t, d);
        assert(rd[idx] == rd0[idx]);
    }
    // The new entry's name is held after.
    let p = if added { s.len() as int } else { position(s, n.name@).unwrap() };
    assert(s2[p] == n);
    assert(held(s2, n.name@));
    assert forall|x: Seq<char>| held(s, x) implies held(s2, x) by {
        lemma_held_kept(s, s2, n, added, x);
    }
    // Readings' owners.
    assert forall|idx: int| 1 <= idx < rd.len() implies !(#[trigger] rd[idx]).2 && rd[idx].0.is_some()
        && held(s2, rd[idx].0.unwrap()) by {
        if idx < rd0.len() {
            assert(rd[idx] == rd0[idx]);
            assert(held(s, rd0[idx].0.unwrap()));
        }
    }
    // Queue.
    assert forall|j: int| 0 <= j < after.queue@.len() implies drawn(rd, t, #[trigger] after.queue@[j]) by {
        if j < nq {
            assert(after.queue@[j] == after.queue@.subrange(0, nq as int)[j]);
            assert(drawn(rd0, t, before.queue@[j]));
        } else {
            let x = sub.unwrap();
            let tail = after.queue@.subrange(nq as int, after.queue@.len() as int);
            let last = rd.len() - 1;
            assert(rd[last] == (Some(n.name@), x, false));
            let k = j - nq;
            assert(tail[k] == after.queue@[j]);
            assert(same_but_root(tail[k], dep_at(x, reading_kept(rd[last], t)[k])));
            assert(selected_by(rd[last], t, after.queue@[j]));
        }
    }
    // Entries.
    assert(drawn(rd0, t, n.dependency));
    assert forall|e: int| 0 <= e < s2.len() implies drawn(rd, t, (#[trigger] s2[e]).dependency) && names(
        s2[e].dependency,
        s2[e].name@,
    ) by {
        if e != p {
            assert(s2[e] == s[e]);
        }
    }
    assert forall|e: int| 0 <= e < s2.len() && (#[trigger] s2[e]).addon.manifest.is_some() implies exists|
        idx: int,
    |
        0 <= idx < rd.len() && #[trigger] rd[idx] == (Some(s2[e].name@), s2[e].addon.manifest.unwrap(), false) by {
        if e != p {
            assert(s2[e] == s[e]);
            let idx = choose|idx: int|
                0 <= idx < rd0.len() && #[trigger] rd0[idx] == (Some(s[e].name@), s[e].addon.manifest.unwrap(), false);
            assert(rd[idx] == rd0[idx]);
        } else {
            assert(rd[rd.len() - 1] == (Some(n.name@), sub.unwrap(), false));
        }
    }
    // Completeness.
    assert forall|idx: int, k: int|
        0 <= idx < rd.len() && 0 <= k < reading_kept(rd[idx], t).len() implies processed(
        after,
        #[trigger] dep_at(rd[idx].1, reading_kept(rd[idx], t)[k]),
    ) by {
        let d = dep_at(rd[idx].1, reading_kept(rd[idx], t)[k]);
        if idx < rd0.len() {
            assert(rd[idx] == rd0[idx]);
            assert(processed(before, d));
            if exists|j: int| 0 <= j < nq && same_but_root(#[trigger] before.queue@[j], d) {
                let j = choose|j: int| 0 <= j < nq && same_but_root(#[trigger] before.queue@[j], d);
                assert(after.queue@[j] == after.queue@.subrange(0, nq as int)[j]);
                assert(same_but_root(after.queue@[j], d));
            } else if before.current.is_some() && same_but_root(before.current.unwrap(), d) {
                assert(held(s2, d.addon.unwrap()@));
            } else {
                assert(held(s, d.addon.unwrap()@));
            }
        } else {
            let x = sub.unwrap();
            let tail = after.queue@.subrange(nq as int, after.queue@.len() as int);
            assert(same_but_root(tail[k], d));
            assert(after.queue@[nq + k] == tail[k]);
            assert(same_but_root(after.queue@[nq + k], d));
        }
    }
}

/// An addon of a new name whose subfolder another addon already holds is
/// refused by `accept`, whatever its own manifest holds, and the refusal
/// names the subfolder and both addons.
pub proof fn lemma_accept_collision(
    before: Install,
    after: Install,
    addon: Addon,
    dep_root: Seq<Seq<char>>,
    r: Result<Merge, ResolveError>,
)
    requires
        accept_outcome(before, after, addon, dep_root, r),
        before.current.is_some(),
        before.current.unwrap().addon.is_some(),
        position(before.resolved.entries@, before.current.unwrap().addon.unwrap()@).is_none(),
        claimed_by_other(
            before.resolved.entries@,
            before.current.unwrap().addon.unwrap()@,
            addon.subfolder@,
        ),
    ensures
        collision(before.resolved.entries@, before.current.unwrap().addon.unwrap()@, addon, r),
        unchanged(before, after),
{
    let dep = before.current.unwrap();
    let name = dep.addon.unwrap();
    let s = before.resolved.entries@;
    if r matches Err(ResolveError::Manifest(_)) {
        let m = choose|m: Merge| m != Merge::Kept && #[trigger] merge_outcome(s, name@, addon, dep, Ok(m));
        assert(merge_outcome(s, name@, addon, dep, Ok(m)));
    }
}

/// Some entry that the reading selects is for the addon named `x`.
pub open spec fn selects_name(r: Reading, targets: Seq<Option<String>>, x: Seq<char>) -> bool {
    exists|k: int|
        0 <= k < reading_kept(r, targets).len() && names(
            #[trigger] dep_at(r.1, reading_kept(r, targets)[k]),
            x,
        )
}

proof fn lemma_drawn_name(read: Seq<Reading>, t: Seq<Option<String>>, d: Dependency, x: Seq<char>)
    requires
        drawn(read, t, d),
        names(d, x),
    ensures
        exists|idx: int| 0 <= idx < read.len() && #[trigger] selects_name(read[idx], t, x),
{
    let idx = choose|idx: int| 0 <= idx < read.len() && #[trigger] selected_by(read[idx], t, d);
    let k = choose|k: int|
        0 <= k < reading_kept(read[idx], t).len() && same_but_root(
            d,
            #[trigger] dep_at(read[idx].1, reading_kept(read[idx], t)[k]),
        );
    assert(names(dep_at(read[idx].1, reading_kept(read[idx], t)[k]), x));
    assert(selects_name(read[idx], t, x));
}

/// An addon that no manifest read so far selects is never taken in, nor
/// is one that only such an addon's own manifest selects. With a
/// production resolution the project's manifest, the first read, selects
/// no development entry (see `lemma_production_reads_no_dev`), and every
/// later read is production only: so an addon the project declares only
/// among its development addons, and what that addon's manifest declares,
/// stay out of the resolved set and the queue as long as no other manifest
/// read asks for them.
pub proof fn lemma_unselected_stays_out(i: Install, a: Seq<char>, b: Seq<char>)
    requires
        i.wf(),
        forall|idx: int| 0 <= idx < i.read@.len() ==> !#[trigger] selects_name(i.read@[idx], i.targets@, a),
        forall|idx: int|
            0 <= idx < i.read@.len() && #[trigger] selects_name(i.read@[idx], i.targets@, b) ==> i.read@[idx].0
                == Some(a),
    ensures
        !held(i.resolved.entries@, a),
        !held(i.resolved.entries@, b),
        forall|j: int|
            0 <= j < i.queue@.len() ==> !names(#[trigger] i.queue@[j], a) && !names(i.queue@[j], b),
        i.current.is_some() ==> !names(i.current.unwrap(), a) && !names(i.current.unwrap(), b),
{
    let s = i.resolved.entries@;
    let rd = i.read@;
    let t = i.targets@;
    if held(s, a) {
        let e = choose|e: int| 0 <= e < s.len() && (#[trigger] s[e]).name@ == a;
        lemma_drawn_name(rd, t, s[e].dependency, a);
    }
    assert forall|x: Seq<char>, d: Dependency| drawn(rd, t, d) && names(d, x) && (x == a || x == b) implies false by {
        lemma_drawn_name(rd, t, d, x);
        let idx = choose|idx: int| 0 <= idx < rd.len() && #[trigger] selects_name(rd[idx], t, x);
        if x == b && x != a {
            assert(rd[idx].0 == Some(a));
            assert(idx >= 1);
            assert(held(s, a));
        }
    }
    if held(s, b) {
        let e = choose|e: int| 0 <= e < s.len() && (#[trigger] s[e]).name@ == b;
        assert(drawn(rd, t, s[e].dependency) && names(s[e].dependency, b));
    }
    assert forall|j: int| 0 <= j < i.queue@.len() implies !names(#[trigger] i.queue@[j], a) && !names(
        i.queue@[j],
        b,
    ) by {
        assert(drawn(rd, t, i.queue@[j]));
    }
}

/// Once a resolution has visited everything (nothing queued or pending),
/// every entry that a manifest read selects has an addon of its name
/// resolved: each addon the project declares for the resolution's
/// environment and targets is resolved.
pub proof fn lemma_selected_is_resolved(i: Install, idx: int, k: int)
    requires
        i.wf(),
        i.queue@.len() == 0,
        i.current.is_none(),
        0 <= idx < i.read@.len(),
        0 <= k < reading_kept(i.read@[idx], i.targets@).len(),
    ensures
        ({
            let d = dep_at(i.read@[idx].1, reading_kept(i.read@[idx], i.targets@)[k]);
            d.addon.is_some() && held(i.resolved.entries@, d.addon.unwrap()@)
        }),
{
    let d = dep_at(i.read@[idx].1, reading_kept(i.read@[idx], i.targets@)[k]);
    assert(processed(i, d));
}

/// Once a resolution has visited everything, each production dependency
/// that the manifest of a resolved addon declares (and selects for the
/// resolution's targets) is resolved too, whether or not the resolution
/// is for development.
pub proof fn lemma_dependency_of_resolved_is_resolved(i: Install, e: int, k: int)
    requires
        i.wf(),
        i.queue@.len() == 0,
        i.current.is_none(),
        0 <= e < i.resolved.entries@.len(),
        i.resolved.entries@[e].addon.manifest.is_some(),
        0 <= k < kept(
            i.resolved.entries@[e].addon.manifest.unwrap(),
            entry_refs(i.resolved.entries@[e].addon.manifest.unwrap(), false, i.targets@),
        ).len(),
    ensures
        ({
            let m = i.resolved.entries@[e].addon.manifest.unwrap();
            let d = dep_at(m, kept(m, entry_refs(m, false, i.targets@))[k]);
            d.addon.is_some() && held(i.resolved.entries@, d.addon.unwrap()@)
        }),
{
    let s = i.resolved.entries@;
    let rd = i.read@;
    let idx = choose|idx: int|
        0 <= idx < rd.len() && #[trigger] rd[idx] == (Some(s[e].name@), s[e].addon.manifest.unwrap(), false);
    lemma_selected_is_resolved(i, idx, k);
}

/// Appends `v` to the back of `q`, in order.
fn append_all(q: &mut VecDeque<Dependency>, v: Vec<Dependency>)
    ensures
        final(q)@ == old(q)@ + v@,
{
    let mut v = v;
    let ghost all = v@;
    let ghost start = q@;
    let ghost mut k: int = 0;
    while v.len() > 0
        invariant
            0 <= k,
            k + v@.len() == all.len(),
            v@ == all.subrange(k, all.len() as int),
            q@ == start + all.subrange(0, k),
        decreases v.len(),
    {
        let d = v.remove(0);
        q.push_back(d);
        proof {
            assert(all.subrange(0, k + 1) =~= all.subrange(0, k).push(d));
        }
        proof {
            k = k + 1;
            assert(v@ =~= all.subrange(k, all.len() as int));
        }
    }
    proof {
        assert(all.subrange(0, k) =~= all);
    }
}

/// Every entry of the first `n` sections that is selected lies in a
/// visible section.
proof fn lemma_refs_visible(secs: Seq<Section>, n: int, is_dev: bool, targets: Seq<Option<String>>)
    ensures
        forall|k: int|
            0 <= k < refs_upto(secs, n, is_dev, targets).len() ==> {
                let e = #[trigger] refs_upto(secs, n, is_dev, targets)[k];
                0 <= e.0 < n && visible(secs[e.0].query, is_dev, targets)
            },
    decreases n,
{
    if n > 0 {
        lemma_refs_visible(secs, n - 1, is_dev, targets);
        let prev = refs_upto(secs, n - 1, is_dev, targets);
        let all = refs_upto(secs, n, is_dev, targets);
        assert forall|k: int| 0 <= k < all.len() implies {
            let e = #[trigger] all[k];
            0 <= e.0 < n && visible(secs[e.0].query, is_dev, targets)
        } by {
            if k < prev.len() {
                assert(all[k] == prev[k]);
            }
        }
    }
}

/// A production resolution reads no development section of a manifest:
/// every entry it selects lies in a production section. Transitive
/// dependencies are always selected this way, so an addon that is only a
/// development dependency of another never comes in through it.
pub proof fn lemma_production_reads_no_dev(m: Manifest, targets: Seq<Option<String>>)
    ensures
        forall|k: int|
            0 <= k < entry_refs(m, false, targets).len() ==> !query_at(
                m,
                #[trigger] entry_refs(m, false, targets)[k],
            ).dev,
{
    lemma_refs_visible(m.sections@, m.sections@.len() as int, false, targets);
}

/// Every entry of a visible section among the first `n` is selected.
proof fn lemma_refs_contain(
    secs: Seq<Section>,
    n: int,
    is_dev: bool,
    targets: Seq<Option<String>>,
    s: int,
    k: int,
)
    requires
        0 <= s < n <= secs.len(),
        0 <= k < secs[s].addons@.len(),
        visible(secs[s].query, is_dev, targets),
    ensures
        exists|i: int|
            0 <= i < refs_upto(secs, n, is_dev, targets).len() && #[trigger] refs_upto(
                secs,
                n,
                is_dev,
                targets,
            )[i] == (s, k),
    decreases n,
{
    let prev = refs_upto(secs, n - 1, is_dev, targets);
    let all = refs_upto(secs, n, is_dev, targets);
    if s < n - 1 {
        lemma_refs_contain(secs, n - 1, is_dev, targets, s, k);
        let i = choose|i: int| 0 <= i < prev.len() && #[trigger] prev[i] == (s, k);
        assert(all[i] == prev[i]);
    } else {
        assert(all[prev.len() + k] == (s, k));
    }
}

/// An entry that nothing overrides is kept.
proof fn lemma_kept_contains(m: Manifest, refs: Seq<(int, int)>, n: int, idx: int)
    requires
        0 <= idx < n <= refs.len(),
        !overridden(m, refs, refs[idx]),
    ensures
        exists|j: int| 0 <= j < kept_upto(m, refs, n).len() && #[trigger] kept_upto(m, refs, n)[j] == refs[idx],
    decreases n,
{
    if idx < n - 1 {
        lemma_kept_contains(m, refs, n - 1, idx);
        let prev = kept_upto(m, refs, n - 1);
        let j = choose|j: int| 0 <= j < prev.len() && #[trigger] prev[j] == refs[idx];
        if !overridden(m, refs, refs[n - 1]) {
            assert(kept_upto(m, refs, n) == prev.push(refs[n - 1]));
            assert(kept_upto(m, refs, n)[j] == prev[j]);
        } else {
            assert(kept_upto(m, refs, n) == prev);
        }
        assert(kept_upto(m, refs, n)[j] == refs[idx]);
    } else {
        let prev = kept_upto(m, refs, n - 1);
        assert(kept_upto(m, refs, n) == prev.push(refs[idx]));
        assert(kept_upto(m, refs, n)[prev.len() as int] == refs[idx]);
    }
}

/// A production dependency of an addon's manifest (of its default target)
/// is pulled into a production resolution: the manifest's production
/// selection, which is what joins the queue when the addon is accepted,
/// holds it, unless an entry of a listed target overrides it by the same
/// name.
pub proof fn lemma_production_dependency_pulled(
    m: Manifest,
    targets: Seq<Option<String>>,
    s: int,
    k: int,
)
    requires
        0 <= s < m.sections@.len(),
        0 <= k < m.sections@[s].addons@.len(),
        !m.sections@[s].query.dev,
        m.sections@[s].query.target.is_none(),
        !overridden(m, entry_refs(m, false, targets), (s, k)),
    ensures
        exists|j: int|
            0 <= j < kept(m, entry_refs(m, false, targets)).len() && #[trigger] kept(
                m,
                entry_refs(m, false, targets),
            )[j] == (s, k),
{
    let refs = entry_refs(m, false, targets);
    lemma_refs_contain(m.sections@, m.sections@.len() as int, false, targets, s, k);
    let i = choose|i: int| 0 <= i < refs.len() && #[trigger] refs[i] == (s, k);
    lemma_kept_contains(m, refs, refs.len() as int, i);
    let ks = kept_upto(m, refs, refs.len() as int);
    let j = choose|j: int| 0 <= j < ks.len() && #[trigger] ks[j] == refs[i];
    assert(kept(m, refs)[j] == (s, k));
}

} // verus!
