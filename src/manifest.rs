//! Selection of the dependencies that a manifest declares for a set of
//! targets and an environment, with the rules on duplicates and overrides.

use vstd::prelude::*;
use crate::dependency::{Dependency, opt_path, same_but_root, same_dependency};
use crate::paths::str_eq;
use crate::project::Project;
use crate::text::{opt_view, views};

verus! {

/// One section of addons: the production (`addons`) or development
/// (`dev-addons`) environment, of the default target or of a named one.
#[derive(Clone, Debug, Default, PartialEq, Eq, Hash)]
pub struct Query {
    pub dev: bool,
    pub target: Option<String>,
}

/// The key of a section of addons for an environment.
pub open spec fn section_key(dev: bool) -> Seq<char> {
    if dev {
        "dev-addons"@
    } else {
        "addons"@
    }
}

impl Query {
    /// The development section of the default target.
    pub fn dev() -> (r: Query)
        ensures
            r.dev && r.target.is_none(),
    {
        Query { dev: true, target: None }
    }

    /// The production section of the default target.
    pub fn prod() -> (r: Query)
        ensures
            !r.dev && r.target.is_none(),
    {
        Query { dev: false, target: None }
    }

    /// The section of the same target in the other environment.
    pub fn invert_dev(&self) -> (r: Query)
        ensures
            r.dev == !self.dev,
            opt_view(r.target) == opt_view(self.target),
    {
        Query { dev: !self.dev, target: crate::dependency::copy_opt_str(&self.target) }
    }

    /// A copy of the query.
    pub fn copy(&self) -> (r: Query)
        ensures
            same_query(r, *self),
    {
        Query { dev: self.dev, target: crate::dependency::copy_opt_str(&self.target) }
    }

    /// The key of the section within its target.
    pub fn key_addons(&self) -> (r: &'static str)
        ensures
            r@ == section_key(self.dev),
    {
        if self.dev {
            "dev-addons"
        } else {
            "addons"
        }
    }
}

/// An addon entry of a manifest: its name within a section.
#[derive(Clone, Debug, PartialEq, Eq)]
pub struct Key {
    pub name: String,
    pub query: Query,
}

impl Key {
    /// The key of the section that holds the entry.
    pub fn last(&self) -> (r: &'static str)
        ensures
            r@ == section_key(self.query.dev),
    {
        self.query.key_addons()
    }
}

/// The addons of one section, in the order the manifest lists them.
#[derive(Clone, Debug, PartialEq, Eq)]
pub struct Section {
    pub query: Query,
    pub addons: Vec<Dependency>,
}

/// A project's manifest: its sections of addons and its project rules.
#[derive(Clone, Debug, PartialEq, Eq)]
pub struct Manifest {
    pub sections: Vec<Section>,
    pub project: Project,
}

/// Why a manifest's dependencies cannot be selected.
#[derive(Clone, Debug, PartialEq, Eq)]
pub enum ManifestError {
    /// A target named by the empty string was asked for.
    MissingTarget,
    /// A selected entry has no addon name.
    MissingName,
    /// The addon is declared twice in one environment at equal specificity;
    /// the sections of the later and of the earlier declaration.
    Duplicate(String, Vec<Query>),
    /// The addon replaces another outside a named target.
    InvalidReplace(String),
    /// Two addons replace the same one; the later of the two is named.
    DoubleReplace(String),
}

/// `t` is the default target or one of `targets`.
pub open spec fn target_listed(t: Option<String>, targets: Seq<Option<String>>) -> bool {
    t.is_none() || exists|i: int|
        0 <= i < targets.len() && (#[trigger] targets[i]).is_some() && targets[i].unwrap()@
            == t.unwrap()@
}

/// A section is read for an environment and a list of targets: production
/// sections always, development ones only for a development install; the
/// default target always, named targets where they are listed.
pub open spec fn visible(q: Query, is_dev: bool, targets: Seq<Option<String>>) -> bool {
    (is_dev || !q.dev) && target_listed(q.target, targets)
}

/// The entries of the visible sections among the first `n`, as (section,
/// position) pairs in manifest order.
pub open spec fn refs_upto(secs: Seq<Section>, n: int, is_dev: bool, targets: Seq<Option<String>>) -> Seq<
    (int, int),
>
    decreases n,
{
    if n <= 0 {
        Seq::empty()
    } else {
        refs_upto(secs, n - 1, is_dev, targets) + if visible(secs[n - 1].query, is_dev, targets) {
            Seq::new(secs[n - 1].addons@.len(), |k: int| (n - 1, k))
        } else {
            Seq::empty()
        }
    }
}

pub open spec fn entry_refs(m: Manifest, is_dev: bool, targets: Seq<Option<String>>) -> Seq<(int, int)> {
    refs_upto(m.sections@, m.sections@.len() as int, is_dev, targets)
}

pub open spec fn dep_at(m: Manifest, e: (int, int)) -> Dependency {
    m.sections@[e.0].addons@[e.1]
}

pub open spec fn query_at(m: Manifest, e: (int, int)) -> Query {
    m.sections@[e.0].query
}

/// Two entries that name the same addon.
pub open spec fn same_name(m: Manifest, a: (int, int), b: (int, int)) -> bool {
    dep_at(m, a).addon.is_some() && dep_at(m, b).addon.is_some() && dep_at(m, a).addon.unwrap()@
        == dep_at(m, b).addon.unwrap()@
}

/// Two entries of one addon in one environment, both of the default target
/// or both of named targets.
pub open spec fn conflicting(m: Manifest, a: (int, int), b: (int, int)) -> bool {
    same_name(m, a, b) && query_at(m, a).dev == query_at(m, b).dev && query_at(m, a).target.is_some()
        == query_at(m, b).target.is_some()
}

/// `f` overrides `e`: a development entry overrides a production one, and
/// within one environment a named target overrides the default target.
pub open spec fn overrides(m: Manifest, f: (int, int), e: (int, int)) -> bool {
    same_name(m, e, f) && ((!query_at(m, e).dev && query_at(m, f).dev) || (query_at(m, e).dev
        == query_at(m, f).dev && query_at(m, e).target.is_none() && query_at(m, f).target.is_some()))
}

pub open spec fn bad_target(targets: Seq<Option<String>>) -> bool {
    exists|i: int|
        0 <= i < targets.len() && (#[trigger] targets[i]).is_some() && targets[i].unwrap()@.len() == 0
}

pub open spec fn missing_name(m: Manifest, refs: Seq<(int, int)>) -> bool {
    exists|i: int| 0 <= i < refs.len() && dep_at(m, #[trigger] refs[i]).addon.is_none()
}

pub open spec fn has_duplicate(m: Manifest, refs: Seq<(int, int)>) -> bool {
    exists|i: int, j: int| 0 <= i < j < refs.len() && #[trigger] conflicting(m, refs[i], refs[j])
}

pub open spec fn invalid_replace(m: Manifest, refs: Seq<(int, int)>) -> bool {
    exists|i: int|
        0 <= i < refs.len() && dep_at(m, #[trigger] refs[i]).replace.is_some() && query_at(
            m,
            refs[i],
        ).target.is_none()
}

pub open spec fn replaces_same(m: Manifest, a: (int, int), b: (int, int)) -> bool {
    dep_at(m, a).replace.is_some() && dep_at(m, b).replace.is_some() && dep_at(m, a).replace.unwrap()@
        == dep_at(m, b).replace.unwrap()@
}

pub open spec fn double_replace(m: Manifest, refs: Seq<(int, int)>) -> bool {
    exists|i: int, j: int| 0 <= i < j < refs.len() && #[trigger] replaces_same(m, refs[i], refs[j])
}

pub open spec fn overridden(m: Manifest, refs: Seq<(int, int)>, e: (int, int)) -> bool {
    exists|j: int| 0 <= j < refs.len() && #[trigger] overrides(m, refs[j], e)
}

/// The entries among the first `n` of `refs` that nothing overrides.
pub open spec fn kept_upto(m: Manifest, refs: Seq<(int, int)>, n: int) -> Seq<(int, int)>
    decreases n,
{
    if n <= 0 {
        Seq::empty()
    } else if overridden(m, refs, refs[n - 1]) {
        kept_upto(m, refs, n - 1)
    } else {
        kept_upto(m, refs, n - 1).push(refs[n - 1])
    }
}

pub open spec fn kept(m: Manifest, refs: Seq<(int, int)>) -> Seq<(int, int)> {
    kept_upto(m, refs, refs.len() as int)
}

/// `v` is what the manifest selects: each entry that nothing overrides,
/// in order, declared in `root`.
pub open spec fn selected_as(
    m: Manifest,
    root: Seq<Seq<char>>,
    is_dev: bool,
    targets: Seq<Option<String>>,
    v: Seq<Dependency>,
) -> bool {
    let ks = kept(m, entry_refs(m, is_dev, targets));
    &&& v.len() == ks.len()
    &&& forall|i: int|
        0 <= i < v.len() ==> same_but_root(#[trigger] v[i], dep_at(m, ks[i])) && opt_path(
            v[i].included_from,
        ) == Some(root)
}

/// Selecting from the manifest raises none of its errors.
pub open spec fn selects_cleanly(m: Manifest, is_dev: bool, targets: Seq<Option<String>>) -> bool {
    let refs = entry_refs(m, is_dev, targets);
    !bad_target(targets) && !missing_name(m, refs) && !has_duplicate(m, refs) && !invalid_replace(
        m,
        refs,
    ) && !double_replace(m, refs)
}

pub open spec fn ints(s: Seq<(usize, usize)>) -> Seq<(int, int)> {
    s.map_values(|p: (usize, usize)| (p.0 as int, p.1 as int))
}

/// Whether `t` is the default target or one of `targets`.
fn is_listed(t: &Option<String>, targets: &Vec<Option<String>>) -> (r: bool)
    ensures
        r == target_listed(*t, targets@),
{
    let name = match t {
        None => return true,
        Some(n) => n,
    };
    let mut i: usize = 0;
    while i < targets.len()
        invariant
            i <= targets.len(),
            *t == Some(*name),
            forall|k: int|
                0 <= k < i ==> !((#[trigger] targets@[k]).is_some() && targets@[k].unwrap()@
                    == name@),
        decreases targets.len() - i,
    {
        match &targets[i] {
            Some(x) => {
                if str_eq(x, name) {
                    return true;
                }
            },
            None => {},
        }
        i += 1;
    }
    false
}

/// Whether the section `q` is read for `is_dev` and `targets`.
pub fn is_visible(q: &Query, is_dev: bool, targets: &Vec<Option<String>>) -> (r: bool)
    ensures
        r == visible(*q, is_dev, targets@),
{
    (is_dev || !q.dev) && is_listed(&q.target, targets)
}

fn same_name_opt(a: &Option<String>, b: &Option<String>) -> (r: bool)
    ensures
        r == (a.is_some() && b.is_some() && a.unwrap()@ == b.unwrap()@),
{
    match (a, b) {
        (Some(x), Some(y)) => str_eq(x, y),
        _ => false,
    }
}

impl Manifest {
    fn entry(&self, e: (usize, usize)) -> (r: &Dependency)
        requires
            e.0 < self.sections@.len(),
            e.1 < self.sections@[e.0 as int].addons@.len(),
        ensures
            *r == dep_at(*self, (e.0 as int, e.1 as int)),
    {
        &self.sections[e.0].addons[e.1]
    }

    /// The visible entries, as (section, position) pairs.
    fn visible_refs(&self, is_dev: bool, targets: &Vec<Option<String>>) -> (r: Vec<(usize, usize)>)
        ensures
            ints(r@) == entry_refs(*self, is_dev, targets@),
            forall|k: int|
                0 <= k < r@.len() ==> (#[trigger] r@[k]).0 < self.sections@.len() && r@[k].1
                    < self.sections@[r@[k].0 as int].addons@.len(),
    {
        let mut refs: Vec<(usize, usize)> = Vec::new();
        let mut i: usize = 0;
        while i < self.sections.len()
            invariant
                i <= self.sections@.len(),
                ints(refs@) == refs_upto(self.sections@, i as int, is_dev, targets@),
                forall|k: int|
                    0 <= k < refs@.len() ==> (#[trigger] refs@[k]).0 < self.sections@.len()
                        && refs@[k].1 < self.sections@[refs@[k].0 as int].addons@.len(),
            decreases self.sections.len() - i,
        {
            let ghost before = refs@;
            if is_visible(&self.sections[i].query, is_dev, targets) {
                let n = self.sections[i].addons.len();
                let mut k: usize = 0;
                while k < n
                    invariant
                        i < self.sections@.len(),
                        n == self.sections@[i as int].addons@.len(),
                        k <= n,
                        ints(refs@) == ints(before) + Seq::new(k as nat, |j: int| (i as int, j)),
                        forall|q: int|
                            0 <= q < refs@.len() ==> (#[trigger] refs@[q]).0
                                < self.sections@.len() && refs@[q].1 < self.sections@[refs@[q].0 as int].addons@.len(),
                    decreases n - k,
                {
                    let ghost prev = refs@;
                    refs.push((i, k));
                    proof {
                        assert(ints(refs@) =~= ints(prev).push((i as int, k as int)));
                        assert(ints(refs@) =~= ints(before) + Seq::new(
                            (k + 1) as nat,
                            |j: int| (i as int, j),
                        ));
                    }
                    k += 1;
                }
                proof {
                    assert(ints(refs@) =~= refs_upto(self.sections@, i + 1, is_dev, targets@));
                }
            } else {
                proof {
                    assert(refs_upto(self.sections@, i + 1, is_dev, targets@) =~= refs_upto(
                        self.sections@,
                        i as int,
                        is_dev,
                        targets@,
                    ));
                }
            }
            i += 1;
        }
        refs
    }

    /// The dependencies that the manifest declares for the environment
    /// (`is_dev`: development and production, else production alone) and
    /// for the default target together with `targets`, each declared in
    /// `root`. An addon declared twice in one environment, both times for
    /// the default target or both times for named targets, is an error; a
    /// development entry overrides a production one, and an entry of a
    /// named target one of the default target. The entries keep the
    /// manifest's order.
    pub fn dependencies(&self, root: &Vec<String>, is_dev: bool, targets: &Vec<Option<String>>) -> (r:
        Result<Vec<Dependency>, ManifestError>)
        ensures
            ({
                let refs = entry_refs(*self, is_dev, targets@);
                &&& r is Ok <==> selects_cleanly(*self, is_dev, targets@)
                &&& (r is Err && r->Err_0 is MissingTarget) <==> bad_target(targets@)
                &&& (r is Err && r->Err_0 is MissingName) <==> (
                !bad_target(targets@) && missing_name(*self, refs))
                &&& (r is Err && r->Err_0 is Duplicate) <==> (!bad_target(targets@) && !missing_name(
                    *self,
                    refs,
                ) && has_duplicate(*self, refs))
                &&& (r is Err && r->Err_0 is InvalidReplace) <==> (!bad_target(targets@)
                    && !missing_name(*self, refs) && !has_duplicate(*self, refs) && invalid_replace(
                    *self,
                    refs,
                ))
                &&& (r is Err && r->Err_0 is DoubleReplace) <==> (!bad_target(targets@)
                    && !missing_name(*self, refs) && !has_duplicate(*self, refs) && !invalid_replace(
                    *self,
                    refs,
                ) && double_replace(*self, refs))
                &&& r is Ok ==> selected_as(*self, views(root@), is_dev, targets@, r->Ok_0@)
                &&& r matches Err(ManifestError::Duplicate(n, qs)) ==> exists|i: int, j: int|
                    0 <= i < j < refs.len() && #[trigger] conflicting(*self, refs[i], refs[j])
                        && dep_at(*self, refs[i]).addon.unwrap()@ == n@ && qs@.len() == 2
                        && same_query(qs@[0], query_at(*self, refs[j])) && same_query(
                        qs@[1],
                        query_at(*self, refs[i]),
                    )
                &&& r matches Err(ManifestError::InvalidReplace(n)) ==> exists|i: int|
                    0 <= i < refs.len() && dep_at(*self, #[trigger] refs[i]).replace.is_some()
                        && query_at(*self, refs[i]).target.is_none() && dep_at(*self, refs[i]).addon.unwrap()@
                        == n@
                &&& r matches Err(ManifestError::DoubleReplace(n)) ==> exists|i: int, j: int|
                    0 <= i < j < refs.len() && #[trigger] replaces_same(*self, refs[i], refs[j])
                        && dep_at(*self, refs[j]).addon.unwrap()@ == n@
            }),
    {
        let mut t: usize = 0;
        while t < targets.len()
            invariant
                t <= targets.len(),
                forall|k: int|
                    0 <= k < t ==> !((#[trigger] targets@[k]).is_some() && targets@[k].unwrap()@.len()
                        == 0),
            decreases targets.len() - t,
        {
            match &targets[t] {
                Some(s) => {
                    if s.as_str().unicode_len() == 0 {
                        return Err(ManifestError::MissingTarget);
                    }
                },
                None => {},
            }
            t += 1;
        }
        assert(!bad_target(targets@));
        let refs = self.visible_refs(is_dev, targets);
        let ghost gr = entry_refs(*self, is_dev, targets@);
        let n = refs.len();
        assert(forall|k: int| 0 <= k < n ==> (#[trigger] gr[k]) == (refs@[k].0 as int, refs@[k].1 as int));
        let mut i: usize = 0;
        while i < n
            invariant
                n == refs@.len(),
                gr == ints(refs@),
                !bad_target(targets@),
                gr == entry_refs(*self, is_dev, targets@),
                i <= n,
                forall|k: int|
                    0 <= k < refs@.len() ==> (#[trigger] refs@[k]).0 < self.sections@.len() && refs@[k].1
                        < self.sections@[refs@[k].0 as int].addons@.len(),
                forall|k: int| 0 <= k < i ==> dep_at(*self, #[trigger] gr[k]).addon.is_some(),
            decreases n - i,
        {
            if self.entry(refs[i]).addon.is_none() {
                assert(dep_at(*self, gr[i as int]).addon.is_none());
                return Err(ManifestError::MissingName);
            }
            i += 1;
        }
        let mut i: usize = 0;
        while i < n
            invariant
                n == refs@.len(),
                gr == ints(refs@),
                !bad_target(targets@),
                gr == entry_refs(*self, is_dev, targets@),
                i <= n,
                forall|k: int|
                    0 <= k < refs@.len() ==> (#[trigger] refs@[k]).0 < self.sections@.len() && refs@[k].1
                        < self.sections@[refs@[k].0 as int].addons@.len(),
                !missing_name(*self, gr),
                forall|a: int, b: int|
                    0 <= a < i && a < b < n ==> !#[trigger] conflicting(*self, gr[a], gr[b]),
            decreases n - i,
        {
            let mut j: usize = i + 1;
            while j < n
                invariant
                    n == refs@.len(),
                    gr == ints(refs@),
                    !bad_target(targets@),
                    gr == entry_refs(*self, is_dev, targets@),
                gr == entry_refs(*self, is_dev, targets@),
                !bad_target(targets@),
                gr == entry_refs(*self, is_dev, targets@),
                    i < n,
                    i < j <= n,
                    forall|k: int|
                        0 <= k < refs@.len() ==> (#[trigger] refs@[k]).0 < self.sections@.len()
                            && refs@[k].1 < self.sections@[refs@[k].0 as int].addons@.len(),
                    !missing_name(*self, gr),
                    forall|a: int, b: int|
                        0 <= a < i && a < b < n ==> !#[trigger] conflicting(*self, gr[a], gr[b]),
                    forall|b: int| i < b < j ==> !#[trigger] conflicting(*self, gr[i as int], gr[b]),
                decreases n - j,
            {
                let a = self.entry(refs[i]);
                let b = self.entry(refs[j]);
                let qa = &self.sections[refs[i].0].query;
                let qb = &self.sections[refs[j].0].query;
                if same_name_opt(&a.addon, &b.addon) && qa.dev == qb.dev && qa.target.is_some()
                    == qb.target.is_some() {
                    assert(conflicting(*self, gr[i as int], gr[j as int]));
                    let name = a.addon.as_ref().unwrap().clone();
                    let qs = vec![qb.copy(), qa.copy()];
                    return Err(ManifestError::Duplicate(name, qs));
                }
                j += 1;
            }
            i += 1;
        }
        let mut i: usize = 0;
        while i < n
            invariant
                n == refs@.len(),
                gr == ints(refs@),
                !bad_target(targets@),
                gr == entry_refs(*self, is_dev, targets@),
                i <= n,
                forall|k: int|
                    0 <= k < refs@.len() ==> (#[trigger] refs@[k]).0 < self.sections@.len() && refs@[k].1
                        < self.sections@[refs@[k].0 as int].addons@.len(),
                !missing_name(*self, gr),
                !has_duplicate(*self, gr),
                forall|k: int|
                    0 <= k < i ==> !(dep_at(*self, #[trigger] gr[k]).replace.is_some() && query_at(
                        *self,
                        gr[k],
                    ).target.is_none()),
            decreases n - i,
        {
            let d = self.entry(refs[i]);
            if d.replace.is_some() && self.sections[refs[i].0].query.target.is_none() {
                assert(dep_at(*self, gr[i as int]).replace.is_some());
                let name = d.addon.as_ref().unwrap().clone();
                return Err(ManifestError::InvalidReplace(name));
            }
            i += 1;
        }
        let mut i: usize = 0;
        while i < n
            invariant
                n == refs@.len(),
                gr == ints(refs@),
                !bad_target(targets@),
                gr == entry_refs(*self, is_dev, targets@),
                i <= n,
                forall|k: int|
                    0 <= k < refs@.len() ==> (#[trigger] refs@[k]).0 < self.sections@.len() && refs@[k].1
                        < self.sections@[refs@[k].0 as int].addons@.len(),
                !missing_name(*self, gr),
                !has_duplicate(*self, gr),
                !invalid_replace(*self, gr),
                forall|a: int, b: int|
                    0 <= a < i && a < b < n ==> !#[trigger] replaces_same(*self, gr[a], gr[b]),
            decreases n - i,
        {
            let mut j: usize = i + 1;
            while j < n
                invariant
                    n == refs@.len(),
                    gr == ints(refs@),
                    !bad_target(targets@),
                    gr == entry_refs(*self, is_dev, targets@),
                gr == entry_refs(*self, is_dev, targets@),
                !bad_target(targets@),
                gr == entry_refs(*self, is_dev, targets@),
                    i < n,
                    i < j <= n,
                    forall|k: int|
                        0 <= k < refs@.len() ==> (#[trigger] refs@[k]).0 < self.sections@.len()
                            && refs@[k].1 < self.sections@[refs@[k].0 as int].addons@.len(),
                    !missing_name(*self, gr),
                    !has_duplicate(*self, gr),
                    !invalid_replace(*self, gr),
                    forall|a: int, b: int|
                        0 <= a < i && a < b < n ==> !#[trigger] replaces_same(*self, gr[a], gr[b]),
                    forall|b: int| i < b < j ==> !#[trigger] replaces_same(*self, gr[i as int], gr[b]),
                decreases n - j,
            {
                let a = self.entry(refs[i]);
                let b = self.entry(refs[j]);
                if same_name_opt(&a.replace, &b.replace) {
                    assert(replaces_same(*self, gr[i as int], gr[j as int]));
                    let name = b.addon.as_ref().unwrap().clone();
                    return Err(ManifestError::DoubleReplace(name));
                }
                j += 1;
            }
            i += 1;
        }
        let mut out: Vec<Dependency> = Vec::new();
        let mut i: usize = 0;
        while i < n
            invariant
                n == refs@.len(),
                gr == ints(refs@),
                !bad_target(targets@),
                gr == entry_refs(*self, is_dev, targets@),
                i <= n,
                forall|k: int|
                    0 <= k < refs@.len() ==> (#[trigger] refs@[k]).0 < self.sections@.len() && refs@[k].1
                        < self.sections@[refs@[k].0 as int].addons@.len(),
                out@.len() == kept_upto(*self, gr, i as int).len(),
                forall|k: int|
                    0 <= k < out@.len() ==> same_but_root(
                        #[trigger] out@[k],
                        dep_at(*self, kept_upto(*self, gr, i as int)[k]),
                    ) && opt_path(out@[k].included_from) == Some(views(root@)),
            decreases n - i,
        {
            let e = refs[i];
            let d = self.entry(e);
            let q = &self.sections[e.0].query;
            let mut over = false;
            let mut j: usize = 0;
            while j < n
                invariant
                    n == refs@.len(),
                    gr == ints(refs@),
                    !bad_target(targets@),
                    gr == entry_refs(*self, is_dev, targets@),
                gr == entry_refs(*self, is_dev, targets@),
                !bad_target(targets@),
                gr == entry_refs(*self, is_dev, targets@),
                    i < n,
                    j <= n,
                    e == refs@[i as int],
                    *d == dep_at(*self, gr[i as int]),
                    *q == query_at(*self, gr[i as int]),
                    forall|k: int|
                        0 <= k < refs@.len() ==> (#[trigger] refs@[k]).0 < self.sections@.len()
                            && refs@[k].1 < self.sections@[refs@[k].0 as int].addons@.len(),
                    over == exists|k: int| 0 <= k < j && #[trigger] overrides(*self, gr[k], gr[i as int]),
                decreases n - j,
            {
                let f = self.entry(refs[j]);
                let qf = &self.sections[refs[j].0].query;
                let o = same_name_opt(&d.addon, &f.addon) && ((!q.dev && qf.dev) || (q.dev == qf.dev
                    && q.target.is_none() && qf.target.is_some()));
                proof {
                    assert(o == overrides(*self, gr[j as int], gr[i as int]));
                }
                over = over || o;
                j += 1;
            }
            proof {
                assert(over == overridden(*self, gr, gr[i as int]));
            }
            if !over {
                out.push(d.rooted_at(root));
            }
            i += 1;
        }
        Ok(out)
    }
}

/// The same section: one environment and one target.
pub open spec fn same_query(a: Query, b: Query) -> bool {
    a.dev == b.dev && opt_view(a.target) == opt_view(b.target)
}

/// The entries of every section for `q`, in manifest order.
pub open spec fn addons_upto(secs: Seq<Section>, q: Query, n: int) -> Seq<Dependency>
    decreases n,
{
    if n <= 0 {
        Seq::empty()
    } else if same_query(secs[n - 1].query, q) {
        addons_upto(secs, q, n - 1) + secs[n - 1].addons@
    } else {
        addons_upto(secs, q, n - 1)
    }
}

impl Manifest {
    /// The addons recorded for one environment and target, in order.
    pub fn addons(&self, q: &Query) -> (r: Vec<Dependency>)
        ensures
            r@.len() == addons_upto(self.sections@, *q, self.sections@.len() as int).len(),
            forall|i: int|
                0 <= i < r@.len() ==> same_dependency(
                    #[trigger] r@[i],
                    addons_upto(self.sections@, *q, self.sections@.len() as int)[i],
                ),
    {
        let mut out: Vec<Dependency> = Vec::new();
        let mut i: usize = 0;
        while i < self.sections.len()
            invariant
                i <= self.sections@.len(),
                out@.len() == addons_upto(self.sections@, *q, i as int).len(),
                forall|k: int|
                    0 <= k < out@.len() ==> same_dependency(
                        #[trigger] out@[k],
                        addons_upto(self.sections@, *q, i as int)[k],
                    ),
            decreases self.sections.len() - i,
        {
            let s = &self.sections[i];
            let same = s.query.dev == q.dev && match (&s.query.target, &q.target) {
                (Some(a), Some(b)) => str_eq(a, b),
                (None, None) => true,
                _ => false,
            };
            if same {
                let ghost start = out@;
                let n = s.addons.len();
                let mut k: usize = 0;
                while k < n
                    invariant
                        i < self.sections@.len(),
                        *s == self.sections@[i as int],
                        n == s.addons@.len(),
                        k <= n,
                        start.len() == addons_upto(self.sections@, *q, i as int).len(),
                        forall|j: int|
                            0 <= j < start.len() ==> same_dependency(
                                #[trigger] start[j],
                                addons_upto(self.sections@, *q, i as int)[j],
                            ),
                        out@.len() == start.len() + k,
                        forall|j: int| 0 <= j < start.len() ==> out@[j] == start[j],
                        forall|j: int|
                            0 <= j < k ==> same_dependency(
                                #[trigger] out@[start.len() + j],
                                s.addons@[j],
                            ),
                    decreases n - k,
                {
                    out.push(s.addons[k].copy());
                    k += 1;
                }
                proof {
                    let all = addons_upto(self.sections@, *q, i + 1);
                    assert(all == addons_upto(self.sections@, *q, i as int) + s.addons@);
                    assert forall|j: int| 0 <= j < out@.len() implies same_dependency(
                        #[trigger] out@[j],
                        all[j],
                    ) by {
                        let prev = addons_upto(self.sections@, *q, i as int);
                        if j >= start.len() {
                            let d = j - start.len();
                            assert(out@[start.len() + d] == out@[j]);
                            assert(same_dependency(out@[start.len() + d], s.addons@[d]));
                            assert(all[j] == s.addons@[d]);
                        } else {
                            assert(out@[j] == start[j]);
                            assert(same_dependency(start[j], prev[j]));
                            assert(all[j] == prev[j]);
                        }
                    }
                }
            }
            i += 1;
        }
        out
    }
}

} // verus!
