use gdpack::dependency::{Dependency, Hook};
use gdpack::manifest::{Manifest, Query, Section};
use gdpack::project::Project;
use gdpack::resolve::{Addon, Install, Merge, ResolveError, ResolvedSet};
use gdpack::source::Source;
use gdpack::version::Version;

fn p(parts: &[&str]) -> Vec<String> {
    parts.iter().map(|s| s.to_string()).collect()
}

fn dep(name: &str, dir: &str) -> Dependency {
    Dependency {
        addon: Some(name.to_string()),
        included_from: Some(p(&["/", "proj"])),
        replace: None,
        source: Source::Path { path: p(&[dir]) },
        hooks: Hook::default(),
    }
}

fn addon(subfolder: &str, version: Option<Version>, manifest: Option<Manifest>) -> Addon {
    Addon {
        manifest,
        path: p(&["/", "cache", subfolder]),
        subfolder: subfolder.to_string(),
        version,
        hooks: Hook::default(),
    }
}

fn v(s: &str) -> Option<Version> {
    Version::parse(s)
}

#[test]
fn compatible_versions_merge_to_the_highest() {
    let mut set = ResolvedSet::new();
    assert_eq!(set.insert("X".into(), addon("x", v("1.2.0"), None), dep("X", "a")), Ok(Merge::Added));
    assert_eq!(set.insert("X".into(), addon("x", v("1.5.0"), None), dep("X", "b")), Ok(Merge::Replaced));
    assert_eq!(set.entries.len(), 1);
    assert_eq!(set.entries[0].addon.version, Some(Version::new(1, 5, 0)));
    assert_eq!(set.insert("X".into(), addon("x", v("1.3.0"), None), dep("X", "c")), Ok(Merge::Kept));
    assert_eq!(set.entries[0].addon.version, Some(Version::new(1, 5, 0)));
}

#[test]
fn different_major_versions_are_incompatible() {
    let mut set = ResolvedSet::new();
    set.insert("X".into(), addon("x", v("1.9.0"), None), dep("X", "a")).unwrap();
    assert_eq!(
        set.insert("X".into(), addon("x", v("2.0.0"), None), dep("X", "b")),
        Err(ResolveError::IncompatibleVersions("X".into(), v("1.9.0"), v("2.0.0")))
    );
    assert_eq!(
        set.insert("X".into(), addon("x", None, None), dep("X", "b")),
        Err(ResolveError::IncompatibleVersions("X".into(), None, v("1.9.0")))
    );
}

#[test]
fn unversioned_duplicates_must_be_identical() {
    let mut set = ResolvedSet::new();
    set.insert("Y".into(), addon("y", None, None), dep("Y", "a")).unwrap();
    assert_eq!(set.insert("Y".into(), addon("y", None, None), dep("Y", "a")), Ok(Merge::Kept));
    assert_eq!(
        set.insert("Y".into(), addon("y", None, None), dep("Y", "other")),
        Err(ResolveError::IncompatibleVersions("Y".into(), None, None))
    );
}

#[test]
fn prerelease_ranks_below_its_release() {
    let mut set = ResolvedSet::new();
    set.insert("Z".into(), addon("z", v("1.0.0-alpha"), None), dep("Z", "a")).unwrap();
    assert_eq!(set.insert("Z".into(), addon("z", v("1.0.0"), None), dep("Z", "b")), Ok(Merge::Replaced));
}

#[test]
fn two_addons_in_one_subfolder_collide() {
    let mut set = ResolvedSet::new();
    set.insert("A".into(), addon("shared", None, None), dep("A", "a")).unwrap();
    assert_eq!(
        set.insert("B".into(), addon("shared", None, None), dep("B", "b")),
        Err(ResolveError::SubfolderCollision("shared".into(), "B".into(), "A".into()))
    );
    assert_eq!(set.entries.len(), 1);
}

fn section(dev: bool, target: Option<&str>, deps: Vec<Dependency>) -> Section {
    Section { query: Query { dev, target: target.map(|t| t.to_string()) }, addons: deps }
}

fn manifest(sections: Vec<Section>) -> Manifest {
    Manifest { sections, project: Project::default() }
}

/// Resolves on paper: every dependency is located at its directory name.
fn resolve(m: &Manifest, dev: bool, subs: &dyn Fn(&str) -> Option<Manifest>) -> Vec<String> {
    let mut inst = Install::new(m, &p(&["/", "proj"]), dev, vec![]).unwrap();
    while let Some(d) = inst.next_dependency() {
        let name = d.addon.clone().unwrap();
        let a = addon(&name, None, subs(&name));
        inst.accept(a, &p(&["/", "cache", &name])).unwrap();
    }
    let mut names: Vec<String> = inst.into_addons().into_iter().map(|a| a.subfolder).collect();
    names.sort();
    names
}

#[test]
fn dev_only_addons_do_not_pull_in_their_dependencies() {
    let project = manifest(vec![section(true, None, vec![dep("A", "a")])]);
    let sub = |n: &str| match n {
        "A" => Some(manifest(vec![section(false, None, vec![dep("B", "b")])])),
        _ => None,
    };
    assert_eq!(resolve(&project, false, &sub), Vec::<String>::new());
    assert_eq!(resolve(&project, true, &sub), vec!["A".to_string(), "B".to_string()]);
}

#[test]
fn production_addons_pull_in_their_production_dependencies() {
    let project = manifest(vec![section(false, None, vec![dep("A", "a")])]);
    let sub = |n: &str| match n {
        "A" => Some(manifest(vec![
            section(false, None, vec![dep("B", "b")]),
            section(true, None, vec![dep("C", "c")]),
        ])),
        _ => None,
    };
    assert_eq!(resolve(&project, false, &sub), vec!["A".to_string(), "B".to_string()]);
    assert_eq!(resolve(&project, true, &sub), vec!["A".to_string(), "B".to_string()]);
}

#[test]
fn accept_needs_a_taken_dependency() {
    let m = manifest(vec![section(false, None, vec![dep("A", "a")])]);
    let mut inst = Install::new(&m, &p(&["/", "proj"]), false, vec![]).unwrap();
    assert_eq!(inst.accept(addon("a", None, None), &p(&["/"])), Err(ResolveError::NothingPending));
    let d = inst.next_dependency().unwrap();
    assert_eq!(inst.next_dependency(), Some(d));
    assert_eq!(inst.accept(addon("A", None, None), &p(&["/", "cache", "a"])), Ok(Merge::Added));
    assert_eq!(inst.next_dependency(), None);
}

#[test]
fn mutual_dependencies_terminate() {
    let project = manifest(vec![section(false, None, vec![dep("A", "a")])]);
    let sub = |n: &str| match n {
        "A" => Some(manifest(vec![section(false, None, vec![dep("B", "b")])])),
        "B" => Some(manifest(vec![section(false, None, vec![dep("A", "a")])])),
        _ => None,
    };
    // B's requirement on A is written exactly as the project's, so A is kept
    // and nothing more joins the queue.
    let mut inst = Install::new(&project, &p(&["/", "proj"]), false, vec![]).unwrap();
    let mut last = Ok(Merge::Added);
    while let Some(d) = inst.next_dependency() {
        let name = d.addon.clone().unwrap();
        last = inst.accept(addon(&name, None, sub(&name)), &p(&["/", "proj"]));
        if last.is_err() {
            break;
        }
    }
    assert!(last.is_ok());
}

#[test]
fn a_subfolder_collision_wins_over_the_colliding_addons_manifest() {
    let project = manifest(vec![section(false, None, vec![dep("A", "a"), dep("B", "b")])]);
    let mut inst = Install::new(&project, &p(&["/", "proj"]), false, vec![]).unwrap();
    inst.next_dependency().unwrap();
    assert_eq!(inst.accept(addon("shared", None, None), &p(&["/", "cache", "a"])), Ok(Merge::Added));
    inst.next_dependency().unwrap();
    // B's own manifest could not even be selected from; the collision is reported first.
    let mut nameless = dep("C", "c");
    nameless.addon = None;
    let broken = manifest(vec![section(false, None, vec![nameless])]);
    let bad_b = addon("shared", None, Some(broken));
    assert_eq!(
        inst.accept(bad_b, &p(&["/", "cache", "b"])),
        Err(ResolveError::SubfolderCollision("shared".into(), "B".into(), "A".into()))
    );
}
