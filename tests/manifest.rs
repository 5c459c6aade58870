use gdpack::args::{SourceError, SourceFields};
use gdpack::reference::Reference;
use gdpack::dependency::{Dependency, Hook};
use gdpack::manifest::{Key, Manifest, ManifestError, Query, Section};
use gdpack::project::Project;
use gdpack::source::Source;

fn p(parts: &[&str]) -> Vec<String> {
    parts.iter().map(|s| s.to_string()).collect()
}

fn dep(name: Option<&str>, dir: &str, replace: Option<&str>) -> Dependency {
    Dependency {
        addon: name.map(|n| n.to_string()),
        included_from: None,
        replace: replace.map(|r| r.to_string()),
        source: Source::Path { path: p(&[dir]) },
        hooks: Hook::default(),
    }
}

fn section(dev: bool, target: Option<&str>, deps: Vec<Dependency>) -> Section {
    Section { query: Query { dev, target: target.map(|t| t.to_string()) }, addons: deps }
}

fn manifest(sections: Vec<Section>) -> Manifest {
    Manifest { sections, project: Project::default() }
}

fn dirs(r: Result<Vec<Dependency>, ManifestError>) -> Vec<String> {
    r.unwrap()
        .into_iter()
        .map(|d| match d.source {
            Source::Path { path } => path.join("/"),
            _ => String::new(),
        })
        .collect()
}

#[test]
fn queries() {
    assert_eq!(Query::dev(), Query { dev: true, target: None });
    assert_eq!(Query::prod(), Query { dev: false, target: None });
    let q = Query { dev: true, target: Some("web".into()) };
    assert_eq!(q.invert_dev(), Query { dev: false, target: Some("web".into()) });
    assert_eq!(q.key_addons(), "dev-addons");
    assert_eq!(Query::prod().key_addons(), "addons");
    assert_eq!(Key { name: "a".into(), query: Query::prod() }.last(), "addons");
}

#[test]
fn selection_by_environment_and_target() {
    let m = manifest(vec![
        section(false, None, vec![dep(Some("A"), "a", None), dep(Some("B"), "b", None)]),
        section(true, None, vec![dep(Some("B"), "b-dev", None), dep(Some("T"), "t", None)]),
        section(false, Some("web"), vec![dep(Some("A"), "a-web", None)]),
        section(false, Some("mobile"), vec![dep(Some("M"), "m", None)]),
    ]);
    let root = p(&["/", "proj"]);
    assert_eq!(dirs(m.dependencies(&root, false, &vec![])), vec!["a", "b"]);
    assert_eq!(dirs(m.dependencies(&root, true, &vec![])), vec!["a", "b-dev", "t"]);
    assert_eq!(dirs(m.dependencies(&root, false, &vec![Some("web".into())])), vec!["b", "a-web"]);
    let all = m.dependencies(&root, false, &vec![Some("web".into())]).unwrap();
    assert!(all.iter().all(|d| d.included_from == Some(root.clone())));
}

#[test]
fn selection_errors() {
    let root = p(&["/"]);
    let m = manifest(vec![section(false, None, vec![dep(Some("A"), "a", None)])]);
    assert_eq!(m.dependencies(&root, false, &vec![Some(String::new())]), Err(ManifestError::MissingTarget));
    let m = manifest(vec![section(false, None, vec![dep(None, "a", None)])]);
    assert_eq!(m.dependencies(&root, false, &vec![]), Err(ManifestError::MissingName));
    let m = manifest(vec![
        section(false, Some("x"), vec![dep(Some("A"), "a", None)]),
        section(false, Some("y"), vec![dep(Some("A"), "b", None)]),
    ]);
    let targets = vec![Some("x".into()), Some("y".into())];
    assert_eq!(
        m.dependencies(&root, false, &targets),
        Err(ManifestError::Duplicate(
            "A".into(),
            vec![
                Query { dev: false, target: Some("y".into()) },
                Query { dev: false, target: Some("x".into()) }
            ]
        ))
    );
    let m = manifest(vec![section(false, None, vec![dep(Some("A"), "a", Some("B"))])]);
    assert_eq!(m.dependencies(&root, false, &vec![]), Err(ManifestError::InvalidReplace("A".into())));
    let m = manifest(vec![
        section(false, Some("x"), vec![dep(Some("A"), "a", Some("Z"))]),
        section(false, Some("y"), vec![dep(Some("C"), "c", Some("Z"))]),
    ]);
    assert_eq!(m.dependencies(&root, false, &targets), Err(ManifestError::DoubleReplace("C".into())));
}

#[test]
fn addons_of_one_section() {
    let m = manifest(vec![
        section(false, None, vec![dep(Some("A"), "a", None)]),
        section(true, None, vec![dep(Some("B"), "b", None)]),
        section(false, Some("web"), vec![dep(Some("C"), "c", None)]),
    ]);
    assert_eq!(m.addons(&Query::prod()), vec![dep(Some("A"), "a", None)]);
    assert_eq!(m.addons(&Query::dev()), vec![dep(Some("B"), "b", None)]);
    assert_eq!(
        m.addons(&Query { dev: false, target: Some("web".into()) }),
        vec![dep(Some("C"), "c", None)]
    );
    assert!(m.addons(&Query { dev: true, target: Some("web".into()) }).is_empty());
}

#[test]
fn entry_keys_name_exactly_one_source() {
    let path = SourceFields { path: Some(p(&["..", "lib"])), ..SourceFields::default() };
    assert_eq!(path.source(), Ok(Source::Path { path: p(&["..", "lib"]) }));
    let git = SourceFields {
        git: Some("https://github.com/o/r.git".into()),
        tag: Some("v1".into()),
        ..SourceFields::default()
    };
    match git.source() {
        Ok(Source::Git(g)) => assert_eq!(g.reference, Some(Reference::Tag("v1".into()))),
        other => panic!("unexpected {:?}", other),
    }
    let release = SourceFields {
        git: Some("https://github.com/o/r.git".into()),
        release: Some("v1".into()),
        asset: Some("a.zip".into()),
        ..SourceFields::default()
    };
    assert!(matches!(release.source(), Ok(Source::Release(_))));
    let mixed = SourceFields { path: Some(p(&["x"])), git: Some("https://h/o/r".into()), ..SourceFields::default() };
    assert_eq!(mixed.source(), Err(SourceError::Mixed));
    let two = SourceFields {
        git: Some("https://github.com/o/r.git".into()),
        tag: Some("v1".into()),
        branch: Some("main".into()),
        ..SourceFields::default()
    };
    assert_eq!(two.source(), Err(SourceError::Mixed));
    assert_eq!(SourceFields::default().source(), Err(SourceError::Mixed));
    let bad = SourceFields { git: Some("not a url".into()), ..SourceFields::default() };
    assert_eq!(bad.source(), Err(SourceError::InvalidUrl("not a url".into())));
}
