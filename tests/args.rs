use gdpack::args::{dependency_from_args, GitRevArgs, ReleaseArgs, Uri};
use gdpack::dependency::{Dependency, Hook};
use gdpack::locate::{
    backfill_version, find_in_dir, is_extension_file, is_plugin_file, ExtensionFile, PluginFile,
};
use gdpack::paths::relative_path;
use gdpack::reference::Reference;
use gdpack::resolve::Addon;
use gdpack::source::{GitHubRelease, GitSource, Remote, Source};
use gdpack::version::Version;

fn p(parts: &[&str]) -> Vec<String> {
    parts.iter().map(|s| s.to_string()).collect()
}

#[test]
fn revision_arguments_prefer_commit_then_tag_then_branch() {
    let all = GitRevArgs { branch: Some("b".into()), rev: Some("r".into()), tag: Some("t".into()) };
    assert_eq!(all.reference(), Some(Reference::Rev("r".into())));
    let tb = GitRevArgs { branch: Some("b".into()), rev: None, tag: Some("t".into()) };
    assert_eq!(tb.reference(), Some(Reference::Tag("t".into())));
    let b = GitRevArgs { branch: Some("b".into()), ..GitRevArgs::default() };
    assert_eq!(b.reference(), Some(Reference::Branch("b".into())));
    assert_eq!(GitRevArgs::default().reference(), None);
}

#[test]
fn arguments_make_a_dependency() {
    let repo = Remote::parse("https://github.com/o/Tool.git").unwrap();
    let rel = ReleaseArgs { release: Some("v1".into()), asset: Some("a.zip".into()) };
    let d = dependency_from_args(&Uri::Url(repo.clone()), &None, &GitRevArgs::default(), &rel);
    assert_eq!(d.addon, Some("Tool".into()));
    assert_eq!(
        d.source,
        Source::Release(GitHubRelease { repo: repo.clone(), tag: "v1".into(), asset: "a.zip".into() })
    );
    let tag = GitRevArgs { tag: Some("v2".into()), ..GitRevArgs::default() };
    let d = dependency_from_args(&Uri::Url(repo.clone()), &Some("Other".into()), &tag, &ReleaseArgs::default());
    assert_eq!(d.addon, Some("Other".into()));
    assert_eq!(d.source, Source::Git(GitSource { reference: Some(Reference::Tag("v2".into())), repo }));
    let d = dependency_from_args(&Uri::Path(p(&["/", "x", "lib"])), &None, &tag, &ReleaseArgs::default());
    assert_eq!(d.addon, Some("lib".into()));
}

#[test]
fn paths_relative_to_a_directory() {
    assert_eq!(relative_path(&p(&["/", "a", "b", "c"]), &p(&["/", "a"])), p(&["b", "c"]));
    assert_eq!(relative_path(&p(&["/", "a", "x"]), &p(&["/", "a", "b", "c"])), p(&["..", "..", "x"]));
    let mut u = Uri::Path(p(&["/", "proj", "libs", "a"]));
    u.relative_to(&p(&["/", "proj", "game"]));
    assert_eq!(u, Uri::Path(p(&["..", "libs", "a"])));
}

#[test]
fn metadata_files_are_read_with_ini() {
    let pl = PluginFile::from_text(
        p(&["plugin.cfg"]),
        "[plugin]\nname='addon'\nversion='1.2.3'\nsubfolder=\"sub\"",
    );
    assert!(pl.parsed);
    assert_eq!(pl.name, Some("addon".into()));
    assert_eq!(pl.version, Some("1.2.3".into()));
    assert_eq!(pl.subfolder, Some("sub".into()));
    let l = find_in_dir(&p(&["/", "s"]), &"addon".into(), &vec![pl], &vec![], false).unwrap();
    assert_eq!(l.subfolder, "sub");
    assert_eq!(l.version, Some(Version::new(1, 2, 3)));
    let e = ExtensionFile::from_text(p(&["x.gdextension"]), "[configuration]\nentry_symbol = \"init\"\n");
    assert!(e.parsed);
    assert!(is_plugin_file(&p(&["a", "plugin.cfg"])));
    assert!(!is_plugin_file(&p(&["a", "plugin.cfg.bak"])));
    assert!(is_extension_file(&p(&["a", "x.gdextension"])));
    assert!(!is_extension_file(&p(&["a", ".gdextension"])));
}

#[test]
fn versions_are_backfilled_from_tags() {
    let repo = Remote::parse("https://github.com/o/r").unwrap();
    let rel = Source::Release(GitHubRelease { repo: repo.clone(), tag: "v3.1.0".into(), asset: "a".into() });
    assert_eq!(backfill_version(None, &rel), Some(Version::new(3, 1, 0)));
    assert_eq!(backfill_version(Some(Version::new(1, 0, 0)), &rel), Some(Version::new(1, 0, 0)));
    let git = Source::Git(GitSource { reference: Some(Reference::Tag("v0.4.2".into())), repo: repo.clone() });
    assert_eq!(backfill_version(None, &git), Some(Version::new(0, 4, 2)));
    let branch = Source::Git(GitSource { reference: Some(Reference::Branch("1.0.0".into())), repo });
    assert_eq!(backfill_version(None, &branch), None);

    let dep = Dependency {
        addon: Some("a".into()),
        included_from: None,
        replace: None,
        source: rel,
        hooks: Hook { pre: Some("echo pre".into()), post: None },
    };
    let l = find_in_dir(&p(&["/", "s"]), &"a".into(), &vec![], &vec![], false).unwrap();
    let a = Addon::from_located(l, &dep, None);
    assert_eq!(a.version, Some(Version::new(3, 1, 0)));
    assert_eq!(a.hooks.pre, Some("echo pre".into()));
    assert_eq!(a.subfolder, "a");
}

#[test]
fn release_asset_download_location() {
    let rel = GitHubRelease {
        repo: Remote::parse("https://github.com/owner/Tool.git").unwrap(),
        tag: "v1.0.0".into(),
        asset: "{name}-{tag}.zip".into(),
    };
    assert_eq!(
        rel.asset_url(),
        Some("https://github.com/owner/Tool/releases/download/v1.0.0/Tool-v1.0.0.zip".to_string())
    );
}
