use gdpack::locate::{find_in_dir, ExtensionFile, LocateError, PluginFile};
use gdpack::version::Version;

fn p(parts: &[&str]) -> Vec<String> {
    parts.iter().map(|s| s.to_string()).collect()
}

fn plugin(path: &[&str], name: &str, version: Option<&str>) -> PluginFile {
    PluginFile {
        path: p(path),
        parsed: true,
        name: Some(name.to_string()),
        subfolder: None,
        version: version.map(|v| v.to_string()),
    }
}

fn ext(path: &[&str]) -> ExtensionFile {
    ExtensionFile { path: p(path), parsed: true }
}

fn root() -> Vec<String> {
    p(&["/", "tmp", "snap"])
}

#[test]
fn test_addon_find_in_dir_fails_if_mismatching_plugin() {
    let plugins = vec![plugin(&["plugin.cfg"], "invalid", Some("1.2.3"))];
    assert!(find_in_dir(&root(), &"addon".to_string(), &plugins, &vec![], false).is_err());
}

#[test]
fn test_addon_find_in_dir_fails_if_mismatching_extension() {
    let exts = vec![ext(&["invalid.gdextension"])];
    assert!(find_in_dir(&root(), &"addon".to_string(), &vec![], &exts, false).is_err());
}

#[test]
fn test_addon_find_in_dir_with_root_plugin() {
    let plugins = vec![plugin(&["plugin.cfg"], "addon", Some("1.2.3"))];
    let l = find_in_dir(&root(), &"addon".to_string(), &plugins, &vec![], false)
        .expect("couldn't find addon");
    assert_eq!(l.path, root());
    assert_eq!(l.subfolder, "addon");
    assert_eq!(l.version, Some(Version::new(1, 2, 3)));
}

#[test]
fn test_addon_find_in_dir_with_root_ext() {
    // An `addon.ext` file is no descriptor: the snapshot holds plain assets.
    let l = find_in_dir(&root(), &"addon".to_string(), &vec![], &vec![], false)
        .expect("couldn't find addon");
    assert_eq!(l.path, root());
    assert_eq!(l.subfolder, "addon");
    assert_eq!(l.version, None);
}

#[test]
fn test_addon_find_in_dir_with_plugin_in_addons() {
    let plugins = vec![plugin(&["addons", "addon", "plugin.cfg"], "addon", Some("1.2.3"))];
    let l = find_in_dir(&root(), &"addon".to_string(), &plugins, &vec![], true)
        .expect("couldn't find addon");
    assert_eq!(l.path, p(&["/", "tmp", "snap", "addons", "addon"]));
    assert_eq!(l.subfolder, "addon");
    assert_eq!(l.version, Some(Version::new(1, 2, 3)));
}

#[test]
fn test_addon_find_in_dir_with_extension_in_addons() {
    let exts = vec![ext(&["addons", "addon", "addon.gdextension"])];
    let l = find_in_dir(&root(), &"addon".to_string(), &vec![], &exts, true)
        .expect("couldn't find addon");
    assert_eq!(l.path, p(&["/", "tmp", "snap", "addons", "addon"]));
    assert_eq!(l.subfolder, "addon");
    assert_eq!(l.version, None);
}

#[test]
fn test_addon_find_in_dir_with_static_in_addons() {
    let l = find_in_dir(&root(), &"addon".to_string(), &vec![], &vec![], true)
        .expect("couldn't find addon");
    assert_eq!(l.path, p(&["/", "tmp", "snap", "addons", "addon"]));
    assert_eq!(l.subfolder, "addon");
    assert_eq!(l.version, None);
}

#[test]
fn test_addon_find_in_dir_with_static_root() {
    let l = find_in_dir(&root(), &"addon".to_string(), &vec![], &vec![], false)
        .expect("couldn't find addon");
    assert_eq!(l.path, root());
    assert_eq!(l.subfolder, "addon");
}

#[test]
fn locator_prefers_the_plugin_that_names_the_addon() {
    let plugins = vec![
        plugin(&["plugin.cfg"], "other", Some("0.1.0")),
        plugin(&["addons", "foo", "plugin.cfg"], "foo", Some("2.0.0")),
    ];
    let l = find_in_dir(&root(), &"foo".to_string(), &plugins, &vec![], true).unwrap();
    assert_eq!(l.path, p(&["/", "tmp", "snap", "addons", "foo"]));
    assert_eq!(l.subfolder, "foo");
    assert_eq!(l.version, Some(Version::new(2, 0, 0)));
}

#[test]
fn locator_refuses_two_matches() {
    let plugins = vec![plugin(&["a", "plugin.cfg"], "foo", None)];
    let exts = vec![ext(&["b", "foo.gdextension"])];
    assert_eq!(
        find_in_dir(&root(), &"foo".to_string(), &plugins, &exts, false),
        Err(LocateError::NotFound)
    );
}

#[test]
fn locator_takes_subfolder_from_metadata_then_addons_dir() {
    let mut pl = plugin(&["x", "addons", "bar", "sub", "plugin.cfg"], "foo", None);
    let l = find_in_dir(&root(), &"foo".to_string(), &vec![pl.clone()], &vec![], false).unwrap();
    assert_eq!(l.subfolder, "bar");
    assert_eq!(l.path, p(&["/", "tmp", "snap", "x", "addons", "bar", "sub"]));
    pl.subfolder = Some("explicit".to_string());
    let l = find_in_dir(&root(), &"foo".to_string(), &vec![pl], &vec![], false).unwrap();
    assert_eq!(l.subfolder, "explicit");
    let pl = plugin(&["x", "plugin.cfg"], "foo", Some("not a version"));
    let l = find_in_dir(&root(), &"foo".to_string(), &vec![pl], &vec![], false).unwrap();
    assert_eq!(l.subfolder, "foo");
    assert_eq!(l.version, None);
}

#[test]
fn locator_reports_an_unreadable_descriptor() {
    let exts = vec![ExtensionFile { path: p(&["foo.gdextension"]), parsed: false }];
    assert_eq!(
        find_in_dir(&root(), &"foo".to_string(), &vec![], &exts, false),
        Err(LocateError::Unreadable(p(&["foo.gdextension"])))
    );
}

#[test]
fn unreadable_plugin_files_do_not_match() {
    let mut pl = plugin(&["plugin.cfg"], "foo", None);
    pl.parsed = false;
    assert_eq!(
        find_in_dir(&root(), &"foo".to_string(), &vec![pl], &vec![], false),
        Err(LocateError::NotFound)
    );
}
