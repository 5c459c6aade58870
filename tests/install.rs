use gdpack::project::{manifest_file, template_link};
use gdpack::dependency::{check_rooted, Dependency, DependencyError, Hook};
use gdpack::project::{
    install_destination, install_plan, should_install, ExportFiles, PathFault, ProjectError,
    ScannedFile, ScriptTemplate, ScriptTemplateScan, ScriptTemplates, TemplateScan,
};
use gdpack::source::Source;

fn p(parts: &[&str]) -> Vec<String> {
    parts.iter().map(|s| s.to_string()).collect()
}

fn rel(s: &str) -> Vec<String> {
    s.split('/').map(|c| c.to_string()).collect()
}

/// Installs the listed addon files into `project/addons/addon` on paper and
/// exports its templates, returning every resulting path under the project.
fn installed_tree(files: &[&str], rules: Option<ExportFiles>, export: &[&str]) -> Vec<String> {
    let root = p(&["/", "addon"]);
    let project = p(&["/", "project"]);
    let dest = install_destination(&project, &"addon".to_string());
    let listing: Vec<Vec<String>> = files.iter().map(|f| rel(f)).collect();
    let mut out: Vec<String> = install_plan(&root, &dest, &rules, &listing)
        .into_iter()
        .map(|(_, to)| to[project.len()..].join("/"))
        .collect();
    let st = ScriptTemplates { import: vec![], export: export.iter().map(|e| rel(e)).collect() };
    let roots = st.export_roots(&root);
    let scans: Vec<TemplateScan> = roots
        .iter()
        .map(|r| TemplateScan {
            root: Ok(r.clone()),
            is_dir: true,
            files: listing
                .iter()
                .filter(|f| f.starts_with(&r[root.len()..]))
                .map(|f| {
                    let below = f[r.len() - root.len()..].to_vec();
                    ScannedFile { path: below, canonical: Some([root.clone(), f.clone()].concat()) }
                })
                .collect(),
        })
        .collect();
    for t in st.exported_from(&root, &Ok(root.clone()), &scans).expect("export failed") {
        let t = t.make_included().expect("failed to rename script template");
        out.push(format!("script_templates/{}", t.path.join("/")));
    }
    out.sort();
    out
}

#[test]
fn test_addon_install_to_filters_hidden_files() {
    assert_eq!(installed_tree(&[".hidden", "file.txt"], None, &[]), vec!["addons/addon/file.txt"]);
}

#[test]
fn test_addon_install_to_filters_manifest() {
    assert_eq!(
        installed_tree(&["gdpack.toml", "file.txt"], None, &[]),
        vec!["addons/addon/file.txt"]
    );
}

#[test]
fn test_addon_install_to_adds_script_templates() {
    assert_eq!(
        installed_tree(
            &["templates/template1.gd", "templates/gdpack__template2.gd"],
            None,
            &["templates"]
        ),
        vec![
            "addons/addon/templates/gdpack__template2.gd",
            "addons/addon/templates/template1.gd",
            "script_templates/gdpack__template1.gd",
        ]
    );
}

#[test]
fn test_addon_install_to_excludes_and_includes_files() {
    let rules = Some(ExportFiles { included: vec![".hidden".into()], excluded: vec!["templates/*".into()] });
    assert_eq!(
        installed_tree(
            &[".hidden", "templates/template1.gd", "templates/gdpack__template2.gd"],
            rules,
            &["templates"]
        ),
        vec!["addons/addon/.hidden", "script_templates/gdpack__template1.gd"]
    );
}

#[test]
fn include_rules_win_over_exclude_rules() {
    let rules = Some(ExportFiles { included: vec!["docs/keep.md".into()], excluded: vec!["docs/*".into()] });
    assert!(should_install(&rules, &rel("docs/keep.md")));
    assert!(!should_install(&rules, &rel("docs/other.md")));
    assert!(should_install(&rules, &rel("src/main.gd")));
    assert!(!should_install(&None, &rel("sub/.git/config")));
    assert!(!should_install(&None, &rel("sub/gdpack.toml")));
}

#[test]
fn installing_twice_gives_the_same_links() {
    let listing = vec![rel("a.gd"), rel(".hidden"), rel("b/c.txt")];
    let first = install_plan(&p(&["/", "a"]), &p(&["/", "p", "addons", "a"]), &None, &listing);
    let second = install_plan(&p(&["/", "a"]), &p(&["/", "p", "addons", "a"]), &None, &listing);
    assert_eq!(first, second);
    assert_eq!(first.len(), 2);
    assert_eq!(first[1].1, p(&["/", "p", "addons", "a", "b", "c.txt"]));
}

#[test]
fn destination_follows_the_addons_directory() {
    assert_eq!(install_destination(&p(&["/", "proj"]), &"x".into()), p(&["/", "proj", "addons", "x"]));
    assert_eq!(
        install_destination(&p(&["/", "proj", "addons", "old", "deep"]), &"x".into()),
        p(&["/", "proj", "addons", "x"])
    );
}

#[test]
fn path_source_escaping_its_root_is_insecure() {
    let root = p(&["/", "home", "me", "proj"]);
    assert_eq!(
        check_rooted(&root, &p(&["/", "home", "me", "other"])),
        Err(DependencyError::InsecurePath(p(&["/", "home", "me", "other"])))
    );
    assert_eq!(
        check_rooted(&root, &p(&["/", "home", "me", "proj", "libs", "a"])),
        Ok(p(&["/", "home", "me", "proj", "libs", "a"]))
    );
}

#[test]
fn relative_path_source_is_read_from_its_manifest_directory() {
    let dep = Dependency {
        addon: Some("a".into()),
        included_from: Some(p(&["/", "proj"])),
        replace: None,
        source: Source::Path { path: p(&["..", "a"]) },
        hooks: Hook::default(),
    };
    assert_eq!(dep.local_path(), Some(Ok(p(&["/", "proj", "..", "a"]))));
    let mut unrooted = dep.clone();
    unrooted.included_from = None;
    assert_eq!(unrooted.local_path(), Some(Err(DependencyError::MissingPath)));
}

#[test]
fn symlinked_template_outside_the_addon_is_insecure() {
    let base = p(&["/", "addon"]);
    let st = ScriptTemplates { import: vec![], export: vec![rel("templates")] };
    let scans = vec![TemplateScan {
        root: Ok(p(&["/", "addon", "templates"])),
        is_dir: true,
        files: vec![ScannedFile { path: rel("evil.gd"), canonical: Some(p(&["/", "etc", "evil.gd"])) }],
    }];
    assert_eq!(
        st.exported_from(&base, &Ok(base.clone()), &scans),
        Err(ProjectError::Insecure(p(&["/", "addon", "templates", "evil.gd"])))
    );
    let outside = vec![TemplateScan { root: Ok(p(&["/", "elsewhere"])), is_dir: true, files: vec![] }];
    assert_eq!(
        st.exported_from(&base, &Ok(base.clone()), &outside),
        Err(ProjectError::Insecure(rel("templates")))
    );
    let missing = vec![TemplateScan { root: Err(PathFault::NotFound), is_dir: false, files: vec![] }];
    assert_eq!(
        st.exported_from(&base, &Ok(base.clone()), &missing),
        Err(ProjectError::MissingDir(rel("templates")))
    );
}

#[test]
fn template_helpers() {
    let t = ScriptTemplate { root: p(&["/", "r"]), path: rel("a/b.gd") };
    assert_eq!(t.get_full_path(), p(&["/", "r", "a", "b.gd"]));
    assert_eq!(t.make_included().unwrap().path, rel("a/gdpack__b.gd"));
    let scan = ScriptTemplateScan {
        path: p(&["/", "r"]),
        contents_first: true,
        map_to_relative: false,
        skip_nonimported: true,
        skip_imported: false,
    };
    let entries = vec![rel("x/gdpack__a.gd"), rel("x/b.gd"), rel("x/c.txt")];
    assert_eq!(scan.select(&entries), vec![p(&["/", "r", "x", "gdpack__a.gd"])]);
    assert_eq!(
        ScriptTemplates::find_scripts_in_dir(&p(&["/", "r"]), true, &entries),
        Ok(vec![rel("x/b.gd")])
    );
    assert_eq!(
        ScriptTemplates::find_scripts_in_dir(&p(&["/", "r"]), false, &entries),
        Err(ProjectError::MissingDir(p(&["/", "r"])))
    );
}

#[test]
fn imported_templates_are_gathered_from_every_directory() {
    let st = ScriptTemplates { import: vec![rel("shared")], export: vec![] };
    assert_eq!(st.import_roots(&p(&["/", "proj"])), vec![p(&["/", "proj", "shared"])]);
    let scans = vec![TemplateScan {
        root: Ok(p(&["/", "proj", "shared"])),
        is_dir: true,
        files: vec![ScannedFile { path: rel("n.gd"), canonical: None }],
    }];
    let got = st.included_from(&scans).unwrap();
    assert_eq!(got, vec![ScriptTemplate { root: p(&["/", "proj", "shared"]), path: rel("n.gd") }]);
    let bad = vec![TemplateScan { root: Err(PathFault::Other), is_dir: false, files: vec![] }];
    assert_eq!(st.included_from(&bad), Err(ProjectError::Invalid(rel("shared"))));
}

#[test]
fn hooks_run_through_the_shell() {
    let h = Hook { pre: Some("make".into()), post: None };
    assert_eq!(h.run_pre(), Some(p(&["sh", "-c", "make"])));
    assert_eq!(h.run_post(), None);
    assert_eq!(Hook::check_status(true, Some(0)), Ok(()));
    assert!(Hook::check_status(false, Some(2)).is_err());
}

#[test]
fn template_links_land_in_the_project() {
    let t = ScriptTemplate { root: p(&["/", "addon", "templates"]), path: rel("node/t.gd") };
    assert_eq!(
        template_link(&p(&["/", "proj"]), &t, true),
        Some((
            p(&["/", "addon", "templates", "node", "t.gd"]),
            p(&["/", "proj", "script_templates", "node", "gdpack__t.gd"])
        ))
    );
    assert_eq!(
        template_link(&p(&["/", "proj"]), &t, false).unwrap().1,
        p(&["/", "proj", "script_templates", "node", "t.gd"])
    );
    assert_eq!(manifest_file(), "gdpack.toml");
}
