//! Finding an addon inside a fetched snapshot: its root directory, the
//! subfolder it installs into, and its version, from the plugin metadata
//! and extension descriptor files that a scan of the snapshot found.

use vstd::prelude::*;
use crate::dependency::{Dependency, Hook, copy_opt_str};
use crate::fetch::extension_of;
use crate::manifest::Manifest;
use crate::paths::{concat_paths, copy_path, str_eq};
use crate::reference::Reference;
use crate::resolve::Addon;
use crate::source::Source;
use crate::text::{opt_view, same_text, views};
use crate::version::{Version, parse_tag, parsed_version, tag_version};

verus! {

/// A plugin metadata file (`plugin.cfg`) found in a snapshot: its path
/// relative to the snapshot root, whether it could be read, and the
/// `name`, `subfolder` and `version` of its `[plugin]` section.
#[derive(Clone, Debug, PartialEq, Eq)]
pub struct PluginFile {
    pub path: Vec<String>,
    pub parsed: bool,
    pub name: Option<String>,
    pub subfolder: Option<String>,
    pub version: Option<String>,
}

/// An extension descriptor file (`*.gdextension`) found in a snapshot: its
/// path relative to the snapshot root and whether it could be read.
#[derive(Clone, Debug, PartialEq, Eq)]
pub struct ExtensionFile {
    pub path: Vec<String>,
    pub parsed: bool,
}

/// Where an addon lies in a snapshot and how it installs.
#[derive(Clone, Debug, PartialEq, Eq)]
pub struct Located {
    pub path: Vec<String>,
    pub subfolder: String,
    pub version: Option<Version>,
}

#[derive(Clone, Debug, PartialEq, Eq)]
pub enum LocateError {
    /// No metadata or descriptor file names the addon, or more than one does.
    NotFound,
    /// The one descriptor file that names the addon cannot be read.
    Unreadable(Vec<String>),
}

pub open spec fn plugin_matches(p: PluginFile, name: Seq<char>) -> bool {
    p.parsed && p.name.is_some() && p.name.unwrap()@ == name
}

pub open spec fn extension_matches(e: ExtensionFile, name: Seq<char>) -> bool {
    e.path@.len() > 0 && e.path@.last()@ == name + ".gdextension"@
}

pub open spec fn count_plugins(s: Seq<PluginFile>, name: Seq<char>, n: int) -> nat
    decreases n,
{
    if n <= 0 {
        0
    } else {
        count_plugins(s, name, n - 1) + if plugin_matches(s[n - 1], name) {
            1nat
        } else {
            0nat
        }
    }
}

pub open spec fn count_extensions(s: Seq<ExtensionFile>, name: Seq<char>, n: int) -> nat
    decreases n,
{
    if n <= 0 {
        0
    } else {
        count_extensions(s, name, n - 1) + if extension_matches(s[n - 1], name) {
            1nat
        } else {
            0nat
        }
    }
}

/// The position of the last `addons` component before the final one, or
/// -1 where there is none.
pub open spec fn last_addons(p: Seq<Seq<char>>, n: int) -> int
    decreases n,
{
    if n <= 0 {
        -1
    } else if p[n - 1] == "addons"@ {
        n - 1
    } else {
        last_addons(p, n - 1)
    }
}

/// The directory right under the last `addons` directory on a file's path.
pub open spec fn addons_subfolder(p: Seq<Seq<char>>) -> Option<Seq<char>> {
    let i = last_addons(p, p.len() - 1);
    if i >= 0 {
        Some(p[i + 1])
    } else {
        None
    }
}

/// The directory that holds a file.
pub open spec fn parent(p: Seq<Seq<char>>) -> Seq<Seq<char>> {
    if p.len() > 0 {
        p.drop_last()
    } else {
        p
    }
}

/// The subfolder of a matched plugin: its own `subfolder`, else the
/// directory under `addons` that holds it, else its name.
pub open spec fn plugin_subfolder(p: PluginFile) -> Seq<char> {
    match p.subfolder {
        Some(s) => s@,
        None => match addons_subfolder(views(p.path@)) {
            Some(x) => x,
            None => p.name.unwrap()@,
        },
    }
}

pub open spec fn plugin_version(p: PluginFile) -> Option<Version> {
    match p.version {
        Some(v) => parsed_version(v@),
        None => None,
    }
}

fn addons_dir_under(p: &Vec<String>) -> (r: Option<String>)
    ensures
        opt_view_eq(r, addons_subfolder(views(p@))),
{
    if p.len() == 0 {
        return None;
    }
    let mut n: usize = p.len() - 1;
    while n > 0
        invariant
            n < p@.len(),
            last_addons(views(p@), p@.len() - 1) == last_addons(views(p@), n as int),
        decreases n,
    {
        if crate::text::same_text(p[n - 1].as_str(), "addons") {
            proof {
                assert(views(p@)[n - 1] == "addons"@);
            }
            return Some(p[n].clone());
        }
        proof {
            assert(views(p@)[n - 1] != "addons"@);
        }
        n -= 1;
    }
    None
}

pub open spec fn opt_view_eq(a: Option<String>, b: Option<Seq<char>>) -> bool {
    match (a, b) {
        (Some(x), Some(y)) => x@ == y,
        (None, None) => true,
        _ => false,
    }
}

/// Finds the addon `name` in the snapshot rooted at `root`, given every
/// plugin metadata file and extension descriptor file found under it and
/// whether `root/addons/<name>` is a directory.
///
/// With no such file at all the addon is the plain assets of
/// `root/addons/<name>` where that directory exists, else of `root`, and
/// installs into `<name>`. Otherwise exactly one file must name the addon:
/// a readable plugin file whose `name` is `name`, or a descriptor file
/// called `<name>.gdextension`. The addon's root is that file's directory.
pub fn find_in_dir(
    root: &Vec<String>,
    name: &String,
    plugins: &Vec<PluginFile>,
    extensions: &Vec<ExtensionFile>,
    addon_dir_exists: bool,
) -> (r: Result<Located, LocateError>)
    ensures
        ({
            let np = count_plugins(plugins@, name@, plugins@.len() as int);
            let ne = count_extensions(extensions@, name@, extensions@.len() as int);
            &&& plugins@.len() == 0 && extensions@.len() == 0 ==> r is Ok && views(r->Ok_0.path@) == (
            if addon_dir_exists {
                views(root@) + seq!["addons"@, name@]
            } else {
                views(root@)
            }) && r->Ok_0.subfolder@ == name@ && r->Ok_0.version.is_none()
            &&& !(plugins@.len() == 0 && extensions@.len() == 0) ==> {
                &&& (r == Err::<Located, LocateError>(LocateError::NotFound)) <==> np + ne != 1
                &&& np == 1 && ne == 0 ==> exists|k: int|
                    0 <= k < plugins@.len() && plugin_matches(#[trigger] plugins@[k], name@) && r is Ok
                        && views(r->Ok_0.path@) == views(root@) + parent(views(plugins@[k].path@))
                        && r->Ok_0.subfolder@ == plugin_subfolder(plugins@[k]) && r->Ok_0.version
                        == plugin_version(plugins@[k])
                &&& np == 0 && ne == 1 ==> exists|k: int|
                    0 <= k < extensions@.len() && extension_matches(#[trigger] extensions@[k], name@)
                        && (extensions@[k].parsed ==> r is Ok && views(r->Ok_0.path@) == views(root@)
                        + parent(views(extensions@[k].path@)) && r->Ok_0.subfolder@ == name@
                        && r->Ok_0.version.is_none()) && (!extensions@[k].parsed ==> (r matches Err(
                        LocateError::Unreadable(p),
                    ) && views(p@) == views(extensions@[k].path@)))
            }
        }),
{
    if plugins.len() == 0 && extensions.len() == 0 {
        let path = if addon_dir_exists {
            let tail = vec![String::from_str("addons"), name.clone()];
            proof {
                assert(views(tail@) =~= seq!["addons"@, name@]);
            }
            concat_paths(root, &tail)
        } else {
            copy_path(root)
        };
        return Ok(Located { path, subfolder: name.clone(), version: None });
    }
    let mut np: usize = 0;
    let mut kp: usize = 0;
    let mut i: usize = 0;
    while i < plugins.len()
        invariant
            i <= plugins@.len(),
            np == count_plugins(plugins@, name@, i as int),
            np <= i,
            np > 0 ==> kp < plugins@.len() && plugin_matches(plugins@[kp as int], name@),
        decreases plugins.len() - i,
    {
        let p = &plugins[i];
        let m = p.parsed && match &p.name {
            Some(n) => str_eq(n, name),
            None => false,
        };
        if m {
            np += 1;
            kp = i;
        }
        i += 1;
    }
    let wanted = name.clone().concat(".gdextension");
    let mut ne: usize = 0;
    let mut ke: usize = 0;
    let mut i: usize = 0;
    while i < extensions.len()
        invariant
            wanted@ == name@ + ".gdextension"@,
            i <= extensions@.len(),
            ne == count_extensions(extensions@, name@, i as int),
            ne <= i,
            ne > 0 ==> ke < extensions@.len() && extension_matches(extensions@[ke as int], name@),
        decreases extensions.len() - i,
    {
        let e = &extensions[i];
        let n = e.path.len();
        if n > 0 && str_eq(&e.path[n - 1], &wanted) {
            ne += 1;
            ke = i;
        }
        i += 1;
    }
    if !((np == 1 && ne == 0) || (np == 0 && ne == 1)) {
        return Err(LocateError::NotFound);
    }
    if np == 1 {
        let p = &plugins[kp];
        let subfolder = match &p.subfolder {
            Some(s) => s.clone(),
            None => match addons_dir_under(&p.path) {
                Some(x) => x,
                None => p.name.as_ref().unwrap().clone(),
            },
        };
        let version = match &p.version {
            Some(v) => Version::parse(v.as_str()),
            None => None,
        };
        let mut dir = copy_path(&p.path);
        if dir.len() > 0 {
            dir.pop();
            proof {
                assert(views(dir@) =~= parent(views(p.path@)));
            }
        }
        let path = concat_paths(root, &dir);
        Ok(Located { path, subfolder, version })
    } else {
        let e = &extensions[ke];
        if !e.parsed {
            return Err(LocateError::Unreadable(copy_path(&e.path)));
        }
        let mut dir = copy_path(&e.path);
        dir.pop();
        proof {
            assert(views(dir@) =~= parent(views(e.path@)));
        }
        let path = concat_paths(root, &dir);
        Ok(Located { path, subfolder: name.clone(), version: None })
    }
}

proof fn lemma_count_plugins_one(s: Seq<PluginFile>, name: Seq<char>, k: int, n: int)
    requires
        0 <= k < n <= s.len(),
        plugin_matches(s[k], name),
        forall|j: int| 0 <= j < s.len() && j != k ==> !plugin_matches(#[trigger] s[j], name),
    ensures
        count_plugins(s, name, n) == 1,
    decreases n,
{
    if n - 1 > k {
        lemma_count_plugins_one(s, name, k, n - 1);
    } else {
        lemma_count_plugins_zero(s, name, k);
    }
}

proof fn lemma_count_plugins_zero(s: Seq<PluginFile>, name: Seq<char>, n: int)
    requires
        0 <= n <= s.len(),
        forall|j: int| 0 <= j < n ==> !plugin_matches(#[trigger] s[j], name),
    ensures
        count_plugins(s, name, n) == 0,
    decreases n,
{
    if n > 0 {
        lemma_count_plugins_zero(s, name, n - 1);
    }
}

proof fn lemma_count_extensions_zero(s: Seq<ExtensionFile>, name: Seq<char>, n: int)
    requires
        0 <= n <= s.len(),
        forall|j: int| 0 <= j < n ==> !extension_matches(#[trigger] s[j], name),
    ensures
        count_extensions(s, name, n) == 0,
    decreases n,
{
    if n > 0 {
        lemma_count_extensions_zero(s, name, n - 1);
    }
}

/// The plugin file that names the addon wins over every other metadata
/// file, wherever they lie: where exactly one plugin file names the addon
/// (a root `plugin.cfg` of another name does not) and no descriptor does,
/// the match is unambiguous and that file is the only candidate, so the
/// addon's root is that file's directory.
pub proof fn lemma_locator_priority(
    plugins: Seq<PluginFile>,
    extensions: Seq<ExtensionFile>,
    name: Seq<char>,
    k: int,
)
    requires
        0 <= k < plugins.len(),
        plugin_matches(plugins[k], name),
        forall|j: int| 0 <= j < plugins.len() && j != k ==> !plugin_matches(#[trigger] plugins[j], name),
        forall|j: int| 0 <= j < extensions.len() ==> !extension_matches(#[trigger] extensions[j], name),
    ensures
        count_plugins(plugins, name, plugins.len() as int) == 1,
        count_extensions(extensions, name, extensions.len() as int) == 0,
        forall|j: int| 0 <= j < plugins.len() && plugin_matches(#[trigger] plugins[j], name) ==> j == k,
{
    lemma_count_plugins_one(plugins, name, k, plugins.len() as int);
    lemma_count_extensions_zero(extensions, name, extensions.len() as int);
}

/// The version of an addon: what its metadata gives, else the release's
/// tag or the git tag it was pinned to read as a version (a leading `v`
/// dropped), else none.
pub open spec fn backfilled(found: Option<Version>, src: Source) -> Option<Version> {
    match found {
        Some(v) => Some(v),
        None => match src {
            Source::Release(r) => tag_version(r.tag@),
            Source::Git(g) => match g.reference {
                Some(Reference::Tag(t)) => tag_version(t@),
                _ => None,
            },
            Source::Path { .. } => None,
        },
    }
}

pub fn backfill_version(found: Option<Version>, source: &Source) -> (r: Option<Version>)
    ensures
        r == backfilled(found, *source),
{
    match found {
        Some(v) => Some(v),
        None => match source {
            Source::Release(rel) => parse_tag(rel.tag.as_str()),
            Source::Git(g) => match &g.reference {
                Some(Reference::Tag(t)) => parse_tag(t.as_str()),
                _ => None,
            },
            Source::Path { .. } => None,
        },
    }
}

impl Addon {
    /// The addon found at `l` for the dependency `dep`, with the manifest
    /// read from its root (if any): the dependency's hooks, and a version
    /// backfilled from the dependency's tag where the metadata gives none.
    pub fn from_located(l: Located, dep: &Dependency, manifest: Option<Manifest>) -> (r: Addon)
        ensures
            r.manifest == manifest,
            r.path == l.path,
            r.subfolder == l.subfolder,
            r.version == backfilled(l.version, dep.source),
            opt_view(r.hooks.pre) == opt_view(dep.hooks.pre),
            opt_view(r.hooks.post) == opt_view(dep.hooks.post),
    {
        let version = backfill_version(l.version, &dep.source);
        Addon {
            manifest,
            path: l.path,
            subfolder: l.subfolder,
            version,
            hooks: Hook { pre: copy_opt_str(&dep.hooks.pre), post: copy_opt_str(&dep.hooks.post) },
        }
    }
}

/// What `ini::Ini::load_from_str` makes of a text: whether it is accepted.
pub uninterp spec fn ini_accepts(text: Seq<char>) -> bool;

/// What `ini::Ini::load_from_str` makes of a text, then `Ini::section` and
/// `Properties::get`: the value of `key` in `section`, if there is one.
pub uninterp spec fn ini_value(text: Seq<char>, section: Seq<char>, key: Seq<char>) -> Option<Seq<char>>;

/// Relies on `ini::Ini::load_from_str`: whether the text parses.
#[verifier::external_body]
fn ini_parses(text: &str) -> (r: bool)
    ensures
        r == ini_accepts(text@),
{
    ini::Ini::load_from_str(text).is_ok()
}

/// Relies on `ini::Ini::load_from_str`, `Ini::section` and
/// `Properties::get`: the value of `key` in `section`, `None` where the
/// text does not parse or has no such value.
#[verifier::external_body]
fn ini_get(text: &str, section: &str, key: &str) -> (r: Option<String>)
    ensures
        opt_view(r) == ini_value(text@, section@, key@),
{
    match ini::Ini::load_from_str(text) {
        Ok(i) => match i.section(Some(section)) {
            Some(props) => match props.get(key) {
                Some(v) => Some(v.to_string()),
                None => None,
            },
            None => None,
        },
        Err(_) => None,
    }
}

/// A plugin metadata file is named `plugin.cfg`.
pub open spec fn is_plugin_path(p: Seq<Seq<char>>) -> bool {
    p.len() > 0 && p.last() == "plugin.cfg"@
}

/// An extension descriptor file has the extension `gdextension`.
pub open spec fn is_extension_path(p: Seq<Seq<char>>) -> bool {
    p.len() > 0 && extension_of(p.last()) == Some("gdextension"@)
}

pub fn is_plugin_file(path: &Vec<String>) -> (r: bool)
    ensures
        r == is_plugin_path(views(path@)),
{
    let n = path.len();
    n > 0 && same_text(path[n - 1].as_str(), "plugin.cfg")
}

pub fn is_extension_file(path: &Vec<String>) -> (r: bool)
    ensures
        r == is_extension_path(views(path@)),
{
    let n = path.len();
    if n == 0 {
        return false;
    }
    match crate::fetch::file_extension(path[n - 1].as_str()) {
        Some(e) => same_text(e.as_str(), "gdextension"),
        None => false,
    }
}

impl PluginFile {
    /// The plugin file at `path` with the text `text`: whether it parses,
    /// and the `name`, `subfolder` and `version` of its `[plugin]` section.
    pub fn from_text(path: Vec<String>, text: &str) -> (r: PluginFile)
        ensures
            r.path == path,
            r.parsed == ini_accepts(text@),
            opt_view(r.name) == ini_value(text@, "plugin"@, "name"@),
            opt_view(r.subfolder) == ini_value(text@, "plugin"@, "subfolder"@),
            opt_view(r.version) == ini_value(text@, "plugin"@, "version"@),
    {
        PluginFile {
            path,
            parsed: ini_parses(text),
            name: ini_get(text, "plugin", "name"),
            subfolder: ini_get(text, "plugin", "subfolder"),
            version: ini_get(text, "plugin", "version"),
        }
    }
}

impl ExtensionFile {
    /// The descriptor file at `path` with the text `text`.
    pub fn from_text(path: Vec<String>, text: &str) -> (r: ExtensionFile)
        ensures
            r.path == path,
            r.parsed == ini_accepts(text@),
    {
        ExtensionFile { path, parsed: ini_parses(text) }
    }
}

} // verus!
