//! Project-level rules of a manifest: which files of an addon are
//! exported, and which script templates are imported or exported.

use vstd::prelude::*;
use crate::fetch::extension_of;
use crate::locate::last_addons;
use crate::paths::{concat_paths, copy_path, is_within, join_path, joined, path_prefix};
use crate::text::{last_index, rfind_char, same_text, starts_with, views, is_prefix};

verus! {

/// Glob patterns over paths inside an addon: files to install although a
/// default rule would leave them out, and files to leave out.
#[derive(Clone, Debug, Default, PartialEq, Eq)]
pub struct ExportFiles {
    pub included: Vec<String>,
    pub excluded: Vec<String>,
}

/// Directories of script templates: imported into this project, and
/// exported to projects that depend on this one.
#[derive(Clone, Debug, Default, PartialEq, Eq)]
pub struct ScriptTemplates {
    pub import: Vec<Vec<String>>,
    pub export: Vec<Vec<String>>,
}

/// The `project` part of a manifest.
#[derive(Clone, Debug, Default, PartialEq, Eq)]
pub struct Project {
    pub export_files: Option<ExportFiles>,
    pub script_templates: Option<ScriptTemplates>,
}

/// What `glob::Pattern::matches` says of a text, for a pattern that
/// `glob::Pattern::new` accepts; false for one that it refuses.
pub uninterp spec fn glob_match(pattern: Seq<char>, text: Seq<char>) -> bool;

/// Relies on `glob::Pattern::new` and `glob::Pattern::matches` with the
/// default options.
#[verifier::external_body]
fn glob_matches(pattern: &str, text: &str) -> (r: bool)
    ensures
        r == glob_match(pattern@, text@),
{
    match glob::Pattern::new(pattern) {
        Ok(p) => p.matches(text),
        Err(_) => false,
    }
}

/// A relative path written out with `/` between its components.
pub open spec fn path_text(p: Seq<Seq<char>>) -> Seq<char>
    decreases p.len(),
{
    if p.len() == 0 {
        Seq::empty()
    } else if p.len() == 1 {
        p[0]
    } else {
        path_text(p.drop_last()) + "/"@ + p.last()
    }
}

pub fn write_path(p: &Vec<String>) -> (r: String)
    ensures
        r@ == path_text(views(p@)),
{
    let mut r = String::new();
    let mut i: usize = 0;
    while i < p.len()
        invariant
            i <= p@.len(),
            r@ == path_text(views(p@).subrange(0, i as int)),
        decreases p.len() - i,
    {
        proof {
            assert(views(p@).subrange(0, i + 1).drop_last() =~= views(p@).subrange(0, i as int));
        }
        if i == 0 {
            r = p[0].clone();
        } else {
            r = r.concat("/").concat(p[i].as_str());
        }
        i += 1;
    }
    proof {
        assert(views(p@).subrange(0, p@.len() as int) =~= views(p@));
    }
    r
}

/// Some pattern of `patterns` matches `text`.
pub open spec fn any_match(patterns: Seq<String>, text: Seq<char>) -> bool {
    exists|i: int| 0 <= i < patterns.len() && glob_match((#[trigger] patterns[i])@, text)
}

fn matches_any(patterns: &Vec<String>, text: &String) -> (r: bool)
    ensures
        r == any_match(patterns@, text@),
{
    let mut i: usize = 0;
    while i < patterns.len()
        invariant
            i <= patterns@.len(),
            forall|k: int| 0 <= k < i ==> !glob_match((#[trigger] patterns@[k])@, text@),
        decreases patterns.len() - i,
    {
        if glob_matches(patterns[i].as_str(), text.as_str()) {
            return true;
        }
        i += 1;
    }
    false
}

impl ExportFiles {
    /// Whether some exclusion pattern matches the path inside the addon.
    pub fn is_excluded(&self, path: &Vec<String>) -> (r: bool)
        ensures
            r == any_match(self.excluded@, path_text(views(path@))),
    {
        matches_any(&self.excluded, &write_path(path))
    }

    /// Whether some inclusion pattern matches the path inside the addon.
    pub fn is_included(&self, path: &Vec<String>) -> (r: bool)
        ensures
            r == any_match(self.included@, path_text(views(path@))),
    {
        matches_any(&self.included, &write_path(path))
    }
}

/// Some component of the path is hidden (begins with `.`).
pub open spec fn hidden(p: Seq<Seq<char>>) -> bool {
    exists|i: int| 0 <= i < p.len() && is_prefix("."@, #[trigger] p[i])
}

/// The file name of the manifest, which an addon never installs by default.
pub open spec fn manifest_file_name() -> Seq<char> {
    "gdpack.toml"@
}

/// Whether a file at `p` inside an addon is installed: an inclusion
/// pattern brings it in; else an exclusion pattern leaves it out; else
/// hidden files and the manifest stay out and everything else goes in.
pub open spec fn installs(rules: Option<ExportFiles>, p: Seq<Seq<char>>) -> bool {
    let t = path_text(p);
    if rules.is_some() && any_match(rules.unwrap().included@, t) {
        true
    } else if rules.is_some() && any_match(rules.unwrap().excluded@, t) {
        false
    } else if hidden(p) {
        false
    } else if p.len() > 0 && p.last() == manifest_file_name() {
        false
    } else {
        true
    }
}

fn is_hidden(p: &Vec<String>) -> (r: bool)
    ensures
        r == hidden(views(p@)),
{
    let mut i: usize = 0;
    while i < p.len()
        invariant
            i <= p@.len(),
            forall|k: int| 0 <= k < i ==> !is_prefix("."@, #[trigger] views(p@)[k]),
        decreases p.len() - i,
    {
        if starts_with(p[i].as_str(), ".") {
            proof {
                assert(is_prefix("."@, views(p@)[i as int]));
            }
            return true;
        }
        i += 1;
    }
    false
}

/// Whether the file at `path` (relative to the addon's root) is installed
/// under the project rules `rules` of the addon's manifest.
pub fn should_install(rules: &Option<ExportFiles>, path: &Vec<String>) -> (r: bool)
    ensures
        r == installs(*rules, views(path@)),
{
    match rules {
        Some(x) => {
            if x.is_included(path) {
                return true;
            }
            if x.is_excluded(path) {
                return false;
            }
        },
        None => {},
    }
    if is_hidden(path) {
        return false;
    }
    let n = path.len();
    if n > 0 && same_text(path[n - 1].as_str(), "gdpack.toml") {
        return false;
    }
    true
}

/// The directory an addon installs into: `<target>/addons/<subfolder>`
/// where `target` is a project root, and beside the addon where `target`
/// already lies under an `addons` directory.
pub open spec fn install_dir(target: Seq<Seq<char>>, subfolder: Seq<char>) -> Seq<Seq<char>> {
    let i = last_addons(target, target.len() as int);
    if i < 0 {
        target + seq!["addons"@, subfolder]
    } else {
        target.subrange(0, i + 1).push(subfolder)
    }
}

pub fn install_destination(target: &Vec<String>, subfolder: &String) -> (r: Vec<String>)
    ensures
        views(r@) == install_dir(views(target@), subfolder@),
{
    let mut n: usize = target.len();
    while n > 0
        invariant
            n <= target@.len(),
            last_addons(views(target@), target@.len() as int) == last_addons(views(target@), n as int),
        decreases n,
    {
        if same_text(target[n - 1].as_str(), "addons") {
            let mut r = crate::paths::take_path(target, n);
            r.push(subfolder.clone());
            proof {
                assert(views(r@) =~= views(target@).subrange(0, n as int).push(subfolder@));
            }
            return r;
        }
        n -= 1;
    }
    let tail = vec![String::from_str("addons"), subfolder.clone()];
    proof {
        assert(views(tail@) =~= seq!["addons"@, subfolder@]);
    }
    concat_paths(target, &tail)
}

/// A script template on disk: the directory it was found under and its
/// path below that directory.
#[derive(Clone, Debug, Default, PartialEq, Eq, Hash)]
pub struct ScriptTemplate {
    pub root: Vec<String>,
    pub path: Vec<String>,
}

/// The last component of a path, or the empty text.
pub open spec fn file_name_of(p: Seq<Seq<char>>) -> Seq<char> {
    if p.len() > 0 {
        p.last()
    } else {
        Seq::empty()
    }
}

/// A file name without its extension.
pub open spec fn stem_of(f: Seq<char>) -> Seq<char> {
    let k = last_index(f, '.');
    if k <= 0 {
        f
    } else {
        f.subrange(0, k)
    }
}

/// The prefix of the file names of templates that this tool put in place.
pub open spec fn imported_prefix() -> Seq<char> {
    "gdpack__"@
}

/// A GDScript file (extension `gd`).
pub open spec fn is_template(p: Seq<Seq<char>>) -> bool {
    p.len() > 0 && extension_of(p.last()) == Some("gd"@)
}

/// A template that this tool put in place, by the prefix of its stem.
pub open spec fn is_imported(p: Seq<Seq<char>>) -> bool {
    is_prefix(imported_prefix(), stem_of(file_name_of(p)))
}

fn file_stem(f: &str) -> (r: &str)
    ensures
        r@ == stem_of(f@),
{
    match rfind_char(f, '.') {
        Some(k) => {
            if k == 0 {
                f
            } else {
                f.substring_char(0, k)
            }
        },
        None => f,
    }
}

fn template_kind(p: &Vec<String>) -> (r: (bool, bool))
    ensures
        r.0 == is_template(views(p@)),
        r.0 ==> r.1 == is_imported(views(p@)),
{
    let n = p.len();
    if n == 0 {
        return (false, false);
    }
    let name = p[n - 1].as_str();
    let is_gd = match crate::fetch::file_extension(name) {
        Some(e) => same_text(e.as_str(), "gd"),
        None => false,
    };
    if !is_gd {
        return (false, false);
    }
    (true, starts_with(file_stem(name), "gdpack__"))
}

impl ScriptTemplate {
    /// The template's full path: its path under its root.
    pub fn get_full_path(&self) -> (r: Vec<String>)
        ensures
            views(r@) == views(self.root@) + views(self.path@),
    {
        concat_paths(&self.root, &self.path)
    }

    /// The same template renamed `gdpack__<stem>.gd` in its directory, which
    /// marks it as put in place by this tool and safe to remove; `None` for
    /// an empty path.
    pub fn make_included(&self) -> (r: Option<ScriptTemplate>)
        ensures
            r.is_some() == (self.path@.len() > 0),
            r.is_some() ==> views(r.unwrap().root@) == views(self.root@) && views(r.unwrap().path@)
                == views(self.path@).drop_last().push(
                imported_prefix() + stem_of(self.path@.last()@) + ".gd"@,
            ),
    {
        let n = self.path.len();
        if n == 0 {
            return None;
        }
        let stem = file_stem(self.path[n - 1].as_str());
        let renamed = String::from_str("gdpack__").concat(stem).concat(".gd");
        let mut path = crate::paths::take_path(&self.path, n - 1);
        path.push(renamed);
        proof {
            assert(views(path@) =~= views(self.path@).drop_last().push(
                imported_prefix() + stem_of(self.path@.last()@) + ".gd"@,
            ));
        }
        Some(ScriptTemplate { root: copy_path(&self.root), path })
    }
}

/// A scan of a directory for script templates, and which it keeps.
#[derive(Clone, Debug, PartialEq, Eq)]
pub struct ScriptTemplateScan {
    pub path: Vec<String>,
    pub contents_first: bool,
    pub map_to_relative: bool,
    pub skip_nonimported: bool,
    pub skip_imported: bool,
}

pub open spec fn scan_keeps(s: ScriptTemplateScan, p: Seq<Seq<char>>) -> bool {
    is_template(p) && !(s.skip_imported && is_imported(p)) && !(s.skip_nonimported && !is_imported(p))
}

/// The kept entries among the first `n`, relative or under the scanned
/// directory as the scan asks.
pub open spec fn scan_upto(s: ScriptTemplateScan, entries: Seq<Seq<Seq<char>>>, n: int) -> Seq<
    Seq<Seq<char>>,
>
    decreases n,
{
    if n <= 0 {
        Seq::empty()
    } else if scan_keeps(s, entries[n - 1]) {
        scan_upto(s, entries, n - 1).push(
            if s.map_to_relative {
                entries[n - 1]
            } else {
                views(s.path@) + entries[n - 1]
            },
        )
    } else {
        scan_upto(s, entries, n - 1)
    }
}

pub open spec fn paths_views(v: Seq<Vec<String>>) -> Seq<Seq<Seq<char>>> {
    v.map_values(|p: Vec<String>| views(p@))
}

impl ScriptTemplateScan {
    /// The templates among `entries` (paths relative to the scanned
    /// directory, in the order the walk met them) that the scan keeps.
    pub fn select(&self, entries: &Vec<Vec<String>>) -> (r: Vec<Vec<String>>)
        ensures
            paths_views(r@) == scan_upto(*self, paths_views(entries@), entries@.len() as int),
    {
        let mut out: Vec<Vec<String>> = Vec::new();
        let mut i: usize = 0;
        while i < entries.len()
            invariant
                i <= entries@.len(),
                paths_views(out@) == scan_upto(*self, paths_views(entries@), i as int),
            decreases entries.len() - i,
        {
            let e = &entries[i];
            let (t, imp) = template_kind(e);
            if t && !(self.skip_imported && imp) && !(self.skip_nonimported && !imp) {
                let p = if self.map_to_relative {
                    copy_path(e)
                } else {
                    concat_paths(&self.path, e)
                };
                out.push(p);
                proof {
                    assert(paths_views(out@) =~= scan_upto(*self, paths_views(entries@), i + 1));
                }
            } else {
                proof {
                    assert(scan_upto(*self, paths_views(entries@), i + 1) == scan_upto(
                        *self,
                        paths_views(entries@),
                        i as int,
                    ));
                }
            }
            i += 1;
        }
        out
    }
}

/// Why script templates cannot be gathered.
#[derive(Clone, Debug, PartialEq, Eq)]
pub enum ProjectError {
    /// A path that leads outside the directory it must stay in.
    Insecure(Vec<String>),
    Invalid(Vec<String>),
    MissingDir(Vec<String>),
}

/// The kinds of `ProjectError`.
#[derive(Clone, Copy, Debug, PartialEq, Eq, Structural)]
pub enum ErrorKind {
    Insecure,
    Invalid,
    MissingDir,
}

/// An error's kind and the path it names.
pub open spec fn error_view(e: ProjectError) -> (ErrorKind, Seq<Seq<char>>) {
    match e {
        ProjectError::Insecure(p) => (ErrorKind::Insecure, views(p@)),
        ProjectError::Invalid(p) => (ErrorKind::Invalid, views(p@)),
        ProjectError::MissingDir(p) => (ErrorKind::MissingDir, views(p@)),
    }
}

/// The scan that finds the templates a directory offers: those not put in
/// place by this tool, relative to the directory.
pub open spec fn offered_scan(path: Vec<String>) -> ScriptTemplateScan {
    ScriptTemplateScan {
        path,
        contents_first: true,
        map_to_relative: true,
        skip_nonimported: false,
        skip_imported: true,
    }
}

impl ScriptTemplates {
    /// The templates that the directory `path` offers, given whether it is
    /// a directory and the walk's entries below it (relative to it).
    pub fn find_scripts_in_dir(path: &Vec<String>, is_dir: bool, entries: &Vec<Vec<String>>) -> (r:
        Result<Vec<Vec<String>>, ProjectError>)
        ensures
            !is_dir ==> (r matches Err(ProjectError::MissingDir(p)) && views(p@) == views(path@)),
            is_dir ==> r is Ok && paths_views(r->Ok_0@) == scan_upto(
                offered_scan(*path),
                paths_views(entries@),
                entries@.len() as int,
            ),
    {
        if !is_dir {
            return Err(ProjectError::MissingDir(copy_path(path)));
        }
        let scan = ScriptTemplateScan {
            path: copy_path(path),
            contents_first: true,
            map_to_relative: true,
            skip_nonimported: false,
            skip_imported: true,
        };
        let r = scan.select(entries);
        proof {
            assert(scan_upto(scan, paths_views(entries@), entries@.len() as int) == scan_upto(
                offered_scan(*path),
                paths_views(entries@),
                entries@.len() as int,
            )) by {
                lemma_scan_upto_path_free(scan, offered_scan(*path), paths_views(entries@), entries@.len() as int);
            }
        }
        Ok(r)
    }
}

/// A relative scan does not depend on the scanned directory's path.
proof fn lemma_scan_upto_path_free(
    a: ScriptTemplateScan,
    b: ScriptTemplateScan,
    entries: Seq<Seq<Seq<char>>>,
    n: int,
)
    requires
        a.map_to_relative && b.map_to_relative,
        a.skip_imported == b.skip_imported,
        a.skip_nonimported == b.skip_nonimported,
    ensures
        scan_upto(a, entries, n) == scan_upto(b, entries, n),
    decreases n,
{
    if n > 0 {
        lemma_scan_upto_path_free(a, b, entries, n - 1);
    }
}

/// Why a path could not be made canonical.
#[derive(Clone, Copy, Debug, PartialEq, Eq, Structural)]
pub enum PathFault {
    NotFound,
    Other,
}

/// A file met by a walk below a template directory: its path relative to
/// that directory and its canonical form (`None` where it has none).
#[derive(Clone, Debug, PartialEq, Eq)]
pub struct ScannedFile {
    pub path: Vec<String>,
    pub canonical: Option<Vec<String>>,
}

/// What the file system says of one template directory: its canonical
/// form, whether it is a directory, and the files below it in walk order.
#[derive(Debug, PartialEq, Eq)]
pub struct TemplateScan {
    pub root: Result<Vec<String>, PathFault>,
    pub is_dir: bool,
    pub files: Vec<ScannedFile>,
}

pub open spec fn offered(p: Seq<Seq<char>>) -> bool {
    is_template(p) && !is_imported(p)
}

/// Every offered file of the scan resolves to a place under `base`.
pub open spec fn files_contained(base: Seq<Seq<char>>, s: TemplateScan) -> bool {
    forall|k: int|
        0 <= k < s.files@.len() && offered(views((#[trigger] s.files@[k]).path@)) ==> s.files@[k].canonical.is_some()
            && path_prefix(base, views(s.files@[k].canonical.unwrap()@))
}

/// The scan's directory resolves to a directory under `base`.
pub open spec fn root_contained(base: Seq<Seq<char>>, s: TemplateScan) -> bool {
    s.root is Ok && path_prefix(base, views(s.root->Ok_0@)) && s.is_dir
}

pub open spec fn scan_contained(base: Seq<Seq<char>>, s: TemplateScan) -> bool {
    root_contained(base, s) && files_contained(base, s)
}

/// The offered files among the first `n` of a scan, as (root, path).
pub open spec fn offered_upto(s: TemplateScan, n: int) -> Seq<(Seq<Seq<char>>, Seq<Seq<char>>)>
    decreases n,
{
    if n <= 0 {
        Seq::empty()
    } else if offered(views(s.files@[n - 1].path@)) {
        offered_upto(s, n - 1).push((views(s.root->Ok_0@), views(s.files@[n - 1].path@)))
    } else {
        offered_upto(s, n - 1)
    }
}

/// The templates that the first `n` scans offer, scan by scan.
pub open spec fn exported_upto(scans: Seq<TemplateScan>, n: int) -> Seq<(Seq<Seq<char>>, Seq<Seq<char>>)>
    decreases n,
{
    if n <= 0 {
        Seq::empty()
    } else {
        exported_upto(scans, n - 1) + offered_upto(scans[n - 1], scans[n - 1].files@.len() as int)
    }
}

pub open spec fn template_views(v: Seq<ScriptTemplate>) -> Seq<(Seq<Seq<char>>, Seq<Seq<char>>)> {
    v.map_values(|t: ScriptTemplate| (views(t.root@), views(t.path@)))
}

/// The first offered file, from position `k` on, of a scan of the
/// directory `c` that does not resolve under `base`: an `Insecure` error
/// naming the file's path under `c`.
pub open spec fn file_fault_from(
    base: Seq<Seq<char>>,
    c: Seq<Seq<char>>,
    files: Seq<ScannedFile>,
    k: int,
) -> Option<(ErrorKind, Seq<Seq<char>>)>
    decreases files.len() - k,
{
    if k < 0 || k >= files.len() {
        None
    } else if offered(views(files[k].path@)) && !(files[k].canonical.is_some() && path_prefix(
        base,
        views(files[k].canonical.unwrap()@),
    )) {
        Some((ErrorKind::Insecure, c + views(files[k].path@)))
    } else {
        file_fault_from(base, c, files, k + 1)
    }
}

/// What is wrong with the scan of one export pattern, if anything: a
/// missing directory, a directory that cannot be resolved or lies outside
/// `base` (both `Insecure`, naming the pattern), a path that is no
/// directory, or an escaping template.
pub open spec fn scan_fault(base: Seq<Seq<char>>, pattern: Seq<Seq<char>>, s: TemplateScan) -> Option<
    (ErrorKind, Seq<Seq<char>>),
> {
    match s.root {
        Err(PathFault::NotFound) => Some((ErrorKind::MissingDir, pattern)),
        Err(PathFault::Other) => Some((ErrorKind::Insecure, pattern)),
        Ok(c) => if !path_prefix(base, views(c@)) {
            Some((ErrorKind::Insecure, pattern))
        } else if !s.is_dir {
            Some((ErrorKind::MissingDir, views(c@)))
        } else {
            file_fault_from(base, views(c@), s.files@, 0)
        },
    }
}

/// The first fault among the scans from position `i` on.
pub open spec fn export_fault_from(
    export: Seq<Vec<String>>,
    base: Seq<Seq<char>>,
    scans: Seq<TemplateScan>,
    i: int,
) -> Option<(ErrorKind, Seq<Seq<char>>)>
    decreases scans.len() - i,
{
    if i < 0 || i >= scans.len() {
        None
    } else {
        match scan_fault(base, views(export[i]@), scans[i]) {
            Some(f) => Some(f),
            None => export_fault_from(export, base, scans, i + 1),
        }
    }
}

/// The first fault among the import scans from position `i` on: a
/// pattern that cannot be resolved is `Invalid`, one that is no directory
/// `MissingDir`.
pub open spec fn import_fault_from(
    import: Seq<Vec<String>>,
    scans: Seq<TemplateScan>,
    i: int,
) -> Option<(ErrorKind, Seq<Seq<char>>)>
    decreases scans.len() - i,
{
    if i < 0 || i >= scans.len() {
        None
    } else {
        match scans[i].root {
            Err(_) => Some((ErrorKind::Invalid, views(import[i]@))),
            Ok(c) => if !scans[i].is_dir {
                Some((ErrorKind::MissingDir, views(c@)))
            } else {
                import_fault_from(import, scans, i + 1)
            },
        }
    }
}

impl ScriptTemplates {
    /// The directories that an addon rooted at `base` exports templates
    /// from: each export pattern as it is where absolute, else under `base`.
    pub fn export_roots(&self, base: &Vec<String>) -> (r: Vec<Vec<String>>)
        ensures
            r@.len() == self.export@.len(),
            forall|i: int|
                0 <= i < r@.len() ==> views((#[trigger] r@[i])@) == joined(views(base@), views(self.export@[i]@)),
    {
        let mut r: Vec<Vec<String>> = Vec::new();
        let mut i: usize = 0;
        while i < self.export.len()
            invariant
                i <= self.export@.len(),
                r@.len() == i,
                forall|k: int|
                    0 <= k < i ==> views((#[trigger] r@[k])@) == joined(views(base@), views(self.export@[k]@)),
            decreases self.export.len() - i,
        {
            r.push(join_path(base, &self.export[i]));
            i += 1;
        }
        r
    }

    /// The templates exported by an addon whose root is `base` (canonical
    /// form `base_canonical`), given one scan per export pattern, in order.
    /// Each pattern's directory and each template file must resolve to a
    /// place under the addon's canonical root, so a symbolic link cannot
    /// lead out of the addon. The first fault is reported: a missing
    /// directory names the pattern (`MissingDir`); a directory that cannot
    /// be resolved or lies outside names the pattern (`Insecure`); a path
    /// that is no directory names that path (`MissingDir`); an escaping
    /// template names its path under the scanned directory (`Insecure`).
    pub fn exported_from(
        &self,
        base: &Vec<String>,
        base_canonical: &Result<Vec<String>, PathFault>,
        scans: &Vec<TemplateScan>,
    ) -> (r: Result<Vec<ScriptTemplate>, ProjectError>)
        requires
            scans@.len() == self.export@.len(),
        ensures
            r is Ok <==> (base_canonical is Ok && forall|i: int|
                0 <= i < scans@.len() ==> scan_contained(
                    views(base_canonical->Ok_0@),
                    #[trigger] scans@[i],
                )),
            r is Ok ==> template_views(r->Ok_0@) == exported_upto(scans@, scans@.len() as int),
            base_canonical matches Err(PathFault::NotFound) ==> r is Err && error_view(r->Err_0) == (
            ErrorKind::MissingDir, views(base@)),
            base_canonical matches Err(PathFault::Other) ==> r is Err && error_view(r->Err_0) == (
            ErrorKind::Invalid, views(base@)),
            base_canonical is Ok ==> (r is Ok <==> export_fault_from(
                self.export@,
                views(base_canonical->Ok_0@),
                scans@,
                0,
            ).is_none()),
            base_canonical is Ok && r is Err ==> error_view(r->Err_0) == export_fault_from(
                self.export@,
                views(base_canonical->Ok_0@),
                scans@,
                0,
            ).unwrap(),
    {
        let bc = match base_canonical {
            Ok(c) => c,
            Err(PathFault::NotFound) => return Err(ProjectError::MissingDir(copy_path(base))),
            Err(PathFault::Other) => return Err(ProjectError::Invalid(copy_path(base))),
        };
        let mut out: Vec<ScriptTemplate> = Vec::new();
        let mut i: usize = 0;
        while i < scans.len()
            invariant
                scans@.len() == self.export@.len(),
                *base_canonical == Ok::<Vec<String>, PathFault>(*bc),
                i <= scans@.len(),
                forall|j: int| 0 <= j < i ==> scan_contained(views(bc@), #[trigger] scans@[j]),
                template_views(out@) == exported_upto(scans@, i as int),
                export_fault_from(self.export@, views(bc@), scans@, 0) == export_fault_from(self.export@, views(bc@), scans@, i as int),
            decreases scans.len() - i,
        {
            let s = &scans[i];
            let c = match &s.root {
                Ok(c) => c,
                Err(PathFault::NotFound) => return Err(ProjectError::MissingDir(copy_path(&self.export[i]))),
                Err(PathFault::Other) => return Err(ProjectError::Insecure(copy_path(&self.export[i]))),
            };
            if !is_within(bc, c) {
                return Err(ProjectError::Insecure(copy_path(&self.export[i])));
            }
            if !s.is_dir {
                return Err(ProjectError::MissingDir(copy_path(c)));
            }
            let ghost start = out@;
            let mut k: usize = 0;
            assert(scan_fault(views(bc@), views(self.export@[i as int]@), *s) == file_fault_from(
                views(bc@),
                views(c@),
                s.files@,
                0,
            ));
            while k < s.files.len()
                invariant
                    scans@.len() == self.export@.len(),
                    *base_canonical == Ok::<Vec<String>, PathFault>(*bc),
                    i < scans@.len(),
                    *s == scans@[i as int],
                    s.root == Ok::<Vec<String>, PathFault>(*c),
                    path_prefix(views(bc@), views(c@)),
                    s.is_dir,
                    k <= s.files@.len(),
                    forall|j: int| 0 <= j < i ==> scan_contained(views(bc@), #[trigger] scans@[j]),
                    forall|q: int|
                        0 <= q < k && offered(views((#[trigger] s.files@[q]).path@)) ==> s.files@[q].canonical.is_some()
                            && path_prefix(views(bc@), views(s.files@[q].canonical.unwrap()@)),
                    template_views(start) == exported_upto(scans@, i as int),
                    template_views(out@) == template_views(start) + offered_upto(*s, k as int),
                    export_fault_from(self.export@, views(bc@), scans@, 0) == export_fault_from(self.export@, views(bc@), scans@, i as int),
                    scan_fault(views(bc@), views(self.export@[i as int]@), *s) == file_fault_from(
                        views(bc@),
                        views(c@),
                        s.files@,
                        k as int,
                    ),
                decreases s.files.len() - k,
            {
                let f = &s.files[k];
                let (t, imp) = template_kind(&f.path);
                if t && !imp {
                    let full = concat_paths(c, &f.path);
                    match &f.canonical {
                        Some(fc) => {
                            if !is_within(bc, fc) {
                                return Err(ProjectError::Insecure(full));
                            }
                        },
                        None => return Err(ProjectError::Insecure(full)),
                    }
                    let ghost before = out@;
                    out.push(ScriptTemplate { root: copy_path(c), path: copy_path(&f.path) });
                    proof {
                        assert(template_views(out@) =~= template_views(before).push(
                            (views(c@), views(f.path@)),
                        ));
                        assert(template_views(out@) =~= template_views(start) + offered_upto(
                            *s,
                            k + 1,
                        ));
                    }
                }
                k += 1;
            }
            proof {
                assert(template_views(out@) =~= exported_upto(scans@, i + 1));
                assert(file_fault_from(views(bc@), views(c@), s.files@, k as int).is_none());
            }
            i += 1;
        }
        Ok(out)
    }
}

impl ScriptTemplates {
    /// The directories that a project rooted at `project` imports
    /// templates from: each pattern as it is where absolute, else under the
    /// project.
    pub fn import_roots(&self, project: &Vec<String>) -> (r: Vec<Vec<String>>)
        ensures
            r@.len() == self.import@.len(),
            forall|i: int|
                0 <= i < r@.len() ==> views((#[trigger] r@[i])@) == joined(views(project@), views(self.import@[i]@)),
    {
        let mut r: Vec<Vec<String>> = Vec::new();
        let mut i: usize = 0;
        while i < self.import.len()
            invariant
                i <= self.import@.len(),
                r@.len() == i,
                forall|k: int|
                    0 <= k < i ==> views((#[trigger] r@[k])@) == joined(views(project@), views(self.import@[k]@)),
            decreases self.import.len() - i,
        {
            r.push(join_path(project, &self.import[i]));
            i += 1;
        }
        r
    }

    /// The templates a project imports, given one scan per import pattern:
    /// every template offered by each directory. A pattern that does not
    /// resolve is `Invalid`; one that is no directory is `MissingDir`.
    pub fn included_from(&self, scans: &Vec<TemplateScan>) -> (r: Result<Vec<ScriptTemplate>, ProjectError>)
        requires
            scans@.len() == self.import@.len(),
        ensures
            r is Ok <==> forall|i: int|
                0 <= i < scans@.len() ==> (#[trigger] scans@[i]).root is Ok && scans@[i].is_dir,
            r is Ok ==> template_views(r->Ok_0@) == exported_upto(scans@, scans@.len() as int),
            r is Ok <==> import_fault_from(self.import@, scans@, 0).is_none(),
            r is Err ==> error_view(r->Err_0) == import_fault_from(self.import@, scans@, 0).unwrap(),
    {
        let mut out: Vec<ScriptTemplate> = Vec::new();
        let mut i: usize = 0;
        while i < scans.len()
            invariant
                scans@.len() == self.import@.len(),
                i <= scans@.len(),
                forall|j: int| 0 <= j < i ==> (#[trigger] scans@[j]).root is Ok && scans@[j].is_dir,
                template_views(out@) == exported_upto(scans@, i as int),
                import_fault_from(self.import@, scans@, 0) == import_fault_from(self.import@, scans@, i as int),
            decreases scans.len() - i,
        {
            let s = &scans[i];
            let c = match &s.root {
                Ok(c) => c,
                Err(_) => return Err(ProjectError::Invalid(copy_path(&self.import[i]))),
            };
            if !s.is_dir {
                return Err(ProjectError::MissingDir(copy_path(c)));
            }
            let ghost start = out@;
            let mut k: usize = 0;
            while k < s.files.len()
                invariant
                    i < scans@.len(),
                    *s == scans@[i as int],
                    s.root == Ok::<Vec<String>, PathFault>(*c),
                    k <= s.files@.len(),
                    template_views(start) == exported_upto(scans@, i as int),
                    template_views(out@) == template_views(start) + offered_upto(*s, k as int),
                    import_fault_from(self.import@, scans@, 0) == import_fault_from(self.import@, scans@, i as int),
                    s.is_dir,
                decreases s.files.len() - k,
            {
                let f = &s.files[k];
                let (t, imp) = template_kind(&f.path);
                if t && !imp {
                    let ghost before = out@;
                    out.push(ScriptTemplate { root: copy_path(c), path: copy_path(&f.path) });
                    proof {
                        assert(template_views(out@) =~= template_views(before).push(
                            (views(c@), views(f.path@)),
                        ));
                        assert(template_views(out@) =~= template_views(start) + offered_upto(
                            *s,
                            k + 1,
                        ));
                    }
                }
                k += 1;
            }
            proof {
                assert(template_views(out@) =~= exported_upto(scans@, i + 1));
            }
            i += 1;
        }
        Ok(out)
    }
}

/// The links an install makes for the files `files` (relative to the
/// addon's root `root`, in walk order): each installed file from its place
/// in the addon to the same place under `dest`.
pub open spec fn plan_upto(
    root: Seq<Seq<char>>,
    dest: Seq<Seq<char>>,
    rules: Option<ExportFiles>,
    files: Seq<Seq<Seq<char>>>,
    n: int,
) -> Seq<(Seq<Seq<char>>, Seq<Seq<char>>)>
    decreases n,
{
    if n <= 0 {
        Seq::empty()
    } else if installs(rules, files[n - 1]) {
        plan_upto(root, dest, rules, files, n - 1).push((root + files[n - 1], dest + files[n - 1]))
    } else {
        plan_upto(root, dest, rules, files, n - 1)
    }
}

pub open spec fn link_views(v: Seq<(Vec<String>, Vec<String>)>) -> Seq<(Seq<Seq<char>>, Seq<Seq<char>>)> {
    v.map_values(|l: (Vec<String>, Vec<String>)| (views(l.0@), views(l.1@)))
}

/// The hard links that install an addon rooted at `root` into `dest`,
/// given the addon's files (relative to `root`, in walk order) and the
/// project rules of its manifest: one link per installed file, from the
/// addon to the same relative place under `dest`.
pub fn install_plan(
    root: &Vec<String>,
    dest: &Vec<String>,
    rules: &Option<ExportFiles>,
    files: &Vec<Vec<String>>,
) -> (r: Vec<(Vec<String>, Vec<String>)>)
    ensures
        link_views(r@) == plan_upto(views(root@), views(dest@), *rules, paths_views(files@), files@.len() as int),
{
    let mut out: Vec<(Vec<String>, Vec<String>)> = Vec::new();
    let mut i: usize = 0;
    while i < files.len()
        invariant
            i <= files@.len(),
            link_views(out@) == plan_upto(views(root@), views(dest@), *rules, paths_views(files@), i as int),
        decreases files.len() - i,
    {
        let f = &files[i];
        if should_install(rules, f) {
            let ghost before = out@;
            out.push((concat_paths(root, f), concat_paths(dest, f)));
            proof {
                assert(link_views(out@) =~= link_views(before).push(
                    (views(root@) + views(f@), views(dest@) + views(f@)),
                ));
            }
        }
        i += 1;
    }
    out
}

/// The paths that the links of an install create.
pub open spec fn link_targets(links: Seq<(Seq<Seq<char>>, Seq<Seq<char>>)>) -> Set<Seq<Seq<char>>> {
    Set::new(|p: Seq<Seq<char>>| exists|i: int| 0 <= i < links.len() && (#[trigger] links[i]).1 == p)
}

/// The files of a project after an install into `dest`: whatever lay under
/// `dest` before is removed, then the links are made.
pub open spec fn tree_after_install(
    prior: Set<Seq<Seq<char>>>,
    dest: Seq<Seq<char>>,
    links: Seq<(Seq<Seq<char>>, Seq<Seq<char>>)>,
) -> Set<Seq<Seq<char>>> {
    prior.filter(|p: Seq<Seq<char>>| !path_prefix(dest, p)).union(link_targets(links))
}

proof fn lemma_plan_under_dest(
    root: Seq<Seq<char>>,
    dest: Seq<Seq<char>>,
    rules: Option<ExportFiles>,
    files: Seq<Seq<Seq<char>>>,
    n: int,
)
    requires
        0 <= n <= files.len(),
    ensures
        forall|i: int|
            0 <= i < plan_upto(root, dest, rules, files, n).len() ==> path_prefix(
                dest,
                (#[trigger] plan_upto(root, dest, rules, files, n)[i]).1,
            ),
    decreases n,
{
    if n > 0 {
        lemma_plan_under_dest(root, dest, rules, files, n - 1);
        let prev = plan_upto(root, dest, rules, files, n - 1);
        let all = plan_upto(root, dest, rules, files, n);
        assert forall|i: int| 0 <= i < all.len() implies path_prefix(dest, (#[trigger] all[i]).1) by {
            if i < prev.len() {
                assert(all[i] == prev[i]);
            } else {
                assert((dest + files[n - 1]).subrange(0, dest.len() as int) =~= dest);
            }
        }
    }
}

/// Installing an addon twice with nothing changed gives the same tree:
/// whatever files the project held before, a second install of the same
/// files with the same rules into the same place leaves exactly the files
/// the first one left, since every link it makes lies under the
/// destination that it clears first.
pub proof fn lemma_install_idempotent(
    prior: Set<Seq<Seq<char>>>,
    root: Seq<Seq<char>>,
    dest: Seq<Seq<char>>,
    rules: Option<ExportFiles>,
    files: Seq<Seq<Seq<char>>>,
)
    ensures
        ({
            let links = plan_upto(root, dest, rules, files, files.len() as int);
            let once = tree_after_install(prior, dest, links);
            tree_after_install(once, dest, links) == once
        }),
{
    let links = plan_upto(root, dest, rules, files, files.len() as int);
    lemma_plan_under_dest(root, dest, rules, files, files.len() as int);
    let once = tree_after_install(prior, dest, links);
    let twice = tree_after_install(once, dest, links);
    assert forall|p: Seq<Seq<char>>| #[trigger] twice.contains(p) <==> once.contains(p) by {
        if link_targets(links).contains(p) {
            let i = choose|i: int| 0 <= i < links.len() && (#[trigger] links[i]).1 == p;
            assert(path_prefix(dest, links[i].1));
        }
    }
    assert(twice =~= once);
}

/// The file name of a manifest.
pub fn manifest_file() -> (r: &'static str)
    ensures
        r@ == manifest_file_name(),
{
    "gdpack.toml"
}

/// Where a template goes in the project rooted at `project`: under its
/// `script_templates` directory at the template's own path, renamed as
/// put in place by this tool where `rename` is set. The link runs from the
/// template's full path; `None` where a template to rename has no path.
pub fn template_link(project: &Vec<String>, t: &ScriptTemplate, rename: bool) -> (r: Option<
    (Vec<String>, Vec<String>),
>)
    ensures
        rename && t.path@.len() == 0 ==> r.is_none(),
        !(rename && t.path@.len() == 0) ==> r.is_some() && views(r.unwrap().0@) == views(t.root@)
            + views(t.path@) && views(r.unwrap().1@) == views(project@) + seq!["script_templates"@]
            + (if rename {
            views(t.path@).drop_last().push(
                imported_prefix() + stem_of(t.path@.last()@) + ".gd"@,
            )
        } else {
            views(t.path@)
        }),
{
    let path = if rename {
        match t.make_included() {
            Some(renamed) => renamed.path,
            None => return None,
        }
    } else {
        copy_path(&t.path)
    };
    let dir = vec![String::from_str("script_templates")];
    proof {
        assert(views(dir@) =~= seq!["script_templates"@]);
    }
    let base = concat_paths(project, &dir);
    Some((t.get_full_path(), concat_paths(&base, &path)))
}

} // verus!
