//! Scoping findings to part of a project: one workspace package, or the
//! files changed since a git ref.

use vstd::prelude::*;
use crate::paths::{path_eq, path_join, path_starts_with, spec_path_eq, spec_path_join, spec_path_starts_with};
use crate::results::{
    AnalysisResults, BoundaryViolation, CircularDependency, DuplicateExport, DuplicateLocation,
    TestOnlyDependency, TypeOnlyDependency, UnlistedDependency, UnusedDependency,
};
use crate::rules::Located;
use crate::text::{
    chars_of, extend_all, extend_str, join, join_chars, lemma_take_map_push, split_char, split_exec,
    str_eq, string_of, string_views, views,
};

verus! {

impl Located for BoundaryViolation {
    /// The importing file.
    open spec fn path_view(&self) -> Seq<char> {
        self.from_path@
    }

    fn path_str(&self) -> (p: &str) {
        self.from_path.as_str()
    }
}

impl Located for UnusedDependency {
    /// The `package.json` that lists the dependency.
    open spec fn path_view(&self) -> Seq<char> {
        self.path@
    }

    fn path_str(&self) -> (p: &str) {
        self.path.as_str()
    }
}

impl Located for TypeOnlyDependency {
    /// The `package.json` that lists the dependency.
    open spec fn path_view(&self) -> Seq<char> {
        self.path@
    }

    fn path_str(&self) -> (p: &str) {
        self.path.as_str()
    }
}

impl Located for TestOnlyDependency {
    /// The `package.json` that lists the dependency.
    open spec fn path_view(&self) -> Seq<char> {
        self.path@
    }

    fn path_str(&self) -> (p: &str) {
        self.path.as_str()
    }
}

/// The files under `root` (component-wise prefix).
pub open spec fn under(root: Seq<char>) -> spec_fn(Seq<char>) -> bool {
    |p: Seq<char>| spec_path_starts_with(p, root)
}

/// The files of a list (component-wise path equality).
pub open spec fn among(files: Seq<Seq<char>>) -> spec_fn(Seq<char>) -> bool {
    |p: Seq<char>| exists|i: int| 0 <= i < files.len() && #[trigger] spec_path_eq(files[i], p)
}

/// A part of the project.
pub enum Scope<'a> {
    /// The files under a directory.
    Under(&'a str),
    /// The files of a list.
    Files(&'a Vec<String>),
}

impl<'a> Scope<'a> {
    /// Which files are in the scope.
    pub open spec fn view(&self) -> spec_fn(Seq<char>) -> bool {
        match self {
            Scope::Under(root) => under(root@),
            Scope::Files(fs) => among(string_views(fs@)),
        }
    }

    /// Whether the file at `p` is in the scope.
    pub fn includes(&self, p: &str) -> (b: bool)
        ensures
            b == (self.view())(p@),
    {
        match self {
            Scope::Under(root) => path_starts_with(p, root),
            Scope::Files(fs) => {
                let ghost names = string_views(fs@);
                assert(self.view() == among(names));
                let mut i: usize = 0;
                while i < fs.len()
                    invariant
                        i <= fs@.len(),
                        names == string_views(fs@),
                        self.view() == among(names),
                        forall|j: int| 0 <= j < i ==> !#[trigger] spec_path_eq(names[j], p@),
                    decreases fs@.len() - i,
                {
                    if path_eq(fs[i].as_str(), p) {
                        assert(spec_path_eq(names[i as int], p@));
                        assert((among(names))(p@));
                        return true;
                    }
                    i = i + 1;
                }
                assert(!(among(names))(p@));
                false
            },
        }
    }
}

/// The findings of `v` whose file is in the scope, in order.
pub open spec fn in_scope<T: Located>(v: Seq<T>, holds: spec_fn(Seq<char>) -> bool) -> Seq<T> {
    v.filter(|x: T| holds(x.path_view()))
}

/// Keeps the findings whose file is in the scope.
fn retain_in_scope<T: Located>(v: &mut Vec<T>, scope: &Scope)
    ensures
        final(v)@ == in_scope(old(v)@, scope@),
{
    let ghost holds = scope@;
    let ghost pred = |x: T| holds(x.path_view());
    let mut all: Vec<T> = Vec::new();
    std::mem::swap(v, &mut all);
    let ghost s = all@;
    for x in it: all
        invariant
            holds == scope@,
            pred == (|x: T| holds(x.path_view())),
            it.seq() == s,
            v@ == s.take(it.index() as int).filter(pred),
    {
        let ghost i = it.index();
        proof {
            assert(s.take(i + 1) =~= s.take(i as int).push(x));
            s.take(i as int).lemma_filter_push(x, pred);
        }
        if scope.includes(x.path_str()) {
            v.push(x);
        }
    }
    assert(s.take(s.len() as int) =~= s);
}

/// The findings of `v` listed in the `package.json` at `pkg`, in order.
pub open spec fn at_manifest<T: Located>(v: Seq<T>, pkg: Seq<char>) -> Seq<T> {
    v.filter(|x: T| spec_path_eq(x.path_view(), pkg))
}

/// Keeps the findings listed in the `package.json` at `pkg`.
fn retain_at_manifest<T: Located>(v: &mut Vec<T>, pkg: &str)
    ensures
        final(v)@ == at_manifest(old(v)@, pkg@),
{
    let ghost pred = |x: T| spec_path_eq(x.path_view(), pkg@);
    let mut all: Vec<T> = Vec::new();
    std::mem::swap(v, &mut all);
    let ghost s = all@;
    for x in it: all
        invariant
            pred == (|x: T| spec_path_eq(x.path_view(), pkg@)),
            it.seq() == s,
            v@ == s.take(it.index() as int).filter(pred),
    {
        let ghost i = it.index();
        proof {
            assert(s.take(i + 1) =~= s.take(i as int).push(x));
            s.take(i as int).lemma_filter_push(x, pred);
        }
        if path_eq(x.path_str(), pkg) {
            v.push(x);
        }
    }
    assert(s.take(s.len() as int) =~= s);
}

/// Whether some file importing the package is in the scope.
pub open spec fn imported_in(d: UnlistedDependency, holds: spec_fn(Seq<char>) -> bool) -> bool {
    exists|i: int| 0 <= i < d.imported_from@.len() && #[trigger] holds(d.imported_from@[i].path@)
}

/// Whether some file of the cycle is in the scope.
pub open spec fn cycle_touches(c: CircularDependency, holds: spec_fn(Seq<char>) -> bool) -> bool {
    exists|i: int| 0 <= i < c.files@.len() && #[trigger] holds(c.files@[i]@)
}

/// Whether some import site of `d` is in the scope.
fn any_site_in(d: &UnlistedDependency, scope: &Scope) -> (b: bool)
    ensures
        b == imported_in(*d, scope@),
{
    let mut i: usize = 0;
    while i < d.imported_from.len()
        invariant
            i <= d.imported_from@.len(),
            forall|j: int| 0 <= j < i ==> !#[trigger] (scope@)(d.imported_from@[j].path@),
        decreases d.imported_from@.len() - i,
    {
        if scope.includes(d.imported_from[i].path.as_str()) {
            return true;
        }
        i = i + 1;
    }
    false
}

/// Whether some file of the cycle is in the scope.
fn any_file_in(c: &CircularDependency, scope: &Scope) -> (b: bool)
    ensures
        b == cycle_touches(*c, scope@),
{
    let mut i: usize = 0;
    while i < c.files.len()
        invariant
            i <= c.files@.len(),
            forall|j: int| 0 <= j < i ==> !#[trigger] (scope@)(c.files@[j]@),
        decreases c.files@.len() - i,
    {
        if scope.includes(c.files[i].as_str()) {
            return true;
        }
        i = i + 1;
    }
    false
}

/// Keeps the unlisted dependencies imported from the scope.
fn retain_unlisted(v: &mut Vec<UnlistedDependency>, scope: &Scope)
    ensures
        final(v)@ == old(v)@.filter(|d: UnlistedDependency| imported_in(d, scope@)),
{
    let ghost pred = |d: UnlistedDependency| imported_in(d, scope@);
    let mut all: Vec<UnlistedDependency> = Vec::new();
    std::mem::swap(v, &mut all);
    let ghost s = all@;
    for x in it: all
        invariant
            pred == (|d: UnlistedDependency| imported_in(d, scope@)),
            it.seq() == s,
            v@ == s.take(it.index() as int).filter(pred),
    {
        let ghost i = it.index();
        proof {
            assert(s.take(i + 1) =~= s.take(i as int).push(x));
            s.take(i as int).lemma_filter_push(x, pred);
        }
        if any_site_in(&x, scope) {
            v.push(x);
        }
    }
    assert(s.take(s.len() as int) =~= s);
}

/// Keeps the cycles that touch the scope.
fn retain_cycles(v: &mut Vec<CircularDependency>, scope: &Scope)
    ensures
        final(v)@ == old(v)@.filter(|c: CircularDependency| cycle_touches(c, scope@)),
{
    let ghost pred = |c: CircularDependency| cycle_touches(c, scope@);
    let mut all: Vec<CircularDependency> = Vec::new();
    std::mem::swap(v, &mut all);
    let ghost s = all@;
    for x in it: all
        invariant
            pred == (|c: CircularDependency| cycle_touches(c, scope@)),
            it.seq() == s,
            v@ == s.take(it.index() as int).filter(pred),
    {
        let ghost i = it.index();
        proof {
            assert(s.take(i + 1) =~= s.take(i as int).push(x));
            s.take(i as int).lemma_filter_push(x, pred);
        }
        if any_file_in(&x, scope) {
            v.push(x);
        }
    }
    assert(s.take(s.len() as int) =~= s);
}

/// A duplicate export as a name and its locations.
pub open spec fn dup_view(d: DuplicateExport) -> (Seq<char>, Seq<DuplicateLocation>) {
    (d.export_name@, d.locations@)
}

/// A duplicate export with its locations cut to the scope.
pub open spec fn dup_in_scope(d: DuplicateExport, holds: spec_fn(Seq<char>) -> bool) -> (Seq<char>, Seq<DuplicateLocation>) {
    (d.export_name@, d.locations@.filter(|l: DuplicateLocation| holds(l.path@)))
}

/// The duplicate exports with their locations cut to the scope, dropping
/// those left with fewer than two locations.
pub open spec fn dups_in_scope(v: Seq<DuplicateExport>, holds: spec_fn(Seq<char>) -> bool) -> Seq<(Seq<char>, Seq<DuplicateLocation>)> {
    v.map_values(|d: DuplicateExport| dup_in_scope(d, holds)).filter(
        |p: (Seq<char>, Seq<DuplicateLocation>)| p.1.len() >= 2,
    )
}

/// Keeps the locations in the scope.
fn retain_locations(v: &mut Vec<DuplicateLocation>, scope: &Scope)
    ensures
        final(v)@ == old(v)@.filter(|l: DuplicateLocation| (scope@)(l.path@)),
{
    let ghost pred = |l: DuplicateLocation| (scope@)(l.path@);
    let mut all: Vec<DuplicateLocation> = Vec::new();
    std::mem::swap(v, &mut all);
    let ghost s = all@;
    for x in it: all
        invariant
            pred == (|l: DuplicateLocation| (scope@)(l.path@)),
            it.seq() == s,
            v@ == s.take(it.index() as int).filter(pred),
    {
        let ghost i = it.index();
        proof {
            assert(s.take(i + 1) =~= s.take(i as int).push(x));
            s.take(i as int).lemma_filter_push(x, pred);
        }
        if scope.includes(x.path.as_str()) {
            v.push(x);
        }
    }
    assert(s.take(s.len() as int) =~= s);
}

/// Cuts every duplicate export to the scope and drops those left with fewer
/// than two locations.
fn scope_duplicates(v: &mut Vec<DuplicateExport>, scope: &Scope)
    ensures
        final(v)@.map_values(|d: DuplicateExport| dup_view(d)) == dups_in_scope(old(v)@, scope@),
{
    let ghost f = |d: DuplicateExport| dup_in_scope(d, scope@);
    let ghost g = |p: (Seq<char>, Seq<DuplicateLocation>)| p.1.len() >= 2;
    let mut all: Vec<DuplicateExport> = Vec::new();
    std::mem::swap(v, &mut all);
    let ghost s = all@;
    for x in it: all
        invariant
            f == (|d: DuplicateExport| dup_in_scope(d, scope@)),
            g == (|p: (Seq<char>, Seq<DuplicateLocation>)| p.1.len() >= 2),
            it.seq() == s,
            v@.map_values(|d: DuplicateExport| dup_view(d)) == s.take(it.index() as int).map_values(
                f,
            ).filter(g),
    {
        let ghost i = it.index();
        let ghost before = v@;
        proof {
            lemma_take_map_push(s, f, i as int);
            s.take(i as int).map_values(f).lemma_filter_push(f(x), g);
        }
        let mut d = x;
        retain_locations(&mut d.locations, scope);
        if d.locations.len() >= 2 {
            v.push(d);
            assert(v@.map_values(|d: DuplicateExport| dup_view(d)) =~= before.map_values(
                |d: DuplicateExport| dup_view(d),
            ).push(dup_view(d)));
        }
    }
    assert(s.take(s.len() as int) =~= s);
}

/// Whether `r` holds the findings of `old` that `holds` keeps, for every
/// category both scopes treat alike: file-scoped findings in the scope,
/// unlisted dependencies imported from it, duplicate exports cut to it
/// (kept with at least two locations), cycles touching it, and boundary
/// violations whose importing file is in it.
pub open spec fn scoped_findings(
    r: &AnalysisResults,
    old: &AnalysisResults,
    holds: spec_fn(Seq<char>) -> bool,
) -> bool {
    &&& r.unused_files@ == in_scope(old.unused_files@, holds)
    &&& r.unused_exports@ == in_scope(old.unused_exports@, holds)
    &&& r.unused_types@ == in_scope(old.unused_types@, holds)
    &&& r.unused_enum_members@ == in_scope(old.unused_enum_members@, holds)
    &&& r.unused_class_members@ == in_scope(old.unused_class_members@, holds)
    &&& r.unresolved_imports@ == in_scope(old.unresolved_imports@, holds)
    &&& r.unlisted_dependencies@ == old.unlisted_dependencies@.filter(
        |d: UnlistedDependency| imported_in(d, holds),
    )
    &&& r.duplicate_exports@.map_values(|d: DuplicateExport| dup_view(d)) == dups_in_scope(
        old.duplicate_exports@,
        holds,
    )
    &&& r.circular_dependencies@ == old.circular_dependencies@.filter(
        |c: CircularDependency| cycle_touches(c, holds),
    )
    &&& r.boundary_violations@ == in_scope(old.boundary_violations@, holds)
}

/// Scopes every category that both scopes treat alike.
fn scope_common(results: &mut AnalysisResults, scope: &Scope)
    ensures
        scoped_findings(final(results), old(results), scope@),
        final(results).unused_dependencies@ == old(results).unused_dependencies@,
        final(results).unused_dev_dependencies@ == old(results).unused_dev_dependencies@,
        final(results).unused_optional_dependencies@ == old(results).unused_optional_dependencies@,
        final(results).type_only_dependencies@ == old(results).type_only_dependencies@,
        final(results).test_only_dependencies@ == old(results).test_only_dependencies@,
{
    retain_in_scope(&mut results.unused_files, scope);
    retain_in_scope(&mut results.unused_exports, scope);
    retain_in_scope(&mut results.unused_types, scope);
    retain_in_scope(&mut results.unused_enum_members, scope);
    retain_in_scope(&mut results.unused_class_members, scope);
    retain_in_scope(&mut results.unresolved_imports, scope);
    retain_unlisted(&mut results.unlisted_dependencies, scope);
    scope_duplicates(&mut results.duplicate_exports, scope);
    retain_cycles(&mut results.circular_dependencies, scope);
    retain_in_scope(&mut results.boundary_violations, scope);
}

/// Whether `r` is `old` scoped to the workspace at `ws_root`: the common
/// categories by the files under the root, and dependency findings (all
/// five dependency categories) by the workspace's own `package.json`.
pub open spec fn scoped_to_workspace(r: &AnalysisResults, old: &AnalysisResults, ws_root: Seq<char>) -> bool {
    let pkg = spec_path_join(ws_root, "package.json"@);
    &&& scoped_findings(r, old, under(ws_root))
    &&& r.unused_dependencies@ == at_manifest(old.unused_dependencies@, pkg)
    &&& r.unused_dev_dependencies@ == at_manifest(old.unused_dev_dependencies@, pkg)
    &&& r.unused_optional_dependencies@ == at_manifest(old.unused_optional_dependencies@, pkg)
    &&& r.type_only_dependencies@ == at_manifest(old.type_only_dependencies@, pkg)
    &&& r.test_only_dependencies@ == at_manifest(old.test_only_dependencies@, pkg)
}

/// Scopes results to one workspace package. The whole graph was still
/// analysed, so cross-package imports resolved; only findings that belong
/// to the package under `ws_root` are kept.
pub fn filter_to_workspace(results: &mut AnalysisResults, ws_root: &str)
    ensures
        scoped_to_workspace(final(results), old(results), ws_root@),
{
    let scope = Scope::Under(ws_root);
    scope_common(results, &scope);
    let pkg = path_join(ws_root, "package.json");
    retain_at_manifest(&mut results.unused_dependencies, pkg.as_str());
    retain_at_manifest(&mut results.unused_dev_dependencies, pkg.as_str());
    retain_at_manifest(&mut results.unused_optional_dependencies, pkg.as_str());
    retain_at_manifest(&mut results.type_only_dependencies, pkg.as_str());
    retain_at_manifest(&mut results.test_only_dependencies, pkg.as_str());
}

/// Whether `r` is `old` scoped to the changed files: the common categories
/// by the files of the list, dependency findings untouched (whether a
/// dependency is unused depends on the whole import graph, not on single
/// files).
pub open spec fn scoped_to_changed(r: &AnalysisResults, old: &AnalysisResults, changed: Seq<Seq<char>>) -> bool {
    &&& scoped_findings(r, old, among(changed))
    &&& r.unused_dependencies@ == old.unused_dependencies@
    &&& r.unused_dev_dependencies@ == old.unused_dev_dependencies@
    &&& r.unused_optional_dependencies@ == old.unused_optional_dependencies@
    &&& r.type_only_dependencies@ == old.type_only_dependencies@
    &&& r.test_only_dependencies@ == old.test_only_dependencies@
}

/// Keeps only the findings in changed files.
pub fn filter_changed_files(results: &mut AnalysisResults, changed_files: &Vec<String>)
    ensures
        scoped_to_changed(final(results), old(results), string_views(changed_files@)),
{
    let scope = Scope::Files(changed_files);
    assert(scope@ == among(string_views(changed_files@)));
    scope_common(results, &scope);
}

/// A line without the `\r` of a `\r\n` ending.
pub open spec fn strip_cr(l: Seq<char>) -> Seq<char> {
    if l.len() > 0 && l.last() == '\r' {
        l.drop_last()
    } else {
        l
    }
}

/// The lines of a text as `str::lines` gives them: split at `\n`, each line
/// that a `\n` ends without a `\r` before it, and no empty line after a
/// final `\n`.
pub open spec fn text_lines(s: Seq<char>) -> Seq<Seq<char>> {
    let p = split_char(s, '\n');
    let init = p.drop_last().map_values(|l: Seq<char>| strip_cr(l));
    if p.len() == 0 || p.last().len() == 0 {
        init
    } else {
        init.push(p.last())
    }
}

/// The changed files named by `git diff --name-only`, each joined to the
/// project root.
pub open spec fn changed_files_of(root: Seq<char>, stdout: Seq<char>) -> Seq<Seq<char>> {
    text_lines(stdout).map_values(|l: Seq<char>| spec_path_join(root, l))
}

/// Reads the changed files from the output of `git diff --name-only`.
pub fn changed_files_from_diff(root: &str, stdout: &str) -> (r: Vec<String>)
    ensures
        string_views(r@) == changed_files_of(root@, stdout@),
{
    let text = chars_of(stdout);
    let pieces = split_exec(&text, '\n');
    let ghost p = views(pieces@);
    let ghost lines = text_lines(stdout@);
    let ghost f = |l: Seq<char>| spec_path_join(root@, l);
    let n = pieces.len();
    let mut out: Vec<String> = Vec::new();
    if n == 0 {
        assert(lines =~= Seq::<Seq<char>>::empty());
        assert(string_views(out@) =~= changed_files_of(root@, stdout@));
        return out;
    }
    let mut i: usize = 0;
    while i + 1 < n
        invariant
            n == pieces@.len(),
            n > 0,
            i + 1 <= n,
            p == views(pieces@),
            p == split_char(stdout@, '\n'),
            f == (|l: Seq<char>| spec_path_join(root@, l)),
            string_views(out@) == p.drop_last().map_values(|l: Seq<char>| strip_cr(l)).take(i as int).map_values(f),
        decreases n - i,
    {
        let piece = &pieces[i];
        let len = piece.len();
        let line: Vec<char> = if len > 0 && piece[len - 1] == '\r' {
            crate::text::sub_vec(piece, 0, len - 1)
        } else {
            crate::text::sub_vec(piece, 0, len)
        };
        proof {
            assert(piece@.subrange(0, len as int) =~= piece@);
            assert(piece@.drop_last() =~= piece@.subrange(0, len - 1));
            assert(p[i as int] == piece@);
            assert(line@ == strip_cr(p[i as int]));
        }
        let joined = crate::paths::path_join(root, string_of(&line).as_str());
        let ghost o0 = out@;
        out.push(joined);
        proof {
            let q = p.drop_last().map_values(|l: Seq<char>| strip_cr(l));
            assert(q[i as int] == strip_cr(p[i as int]));
            assert(string_views(out@) =~= q.take(i + 1).map_values(f)) by {
                assert(string_views(o0) == q.take(i as int).map_values(f));
                assert(string_views(out@) =~= string_views(o0).push(joined@));
                assert(q.take(i + 1) =~= q.take(i as int).push(q[i as int]));
            }
        }
        i = i + 1;
    }
    let ghost q = p.drop_last().map_values(|l: Seq<char>| strip_cr(l));
    assert(q.take(q.len() as int) =~= q);
    let last = &pieces[n - 1];
    if last.len() > 0 {
        let joined = crate::paths::path_join(root, string_of(last).as_str());
        let ghost o0 = out@;
        out.push(joined);
        assert(p.last() == last@);
        assert(string_views(out@) =~= string_views(o0).push(joined@));
        assert(string_views(out@) =~= q.push(p.last()).map_values(f));
    } else {
        assert(p.last() == last@);
    }
    out
}

/// A workspace package: its name and root directory.
pub struct WorkspaceInfo {
    pub name: String,
    pub root: String,
}

/// The index of the first workspace named `name`.
pub open spec fn first_named(ws: Seq<WorkspaceInfo>, name: Seq<char>) -> Option<int> {
    if exists|i: int| 0 <= i < ws.len() && (#[trigger] ws[i]).name@ == name {
        Some(choose|i: int| 0 <= i < ws.len() && (#[trigger] ws[i]).name@ == name
            && forall|j: int| 0 <= j < i ==> (#[trigger] ws[j]).name@ != name)
    } else {
        None
    }
}

/// The names of the workspaces.
pub open spec fn workspace_names(ws: Seq<WorkspaceInfo>) -> Seq<Seq<char>> {
    ws.map_values(|w: WorkspaceInfo| w.name@)
}

/// The root of the workspace given to `--workspace`, or the message shown
/// when there are no workspaces or none has that name.
pub open spec fn workspace_lookup(ws: Seq<WorkspaceInfo>, name: Seq<char>) -> Result<Seq<char>, Seq<char>> {
    if ws.len() == 0 {
        Err("--workspace '"@ + name
            + "' specified but no workspaces found. Ensure root package.json has a \"workspaces\" field, pnpm-workspace.yaml exists, or tsconfig.json has \"references\"."@)
    } else {
        match first_named(ws, name) {
            Some(i) => Ok(ws[i].root@),
            None => Err("workspace '"@ + name + "' not found. Available workspaces: "@ + join(workspace_names(ws), ", "@)),
        }
    }
}

/// Resolves `--workspace`: the root of the first workspace with that name.
pub fn resolve_workspace_root(workspaces: &Vec<WorkspaceInfo>, name: &str) -> (r: Result<String, String>)
    ensures
        match r {
            Ok(root) => workspace_lookup(workspaces@, name@) == Ok::<Seq<char>, Seq<char>>(root@),
            Err(msg) => workspace_lookup(workspaces@, name@) == Err::<Seq<char>, Seq<char>>(msg@),
        },
{
    if workspaces.len() == 0 {
        let mut m = chars_of("--workspace '");
        extend_str(&mut m, name);
        extend_str(
            &mut m,
            "' specified but no workspaces found. Ensure root package.json has a \"workspaces\" field, pnpm-workspace.yaml exists, or tsconfig.json has \"references\".",
        );
        return Err(string_of(&m));
    }
    let ghost ws = workspaces@;
    let mut names: Vec<Vec<char>> = Vec::new();
    let mut i: usize = 0;
    while i < workspaces.len()
        invariant
            i <= ws.len(),
            ws == workspaces@,
            views(names@) == workspace_names(ws).take(i as int),
            forall|j: int| 0 <= j < i ==> (#[trigger] ws[j]).name@ != name@,
        decreases ws.len() - i,
    {
        if str_eq(workspaces[i].name.as_str(), name) {
            let ghost w = choose|k: int| 0 <= k < ws.len() && (#[trigger] ws[k]).name@ == name@
                && forall|j: int| 0 <= j < k ==> (#[trigger] ws[j]).name@ != name@;
            assert(ws[i as int].name@ == name@);
            assert(w == i as int) by {
                if w < i as int {
                    assert(ws[w].name@ != name@);
                } else if w > i as int {
                    assert(ws[i as int].name@ == name@);
                }
            }
            return Ok(workspaces[i].root.clone());
        }
        let c = chars_of(workspaces[i].name.as_str());
        let ghost n0 = names@;
        names.push(c);
        proof {
            assert(names@ == n0.push(c));
            assert(views(n0).len() == i);
            assert(views(names@).len() == i + 1);
            assert(views(names@)[i as int] == workspace_names(ws)[i as int]);
            assert(forall|j: int| 0 <= j < i ==> views(names@)[j] == views(n0)[j]);
            assert(views(names@) =~= workspace_names(ws).take(i + 1));
        }
        i = i + 1;
    }
    assert(workspace_names(ws).take(ws.len() as int) =~= workspace_names(ws));
    assert(first_named(ws, name@) is None);
    let mut m = chars_of("workspace '");
    extend_str(&mut m, name);
    extend_str(&mut m, "' not found. Available workspaces: ");
    let sep = chars_of(", ");
    let j = join_chars(&names, &sep);
    extend_all(&mut m, &j);
    Err(string_of(&m))
}

/// Nothing of a scope that holds no file survives the filter.
proof fn lemma_nothing_in_empty<T: Located>(v: Seq<T>)
    ensures
        in_scope(v, among(Seq::empty())).len() == 0,
{
    let f = |x: T| (among(Seq::empty()))(x.path_view());
    assert(v.filter(f) =~= Seq::<T>::empty()) by {
        if v.filter(f).len() > 0 {
            let x = v.filter(f)[0];
            v.filter_lemma(f);
            assert(f(x));
        }
    }
}

/// With no changed files, every finding tied to files is dropped, and the
/// dependency findings, which do not belong to single files, all stay.
pub proof fn law_no_changed_files_keeps_only_dependency_findings(r: &AnalysisResults, old: &AnalysisResults)
    requires
        scoped_to_changed(r, old, Seq::empty()),
    ensures
        r.unused_files@.len() == 0,
        r.unused_exports@.len() == 0,
        r.unused_types@.len() == 0,
        r.unused_enum_members@.len() == 0,
        r.unused_class_members@.len() == 0,
        r.unresolved_imports@.len() == 0,
        r.unlisted_dependencies@.len() == 0,
        r.duplicate_exports@.len() == 0,
        r.circular_dependencies@.len() == 0,
        r.boundary_violations@.len() == 0,
        r.unused_dependencies@ == old.unused_dependencies@,
        r.unused_dev_dependencies@ == old.unused_dev_dependencies@,
        r.unused_optional_dependencies@ == old.unused_optional_dependencies@,
        r.type_only_dependencies@ == old.type_only_dependencies@,
        r.test_only_dependencies@ == old.test_only_dependencies@,
{
    let holds = among(Seq::<Seq<char>>::empty());
    lemma_nothing_in_empty(old.unused_files@);
    lemma_nothing_in_empty(old.unused_exports@);
    lemma_nothing_in_empty(old.unused_types@);
    lemma_nothing_in_empty(old.unused_enum_members@);
    lemma_nothing_in_empty(old.unused_class_members@);
    lemma_nothing_in_empty(old.unresolved_imports@);
    lemma_nothing_in_empty(old.boundary_violations@);
    let fu = |d: UnlistedDependency| imported_in(d, holds);
    assert(old.unlisted_dependencies@.filter(fu).len() == 0) by {
        if old.unlisted_dependencies@.filter(fu).len() > 0 {
            let x = old.unlisted_dependencies@.filter(fu)[0];
            old.unlisted_dependencies@.filter_lemma(fu);
            assert(fu(x));
        }
    }
    let fc = |c: CircularDependency| cycle_touches(c, holds);
    assert(old.circular_dependencies@.filter(fc).len() == 0) by {
        if old.circular_dependencies@.filter(fc).len() > 0 {
            let x = old.circular_dependencies@.filter(fc)[0];
            old.circular_dependencies@.filter_lemma(fc);
            assert(fc(x));
        }
    }
    let m = old.duplicate_exports@.map_values(|d: DuplicateExport| dup_in_scope(d, holds));
    let fd = |p: (Seq<char>, Seq<DuplicateLocation>)| p.1.len() >= 2;
    assert(m.filter(fd).len() == 0) by {
        if m.filter(fd).len() > 0 {
            let x = m.filter(fd)[0];
            m.filter_lemma(fd);
            assert(m.filter(fd).contains(x));
            m.lemma_filter_contains_rev(fd, x);
            assert(m.contains(x));
            let i = choose|i: int| 0 <= i < m.len() && m[i] == x;
            let d = old.duplicate_exports@[i];
            let fl = |l: DuplicateLocation| holds(l.path@);
            assert(d.locations@.filter(fl) =~= Seq::<DuplicateLocation>::empty()) by {
                if d.locations@.filter(fl).len() > 0 {
                    let y = d.locations@.filter(fl)[0];
                    d.locations@.filter_lemma(fl);
                    assert(fl(y));
                }
            }
        }
    }
    assert(r.duplicate_exports@.map_values(|d: DuplicateExport| dup_view(d)).len() == r.duplicate_exports@.len());
}

} // verus!
