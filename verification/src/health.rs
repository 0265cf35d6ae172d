//! The health command's selection logic: ignore globs, the files in scope,
//! and the functions whose complexity exceeds the thresholds.

use vstd::prelude::*;
use crate::glob::{
    compile_globs, compiled_globs, glob_set_empty, glob_set_is_match, glob_set_len, refused_globs, set_globs,
    spec_glob_set_match,
};
use crate::health_types::{ExceededThreshold, HealthFinding, UntestedExport, UntestedFile};
use crate::paths::{path_eq, path_starts_with, relative_path, relative_to, spec_path_eq, spec_path_starts_with};
use crate::scope::{among, Scope};
use crate::text::string_views;

verus! {

/// Glob patterns of files to leave out of the health report, compiled
/// into one `globset::GlobSet`.
pub struct IgnoreSet {
    set: globset::GlobSet,
}

impl IgnoreSet {
    /// The patterns of the globs in the set.
    pub closed spec fn view(&self) -> Seq<Seq<char>> {
        set_globs(self.set)
    }

    /// An empty set, which matches nothing.
    pub fn empty() -> (s: IgnoreSet)
        ensures
            s@.len() == 0,
    {
        IgnoreSet { set: glob_set_empty() }
    }

    /// Whether the set holds no glob.
    pub fn is_empty(&self) -> (b: bool)
        ensures
            b == (self@.len() == 0),
    {
        glob_set_len(&self.set) == 0
    }

    /// Whether some glob of the set matches `path`.
    pub fn is_match(&self, path: &str) -> (b: bool)
        ensures
            b == spec_glob_set_match(self@, path@),
            self@.len() == 0 ==> !b,
    {
        glob_set_is_match(&self.set, path)
    }
}

/// Builds the ignore set from the configured patterns: those that parse go
/// into the set, in order (the set is empty when compiling it fails); the
/// others are handed back so that they can be reported.
pub fn build_ignore_set(patterns: &Vec<String>) -> (r: (IgnoreSet, Vec<String>))
    ensures
        r.0@ == compiled_globs(string_views(patterns@)),
        string_views(r.1@) == refused_globs(string_views(patterns@)),
{
    let (set, invalid) = compile_globs(patterns);
    (IgnoreSet { set }, invalid)
}

/// Whether a file is in the health report's scope: among the changed files
/// when those are given, under the workspace root when one is given, and not
/// matched (relative to the project root) by the ignore set.
pub open spec fn in_health_scope(
    path: Seq<char>,
    root: Seq<char>,
    changed: Option<Seq<Seq<char>>>,
    ws_root: Option<Seq<char>>,
    ignore: Seq<Seq<char>>,
) -> bool {
    &&& (changed matches Some(c) ==> (among(c))(path))
    &&& (ws_root matches Some(w) ==> spec_path_starts_with(path, w))
    &&& (ignore.len() > 0 ==> !spec_glob_set_match(ignore, relative_to(path, root)))
}

/// The changed files as a list of path strings.
pub open spec fn changed_view(changed: Option<&Vec<String>>) -> Option<Seq<Seq<char>>> {
    match changed {
        Some(c) => Some(string_views(c@)),
        None => None,
    }
}

/// The workspace root as a string.
pub open spec fn ws_view(ws_root: Option<&str>) -> Option<Seq<char>> {
    match ws_root {
        Some(w) => Some(w@),
        None => None,
    }
}

/// Whether a file is in the health report's scope.
pub fn path_in_health_scope(
    path: &str,
    root: &str,
    changed_files: Option<&Vec<String>>,
    ws_root: Option<&str>,
    ignore_set: &IgnoreSet,
) -> (b: bool)
    ensures
        b == in_health_scope(path@, root@, changed_view(changed_files), ws_view(ws_root), ignore_set@),
{
    if let Some(changed) = changed_files {
        let scope = Scope::Files(changed);
        if !scope.includes(path) {
            return false;
        }
    }
    if let Some(ws) = ws_root {
        if !path_starts_with(path, ws) {
            return false;
        }
    }
    if !ignore_set.is_empty() {
        let rel = relative_path(path, root);
        if ignore_set.is_match(rel.as_str()) {
            return false;
        }
    }
    true
}

/// Counts behind the coverage-gap summary.
#[derive(Clone, Copy, Debug, PartialEq, Eq, Structural)]
pub struct CoverageCounts {
    /// Distinct runtime-reachable files in scope.
    pub runtime_files: usize,
    /// Runtime files also reachable from tests.
    pub covered_files: usize,
    /// Runtime files with no test dependency path.
    pub untested_files: usize,
    /// Runtime exports with no test-reachable reference.
    pub untested_exports: usize,
}

/// Whether `d` holds a path equal (as a path) to `p`.
pub open spec fn has_path(d: Seq<Seq<char>>, p: Seq<char>) -> bool {
    exists|k: int| 0 <= k < d.len() && #[trigger] spec_path_eq(d[k], p)
}

/// The distinct paths of `s` (as paths), first occurrences in order.
pub open spec fn distinct(s: Seq<Seq<char>>) -> Seq<Seq<char>>
    decreases s.len(),
{
    if s.len() == 0 {
        Seq::empty()
    } else if has_path(distinct(s.drop_last()), s.last()) {
        distinct(s.drop_last())
    } else {
        distinct(s.drop_last()).push(s.last())
    }
}

/// Keeps the items of `v` that `keep` selects.
fn retain_scoped_files(
    v: &mut Vec<UntestedFile>,
    root: &str,
    changed: Option<&Vec<String>>,
    ws_root: Option<&str>,
    ignore: &IgnoreSet,
)
    ensures
        final(v)@ == old(v)@.filter(
            |f: UntestedFile|
                in_health_scope(f.path@, root@, changed_view(changed), ws_view(ws_root), ignore@),
        ),
{
    let ghost pred = |f: UntestedFile|
        in_health_scope(f.path@, root@, changed_view(changed), ws_view(ws_root), ignore@);
    let mut all: Vec<UntestedFile> = Vec::new();
    std::mem::swap(v, &mut all);
    let ghost s = all@;
    for x in it: all
        invariant
            pred == (|f: UntestedFile|
                in_health_scope(f.path@, root@, changed_view(changed), ws_view(ws_root), ignore@)),
            it.seq() == s,
            v@ == s.take(it.index() as int).filter(pred),
    {
        let ghost i = it.index();
        proof {
            assert(s.take(i + 1) =~= s.take(i as int).push(x));
            s.take(i as int).lemma_filter_push(x, pred);
        }
        if path_in_health_scope(x.path.as_str(), root, changed, ws_root, ignore) {
            v.push(x);
        }
    }
    assert(s.take(s.len() as int) =~= s);
}

/// Keeps the untested exports in scope.
fn retain_scoped_exports(
    v: &mut Vec<UntestedExport>,
    root: &str,
    changed: Option<&Vec<String>>,
    ws_root: Option<&str>,
    ignore: &IgnoreSet,
)
    ensures
        final(v)@ == old(v)@.filter(
            |e: UntestedExport|
                in_health_scope(e.path@, root@, changed_view(changed), ws_view(ws_root), ignore@),
        ),
{
    let ghost pred = |e: UntestedExport|
        in_health_scope(e.path@, root@, changed_view(changed), ws_view(ws_root), ignore@);
    let mut all: Vec<UntestedExport> = Vec::new();
    std::mem::swap(v, &mut all);
    let ghost s = all@;
    for x in it: all
        invariant
            pred == (|e: UntestedExport|
                in_health_scope(e.path@, root@, changed_view(changed), ws_view(ws_root), ignore@)),
            it.seq() == s,
            v@ == s.take(it.index() as int).filter(pred),
    {
        let ghost i = it.index();
        proof {
            assert(s.take(i + 1) =~= s.take(i as int).push(x));
            s.take(i as int).lemma_filter_push(x, pred);
        }
        if path_in_health_scope(x.path.as_str(), root, changed, ws_root, ignore) {
            v.push(x);
        }
    }
    assert(s.take(s.len() as int) =~= s);
}

/// Keeps the runtime paths in scope, each path once (first occurrences,
/// in order).
fn retain_scoped_runtime(
    v: &mut Vec<String>,
    root: &str,
    changed: Option<&Vec<String>>,
    ws_root: Option<&str>,
    ignore: &IgnoreSet,
)
    ensures
        string_views(final(v)@) == distinct(
            string_views(old(v)@).filter(
                |p: Seq<char>|
                    in_health_scope(p, root@, changed_view(changed), ws_view(ws_root), ignore@),
            ),
        ),
{
    let ghost pred = |p: Seq<char>|
        in_health_scope(p, root@, changed_view(changed), ws_view(ws_root), ignore@);
    let mut all: Vec<String> = Vec::new();
    std::mem::swap(v, &mut all);
    let ghost s = string_views(all@);
    let mut i: usize = 0;
    while i < all.len()
        invariant
            i <= all@.len(),
            s == string_views(all@),
            pred == (|p: Seq<char>|
                in_health_scope(p, root@, changed_view(changed), ws_view(ws_root), ignore@)),
            string_views(v@) == distinct(s.take(i as int).filter(pred)),
        decreases all@.len() - i,
    {
        let ghost kept = s.take(i as int).filter(pred);
        proof {
            assert(s.take(i + 1) =~= s.take(i as int).push(s[i as int]));
            s.take(i as int).lemma_filter_push(s[i as int], pred);
        }
        if path_in_health_scope(all[i].as_str(), root, changed, ws_root, ignore) {
            let mut j: usize = 0;
            let mut seen = false;
            while j < v.len() && !seen
                invariant
                    j <= v@.len(),
                    i < all@.len(),
                    seen ==> j < v@.len() && spec_path_eq(v@[j as int]@, all@[i as int]@),
                    forall|q: int| 0 <= q < j ==> !spec_path_eq(#[trigger] v@[q]@, all@[i as int]@),
                decreases v@.len() - j + (if seen { 0int } else { 1int }),
            {
                if path_eq(v[j].as_str(), all[i].as_str()) {
                    seen = true;
                } else {
                    j = j + 1;
                }
            }
            let ghost d = string_views(v@);
            proof {
                assert(kept.push(s[i as int]).drop_last() =~= kept);
                assert(kept.push(s[i as int]).last() == s[i as int]);
                if seen {
                    assert(d[j as int] == v@[j as int]@);
                    assert(spec_path_eq(d[j as int], s[i as int]));
                } else {
                    assert forall|q: int| 0 <= q < d.len() implies !spec_path_eq(#[trigger] d[q], s[i as int]) by {
                        assert(d[q] == v@[q]@);
                    }
                }
            }
            if !seen {
                v.push(all[i].clone());
                assert(string_views(v@) =~= d.push(s[i as int]));
            }
        }
        i = i + 1;
    }
    assert(s.take(all@.len() as int) =~= s);
}

/// Scopes coverage gaps to the health report's files and counts them: the
/// runtime paths in scope (each once), the untested files and exports in
/// scope, and the covered files (runtime files that are not untested,
/// saturating at zero).
pub fn filter_coverage_gaps(
    files: &mut Vec<UntestedFile>,
    exports: &mut Vec<UntestedExport>,
    runtime_paths: &mut Vec<String>,
    root: &str,
    changed_files: Option<&Vec<String>>,
    ws_root: Option<&str>,
    ignore_set: &IgnoreSet,
) -> (c: CoverageCounts)
    ensures
        final(files)@ == old(files)@.filter(
            |f: UntestedFile|
                in_health_scope(f.path@, root@, changed_view(changed_files), ws_view(ws_root), ignore_set@),
        ),
        final(exports)@ == old(exports)@.filter(
            |e: UntestedExport|
                in_health_scope(e.path@, root@, changed_view(changed_files), ws_view(ws_root), ignore_set@),
        ),
        string_views(final(runtime_paths)@) == distinct(
            string_views(old(runtime_paths)@).filter(
                |p: Seq<char>|
                    in_health_scope(p, root@, changed_view(changed_files), ws_view(ws_root), ignore_set@),
            ),
        ),
        c.runtime_files == final(runtime_paths)@.len(),
        c.untested_files == final(files)@.len(),
        c.untested_exports == final(exports)@.len(),
        c.covered_files == if c.runtime_files >= c.untested_files {
            c.runtime_files - c.untested_files
        } else {
            0
        },
{
    retain_scoped_runtime(runtime_paths, root, changed_files, ws_root, ignore_set);
    retain_scoped_files(files, root, changed_files, ws_root, ignore_set);
    retain_scoped_exports(exports, root, changed_files, ws_root, ignore_set);
    let runtime_files = runtime_paths.len();
    let untested_files = files.len();
    CoverageCounts {
        runtime_files,
        covered_files: runtime_files.saturating_sub(untested_files),
        untested_files,
        untested_exports: exports.len(),
    }
}

/// Complexity of one function.
pub struct FunctionComplexity {
    pub name: String,
    /// 1-based line.
    pub line: u32,
    /// 0-based column.
    pub col: u32,
    pub cyclomatic: u16,
    pub cognitive: u16,
    /// Lines of the function.
    pub line_count: u32,
}

/// The functions of one parsed module.
pub struct ModuleInfo {
    /// Id of the module's file.
    pub file_id: u32,
    /// Byte offset of the start of each line.
    pub line_offsets: Vec<u32>,
    pub complexity: Vec<FunctionComplexity>,
}

/// The path of a discovered file.
pub struct FilePath {
    pub id: u32,
    pub path: String,
}

/// The path of file `id` (the first entry with that id).
pub open spec fn path_of(paths: Seq<FilePath>, id: u32) -> Option<Seq<char>>
    decreases paths.len(),
{
    if paths.len() == 0 {
        None
    } else if paths[0].id == id {
        Some(paths[0].path@)
    } else {
        path_of(paths.drop_first(), id)
    }
}

/// A finding as plain values: path, name, line, column, cyclomatic,
/// cognitive, line count, exceeded threshold.
pub type FindingView = (Seq<char>, Seq<char>, u32, u32, u16, u16, u32, ExceededThreshold);

/// The view of a finding.
pub open spec fn finding_view(f: HealthFinding) -> FindingView {
    (f.path@, f.name@, f.line, f.col, f.cyclomatic, f.cognitive, f.line_count, f.exceeded)
}

/// Which threshold a function exceeds, if any (strictly above).
pub open spec fn exceeded_of(fc: FunctionComplexity, max_cyclomatic: u16, max_cognitive: u16) -> Option<ExceededThreshold> {
    let cyc = fc.cyclomatic > max_cyclomatic;
    let cog = fc.cognitive > max_cognitive;
    if cyc && cog {
        Some(ExceededThreshold::Both)
    } else if cyc {
        Some(ExceededThreshold::Cyclomatic)
    } else if cog {
        Some(ExceededThreshold::Cognitive)
    } else {
        None
    }
}

/// The findings of one module's functions, in order.
pub open spec fn module_findings(
    fcs: Seq<FunctionComplexity>,
    path: Seq<char>,
    max_cyclomatic: u16,
    max_cognitive: u16,
) -> Seq<FindingView>
    decreases fcs.len(),
{
    if fcs.len() == 0 {
        Seq::empty()
    } else {
        let prev = module_findings(fcs.drop_last(), path, max_cyclomatic, max_cognitive);
        let fc = fcs.last();
        match exceeded_of(fc, max_cyclomatic, max_cognitive) {
            Some(e) => prev.push(
                (path, fc.name@, fc.line, fc.col, fc.cyclomatic, fc.cognitive, fc.line_count, e),
            ),
            None => prev,
        }
    }
}

/// The selection of `collect_findings`.
pub struct CollectScope<'a> {
    pub file_paths: &'a Vec<FilePath>,
    pub root: &'a str,
    pub ignore: &'a IgnoreSet,
    pub changed: Option<&'a Vec<String>>,
    pub max_cyclomatic: u16,
    pub max_cognitive: u16,
}

impl<'a> CollectScope<'a> {
    /// The path of a module's file when the module is analysed: it has a
    /// path, the ignore set (when it holds a glob) does not match it
    /// (relative to the root), and it is among the changed files when those
    /// are given.
    pub open spec fn analysed_path(&self, m: ModuleInfo) -> Option<Seq<char>> {
        match path_of(self.file_paths@, m.file_id) {
            None => None,
            Some(p) => if self.ignore@.len() > 0 && spec_glob_set_match(self.ignore@, relative_to(p, self.root@)) {
                None
            } else if self.changed matches Some(c) && !(among(string_views(c@)))(p) {
                None
            } else {
                Some(p)
            },
        }
    }

    /// Findings, analysed files and analysed functions of `modules`.
    pub open spec fn collected(&self, modules: Seq<ModuleInfo>) -> (Seq<FindingView>, int, int)
        decreases modules.len(),
    {
        if modules.len() == 0 {
            (Seq::empty(), 0, 0)
        } else {
            let (f, a, b) = self.collected(modules.drop_last());
            let m = modules.last();
            match self.analysed_path(m) {
                None => (f, a, b),
                Some(p) => (
                    f + module_findings(m.complexity@, p, self.max_cyclomatic, self.max_cognitive),
                    a + 1,
                    b + m.complexity@.len(),
                ),
            }
        }
    }
}

/// A module whose file, relative to the root, matches a non-empty ignore
/// set adds no finding and is not counted, whether or not changed files
/// are given.
pub proof fn law_ignored_module_not_analysed(
    cs: &CollectScope,
    modules: Seq<ModuleInfo>,
    m: ModuleInfo,
    p: Seq<char>,
)
    requires
        path_of(cs.file_paths@, m.file_id) == Some(p),
        cs.ignore@.len() > 0,
        spec_glob_set_match(cs.ignore@, relative_to(p, cs.root@)),
    ensures
        cs.collected(modules.push(m)) == cs.collected(modules),
{
    assert(modules.push(m).drop_last() =~= modules);
}

/// A module outside the changed files, when those are given, adds no
/// finding and is not counted.
pub proof fn law_unchanged_module_not_analysed(
    cs: &CollectScope,
    modules: Seq<ModuleInfo>,
    m: ModuleInfo,
    p: Seq<char>,
    changed: &Vec<String>,
)
    requires
        path_of(cs.file_paths@, m.file_id) == Some(p),
        cs.changed == Some(changed),
        !(among(string_views(changed@)))(p),
    ensures
        cs.collected(modules.push(m)) == cs.collected(modules),
{
    assert(modules.push(m).drop_last() =~= modules);
}

/// A module with a path that no non-empty ignore set matches and that is
/// among the changed files (when those are given) is analysed: it is
/// counted with all its functions, and its findings follow those of the
/// modules before it. With no ignore pattern and no changed-file list,
/// that is every module with a path.
pub proof fn law_unfiltered_module_analysed(
    cs: &CollectScope,
    modules: Seq<ModuleInfo>,
    m: ModuleInfo,
    p: Seq<char>,
)
    requires
        path_of(cs.file_paths@, m.file_id) == Some(p),
        !(cs.ignore@.len() > 0 && spec_glob_set_match(cs.ignore@, relative_to(p, cs.root@))),
        cs.changed matches Some(c) ==> (among(string_views(c@)))(p),
    ensures
        cs.collected(modules.push(m)).0 == cs.collected(modules).0
            + module_findings(m.complexity@, p, cs.max_cyclomatic, cs.max_cognitive),
        cs.collected(modules.push(m)).1 == cs.collected(modules).1 + 1,
        cs.collected(modules.push(m)).2 == cs.collected(modules).2 + m.complexity@.len(),
{
    assert(modules.push(m).drop_last() =~= modules);
}

/// Total number of functions of all modules.
pub open spec fn function_total(modules: Seq<ModuleInfo>) -> int
    decreases modules.len(),
{
    if modules.len() == 0 {
        0
    } else {
        function_total(modules.drop_last()) + modules.last().complexity@.len()
    }
}

/// The analysed counts of a prefix are bounded by its module and function
/// totals.
proof fn lemma_collected_bounds(cs: &CollectScope, modules: Seq<ModuleInfo>, k: int)
    requires
        0 <= k <= modules.len(),
    ensures
        0 <= cs.collected(modules.take(k)).1 <= k,
        0 <= cs.collected(modules.take(k)).2 <= function_total(modules.take(k)),
        function_total(modules.take(k)) <= function_total(modules),
    decreases modules.len() - k,
{
    if k < modules.len() {
        lemma_collected_bounds(cs, modules, k + 1);
        assert(modules.take(k + 1).drop_last() =~= modules.take(k));
    } else {
        assert(modules.take(k) =~= modules);
    }
    lemma_collected_prefix(cs, modules, k);
}

/// The analysed counts of the first `k` modules are within bounds.
proof fn lemma_collected_prefix(cs: &CollectScope, modules: Seq<ModuleInfo>, k: int)
    requires
        0 <= k <= modules.len(),
    ensures
        0 <= cs.collected(modules.take(k)).1 <= k,
        0 <= cs.collected(modules.take(k)).2 <= function_total(modules.take(k)),
    decreases k,
{
    if k > 0 {
        lemma_collected_prefix(cs, modules, k - 1);
        assert(modules.take(k).drop_last() =~= modules.take(k - 1));
    }
}

/// Looks up the path of a file id.
fn lookup_path<'b>(paths: &'b Vec<FilePath>, id: u32) -> (r: Option<&'b String>)
    ensures
        match r {
            Some(p) => path_of(paths@, id) == Some(p@),
            None => path_of(paths@, id) is None,
        },
{
    let mut i: usize = 0;
    assert(paths@.skip(0) =~= paths@);
    while i < paths.len()
        invariant
            i <= paths@.len(),
            path_of(paths@, id) == path_of(paths@.skip(i as int), id),
        decreases paths@.len() - i,
    {
        assert(paths@.skip(i as int).drop_first() =~= paths@.skip(i + 1));
        if paths[i].id == id {
            return Some(&paths[i].path);
        }
        i = i + 1;
    }
    None
}

/// Collects the functions above a complexity threshold from the analysed
/// modules, with the number of analysed files and functions. A module is
/// analysed when its file has a path, the ignore set does not match the
/// path relative to the root, and (when given) the file changed.
pub fn collect_findings(modules: &Vec<ModuleInfo>, cs: &CollectScope) -> (r: (Vec<HealthFinding>, usize, usize))
    requires
        function_total(modules@) <= usize::MAX,
    ensures
        r.0@.map_values(|f: HealthFinding| finding_view(f)) == cs.collected(modules@).0,
        r.1 == cs.collected(modules@).1,
        r.2 == cs.collected(modules@).2,
{
    let mut findings: Vec<HealthFinding> = Vec::new();
    let mut files: usize = 0;
    let mut functions: usize = 0;
    let mut i: usize = 0;
    while i < modules.len()
        invariant
            i <= modules@.len(),
            function_total(modules@) <= usize::MAX,
            findings@.map_values(|f: HealthFinding| finding_view(f)) == cs.collected(
                modules@.take(i as int),
            ).0,
            files == cs.collected(modules@.take(i as int)).1,
            functions == cs.collected(modules@.take(i as int)).2,
        decreases modules@.len() - i,
    {
        let m = &modules[i];
        proof {
            assert(modules@.take(i + 1).drop_last() =~= modules@.take(i as int));
            lemma_collected_bounds(cs, modules@, i + 1);
        }
        let ghost prev = cs.collected(modules@.take(i as int));
        if let Some(path) = lookup_path(cs.file_paths, m.file_id) {
            let rel = relative_path(path.as_str(), cs.root);
            let ignored = cs.ignore.is_match(rel.as_str());
            let mut skip = ignored;
            if !ignored {
                if let Some(changed) = cs.changed {
                    let scope = Scope::Files(changed);
                    if !scope.includes(path.as_str()) {
                        skip = true;
                    }
                }
            }
            if !skip {
                files = files + 1;
                let mut j: usize = 0;
                let ghost base = findings@.map_values(|f: HealthFinding| finding_view(f));
                while j < m.complexity.len()
                    invariant
                        j <= m.complexity@.len(),
                        functions + m.complexity@.len() - j <= usize::MAX,
                        functions == prev.2 + j,
                        findings@.map_values(|f: HealthFinding| finding_view(f)) == base
                            + module_findings(
                            m.complexity@.take(j as int),
                            path@,
                            cs.max_cyclomatic,
                            cs.max_cognitive,
                        ),
                    decreases m.complexity@.len() - j,
                {
                    let fc = &m.complexity[j];
                    proof {
                        assert(m.complexity@.take(j + 1).drop_last() =~= m.complexity@.take(j as int));
                    }
                    functions = functions + 1;
                    let cyc = fc.cyclomatic > cs.max_cyclomatic;
                    let cog = fc.cognitive > cs.max_cognitive;
                    if cyc || cog {
                        let exceeded = if cyc && cog {
                            ExceededThreshold::Both
                        } else if cyc {
                            ExceededThreshold::Cyclomatic
                        } else {
                            ExceededThreshold::Cognitive
                        };
                        let ghost before = findings@;
                        findings.push(
                            HealthFinding {
                                path: path.clone(),
                                name: fc.name.clone(),
                                line: fc.line,
                                col: fc.col,
                                cyclomatic: fc.cyclomatic,
                                cognitive: fc.cognitive,
                                line_count: fc.line_count,
                                exceeded,
                            },
                        );
                        proof {
                            assert(findings@.map_values(|f: HealthFinding| finding_view(f)) =~= before.map_values(
                                |f: HealthFinding| finding_view(f),
                            ).push(finding_view(findings@.last())));
                        }
                    }
                    j = j + 1;
                }
                assert(m.complexity@.take(m.complexity@.len() as int) =~= m.complexity@);
            }
        }
        i = i + 1;
    }
    assert(modules@.take(modules@.len() as int) =~= modules@);
    (findings, files, functions)
}

} // verus!
