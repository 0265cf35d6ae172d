use fallow_cli::health::{
    build_ignore_set, collect_findings, path_in_health_scope, CollectScope, FilePath,
    FunctionComplexity, IgnoreSet, ModuleInfo,
};
use fallow_cli::health::filter_coverage_gaps;
use fallow_cli::health_types::{ExceededThreshold, UntestedExport, UntestedFile};

fn make_fc(name: &str, cyclomatic: u16, cognitive: u16, line_count: u32) -> FunctionComplexity {
    FunctionComplexity { name: name.to_string(), line: 1, col: 0, cyclomatic, cognitive, line_count }
}

fn make_module(file_id: u32, complexity: Vec<FunctionComplexity>) -> ModuleInfo {
    ModuleInfo { file_id, line_offsets: Vec::new(), complexity }
}

fn fp(id: u32, path: &str) -> FilePath {
    FilePath { id, path: path.to_string() }
}

fn scope<'a>(
    file_paths: &'a Vec<FilePath>,
    ignore: &'a IgnoreSet,
    changed: Option<&'a Vec<String>>,
) -> CollectScope<'a> {
    CollectScope { file_paths, root: "/project", ignore, changed, max_cyclomatic: 20, max_cognitive: 15 }
}

// ── build_ignore_set ────────────────────────────────────────────

#[test]
fn build_ignore_set_empty_patterns() {
    let (set, invalid) = build_ignore_set(&Vec::new());
    assert!(set.is_empty());
    assert!(invalid.is_empty());
}

#[test]
fn build_ignore_set_matches_glob() {
    let (set, _) = build_ignore_set(&vec!["src/generated/**".to_string()]);
    assert!(set.is_match("src/generated/types.ts"));
    assert!(!set.is_match("src/utils.ts"));
}

#[test]
fn build_ignore_set_multiple_patterns() {
    let patterns = vec!["*.test.ts".to_string(), "dist/**".to_string()];
    let (set, _) = build_ignore_set(&patterns);
    assert!(set.is_match("foo.test.ts"));
    assert!(set.is_match("dist/index.js"));
    assert!(!set.is_match("src/index.ts"));
}

#[test]
fn build_ignore_set_skips_invalid_patterns() {
    let patterns = vec!["[invalid".to_string(), "*.js".to_string()];
    let (set, invalid) = build_ignore_set(&patterns);
    assert!(set.is_match("foo.js"));
    assert_eq!(invalid, vec!["[invalid".to_string()]);
}

// ── collect_findings ────────────────────────────────────────────

#[test]
fn collect_findings_empty_modules() {
    let paths: Vec<FilePath> = Vec::new();
    let ignore = IgnoreSet::empty();
    let (findings, files, functions) = collect_findings(&Vec::new(), &scope(&paths, &ignore, None));
    assert!(findings.is_empty());
    assert_eq!(files, 0);
    assert_eq!(functions, 0);
}

#[test]
fn collect_findings_below_threshold() {
    let modules = vec![make_module(0, vec![make_fc("doStuff", 5, 3, 10)])];
    let paths = vec![fp(0, "/project/src/a.ts")];
    let ignore = IgnoreSet::empty();
    let (findings, files, functions) = collect_findings(&modules, &scope(&paths, &ignore, None));
    assert!(findings.is_empty());
    assert_eq!(files, 1);
    assert_eq!(functions, 1);
}

#[test]
fn collect_findings_exceeds_cyclomatic_only() {
    let modules = vec![make_module(0, vec![make_fc("complexFn", 25, 5, 50)])];
    let paths = vec![fp(0, "/project/src/a.ts")];
    let ignore = IgnoreSet::empty();
    let (findings, _, _) = collect_findings(&modules, &scope(&paths, &ignore, None));
    assert_eq!(findings.len(), 1);
    assert_eq!(findings[0].cyclomatic, 25);
    assert!(matches!(findings[0].exceeded, ExceededThreshold::Cyclomatic));
}

#[test]
fn collect_findings_exceeds_cognitive_only() {
    let modules = vec![make_module(0, vec![make_fc("nestedFn", 5, 20, 30)])];
    let paths = vec![fp(0, "/project/src/a.ts")];
    let ignore = IgnoreSet::empty();
    let (findings, _, _) = collect_findings(&modules, &scope(&paths, &ignore, None));
    assert_eq!(findings.len(), 1);
    assert!(matches!(findings[0].exceeded, ExceededThreshold::Cognitive));
}

#[test]
fn collect_findings_exceeds_both() {
    let modules = vec![make_module(0, vec![make_fc("terribleFn", 25, 20, 100)])];
    let paths = vec![fp(0, "/project/src/a.ts")];
    let ignore = IgnoreSet::empty();
    let (findings, _, _) = collect_findings(&modules, &scope(&paths, &ignore, None));
    assert_eq!(findings.len(), 1);
    assert!(matches!(findings[0].exceeded, ExceededThreshold::Both));
}

#[test]
fn collect_findings_multiple_functions_per_file() {
    let modules = vec![make_module(
        0,
        vec![make_fc("ok", 5, 3, 10), make_fc("bad", 25, 20, 50), make_fc("also_bad", 21, 5, 30)],
    )];
    let paths = vec![fp(0, "/project/src/a.ts")];
    let ignore = IgnoreSet::empty();
    let (findings, files, functions) = collect_findings(&modules, &scope(&paths, &ignore, None));
    assert_eq!(findings.len(), 2);
    assert_eq!(files, 1);
    assert_eq!(functions, 3);
}

#[test]
fn collect_findings_ignores_matching_files() {
    let modules = vec![make_module(0, vec![make_fc("genFn", 25, 20, 50)])];
    let paths = vec![fp(0, "/project/src/generated/types.ts")];
    let (ignore, _) = build_ignore_set(&vec!["src/generated/**".to_string()]);
    let (findings, files, _) = collect_findings(&modules, &scope(&paths, &ignore, None));
    assert!(findings.is_empty());
    assert_eq!(files, 0);
}

#[test]
fn collect_findings_filters_by_changed_files() {
    let modules = vec![
        make_module(0, vec![make_fc("fnA", 25, 20, 50)]),
        make_module(1, vec![make_fc("fnB", 25, 20, 50)]),
    ];
    let paths = vec![fp(0, "/project/src/a.ts"), fp(1, "/project/src/b.ts")];
    let changed = vec!["/project/src/a.ts".to_string()];
    let ignore = IgnoreSet::empty();
    let (findings, files, _) = collect_findings(&modules, &scope(&paths, &ignore, Some(&changed)));
    assert_eq!(findings.len(), 1);
    assert_eq!(findings[0].name, "fnA");
    assert_eq!(files, 1);
}

#[test]
fn collect_findings_skips_module_without_path() {
    let modules = vec![make_module(99, vec![make_fc("orphan", 25, 20, 50)])];
    let paths: Vec<FilePath> = Vec::new();
    let ignore = IgnoreSet::empty();
    let (findings, files, _) = collect_findings(&modules, &scope(&paths, &ignore, None));
    assert!(findings.is_empty());
    assert_eq!(files, 0);
}

#[test]
fn collect_findings_at_exact_threshold_not_reported() {
    let modules = vec![make_module(0, vec![make_fc("borderline", 20, 15, 20)])];
    let paths = vec![fp(0, "/project/src/a.ts")];
    let ignore = IgnoreSet::empty();
    let (findings, _, _) = collect_findings(&modules, &scope(&paths, &ignore, None));
    assert!(findings.is_empty());
}

#[test]
fn collect_findings_preserves_function_metadata() {
    let modules = vec![make_module(
        0,
        vec![FunctionComplexity {
            name: "processData".to_string(),
            line: 42,
            col: 8,
            cyclomatic: 25,
            cognitive: 18,
            line_count: 75,
        }],
    )];
    let paths = vec![fp(0, "/project/src/a.ts")];
    let ignore = IgnoreSet::empty();
    let (findings, _, _) = collect_findings(&modules, &scope(&paths, &ignore, None));
    assert_eq!(findings.len(), 1);
    let f = &findings[0];
    assert_eq!(f.name, "processData");
    assert_eq!(f.line, 42);
    assert_eq!(f.col, 8);
    assert_eq!(f.cyclomatic, 25);
    assert_eq!(f.cognitive, 18);
    assert_eq!(f.line_count, 75);
    assert_eq!(f.path, "/project/src/a.ts");
}

// ── path_in_health_scope ────────────────────────────────────────

#[test]
fn health_scope_requires_changed_file() {
    let ignore = IgnoreSet::empty();
    let changed = vec!["/project/src/a.ts".to_string()];
    assert!(path_in_health_scope("/project/src/a.ts", "/project", Some(&changed), None, &ignore));
    assert!(!path_in_health_scope("/project/src/b.ts", "/project", Some(&changed), None, &ignore));
}

#[test]
fn health_scope_requires_workspace_prefix() {
    let ignore = IgnoreSet::empty();
    assert!(path_in_health_scope("/project/packages/ui/a.ts", "/project", None, Some("/project/packages/ui"), &ignore));
    assert!(!path_in_health_scope("/project/packages/api/a.ts", "/project", None, Some("/project/packages/ui"), &ignore));
}

#[test]
fn health_scope_ignore_is_relative_to_root() {
    let (ignore, _) = build_ignore_set(&vec!["src/generated/**".to_string()]);
    assert!(!path_in_health_scope("/project/src/generated/x.ts", "/project", None, None, &ignore));
    assert!(path_in_health_scope("/project/src/x.ts", "/project", None, None, &ignore));
}

#[test]
fn coverage_gaps_scoped_and_counted() {
    let mut files = vec![
        UntestedFile { path: "/project/src/a.ts".to_string(), value_export_count: 1 },
        UntestedFile { path: "/project/src/generated/g.ts".to_string(), value_export_count: 2 },
    ];
    let mut exports = vec![
        UntestedExport { path: "/project/src/a.ts".to_string(), export_name: "x".to_string(), line: 1, col: 0 },
        UntestedExport { path: "/project/src/generated/g.ts".to_string(), export_name: "y".to_string(), line: 2, col: 0 },
    ];
    let mut runtime = vec![
        "/project/src/a.ts".to_string(),
        "/project/src/b.ts".to_string(),
        "/project/src/a.ts".to_string(),
        "/project/src/generated/g.ts".to_string(),
    ];
    let (ignore, _) = build_ignore_set(&vec!["src/generated/**".to_string()]);
    let c = filter_coverage_gaps(&mut files, &mut exports, &mut runtime, "/project", None, None, &ignore);
    assert_eq!(files.len(), 1);
    assert_eq!(exports.len(), 1);
    assert_eq!(runtime, vec!["/project/src/a.ts".to_string(), "/project/src/b.ts".to_string()]);
    assert_eq!(c.runtime_files, 2);
    assert_eq!(c.untested_files, 1);
    assert_eq!(c.covered_files, 1);
    assert_eq!(c.untested_exports, 1);
}
