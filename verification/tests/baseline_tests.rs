use fallow_cli::baseline::{circular_dep_key, filter_new_issues, BaselineData};
use fallow_cli::health_baseline::{
    filter_new_health_findings, filter_new_health_targets, health_finding_key, select_findings,
    select_targets,
    target_baseline_key, HealthBaselineData,
};
use fallow_cli::health_types::{
    Confidence, EffortEstimate, ExceededThreshold, HealthFinding, RecommendationCategory,
    RefactoringTarget, SortBy,
};
use fallow_cli::results::{
    AnalysisResults, CircularDependency, DependencyLocation, UnusedDependency, UnusedExport,
    UnusedFile,
};

fn export(path: &str, name: &str, line: u32) -> UnusedExport {
    UnusedExport {
        path: path.to_string(),
        export_name: name.to_string(),
        is_type_only: false,
        line,
        col: 0,
        span_start: 0,
        is_re_export: false,
    }
}

fn make_results() -> AnalysisResults {
    let mut r = AnalysisResults::empty();
    r.unused_files.push(UnusedFile { path: "src/old.ts".to_string() });
    r.unused_files.push(UnusedFile { path: "src/dead.ts".to_string() });
    r.unused_exports.push(export("src/utils.ts", "helperA", 5));
    let mut t = export("src/types.ts", "OldType", 10);
    t.is_type_only = true;
    r.unused_types.push(t);
    r.unused_dependencies.push(UnusedDependency {
        package_name: "lodash".to_string(),
        location: DependencyLocation::Dependencies,
        path: "package.json".to_string(),
        line: 5,
    });
    r.unused_dev_dependencies.push(UnusedDependency {
        package_name: "jest".to_string(),
        location: DependencyLocation::DevDependencies,
        path: "package.json".to_string(),
        line: 5,
    });
    r
}

fn empty_baseline() -> BaselineData {
    BaselineData {
        unused_files: vec![],
        unused_exports: vec![],
        unused_types: vec![],
        unused_dependencies: vec![],
        unused_dev_dependencies: vec![],
        circular_dependencies: vec![],
        unused_optional_dependencies: vec![],
        unused_enum_members: vec![],
        unused_class_members: vec![],
        unresolved_imports: vec![],
        unlisted_dependencies: vec![],
        duplicate_exports: vec![],
        type_only_dependencies: vec![],
        test_only_dependencies: vec![],
        boundary_violations: vec![],
    }
}

#[test]
fn baseline_from_results_captures_all_fields() {
    let results = make_results();
    let baseline = BaselineData::from_results(&results);
    assert_eq!(baseline.unused_files.len(), 2);
    assert!(baseline.unused_files.contains(&"src/old.ts".to_string()));
    assert!(baseline.unused_files.contains(&"src/dead.ts".to_string()));
    assert_eq!(baseline.unused_exports, vec!["src/utils.ts:helperA"]);
    assert_eq!(baseline.unused_types, vec!["src/types.ts:OldType"]);
    assert_eq!(baseline.unused_dependencies, vec!["lodash"]);
    assert_eq!(baseline.unused_dev_dependencies, vec!["jest"]);
}

#[test]
fn filter_removes_baseline_issues() {
    let results = make_results();
    let baseline = BaselineData::from_results(&results);
    let filtered = filter_new_issues(results, &baseline);
    assert!(filtered.unused_files.is_empty(), "all files were in baseline");
    assert!(filtered.unused_exports.is_empty(), "all exports were in baseline");
    assert!(filtered.unused_types.is_empty(), "all types were in baseline");
    assert!(filtered.unused_dependencies.is_empty(), "all deps were in baseline");
    assert!(filtered.unused_dev_dependencies.is_empty(), "all dev deps were in baseline");
}

#[test]
fn filter_keeps_new_issues_not_in_baseline() {
    let mut baseline = empty_baseline();
    baseline.unused_files = vec!["src/old.ts".to_string()];
    let mut results = AnalysisResults::empty();
    results.unused_files.push(UnusedFile { path: "src/old.ts".to_string() });
    results.unused_files.push(UnusedFile { path: "src/new-dead.ts".to_string() });
    let filtered = filter_new_issues(results, &baseline);
    assert_eq!(filtered.unused_files.len(), 1);
    assert_eq!(filtered.unused_files[0].path, "src/new-dead.ts");
}

#[test]
fn filter_with_empty_baseline_keeps_all() {
    let results = make_results();
    let filtered = filter_new_issues(results, &empty_baseline());
    assert_eq!(filtered.unused_files.len(), 2);
    assert_eq!(filtered.unused_exports.len(), 1);
}

#[test]
fn filter_new_exports_by_file_and_name() {
    let mut baseline = empty_baseline();
    baseline.unused_exports = vec!["src/utils.ts:helperA".to_string()];
    let mut results = AnalysisResults::empty();
    results.unused_exports.push(export("src/utils.ts", "helperA", 5));
    results.unused_exports.push(export("src/utils.ts", "helperB", 10));
    let filtered = filter_new_issues(results, &baseline);
    assert_eq!(filtered.unused_exports.len(), 1);
    assert_eq!(filtered.unused_exports[0].export_name, "helperB");
}

#[test]
fn baseline_keys_use_forward_slashes() {
    let mut results = AnalysisResults::empty();
    results.unused_files.push(UnusedFile { path: "src\\win\\a.ts".to_string() });
    let baseline = BaselineData::from_results(&results);
    assert_eq!(baseline.unused_files, vec!["src/win/a.ts"]);
}

fn make_health_finding(root: &str, name: &str, line: u32) -> HealthFinding {
    HealthFinding {
        path: format!("{root}/src/utils.ts"),
        name: name.to_string(),
        line,
        col: 0,
        cyclomatic: 25,
        cognitive: 30,
        line_count: 80,
        exceeded: ExceededThreshold::Both,
    }
}

#[test]
fn health_baseline_keys() {
    let findings = vec![make_health_finding("/project", "parseExpression", 42)];
    let baseline = HealthBaselineData::from_findings(&findings, &[], "/project");
    assert_eq!(baseline.findings, vec!["src/utils.ts:parseExpression:42"]);
    assert_eq!(health_finding_key(&findings[0], "/project"), "src/utils.ts:parseExpression:42");
}

#[test]
fn health_baseline_filters_known_findings() {
    let root = "/project";
    let findings = vec![
        make_health_finding(root, "parseExpression", 42),
        make_health_finding(root, "newFunction", 100),
    ];
    let baseline = HealthBaselineData::from_findings(&findings[..1], &[], root);
    let filtered = filter_new_health_findings(findings, &baseline, root);
    assert_eq!(filtered.len(), 1);
    assert_eq!(filtered[0].name, "newFunction");
}

#[test]
fn health_baseline_empty_keeps_all() {
    let root = "/project";
    let findings = vec![make_health_finding(root, "parseExpression", 42)];
    let baseline = HealthBaselineData { findings: vec![], target_keys: vec![] };
    let filtered = filter_new_health_findings(findings, &baseline, root);
    assert_eq!(filtered.len(), 1);
}

fn target(path: &str, category: RecommendationCategory) -> RefactoringTarget {
    RefactoringTarget {
        path: path.to_string(),
        recommendation: "split".to_string(),
        category,
        effort: EffortEstimate::Low,
        confidence: Confidence::High,
        evidence: None,
    }
}

#[test]
fn target_keys_include_category_label() {
    let t = target("/project/src/a.ts", RecommendationCategory::RemoveDeadCode);
    assert_eq!(target_baseline_key(&t, "/project"), "src/a.ts:dead code");
    let baseline = HealthBaselineData::from_findings(&[], &[t], "/project");
    let kept = filter_new_health_targets(
        vec![
            target("/project/src/a.ts", RecommendationCategory::RemoveDeadCode),
            target("/project/src/a.ts", RecommendationCategory::ExtractDependencies),
        ],
        &baseline,
        "/project",
    );
    assert_eq!(kept.len(), 1);
    assert_eq!(kept[0].category, RecommendationCategory::ExtractDependencies);
}

fn cycle(files: &[&str]) -> CircularDependency {
    CircularDependency {
        files: files.iter().map(|f| f.to_string()).collect(),
        length: files.len(),
        line: 1,
        col: 0,
        is_cross_package: false,
    }
}

#[test]
fn circular_dep_key_is_order_independent() {
    assert_eq!(
        circular_dep_key(&cycle(&["src/a.ts", "src/b.ts"])),
        circular_dep_key(&cycle(&["src/b.ts", "src/a.ts"])),
        "same files in different order should produce identical keys"
    );
}

#[test]
fn circular_dep_key_different_files_different_keys() {
    assert_ne!(
        circular_dep_key(&cycle(&["src/a.ts", "src/b.ts"])),
        circular_dep_key(&cycle(&["src/a.ts", "src/c.ts"])),
    );
}

#[test]
fn circular_dep_key_three_files_order_independent() {
    assert_eq!(
        circular_dep_key(&cycle(&["src/a.ts", "src/b.ts", "src/c.ts"])),
        circular_dep_key(&cycle(&["src/c.ts", "src/a.ts", "src/b.ts"])),
    );
}

#[test]
fn circular_dep_key_exact_format() {
    let key: String = circular_dep_key(&cycle(&["src/b.ts", "src/a.ts"])).into_iter().collect();
    assert_eq!(key, "src/a.ts->src/b.ts");
}

#[test]
fn select_targets_applies_baseline_effort_and_top() {
    let mut hard = target("/project/src/c.ts", RecommendationCategory::SplitHighImpact);
    hard.effort = EffortEstimate::High;
    let all = || {
        let mut hard2 = target("/project/src/c.ts", RecommendationCategory::SplitHighImpact);
        hard2.effort = EffortEstimate::High;
        vec![
            target("/project/src/a.ts", RecommendationCategory::RemoveDeadCode),
            target("/project/src/b.ts", RecommendationCategory::ExtractComplexFunctions),
            hard2,
            target("/project/src/d.ts", RecommendationCategory::ExtractDependencies),
        ]
    };
    let baseline = HealthBaselineData::from_findings(
        &[],
        &[target("/project/src/a.ts", RecommendationCategory::RemoveDeadCode)],
        "/project",
    );
    let paths = |v: &Vec<RefactoringTarget>| v.iter().map(|t| t.path.clone()).collect::<Vec<_>>();
    let r = select_targets(all(), Some(&baseline), "/project", None, None);
    assert_eq!(paths(&r), vec!["/project/src/b.ts", "/project/src/c.ts", "/project/src/d.ts"]);
    let r = select_targets(all(), None, "/project", Some(EffortEstimate::Low), Some(2));
    assert_eq!(paths(&r), vec!["/project/src/a.ts", "/project/src/b.ts"]);
    let r = select_targets(all(), None, "/project", Some(EffortEstimate::High), Some(5));
    assert_eq!(paths(&r), vec![hard.path.clone()]);
    let r = select_targets(all(), None, "/project", None, Some(0));
    assert!(r.is_empty());
}

#[test]
fn select_findings_scopes_sorts_counts_and_truncates() {
    let f = |path: &str, name: &str, cyc: u16| HealthFinding {
        path: path.to_string(),
        name: name.to_string(),
        line: 1,
        col: 0,
        cyclomatic: cyc,
        cognitive: 16,
        line_count: 10,
        exceeded: ExceededThreshold::Both,
    };
    let all = || {
        vec![
            f("/p/packages/ui/a.ts", "a", 21),
            f("/p/packages/api/b.ts", "b", 40),
            f("/p/packages/ui/c.ts", "c", 30),
            f("/p/packages/ui/d.ts", "d", 25),
        ]
    };
    let names = |v: &Vec<HealthFinding>| v.iter().map(|x| x.name.clone()).collect::<Vec<_>>();
    let (r, total) = select_findings(all(), Some("/p/packages/ui"), &SortBy::Cyclomatic, None, "/p", Some(2));
    assert_eq!(total, 3);
    assert_eq!(names(&r), vec!["c", "d"]);
    let baseline = HealthBaselineData::from_findings(&[f("/p/packages/ui/c.ts", "c", 30)], &[], "/p");
    let (r, total) = select_findings(all(), None, &SortBy::Cyclomatic, Some(&baseline), "/p", None);
    assert_eq!(total, 4);
    assert_eq!(names(&r), vec!["b", "d", "a"]);
}
