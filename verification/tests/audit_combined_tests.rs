use fallow_cli::audit::{
    build_status_line, build_status_parts, build_summary, compute_verdict, format_scope_line, AuditSummary,
    AuditVerdict, CheckOutcome, DupesOutcome,
};
use fallow_cli::baseline::{BaselineDeltas, CategoryDelta};
use fallow_cli::combined::{
    build_analysis_scope_line, build_entry_point_line, build_start_here_line, failure_summary,
    is_test_path, resolve_analyses, AnalysisKind,
};
use fallow_cli::health_types::{ExceededThreshold, HealthFinding, RecommendationCategory};
use fallow_cli::results::{AnalysisResults, UnusedFile};
use fallow_cli::rules::{ResolvedRules, RulesConfig, Severity};

fn rules(s: Severity) -> ResolvedRules {
    let mut r = RulesConfig::default();
    r.unused_files = s;
    ResolvedRules { root: "/project".to_string(), rules: r, overrides: Vec::new() }
}

fn one_file() -> AnalysisResults {
    let mut r = AnalysisResults::empty();
    r.unused_files.push(UnusedFile { path: "/project/src/a.ts".to_string() });
    r
}

fn finding(cyclomatic: u16) -> HealthFinding {
    HealthFinding {
        path: "/project/src/a.ts".to_string(),
        name: "f".to_string(),
        line: 1,
        col: 0,
        cyclomatic,
        cognitive: 3,
        line_count: 10,
        exceeded: ExceededThreshold::Cyclomatic,
    }
}

fn summary(dead: usize, complexity: usize, dup: usize) -> AuditSummary {
    AuditSummary {
        dead_code_issues: dead,
        dead_code_has_errors: false,
        complexity_findings: complexity,
        max_cyclomatic: None,
        duplication_clone_groups: dup,
    }
}

// ── verdict ─────────────────────────────────────────────────────

#[test]
fn verdict_passes_when_nothing_ran() {
    assert_eq!(compute_verdict(None, None, None), AuditVerdict::Pass);
}

#[test]
fn verdict_fails_on_error_severity_dead_code() {
    let results = one_file();
    let config = rules(Severity::Error);
    let check = CheckOutcome { results: &results, config: &config };
    assert_eq!(compute_verdict(Some(check), None, None), AuditVerdict::Fail);
}

#[test]
fn verdict_warns_on_warn_severity_dead_code() {
    let results = one_file();
    let config = rules(Severity::Warn);
    let check = CheckOutcome { results: &results, config: &config };
    assert_eq!(compute_verdict(Some(check), None, None), AuditVerdict::Warn);
}

#[test]
fn verdict_fails_on_any_complexity_finding() {
    let findings = vec![finding(25)];
    assert_eq!(compute_verdict(None, None, Some(&findings)), AuditVerdict::Fail);
    let none: Vec<HealthFinding> = Vec::new();
    assert_eq!(compute_verdict(None, None, Some(&none)), AuditVerdict::Pass);
}

#[test]
fn verdict_duplication_warns_or_fails_by_threshold() {
    let warn = DupesOutcome { clone_groups: 2, threshold_exceeded: false };
    assert_eq!(compute_verdict(None, Some(warn), None), AuditVerdict::Warn);
    let fail = DupesOutcome { clone_groups: 2, threshold_exceeded: true };
    assert_eq!(compute_verdict(None, Some(fail), None), AuditVerdict::Fail);
    let clean = DupesOutcome { clone_groups: 0, threshold_exceeded: false };
    assert_eq!(compute_verdict(None, Some(clean), None), AuditVerdict::Pass);
}

// ── summary ─────────────────────────────────────────────────────

#[test]
fn summary_counts_each_category() {
    let results = one_file();
    let config = rules(Severity::Error);
    let check = CheckOutcome { results: &results, config: &config };
    let findings = vec![finding(25), finding(31), finding(22)];
    let dupes = DupesOutcome { clone_groups: 4, threshold_exceeded: false };
    let s = build_summary(Some(check), Some(dupes), Some(&findings));
    assert_eq!(s.dead_code_issues, 1);
    assert!(s.dead_code_has_errors);
    assert_eq!(s.complexity_findings, 3);
    assert_eq!(s.max_cyclomatic, Some(31));
    assert_eq!(s.duplication_clone_groups, 4);
}

#[test]
fn summary_of_nothing_is_zero() {
    let s = build_summary(None, None, None);
    assert_eq!(s.dead_code_issues, 0);
    assert!(!s.dead_code_has_errors);
    assert_eq!(s.complexity_findings, 0);
    assert_eq!(s.max_cyclomatic, None);
    assert_eq!(s.duplication_clone_groups, 0);
}

#[test]
fn status_parts_pluralize_counts() {
    assert_eq!(
        build_status_parts(&summary(1, 2, 1)),
        vec![
            "dead code: 1 issue".to_string(),
            "complexity: 2 findings".to_string(),
            "duplication: 1 clone group".to_string()
        ]
    );
    assert_eq!(build_status_parts(&summary(0, 0, 3)), vec!["duplication: 3 clone groups".to_string()]);
    assert!(build_status_parts(&summary(0, 0, 0)).is_empty());
}

#[test]
fn scope_line_with_and_without_head() {
    assert_eq!(
        format_scope_line(3, "main", Some("abc1234")),
        "Audit scope: 3 changed files vs main (abc1234..HEAD)"
    );
    assert_eq!(format_scope_line(1, "origin/dev", None), "Audit scope: 1 changed file vs origin/dev");
}

// ── combined ────────────────────────────────────────────────────

#[test]
fn resolve_analyses_defaults_to_all() {
    assert_eq!(resolve_analyses(&[], &[]), (true, true, true));
}

#[test]
fn resolve_analyses_only_selects() {
    assert_eq!(resolve_analyses(&[AnalysisKind::Dupes], &[]), (false, true, false));
    assert_eq!(
        resolve_analyses(&[AnalysisKind::DeadCode, AnalysisKind::Health], &[]),
        (true, false, true)
    );
}

#[test]
fn resolve_analyses_skip_removes() {
    assert_eq!(resolve_analyses(&[], &[AnalysisKind::Health]), (true, true, false));
}

#[test]
fn test_paths_are_recognized() {
    assert!(is_test_path("src/__tests__/a.ts"));
    assert!(is_test_path("packages/ui/fixtures/x.ts"));
    assert!(is_test_path("src/button.test.tsx"));
    assert!(is_test_path("src/button.stories.tsx"));
    assert!(is_test_path("dist/a1.js"));
    assert!(is_test_path("b12.ts"));
    assert!(!is_test_path("src/utils.ts"));
    assert!(!is_test_path("src/abcd.ts"));
    assert!(!is_test_path("src/contest/main.ts"));
}

fn deltas(total: i64) -> BaselineDeltas {
    BaselineDeltas {
        total_delta: total,
        per_category: vec![(
            "unused_files".to_string(),
            CategoryDelta { current: 3, baseline: 3 - total as usize, delta: total },
        )],
    }
}

#[test]
fn failure_summary_none_when_nothing_found() {
    let targets: Vec<String> = Vec::new();
    assert_eq!(failure_summary(Some((0, None)), Some(0), Some((0, &targets))), None);
    assert_eq!(failure_summary(None, None, None), None);
}

#[test]
fn failure_summary_lists_parts_in_order() {
    let targets: Vec<String> = Vec::new();
    assert_eq!(
        failure_summary(Some((5, None)), Some(2), Some((1, &targets))),
        Some("Failed: dead-code (5 issues), dupes (2 clone groups), health (1 above threshold)".to_string())
    );
}

#[test]
fn failure_summary_shows_baseline_delta() {
    let up = deltas(2);
    let down = deltas(-1);
    let same = deltas(0);
    assert_eq!(
        failure_summary(Some((3, Some(&up))), None, None),
        Some("Failed: dead-code (3 issues, +2 since baseline)".to_string())
    );
    assert_eq!(
        failure_summary(Some((3, Some(&down))), None, None),
        Some("Failed: dead-code (3 issues, -1 since baseline)".to_string())
    );
    assert_eq!(
        failure_summary(Some((3, Some(&same))), None, None),
        Some("Failed: dead-code (3 issues, \u{00b1}0 since baseline)".to_string())
    );
}

#[test]
fn failure_summary_nudges_first_non_test_target() {
    let targets = vec!["/p/src/__tests__/a.ts".to_string(), "/p/src/big.ts".to_string(), "/p/src/other.ts".to_string()];
    assert_eq!(
        failure_summary(None, None, Some((2, &targets))),
        Some("Failed: health (2 above threshold) \u{2014} start with big.ts".to_string())
    );
    let only_tests = vec!["/p/tests/a.ts".to_string()];
    assert_eq!(
        failure_summary(None, Some(1), Some((0, &only_tests))),
        Some("Failed: dupes (1 clone groups)".to_string())
    );
}

#[test]
fn analysis_scope_line_lists_plugins() {
    let none: Vec<String> = Vec::new();
    assert_eq!(build_analysis_scope_line(0, &none), None);
    assert_eq!(build_analysis_scope_line(12, &none), Some("  12 files analyzed".to_string()));
    let one = vec!["nextjs".to_string()];
    assert_eq!(
        build_analysis_scope_line(3, &one),
        Some("  3 files analyzed, 1 plugin (nextjs)".to_string())
    );
    let seven: Vec<String> = ["a", "b", "c", "d", "e", "f", "g"].iter().map(|s| s.to_string()).collect();
    assert_eq!(
        build_analysis_scope_line(40, &seven),
        Some("  40 files analyzed, 7 plugins (a, b, c, d, e) +2".to_string())
    );
}

#[test]
fn entry_point_line_counts_sources() {
    let none: Vec<(String, usize)> = Vec::new();
    let (w, warn) = build_entry_point_line(0, &none);
    assert!(warn);
    assert!(w.contains("No entry points detected"));
    assert_eq!(build_entry_point_line(1, &none), ("  1 entry point detected".to_string(), false));
    let by = vec![("package.json".to_string(), 2), ("plugin".to_string(), 3)];
    assert_eq!(
        build_entry_point_line(5, &by),
        ("  5 entry points detected (2 package.json, 3 plugin)".to_string(), false)
    );
}

#[test]
fn start_here_line_prefers_non_test_targets() {
    let empty: Vec<(String, RecommendationCategory)> = Vec::new();
    assert_eq!(build_start_here_line(0, &empty), None);
    let targets = vec![
        ("/p/tests/a.ts".to_string(), RecommendationCategory::RemoveDeadCode),
        ("/p/src/big.ts".to_string(), RecommendationCategory::ExtractComplexFunctions),
    ];
    assert_eq!(
        build_start_here_line(10, &targets),
        Some("  2 refactoring targets \u{2014} start with big.ts (complexity)".to_string())
    );
    assert_eq!(
        build_start_here_line(501, &targets),
        Some("  2 refactoring targets \u{2014} try `fallow dead-code --workspace <name>` to scope".to_string())
    );
    let tests_only = vec![("/p/tests/a.ts".to_string(), RecommendationCategory::RemoveDeadCode)];
    assert_eq!(build_start_here_line(0, &tests_only), Some("  1 refactoring target".to_string()));
}

#[test]
fn status_line_per_verdict() {
    assert_eq!(
        build_status_line(AuditVerdict::Pass, &summary(0, 0, 0), 3, "0.12s"),
        "\u{2713} No issues in 3 changed files (0.12s)"
    );
    assert_eq!(
        build_status_line(AuditVerdict::Warn, &summary(2, 0, 1), 1, "1.00s"),
        "\u{2713} dead code: 2 issues \u{00b7} duplication: 1 clone group (warn) \u{00b7} 1 changed file (1.00s)"
    );
    assert_eq!(
        build_status_line(AuditVerdict::Fail, &summary(0, 4, 0), 2, "0.50s"),
        "\u{2717} complexity: 4 findings \u{00b7} 2 changed files (0.50s)"
    );
}
