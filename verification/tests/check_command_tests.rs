use fallow_cli::check::{IssueFilters, TraceOptions};
use fallow_cli::results::{
    AnalysisResults, CircularDependency, DependencyLocation, DuplicateExport,
    DuplicateLocation, ImportSite, MemberKind, TypeOnlyDependency,
    UnlistedDependency, UnresolvedImport, UnusedDependency, UnusedExport, UnusedFile, UnusedMember,
};
use fallow_cli::rules::{
    apply_rules, has_error_severity_issues, ResolvedRules, RulesConfig, Severity,
};
use fallow_cli::scope::filter_to_workspace;

fn no_filters() -> IssueFilters {
    IssueFilters::default()
}

fn file(path: &str) -> UnusedFile {
    UnusedFile { path: path.to_string() }
}

fn exp(path: &str, name: &str, line: u32) -> UnusedExport {
    UnusedExport {
        path: path.to_string(),
        export_name: name.to_string(),
        is_type_only: false,
        line,
        col: 0,
        span_start: 0,
        is_re_export: false,
    }
}

fn dep(name: &str, location: DependencyLocation, path: &str) -> UnusedDependency {
    UnusedDependency { package_name: name.to_string(), location, path: path.to_string(), line: 5 }
}

fn member(path: &str, parent: &str, name: &str, kind: MemberKind) -> UnusedMember {
    UnusedMember {
        path: path.to_string(),
        parent_name: parent.to_string(),
        member_name: name.to_string(),
        kind,
        line: 3,
        col: 0,
    }
}

fn unresolved(path: &str, spec: &str) -> UnresolvedImport {
    UnresolvedImport { path: path.to_string(), specifier: spec.to_string(), line: 1, col: 0 }
}

fn unlisted(name: &str, importers: &[&str]) -> UnlistedDependency {
    UnlistedDependency {
        package_name: name.to_string(),
        imported_from: importers
            .iter()
            .map(|p| ImportSite { path: p.to_string(), line: 1, col: 0 })
            .collect(),
    }
}

fn dup(name: &str, paths: &[&str]) -> DuplicateExport {
    DuplicateExport {
        export_name: name.to_string(),
        locations: paths
            .iter()
            .map(|p| DuplicateLocation { path: p.to_string(), line: 1, col: 0 })
            .collect(),
    }
}

fn cycle(files: &[&str]) -> CircularDependency {
    CircularDependency {
        files: files.iter().map(|f| f.to_string()).collect(),
        length: files.len(),
        line: 1,
        col: 0,
        is_cross_package: false,
    }
}

fn make_results() -> AnalysisResults {
    let mut r = AnalysisResults::empty();
    r.unused_files.push(file("/project/src/a.ts"));
    r.unused_exports.push(exp("/project/src/b.ts", "foo", 1));
    let mut t = exp("/project/src/c.ts", "MyType", 5);
    t.is_type_only = true;
    r.unused_types.push(t);
    r.unused_dependencies.push(dep("lodash", DependencyLocation::Dependencies, "/project/package.json"));
    r.unused_dev_dependencies.push(dep("jest", DependencyLocation::DevDependencies, "/project/package.json"));
    r.unused_enum_members.push(member("/project/src/d.ts", "Status", "Pending", MemberKind::EnumMember));
    r.unused_class_members.push(member("/project/src/e.ts", "Service", "helper", MemberKind::ClassMethod));
    r.unresolved_imports.push(unresolved("/project/src/f.ts", "./missing"));
    r.unlisted_dependencies.push(unlisted("chalk", &["/project/src/g.ts"]));
    r.duplicate_exports.push(dup("helper", &["/project/src/h.ts", "/project/src/i.ts"]));
    r
}

fn config_with_rules(rules: RulesConfig) -> ResolvedRules {
    ResolvedRules { root: "/project".to_string(), rules, overrides: Vec::new() }
}

fn all(s: Severity) -> RulesConfig {
    RulesConfig {
        unused_files: s,
        unused_exports: s,
        unused_types: s,
        unused_dependencies: s,
        unused_dev_dependencies: s,
        unused_optional_dependencies: s,
        unused_enum_members: s,
        unused_class_members: s,
        unresolved_imports: s,
        unlisted_dependencies: s,
        duplicate_exports: s,
        type_only_dependencies: s,
        circular_dependencies: s,
    }
}

fn trace(e: Option<&str>, f: Option<&str>, d: Option<&str>, p: bool) -> TraceOptions {
    TraceOptions {
        trace_export: e.map(|s| s.to_string()),
        trace_file: f.map(|s| s.to_string()),
        trace_dependency: d.map(|s| s.to_string()),
        performance: p,
    }
}

#[test]
fn check_no_filters_means_none_active() {
    assert!(!no_filters().any_active());
}

#[test]
fn check_single_filter_is_active() {
    let mut f = no_filters();
    f.unused_files = true;
    assert!(f.any_active());
}

#[test]
fn check_each_filter_flag_registers_as_active() {
    let flags: Vec<fn(&mut IssueFilters)> = vec![
        |f| f.unused_files = true,
        |f| f.unused_exports = true,
        |f| f.unused_deps = true,
        |f| f.unused_types = true,
        |f| f.unused_enum_members = true,
        |f| f.unused_class_members = true,
        |f| f.unresolved_imports = true,
        |f| f.unlisted_deps = true,
        |f| f.duplicate_exports = true,
        |f| f.circular_deps = true,
        |f| f.boundary_violations = true,
    ];
    for setter in flags {
        let mut f = no_filters();
        setter(&mut f);
        assert!(f.any_active());
    }
}

#[test]
fn check_apply_no_active_filters_preserves_all_results() {
    let mut results = make_results();
    let original_total = results.total_issues();
    no_filters().apply(&mut results);
    assert_eq!(results.total_issues(), original_total);
}

#[test]
fn check_apply_unused_files_filter_keeps_only_unused_files() {
    let mut results = make_results();
    let mut f = no_filters();
    f.unused_files = true;
    f.apply(&mut results);
    assert_eq!(results.unused_files.len(), 1);
    assert!(results.unused_exports.is_empty());
    assert!(results.unused_types.is_empty());
    assert!(results.unused_dependencies.is_empty());
    assert!(results.unused_dev_dependencies.is_empty());
    assert!(results.unused_enum_members.is_empty());
    assert!(results.unused_class_members.is_empty());
    assert!(results.unresolved_imports.is_empty());
    assert!(results.unlisted_dependencies.is_empty());
    assert!(results.duplicate_exports.is_empty());
}

#[test]
fn check_apply_unused_deps_filter_keeps_both_dep_types() {
    let mut results = make_results();
    let mut f = no_filters();
    f.unused_deps = true;
    f.apply(&mut results);
    assert_eq!(results.unused_dependencies.len(), 1);
    assert_eq!(results.unused_dev_dependencies.len(), 1);
    assert!(results.unused_files.is_empty());
    assert!(results.unused_exports.is_empty());
}

#[test]
fn check_apply_multiple_filters_keeps_selected_types() {
    let mut results = make_results();
    let mut f = no_filters();
    f.unused_files = true;
    f.unresolved_imports = true;
    f.apply(&mut results);
    assert_eq!(results.unused_files.len(), 1);
    assert_eq!(results.unresolved_imports.len(), 1);
    assert!(results.unused_exports.is_empty());
    assert!(results.unused_types.is_empty());
    assert!(results.duplicate_exports.is_empty());
}

#[test]
fn check_no_trace_options_means_none_active() {
    assert!(!trace(None, None, None, false).any_active());
}

#[test]
fn check_trace_export_is_active() {
    assert!(trace(Some("src/foo.ts:bar"), None, None, false).any_active());
}

#[test]
fn check_trace_file_is_active() {
    assert!(trace(None, Some("src/foo.ts"), None, false).any_active());
}

#[test]
fn check_trace_dependency_is_active() {
    assert!(trace(None, None, Some("lodash"), false).any_active());
}

#[test]
fn check_performance_flag_is_active() {
    assert!(trace(None, None, None, true).any_active());
}

#[test]
fn check_apply_rules_default_error_preserves_all() {
    let mut results = make_results();
    let config = config_with_rules(RulesConfig::default());
    let original_total = results.total_issues();
    apply_rules(&mut results, &config);
    assert_eq!(results.total_issues(), original_total);
}

#[test]
fn check_apply_rules_off_clears_that_issue_type() {
    let mut results = make_results();
    let mut rules = RulesConfig::default();
    rules.unused_files = Severity::Off;
    apply_rules(&mut results, &config_with_rules(rules));
    assert!(results.unused_files.is_empty());
    assert!(!results.unused_exports.is_empty());
}

#[test]
fn check_apply_rules_warn_preserves_issues() {
    let mut results = make_results();
    let mut rules = RulesConfig::default();
    rules.unused_exports = Severity::Warn;
    apply_rules(&mut results, &config_with_rules(rules));
    assert_eq!(results.unused_exports.len(), 1);
}

#[test]
fn check_apply_rules_all_off_clears_everything() {
    let mut results = make_results();
    apply_rules(&mut results, &config_with_rules(all(Severity::Off)));
    assert_eq!(results.total_issues(), 0);
}

#[test]
fn check_apply_rules_off_each_type_individually() {
    let field_setters: Vec<(fn(&mut RulesConfig), fn(&AnalysisResults) -> bool)> = vec![
        (|r| r.unused_files = Severity::Off, |res| res.unused_files.is_empty()),
        (|r| r.unused_exports = Severity::Off, |res| res.unused_exports.is_empty()),
        (|r| r.unused_types = Severity::Off, |res| res.unused_types.is_empty()),
        (|r| r.unused_dependencies = Severity::Off, |res| res.unused_dependencies.is_empty()),
        (|r| r.unused_dev_dependencies = Severity::Off, |res| res.unused_dev_dependencies.is_empty()),
        (|r| r.unused_enum_members = Severity::Off, |res| res.unused_enum_members.is_empty()),
        (|r| r.unused_class_members = Severity::Off, |res| res.unused_class_members.is_empty()),
        (|r| r.unresolved_imports = Severity::Off, |res| res.unresolved_imports.is_empty()),
        (|r| r.unlisted_dependencies = Severity::Off, |res| res.unlisted_dependencies.is_empty()),
        (|r| r.duplicate_exports = Severity::Off, |res| res.duplicate_exports.is_empty()),
    ];
    for (set_off, check_empty) in field_setters {
        let mut results = make_results();
        let mut rules = RulesConfig::default();
        set_off(&mut rules);
        apply_rules(&mut results, &config_with_rules(rules));
        assert!(check_empty(&results), "Setting a rule to Off should clear the corresponding results");
    }
}

#[test]
fn check_empty_results_no_error_issues() {
    let results = AnalysisResults::empty();
    assert!(!has_error_severity_issues(&results, &RulesConfig::default(), None));
}

#[test]
fn check_error_severity_with_issues_returns_true() {
    let results = make_results();
    assert!(has_error_severity_issues(&results, &RulesConfig::default(), None));
}

#[test]
fn check_warn_severity_with_issues_returns_false() {
    let results = make_results();
    assert!(!has_error_severity_issues(&results, &all(Severity::Warn), None));
}

#[test]
fn check_mixed_severity_returns_true_for_error_with_issues() {
    let mut results = AnalysisResults::empty();
    results.unused_files.push(file("/project/src/a.ts"));
    let mut rules = all(Severity::Warn);
    assert!(!has_error_severity_issues(&results, &rules, None));
    rules.unused_files = Severity::Error;
    assert!(has_error_severity_issues(&results, &rules, None));
}

#[test]
fn check_off_severity_with_issues_returns_false() {
    let mut results = AnalysisResults::empty();
    results.unresolved_imports.push(unresolved("/project/src/a.ts", "./missing"));
    let mut rules = RulesConfig::default();
    rules.unresolved_imports = Severity::Off;
    assert!(!has_error_severity_issues(&results, &rules, None));
}

#[test]
fn check_filter_to_workspace_keeps_files_under_ws_root() {
    let mut results = AnalysisResults::empty();
    results.unused_files.push(file("/project/packages/ui/src/button.ts"));
    results.unused_files.push(file("/project/packages/api/src/handler.ts"));
    filter_to_workspace(&mut results, "/project/packages/ui");
    assert_eq!(results.unused_files.len(), 1);
    assert_eq!(results.unused_files[0].path, "/project/packages/ui/src/button.ts");
}

#[test]
fn check_filter_to_workspace_scopes_dependencies_to_ws_package_json() {
    let mut results = AnalysisResults::empty();
    results.unused_dependencies.push(dep("lodash", DependencyLocation::Dependencies, "/project/package.json"));
    results.unused_dependencies.push(dep("react", DependencyLocation::Dependencies, "/project/packages/ui/package.json"));
    results.unused_dev_dependencies.push(dep("vitest", DependencyLocation::DevDependencies, "/project/packages/ui/package.json"));
    filter_to_workspace(&mut results, "/project/packages/ui");
    assert_eq!(results.unused_dependencies.len(), 1);
    assert_eq!(results.unused_dependencies[0].package_name, "react");
    assert_eq!(results.unused_dev_dependencies.len(), 1);
    assert_eq!(results.unused_dev_dependencies[0].package_name, "vitest");
}

#[test]
fn check_filter_to_workspace_scopes_unlisted_deps_by_importer() {
    let mut results = AnalysisResults::empty();
    results.unlisted_dependencies.push(unlisted("chalk", &["/project/packages/ui/src/a.ts"]));
    results.unlisted_dependencies.push(unlisted("debug", &["/project/packages/api/src/b.ts"]));
    filter_to_workspace(&mut results, "/project/packages/ui");
    assert_eq!(results.unlisted_dependencies.len(), 1);
    assert_eq!(results.unlisted_dependencies[0].package_name, "chalk");
}

#[test]
fn check_filter_to_workspace_drops_duplicate_exports_below_two_locations() {
    let mut results = AnalysisResults::empty();
    results.duplicate_exports.push(dup("helper", &["/project/packages/ui/src/a.ts", "/project/packages/api/src/b.ts"]));
    results.duplicate_exports.push(dup("utils", &["/project/packages/ui/src/c.ts", "/project/packages/ui/src/d.ts"]));
    filter_to_workspace(&mut results, "/project/packages/ui");
    assert_eq!(results.duplicate_exports.len(), 1);
    assert_eq!(results.duplicate_exports[0].export_name, "utils");
}

#[test]
fn check_filter_to_workspace_scopes_exports_and_types() {
    let mut results = AnalysisResults::empty();
    results.unused_exports.push(exp("/project/packages/ui/src/a.ts", "A", 1));
    results.unused_exports.push(exp("/project/packages/api/src/b.ts", "B", 2));
    results.unused_types.push(exp("/project/packages/ui/src/types.ts", "T", 1));
    filter_to_workspace(&mut results, "/project/packages/ui");
    assert_eq!(results.unused_exports.len(), 1);
    assert_eq!(results.unused_exports[0].export_name, "A");
    assert_eq!(results.unused_types.len(), 1);
    assert_eq!(results.unused_types[0].export_name, "T");
}

#[test]
fn check_filter_to_workspace_scopes_type_only_dependencies() {
    let mut results = AnalysisResults::empty();
    results.type_only_dependencies.push(TypeOnlyDependency {
        package_name: "zod".into(),
        path: "/project/packages/ui/package.json".into(),
        line: 8,
    });
    results.type_only_dependencies.push(TypeOnlyDependency {
        package_name: "yup".into(),
        path: "/project/package.json".into(),
        line: 8,
    });
    filter_to_workspace(&mut results, "/project/packages/ui");
    assert_eq!(results.type_only_dependencies.len(), 1);
    assert_eq!(results.type_only_dependencies[0].package_name, "zod");
}

#[test]
fn check_filter_to_workspace_scopes_enum_and_class_members() {
    let mut results = AnalysisResults::empty();
    results.unused_enum_members.push(member("/project/packages/ui/src/enums.ts", "Color", "Red", MemberKind::EnumMember));
    results.unused_enum_members.push(member("/project/packages/api/src/enums.ts", "Status", "Active", MemberKind::EnumMember));
    results.unused_class_members.push(member("/project/packages/ui/src/service.ts", "Svc", "init", MemberKind::ClassMethod));
    filter_to_workspace(&mut results, "/project/packages/ui");
    assert_eq!(results.unused_enum_members.len(), 1);
    assert_eq!(results.unused_enum_members[0].member_name, "Red");
    assert_eq!(results.unused_class_members.len(), 1);
    assert_eq!(results.unused_class_members[0].member_name, "init");
}
