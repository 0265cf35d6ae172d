//! Options of the `check` command that select which findings are shown.

use vstd::prelude::*;
use crate::baseline::{filter_new_issues, filtered_by_baseline, BaselineData};
use crate::results::AnalysisResults;
use crate::scope::{filter_changed_files, filter_to_workspace, scoped_to_changed, scoped_to_workspace};
use crate::text::string_views;
use crate::rules::{
    apply_rules, error_severity_issues, has_error_severity_issues, rules_applied, promote_all, promote_warns_to_errors,
    promoted, ResolvedRules, RuleKind, RulesConfig, Severity,
};

verus! {

/// Issue-type filters: when any is set, only the selected categories are
/// reported.
pub struct IssueFilters {
    pub unused_files: bool,
    pub unused_exports: bool,
    pub unused_deps: bool,
    pub unused_types: bool,
    pub unused_enum_members: bool,
    pub unused_class_members: bool,
    pub unresolved_imports: bool,
    pub unlisted_deps: bool,
    pub duplicate_exports: bool,
    pub circular_deps: bool,
    pub boundary_violations: bool,
}

impl Default for IssueFilters {
    /// No filter set.
    fn default() -> (r: IssueFilters)
        ensures
            !r.active(),
    {
        IssueFilters {
            unused_files: false,
            unused_exports: false,
            unused_deps: false,
            unused_types: false,
            unused_enum_members: false,
            unused_class_members: false,
            unresolved_imports: false,
            unlisted_deps: false,
            duplicate_exports: false,
            circular_deps: false,
            boundary_violations: false,
        }
    }
}

/// `v` when `keep`, else empty.
pub open spec fn kept_if<T>(v: Seq<T>, keep: bool) -> Seq<T> {
    if keep {
        v
    } else {
        Seq::empty()
    }
}

/// Empties `v` unless `keep`.
fn clear_unless<T>(v: &mut Vec<T>, keep: bool)
    ensures
        final(v)@ == kept_if(old(v)@, keep),
{
    if !keep {
        v.clear();
    }
}

impl IssueFilters {
    /// Whether any filter is set.
    pub open spec fn active(&self) -> bool {
        self.unused_files || self.unused_exports || self.unused_deps || self.unused_types
            || self.unused_enum_members || self.unused_class_members || self.unresolved_imports
            || self.unlisted_deps || self.duplicate_exports || self.circular_deps
            || self.boundary_violations
    }

    /// Whether any filter is set.
    pub fn any_active(&self) -> (b: bool)
        ensures
            b == self.active(),
    {
        self.unused_files || self.unused_exports || self.unused_deps || self.unused_types
            || self.unused_enum_members || self.unused_class_members || self.unresolved_imports
            || self.unlisted_deps || self.duplicate_exports || self.circular_deps
            || self.boundary_violations
    }

    /// Whether `r` is `old` filtered by these filters: unchanged when none
    /// is set; otherwise every category that was not requested emptied (the
    /// dependency filter covers production, dev, optional, type-only and
    /// test-only dependencies).
    pub open spec fn filtered(&self, r: &AnalysisResults, old: &AnalysisResults) -> bool {
        let on = !self.active();
        &&& r.unused_files@ == kept_if(old.unused_files@, on || self.unused_files)
        &&& r.unused_exports@ == kept_if(old.unused_exports@, on || self.unused_exports)
        &&& r.unused_types@ == kept_if(old.unused_types@, on || self.unused_types)
        &&& r.unused_dependencies@ == kept_if(old.unused_dependencies@, on || self.unused_deps)
        &&& r.unused_dev_dependencies@ == kept_if(
            old.unused_dev_dependencies@,
            on || self.unused_deps,
        )
        &&& r.unused_optional_dependencies@ == kept_if(
            old.unused_optional_dependencies@,
            on || self.unused_deps,
        )
        &&& r.type_only_dependencies@ == kept_if(
            old.type_only_dependencies@,
            on || self.unused_deps,
        )
        &&& r.unused_enum_members@ == kept_if(
            old.unused_enum_members@,
            on || self.unused_enum_members,
        )
        &&& r.unused_class_members@ == kept_if(
            old.unused_class_members@,
            on || self.unused_class_members,
        )
        &&& r.unresolved_imports@ == kept_if(
            old.unresolved_imports@,
            on || self.unresolved_imports,
        )
        &&& r.unlisted_dependencies@ == kept_if(
            old.unlisted_dependencies@,
            on || self.unlisted_deps,
        )
        &&& r.duplicate_exports@ == kept_if(
            old.duplicate_exports@,
            on || self.duplicate_exports,
        )
        &&& r.circular_dependencies@ == kept_if(
            old.circular_dependencies@,
            on || self.circular_deps,
        )
        &&& r.boundary_violations@ == kept_if(
            old.boundary_violations@,
            on || self.boundary_violations,
        )
        &&& r.test_only_dependencies@ == kept_if(
            old.test_only_dependencies@,
            on || self.unused_deps,
        )
    }

    /// When any filter is set, clears the issue categories that were not
    /// requested.
    pub fn apply(&self, results: &mut AnalysisResults)
        ensures
            self.filtered(final(results), old(results)),
    {
        if !self.any_active() {
            return;
        }
        clear_unless(&mut results.unused_files, self.unused_files);
        clear_unless(&mut results.unused_exports, self.unused_exports);
        clear_unless(&mut results.unused_types, self.unused_types);
        clear_unless(&mut results.unused_dependencies, self.unused_deps);
        clear_unless(&mut results.unused_dev_dependencies, self.unused_deps);
        clear_unless(&mut results.unused_optional_dependencies, self.unused_deps);
        clear_unless(&mut results.type_only_dependencies, self.unused_deps);
        clear_unless(&mut results.test_only_dependencies, self.unused_deps);
        clear_unless(&mut results.unused_enum_members, self.unused_enum_members);
        clear_unless(&mut results.unused_class_members, self.unused_class_members);
        clear_unless(&mut results.unresolved_imports, self.unresolved_imports);
        clear_unless(&mut results.unlisted_dependencies, self.unlisted_deps);
        clear_unless(&mut results.duplicate_exports, self.duplicate_exports);
        clear_unless(&mut results.circular_dependencies, self.circular_deps);
        clear_unless(&mut results.boundary_violations, self.boundary_violations);
    }
}

/// Filtering twice with the same filters gives what filtering once gave.
pub proof fn law_issue_filters_idempotent(
    f: &IssueFilters,
    once: &AnalysisResults,
    twice: &AnalysisResults,
    old: &AnalysisResults,
)
    requires
        f.filtered(once, old),
        f.filtered(twice, once),
    ensures
        f.filtered(twice, old),
{
}

/// Filtering never adds findings, and with no filter set it changes
/// nothing.
pub proof fn law_issue_filters_only_remove(
    f: &IssueFilters,
    r: &AnalysisResults,
    old: &AnalysisResults,
)
    requires
        f.filtered(r, old),
    ensures
        r.issue_count() <= old.issue_count(),
        !f.active() ==> r.issue_count() == old.issue_count(),
{
}

/// Tracing and timing options of `check`.
pub struct TraceOptions {
    pub trace_export: Option<String>,
    pub trace_file: Option<String>,
    pub trace_dependency: Option<String>,
    pub performance: bool,
}

impl TraceOptions {
    /// Whether a trace or the timing report was asked for.
    pub open spec fn active(&self) -> bool {
        self.trace_export is Some || self.trace_file is Some || self.trace_dependency is Some
            || self.performance
    }

    /// Whether a trace or the timing report was asked for.
    pub fn any_active(&self) -> (b: bool)
        ensures
            b == self.active(),
    {
        self.trace_export.is_some() || self.trace_file.is_some() || self.trace_dependency.is_some()
            || self.performance
    }
}

/// The rules the exit code is judged by: with `--fail-on-issues` every
/// warning counts as an error.
pub open spec fn effective_rules(rules: RulesConfig, fail_on_issues: bool) -> RulesConfig {
    if fail_on_issues {
        promote_all(rules)
    } else {
        rules
    }
}

/// The exit code of the `check` command once its report was printed: 1 when
/// a regression check failed or an error-severity issue remains, else 0.
pub open spec fn check_exit(
    results: &AnalysisResults,
    config: &ResolvedRules,
    fail_on_issues: bool,
    regression_failure: bool,
) -> u8 {
    if regression_failure || error_severity_issues(results, effective_rules(config.rules, fail_on_issues), Some(config)) {
        1
    } else {
        0
    }
}

/// Computes the exit code of the `check` command after its report.
pub fn check_exit_code(
    results: &AnalysisResults,
    config: &ResolvedRules,
    fail_on_issues: bool,
    regression_failure: bool,
) -> (code: u8)
    ensures
        code == check_exit(results, config, fail_on_issues, regression_failure),
{
    if regression_failure {
        return 1;
    }
    let mut rules = config.rules;
    if fail_on_issues {
        promote_warns_to_errors(&mut rules);
    }
    if has_error_severity_issues(results, &rules, Some(config)) {
        1
    } else {
        0
    }
}

/// Promotion acts rule by rule.
proof fn lemma_promote_severity(r: RulesConfig, k: RuleKind)
    ensures
        promote_all(r).severity(k) == promoted(r.severity(k)),
{
    match k {
        RuleKind::UnusedFiles => {},
        RuleKind::UnusedExports => {},
        RuleKind::UnusedTypes => {},
        RuleKind::UnusedDependencies => {},
        RuleKind::UnusedDevDependencies => {},
        RuleKind::UnusedOptionalDependencies => {},
        RuleKind::UnusedEnumMembers => {},
        RuleKind::UnusedClassMembers => {},
        RuleKind::UnresolvedImports => {},
        RuleKind::UnlistedDependencies => {},
        RuleKind::DuplicateExports => {},
        RuleKind::TypeOnlyDependencies => {},
        RuleKind::CircularDependencies => {},
    }
}

/// `--fail-on-issues` never turns a failing `check` into a passing one: it
/// can only add failures.
pub proof fn law_fail_on_issues_only_adds_failures(
    results: &AnalysisResults,
    config: &ResolvedRules,
    regression_failure: bool,
)
    ensures
        check_exit(results, config, false, regression_failure) == 1 ==> check_exit(
            results,
            config,
            true,
            regression_failure,
        ) == 1,
        check_exit(results, config, true, regression_failure) <= 1,
{
    let r = config.rules;
    assert forall|k: RuleKind| r.severity(k) == Severity::Error implies #[trigger] promote_all(r).severity(k)
        == Severity::Error by {
        lemma_promote_severity(r, k);
    }
    lemma_promote_severity(r, RuleKind::UnusedFiles);
    lemma_promote_severity(r, RuleKind::UnusedExports);
    lemma_promote_severity(r, RuleKind::UnusedTypes);
    lemma_promote_severity(r, RuleKind::UnusedDependencies);
    lemma_promote_severity(r, RuleKind::UnusedDevDependencies);
    lemma_promote_severity(r, RuleKind::UnusedOptionalDependencies);
    lemma_promote_severity(r, RuleKind::UnusedEnumMembers);
    lemma_promote_severity(r, RuleKind::UnusedClassMembers);
    lemma_promote_severity(r, RuleKind::UnresolvedImports);
    lemma_promote_severity(r, RuleKind::UnlistedDependencies);
    lemma_promote_severity(r, RuleKind::DuplicateExports);
    lemma_promote_severity(r, RuleKind::TypeOnlyDependencies);
    lemma_promote_severity(r, RuleKind::CircularDependencies);
}

/// The workspace step: scoped to the workspace root when one is given.
pub open spec fn workspace_step(r: &AnalysisResults, old: &AnalysisResults, ws_root: Option<Seq<char>>) -> bool {
    match ws_root {
        Some(w) => scoped_to_workspace(r, old, w),
        None => *r == *old,
    }
}

/// The changed-files step: scoped to the changed files when they are given.
pub open spec fn changed_step(r: &AnalysisResults, old: &AnalysisResults, changed: Option<Seq<Seq<char>>>) -> bool {
    match changed {
        Some(c) => scoped_to_changed(r, old, c),
        None => *r == *old,
    }
}

/// The baseline step: the findings absent from the baseline when one was
/// loaded.
pub open spec fn baseline_step(r: &AnalysisResults, old: &AnalysisResults, baseline: Option<&BaselineData>) -> bool {
    match baseline {
        Some(b) => filtered_by_baseline(r, old, b),
        None => *r == *old,
    }
}

/// What the `check` command reports of an analysis: scoped to the
/// workspace, then to the changed files, then by the rules, then by the
/// issue-type filters, then to the issues absent from the baseline, in
/// that order.
pub open spec fn check_selection(
    r: &AnalysisResults,
    old: &AnalysisResults,
    ws_root: Option<Seq<char>>,
    changed: Option<Seq<Seq<char>>>,
    config: &ResolvedRules,
    filters: &IssueFilters,
    baseline: Option<&BaselineData>,
) -> bool {
    exists|a: AnalysisResults, b: AnalysisResults, c: AnalysisResults, d: AnalysisResults|
        #![trigger workspace_step(&a, old, ws_root), changed_step(&b, &a, changed), rules_applied(&c, &b, config), filters.filtered(&d, &c), baseline_step(r, &d, baseline)]
        workspace_step(&a, old, ws_root) && changed_step(&b, &a, changed) && rules_applied(&c, &b, config)
            && filters.filtered(&d, &c) && baseline_step(r, &d, baseline)
}

/// The workspace root, when one is given.
pub open spec fn ws_opt(ws_root: Option<&str>) -> Option<Seq<char>> {
    match ws_root {
        Some(w) => Some(w@),
        None => None,
    }
}

/// The changed files, when they are given.
pub open spec fn changed_opt(changed: Option<&Vec<String>>) -> Option<Seq<Seq<char>>> {
    match changed {
        Some(c) => Some(string_views(c@)),
        None => None,
    }
}

/// Selects the findings the `check` command reports, in the command's
/// order of steps.
pub fn select_check_results(
    results: AnalysisResults,
    ws_root: Option<&str>,
    changed: Option<&Vec<String>>,
    config: &ResolvedRules,
    filters: &IssueFilters,
    baseline: Option<&BaselineData>,
) -> (r: AnalysisResults)
    ensures
        check_selection(&r, &results, ws_opt(ws_root), changed_opt(changed), config, filters, baseline),
{
    let ghost old = results;
    let mut res = results;
    if let Some(w) = ws_root {
        filter_to_workspace(&mut res, w);
    }
    let ghost a = res;
    assert(workspace_step(&a, &old, ws_opt(ws_root)));
    if let Some(c) = changed {
        filter_changed_files(&mut res, c);
    }
    let ghost b = res;
    assert(changed_step(&b, &a, changed_opt(changed)));
    apply_rules(&mut res, config);
    let ghost c = res;
    filters.apply(&mut res);
    let ghost d = res;
    let r = match baseline {
        Some(bl) => filter_new_issues(res, bl),
        None => res,
    };
    assert(baseline_step(&r, &d, baseline));
    assert(workspace_step(&a, &old, ws_opt(ws_root)) && changed_step(&b, &a, changed_opt(changed))
        && rules_applied(&c, &b, config) && filters.filtered(&d, &c) && baseline_step(&r, &d, baseline));
    r
}

} // verus!
