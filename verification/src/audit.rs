//! The audit command's decisions: the verdict over the analyses that ran,
//! the per-category summary, and the text of its scope and status lines.

use vstd::prelude::*;
use crate::health_types::HealthFinding;
use crate::init::{default_branch_from_ref, opt_view, origin_branch};
use crate::results::AnalysisResults;
use crate::rules::{error_severity_issues, has_error_severity_issues, ResolvedRules};
use crate::text::{chars_of, decimal, decimal_exec, extend_all, extend_str, join, join_chars, string_of, views};

verus! {

/// Verdict of an audit.
#[derive(Clone, Copy, Debug, PartialEq, Eq, Structural)]
pub enum AuditVerdict {
    /// No issues in the changed files.
    Pass,
    /// Issues, all of warning severity.
    Warn,
    /// Error-severity issues in the changed files.
    Fail,
}

/// Per-category counts of an audit.
pub struct AuditSummary {
    pub dead_code_issues: usize,
    pub dead_code_has_errors: bool,
    pub complexity_findings: usize,
    pub max_cyclomatic: Option<u16>,
    pub duplication_clone_groups: usize,
}

/// What the dead-code analysis of an audit found, with the rules it ran
/// under.
pub struct CheckOutcome<'a> {
    pub results: &'a AnalysisResults,
    pub config: &'a ResolvedRules,
}

/// What the duplication analysis of an audit found: the number of clone
/// groups, and whether the duplicated share exceeds a positive threshold.
#[derive(Clone, Copy, Debug, PartialEq, Eq, Structural)]
pub struct DupesOutcome {
    pub clone_groups: usize,
    pub threshold_exceeded: bool,
}

/// Whether the dead-code analysis found errors.
pub open spec fn check_errors(c: CheckOutcome) -> bool {
    error_severity_issues(c.results, c.config.rules, Some(c.config))
}

/// The audit result is `Fail` when an unused-item finding has error severity, a
/// complexity finding exists, or duplication exceeds its threshold; else
/// `Warn` when the unused-item or duplication analysis found anything; else `Pass`.
pub open spec fn verdict(
    check: Option<CheckOutcome>,
    dupes: Option<DupesOutcome>,
    health: Option<Seq<HealthFinding>>,
) -> AuditVerdict {
    let check_err = check matches Some(c) && check_errors(c);
    let check_warn = check matches Some(c) && !check_errors(c) && c.results.issue_count() > 0;
    let health_err = health matches Some(h) && h.len() > 0;
    let dupes_err = dupes matches Some(d) && d.clone_groups > 0 && d.threshold_exceeded;
    let dupes_warn = dupes matches Some(d) && d.clone_groups > 0 && !d.threshold_exceeded;
    if check_err || health_err || dupes_err {
        AuditVerdict::Fail
    } else if check_warn || dupes_warn {
        AuditVerdict::Warn
    } else {
        AuditVerdict::Pass
    }
}

/// The findings, when the health analysis ran.
pub open spec fn health_view(health: Option<&Vec<HealthFinding>>) -> Option<Seq<HealthFinding>> {
    match health {
        Some(h) => Some(h@),
        None => None,
    }
}

/// Computes the audit verdict from the analyses that ran.
pub fn compute_verdict(
    check: Option<CheckOutcome>,
    dupes: Option<DupesOutcome>,
    health: Option<&Vec<HealthFinding>>,
) -> (v: AuditVerdict)
    ensures
        v == verdict(check, dupes, health_view(health)),
{
    let mut has_errors = false;
    let mut has_warnings = false;
    if let Some(result) = check {
        if has_error_severity_issues(result.results, &result.config.rules, Some(result.config)) {
            has_errors = true;
        } else if result.results.total_issues() > 0 {
            has_warnings = true;
        }
    }
    if let Some(h) = health {
        if h.len() > 0 {
            has_errors = true;
        }
    }
    if let Some(d) = dupes {
        if d.clone_groups > 0 {
            if d.threshold_exceeded {
                has_errors = true;
            } else {
                has_warnings = true;
            }
        }
    }
    if has_errors {
        AuditVerdict::Fail
    } else if has_warnings {
        AuditVerdict::Warn
    } else {
        AuditVerdict::Pass
    }
}

/// The largest cyclomatic complexity of the findings, if any.
pub open spec fn max_cyclomatic_of(f: Seq<HealthFinding>) -> Option<u16>
    decreases f.len(),
{
    if f.len() == 0 {
        None
    } else {
        match max_cyclomatic_of(f.drop_last()) {
            None => Some(f.last().cyclomatic),
            Some(m) => Some(if m >= f.last().cyclomatic { m } else { f.last().cyclomatic }),
        }
    }
}

/// The largest cyclomatic complexity is that of some finding and no finding
/// exceeds it.
pub proof fn law_max_cyclomatic_is_max(f: Seq<HealthFinding>)
    ensures
        f.len() == 0 <==> max_cyclomatic_of(f) is None,
        max_cyclomatic_of(f) matches Some(m) ==> (exists|i: int| 0 <= i < f.len() && f[i].cyclomatic == m)
            && (forall|i: int| 0 <= i < f.len() ==> f[i].cyclomatic <= m),
    decreases f.len(),
{
    if f.len() > 0 {
        law_max_cyclomatic_is_max(f.drop_last());
        let d = f.drop_last();
        assert forall|i: int| 0 <= i < d.len() implies d[i] == f[i] by {}
        if max_cyclomatic_of(d) is None {
            assert(f[f.len() - 1].cyclomatic == f.last().cyclomatic);
        } else {
            let m = max_cyclomatic_of(d).unwrap();
            let j = choose|j: int| 0 <= j < d.len() && d[j].cyclomatic == m;
            assert(f[j].cyclomatic == m);
            assert(f[f.len() - 1].cyclomatic == f.last().cyclomatic);
        }
    }
}

/// The dead-code issue count (saturating) when the analysis ran.
pub open spec fn issue_total(check: Option<CheckOutcome>) -> int {
    match check {
        Some(c) => if c.results.issue_count() <= usize::MAX {
            c.results.issue_count()
        } else {
            usize::MAX as int
        },
        None => 0,
    }
}

/// Builds the per-category summary of an audit.
pub fn build_summary(
    check: Option<CheckOutcome>,
    dupes: Option<DupesOutcome>,
    health: Option<&Vec<HealthFinding>>,
) -> (s: AuditSummary)
    ensures
        s.dead_code_issues == issue_total(check),
        s.dead_code_has_errors == (check matches Some(c) && check_errors(c)),
        s.complexity_findings == (match health {
            Some(h) => h@.len(),
            None => 0,
        }),
        s.max_cyclomatic == (match health {
            Some(h) => max_cyclomatic_of(h@),
            None => None,
        }),
        s.duplication_clone_groups == (match dupes {
            Some(d) => d.clone_groups,
            None => 0,
        }),
{
    let (dead_code_issues, dead_code_has_errors) = match check {
        Some(r) => (
            r.results.total_issues(),
            has_error_severity_issues(r.results, &r.config.rules, Some(r.config)),
        ),
        None => (0, false),
    };
    let (complexity_findings, max_cyclomatic) = match health {
        Some(h) => {
            let mut m: Option<u16> = None;
            let mut i: usize = 0;
            while i < h.len()
                invariant
                    i <= h@.len(),
                    m == max_cyclomatic_of(h@.take(i as int)),
                decreases h@.len() - i,
            {
                assert(h@.take(i + 1).drop_last() =~= h@.take(i as int));
                let c = h[i].cyclomatic;
                m = match m {
                    None => Some(c),
                    Some(x) => Some(if x >= c { x } else { c }),
                };
                i = i + 1;
            }
            assert(h@.take(h@.len() as int) =~= h@);
            (h.len(), m)
        },
        None => (0, None),
    };
    let duplication_clone_groups = match dupes {
        Some(d) => d.clone_groups,
        None => 0,
    };
    AuditSummary {
        dead_code_issues,
        dead_code_has_errors,
        complexity_findings,
        max_cyclomatic,
        duplication_clone_groups,
    }
}

/// The plural suffix of a count: empty for one, `s` otherwise.
pub open spec fn plural_suffix(n: nat) -> Seq<char> {
    if n == 1 {
        Seq::empty()
    } else {
        seq!['s']
    }
}

/// `n noun` with the noun in the plural unless `n` is one.
pub open spec fn counted(n: nat, noun: Seq<char>) -> Seq<char> {
    decimal(n) + seq![' '] + noun + plural_suffix(n)
}

/// Appends `n noun` with the plural suffix.
fn push_counted(out: &mut Vec<char>, n: usize, noun: &str)
    ensures
        final(out)@ == old(out)@ + counted(n as nat, noun@),
{
    let d = decimal_exec(n as u64);
    extend_all(out, &d);
    out.push(' ');
    extend_str(out, noun);
    if n != 1 {
        out.push('s');
    }
    proof {
        assert(final(out)@ =~= old(out)@ + counted(n as nat, noun@));
    }
}

/// The parts of the status line: one per category with findings, in the
/// order dead code, complexity, duplication.
pub open spec fn status_parts(s: &AuditSummary) -> Seq<Seq<char>> {
    let a = if s.dead_code_issues > 0 {
        seq!["dead code: "@ + counted(s.dead_code_issues as nat, "issue"@)]
    } else {
        Seq::empty()
    };
    let b = if s.complexity_findings > 0 {
        seq!["complexity: "@ + counted(s.complexity_findings as nat, "finding"@)]
    } else {
        Seq::empty()
    };
    let c = if s.duplication_clone_groups > 0 {
        seq!["duplication: "@ + counted(s.duplication_clone_groups as nat, "clone group"@)]
    } else {
        Seq::empty()
    };
    a + b + c
}

/// Builds the parts of the status line shared by the warning and failure
/// verdicts.
pub fn build_status_parts(summary: &AuditSummary) -> (parts: Vec<String>)
    ensures
        parts@.map_values(|p: String| p@) == status_parts(summary),
{
    let mut parts: Vec<String> = Vec::new();
    if summary.dead_code_issues > 0 {
        let mut p = chars_of("dead code: ");
        push_counted(&mut p, summary.dead_code_issues, "issue");
        parts.push(string_of(&p));
    }
    let ghost a = parts@.map_values(|p: String| p@);
    if summary.complexity_findings > 0 {
        let mut p = chars_of("complexity: ");
        push_counted(&mut p, summary.complexity_findings, "finding");
        parts.push(string_of(&p));
    }
    let ghost b = parts@.map_values(|p: String| p@);
    if summary.duplication_clone_groups > 0 {
        let mut p = chars_of("duplication: ");
        push_counted(&mut p, summary.duplication_clone_groups, "clone group");
        parts.push(string_of(&p));
    }
    assert(parts@.map_values(|p: String| p@) =~= status_parts(summary));
    parts
}

/// The scope line: `Audit scope: N changed file(s) vs BASE`, followed by
/// ` (SHA..HEAD)` when the head commit is known.
pub open spec fn scope_line(count: nat, base_ref: Seq<char>, head_sha: Option<Seq<char>>) -> Seq<char> {
    "Audit scope: "@ + counted(count, "changed file"@) + " vs "@ + base_ref + match head_sha {
        Some(sha) => " ("@ + sha + "..HEAD)"@,
        None => Seq::empty(),
    }
}

/// The head commit, when known.
pub open spec fn sha_view(head_sha: Option<&str>) -> Option<Seq<char>> {
    match head_sha {
        Some(s) => Some(s@),
        None => None,
    }
}

/// Formats the audit's scope line.
pub fn format_scope_line(changed_files_count: usize, base_ref: &str, head_sha: Option<&str>) -> (r: String)
    ensures
        r@ == scope_line(changed_files_count as nat, base_ref@, sha_view(head_sha)),
{
    let mut out = chars_of("Audit scope: ");
    push_counted(&mut out, changed_files_count, "changed file");
    extend_str(&mut out, " vs ");
    extend_str(&mut out, base_ref);
    let ghost before = out@;
    match head_sha {
        Some(sha) => {
            extend_str(&mut out, " (");
            extend_str(&mut out, sha);
            extend_str(&mut out, "..HEAD)");
            assert(out@ =~= before + (" ("@ + sha@ + "..HEAD)"@));
        },
        None => {
            assert(out@ =~= before + Seq::<char>::empty());
        },
    }
    string_of(&out)
}

/// An audit fails exactly when some analysis found an error, and passes
/// exactly when no analysis found anything.
pub proof fn law_verdict_levels(
    check: Option<CheckOutcome>,
    dupes: Option<DupesOutcome>,
    health: Option<Seq<HealthFinding>>,
)
    ensures
        (verdict(check, dupes, health) == AuditVerdict::Pass) <==> (
            (check matches Some(c) ==> c.results.issue_count() == 0)
            && (dupes matches Some(d) ==> d.clone_groups == 0)
            && (health matches Some(h) ==> h.len() == 0)),
        verdict(check, dupes, health) == AuditVerdict::Fail ==> (
            (check matches Some(c) && check_errors(c))
            || (health matches Some(h) && h.len() > 0)
            || (dupes matches Some(d) && d.threshold_exceeded)),
{
    if let Some(c) = check {
        if c.results.issue_count() == 0 {
            crate::rules::law_no_findings_no_errors(c.results, c.config.rules, Some(c.config));
        }
    }
}

/// The severity order of verdicts: `Pass` below `Warn` below `Fail`.
pub open spec fn verdict_rank(v: AuditVerdict) -> int {
    match v {
        AuditVerdict::Pass => 0,
        AuditVerdict::Warn => 1,
        AuditVerdict::Fail => 2,
    }
}

/// An audit fails whenever some analysis that ran found an error
/// (error-severity dead code, a complexity finding, or clone groups over
/// the duplication threshold), whatever the other analyses found; it warns
/// exactly when no analysis found an error and the dead-code or
/// duplication analysis found something.
pub proof fn law_any_error_fails_audit(
    check: Option<CheckOutcome>,
    dupes: Option<DupesOutcome>,
    health: Option<Seq<HealthFinding>>,
)
    ensures
        (verdict(check, dupes, health) == AuditVerdict::Fail) <==> (
            (check matches Some(c) && check_errors(c))
            || (health matches Some(h) && h.len() > 0)
            || (dupes matches Some(d) && d.clone_groups > 0 && d.threshold_exceeded)),
        (verdict(check, dupes, health) == AuditVerdict::Warn) <==> (
            !(check matches Some(c) && check_errors(c))
            && !(health matches Some(h) && h.len() > 0)
            && !(dupes matches Some(d) && d.clone_groups > 0 && d.threshold_exceeded)
            && ((check matches Some(c) && c.results.issue_count() > 0)
                || (dupes matches Some(d) && d.clone_groups > 0))),
{
}

/// The verdict given the outcome of an analysis is at least as severe as
/// the verdict without that outcome.
pub proof fn law_each_analysis_only_raises_verdict(
    check: Option<CheckOutcome>,
    dupes: Option<DupesOutcome>,
    health: Option<Seq<HealthFinding>>,
)
    ensures
        verdict_rank(verdict(check, dupes, health)) >= verdict_rank(verdict(None, dupes, health)),
        verdict_rank(verdict(check, dupes, health)) >= verdict_rank(verdict(check, None, health)),
        verdict_rank(verdict(check, dupes, health)) >= verdict_rank(verdict(check, dupes, None)),
{
}

/// The final status line of an audit, given the elapsed time already
/// formatted: a check mark and the changed-file count on a pass; the
/// status parts joined by ` · ` and marked `(warn)` on a warning; a cross
/// and the status parts on a failure.
pub open spec fn status_line(v: AuditVerdict, s: &AuditSummary, changed: nat, elapsed: Seq<char>) -> Seq<char> {
    let files = counted(changed, "changed file"@);
    let tail = files + " ("@ + elapsed + ")"@;
    match v {
        AuditVerdict::Pass => "\u{2713} No issues in "@ + tail,
        AuditVerdict::Warn => "\u{2713} "@ + join(status_parts(s), " \u{00b7} "@) + " (warn) \u{00b7} "@ + tail,
        AuditVerdict::Fail => "\u{2717} "@ + join(status_parts(s), " \u{00b7} "@) + " \u{00b7} "@ + tail,
    }
}

/// Builds the final status line of an audit.
pub fn build_status_line(verdict: AuditVerdict, summary: &AuditSummary, changed_files_count: usize, elapsed: &str) -> (r: String)
    ensures
        r@ == status_line(verdict, summary, changed_files_count as nat, elapsed@),
{
    let mut out: Vec<char> = Vec::new();
    match verdict {
        AuditVerdict::Pass => {
            extend_str(&mut out, "\u{2713} No issues in ");
        },
        AuditVerdict::Warn => {
            extend_str(&mut out, "\u{2713} ");
            let parts = build_status_parts(summary);
            let j = join_strings(&parts, " \u{00b7} ");
            extend_all(&mut out, &j);
            extend_str(&mut out, " (warn) \u{00b7} ");
        },
        AuditVerdict::Fail => {
            extend_str(&mut out, "\u{2717} ");
            let parts = build_status_parts(summary);
            let j = join_strings(&parts, " \u{00b7} ");
            extend_all(&mut out, &j);
            extend_str(&mut out, " \u{00b7} ");
        },
    }
    push_counted(&mut out, changed_files_count, "changed file");
    extend_str(&mut out, " (");
    extend_str(&mut out, elapsed);
    extend_str(&mut out, ")");
    proof {
        assert(out@ =~= status_line(verdict, summary, changed_files_count as nat, elapsed@));
    }
    string_of(&out)
}

/// Joins strings with a separator.
fn join_strings(parts: &Vec<String>, sep: &str) -> (r: Vec<char>)
    ensures
        r@ == join(parts@.map_values(|p: String| p@), sep@),
{
    let mut v: Vec<Vec<char>> = Vec::new();
    let mut i: usize = 0;
    while i < parts.len()
        invariant
            i <= parts@.len(),
            views(v@) == parts@.map_values(|p: String| p@).take(i as int),
        decreases parts@.len() - i,
    {
        let c = chars_of(parts[i].as_str());
        let ghost v0 = v@;
        v.push(c);
        proof {
            assert(v@ == v0.push(c));
            assert(views(v0).len() == i);
            assert(views(v@)[i as int] == parts@[i as int]@);
            assert(views(v@) =~= parts@.map_values(|p: String| p@).take(i + 1));
        }
        i = i + 1;
    }
    assert(parts@.map_values(|p: String| p@).take(parts@.len() as int) =~= parts@.map_values(|p: String| p@));
    let s = chars_of(sep);
    join_chars(&v, &s)
}

/// The base branch of an audit without `--base`: the default branch that
/// `git symbolic-ref refs/remotes/origin/HEAD` printed, else `main` when it
/// exists, else `master` when it exists.
pub open spec fn base_branch_choice(origin_head: Option<Seq<char>>, has_main: bool, has_master: bool) -> Option<Seq<char>> {
    let from_origin = match origin_head {
        Some(o) => origin_branch(o),
        None => None,
    };
    match from_origin {
        Some(b) => Some(b),
        None => if has_main {
            Some("main"@)
        } else if has_master {
            Some("master"@)
        } else {
            None
        },
    }
}

/// Picks the base branch from what git reported: the output of the
/// `symbolic-ref` query when it succeeded, and whether `main` and `master`
/// exist.
pub fn pick_base_branch(origin_head: Option<&str>, has_main: bool, has_master: bool) -> (r: Option<String>)
    ensures
        opt_view(r) == base_branch_choice(
            match origin_head {
                Some(o) => Some(o@),
                None => None,
            },
            has_main,
            has_master,
        ),
{
    if let Some(out) = origin_head {
        let b = default_branch_from_ref(out);
        if b.is_some() {
            return b;
        }
    }
    if has_main {
        Some("main".to_string())
    } else if has_master {
        Some("master".to_string())
    } else {
        None
    }
}

} // verus!
