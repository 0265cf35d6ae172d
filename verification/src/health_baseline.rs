//! Health baselines: stable keys for complexity findings and refactoring
//! targets, and the filters that keep only those absent from a baseline.

use vstd::prelude::*;
use crate::keyset::{fx_keys, fx_set_contains, key_set};
use crate::health_types::{
    category_label, sort_findings, sorted_desc, EffortEstimate, HealthFinding, RefactoringTarget, SortBy,
};
use crate::paths::{forward_slashes, path_starts_with, relative_path, relative_to, spec_path_starts_with};
use crate::text::{
    chars_of, decimal, decimal_exec, extend_all, lemma_take_map_push,
    replace_char_exec, string_of, string_views,
};

verus! {

/// Key of a health finding: `relative_path:function_name:line`.
pub open spec fn finding_key(f: HealthFinding, root: Seq<char>) -> Seq<char> {
    forward_slashes(relative_to(f.path@, root)) + seq![':'] + f.name@ + seq![':'] + decimal(
        f.line as nat,
    )
}

/// Key of a refactoring target: `relative_path:category`.
pub open spec fn target_key(t: RefactoringTarget, root: Seq<char>) -> Seq<char> {
    forward_slashes(relative_to(t.path@, root)) + seq![':'] + category_label(t.category)
}

/// Stable key of a health finding.
pub fn health_finding_key(finding: &HealthFinding, root: &str) -> (k: String)
    ensures
        k@ == finding_key(*finding, root@),
{
    let rel = relative_path(finding.path.as_str(), root);
    let mut k = replace_char_exec(rel.as_str(), '\\', '/');
    k.push(':');
    let name = chars_of(finding.name.as_str());
    extend_all(&mut k, &name);
    k.push(':');
    let line = decimal_exec(finding.line as u64);
    extend_all(&mut k, &line);
    proof {
        assert(k@ =~= finding_key(*finding, root@));
    }
    string_of(&k)
}

/// Stable key of a refactoring target; a change of category makes it a
/// new target.
pub fn target_baseline_key(target: &RefactoringTarget, root: &str) -> (k: String)
    ensures
        k@ == target_key(*target, root@),
{
    let rel = relative_path(target.path.as_str(), root);
    let mut k = replace_char_exec(rel.as_str(), '\\', '/');
    k.push(':');
    let label = chars_of(target.category.label());
    extend_all(&mut k, &label);
    proof {
        assert(k@ =~= target_key(*target, root@));
    }
    string_of(&k)
}

/// A health baseline: the keys of the findings and targets it records.
pub struct HealthBaselineData {
    pub findings: Vec<String>,
    /// Refactoring target keys.
    pub target_keys: Vec<String>,
}

impl HealthBaselineData {
    /// Records the keys of the findings and targets, in order.
    pub fn from_findings(findings: &[HealthFinding], targets: &[RefactoringTarget], root: &str) -> (b: HealthBaselineData)
        ensures
            string_views(b.findings@) == findings@.map_values(|f: HealthFinding| finding_key(f, root@)),
            string_views(b.target_keys@) == targets@.map_values(
                |t: RefactoringTarget| target_key(t, root@),
            ),
    {
        let ghost ff = |f: HealthFinding| finding_key(f, root@);
        let ghost tf = |t: RefactoringTarget| target_key(t, root@);
        let mut fk: Vec<String> = Vec::new();
        let mut i: usize = 0;
        while i < findings.len()
            invariant
                i <= findings@.len(),
                ff == (|f: HealthFinding| finding_key(f, root@)),
                string_views(fk@) == findings@.take(i as int).map_values(ff),
            decreases findings@.len() - i,
        {
            let k = health_finding_key(&findings[i], root);
            let ghost before = fk@;
            fk.push(k);
            proof {
                lemma_take_map_push(findings@, ff, i as int);
                assert(string_views(fk@) =~= string_views(before).push(k@));
            }
            i = i + 1;
        }
        assert(findings@.take(findings@.len() as int) =~= findings@);
        let mut tk: Vec<String> = Vec::new();
        let mut j: usize = 0;
        while j < targets.len()
            invariant
                j <= targets@.len(),
                tf == (|t: RefactoringTarget| target_key(t, root@)),
                string_views(tk@) == targets@.take(j as int).map_values(tf),
            decreases targets@.len() - j,
        {
            let k = target_baseline_key(&targets[j], root);
            let ghost before = tk@;
            tk.push(k);
            proof {
                lemma_take_map_push(targets@, tf, j as int);
                assert(string_views(tk@) =~= string_views(before).push(k@));
            }
            j = j + 1;
        }
        assert(targets@.take(targets@.len() as int) =~= targets@);
        HealthBaselineData { findings: fk, target_keys: tk }
    }
}

/// Whether a finding is absent from a list of keys.
pub open spec fn finding_is_new(f: HealthFinding, keys: Seq<String>, root: Seq<char>) -> bool {
    !string_views(keys).contains(finding_key(f, root))
}

/// Whether a target is absent from a list of keys.
pub open spec fn target_is_new(t: RefactoringTarget, keys: Seq<String>, root: Seq<char>) -> bool {
    !string_views(keys).contains(target_key(t, root))
}

/// Keeps the findings not recorded in the baseline, in order.
pub fn filter_new_health_findings(
    findings: Vec<HealthFinding>,
    baseline: &HealthBaselineData,
    root: &str,
) -> (r: Vec<HealthFinding>)
    ensures
        r@ == findings@.filter(|f: HealthFinding| finding_is_new(f, baseline.findings@, root@)),
{
    let ghost pred = |f: HealthFinding| finding_is_new(f, baseline.findings@, root@);
    let ghost s = findings@;
    let known = key_set(&baseline.findings);
    let mut r: Vec<HealthFinding> = Vec::new();
    for x in it: findings
        invariant
            pred == (|f: HealthFinding| finding_is_new(f, baseline.findings@, root@)),
            forall|q: Seq<char>| #[trigger] fx_keys(known).contains(q) <==> string_views(baseline.findings@).contains(q),
            it.seq() == s,
            r@ == s.take(it.index() as int).filter(pred),
    {
        let ghost i = it.index();
        proof {
            assert(s.take(i + 1) =~= s.take(i as int).push(x));
            s.take(i as int).lemma_filter_push(x, pred);
        }
        let k = health_finding_key(&x, root);
        if !fx_set_contains(&known, k.as_str()) {
            r.push(x);
        }
    }
    assert(s.take(s.len() as int) =~= s);
    r
}

/// Keeps the refactoring targets not recorded in the baseline, in order.
pub fn filter_new_health_targets(
    targets: Vec<RefactoringTarget>,
    baseline: &HealthBaselineData,
    root: &str,
) -> (r: Vec<RefactoringTarget>)
    ensures
        r@ == targets@.filter(|t: RefactoringTarget| target_is_new(t, baseline.target_keys@, root@)),
{
    let ghost pred = |t: RefactoringTarget| target_is_new(t, baseline.target_keys@, root@);
    let ghost s = targets@;
    let known = key_set(&baseline.target_keys);
    let mut r: Vec<RefactoringTarget> = Vec::new();
    for x in it: targets
        invariant
            pred == (|t: RefactoringTarget| target_is_new(t, baseline.target_keys@, root@)),
            forall|q: Seq<char>| #[trigger] fx_keys(known).contains(q) <==> string_views(baseline.target_keys@).contains(q),
            it.seq() == s,
            r@ == s.take(it.index() as int).filter(pred),
    {
        let ghost i = it.index();
        proof {
            assert(s.take(i + 1) =~= s.take(i as int).push(x));
            s.take(i as int).lemma_filter_push(x, pred);
        }
        let k = target_baseline_key(&x, root);
        if !fx_set_contains(&known, k.as_str()) {
            r.push(x);
        }
    }
    assert(s.take(s.len() as int) =~= s);
    r
}

/// A health baseline taken from some findings and targets filters all of
/// them out again.
pub proof fn law_health_baseline_absorbs_own_findings(
    findings: Seq<HealthFinding>,
    targets: Seq<RefactoringTarget>,
    baseline: &HealthBaselineData,
    root: Seq<char>,
)
    requires
        string_views(baseline.findings@) == findings.map_values(|f: HealthFinding| finding_key(f, root)),
        string_views(baseline.target_keys@) == targets.map_values(
            |t: RefactoringTarget| target_key(t, root),
        ),
    ensures
        findings.filter(|f: HealthFinding| finding_is_new(f, baseline.findings@, root)).len() == 0,
        targets.filter(|t: RefactoringTarget| target_is_new(t, baseline.target_keys@, root)).len() == 0,
{
    let p = |f: HealthFinding| finding_is_new(f, baseline.findings@, root);
    assert forall|i: int| 0 <= i < findings.len() implies !p(findings[i]) by {
        assert(string_views(baseline.findings@)[i] == finding_key(findings[i], root));
    }
    assert(findings.all(|x: HealthFinding| !p(x)));
    findings.lemma_all_neg_filter_empty(p);
    let q = |t: RefactoringTarget| target_is_new(t, baseline.target_keys@, root);
    assert forall|i: int| 0 <= i < targets.len() implies !q(targets[i]) by {
        assert(string_views(baseline.target_keys@)[i] == target_key(targets[i], root));
    }
    assert(targets.all(|x: RefactoringTarget| !q(x)));
    targets.lemma_all_neg_filter_empty(q);
}

/// An empty health baseline keeps every finding.
pub proof fn law_empty_health_baseline_keeps_all(findings: Seq<HealthFinding>, baseline: &HealthBaselineData, root: Seq<char>)
    requires
        baseline.findings@.len() == 0,
    ensures
        findings.filter(|f: HealthFinding| finding_is_new(f, baseline.findings@, root)) == findings,
    decreases findings.len(),
{
    reveal(Seq::filter);
    if findings.len() > 0 {
        law_empty_health_baseline_keeps_all(findings.drop_last(), baseline, root);
        assert(!string_views(baseline.findings@).contains(finding_key(findings.last(), root)));
        assert(findings.drop_last().push(findings.last()) =~= findings);
    }
}

/// The refactoring targets reported: those absent from the baseline when
/// one was loaded, of the requested effort when one was given, and at most
/// `top` of them, in order.
pub open spec fn selected_targets(
    targets: Seq<RefactoringTarget>,
    baseline_keys: Option<Seq<String>>,
    root: Seq<char>,
    effort: Option<EffortEstimate>,
    top: Option<usize>,
) -> Seq<RefactoringTarget> {
    let a = match baseline_keys {
        Some(k) => targets.filter(|t: RefactoringTarget| target_is_new(t, k, root)),
        None => targets,
    };
    let b = match effort {
        Some(e) => a.filter(|t: RefactoringTarget| t.effort == e),
        None => a,
    };
    match top {
        Some(n) => if n < b.len() {
            b.take(n as int)
        } else {
            b
        },
        None => b,
    }
}

/// The baseline's target keys, when a baseline was loaded.
pub open spec fn target_keys_of(baseline: Option<&HealthBaselineData>) -> Option<Seq<String>> {
    match baseline {
        Some(b) => Some(b.target_keys@),
        None => None,
    }
}

/// Keeps the targets of the requested effort.
fn retain_effort(targets: Vec<RefactoringTarget>, effort: EffortEstimate) -> (r: Vec<RefactoringTarget>)
    ensures
        r@ == targets@.filter(|t: RefactoringTarget| t.effort == effort),
{
    let ghost pred = |t: RefactoringTarget| t.effort == effort;
    let ghost s = targets@;
    let mut r: Vec<RefactoringTarget> = Vec::new();
    for x in it: targets
        invariant
            pred == (|t: RefactoringTarget| t.effort == effort),
            it.seq() == s,
            r@ == s.take(it.index() as int).filter(pred),
    {
        let ghost i = it.index();
        proof {
            assert(s.take(i + 1) =~= s.take(i as int).push(x));
            s.take(i as int).lemma_filter_push(x, pred);
        }
        if x.effort == effort {
            r.push(x);
        }
    }
    assert(s.take(s.len() as int) =~= s);
    r
}

/// Selects the refactoring targets to report: new ones only when a
/// baseline was loaded, then by effort, then the first `top`.
pub fn select_targets(
    targets: Vec<RefactoringTarget>,
    baseline: Option<&HealthBaselineData>,
    root: &str,
    effort: Option<EffortEstimate>,
    top: Option<usize>,
) -> (r: Vec<RefactoringTarget>)
    ensures
        r@ == selected_targets(targets@, target_keys_of(baseline), root@, effort, top),
{
    let a = match baseline {
        Some(b) => filter_new_health_targets(targets, b, root),
        None => targets,
    };
    let mut b = match effort {
        Some(e) => retain_effort(a, e),
        None => a,
    };
    if let Some(n) = top {
        b.truncate(n);
    }
    b
}

/// The complexity findings reported, and how many exceeded a threshold:
/// the findings under the workspace root when one is given, sorted, then
/// counted, then those absent from the baseline when one was loaded, and
/// at most `top` of them.
pub open spec fn selected_findings(
    findings: Seq<HealthFinding>,
    ws_root: Option<Seq<char>>,
    by: SortBy,
    baseline_findings: Option<Seq<String>>,
    root: Seq<char>,
    top: Option<usize>,
) -> (Seq<HealthFinding>, nat) {
    let a = match ws_root {
        Some(w) => findings.filter(|f: HealthFinding| spec_path_starts_with(f.path@, w)),
        None => findings,
    };
    let b = sorted_desc(a, by);
    let c = match baseline_findings {
        Some(k) => b.filter(|f: HealthFinding| finding_is_new(f, k, root)),
        None => b,
    };
    let d = match top {
        Some(n) => if n < c.len() {
            c.take(n as int)
        } else {
            c
        },
        None => c,
    };
    (d, b.len())
}

/// The baseline's finding keys, when a baseline was loaded.
pub open spec fn finding_keys_of(baseline: Option<&HealthBaselineData>) -> Option<Seq<String>> {
    match baseline {
        Some(b) => Some(b.findings@),
        None => None,
    }
}

/// The workspace root, when one is given.
pub open spec fn root_view(ws_root: Option<&str>) -> Option<Seq<char>> {
    match ws_root {
        Some(w) => Some(w@),
        None => None,
    }
}

/// Keeps the findings under the workspace root.
fn retain_under(findings: Vec<HealthFinding>, ws: &str) -> (r: Vec<HealthFinding>)
    ensures
        r@ == findings@.filter(|f: HealthFinding| spec_path_starts_with(f.path@, ws@)),
{
    let ghost pred = |f: HealthFinding| spec_path_starts_with(f.path@, ws@);
    let ghost s = findings@;
    let mut r: Vec<HealthFinding> = Vec::new();
    for x in it: findings
        invariant
            pred == (|f: HealthFinding| spec_path_starts_with(f.path@, ws@)),
            it.seq() == s,
            r@ == s.take(it.index() as int).filter(pred),
    {
        let ghost i = it.index();
        proof {
            assert(s.take(i + 1) =~= s.take(i as int).push(x));
            s.take(i as int).lemma_filter_push(x, pred);
        }
        if path_starts_with(x.path.as_str(), ws) {
            r.push(x);
        }
    }
    assert(s.take(s.len() as int) =~= s);
    r
}

/// Selects the complexity findings to report and counts those above a
/// threshold (before the baseline and `top` narrow the list).
pub fn select_findings(
    findings: Vec<HealthFinding>,
    ws_root: Option<&str>,
    sort: &SortBy,
    baseline: Option<&HealthBaselineData>,
    root: &str,
    top: Option<usize>,
) -> (r: (Vec<HealthFinding>, usize))
    ensures
        (r.0@, r.1 as nat) == selected_findings(findings@, root_view(ws_root), *sort, finding_keys_of(baseline), root@, top),
{
    let mut a = match ws_root {
        Some(w) => retain_under(findings, w),
        None => findings,
    };
    sort_findings(&mut a, sort);
    let total = a.len();
    let mut c = match baseline {
        Some(b) => filter_new_health_findings(a, b, root),
        None => a,
    };
    if let Some(n) = top {
        c.truncate(n);
    }
    (c, total)
}

} // verus!
