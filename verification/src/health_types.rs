//! Types of the health (complexity) report, as the command-line logic
//! reads them. Scores, ratios and percentages are floating-point values
//! and stay with the code that computes and prints them.

use vstd::prelude::*;
use vstd::seq_lib::group_to_multiset_ensures;

verus! {

/// Current snapshot schema version (independent of the report's schema
/// version); version 2 added the score and grade fields.
pub const SNAPSHOT_SCHEMA_VERSION: u32 = 2;

/// Hotspot score from which a file counts as a hotspot in vital signs.
pub const HOTSPOT_SCORE_THRESHOLD: u32 = 50;

/// Which complexity threshold a function exceeded.
#[derive(Clone, Copy, Debug, PartialEq, Eq, Structural)]
pub enum ExceededThreshold {
    /// Only cyclomatic complexity.
    Cyclomatic,
    /// Only cognitive complexity.
    Cognitive,
    /// Both.
    Both,
}

/// A function that exceeds a complexity threshold.
pub struct HealthFinding {
    /// Absolute file path.
    pub path: String,
    /// Function name.
    pub name: String,
    /// 1-based line.
    pub line: u32,
    /// 0-based column.
    pub col: u32,
    pub cyclomatic: u16,
    pub cognitive: u16,
    /// Lines of the function.
    pub line_count: u32,
    pub exceeded: ExceededThreshold,
}

/// Summary statistics of a hotspot analysis.
pub struct HotspotSummary {
    /// The analysis window as shown (e.g. "6 months").
    pub since: String,
    /// Minimum number of commits for a file to be analysed.
    pub min_commits: u32,
    /// Files with churn data meeting the threshold.
    pub files_analyzed: usize,
    /// Files below the commit threshold.
    pub files_excluded: usize,
    /// Whether the repository is a shallow clone.
    pub shallow_clone: bool,
}

/// Raw counts behind the vital-sign percentages.
pub struct VitalSignsCounts {
    pub total_files: usize,
    pub total_exports: usize,
    pub dead_files: usize,
    pub dead_exports: usize,
    pub duplicated_lines: Option<usize>,
    pub total_lines: Option<usize>,
    pub files_scored: Option<usize>,
    pub total_deps: usize,
}

/// Category of a refactoring recommendation.
#[derive(Clone, Copy, Debug, PartialEq, Eq, Structural)]
pub enum RecommendationCategory {
    /// Actively changing file with growing complexity.
    UrgentChurnComplexity,
    /// File in an import cycle with a wide blast radius.
    BreakCircularDependency,
    /// High fan-in and high complexity.
    SplitHighImpact,
    /// Most exports unused.
    RemoveDeadCode,
    /// Functions with very high cognitive complexity.
    ExtractComplexFunctions,
    /// Too many imports.
    ExtractDependencies,
}

/// The terminal label of a category.
pub open spec fn category_label(c: RecommendationCategory) -> Seq<char> {
    match c {
        RecommendationCategory::UrgentChurnComplexity => "churn+complexity"@,
        RecommendationCategory::BreakCircularDependency => "circular dep"@,
        RecommendationCategory::SplitHighImpact => "high impact"@,
        RecommendationCategory::RemoveDeadCode => "dead code"@,
        RecommendationCategory::ExtractComplexFunctions => "complexity"@,
        RecommendationCategory::ExtractDependencies => "coupling"@,
    }
}

/// The compact (machine-readable) label of a category.
pub open spec fn category_compact_label(c: RecommendationCategory) -> Seq<char> {
    match c {
        RecommendationCategory::UrgentChurnComplexity => "churn_complexity"@,
        RecommendationCategory::BreakCircularDependency => "circular_dep"@,
        RecommendationCategory::SplitHighImpact => "high_impact"@,
        RecommendationCategory::RemoveDeadCode => "dead_code"@,
        RecommendationCategory::ExtractComplexFunctions => "complexity"@,
        RecommendationCategory::ExtractDependencies => "coupling"@,
    }
}

impl RecommendationCategory {
    /// Human-readable label for terminal output.
    pub fn label(&self) -> (r: &'static str)
        ensures
            r@ == category_label(*self),
    {
        match self {
            RecommendationCategory::UrgentChurnComplexity => "churn+complexity",
            RecommendationCategory::BreakCircularDependency => "circular dep",
            RecommendationCategory::SplitHighImpact => "high impact",
            RecommendationCategory::RemoveDeadCode => "dead code",
            RecommendationCategory::ExtractComplexFunctions => "complexity",
            RecommendationCategory::ExtractDependencies => "coupling",
        }
    }

    /// Machine-parseable label for compact output (no spaces).
    pub fn compact_label(&self) -> (r: &'static str)
        ensures
            r@ == category_compact_label(*self),
    {
        match self {
            RecommendationCategory::UrgentChurnComplexity => "churn_complexity",
            RecommendationCategory::BreakCircularDependency => "circular_dep",
            RecommendationCategory::SplitHighImpact => "high_impact",
            RecommendationCategory::RemoveDeadCode => "dead_code",
            RecommendationCategory::ExtractComplexFunctions => "complexity",
            RecommendationCategory::ExtractDependencies => "coupling",
        }
    }
}

/// Compact labels hold no spaces, and no two categories share a label or a
/// compact label.
pub proof fn law_category_labels_distinct(a: RecommendationCategory, b: RecommendationCategory)
    ensures
        !category_compact_label(a).contains(' '),
        category_label(a).len() > 0,
        category_compact_label(a).len() > 0,
        a != b ==> category_label(a) != category_label(b),
        a != b ==> category_compact_label(a) != category_compact_label(b),
{
    reveal_strlit("churn+complexity");
    reveal_strlit("circular dep");
    reveal_strlit("high impact");
    reveal_strlit("dead code");
    reveal_strlit("complexity");
    reveal_strlit("coupling");
    reveal_strlit("churn_complexity");
    reveal_strlit("circular_dep");
    reveal_strlit("high_impact");
    reveal_strlit("dead_code");
    let l = category_compact_label(a);
    assert forall|i: int| 0 <= i < l.len() implies l[i] != ' ' by {}
    if a != b {
        let (x, y) = (category_label(a), category_label(b));
        assert(x.len() != y.len() || x[0] != y[0] || x[1] != y[1] || x[2] != y[2] || x[9] != y[9]);
        let (u, v) = (category_compact_label(a), category_compact_label(b));
        assert(u.len() != v.len() || u[0] != v[0] || u[1] != v[1] || u[2] != v[2] || u[9] != v[9]);
    }
}

/// Effort estimate of a refactoring target.
#[derive(Clone, Copy, Debug, PartialEq, Eq, Structural)]
pub enum EffortEstimate {
    Low,
    Medium,
    High,
}

/// The terminal label of an effort estimate.
pub open spec fn effort_label(e: EffortEstimate) -> Seq<char> {
    match e {
        EffortEstimate::Low => "low"@,
        EffortEstimate::Medium => "medium"@,
        EffortEstimate::High => "high"@,
    }
}

impl EffortEstimate {
    /// Human-readable label for terminal output.
    pub fn label(&self) -> (r: &'static str)
        ensures
            r@ == effort_label(*self),
    {
        match self {
            EffortEstimate::Low => "low",
            EffortEstimate::Medium => "medium",
            EffortEstimate::High => "high",
        }
    }
}

/// Confidence of a recommendation.
#[derive(Clone, Copy, Debug, PartialEq, Eq, Structural)]
pub enum Confidence {
    High,
    Medium,
    Low,
}

/// The terminal label of a confidence level.
pub open spec fn confidence_label(c: Confidence) -> Seq<char> {
    match c {
        Confidence::High => "high"@,
        Confidence::Medium => "medium"@,
        Confidence::Low => "low"@,
    }
}

impl Confidence {
    /// Human-readable label for terminal output.
    pub fn label(&self) -> (r: &'static str)
        ensures
            r@ == confidence_label(*self),
    {
        match self {
            Confidence::High => "high",
            Confidence::Medium => "medium",
            Confidence::Low => "low",
        }
    }
}

/// A function referenced in target evidence.
pub struct EvidenceFunction {
    pub name: String,
    /// 1-based line.
    pub line: u32,
    /// Cognitive complexity.
    pub cognitive: u16,
}

/// Evidence linking a target to analysis data.
pub struct TargetEvidence {
    /// Unused exports (dead-code targets).
    pub unused_exports: Vec<String>,
    /// Complex functions (complex-function targets).
    pub complex_functions: Vec<EvidenceFunction>,
    /// Files of the import cycle (circular-dependency targets).
    pub cycle_path: Vec<String>,
}

/// A refactoring recommendation for a file, without its floating-point
/// priority and efficiency scores.
pub struct RefactoringTarget {
    /// Absolute file path.
    pub path: String,
    /// One-line recommendation.
    pub recommendation: String,
    pub category: RecommendationCategory,
    pub effort: EffortEstimate,
    pub confidence: Confidence,
    pub evidence: Option<TargetEvidence>,
}

/// A file that no test dependency path reaches.
pub struct UntestedFile {
    /// Absolute file path.
    pub path: String,
    /// Value exports declared by the file.
    pub value_export_count: usize,
}

/// A runtime export that no test-reachable module references.
pub struct UntestedExport {
    pub path: String,
    pub export_name: String,
    /// 1-based line.
    pub line: u32,
    /// 0-based column.
    pub col: u32,
}

/// Sort order of health findings.
#[derive(Clone, Copy, Debug, PartialEq, Eq, Structural)]
pub enum SortBy {
    Cyclomatic,
    Cognitive,
    Lines,
}

/// The value a finding is sorted by.
pub open spec fn sort_key(f: HealthFinding, by: SortBy) -> int {
    match by {
        SortBy::Cyclomatic => f.cyclomatic as int,
        SortBy::Cognitive => f.cognitive as int,
        SortBy::Lines => f.line_count as int,
    }
}

/// `x` inserted into `s` after the last element whose key is not smaller.
pub open spec fn insert_desc(s: Seq<HealthFinding>, x: HealthFinding, by: SortBy) -> Seq<HealthFinding>
    decreases s.len(),
{
    if s.len() == 0 {
        seq![x]
    } else if sort_key(s.last(), by) >= sort_key(x, by) {
        s.push(x)
    } else {
        insert_desc(s.drop_last(), x, by).push(s.last())
    }
}

/// `s` in descending key order, equal keys in their original order (a
/// stable sort).
pub open spec fn sorted_desc(s: Seq<HealthFinding>, by: SortBy) -> Seq<HealthFinding>
    decreases s.len(),
{
    if s.len() == 0 {
        Seq::empty()
    } else {
        insert_desc(sorted_desc(s.drop_last(), by), s.last(), by)
    }
}

/// `insert_desc` as a split at the point where the smaller suffix starts.
proof fn lemma_insert_desc_split(s: Seq<HealthFinding>, x: HealthFinding, by: SortBy, p: int)
    requires
        0 <= p <= s.len(),
        p > 0 ==> sort_key(s[p - 1], by) >= sort_key(x, by),
        forall|j: int| p <= j < s.len() ==> sort_key(#[trigger] s[j], by) < sort_key(x, by),
    ensures
        insert_desc(s, x, by) == s.take(p) + seq![x] + s.skip(p),
    decreases s.len(),
{
    if s.len() == 0 {
        assert(s.take(p) + seq![x] + s.skip(p) =~= seq![x]);
    } else if p == s.len() {
        assert(s.take(p) + seq![x] + s.skip(p) =~= s.push(x));
    } else {
        lemma_insert_desc_split(s.drop_last(), x, by, p);
        assert(s.drop_last().take(p) + seq![x] + s.drop_last().skip(p) + seq![s.last()] =~= s.take(p)
            + seq![x] + s.skip(p));
    }
}

/// The key of a finding.
fn key_exec(f: &HealthFinding, by: SortBy) -> (k: u32)
    ensures
        k == sort_key(*f, by),
{
    match by {
        SortBy::Cyclomatic => f.cyclomatic as u32,
        SortBy::Cognitive => f.cognitive as u32,
        SortBy::Lines => f.line_count,
    }
}

/// Sorts findings by the chosen metric, highest first; findings with equal
/// values keep their order.
pub fn sort_findings(findings: &mut Vec<HealthFinding>, sort: &SortBy)
    ensures
        final(findings)@ == sorted_desc(old(findings)@, *sort),
{
    let by = *sort;
    let mut src: Vec<HealthFinding> = Vec::new();
    std::mem::swap(findings, &mut src);
    let ghost s = src@;
    for x in it: src
        invariant
            it.seq() == s,
            findings@ == sorted_desc(s.take(it.index() as int), by),
    {
        let ghost i = it.index();
        proof {
            assert(s.take(i + 1).drop_last() =~= s.take(i as int));
        }
        let kx = key_exec(&x, by);
        let mut p = findings.len();
        while p > 0 && key_exec(&findings[p - 1], by) < kx
            invariant
                p <= findings@.len(),
                kx == sort_key(x, by),
                forall|j: int| p <= j < findings@.len() ==> sort_key(#[trigger] findings@[j], by) < kx,
            decreases p,
        {
            p = p - 1;
        }
        proof {
            lemma_insert_desc_split(findings@, x, by, p as int);
        }
        let ghost before = findings@;
        findings.insert(p, x);
        proof {
            assert(findings@ =~= before.take(p as int) + seq![x] + before.skip(p as int));
        }
    }
    assert(s.take(s.len() as int) =~= s);
}

/// The letter grade of a health score's whole points: A from 85, B from
/// 70, C from 55, D from 40, else F.
pub open spec fn grade_of(points: u32) -> Seq<char> {
    if points >= 85 {
        "A"@
    } else if points >= 70 {
        "B"@
    } else if points >= 55 {
        "C"@
    } else if points >= 40 {
        "D"@
    } else {
        "F"@
    }
}

/// The letter grade of a health score, given its whole points (the score
/// truncated towards zero, so 84.9 grades as 84).
pub fn letter_grade(points: u32) -> (r: &'static str)
    ensures
        r@ == grade_of(points),
{
    if points >= 85 {
        "A"
    } else if points >= 70 {
        "B"
    } else if points >= 55 {
        "C"
    } else if points >= 40 {
        "D"
    } else {
        "F"
    }
}

/// Whether a finding's sort key is `k`.
pub open spec fn key_is(by: SortBy, k: int) -> spec_fn(HealthFinding) -> bool {
    |f: HealthFinding| sort_key(f, by) == k
}

/// Whether `s` is in descending key order.
pub open spec fn desc_by(s: Seq<HealthFinding>, by: SortBy) -> bool {
    forall|i: int, j: int| 0 <= i < j < s.len() ==> sort_key(#[trigger] s[i], by) >= sort_key(#[trigger] s[j], by)
}

/// Inserting keeps the order descending, adds `x`, and puts `x` after the
/// findings with its key.
proof fn lemma_insert_desc(s: Seq<HealthFinding>, x: HealthFinding, by: SortBy, k: int)
    ensures
        desc_by(s, by) ==> desc_by(insert_desc(s, x, by), by),
        insert_desc(s, x, by).to_multiset() == s.to_multiset().insert(x),
        insert_desc(s, x, by).filter(key_is(by, k)) == if sort_key(x, by) == k {
            s.filter(key_is(by, k)).push(x)
        } else {
            s.filter(key_is(by, k))
        },
    decreases s.len(),
{
    broadcast use group_to_multiset_ensures;

    let p = key_is(by, k);
    if s.len() == 0 {
        assert(seq![x] =~= Seq::<HealthFinding>::empty().push(x));
        Seq::<HealthFinding>::empty().lemma_filter_push(x, p);
    } else if sort_key(s.last(), by) >= sort_key(x, by) {
        s.lemma_filter_push(x, p);
    } else {
        let d = s.drop_last();
        let y = s.last();
        lemma_insert_desc(d, x, by, k);
        let t = insert_desc(d, x, by);
        t.lemma_filter_push(y, p);
        d.lemma_filter_push(y, p);
        assert(s =~= d.push(y));
        if desc_by(s, by) {
            assert(desc_by(d, by)) by {
                assert forall|i: int, j: int| 0 <= i < j < d.len() implies sort_key(#[trigger] d[i], by) >= sort_key(
                    #[trigger] d[j],
                    by,
                ) by {
                    assert(d[i] == s[i] && d[j] == s[j]);
                }
            }
            assert forall|m: int| 0 <= m < t.len() implies sort_key(#[trigger] t[m], by) >= sort_key(y, by) by {
                assert(t.to_multiset().count(t[m]) > 0);
                if t[m] != x {
                    assert(d.to_multiset().count(t[m]) > 0);
                    assert(d.contains(t[m]));
                    let q = choose|q: int| 0 <= q < d.len() && d[q] == t[m];
                    assert(s[q] == d[q]);
                    assert(sort_key(s[q], by) >= sort_key(s[s.len() - 1], by));
                }
            }
            let r = t.push(y);
            assert forall|i: int, j: int| 0 <= i < j < r.len() implies sort_key(#[trigger] r[i], by) >= sort_key(
                #[trigger] r[j],
                by,
            ) by {
                if j == t.len() {
                    assert(r[i] == t[i]);
                } else {
                    assert(r[i] == t[i] && r[j] == t[j]);
                }
            }
        }
        assert(t.push(y).to_multiset() =~= d.to_multiset().insert(x).insert(y));
        assert(s.to_multiset().insert(x) =~= d.to_multiset().insert(y).insert(x));
    }
}

/// `sort_findings` sorts: the result is in descending key order, holds the
/// same findings, and findings with equal keys keep their original order.
pub proof fn law_sorted_desc_is_stable_sort(s: Seq<HealthFinding>, by: SortBy, k: int)
    ensures
        desc_by(sorted_desc(s, by), by),
        sorted_desc(s, by).to_multiset() == s.to_multiset(),
        sorted_desc(s, by).filter(key_is(by, k)) == s.filter(key_is(by, k)),
    decreases s.len(),
{
    broadcast use group_to_multiset_ensures;

    if s.len() == 0 {
        assert(s =~= Seq::<HealthFinding>::empty());
        assert(sorted_desc(s, by) =~= Seq::<HealthFinding>::empty());
    } else {
        let d = s.drop_last();
        let y = s.last();
        law_sorted_desc_is_stable_sort(d, by, k);
        lemma_insert_desc(sorted_desc(d, by), y, by, k);
        d.lemma_filter_push(y, key_is(by, k));
        assert(s =~= d.push(y));
    }
}

} // verus!
