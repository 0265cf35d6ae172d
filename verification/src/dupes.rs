//! Code duplication: detection modes, `--trace` specs, clone-group
//! baselines, scoping of clone groups, and the statistics recomputed after
//! groups are dropped.

use vstd::prelude::*;
use crate::keyset::{fx_keys, fx_lines, fx_lines_insert, fx_lines_new, fx_set_contains, key_set};
use vstd::set_lib::{lemma_len_subset, lemma_len_union};
use crate::order::{sort_chars, sort_seq};
use crate::paths::{forward_slashes, path_components, relative_path, relative_to, spec_components};
use crate::scope::{among, Scope};
use crate::text::{
    all_digits, chars_of, decimal, decimal_exec, digit_char, digits_value, extend_all,
    join, join_chars, lemma_rfind_char_is,
    lemma_take_map_push, parse_usize, parsed_usize, replace_char_exec, rfind_char, str_rsplit_once,
    string_of, string_views, views,
};

verus! {

/// How aggressively clones are normalised before comparison.
#[derive(Clone, Copy, Debug, PartialEq, Eq, Structural)]
pub enum DupesMode {
    Strict,
    Mild,
    Weak,
    Semantic,
}

/// The detection mode of a configuration file.
#[derive(Clone, Copy, Debug, PartialEq, Eq, Structural)]
pub enum DetectionMode {
    Strict,
    Mild,
    Weak,
    Semantic,
}

/// The command-line mode of a configured detection mode.
pub open spec fn mode_of(mode: DetectionMode) -> DupesMode {
    match mode {
        DetectionMode::Strict => DupesMode::Strict,
        DetectionMode::Mild => DupesMode::Mild,
        DetectionMode::Weak => DupesMode::Weak,
        DetectionMode::Semantic => DupesMode::Semantic,
    }
}

impl From<DetectionMode> for DupesMode {
    fn from(mode: DetectionMode) -> (r: DupesMode) {
        match mode {
            DetectionMode::Strict => DupesMode::Strict,
            DetectionMode::Mild => DupesMode::Mild,
            DetectionMode::Weak => DupesMode::Weak,
            DetectionMode::Semantic => DupesMode::Semantic,
        }
    }
}

impl vstd::std_specs::convert::FromSpecImpl<DetectionMode> for DupesMode {
    open spec fn obeys_from_spec() -> bool {
        true
    }

    open spec fn from_spec(v: DetectionMode) -> DupesMode {
        mode_of(v)
    }
}

/// The detection mode a command-line mode selects.
pub fn detection_mode(mode: DupesMode) -> (r: DetectionMode)
    ensures
        mode_of(r) == mode,
{
    match mode {
        DupesMode::Strict => DetectionMode::Strict,
        DupesMode::Mild => DetectionMode::Mild,
        DupesMode::Weak => DetectionMode::Weak,
        DupesMode::Semantic => DetectionMode::Semantic,
    }
}

/// Message for a `--trace` value without a colon.
pub open spec fn trace_format_message() -> Seq<char> {
    "--trace requires FILE:LINE format (e.g., src/utils.ts:42)"@
}

/// Message for a `--trace` value whose line is not a positive integer.
pub open spec fn trace_line_message() -> Seq<char> {
    "--trace LINE must be a positive integer"@
}

/// What a `--trace` value `FILE:LINE` parses to: split at the last colon,
/// the file before it and the line after it, which must be a positive
/// integer; else the message for the malformed value.
pub open spec fn trace_parse(spec: Seq<char>) -> Result<(Seq<char>, nat), Seq<char>> {
    match rfind_char(spec, ':') {
        None => Err(trace_format_message()),
        Some(k) => match parsed_usize(spec.skip(k + 1 as int)) {
            Some(n) => if n > 0 {
                Ok((spec.take(k as int), n))
            } else {
                Err(trace_line_message())
            },
            None => Err(trace_line_message()),
        },
    }
}

/// The view of a parse result.
pub open spec fn trace_view(r: Result<(&str, usize), &'static str>) -> Result<(Seq<char>, nat), Seq<char>> {
    match r {
        Ok((f, l)) => Ok((f@, l as nat)),
        Err(m) => Err(m@),
    }
}

/// Parses a `--trace` value `FILE:LINE`, split at the last colon; the line
/// must be a positive integer.
pub fn parse_trace_spec(spec: &str) -> (r: Result<(&str, usize), &'static str>)
    ensures
        trace_view(r) == trace_parse(spec@),
{
    proof {
        reveal_strlit("--trace requires FILE:LINE format (e.g., src/utils.ts:42)");
        reveal_strlit("--trace LINE must be a positive integer");
    }
    match str_rsplit_once(spec, ':') {
        None => Err("--trace requires FILE:LINE format (e.g., src/utils.ts:42)"),
        Some((file_path, line_str)) => match parse_usize(line_str) {
            Some(l) => if l > 0 {
                Ok((file_path, l))
            } else {
                Err("--trace LINE must be a positive integer")
            },
            None => Err("--trace LINE must be a positive integer"),
        },
    }
}

/// One occurrence of a clone.
pub struct CloneInstance {
    pub file: String,
    pub start_line: usize,
    pub end_line: usize,
    pub start_col: usize,
    pub end_col: usize,
    pub fragment: String,
}

/// Code blocks that are clones of each other.
pub struct CloneGroup {
    pub instances: Vec<CloneInstance>,
    pub token_count: usize,
    pub line_count: usize,
}

/// Duplication statistics (the percentage of duplicated lines is derived
/// from `duplicated_lines` and `total_lines` where it is shown).
#[derive(Clone, Copy, Debug, PartialEq, Eq, Structural)]
pub struct DuplicationStats {
    pub total_files: usize,
    pub files_with_clones: usize,
    pub total_lines: usize,
    pub duplicated_lines: usize,
    pub total_tokens: usize,
    pub duplicated_tokens: usize,
    pub clone_groups: usize,
    pub clone_instances: usize,
}

/// The clone groups of a duplication analysis with their statistics.
pub struct DuplicationReport {
    pub clone_groups: Vec<CloneGroup>,
    pub stats: DuplicationStats,
}

/// Key of one clone instance: `relative_path:start-end` with forward
/// slashes.
pub open spec fn instance_key(i: CloneInstance, root: Seq<char>) -> Seq<char> {
    forward_slashes(relative_to(i.file@, root)) + seq![':'] + decimal(i.start_line as nat) + seq!['-']
        + decimal(i.end_line as nat)
}

/// Key of a clone group: its instance keys, sorted, joined with `|`.
pub open spec fn clone_key(g: CloneGroup, root: Seq<char>) -> Seq<char> {
    join(sort_seq(g.instances@.map_values(|i: CloneInstance| instance_key(i, root))), seq!['|'])
}

/// Key of one clone instance.
fn instance_key_exec(i: &CloneInstance, root: &str) -> (k: Vec<char>)
    ensures
        k@ == instance_key(*i, root@),
{
    let rel = relative_path(i.file.as_str(), root);
    let mut k = replace_char_exec(rel.as_str(), '\\', '/');
    k.push(':');
    let a = decimal_exec(i.start_line as u64);
    extend_all(&mut k, &a);
    k.push('-');
    let b = decimal_exec(i.end_line as u64);
    extend_all(&mut k, &b);
    proof {
        assert(k@ =~= instance_key(*i, root@));
    }
    k
}

/// Stable key of a clone group, independent of the order of its instances.
pub fn clone_group_key(group: &CloneGroup, root: &str) -> (k: Vec<char>)
    ensures
        k@ == clone_key(*group, root@),
{
    let ghost f = |i: CloneInstance| instance_key(i, root@);
    let mut parts: Vec<Vec<char>> = Vec::new();
    let mut j: usize = 0;
    while j < group.instances.len()
        invariant
            j <= group.instances@.len(),
            f == (|i: CloneInstance| instance_key(i, root@)),
            views(parts@) == group.instances@.take(j as int).map_values(f),
        decreases group.instances@.len() - j,
    {
        let p = instance_key_exec(&group.instances[j], root);
        let ghost before = parts@;
        parts.push(p);
        proof {
            lemma_take_map_push(group.instances@, f, j as int);
            assert(views(parts@) =~= views(before).push(p@));
        }
        j = j + 1;
    }
    assert(group.instances@.take(group.instances@.len() as int) =~= group.instances@);
    let sorted = sort_chars(&parts);
    let mut sep: Vec<char> = Vec::new();
    sep.push('|');
    assert(sep@ =~= seq!['|']);
    join_chars(&sorted, &sep)
}

/// A duplication baseline: the keys of the clone groups it records.
pub struct DuplicationBaselineData {
    pub clone_groups: Vec<String>,
}

impl DuplicationBaselineData {
    /// Records the keys of every clone group of a report, in order.
    pub fn from_report(report: &DuplicationReport, root: &str) -> (b: DuplicationBaselineData)
        ensures
            string_views(b.clone_groups@) == report.clone_groups@.map_values(
                |g: CloneGroup| clone_key(g, root@),
            ),
    {
        let ghost f = |g: CloneGroup| clone_key(g, root@);
        let mut keys: Vec<String> = Vec::new();
        let mut i: usize = 0;
        while i < report.clone_groups.len()
            invariant
                i <= report.clone_groups@.len(),
                f == (|g: CloneGroup| clone_key(g, root@)),
                string_views(keys@) == report.clone_groups@.take(i as int).map_values(f),
            decreases report.clone_groups@.len() - i,
        {
            let k = clone_group_key(&report.clone_groups[i], root);
            let ks = string_of(&k);
            let ghost before = keys@;
            keys.push(ks);
            proof {
                lemma_take_map_push(report.clone_groups@, f, i as int);
                assert(string_views(keys@) =~= string_views(before).push(ks@));
            }
            i = i + 1;
        }
        assert(report.clone_groups@.take(report.clone_groups@.len() as int) =~= report.clone_groups@);
        DuplicationBaselineData { clone_groups: keys }
    }
}

/// Whether a clone group is absent from a baseline.
pub open spec fn group_is_new(g: CloneGroup, baseline: Seq<String>, root: Seq<char>) -> bool {
    !string_views(baseline).contains(clone_key(g, root))
}

/// Keeps the clone groups absent from the baseline.
fn retain_new_groups(v: &mut Vec<CloneGroup>, baseline: &Vec<String>, root: &str)
    ensures
        final(v)@ == old(v)@.filter(|g: CloneGroup| group_is_new(g, baseline@, root@)),
{
    let ghost pred = |g: CloneGroup| group_is_new(g, baseline@, root@);
    let mut all: Vec<CloneGroup> = Vec::new();
    std::mem::swap(v, &mut all);
    let ghost s = all@;
    let known = key_set(baseline);
    for x in it: all
        invariant
            pred == (|g: CloneGroup| group_is_new(g, baseline@, root@)),
            forall|q: Seq<char>| #[trigger] fx_keys(known).contains(q) <==> string_views(baseline@).contains(q),
            it.seq() == s,
            v@ == s.take(it.index() as int).filter(pred),
    {
        let ghost i = it.index();
        proof {
            assert(s.take(i + 1) =~= s.take(i as int).push(x));
            s.take(i as int).lemma_filter_push(x, pred);
        }
        let k = string_of(&clone_group_key(&x, root));
        if !fx_set_contains(&known, k.as_str()) {
            v.push(x);
        }
    }
    assert(s.take(s.len() as int) =~= s);
}

/// Whether some instance of the group lies in one of the files.
pub open spec fn group_touches(g: CloneGroup, files: Seq<Seq<char>>) -> bool {
    exists|i: int| 0 <= i < g.instances@.len() && #[trigger] (among(files))(g.instances@[i].file@)
}

/// Whether some instance of the group is in the scope.
fn any_instance_in(g: &CloneGroup, scope: &Scope, Ghost(files): Ghost<Seq<Seq<char>>>) -> (b: bool)
    requires
        scope@ == among(files),
    ensures
        b == group_touches(*g, files),
{
    let mut i: usize = 0;
    while i < g.instances.len()
        invariant
            i <= g.instances@.len(),
            scope@ == among(files),
            forall|j: int| 0 <= j < i ==> !#[trigger] (among(files))(g.instances@[j].file@),
        decreases g.instances@.len() - i,
    {
        if scope.includes(g.instances[i].file.as_str()) {
            return true;
        }
        i = i + 1;
    }
    false
}

/// The instances of all groups, group by group.
pub open spec fn all_instances(groups: Seq<CloneGroup>) -> Seq<CloneInstance>
    decreases groups.len(),
{
    if groups.len() == 0 {
        Seq::empty()
    } else {
        all_instances(groups.drop_last()) + groups.last().instances@
    }
}

/// The identity of an instance's file: its path components, which is what
/// path equality compares.
pub open spec fn file_id(i: CloneInstance) -> Seq<Seq<char>> {
    spec_components(i.file@)
}

/// The distinct files that hold instances.
pub open spec fn clone_files(insts: Seq<CloneInstance>) -> Set<Seq<Seq<char>>> {
    insts.map_values(|i: CloneInstance| file_id(i)).to_set()
}

/// Whether an instance covers line `p.1` of file `p.0`.
pub open spec fn covers(i: CloneInstance, p: (Seq<Seq<char>>, int)) -> bool {
    p.0 == file_id(i) && i.start_line <= p.1 <= i.end_line
}

/// The duplicated lines: every (file, line) pair that some instance covers.
pub open spec fn covered_lines(insts: Seq<CloneInstance>) -> Set<(Seq<Seq<char>>, int)> {
    Set::new(|p: (Seq<Seq<char>>, int)| exists|k: int| 0 <= k < insts.len() && #[trigger] covers(insts[k], p))
}

/// Lines `lo..=hi` of file `f`.
pub open spec fn span(f: Seq<Seq<char>>, lo: int, hi: int) -> Set<(Seq<Seq<char>>, int)> {
    Set::new(|p: (Seq<Seq<char>>, int)| p.0 == f && lo <= p.1 <= hi)
}

/// Tokens in duplicated code: each group's token count once per instance.
pub open spec fn token_total(groups: Seq<CloneGroup>) -> int
    decreases groups.len(),
{
    if groups.len() == 0 {
        0
    } else {
        token_total(groups.drop_last()) + groups.last().token_count * groups.last().instances@.len()
    }
}

/// A span of lines is finite.
proof fn lemma_span_finite(f: Seq<Seq<char>>, lo: int, hi: int)
    ensures
        span(f, lo, hi).finite(),
    decreases hi - lo + 1,
{
    if hi < lo {
        assert(span(f, lo, hi) =~= Set::empty());
    } else {
        lemma_span_finite(f, lo, hi - 1);
        assert(span(f, lo, hi) =~= span(f, lo, hi - 1).insert((f, hi)));
    }
}

/// One more instance adds its span to the covered lines.
proof fn lemma_covered_push(insts: Seq<CloneInstance>, k: int)
    requires
        0 <= k < insts.len(),
    ensures
        covered_lines(insts.take(k + 1)) == covered_lines(insts.take(k)).union(
            span(file_id(insts[k]), insts[k].start_line as int, insts[k].end_line as int),
        ),
{
    let a = covered_lines(insts.take(k + 1));
    let b = covered_lines(insts.take(k)).union(
        span(file_id(insts[k]), insts[k].start_line as int, insts[k].end_line as int),
    );
    assert forall|p: (Seq<Seq<char>>, int)| a.contains(p) <==> b.contains(p) by {
        if a.contains(p) {
            let j = choose|j: int| 0 <= j < k + 1 && #[trigger] covers(insts.take(k + 1)[j], p);
            if j < k {
                assert(covers(insts.take(k)[j], p));
            }
        }
        if b.contains(p) {
            if covered_lines(insts.take(k)).contains(p) {
                let j = choose|j: int| 0 <= j < k && #[trigger] covers(insts.take(k)[j], p);
                assert(covers(insts.take(k + 1)[j], p));
            } else {
                assert(covers(insts.take(k + 1)[k], p));
            }
        }
    }
    assert(a =~= b);
}

/// The covered lines of finitely many instances are finite.
proof fn lemma_covered_finite(insts: Seq<CloneInstance>, k: int)
    requires
        0 <= k <= insts.len(),
    ensures
        covered_lines(insts.take(k)).finite(),
    decreases k,
{
    if k == 0 {
        assert(covered_lines(insts.take(0)) =~= Set::empty());
    } else {
        lemma_covered_finite(insts, k - 1);
        lemma_covered_push(insts, k - 1);
        lemma_span_finite(
            file_id(insts[k - 1]),
            insts[k - 1].start_line as int,
            insts[k - 1].end_line as int,
        );
    }
}

/// The instances of the first groups are a prefix of all instances, and
/// their tokens a part of the total.
proof fn lemma_group_prefix(groups: Seq<CloneGroup>, k: int)
    requires
        0 <= k <= groups.len(),
    ensures
        all_instances(groups.take(k)).len() <= all_instances(groups).len(),
        all_instances(groups.take(k)) == all_instances(groups).take(all_instances(groups.take(k)).len() as int),
        0 <= token_total(groups.take(k)) <= token_total(groups),
    decreases groups.len() - k,
{
    if k < groups.len() {
        lemma_group_prefix(groups, k + 1);
        assert(groups.take(k + 1).drop_last() =~= groups.take(k));
        let g = groups[k];
        assert(g.token_count * g.instances@.len() >= 0) by (nonlinear_arith)
            requires
                g.token_count >= 0,
                g.instances@.len() >= 0,
        ;
        let a = all_instances(groups.take(k));
        let b = all_instances(groups.take(k + 1));
        assert(groups.take(k + 1).last() == g);
        assert(b == a + g.instances@);
        assert(token_total(groups.take(k + 1)) == token_total(groups.take(k)) + g.token_count
            * g.instances@.len());
        lemma_token_total_nonneg(groups.take(k));
        assert(a =~= b.take(a.len() as int));
    } else {
        assert(groups.take(k) =~= groups);
        lemma_token_total_nonneg(groups);
    }
}

/// Token totals are not negative.
proof fn lemma_token_total_nonneg(groups: Seq<CloneGroup>)
    ensures
        token_total(groups) >= 0,
    decreases groups.len(),
{
    if groups.len() > 0 {
        lemma_token_total_nonneg(groups.drop_last());
        let g = groups.last();
        assert(g.token_count * g.instances@.len() >= 0) by (nonlinear_arith)
            requires
                g.token_count >= 0,
                g.instances@.len() >= 0,
        ;
    }
}

/// The path components of each file, as they are compared.
pub open spec fn file_views(files: Seq<Vec<String>>) -> Seq<Seq<Seq<char>>> {
    files.map_values(|f: Vec<String>| string_views(f@))
}

/// Whether two component lists are equal.
fn components_eq(a: &Vec<String>, b: &Vec<String>) -> (r: bool)
    ensures
        r == (string_views(a@) == string_views(b@)),
{
    if a.len() != b.len() {
        assert(string_views(a@).len() != string_views(b@).len());
        return false;
    }
    let mut i: usize = 0;
    while i < a.len()
        invariant
            i <= a@.len(),
            a@.len() == b@.len(),
            forall|j: int| 0 <= j < i ==> a@[j]@ == b@[j]@,
        decreases a@.len() - i,
    {
        let x = chars_of(a[i].as_str());
        let y = chars_of(b[i].as_str());
        if !crate::text::chars_eq(&x, &y) {
            assert(string_views(a@)[i as int] != string_views(b@)[i as int]);
            return false;
        }
        i = i + 1;
    }
    assert(string_views(a@) =~= string_views(b@));
    true
}

/// Whether `s` is `report`'s statistics recomputed from its clone groups:
/// distinct files with clones, duplicated (file, line) pairs, tokens of
/// every instance, group and instance counts; the totals are kept.
pub open spec fn recomputed(s: DuplicationStats, report: &DuplicationReport) -> bool {
    let insts = all_instances(report.clone_groups@);
    &&& s.total_files == report.stats.total_files
    &&& s.total_lines == report.stats.total_lines
    &&& s.total_tokens == report.stats.total_tokens
    &&& s.files_with_clones == clone_files(insts).len()
    &&& s.duplicated_lines == covered_lines(insts).len()
    &&& s.duplicated_tokens == token_total(report.clone_groups@)
    &&& s.clone_groups == report.clone_groups@.len()
    &&& s.clone_instances == insts.len()
}

/// Whether the counts of the statistics of these clone groups fit in
/// `usize`.
pub open spec fn groups_fit(groups: Seq<CloneGroup>) -> bool {
    let insts = all_instances(groups);
    &&& insts.len() <= usize::MAX
    &&& token_total(groups) <= usize::MAX
    &&& covered_lines(insts).len() <= usize::MAX
}

/// Whether the counts of a report's recomputed statistics fit in `usize`.
pub open spec fn stats_fit(report: &DuplicationReport) -> bool {
    groups_fit(report.clone_groups@)
}

/// Recomputes duplication statistics after clone groups were dropped.
/// Lines covered by overlapping instances of one file count once.
pub fn recompute_stats(report: &DuplicationReport) -> (s: DuplicationStats)
    requires
        stats_fit(report),
    ensures
        recomputed(s, report),
{
    let ghost groups = report.clone_groups@;
    let ghost all = all_instances(groups);
    let mut files: Vec<Vec<String>> = Vec::new();
    let mut ents: Vec<(usize, usize, usize)> = Vec::new();
    let mut tokens: usize = 0;
    let mut gi: usize = 0;
    assert(groups.take(0) =~= Seq::<CloneGroup>::empty());
    assert(all_instances(groups.take(0)) =~= Seq::<CloneInstance>::empty());
    while gi < report.clone_groups.len()
        invariant
            gi <= groups.len(),
            groups == report.clone_groups@,
            all == all_instances(groups),
            stats_fit(report),
            tokens == token_total(groups.take(gi as int)),
            ents@.len() == all_instances(groups.take(gi as int)).len(),
            ents@.len() <= all.len(),
            all_instances(groups.take(gi as int)) == all.take(ents@.len() as int),
            file_views(files@).no_duplicates(),
            file_views(files@).to_set() == clone_files(all.take(ents@.len() as int)),
            forall|k: int| 0 <= k < ents@.len() ==> {
                &&& (#[trigger] ents@[k]).0 < files@.len()
                &&& file_views(files@)[ents@[k].0 as int] == file_id(all[k])
                &&& ents@[k].1 == all[k].start_line
                &&& ents@[k].2 == all[k].end_line
            },
        decreases groups.len() - gi,
    {
        let g = &report.clone_groups[gi];
        proof {
            lemma_group_prefix(groups, gi + 1);
            assert(groups.take(gi + 1).drop_last() =~= groups.take(gi as int));
            assert(all_instances(groups.take(gi + 1)) == all_instances(groups.take(gi as int)) + g.instances@);
        }
        let ghost base = ents@.len();
        let mut j: usize = 0;
        while j < g.instances.len()
            invariant
                j <= g.instances@.len(),
                groups == report.clone_groups@,
                g == report.clone_groups@[gi as int],
                gi < groups.len(),
                all == all_instances(groups),
                base + g.instances@.len() <= all.len(),
                all_instances(groups.take(gi + 1)) == all.take((base + g.instances@.len()) as int),
                all_instances(groups.take(gi + 1)) == all_instances(groups.take(gi as int)) + g.instances@,
                ents@.len() == base + j,
                base == all_instances(groups.take(gi as int)).len(),
                file_views(files@).no_duplicates(),
                file_views(files@).to_set() == clone_files(all.take(ents@.len() as int)),
                forall|k: int| 0 <= k < ents@.len() ==> {
                    &&& (#[trigger] ents@[k]).0 < files@.len()
                    &&& file_views(files@)[ents@[k].0 as int] == file_id(all[k])
                    &&& ents@[k].1 == all[k].start_line
                    &&& ents@[k].2 == all[k].end_line
                },
            decreases g.instances@.len() - j,
        {
            let inst = &g.instances[j];
            let ghost k = ents@.len() as int;
            assert(all[k] == g.instances@[j as int]) by {
                assert(all.take((base + g.instances@.len()) as int)[k] == all[k]);
                assert((all_instances(groups.take(gi as int)) + g.instances@)[k] == g.instances@[j as int]);
            }
            let comps = path_components(inst.file.as_str());
            assert(string_views(comps@) == file_id(*inst));
            let mut m: usize = 0;
            let mut found = false;
            while m < files.len() && !found
                invariant
                    m <= files@.len(),
                    found ==> m < files@.len() && file_views(files@)[m as int] == string_views(comps@),
                    forall|q: int| 0 <= q < m ==> file_views(files@)[q] != string_views(comps@),
                decreases files@.len() - m + (if found { 0int } else { 1int }),
            {
                if components_eq(&files[m], &comps) {
                    found = true;
                } else {
                    m = m + 1;
                }
            }
            let ghost fv_before = file_views(files@);
            let ghost cf_before = all.take(k).map_values(|i: CloneInstance| file_id(i));
            proof {
                assert(all.take(k + 1).map_values(|i: CloneInstance| file_id(i)) =~= cf_before.push(
                    file_id(all[k]),
                ));
                cf_before.lemma_push_to_set_commute(file_id(all[k]));
            }
            if !found {
                files.push(comps);
                proof {
                    assert(file_views(files@) =~= fv_before.push(file_id(all[k])));
                    fv_before.lemma_push_to_set_commute(file_id(all[k]));
                    assert forall|q: int| 0 <= q < fv_before.len() implies fv_before[q] != file_id(all[k]) by {}
                    assert(!fv_before.contains(file_id(all[k])));
                }
                m = files.len() - 1;
            } else {
                proof {
                    assert(file_views(files@)[m as int] == file_id(all[k]));
                    assert(fv_before.to_set().contains(file_id(all[k])));
                    assert(fv_before.to_set().insert(file_id(all[k])) =~= fv_before.to_set());
                }
            }
            ents.push((m, inst.start_line, inst.end_line));
            j = j + 1;
        }
        proof {
            assert(g.instances@.len() as int >= 0);
            lemma_token_total_nonneg(groups.take(gi + 1));
            assert(groups.take(gi + 1).last() == g);
            assert(token_total(groups.take(gi + 1)) == tokens + g.token_count * g.instances@.len());
        }
        let prod = g.token_count as u128 * g.instances.len() as u128;
        assert(tokens + prod <= usize::MAX);
        tokens = tokens + prod as usize;
        gi = gi + 1;
    }
    proof {
        assert(groups.take(groups.len() as int) =~= groups);
        assert(all.take(all.len() as int) =~= all);
        lemma_covered_finite(all, all.len() as int);
    }
    let n = ents.len();
    let ghost mut covered: Set<(Seq<Seq<char>>, int)> = Set::empty();
    let mut dup_lines: usize = 0;
    let mut lines = fx_lines_new();
    let mut k: usize = 0;
    assert(covered_lines(all.take(0)) =~= Set::empty());
    while k < n
        invariant
            k <= n,
            n == ents@.len(),
            n == all.len(),
            stats_fit(report),
            all == all_instances(report.clone_groups@),
            covered_lines(all).finite(),
            file_views(files@).no_duplicates(),
            forall|q: int| 0 <= q < ents@.len() ==> {
                &&& (#[trigger] ents@[q]).0 < files@.len()
                &&& file_views(files@)[ents@[q].0 as int] == file_id(all[q])
                &&& ents@[q].1 == all[q].start_line
                &&& ents@[q].2 == all[q].end_line
            },
            covered == covered_lines(all.take(k as int)),
            covered.finite(),
            dup_lines == covered.len(),
            forall|fi: usize, ln: usize| #[trigger] fx_lines(lines).contains((fi, ln)) ==> fi < files@.len()
                && covered.contains((file_views(files@)[fi as int], ln as int)),
            forall|x: (Seq<Seq<char>>, int)| #[trigger] covered.contains(x) ==> exists|fi: usize, ln: usize|
                fi < files@.len() && file_views(files@)[fi as int] == x.0 && ln == x.1
                && #[trigger] fx_lines(lines).contains((fi, ln)),
        decreases n - k,
    {
        let (fk, sk, ek) = ents[k];
        let ghost f = file_id(all[k as int]);
        let ghost before = covered;
        let mut l: u128 = sk as u128;
        assert(covered =~= before.union(span(f, sk as int, l - 1)));
        while l <= ek as u128
            invariant
                k < n,
                n == ents@.len(),
                n == all.len(),
                stats_fit(report),
                all == all_instances(report.clone_groups@),
                covered_lines(all).finite(),
                file_views(files@).no_duplicates(),
                forall|q: int| 0 <= q < ents@.len() ==> {
                    &&& (#[trigger] ents@[q]).0 < files@.len()
                    &&& file_views(files@)[ents@[q].0 as int] == file_id(all[q])
                    &&& ents@[q].1 == all[q].start_line
                    &&& ents@[q].2 == all[q].end_line
                },
                ents@[k as int] == (fk, sk, ek),
                f == file_id(all[k as int]),
                before == covered_lines(all.take(k as int)),
                sk <= l,
                l <= ek as u128 + 1 || l == sk as u128,
                covered == before.union(span(f, sk as int, l - 1)),
                covered.finite(),
                dup_lines == covered.len(),
                forall|fi: usize, ln: usize| #[trigger] fx_lines(lines).contains((fi, ln)) ==> fi < files@.len()
                    && covered.contains((file_views(files@)[fi as int], ln as int)),
                forall|x: (Seq<Seq<char>>, int)| #[trigger] covered.contains(x) ==> exists|fi: usize, ln: usize|
                    fi < files@.len() && file_views(files@)[fi as int] == x.0 && ln == x.1
                    && #[trigger] fx_lines(lines).contains((fi, ln)),
            decreases ek as u128 + 1 - l,
        {
            let ghost p = (f, l as int);
            let ghost old_lines = fx_lines(lines);
            let ghost cov0 = covered;
            let fresh = fx_lines_insert(&mut lines, (fk, l as usize));
            let seen = !fresh;
            proof {
                assert(!span(f, sk as int, l - 1).contains(p));
                if seen {
                    assert(covered.contains(p));
                    assert(before.contains(p));
                } else if covered.contains(p) {
                    let (fi, ln) = choose|fi: usize, ln: usize|
                        fi < files@.len() && file_views(files@)[fi as int] == p.0 && ln == p.1
                        && #[trigger] old_lines.contains((fi, ln));
                    assert(file_views(files@)[fi as int] == file_views(files@)[fk as int]);
                    assert(fi == fk);
                    assert(false);
                }
            }
            if !seen {
                proof {
                    let next = covered.insert(p);
                    assert forall|x: (Seq<Seq<char>>, int)| next.contains(x) implies covered_lines(all).contains(x) by {
                        if before.contains(x) {
                            let q = choose|q: int| 0 <= q < k && #[trigger] covers(all.take(k as int)[q], x);
                            assert(covers(all[q], x));
                        } else {
                            assert(covers(all[k as int], x));
                        }
                    }
                    lemma_len_subset(next, covered_lines(all));
                }
                dup_lines = dup_lines + 1;
                proof {
                    covered = covered.insert(p);
                }
            }
            proof {
                assert(before.union(span(f, sk as int, l as int)) =~= before.union(span(f, sk as int, l - 1)).insert(p));
                if seen {
                    assert(covered.insert(p) =~= covered);
                }
                assert(file_views(files@)[fk as int] == f);
                assert forall|x: (Seq<Seq<char>>, int)| #[trigger] covered.contains(x) implies exists|fi: usize, ln: usize|
                    fi < files@.len() && file_views(files@)[fi as int] == x.0 && ln == x.1
                    && #[trigger] fx_lines(lines).contains((fi, ln)) by {
                    if x == p {
                        assert(fx_lines(lines).contains((fk, l as usize)));
                    } else {
                        assert(cov0.contains(x));
                        let (fi, ln) = choose|fi: usize, ln: usize|
                            fi < files@.len() && file_views(files@)[fi as int] == x.0 && ln == x.1
                            && #[trigger] old_lines.contains((fi, ln));
                        assert(fx_lines(lines).contains((fi, ln)));
                    }
                }
            }
            l = l + 1;
        }
        proof {
            lemma_covered_push(all, k as int);
            assert(span(f, sk as int, l - 1) =~= span(f, sk as int, ek as int));
        }
        k = k + 1;
    }
    assert(all.take(n as int) =~= all);
    proof {
        file_views(files@).unique_seq_to_set();
    }
    DuplicationStats {
        total_files: report.stats.total_files,
        files_with_clones: files.len(),
        total_lines: report.stats.total_lines,
        duplicated_lines: dup_lines,
        total_tokens: report.stats.total_tokens,
        duplicated_tokens: tokens,
        clone_groups: report.clone_groups.len(),
        clone_instances: n,
    }
}

/// Dropping clone groups keeps every recomputed count within the counts of
/// all groups.
proof fn lemma_filter_fits(groups: Seq<CloneGroup>, pred: spec_fn(CloneGroup) -> bool)
    ensures
        all_instances(groups.filter(pred)).len() <= all_instances(groups).len(),
        token_total(groups.filter(pred)) <= token_total(groups),
        covered_lines(all_instances(groups.filter(pred))).subset_of(
            covered_lines(all_instances(groups)),
        ),
    decreases groups.len(),
{
    reveal(Seq::filter);
    if groups.len() > 0 {
        let rest = groups.drop_last();
        let g = groups.last();
        lemma_filter_fits(rest, pred);
        let fr = rest.filter(pred);
        assert(groups.filter(pred) == (if pred(g) { fr.push(g) } else { fr }));
        let a = all_instances(groups);
        let ar = all_instances(rest);
        assert(a == ar + g.instances@);
        assert(g.token_count * g.instances@.len() >= 0) by (nonlinear_arith)
            requires
                g.token_count >= 0,
                g.instances@.len() >= 0,
        ;
        if pred(g) {
            let f = fr.push(g);
            assert(f.drop_last() =~= fr);
            assert(f.last() == g);
            assert(token_total(f) == token_total(fr) + g.token_count * g.instances@.len());
            let af = all_instances(f);
            assert(af == all_instances(fr) + g.instances@);
            assert forall|p: (Seq<Seq<char>>, int)| covered_lines(af).contains(p) implies covered_lines(a).contains(p) by {
                let k = choose|k: int| 0 <= k < af.len() && #[trigger] covers(af[k], p);
                if k < all_instances(fr).len() {
                    assert(covered_lines(all_instances(fr)).contains(p)) by {
                        assert(covers(all_instances(fr)[k], p));
                    }
                    assert(covered_lines(ar).contains(p));
                    let q = choose|q: int| 0 <= q < ar.len() && #[trigger] covers(ar[q], p);
                    assert(covers(a[q], p));
                } else {
                    let q = ar.len() + (k - all_instances(fr).len());
                    assert(a[q] == af[k]);
                }
            }
        } else {
            assert forall|p: (Seq<Seq<char>>, int)| covered_lines(all_instances(fr)).contains(p) implies covered_lines(a).contains(p) by {
                assert(covered_lines(ar).contains(p));
                let q = choose|q: int| 0 <= q < ar.len() && #[trigger] covers(ar[q], p);
                assert(covers(a[q], p));
            }
        }
    }
}

/// Filtering clone groups never makes their counts grow: the counts of
/// the groups kept fit wherever those of all the groups fit.
pub proof fn law_filtered_groups_fit(groups: Seq<CloneGroup>, pred: spec_fn(CloneGroup) -> bool)
    requires
        groups_fit(groups),
    ensures
        groups_fit(groups.filter(pred)),
{
    lemma_filter_fits(groups, pred);
    let all = all_instances(groups);
    lemma_covered_finite(all, all.len() as int);
    assert(all.take(all.len() as int) =~= all);
    lemma_len_subset(covered_lines(all_instances(groups.filter(pred))), covered_lines(all));
}

/// Keeps the clone groups not recorded in the baseline, and recomputes the
/// statistics from the groups that remain.
pub fn filter_new_clone_groups(
    report: DuplicationReport,
    baseline: &DuplicationBaselineData,
    root: &str,
) -> (r: DuplicationReport)
    requires
        groups_fit(report.clone_groups@.filter(|g: CloneGroup| group_is_new(g, baseline.clone_groups@, root@))),
    ensures
        r.clone_groups@ == report.clone_groups@.filter(
            |g: CloneGroup| group_is_new(g, baseline.clone_groups@, root@),
        ),
        recomputed(r.stats, &r),
        stats_fit(&r),
        r.stats.total_files == report.stats.total_files,
        r.stats.total_lines == report.stats.total_lines,
        r.stats.total_tokens == report.stats.total_tokens,
{
    let mut r = report;
    retain_new_groups(&mut r.clone_groups, &baseline.clone_groups, root);
    r.stats = recompute_stats(&r);
    r
}

/// Keeps the clone groups with at least one instance in a changed file.
fn retain_touching(v: &mut Vec<CloneGroup>, changed: &Vec<String>)
    ensures
        final(v)@ == old(v)@.filter(|g: CloneGroup| group_touches(g, string_views(changed@))),
{
    let ghost files = string_views(changed@);
    let ghost pred = |g: CloneGroup| group_touches(g, files);
    let scope = Scope::Files(changed);
    assert(scope@ == among(files));
    let mut all: Vec<CloneGroup> = Vec::new();
    std::mem::swap(v, &mut all);
    let ghost s = all@;
    for x in it: all
        invariant
            files == string_views(changed@),
            scope@ == among(files),
            pred == (|g: CloneGroup| group_touches(g, files)),
            it.seq() == s,
            v@ == s.take(it.index() as int).filter(pred),
    {
        let ghost i = it.index();
        proof {
            assert(s.take(i + 1) =~= s.take(i as int).push(x));
            s.take(i as int).lemma_filter_push(x, pred);
        }
        if any_instance_in(&x, &scope, Ghost(files)) {
            v.push(x);
        }
    }
    assert(s.take(s.len() as int) =~= s);
}

/// The clone groups left by `--top`: the first `n` when a limit `n` is
/// given, all of them otherwise.
pub open spec fn top_groups(groups: Seq<CloneGroup>, top: Option<usize>) -> Seq<CloneGroup> {
    match top {
        Some(n) => if n < groups.len() {
            groups.take(n as int)
        } else {
            groups
        },
        None => groups,
    }
}

/// Applies `--top`: keeps at most the first `top` clone groups. The
/// statistics stay those of the report before the cut.
pub fn keep_top_groups(report: &mut DuplicationReport, top: Option<usize>)
    ensures
        final(report).clone_groups@ == top_groups(old(report).clone_groups@, top),
        final(report).stats == old(report).stats,
{
    if let Some(n) = top {
        report.clone_groups.truncate(n);
    }
}

/// Keeps the clone groups with at least one instance in a changed file, and
/// recomputes the statistics from the groups that remain.
pub fn filter_by_changed_files(report: &mut DuplicationReport, changed: &Vec<String>)
    requires
        groups_fit(old(report).clone_groups@.filter(|g: CloneGroup| group_touches(g, string_views(changed@)))),
    ensures
        final(report).clone_groups@ == old(report).clone_groups@.filter(
            |g: CloneGroup| group_touches(g, string_views(changed@)),
        ),
        recomputed(final(report).stats, final(report)),
        stats_fit(final(report)),
        final(report).stats.total_files == old(report).stats.total_files,
        final(report).stats.total_lines == old(report).stats.total_lines,
        final(report).stats.total_tokens == old(report).stats.total_tokens,
{
    retain_touching(&mut report.clone_groups, changed);
    report.stats = recompute_stats(report);
}

/// A duplication baseline taken from a report filters every one of its
/// clone groups out of that report.
pub proof fn law_clone_baseline_absorbs_own_groups(
    report: &DuplicationReport,
    baseline: &DuplicationBaselineData,
    root: Seq<char>,
)
    requires
        string_views(baseline.clone_groups@) == report.clone_groups@.map_values(
            |g: CloneGroup| clone_key(g, root),
        ),
    ensures
        report.clone_groups@.filter(|g: CloneGroup| group_is_new(g, baseline.clone_groups@, root)).len() == 0,
        groups_fit(report.clone_groups@.filter(|g: CloneGroup| group_is_new(g, baseline.clone_groups@, root))),
{
    let pred = |g: CloneGroup| group_is_new(g, baseline.clone_groups@, root);
    let v = report.clone_groups@;
    assert forall|i: int| 0 <= i < v.len() implies !pred(v[i]) by {
        assert(string_views(baseline.clone_groups@)[i] == clone_key(v[i], root));
    }
    assert(v.all(|x: CloneGroup| !pred(x)));
    v.lemma_all_neg_filter_empty(pred);
    let kept = v.filter(pred);
    assert(kept =~= Seq::<CloneGroup>::empty());
    assert(all_instances(kept) =~= Seq::<CloneInstance>::empty());
    assert(covered_lines(all_instances(kept)) =~= Set::<(Seq<Seq<char>>, int)>::empty());
}

/// Recomputed statistics count no more duplicated lines than instances
/// cover, count each file once, and have no clones exactly when there are
/// no instances.
pub proof fn law_recomputed_stats_bounds(s: DuplicationStats, report: &DuplicationReport)
    requires
        recomputed(s, report),
    ensures
        s.files_with_clones <= s.clone_instances,
        s.clone_instances == 0 ==> s.files_with_clones == 0 && s.duplicated_lines == 0,
{
    let insts = all_instances(report.clone_groups@);
    let ids = insts.map_values(|i: CloneInstance| file_id(i));
    ids.lemma_cardinality_of_set();
    if insts.len() == 0 {
        assert(covered_lines(insts) =~= Set::empty());
        assert(ids.to_set() =~= Set::empty());
    }
}

/// The number of lines an instance spans.
pub open spec fn span_len(i: CloneInstance) -> int {
    if i.end_line >= i.start_line {
        i.end_line - i.start_line + 1
    } else {
        0
    }
}

/// The lines spanned by the instances, counted with repetition.
pub open spec fn span_total(insts: Seq<CloneInstance>) -> int
    decreases insts.len(),
{
    if insts.len() == 0 {
        0
    } else {
        span_total(insts.drop_last()) + span_len(insts.last())
    }
}

/// Span totals are not negative and grow with the prefix taken.
proof fn lemma_span_total_prefix(s: Seq<CloneInstance>, k: int)
    requires
        0 <= k <= s.len(),
    ensures
        0 <= span_total(s.take(k)) <= span_total(s),
    decreases s.len(),
{
    if k < s.len() {
        lemma_span_total_prefix(s.drop_last(), k);
        assert(s.drop_last().take(k) =~= s.take(k));
    } else {
        assert(s.take(k) =~= s);
        if s.len() > 0 {
            lemma_span_total_prefix(s.drop_last(), k - 1);
            assert(s.drop_last().take(k - 1) =~= s.drop_last());
        }
    }
}

/// The instances seen up to instance `ii` of group `gi` span no more lines
/// than all instances.
proof fn lemma_spans_so_far(groups: Seq<CloneGroup>, gi: int, ii: int)
    requires
        0 <= gi < groups.len(),
        0 <= ii < groups[gi].instances@.len(),
    ensures
        span_total(all_instances(groups.take(gi)) + groups[gi].instances@.take(ii + 1)) <= span_total(
            all_instances(groups),
        ),
{
    let before = all_instances(groups.take(gi));
    let inst = groups[gi].instances@;
    lemma_group_prefix(groups, gi + 1);
    assert(groups.take(gi + 1).drop_last() =~= groups.take(gi));
    assert(groups.take(gi + 1).last() == groups[gi]);
    let all = all_instances(groups);
    let upto = all_instances(groups.take(gi + 1));
    assert(upto == before + inst);
    let m = before.len() + ii + 1;
    assert(before + inst.take(ii + 1) =~= all.take(m)) by {
        assert(upto == all.take(upto.len() as int));
        assert forall|q: int| 0 <= q < m implies (before + inst.take(ii + 1))[q] == all.take(m)[q] by {
            assert(all.take(m)[q] == all[q]);
            assert(all[q] == upto[q]);
        }
    }
    lemma_span_total_prefix(all, m);
}

/// A span holds one pair per line.
proof fn lemma_span_len(f: Seq<Seq<char>>, lo: int, hi: int)
    ensures
        span(f, lo, hi).finite(),
        span(f, lo, hi).len() == if hi >= lo { hi - lo + 1 } else { 0 },
    decreases hi - lo + 1,
{
    if hi < lo {
        assert(span(f, lo, hi) =~= Set::empty());
    } else {
        lemma_span_len(f, lo, hi - 1);
        assert(span(f, lo, hi) =~= span(f, lo, hi - 1).insert((f, hi)));
        assert(!span(f, lo, hi - 1).contains((f, hi)));
    }
}

/// Span totals add up over concatenation.
proof fn lemma_span_total_append(a: Seq<CloneInstance>, b: Seq<CloneInstance>)
    ensures
        span_total(a + b) == span_total(a) + span_total(b),
    decreases b.len(),
{
    if b.len() > 0 {
        lemma_span_total_append(a, b.drop_last());
        assert((a + b).drop_last() =~= a + b.drop_last());
        assert((a + b).last() == b.last());
    } else {
        assert(a + b =~= a);
    }
}

/// The covered lines are at most the spanned lines counted with repetition.
proof fn lemma_covered_bound(insts: Seq<CloneInstance>, k: int)
    requires
        0 <= k <= insts.len(),
    ensures
        covered_lines(insts.take(k)).len() <= span_total(insts.take(k)),
        span_total(insts.take(k)) >= 0,
    decreases k,
{
    if k == 0 {
        assert(covered_lines(insts.take(0)) =~= Set::empty());
    } else {
        lemma_covered_bound(insts, k - 1);
        lemma_covered_push(insts, k - 1);
        lemma_covered_finite(insts, k - 1);
        let i = insts[k - 1];
        lemma_span_len(file_id(i), i.start_line as int, i.end_line as int);
        lemma_len_union(
            covered_lines(insts.take(k - 1)),
            span(file_id(i), i.start_line as int, i.end_line as int),
        );
        assert(insts.take(k).drop_last() =~= insts.take(k - 1));
        assert(insts.take(k).last() == i);
    }
}

/// Checks that a report's statistics can be recomputed in `usize`: the
/// instance count, the token total and the lines spanned (which bound the
/// covered lines) all fit. Gives `true` on every report whose spanned
/// lines, counted with repetition, fit.
pub fn stats_fit_check(report: &DuplicationReport) -> (b: bool)
    ensures
        b ==> stats_fit(report),
        b <== (all_instances(report.clone_groups@).len() <= usize::MAX
            && token_total(report.clone_groups@) <= usize::MAX
            && span_total(all_instances(report.clone_groups@)) <= usize::MAX),
{
    let ghost groups = report.clone_groups@;
    let mut n: usize = 0;
    let mut t: usize = 0;
    let mut sp: usize = 0;
    let mut gi: usize = 0;
    assert(groups.take(0) =~= Seq::<CloneGroup>::empty());
    while gi < report.clone_groups.len()
        invariant
            gi <= groups.len(),
            groups == report.clone_groups@,
            n == all_instances(groups.take(gi as int)).len(),
            t == token_total(groups.take(gi as int)),
            sp == span_total(all_instances(groups.take(gi as int))),
        decreases groups.len() - gi,
    {
        let g = &report.clone_groups[gi];
        let ghost before = all_instances(groups.take(gi as int));
        proof {
            assert(groups.take(gi + 1).drop_last() =~= groups.take(gi as int));
            assert(groups.take(gi + 1).last() == groups[gi as int]);
            lemma_group_prefix(groups, gi + 1);
            lemma_group_prefix(groups, gi as int);
            lemma_span_total_append(before, g.instances@);
        }
        let ghost total_after = all_instances(groups.take(gi + 1));
        let len = g.instances.len();
        match n.checked_add(len) {
            Some(v) => n = v,
            None => {
                proof {
                    lemma_group_prefix(groups, gi + 1);
                }
                return false;
            },
        }
        let prod = match g.token_count.checked_mul(len) {
            Some(v) => v,
            None => {
                proof {
                    lemma_group_prefix(groups, gi + 1);
                    assert(g.token_count * len <= token_total(groups.take(gi + 1)));
                }
                return false;
            },
        };
        match t.checked_add(prod) {
            Some(v) => t = v,
            None => {
                proof {
                    lemma_group_prefix(groups, gi + 1);
                }
                return false;
            },
        }
        let mut ii: usize = 0;
        proof {
            lemma_span_total_prefix(before, before.len() as int);
            assert(before.take(before.len() as int) =~= before);
            assert(g.instances@.take(0) =~= Seq::<CloneInstance>::empty());
        }
        while ii < len
            invariant
                ii <= len == g.instances@.len(),
                gi < groups.len(),
                groups == report.clone_groups@,
                *g == groups[gi as int],
                before == all_instances(groups.take(gi as int)),
                sp == span_total(before) + span_total(g.instances@.take(ii as int)),
                span_total(before) >= 0,
            decreases len - ii,
        {
            let inst = &g.instances[ii];
            proof {
                assert(g.instances@.take(ii + 1).drop_last() =~= g.instances@.take(ii as int));
                assert(g.instances@.take(ii + 1).last() == g.instances@[ii as int]);
                lemma_span_total_prefix(g.instances@, ii as int);
                lemma_span_total_append(before, g.instances@.take(ii + 1));
                lemma_spans_so_far(groups, gi as int, ii as int);
            }
            let w: usize = if inst.end_line >= inst.start_line {
                match (inst.end_line - inst.start_line).checked_add(1) {
                    Some(v) => v,
                    None => {
                        return false;
                    },
                }
            } else {
                0
            };
            match sp.checked_add(w) {
                Some(v) => sp = v,
                None => {
                    return false;
                },
            }
            ii = ii + 1;
        }
        assert(g.instances@.take(len as int) =~= g.instances@);
        gi = gi + 1;
    }
    proof {
        assert(groups.take(groups.len() as int) =~= groups);
        let all = all_instances(groups);
        lemma_covered_bound(all, all.len() as int);
        assert(all.take(all.len() as int) =~= all);
    }
    true
}

/// The digits of a number are digits, without a colon, and read back as
/// the number.
proof fn lemma_decimal_digits(n: nat)
    ensures
        decimal(n).len() > 0,
        all_digits(decimal(n)),
        digits_value(decimal(n)) == n,
        decimal(n)[0] != '+',
        forall|i: int| 0 <= i < decimal(n).len() ==> #[trigger] decimal(n)[i] != ':',
    decreases n,
{
    lemma_digit_char(n % 10);
    if n >= 10 {
        lemma_decimal_digits(n / 10);
        let d = decimal(n / 10);
        let e = d.push(digit_char(n % 10));
        assert(e.drop_last() =~= d);
        assert forall|i: int| 0 <= i < e.len() implies '0' <= #[trigger] e[i] <= '9' by {
            if i < d.len() {
                assert(e[i] == d[i]);
            }
        }
        assert forall|i: int| 0 <= i < e.len() implies #[trigger] e[i] != ':' by {
            if i < d.len() {
                assert(e[i] == d[i]);
            }
        }
        assert(e[0] == d[0]);
        assert(e.last() == digit_char(n % 10));
        assert(digits_value(e) == digits_value(d) * 10 + ((digit_char(n % 10) as int) - ('0' as int)));
        assert(n == (n / 10) * 10 + n % 10);
        assert(decimal(n) == e);
    } else {
        assert(n % 10 == n);
        let e = seq![digit_char(n)];
        assert(e.drop_last() =~= Seq::<char>::empty());
        assert(digits_value(e.drop_last()) == 0);
        assert(digits_value(e) == digits_value(e.drop_last()) * 10 + ((e.last() as int) - ('0' as int)));
        assert(decimal(n) == e);
    }
}

/// The digit of `d < 10` is an ASCII digit worth `d`.
proof fn lemma_digit_char(d: nat)
    requires
        d < 10,
    ensures
        '0' <= digit_char(d) <= '9',
        (digit_char(d) as int) - ('0' as int) == d,
{
}

/// Formatting `FILE:LINE` and parsing it back gives the file and the line,
/// whatever colons the file itself holds, for every line from 1 that fits
/// in `usize`.
pub proof fn law_trace_spec_round_trip(file: Seq<char>, line: nat)
    requires
        1 <= line <= usize::MAX,
    ensures
        trace_parse(file + seq![':'] + decimal(line)) == Ok::<(Seq<char>, nat), Seq<char>>((file, line)),
{
    let d = decimal(line);
    let s = file + seq![':'] + d;
    lemma_decimal_digits(line);
    let k = file.len() as int;
    assert(s[k] == ':');
    assert forall|j: int| k < j < s.len() implies s[j] != ':' by {
        assert(s[j] == d[j - k - 1]);
    }
    lemma_rfind_char_is(s, ':', k);
    assert(s.skip(k + 1) =~= d);
    assert(s.take(k) =~= file);
}

/// Filtering a report against the baseline taken from it leaves no clone
/// group, and its recomputed statistics count no group, no instance, no
/// duplicated line, file or token.
pub proof fn law_filtering_against_own_baseline_clears_report(
    report: &DuplicationReport,
    baseline: &DuplicationBaselineData,
    root: Seq<char>,
    r: &DuplicationReport,
)
    requires
        string_views(baseline.clone_groups@) == report.clone_groups@.map_values(
            |g: CloneGroup| clone_key(g, root),
        ),
        r.clone_groups@ == report.clone_groups@.filter(
            |g: CloneGroup| group_is_new(g, baseline.clone_groups@, root),
        ),
        recomputed(r.stats, r),
    ensures
        r.clone_groups@.len() == 0,
        r.stats.clone_groups == 0,
        r.stats.clone_instances == 0,
        r.stats.duplicated_lines == 0,
        r.stats.files_with_clones == 0,
        r.stats.duplicated_tokens == 0,
{
    law_clone_baseline_absorbs_own_groups(report, baseline, root);
    assert(r.clone_groups@ =~= Seq::<CloneGroup>::empty());
    assert(all_instances(r.clone_groups@) =~= Seq::<CloneInstance>::empty());
    law_recomputed_stats_bounds(r.stats, r);
}

} // verus!
