//! The combined command: which analyses run, and which files are not
//! worth recommending as a place to start refactoring.

use vstd::prelude::*;
use crate::baseline::BaselineDeltas;
use crate::health_types::{category_label, RecommendationCategory};
use crate::paths::{path_components, path_file_name, path_file_stem, spec_components, spec_file_name, spec_file_stem};
use crate::text::{
    all_digits, chars_of, contains_exec, contains_str, decimal, decimal_exec, extend_all,
    extend_str, join, join_chars, str_eq, string_of, string_views, views,
};

verus! {

/// One of the analyses of the combined command.
#[derive(Clone, Copy, Debug, PartialEq, Eq, Structural)]
pub enum AnalysisKind {
    DeadCode,
    Dupes,
    Health,
}

/// Whether `v` holds `k`.
pub open spec fn has_kind(v: Seq<AnalysisKind>, k: AnalysisKind) -> bool {
    v.contains(k)
}

/// Whether `v` holds `k`.
fn contains_kind(v: &[AnalysisKind], k: AnalysisKind) -> (r: bool)
    ensures
        r == has_kind(v@, k),
{
    let mut i: usize = 0;
    while i < v.len()
        invariant
            i <= v@.len(),
            forall|j: int| 0 <= j < i ==> v@[j] != k,
        decreases v@.len() - i,
    {
        if v[i] == k {
            return true;
        }
        i = i + 1;
    }
    false
}

/// Which analyses run, as (dead code, duplication, health): those listed in
/// `only` when it is not empty, else all but those listed in `skip`.
pub open spec fn analyses(only: Seq<AnalysisKind>, skip: Seq<AnalysisKind>) -> (bool, bool, bool) {
    if only.len() > 0 {
        (
            has_kind(only, AnalysisKind::DeadCode),
            has_kind(only, AnalysisKind::Dupes),
            has_kind(only, AnalysisKind::Health),
        )
    } else if skip.len() > 0 {
        (
            !has_kind(skip, AnalysisKind::DeadCode),
            !has_kind(skip, AnalysisKind::Dupes),
            !has_kind(skip, AnalysisKind::Health),
        )
    } else {
        (true, true, true)
    }
}

/// Resolves which analyses to run from the `--only` and `--skip` lists
/// (the command line never gives both).
pub fn resolve_analyses(only: &[AnalysisKind], skip: &[AnalysisKind]) -> (r: (bool, bool, bool))
    ensures
        r == analyses(only@, skip@),
{
    if only.len() > 0 {
        (
            contains_kind(only, AnalysisKind::DeadCode),
            contains_kind(only, AnalysisKind::Dupes),
            contains_kind(only, AnalysisKind::Health),
        )
    } else if skip.len() > 0 {
        (
            !contains_kind(skip, AnalysisKind::DeadCode),
            !contains_kind(skip, AnalysisKind::Dupes),
            !contains_kind(skip, AnalysisKind::Health),
        )
    } else {
        (true, true, true)
    }
}

/// Directory names of tests, fixtures, examples, snapshots and benchmarks.
pub open spec fn test_dir_names() -> Seq<Seq<char>> {
    seq![
        "test"@, "tests"@, "__tests__"@, "__test__"@, "spec"@, "specs"@, "__mocks__"@,
        "__fixtures__"@, "fixtures"@, "examples"@, "example"@, "__snapshots__"@, "snapshots"@,
        "benchmark"@, "benchmarks"@, "bench"@, "e2e"@, "playground"@, "playgrounds"@
    ]
}

/// File-name infixes of tests, specs, fixtures, end-to-end tests,
/// benchmarks and stories.
pub open spec fn test_name_infixes() -> Seq<Seq<char>> {
    seq![".test."@, ".spec."@, ".fixture."@, ".e2e."@, ".bench."@, ".story."@, ".stories."@]
}

/// A generated-looking stem: a lowercase ASCII letter followed by at most
/// two ASCII digits (`a0`, `b12`).
pub open spec fn generated_stem(stem: Seq<char>) -> bool {
    1 <= stem.len() <= 3 && 'a' <= stem[0] <= 'z' && all_digits(stem.skip(1))
}

/// Whether a component of the path is a test directory name.
pub open spec fn has_test_dir(path: Seq<char>) -> bool {
    exists|i: int| 0 <= i < spec_components(path).len()
        && test_dir_names().contains(#[trigger] spec_components(path)[i])
}

/// Whether a file name holds a test infix.
pub open spec fn test_file_name(name: Seq<char>) -> bool {
    exists|j: int| 0 <= j < test_name_infixes().len() && #[trigger] contains_str(name, test_name_infixes()[j])
}

/// The file stem of the path, empty when it has none.
pub open spec fn stem_of(path: Seq<char>) -> Seq<char> {
    match spec_file_stem(path) {
        Some(s) => s,
        None => Seq::empty(),
    }
}

/// Whether a path is a test, fixture, example or generated file: a
/// component is one of the test directory names, or the path has a file
/// name that holds a test infix or whose stem looks generated.
pub open spec fn test_path(path: Seq<char>) -> bool {
    has_test_dir(path) || (spec_file_name(path) is Some && (test_file_name(spec_file_name(path).unwrap())
        || generated_stem(stem_of(path))))
}

/// The test directory names, as strings.
fn test_dir_list() -> (v: Vec<&'static str>)
    ensures
        v@.map_values(|s: &str| s@) == test_dir_names(),
{
    let v = vec![
        "test", "tests", "__tests__", "__test__", "spec", "specs", "__mocks__", "__fixtures__",
        "fixtures", "examples", "example", "__snapshots__", "snapshots", "benchmark",
        "benchmarks", "bench", "e2e", "playground", "playgrounds",
    ];
    assert(v@.map_values(|s: &str| s@) =~= test_dir_names());
    v
}

/// The test file-name infixes, as strings.
fn test_infix_list() -> (v: Vec<&'static str>)
    ensures
        v@.map_values(|s: &str| s@) == test_name_infixes(),
{
    let v = vec![".test.", ".spec.", ".fixture.", ".e2e.", ".bench.", ".story.", ".stories."];
    assert(v@.map_values(|s: &str| s@) =~= test_name_infixes());
    v
}

/// Whether a stem looks generated.
fn is_generated_stem(stem: &str) -> (r: bool)
    ensures
        r == generated_stem(stem@),
{
    let v = chars_of(stem);
    if v.len() < 1 || v.len() > 3 {
        return false;
    }
    let c = v[0];
    if !('a' <= c && c <= 'z') {
        return false;
    }
    let mut i: usize = 1;
    while i < v.len()
        invariant
            1 <= i <= v@.len(),
            v@ == stem@,
            forall|j: int| 1 <= j < i ==> '0' <= #[trigger] v@[j] <= '9',
        decreases v@.len() - i,
    {
        if v[i] < '0' || v[i] > '9' {
            assert(stem@.skip(1)[i - 1] == v[i as int]);
            return false;
        }
        i = i + 1;
    }
    assert forall|j: int| 0 <= j < stem@.skip(1).len() implies '0' <= #[trigger] stem@.skip(1)[j] <= '9' by {
        assert(stem@.skip(1)[j] == v@[j + 1]);
    }
    true
}

/// Whether a path is a test, fixture, example or generated file, which is
/// not recommended as a refactoring starting point.
pub fn is_test_path(path: &str) -> (r: bool)
    ensures
        r == test_path(path@),
{
    let dirs = test_dir_list();
    let comps = path_components(path);
    let ghost cv = string_views(comps@);
    assert(cv == spec_components(path@));
    let mut i: usize = 0;
    while i < comps.len()
        invariant
            i <= comps@.len(),
            cv == string_views(comps@),
            cv == spec_components(path@),
            dirs@.map_values(|s: &str| s@) == test_dir_names(),
            forall|q: int| 0 <= q < i ==> !test_dir_names().contains(#[trigger] cv[q]),
        decreases comps@.len() - i,
    {
        let mut j: usize = 0;
        while j < dirs.len()
            invariant
                j <= dirs@.len(),
                i < comps@.len(),
                cv == string_views(comps@),
                cv == spec_components(path@),
                dirs@.map_values(|s: &str| s@) == test_dir_names(),
                forall|q: int| 0 <= q < j ==> test_dir_names()[q] != cv[i as int],
            decreases dirs@.len() - j,
        {
            assert(dirs@.map_values(|s: &str| s@)[j as int] == dirs@[j as int]@);
            if str_eq(comps[i].as_str(), dirs[j]) {
                assert(test_dir_names()[j as int] == cv[i as int]);
                assert(test_dir_names().contains(spec_components(path@)[i as int]));
                return true;
            }
            j = j + 1;
        }
        assert(!test_dir_names().contains(cv[i as int]));
        i = i + 1;
    }
    assert(!has_test_dir(path@));
    match path_file_name(path) {
        None => false,
        Some(name) => {
            let infixes = test_infix_list();
            let n = chars_of(name.as_str());
            let mut k: usize = 0;
            while k < infixes.len()
                invariant
                    k <= infixes@.len(),
                    n@ == name@,
                    spec_file_name(path@) == Some(name@),
                    forall|q: int| 0 <= q < spec_components(path@).len() ==> !test_dir_names().contains(
                        #[trigger] spec_components(path@)[q],
                    ),
                    infixes@.map_values(|s: &str| s@) == test_name_infixes(),
                    forall|q: int| 0 <= q < k ==> !#[trigger] contains_str(name@, test_name_infixes()[q]),
                decreases infixes@.len() - k,
            {
                assert(infixes@.map_values(|s: &str| s@)[k as int] == infixes@[k as int]@);
                let p = chars_of(infixes[k]);
                if contains_exec(&n, &p) {
                    assert(p@ == test_name_infixes()[k as int]);
                    assert(contains_str(name@, test_name_infixes()[k as int]));
                    return true;
                }
                k = k + 1;
            }
            assert(!test_file_name(name@));
            let stem = path_file_stem(path);
            match stem {
                Some(s) => is_generated_stem(s.as_str()),
                None => {
                    proof {
                        reveal_strlit("");
                    }
                    assert(""@ =~= Seq::<char>::empty());
                    is_generated_stem("")
                },
            }
        },
    }
}

/// The delta suffix of the unused-code part of the failure summary:
/// `, +N since baseline`, `, -N since baseline` or `, ±0 since baseline`,
/// and nothing without a baseline.
pub open spec fn delta_suffix(total_delta: Option<int>) -> Seq<char> {
    match total_delta {
        None => Seq::empty(),
        Some(d) => if d > 0 {
            ", +"@ + decimal(d as nat) + " since baseline"@
        } else if d < 0 {
            ", -"@ + decimal((-d) as nat) + " since baseline"@
        } else {
            ", \u{00b1}0 since baseline"@
        },
    }
}

/// The total delta of the baseline comparison, when there is one.
pub open spec fn total_delta_of(d: Option<&BaselineDeltas>) -> Option<int> {
    match d {
        Some(b) => Some(b.total_delta as int),
        None => None,
    }
}

/// The parts of the failure summary: one per analysis that ran and found
/// something, in the order unused code, duplication, health.
pub open spec fn failure_parts(
    check: Option<(nat, Option<int>)>,
    dupes_groups: Option<nat>,
    health_above: Option<nat>,
) -> Seq<Seq<char>> {
    let a = match check {
        Some((issues, delta)) => if issues > 0 {
            seq!["dead-code ("@ + decimal(issues) + " issues"@ + delta_suffix(delta) + ")"@]
        } else {
            Seq::empty()
        },
        None => Seq::empty(),
    };
    let b = match dupes_groups {
        Some(g) => if g > 0 {
            seq!["dupes ("@ + decimal(g) + " clone groups)"@]
        } else {
            Seq::empty()
        },
        None => Seq::empty(),
    };
    let c = match health_above {
        Some(h) => if h > 0 {
            seq!["health ("@ + decimal(h) + " above threshold)"@]
        } else {
            Seq::empty()
        },
        None => Seq::empty(),
    };
    a + b + c
}

/// The index of the first target path that is not a test path.
pub open spec fn first_non_test(paths: Seq<Seq<char>>) -> Option<int> {
    if exists|i: int| 0 <= i < paths.len() && !test_path(#[trigger] paths[i]) {
        Some(choose|i: int| 0 <= i < paths.len() && !test_path(#[trigger] paths[i])
            && forall|j: int| 0 <= j < i ==> test_path(#[trigger] paths[j]))
    } else {
        None
    }
}

/// The start-here nudge: ` — start with NAME` for the file name of the
/// first refactoring target that is not a test path (empty when it has no
/// file name), and nothing when every target is a test path.
pub open spec fn nudge(paths: Seq<Seq<char>>) -> Seq<char> {
    match first_non_test(paths) {
        Some(i) => " \u{2014} start with "@ + match spec_file_name(paths[i]) {
            Some(n) => n,
            None => Seq::empty(),
        },
        None => Seq::empty(),
    }
}

/// The failure summary line, when some analysis found something:
/// `Failed: ` and the parts joined by `, `, then the nudge taken from the
/// health targets.
pub open spec fn failure_summary_line(
    check: Option<(nat, Option<int>)>,
    dupes_groups: Option<nat>,
    health: Option<(nat, Seq<Seq<char>>)>,
) -> Option<Seq<char>> {
    let above = match health {
        Some((h, _)) => Some(h),
        None => None,
    };
    let parts = failure_parts(check, dupes_groups, above);
    if parts.len() == 0 {
        None
    } else {
        let n = match health {
            Some((_, paths)) => nudge(paths),
            None => Seq::empty(),
        };
        Some("Failed: "@ + join(parts, ", "@) + n)
    }
}

/// Appends the decimal digits of `n`.
fn push_decimal(out: &mut Vec<char>, n: usize)
    ensures
        final(out)@ == old(out)@ + decimal(n as nat),
{
    let d = decimal_exec(n as u64);
    extend_all(out, &d);
}

/// Computes the delta suffix.
fn delta_suffix_exec(deltas: Option<&BaselineDeltas>) -> (r: Vec<char>)
    ensures
        r@ == delta_suffix(total_delta_of(deltas)),
{
    match deltas {
        None => Vec::new(),
        Some(d) => {
            let t = d.total_delta;
            if t > 0 {
                let mut r = chars_of(", +");
                let digits = decimal_exec(t as u64);
                extend_all(&mut r, &digits);
                extend_str(&mut r, " since baseline");
                r
            } else if t < 0 {
                let m: u64 = if t == i64::MIN {
                    9223372036854775808u64
                } else {
                    (-t) as u64
                };
                let mut r = chars_of(", -");
                let digits = decimal_exec(m);
                extend_all(&mut r, &digits);
                extend_str(&mut r, " since baseline");
                r
            } else {
                chars_of(", \u{00b1}0 since baseline")
            }
        },
    }
}

/// The unused-code part of the failure summary when `issues` is positive.
fn check_part(issues: usize, deltas: Option<&BaselineDeltas>) -> (r: Vec<char>)
    ensures
        r@ == "dead-code ("@ + decimal(issues as nat) + " issues"@ + delta_suffix(total_delta_of(deltas)) + ")"@,
{
    let mut p = chars_of("dead-code (");
    push_decimal(&mut p, issues);
    extend_str(&mut p, " issues");
    let s = delta_suffix_exec(deltas);
    extend_all(&mut p, &s);
    extend_str(&mut p, ")");
    p
}

/// The view of the unused-code result handed to the summary.
pub open spec fn check_view(check: Option<(usize, Option<&BaselineDeltas>)>) -> Option<(nat, Option<int>)> {
    match check {
        Some((n, d)) => Some((n as nat, total_delta_of(d))),
        None => None,
    }
}

/// The view of the health result handed to the summary.
pub open spec fn health_view(health: Option<(usize, &Vec<String>)>) -> Option<(nat, Seq<Seq<char>>)> {
    match health {
        Some((n, t)) => Some((n as nat, string_views(t@))),
        None => None,
    }
}

/// The view of an optional count.
pub open spec fn count_view(n: Option<usize>) -> Option<nat> {
    match n {
        Some(k) => Some(k as nat),
        None => None,
    }
}

/// Builds the start-here nudge from the refactoring targets' paths.
fn nudge_exec(paths: &Vec<String>) -> (r: Vec<char>)
    ensures
        r@ == nudge(string_views(paths@)),
{
    let ghost pv = string_views(paths@);
    let mut i: usize = 0;
    while i < paths.len()
        invariant
            i <= paths@.len(),
            pv == string_views(paths@),
            forall|j: int| 0 <= j < i ==> test_path(#[trigger] pv[j]),
        decreases paths@.len() - i,
    {
        if !is_test_path(paths[i].as_str()) {
            assert(!test_path(pv[i as int]));
            let ghost w = choose|k: int| 0 <= k < pv.len() && !test_path(#[trigger] pv[k])
                && forall|j: int| 0 <= j < k ==> test_path(#[trigger] pv[j]);
            assert(w == i as int) by {
                if w < i as int {
                    assert(test_path(pv[w]));
                } else if w > i as int {
                    assert(test_path(pv[i as int]));
                }
            }
            let mut r = chars_of(" \u{2014} start with ");
            match path_file_name(paths[i].as_str()) {
                Some(name) => extend_str(&mut r, name.as_str()),
                None => {},
            }
            return r;
        }
        i = i + 1;
    }
    Vec::new()
}

/// Builds the failure summary line printed when the combined command
/// fails: `None` when no analysis found anything.
pub fn failure_summary(
    check: Option<(usize, Option<&BaselineDeltas>)>,
    dupes_groups: Option<usize>,
    health: Option<(usize, &Vec<String>)>,
) -> (r: Option<String>)
    ensures
        match r {
            Some(s) => failure_summary_line(check_view(check), count_view(dupes_groups), health_view(health)) == Some(s@),
            None => failure_summary_line(check_view(check), count_view(dupes_groups), health_view(health)) is None,
        },
{
    let mut parts: Vec<Vec<char>> = Vec::new();
    match check {
        Some((issues, d)) => {
            if issues > 0 {
                parts.push(check_part(issues, d));
            }
        },
        None => {},
    }
    let ghost a = views(parts@);
    match dupes_groups {
        Some(g) => {
            if g > 0 {
                let mut p = chars_of("dupes (");
                push_decimal(&mut p, g);
                extend_str(&mut p, " clone groups)");
                parts.push(p);
            }
        },
        None => {},
    }
    let ghost b = views(parts@);
    match health {
        Some((h, _)) => {
            if h > 0 {
                let mut p = chars_of("health (");
                push_decimal(&mut p, h);
                extend_str(&mut p, " above threshold)");
                parts.push(p);
            }
        },
        None => {},
    }
    let ghost above = match health {
        Some((h, _)) => Some(h as nat),
        None => None,
    };
    assert(views(parts@) =~= failure_parts(check_view(check), count_view(dupes_groups), above));
    if parts.len() == 0 {
        return None;
    }
    let mut out = chars_of("Failed: ");
    let sep = chars_of(", ");
    let joined = join_chars(&parts, &sep);
    extend_all(&mut out, &joined);
    match health {
        Some((_, paths)) => {
            let n = nudge_exec(paths);
            extend_all(&mut out, &n);
        },
        None => {},
    }
    Some(string_of(&out))
}

/// An `s` unless the count is one.
pub open spec fn plural(n: nat) -> Seq<char> {
    if n == 1 {
        Seq::empty()
    } else {
        "s"@
    }
}

/// The file name of a path, empty when it has none.
pub open spec fn name_of(path: Seq<char>) -> Seq<char> {
    match spec_file_name(path) {
        Some(n) => n,
        None => Seq::empty(),
    }
}

/// The analysis-scope line of the orientation header: the number of files
/// analyzed and the active plugins (at most five named, then `+N`); none
/// when no file was analyzed.
pub open spec fn analysis_scope_line(files: nat, plugins: Seq<Seq<char>>) -> Option<Seq<char>> {
    if files == 0 {
        None
    } else {
        let base = "  "@ + decimal(files) + " files analyzed"@;
        let n = plugins.len();
        if n == 0 {
            Some(base)
        } else {
            let shown = if n > 5 { plugins.take(5) } else { plugins };
            let more = if n > 5 { " +"@ + decimal((n - 5) as nat) } else { Seq::empty() };
            Some(base + ", "@ + decimal(n) + " plugin"@ + plural(n) + " ("@ + join(shown, ", "@) + ")"@ + more)
        }
    }
}

/// Appends the digits of `n` and a plural `s` after `noun`.
fn push_count_noun(out: &mut Vec<char>, n: usize, noun: &str)
    ensures
        final(out)@ == old(out)@ + decimal(n as nat) + noun@ + plural(n as nat),
{
    push_decimal(out, n);
    extend_str(out, noun);
    if n != 1 {
        out.push('s');
    }
    proof {
        reveal_strlit("s");
        assert(final(out)@ =~= old(out)@ + decimal(n as nat) + noun@ + plural(n as nat));
    }
}

/// Builds the analysis-scope line of the orientation header.
pub fn build_analysis_scope_line(files: usize, plugins: &Vec<String>) -> (r: Option<String>)
    ensures
        match r {
            Some(s) => analysis_scope_line(files as nat, string_views(plugins@)) == Some(s@),
            None => analysis_scope_line(files as nat, string_views(plugins@)) is None,
        },
{
    if files == 0 {
        return None;
    }
    let ghost pv = string_views(plugins@);
    let mut out = chars_of("  ");
    push_decimal(&mut out, files);
    extend_str(&mut out, " files analyzed");
    let n = plugins.len();
    if n > 0 {
        extend_str(&mut out, ", ");
        push_count_noun(&mut out, n, " plugin");
        extend_str(&mut out, " (");
        let limit: usize = if n > 5 { 5 } else { n };
        let mut names: Vec<Vec<char>> = Vec::new();
        let mut i: usize = 0;
        while i < limit
            invariant
                i <= limit <= plugins@.len(),
                pv == string_views(plugins@),
                views(names@) == pv.take(i as int),
            decreases limit - i,
        {
            let c = chars_of(plugins[i].as_str());
            let ghost n0 = names@;
            names.push(c);
            proof {
                assert(pv[i as int] == plugins@[i as int]@);
                assert(names@ == n0.push(c));
                assert(c@ == pv[i as int]);
                assert(views(n0).len() == i);
                assert(n0.len() == i);
                assert(names@.len() == i + 1);
                assert(views(names@).len() == i + 1);
                assert(views(names@)[i as int] == pv[i as int]);
                assert(forall|j: int| 0 <= j < i ==> views(names@)[j] == views(n0)[j]);
                assert(views(names@) =~= pv.take(i + 1));
            }
            i = i + 1;
        }
        let sep = chars_of(", ");
        let joined = join_chars(&names, &sep);
        extend_all(&mut out, &joined);
        extend_str(&mut out, ")");
        if n > 5 {
            extend_str(&mut out, " +");
            push_decimal(&mut out, n - 5);
        }
        proof {
            if n <= 5 {
                assert(pv.take(n as int) =~= pv);
            }
        }
    }
    Some(string_of(&out))
}

/// The entry-point line: a warning when no entry point was detected, else
/// the count followed by the counts per source.
pub open spec fn entry_point_line(total: nat, by_source: Seq<(Seq<char>, nat)>) -> Seq<char> {
    if total == 0 {
        "  \u{26a0} No entry points detected \u{2014} exports may appear unused. Run: fallow list --entry-points"@
    } else {
        "  "@ + decimal(total) + " entry point"@ + plural(total) + " detected"@ + if by_source.len() > 0 {
            " ("@ + join(by_source.map_values(|e: (Seq<char>, nat)| decimal(e.1) + " "@ + e.0), ", "@) + ")"@
        } else {
            Seq::empty()
        }
    }
}

/// The view of the per-source counts.
pub open spec fn sources_view(by_source: Seq<(String, usize)>) -> Seq<(Seq<char>, nat)> {
    by_source.map_values(|e: (String, usize)| (e.0@, e.1 as nat))
}

/// Builds the entry-point line; the flag tells whether it is the warning
/// that no entry point was detected.
pub fn build_entry_point_line(total: usize, by_source: &Vec<(String, usize)>) -> (r: (String, bool))
    ensures
        r.0@ == entry_point_line(total as nat, sources_view(by_source@)),
        r.1 == (total == 0),
{
    if total == 0 {
        return (
            "  \u{26a0} No entry points detected \u{2014} exports may appear unused. Run: fallow list --entry-points".to_string(),
            true,
        );
    }
    let ghost sv = sources_view(by_source@);
    let ghost f = |e: (Seq<char>, nat)| decimal(e.1) + " "@ + e.0;
    let mut out = chars_of("  ");
    push_count_noun(&mut out, total, " entry point");
    extend_str(&mut out, " detected");
    if by_source.len() > 0 {
        let mut parts: Vec<Vec<char>> = Vec::new();
        let mut i: usize = 0;
        while i < by_source.len()
            invariant
                i <= by_source@.len(),
                sv == sources_view(by_source@),
                f == (|e: (Seq<char>, nat)| decimal(e.1) + " "@ + e.0),
                views(parts@) == sv.map_values(f).take(i as int),
            decreases by_source@.len() - i,
        {
            let mut p: Vec<char> = Vec::new();
            push_decimal(&mut p, by_source[i].1);
            p.push(' ');
            extend_str(&mut p, by_source[i].0.as_str());
            let ghost p0 = parts@;
            parts.push(p);
            proof {
                assert(sv[i as int] == (by_source@[i as int].0@, by_source@[i as int].1 as nat));
                reveal_strlit(" ");
                assert(p@ =~= f(sv[i as int]));
                assert(parts@ == p0.push(p));
                assert(views(p0).len() == i);
                assert(p0.len() == i);
                assert(parts@.len() == i + 1);
                assert(views(parts@).len() == i + 1);
                assert(views(parts@)[i as int] == sv.map_values(f)[i as int]);
                assert(forall|j: int| 0 <= j < i ==> views(parts@)[j] == views(p0)[j]);
                assert(views(parts@) =~= sv.map_values(f).take(i + 1));
            }
            i = i + 1;
        }
        let sep = chars_of(", ");
        let joined = join_chars(&parts, &sep);
        extend_str(&mut out, " (");
        extend_all(&mut out, &joined);
        extend_str(&mut out, ")");
        assert(sv.map_values(f).take(sv.len() as int) =~= sv.map_values(f));
    }
    (string_of(&out), false)
}

/// The start-here line of the orientation header: the number of refactoring
/// targets, then a hint to scope by workspace when there are more than 500
/// unused-code issues, else the file name and category of the first target
/// that is not a test path; none when there are no targets.
pub open spec fn start_here_line(
    total_issues: nat,
    targets: Seq<(Seq<char>, RecommendationCategory)>,
) -> Option<Seq<char>> {
    let n = targets.len();
    if n == 0 {
        None
    } else {
        let head = "  "@ + decimal(n) + " refactoring target"@ + plural(n);
        if total_issues > 500 {
            Some(head + " \u{2014} try `fallow dead-code --workspace <name>` to scope"@)
        } else {
            match first_non_test(target_paths(targets)) {
                Some(i) => Some(head + " \u{2014} start with "@ + name_of(targets[i].0) + " ("@
                    + category_label(targets[i].1) + ")"@),
                None => Some(head),
            }
        }
    }
}

/// The paths of the targets.
pub open spec fn target_paths(targets: Seq<(Seq<char>, RecommendationCategory)>) -> Seq<Seq<char>> {
    targets.map_values(|t: (Seq<char>, RecommendationCategory)| t.0)
}

/// The view of the targets.
pub open spec fn targets_view(targets: Seq<(String, RecommendationCategory)>) -> Seq<(Seq<char>, RecommendationCategory)> {
    targets.map_values(|t: (String, RecommendationCategory)| (t.0@, t.1))
}

/// Builds the start-here line of the orientation header.
pub fn build_start_here_line(total_issues: usize, targets: &Vec<(String, RecommendationCategory)>) -> (r: Option<String>)
    ensures
        match r {
            Some(s) => start_here_line(total_issues as nat, targets_view(targets@)) == Some(s@),
            None => start_here_line(total_issues as nat, targets_view(targets@)) is None,
        },
{
    let n = targets.len();
    if n == 0 {
        return None;
    }
    let ghost tv = targets_view(targets@);
    let ghost pv = target_paths(tv);
    let mut out = chars_of("  ");
    push_count_noun(&mut out, n, " refactoring target");
    let ghost head = out@;
    proof {
        reveal_strlit("  ");
        reveal_strlit(" refactoring target");
        assert(head =~= "  "@ + decimal(n as nat) + " refactoring target"@ + plural(n as nat));
    }
    if total_issues > 500 {
        extend_str(&mut out, " \u{2014} try `fallow dead-code --workspace <name>` to scope");
        return Some(string_of(&out));
    }
    let mut i: usize = 0;
    while i < n
        invariant
            i <= n == targets@.len(),
            tv == targets_view(targets@),
            pv == target_paths(tv),
            pv.len() == n,
            out@ == head,
            head == "  "@ + decimal(n as nat) + " refactoring target"@ + plural(n as nat),
            total_issues <= 500,
            forall|j: int| 0 <= j < i ==> test_path(#[trigger] pv[j]),
        decreases n - i,
    {
        assert(pv[i as int] == targets@[i as int].0@);
        if !is_test_path(targets[i].0.as_str()) {
            let ghost w = choose|k: int| 0 <= k < pv.len() && !test_path(#[trigger] pv[k])
                && forall|j: int| 0 <= j < k ==> test_path(#[trigger] pv[j]);
            assert(!test_path(pv[i as int]));
            assert(w == i as int) by {
                if w < i as int {
                    assert(test_path(pv[w]));
                } else if w > i as int {
                    assert(test_path(pv[i as int]));
                }
            }
            extend_str(&mut out, " \u{2014} start with ");
            match path_file_name(targets[i].0.as_str()) {
                Some(name) => extend_str(&mut out, name.as_str()),
                None => {},
            }
            extend_str(&mut out, " (");
            extend_str(&mut out, targets[i].1.label());
            extend_str(&mut out, ")");
            proof {
                assert(first_non_test(pv) == Some(i as int));
                assert(tv[i as int] == (targets@[i as int].0@, targets@[i as int].1));
            }
            return Some(string_of(&out));
        }
        i = i + 1;
    }
    assert(first_non_test(pv) is None);
    Some(string_of(&out))
}

} // verus!
