//! Integer parts of the per-file health scores: complexity totals of a
//! module, unused exports counted per file, and the evidence that the
//! refactoring targets name (the most complex functions and the unused
//! exports of a file).

use vstd::prelude::*;
use vstd::seq_lib::group_to_multiset_ensures;
use crate::health::{FunctionComplexity, ModuleInfo};
use crate::paths::{path_eq, spec_path_eq};
use crate::results::{UnusedExport, UnusedFile};
use crate::text::string_views;

verus! {

/// Sum of the cyclomatic complexities.
pub open spec fn total_cyclomatic(fcs: Seq<FunctionComplexity>) -> int
    decreases fcs.len(),
{
    if fcs.len() == 0 {
        0
    } else {
        total_cyclomatic(fcs.drop_last()) + fcs.last().cyclomatic
    }
}

/// Sum of the cognitive complexities.
pub open spec fn total_cognitive(fcs: Seq<FunctionComplexity>) -> int
    decreases fcs.len(),
{
    if fcs.len() == 0 {
        0
    } else {
        total_cognitive(fcs.drop_last()) + fcs.last().cognitive
    }
}

/// The totals of a prefix never exceed those of the whole sequence.
proof fn lemma_totals_prefix(fcs: Seq<FunctionComplexity>, i: int)
    requires
        0 <= i <= fcs.len(),
    ensures
        0 <= total_cyclomatic(fcs.take(i)) <= total_cyclomatic(fcs),
        0 <= total_cognitive(fcs.take(i)) <= total_cognitive(fcs),
    decreases fcs.len(),
{
    if fcs.len() > 0 {
        if i == fcs.len() {
            assert(fcs.take(i) =~= fcs);
            lemma_totals_prefix(fcs.drop_last(), i - 1);
            assert(fcs.drop_last().take(i - 1) =~= fcs.drop_last());
        } else {
            lemma_totals_prefix(fcs.drop_last(), i);
            assert(fcs.drop_last().take(i) =~= fcs.take(i));
        }
    }
}

/// Complexity totals of a module: total cyclomatic, total cognitive, the
/// number of functions, and the number of lines (truncated to `u32` as the
/// line table's length is).
pub fn aggregate_complexity(module: &ModuleInfo) -> (r: (u32, u32, usize, u32))
    requires
        total_cyclomatic(module.complexity@) <= u32::MAX,
        total_cognitive(module.complexity@) <= u32::MAX,
    ensures
        r.0 == total_cyclomatic(module.complexity@),
        r.1 == total_cognitive(module.complexity@),
        r.2 == module.complexity@.len(),
        r.3 == module.line_offsets@.len() as u32,
{
    let ghost fcs = module.complexity@;
    let mut cyc: u32 = 0;
    let mut cog: u32 = 0;
    let mut i: usize = 0;
    while i < module.complexity.len()
        invariant
            i <= fcs.len(),
            fcs == module.complexity@,
            total_cyclomatic(fcs) <= u32::MAX,
            total_cognitive(fcs) <= u32::MAX,
            cyc == total_cyclomatic(fcs.take(i as int)),
            cog == total_cognitive(fcs.take(i as int)),
        decreases fcs.len() - i,
    {
        proof {
            assert(fcs.take(i + 1).drop_last() =~= fcs.take(i as int));
            lemma_totals_prefix(fcs, i + 1);
        }
        let f = &module.complexity[i];
        cyc = cyc + f.cyclomatic as u32;
        cog = cog + f.cognitive as u32;
        i = i + 1;
    }
    assert(fcs.take(fcs.len() as int) =~= fcs);
    #[verifier::truncate]
    let lines = module.line_offsets.len() as u32;
    (cyc, cog, module.complexity.len(), lines)
}

/// The index of the first key equal (as a path) to `p`.
pub open spec fn key_index(keys: Seq<(Seq<char>, nat)>, p: Seq<char>) -> Option<int> {
    if exists|i: int| 0 <= i < keys.len() && spec_path_eq(#[trigger] keys[i].0, p) {
        Some(choose|i: int| 0 <= i < keys.len() && spec_path_eq(#[trigger] keys[i].0, p)
            && forall|j: int| 0 <= j < i ==> !spec_path_eq(#[trigger] keys[j].0, p))
    } else {
        None
    }
}

/// Unused exports counted per file: each export adds one to the entry of
/// the first path equal to its own, or starts an entry with count one.
pub open spec fn counts_by_path(paths: Seq<Seq<char>>) -> Seq<(Seq<char>, nat)>
    decreases paths.len(),
{
    if paths.len() == 0 {
        Seq::empty()
    } else {
        let prev = counts_by_path(paths.drop_last());
        let p = paths.last();
        match key_index(prev, p) {
            Some(i) => prev.update(i, (prev[i].0, prev[i].1 + 1)),
            None => prev.push((p, 1nat)),
        }
    }
}

/// Whether an export is a value export (not type-only).
pub open spec fn is_value_export(e: UnusedExport) -> bool {
    !e.is_type_only
}

/// The paths of the unused value exports; type-only exports (interfaces,
/// type aliases) are left out.
pub open spec fn export_paths(exports: Seq<UnusedExport>) -> Seq<Seq<char>> {
    exports.filter(|e: UnusedExport| is_value_export(e)).map_values(|e: UnusedExport| e.path@)
}

/// Unused value exports counted per file path.
pub struct UnusedExportCounts {
    entries: Vec<(String, usize)>,
}

impl UnusedExportCounts {
    /// The entries: a path and its count.
    pub closed spec fn view(&self) -> Seq<(Seq<char>, nat)> {
        self.entries@.map_values(|e: (String, usize)| (e.0@, e.1 as nat))
    }

    /// The number of distinct paths.
    pub fn len(&self) -> (n: usize)
        ensures
            n == self@.len(),
    {
        self.entries.len()
    }

    /// Whether no path was counted.
    pub fn is_empty(&self) -> (b: bool)
        ensures
            b == (self@.len() == 0),
    {
        self.entries.len() == 0
    }

    /// The count of `path`, when some export had that path.
    pub fn get(&self, path: &str) -> (r: Option<usize>)
        ensures
            match key_index(self@, path@) {
                Some(i) => r == Some(self@[i].1 as usize),
                None => r is None,
            },
    {
        let ghost v = self@;
        let mut i: usize = 0;
        while i < self.entries.len()
            invariant
                i <= self.entries@.len(),
                v == self@,
                v.len() == self.entries@.len(),
                forall|j: int| 0 <= j < i ==> !spec_path_eq(#[trigger] v[j].0, path@),
            decreases self.entries@.len() - i,
        {
            assert(v[i as int] == (self.entries@[i as int].0@, self.entries@[i as int].1 as nat));
            if path_eq(self.entries[i].0.as_str(), path) {
                let ghost w = choose|k: int| 0 <= k < v.len() && spec_path_eq(#[trigger] v[k].0, path@)
                    && forall|j: int| 0 <= j < k ==> !spec_path_eq(#[trigger] v[j].0, path@);
                assert(spec_path_eq(v[i as int].0, path@));
                assert(w == i as int) by {
                    if w < i as int {
                        assert(!spec_path_eq(v[w].0, path@));
                    } else if w > i as int {
                        assert(!spec_path_eq(v[i as int].0, path@));
                    }
                }
                return Some(self.entries[i].1);
            }
            i = i + 1;
        }
        None
    }
}

/// Counts unused value exports per file path; type-only exports are not
/// counted.
pub fn count_unused_exports_by_path(unused_exports: &Vec<UnusedExport>) -> (r: UnusedExportCounts)
    ensures
        r@ == counts_by_path(export_paths(unused_exports@)),
{
    let ghost all = unused_exports@;
    let ghost vf = |e: UnusedExport| is_value_export(e);
    let ghost pf = |e: UnusedExport| e.path@;
    let mut entries: Vec<(String, usize)> = Vec::new();
    let mut i: usize = 0;
    assert(all.take(0).filter(vf) =~= Seq::<UnusedExport>::empty());
    assert(export_paths(all.take(0)) =~= Seq::<Seq<char>>::empty());
    while i < unused_exports.len()
        invariant
            i <= all.len(),
            all == unused_exports@,
            vf == (|e: UnusedExport| is_value_export(e)),
            pf == (|e: UnusedExport| e.path@),
            entries@.map_values(|e: (String, usize)| (e.0@, e.1 as nat)) == counts_by_path(
                export_paths(all.take(i as int)),
            ),
            forall|k: int| 0 <= k < entries@.len() ==> #[trigger] entries@[k].1 <= i,
        decreases all.len() - i,
    {
        let ghost ps = export_paths(all.take(i as int));
        let ghost prev = counts_by_path(ps);
        let ghost ev = entries@.map_values(|e: (String, usize)| (e.0@, e.1 as nat));
        let x = &unused_exports[i];
        proof {
            assert(all.take(i + 1) =~= all.take(i as int).push(*x));
            all.take(i as int).lemma_filter_push(*x, vf);
        }
        if x.is_type_only {
            proof {
                assert(export_paths(all.take(i + 1)) == ps);
            }
            i = i + 1;
            continue;
        }
        let p = &x.path;
        proof {
            let q = export_paths(all.take(i + 1));
            assert(all.take(i + 1).filter(vf) == all.take(i as int).filter(vf).push(*x));
            assert(q =~= ps.push(p@));
            assert(q.drop_last() =~= ps);
            assert(q.last() == p@);
        }
        let mut k: usize = 0;
        let mut found = false;
        while k < entries.len()
            invariant_except_break
                !found,
            invariant
                k <= entries@.len(),
                ev == entries@.map_values(|e: (String, usize)| (e.0@, e.1 as nat)),
                ev == prev,
                forall|j: int| 0 <= j < k ==> !spec_path_eq(#[trigger] prev[j].0, p@),
            ensures
                found ==> k < entries@.len() && spec_path_eq(prev[k as int].0, p@),
                !found ==> k == entries@.len(),
            decreases entries@.len() - k,
        {
            assert(prev[k as int] == (entries@[k as int].0@, entries@[k as int].1 as nat));
            if path_eq(entries[k].0.as_str(), p.as_str()) {
                found = true;
                assert(spec_path_eq(prev[k as int].0, p@));
                break;
            }
            k = k + 1;
        }
        if found {
            let ghost w = choose|q: int| 0 <= q < prev.len() && spec_path_eq(#[trigger] prev[q].0, p@)
                && forall|j: int| 0 <= j < q ==> !spec_path_eq(#[trigger] prev[j].0, p@);
            assert(spec_path_eq(prev[k as int].0, p@));
            assert(w == k as int) by {
                if w < k as int {
                    assert(!spec_path_eq(prev[w].0, p@));
                } else if w > k as int {
                    assert(!spec_path_eq(prev[k as int].0, p@));
                }
            }
            let c = entries[k].1;
            assert(c <= i);
            let key = entries[k].0.clone();
            entries.set(k, (key, c + 1));
            assert(entries@.map_values(|e: (String, usize)| (e.0@, e.1 as nat)) =~= prev.update(
                k as int,
                (prev[k as int].0, prev[k as int].1 + 1),
            ));
        } else {
            entries.push((p.clone(), 1));
            assert(entries@.map_values(|e: (String, usize)| (e.0@, e.1 as nat)) =~= prev.push((p@, 1nat)));
        }
        i = i + 1;
    }
    assert(all.take(all.len() as int) =~= all);
    UnusedExportCounts { entries }
}

/// A function as the refactoring evidence names it: name, line and
/// cognitive complexity.
pub type FnEvidence = (Seq<char>, u32, u16);

/// The evidence of a function.
pub open spec fn fn_evidence(f: FunctionComplexity) -> FnEvidence {
    (f.name@, f.line, f.cognitive)
}

/// `x` inserted after the last function whose cognitive complexity is not
/// smaller.
pub open spec fn insert_by_cognitive(s: Seq<FnEvidence>, x: FnEvidence) -> Seq<FnEvidence>
    decreases s.len(),
{
    if s.len() == 0 {
        seq![x]
    } else if s.last().2 >= x.2 {
        s.push(x)
    } else {
        insert_by_cognitive(s.drop_last(), x).push(s.last())
    }
}

/// Functions by descending cognitive complexity, ties in their order (the
/// order of a stable sort).
pub open spec fn by_cognitive(s: Seq<FnEvidence>) -> Seq<FnEvidence>
    decreases s.len(),
{
    if s.len() == 0 {
        Seq::empty()
    } else {
        insert_by_cognitive(by_cognitive(s.drop_last()), s.last())
    }
}

/// The most complex functions of a module named as refactoring evidence:
/// the three with the highest cognitive complexity (ties in source order),
/// and none when the module has no function or its most complex one has
/// cognitive complexity 0.
pub open spec fn top_complex(fcs: Seq<FunctionComplexity>) -> Seq<FnEvidence> {
    let sorted = by_cognitive(fcs.map_values(|f: FunctionComplexity| fn_evidence(f)));
    if sorted.len() == 0 || sorted[0].2 == 0 {
        Seq::empty()
    } else if sorted.len() > 3 {
        sorted.take(3)
    } else {
        sorted
    }
}

/// Whether the functions have cognitive complexity `k`.
pub open spec fn cognitive_is(k: int) -> spec_fn(FnEvidence) -> bool {
    |f: FnEvidence| f.2 == k
}

/// Whether functions come by descending cognitive complexity.
pub open spec fn desc_cognitive(s: Seq<FnEvidence>) -> bool {
    forall|i: int, j: int| 0 <= i < j < s.len() ==> (#[trigger] s[i]).2 >= (#[trigger] s[j]).2
}

/// Inserting keeps the order, adds `x`, and puts `x` after the functions
/// of equal complexity.
proof fn lemma_insert_by_cognitive(s: Seq<FnEvidence>, x: FnEvidence, k: int)
    ensures
        desc_cognitive(s) ==> desc_cognitive(insert_by_cognitive(s, x)),
        insert_by_cognitive(s, x).to_multiset() == s.to_multiset().insert(x),
        insert_by_cognitive(s, x).filter(cognitive_is(k)) == if x.2 == k {
            s.filter(cognitive_is(k)).push(x)
        } else {
            s.filter(cognitive_is(k))
        },
    decreases s.len(),
{
    broadcast use group_to_multiset_ensures;

    let p = cognitive_is(k);
    if s.len() == 0 {
        assert(seq![x] =~= Seq::<FnEvidence>::empty().push(x));
        Seq::<FnEvidence>::empty().lemma_filter_push(x, p);
    } else if s.last().2 >= x.2 {
        s.lemma_filter_push(x, p);
    } else {
        let d = s.drop_last();
        let y = s.last();
        lemma_insert_by_cognitive(d, x, k);
        let t = insert_by_cognitive(d, x);
        t.lemma_filter_push(y, p);
        d.lemma_filter_push(y, p);
        assert(s =~= d.push(y));
        if desc_cognitive(s) {
            assert(desc_cognitive(d)) by {
                assert forall|i: int, j: int| 0 <= i < j < d.len() implies (#[trigger] d[i]).2 >= (#[trigger] d[j]).2 by {
                    assert(d[i] == s[i] && d[j] == s[j]);
                }
            }
            assert forall|m: int| 0 <= m < t.len() implies (#[trigger] t[m]).2 >= y.2 by {
                assert(t.to_multiset().count(t[m]) > 0);
                if t[m] != x {
                    assert(d.to_multiset().count(t[m]) > 0);
                    assert(d.contains(t[m]));
                    let q = choose|q: int| 0 <= q < d.len() && d[q] == t[m];
                    assert(s[q] == d[q]);
                    assert(s[q].2 >= s[s.len() - 1].2);
                }
            }
            let r = t.push(y);
            assert forall|i: int, j: int| 0 <= i < j < r.len() implies (#[trigger] r[i]).2 >= (#[trigger] r[j]).2 by {
                if j == t.len() {
                    assert(r[i] == t[i]);
                } else {
                    assert(r[i] == t[i] && r[j] == t[j]);
                }
            }
        }
        assert(t.push(y).to_multiset() =~= d.to_multiset().insert(x).insert(y));
        assert(s.to_multiset().insert(x) =~= d.to_multiset().insert(y).insert(x));
    }
}

/// `by_cognitive` is a stable sort by descending cognitive complexity: in
/// that order, with the same functions, ties in their original order.
pub proof fn law_by_cognitive_is_stable_sort(s: Seq<FnEvidence>, k: int)
    ensures
        desc_cognitive(by_cognitive(s)),
        by_cognitive(s).to_multiset() == s.to_multiset(),
        by_cognitive(s).filter(cognitive_is(k)) == s.filter(cognitive_is(k)),
    decreases s.len(),
{
    broadcast use group_to_multiset_ensures;

    if s.len() == 0 {
        assert(s =~= Seq::<FnEvidence>::empty());
        assert(by_cognitive(s) =~= Seq::<FnEvidence>::empty());
    } else {
        let d = s.drop_last();
        let y = s.last();
        law_by_cognitive_is_stable_sort(d, k);
        lemma_insert_by_cognitive(by_cognitive(d), y, k);
        d.lemma_filter_push(y, cognitive_is(k));
        assert(s =~= d.push(y));
    }
}

/// The view of a function's evidence.
pub open spec fn evidence_view(e: (String, u32, u16)) -> FnEvidence {
    (e.0@, e.1, e.2)
}

/// Inserts `x` into `v` as `insert_by_cognitive` does.
fn insert_by_cognitive_exec(v: &mut Vec<(String, u32, u16)>, x: (String, u32, u16))
    ensures
        final(v)@.map_values(|e: (String, u32, u16)| evidence_view(e)) == insert_by_cognitive(
            old(v)@.map_values(|e: (String, u32, u16)| evidence_view(e)),
            evidence_view(x),
        ),
    decreases old(v)@.len(),
{
    let ghost ov = v@.map_values(|e: (String, u32, u16)| evidence_view(e));
    let n = v.len();
    if n == 0 || v[n - 1].2 >= x.2 {
        let ghost xv = evidence_view(x);
        v.push(x);
        proof {
            assert(v@.map_values(|e: (String, u32, u16)| evidence_view(e)) =~= ov.push(xv));
            if n == 0 {
                assert(ov.push(xv) =~= seq![xv]);
            }
        }
    } else {
        let last = v.pop().unwrap();
        proof {
            assert(v@.map_values(|e: (String, u32, u16)| evidence_view(e)) =~= ov.drop_last());
        }
        insert_by_cognitive_exec(v, x);
        let ghost mid = v@.map_values(|e: (String, u32, u16)| evidence_view(e));
        let ghost lv = evidence_view(last);
        v.push(last);
        proof {
            assert(v@.map_values(|e: (String, u32, u16)| evidence_view(e)) =~= mid.push(lv));
        }
    }
}

/// The three most complex functions of a module by cognitive complexity,
/// as refactoring evidence; empty when there is none worth naming.
pub fn top_complex_functions(fcs: &Vec<FunctionComplexity>) -> (r: Vec<(String, u32, u16)>)
    ensures
        r@.map_values(|e: (String, u32, u16)| evidence_view(e)) == top_complex(fcs@),
{
    let ghost src = fcs@.map_values(|f: FunctionComplexity| fn_evidence(f));
    let mut sorted: Vec<(String, u32, u16)> = Vec::new();
    let mut i: usize = 0;
    while i < fcs.len()
        invariant
            i <= fcs@.len(),
            src == fcs@.map_values(|f: FunctionComplexity| fn_evidence(f)),
            sorted@.map_values(|e: (String, u32, u16)| evidence_view(e)) == by_cognitive(src.take(i as int)),
        decreases fcs@.len() - i,
    {
        let f = &fcs[i];
        let e = (f.name.clone(), f.line, f.cognitive);
        proof {
            assert(src.take(i + 1).drop_last() =~= src.take(i as int));
            assert(src.take(i + 1).last() == evidence_view(e));
        }
        insert_by_cognitive_exec(&mut sorted, e);
        i = i + 1;
    }
    assert(src.take(src.len() as int) =~= src);
    let ghost sv = sorted@.map_values(|e: (String, u32, u16)| evidence_view(e));
    if sorted.len() == 0 || sorted[0].2 == 0 {
        return Vec::new();
    }
    sorted.truncate(3);
    proof {
        if sv.len() > 3 {
            assert(sorted@.map_values(|e: (String, u32, u16)| evidence_view(e)) =~= sv.take(3));
        }
    }
    sorted
}


/// An export of a module in the module graph: its name and whether it
/// exports only a type.
pub struct ExportSymbol {
    pub name: String,
    pub is_type_only: bool,
}

/// The names of the unused exports recorded for `path` (type-only ones
/// too), in order.
pub open spec fn recorded_export_names(unused: Seq<UnusedExport>, path: Seq<char>) -> Seq<Seq<char>> {
    unused.filter(|e: UnusedExport| spec_path_eq(e.path@, path)).map_values(|e: UnusedExport| e.export_name@)
}

/// Whether `path` is one of the unused files.
pub open spec fn is_unused_file(unused_files: Seq<UnusedFile>, path: Seq<char>) -> bool {
    exists|i: int| 0 <= i < unused_files.len() && spec_path_eq(#[trigger] unused_files[i].path@, path)
}

/// The unused-export evidence of a file: the names of its unused exports;
/// for an unused file with none recorded, the names of all its value
/// exports (a file nothing reaches has no individually unused export).
pub open spec fn export_evidence(
    unused: Seq<UnusedExport>,
    unused_files: Seq<UnusedFile>,
    path: Seq<char>,
    exports: Seq<ExportSymbol>,
) -> Seq<Seq<char>> {
    if recorded_export_names(unused, path).len() == 0 && is_unused_file(unused_files, path) {
        exports.filter(|x: ExportSymbol| !x.is_type_only).map_values(|x: ExportSymbol| x.name@)
    } else {
        recorded_export_names(unused, path)
    }
}

/// The unused-export evidence of the file at `path`, whose module exports
/// `exports`.
pub fn unused_export_evidence(
    unused: &Vec<UnusedExport>,
    unused_files: &Vec<UnusedFile>,
    path: &str,
    exports: &Vec<ExportSymbol>,
) -> (r: Vec<String>)
    ensures
        string_views(r@) == export_evidence(unused@, unused_files@, path@, exports@),
{
    let ghost on_path = |e: UnusedExport| spec_path_eq(e.path@, path@);
    let ghost all = unused@;
    let mut names: Vec<String> = Vec::new();
    let mut i: usize = 0;
    while i < unused.len()
        invariant
            i <= all.len(),
            all == unused@,
            on_path == (|e: UnusedExport| spec_path_eq(e.path@, path@)),
            string_views(names@) == all.take(i as int).filter(on_path).map_values(|e: UnusedExport| e.export_name@),
        decreases all.len() - i,
    {
        let e = &unused[i];
        let ghost before = names@;
        proof {
            assert(all.take(i + 1) =~= all.take(i as int).push(*e));
            all.take(i as int).lemma_filter_push(*e, on_path);
        }
        if path_eq(e.path.as_str(), path) {
            names.push(e.export_name.clone());
            proof {
                assert(string_views(names@) =~= string_views(before).push(e.export_name@));
                assert(all.take(i as int).filter(on_path).push(*e).map_values(|e: UnusedExport| e.export_name@)
                    =~= all.take(i as int).filter(on_path).map_values(|e: UnusedExport| e.export_name@).push(e.export_name@));
            }
        }
        i = i + 1;
    }
    assert(all.take(all.len() as int) =~= all);
    if names.len() > 0 {
        return names;
    }
    let mut is_unused = false;
    let mut k: usize = 0;
    while k < unused_files.len()
        invariant
            k <= unused_files@.len(),
            is_unused == exists|j: int| 0 <= j < k && spec_path_eq(#[trigger] unused_files@[j].path@, path@),
        decreases unused_files@.len() - k,
    {
        if path_eq(unused_files[k].path.as_str(), path) {
            is_unused = true;
        }
        k = k + 1;
    }
    if !is_unused {
        return names;
    }
    let ghost value = |x: ExportSymbol| !x.is_type_only;
    let ghost xs = exports@;
    let mut j: usize = 0;
    while j < exports.len()
        invariant
            j <= xs.len(),
            xs == exports@,
            value == (|x: ExportSymbol| !x.is_type_only),
            string_views(names@) == xs.take(j as int).filter(value).map_values(|x: ExportSymbol| x.name@),
        decreases xs.len() - j,
    {
        let x = &exports[j];
        let ghost before = names@;
        proof {
            assert(xs.take(j + 1) =~= xs.take(j as int).push(*x));
            xs.take(j as int).lemma_filter_push(*x, value);
        }
        if !x.is_type_only {
            names.push(x.name.clone());
            proof {
                assert(string_views(names@) =~= string_views(before).push(x.name@));
                assert(xs.take(j as int).filter(value).push(*x).map_values(|x: ExportSymbol| x.name@)
                    =~= xs.take(j as int).filter(value).map_values(|x: ExportSymbol| x.name@).push(x.name@));
            }
        }
        j = j + 1;
    }
    assert(xs.take(xs.len() as int) =~= xs);
    names
}

} // verus!
