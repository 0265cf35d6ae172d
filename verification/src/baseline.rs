//! Baselines: stable keys for every finding, and the filters that keep
//! only findings absent from a saved baseline.

use vstd::prelude::*;
use crate::keyset::{fx_keys, fx_set_contains, key_set};
use crate::order::{lemma_map_same_elements, law_sort_seq_ignores_order, sort_chars, sort_seq};
use crate::paths::forward_slashes;
use crate::results::{
    AnalysisResults, BoundaryViolation, CircularDependency, DuplicateExport, TestOnlyDependency,
    TypeOnlyDependency, UnlistedDependency, UnresolvedImport, UnusedDependency, UnusedExport,
    UnusedFile, UnusedMember,
};
use crate::text::{
    chars_of, extend_all, join, join_chars, replace_char_exec,
    string_of, string_views, views, lemma_take_map_push,
};

verus! {

/// A finding with a stable key under which baselines record it.
pub trait Keyed: Sized {
    /// The key.
    spec fn key_view(&self) -> Seq<char>;

    /// Computes the key.
    fn baseline_key(&self) -> (k: Vec<char>)
        ensures
            k@ == self.key_view(),
    ;
}

/// `a:b`.
pub open spec fn colon_pair(a: Seq<char>, b: Seq<char>) -> Seq<char> {
    a + seq![':'] + b
}

/// Appends the characters of `t`.
fn push_str(out: &mut Vec<char>, t: &str)
    ensures
        final(out)@ == old(out)@ + t@,
{
    crate::text::extend_str(out, t);
}

impl Keyed for UnusedFile {
    open spec fn key_view(&self) -> Seq<char> {
        forward_slashes(self.path@)
    }

    fn baseline_key(&self) -> (k: Vec<char>) {
        replace_char_exec(self.path.as_str(), '\\', '/')
    }
}

impl Keyed for UnusedExport {
    /// `file:export_name`.
    open spec fn key_view(&self) -> Seq<char> {
        colon_pair(forward_slashes(self.path@), self.export_name@)
    }

    fn baseline_key(&self) -> (k: Vec<char>) {
        let mut k = replace_char_exec(self.path.as_str(), '\\', '/');
        k.push(':');
        push_str(&mut k, self.export_name.as_str());
        k
    }
}

impl Keyed for UnusedMember {
    /// `file:parent.member`.
    open spec fn key_view(&self) -> Seq<char> {
        colon_pair(forward_slashes(self.path@), self.parent_name@ + seq!['.'] + self.member_name@)
    }

    fn baseline_key(&self) -> (k: Vec<char>) {
        let mut k = replace_char_exec(self.path.as_str(), '\\', '/');
        k.push(':');
        push_str(&mut k, self.parent_name.as_str());
        k.push('.');
        push_str(&mut k, self.member_name.as_str());
        proof {
            assert(k@ =~= colon_pair(forward_slashes(self.path@), self.parent_name@ + seq!['.']
                + self.member_name@));
        }
        k
    }
}

/// The baseline key of an enum or class member is its path with forward
/// slashes, `:`, the parent's name, `.`, and the member's name.
pub proof fn law_member_key_shape(m: UnusedMember)
    ensures
        m.key_view() == forward_slashes(m.path@) + seq![':'] + m.parent_name@ + seq!['.'] + m.member_name@,
{
    assert(m.key_view() =~= forward_slashes(m.path@) + seq![':'] + m.parent_name@ + seq!['.'] + m.member_name@);
}

/// Members of one file with one name but different parents never share a
/// baseline key, so a baseline of one never hides the other.
pub proof fn law_member_key_tells_parents_apart(a: UnusedMember, b: UnusedMember)
    requires
        forward_slashes(a.path@) == forward_slashes(b.path@),
        a.member_name@ == b.member_name@,
        a.parent_name@ != b.parent_name@,
    ensures
        a.key_view() != b.key_view(),
{
    let f = forward_slashes(a.path@);
    assert(a.key_view() =~= f + seq![':'] + a.parent_name@ + seq!['.'] + a.member_name@);
    assert(b.key_view() =~= f + seq![':'] + b.parent_name@ + seq!['.'] + b.member_name@);
    let ka = a.key_view();
    let kb = b.key_view();
    if ka == kb {
        assert(ka.len() == f.len() + 1 + a.parent_name@.len() + 1 + a.member_name@.len());
        assert(kb.len() == f.len() + 1 + b.parent_name@.len() + 1 + b.member_name@.len());
        assert(a.parent_name@.len() == b.parent_name@.len());
        let lo = f.len() + 1;
        let hi = lo + a.parent_name@.len();
        assert(ka.subrange(lo as int, hi as int) =~= a.parent_name@);
        assert(kb.subrange(lo as int, hi as int) =~= b.parent_name@);
    }
}

impl Keyed for UnresolvedImport {
    /// `file:specifier`.
    open spec fn key_view(&self) -> Seq<char> {
        colon_pair(forward_slashes(self.path@), self.specifier@)
    }

    fn baseline_key(&self) -> (k: Vec<char>) {
        let mut k = replace_char_exec(self.path.as_str(), '\\', '/');
        k.push(':');
        push_str(&mut k, self.specifier.as_str());
        k
    }
}

impl Keyed for UnusedDependency {
    /// The package name.
    open spec fn key_view(&self) -> Seq<char> {
        self.package_name@
    }

    fn baseline_key(&self) -> (k: Vec<char>) {
        chars_of(self.package_name.as_str())
    }
}

impl Keyed for UnlistedDependency {
    /// The package name.
    open spec fn key_view(&self) -> Seq<char> {
        self.package_name@
    }

    fn baseline_key(&self) -> (k: Vec<char>) {
        chars_of(self.package_name.as_str())
    }
}

impl Keyed for TypeOnlyDependency {
    /// The package name.
    open spec fn key_view(&self) -> Seq<char> {
        self.package_name@
    }

    fn baseline_key(&self) -> (k: Vec<char>) {
        chars_of(self.package_name.as_str())
    }
}

impl Keyed for TestOnlyDependency {
    /// The package name.
    open spec fn key_view(&self) -> Seq<char> {
        self.package_name@
    }

    fn baseline_key(&self) -> (k: Vec<char>) {
        chars_of(self.package_name.as_str())
    }
}

impl Keyed for BoundaryViolation {
    /// `from_path->to_path`.
    open spec fn key_view(&self) -> Seq<char> {
        boundary_key(self.from_path@, self.to_path@)
    }

    fn baseline_key(&self) -> (k: Vec<char>) {
        boundary_violation_key(self)
    }
}

impl Keyed for CircularDependency {
    /// The sorted file paths joined with `->`.
    open spec fn key_view(&self) -> Seq<char> {
        circular_key(string_views(self.files@))
    }

    fn baseline_key(&self) -> (k: Vec<char>) {
        circular_dep_key(self)
    }
}

impl Keyed for DuplicateExport {
    /// `name|sorted_paths`.
    open spec fn key_view(&self) -> Seq<char> {
        duplicate_key(self.export_name@, self.locations@.map_values(|l: crate::results::DuplicateLocation| l.path@))
    }

    fn baseline_key(&self) -> (k: Vec<char>) {
        duplicate_export_key(self)
    }
}

/// Key of a boundary violation: `from->to` with forward slashes.
pub open spec fn boundary_key(from: Seq<char>, to: Seq<char>) -> Seq<char> {
    forward_slashes(from) + seq!['-', '>'] + forward_slashes(to)
}

/// Key of a circular dependency: its files, with forward slashes, sorted
/// and joined with `->`.
pub open spec fn circular_key(files: Seq<Seq<char>>) -> Seq<char> {
    join(sort_seq(files.map_values(slashed())), seq!['-', '>'])
}

/// `forward_slashes` as a function value.
pub open spec fn slashed() -> spec_fn(Seq<char>) -> Seq<char> {
    |f: Seq<char>| forward_slashes(f)
}

/// Key of a duplicate export: `name|` followed by its sorted paths joined
/// with `|`.
pub open spec fn duplicate_key(name: Seq<char>, paths: Seq<Seq<char>>) -> Seq<char> {
    name + seq!['|'] + join(sort_seq(paths.map_values(slashed())), seq!['|'])
}

/// Generate a stable key for a boundary violation: `from_path->to_path`.
pub fn boundary_violation_key(v: &BoundaryViolation) -> (k: Vec<char>)
    ensures
        k@ == boundary_key(v.from_path@, v.to_path@),
{
    let mut k = replace_char_exec(v.from_path.as_str(), '\\', '/');
    k.push('-');
    k.push('>');
    let t = replace_char_exec(v.to_path.as_str(), '\\', '/');
    extend_all(&mut k, &t);
    proof {
        assert(k@ =~= boundary_key(v.from_path@, v.to_path@));
    }
    k
}

/// Generate a stable key for a circular dependency based on sorted file paths.
pub fn circular_dep_key(dep: &CircularDependency) -> (k: Vec<char>)
    ensures
        k@ == circular_key(string_views(dep.files@)),
{
    let mut paths: Vec<Vec<char>> = Vec::new();
    let mut i: usize = 0;
    while i < dep.files.len()
        invariant
            i <= dep.files@.len(),
            views(paths@) == string_views(dep.files@).take(i as int).map_values(
                |f: Seq<char>| forward_slashes(f),
            ),
        decreases dep.files@.len() - i,
    {
        let p = replace_char_exec(dep.files[i].as_str(), '\\', '/');
        let ghost before = paths@;
        paths.push(p);
        proof {
            lemma_take_map_push(string_views(dep.files@), |f: Seq<char>| forward_slashes(f), i as int);
            assert(views(paths@) =~= views(before).push(p@));
        }
        i = i + 1;
    }
    assert(string_views(dep.files@).take(dep.files@.len() as int) =~= string_views(dep.files@));
    let sorted = sort_chars(&paths);
    let mut sep: Vec<char> = Vec::new();
    sep.push('-');
    sep.push('>');
    proof {
        assert(sep@ =~= seq!['-', '>']);
    }
    join_chars(&sorted, &sep)
}

/// Generate a stable key for a duplicate export: `name|sorted_paths`.
pub fn duplicate_export_key(dup: &DuplicateExport) -> (k: Vec<char>)
    ensures
        k@ == duplicate_key(dup.export_name@, dup.locations@.map_values(|l: crate::results::DuplicateLocation| l.path@)),
{
    let ghost paths_view = dup.locations@.map_values(|l: crate::results::DuplicateLocation| l.path@);
    let mut locs: Vec<Vec<char>> = Vec::new();
    let mut i: usize = 0;
    while i < dup.locations.len()
        invariant
            i <= dup.locations@.len(),
            paths_view == dup.locations@.map_values(|l: crate::results::DuplicateLocation| l.path@),
            views(locs@) == paths_view.take(i as int).map_values(|f: Seq<char>| forward_slashes(f)),
        decreases dup.locations@.len() - i,
    {
        let p = replace_char_exec(dup.locations[i].path.as_str(), '\\', '/');
        let ghost before = locs@;
        locs.push(p);
        proof {
            lemma_take_map_push(paths_view, |f: Seq<char>| forward_slashes(f), i as int);
            assert(views(locs@) =~= views(before).push(p@));
        }
        i = i + 1;
    }
    assert(paths_view.take(dup.locations@.len() as int) =~= paths_view);
    let sorted = sort_chars(&locs);
    let mut sep: Vec<char> = Vec::new();
    sep.push('|');
    let joined = join_chars(&sorted, &sep);
    let mut k = chars_of(dup.export_name.as_str());
    k.push('|');
    extend_all(&mut k, &joined);
    proof {
        assert(sep@ =~= seq!['|']);
    }
    k
}


/// The keys of `v`, in order.
pub fn keys_of<T: Keyed>(v: &Vec<T>) -> (r: Vec<String>)
    ensures
        string_views(r@) == v@.map_values(|x: T| x.key_view()),
{
    let mut r: Vec<String> = Vec::new();
    let mut i: usize = 0;
    while i < v.len()
        invariant
            i <= v@.len(),
            string_views(r@) == v@.take(i as int).map_values(|x: T| x.key_view()),
        decreases v@.len() - i,
    {
        let k = v[i].baseline_key();
        let ks = string_of(&k);
        let ghost before = r@;
        r.push(ks);
        proof {
            lemma_take_map_push(v@, |x: T| x.key_view(), i as int);
            assert(string_views(r@) =~= string_views(before).push(ks@));
        }
        i = i + 1;
    }
    assert(v@.take(v@.len() as int) =~= v@);
    r
}

/// Whether a finding is not recorded in a baseline list.
pub open spec fn is_new<T: Keyed>(x: T, baseline: Seq<String>) -> bool {
    !string_views(baseline).contains(x.key_view())
}

/// The findings of `v` whose keys are not in `baseline`, in order.
pub fn retain_new<T: Keyed>(v: Vec<T>, baseline: &Vec<String>) -> (r: Vec<T>)
    ensures
        r@ == v@.filter(|x: T| is_new(x, baseline@)),
{
    let ghost pred = |x: T| is_new(x, baseline@);
    let ghost all = v@;
    let known = key_set(baseline);
    let mut r: Vec<T> = Vec::new();
    for x in it: v
        invariant
            pred == (|x: T| is_new(x, baseline@)),
            forall|q: Seq<char>| #[trigger] fx_keys(known).contains(q) <==> string_views(baseline@).contains(q),
            it.seq() == all,
            r@ == all.take(it.index() as int).filter(pred),
    {
        let ghost i = it.index();
        proof {
            assert(all.take(i + 1) =~= all.take(i as int).push(x));
            all.take(i as int).lemma_filter_push(x, pred);
        }
        let k = string_of(&x.baseline_key());
        if !fx_set_contains(&known, k.as_str()) {
            r.push(x);
        }
    }
    assert(all.take(all.len() as int) =~= all);
    r
}

/// Baseline data for comparison: one list of keys per issue category.
pub struct BaselineData {
    pub unused_files: Vec<String>,
    pub unused_exports: Vec<String>,
    pub unused_types: Vec<String>,
    pub unused_dependencies: Vec<String>,
    pub unused_dev_dependencies: Vec<String>,
    /// Circular dependency chains, keyed by sorted file paths joined with `->`.
    pub circular_dependencies: Vec<String>,
    /// Unused optional dependencies, keyed by package name.
    pub unused_optional_dependencies: Vec<String>,
    /// Unused enum members, keyed by `file:parent.member`.
    pub unused_enum_members: Vec<String>,
    /// Unused class members, keyed by `file:parent.member`.
    pub unused_class_members: Vec<String>,
    /// Unresolved imports, keyed by `file:specifier`.
    pub unresolved_imports: Vec<String>,
    /// Unlisted dependencies, keyed by package name.
    pub unlisted_dependencies: Vec<String>,
    /// Duplicate exports, keyed by export name and sorted paths.
    pub duplicate_exports: Vec<String>,
    /// Type-only dependencies, keyed by package name.
    pub type_only_dependencies: Vec<String>,
    /// Test-only dependencies, keyed by package name.
    pub test_only_dependencies: Vec<String>,
    /// Boundary violations, keyed by `from_path->to_path`.
    pub boundary_violations: Vec<String>,
}

/// The keys of the findings of one category.
pub open spec fn keys_view<T: Keyed>(v: Seq<T>) -> Seq<Seq<char>> {
    v.map_values(|x: T| x.key_view())
}

/// A finding list with the findings recorded in `baseline` removed.
pub open spec fn new_only<T: Keyed>(v: Seq<T>, baseline: Seq<String>) -> Seq<T> {
    v.filter(|x: T| is_new(x, baseline))
}

impl BaselineData {
    /// Whether every key list of this baseline is what `from_results` builds
    /// from `r`.
    pub open spec fn records(&self, r: &AnalysisResults) -> bool {
        &&& string_views(self.unused_files@) == keys_view(r.unused_files@)
        &&& string_views(self.unused_exports@) == keys_view(r.unused_exports@)
        &&& string_views(self.unused_types@) == keys_view(r.unused_types@)
        &&& string_views(self.unused_dependencies@) == keys_view(r.unused_dependencies@)
        &&& string_views(self.unused_dev_dependencies@) == keys_view(r.unused_dev_dependencies@)
        &&& string_views(self.circular_dependencies@) == keys_view(r.circular_dependencies@)
        &&& string_views(self.unused_optional_dependencies@) == keys_view(
            r.unused_optional_dependencies@,
        )
        &&& string_views(self.unused_enum_members@) == keys_view(r.unused_enum_members@)
        &&& string_views(self.unused_class_members@) == keys_view(r.unused_class_members@)
        &&& string_views(self.unresolved_imports@) == keys_view(r.unresolved_imports@)
        &&& string_views(self.unlisted_dependencies@) == keys_view(r.unlisted_dependencies@)
        &&& string_views(self.duplicate_exports@) == keys_view(r.duplicate_exports@)
        &&& string_views(self.type_only_dependencies@) == keys_view(r.type_only_dependencies@)
        &&& string_views(self.test_only_dependencies@) == keys_view(r.test_only_dependencies@)
        &&& string_views(self.boundary_violations@) == keys_view(r.boundary_violations@)
    }

    /// Build a baseline from the current results: the key of every finding,
    /// category by category, in order.
    pub fn from_results(results: &AnalysisResults) -> (b: BaselineData)
        ensures
            b.records(results),
    {
        BaselineData {
            unused_files: keys_of(&results.unused_files),
            unused_exports: keys_of(&results.unused_exports),
            unused_types: keys_of(&results.unused_types),
            unused_dependencies: keys_of(&results.unused_dependencies),
            unused_dev_dependencies: keys_of(&results.unused_dev_dependencies),
            circular_dependencies: keys_of(&results.circular_dependencies),
            unused_optional_dependencies: keys_of(&results.unused_optional_dependencies),
            unused_enum_members: keys_of(&results.unused_enum_members),
            unused_class_members: keys_of(&results.unused_class_members),
            unresolved_imports: keys_of(&results.unresolved_imports),
            unlisted_dependencies: keys_of(&results.unlisted_dependencies),
            duplicate_exports: keys_of(&results.duplicate_exports),
            type_only_dependencies: keys_of(&results.type_only_dependencies),
            test_only_dependencies: keys_of(&results.test_only_dependencies),
            boundary_violations: keys_of(&results.boundary_violations),
        }
    }
}

/// Whether `r` holds exactly the findings of `old` that `baseline` does not
/// record, each category in its original order.
pub open spec fn filtered_by_baseline(r: &AnalysisResults, old: &AnalysisResults, baseline: &BaselineData) -> bool {
    &&& r.unused_files@ == new_only(old.unused_files@, baseline.unused_files@)
    &&& r.unused_exports@ == new_only(old.unused_exports@, baseline.unused_exports@)
    &&& r.unused_types@ == new_only(old.unused_types@, baseline.unused_types@)
    &&& r.unused_dependencies@ == new_only(old.unused_dependencies@, baseline.unused_dependencies@)
    &&& r.unused_dev_dependencies@ == new_only(old.unused_dev_dependencies@, baseline.unused_dev_dependencies@)
    &&& r.circular_dependencies@ == new_only(old.circular_dependencies@, baseline.circular_dependencies@)
    &&& r.unused_optional_dependencies@ == new_only(
        old.unused_optional_dependencies@,
        baseline.unused_optional_dependencies@,
    )
    &&& r.unused_enum_members@ == new_only(old.unused_enum_members@, baseline.unused_enum_members@)
    &&& r.unused_class_members@ == new_only(old.unused_class_members@, baseline.unused_class_members@)
    &&& r.unresolved_imports@ == new_only(old.unresolved_imports@, baseline.unresolved_imports@)
    &&& r.unlisted_dependencies@ == new_only(old.unlisted_dependencies@, baseline.unlisted_dependencies@)
    &&& r.duplicate_exports@ == new_only(old.duplicate_exports@, baseline.duplicate_exports@)
    &&& r.type_only_dependencies@ == new_only(old.type_only_dependencies@, baseline.type_only_dependencies@)
    &&& r.test_only_dependencies@ == new_only(old.test_only_dependencies@, baseline.test_only_dependencies@)
    &&& r.boundary_violations@ == new_only(old.boundary_violations@, baseline.boundary_violations@)
}

/// Filter results to only include issues not present in the baseline.
pub fn filter_new_issues(results: AnalysisResults, baseline: &BaselineData) -> (r: AnalysisResults)
    ensures
        filtered_by_baseline(&r, &results, baseline),
{
    let ghost old_r = results;
    let AnalysisResults {
        unused_files,
        unused_exports,
        unused_types,
        unused_dependencies,
        unused_dev_dependencies,
        unused_optional_dependencies,
        unused_enum_members,
        unused_class_members,
        unresolved_imports,
        unlisted_dependencies,
        duplicate_exports,
        type_only_dependencies,
        test_only_dependencies,
        circular_dependencies,
        boundary_violations,
    } = results;
    AnalysisResults {
        unused_files: retain_new(unused_files, &baseline.unused_files),
        unused_exports: retain_new(unused_exports, &baseline.unused_exports),
        unused_types: retain_new(unused_types, &baseline.unused_types),
        unused_dependencies: retain_new(unused_dependencies, &baseline.unused_dependencies),
        unused_dev_dependencies: retain_new(unused_dev_dependencies, &baseline.unused_dev_dependencies),
        unused_optional_dependencies: retain_new(
            unused_optional_dependencies,
            &baseline.unused_optional_dependencies,
        ),
        unused_enum_members: retain_new(unused_enum_members, &baseline.unused_enum_members),
        unused_class_members: retain_new(unused_class_members, &baseline.unused_class_members),
        unresolved_imports: retain_new(unresolved_imports, &baseline.unresolved_imports),
        unlisted_dependencies: retain_new(unlisted_dependencies, &baseline.unlisted_dependencies),
        duplicate_exports: retain_new(duplicate_exports, &baseline.duplicate_exports),
        type_only_dependencies: retain_new(type_only_dependencies, &baseline.type_only_dependencies),
        test_only_dependencies: retain_new(test_only_dependencies, &baseline.test_only_dependencies),
        circular_dependencies: retain_new(circular_dependencies, &baseline.circular_dependencies),
        boundary_violations: retain_new(boundary_violations, &baseline.boundary_violations),
    }
}


/// A category filtered against its own keys keeps nothing.
proof fn lemma_own_keys_filter_all<T: Keyed>(v: Seq<T>, baseline: Seq<String>)
    requires
        string_views(baseline) == keys_view(v),
    ensures
        new_only(v, baseline).len() == 0,
{
    let pred = |x: T| is_new(x, baseline);
    assert forall|i: int| 0 <= i < v.len() implies !pred(v[i]) by {
        assert(string_views(baseline)[i] == v[i].key_view());
    }
    assert(v.all(|x: T| !pred(x)));
    v.lemma_all_neg_filter_empty(pred);
}

/// A category filtered against an empty key list keeps everything.
proof fn lemma_empty_keys_filter_none<T: Keyed>(v: Seq<T>, baseline: Seq<String>)
    requires
        baseline.len() == 0,
    ensures
        new_only(v, baseline) == v,
    decreases v.len(),
{
    reveal(Seq::filter);
    if v.len() > 0 {
        lemma_empty_keys_filter_none(v.drop_last(), baseline);
        assert(!string_views(baseline).contains(v.last().key_view()));
        assert(v.drop_last().push(v.last()) =~= v);
    }
}

/// Filtering results against the baseline built from those same results
/// leaves no finding in any category.
pub proof fn law_baseline_absorbs_own_findings(
    results: AnalysisResults,
    baseline: BaselineData,
    filtered: AnalysisResults,
)
    requires
        baseline.records(&results),
        filtered_by_baseline(&filtered, &results, &baseline),
    ensures
        filtered.issue_count() == 0,
{
    lemma_own_keys_filter_all(results.unused_files@, baseline.unused_files@);
    lemma_own_keys_filter_all(results.unused_exports@, baseline.unused_exports@);
    lemma_own_keys_filter_all(results.unused_types@, baseline.unused_types@);
    lemma_own_keys_filter_all(results.unused_dependencies@, baseline.unused_dependencies@);
    lemma_own_keys_filter_all(results.unused_dev_dependencies@, baseline.unused_dev_dependencies@);
    lemma_own_keys_filter_all(results.circular_dependencies@, baseline.circular_dependencies@);
    lemma_own_keys_filter_all(
        results.unused_optional_dependencies@,
        baseline.unused_optional_dependencies@,
    );
    lemma_own_keys_filter_all(results.unused_enum_members@, baseline.unused_enum_members@);
    lemma_own_keys_filter_all(results.unused_class_members@, baseline.unused_class_members@);
    lemma_own_keys_filter_all(results.unresolved_imports@, baseline.unresolved_imports@);
    lemma_own_keys_filter_all(results.unlisted_dependencies@, baseline.unlisted_dependencies@);
    lemma_own_keys_filter_all(results.duplicate_exports@, baseline.duplicate_exports@);
    lemma_own_keys_filter_all(results.type_only_dependencies@, baseline.type_only_dependencies@);
    lemma_own_keys_filter_all(results.test_only_dependencies@, baseline.test_only_dependencies@);
    lemma_own_keys_filter_all(results.boundary_violations@, baseline.boundary_violations@);
}

/// Whether every key list of a baseline is empty.
pub open spec fn is_empty_baseline(b: &BaselineData) -> bool {
    &&& b.unused_files@.len() == 0
    &&& b.unused_exports@.len() == 0
    &&& b.unused_types@.len() == 0
    &&& b.unused_dependencies@.len() == 0
    &&& b.unused_dev_dependencies@.len() == 0
    &&& b.circular_dependencies@.len() == 0
    &&& b.unused_optional_dependencies@.len() == 0
    &&& b.unused_enum_members@.len() == 0
    &&& b.unused_class_members@.len() == 0
    &&& b.unresolved_imports@.len() == 0
    &&& b.unlisted_dependencies@.len() == 0
    &&& b.duplicate_exports@.len() == 0
    &&& b.type_only_dependencies@.len() == 0
    &&& b.test_only_dependencies@.len() == 0
    &&& b.boundary_violations@.len() == 0
}

/// Whether two results hold the same findings in every category.
pub open spec fn same_findings(a: &AnalysisResults, b: &AnalysisResults) -> bool {
    &&& a.unused_files@ == b.unused_files@
    &&& a.unused_exports@ == b.unused_exports@
    &&& a.unused_types@ == b.unused_types@
    &&& a.unused_dependencies@ == b.unused_dependencies@
    &&& a.unused_dev_dependencies@ == b.unused_dev_dependencies@
    &&& a.unused_optional_dependencies@ == b.unused_optional_dependencies@
    &&& a.unused_enum_members@ == b.unused_enum_members@
    &&& a.unused_class_members@ == b.unused_class_members@
    &&& a.unresolved_imports@ == b.unresolved_imports@
    &&& a.unlisted_dependencies@ == b.unlisted_dependencies@
    &&& a.duplicate_exports@ == b.duplicate_exports@
    &&& a.type_only_dependencies@ == b.type_only_dependencies@
    &&& a.test_only_dependencies@ == b.test_only_dependencies@
    &&& a.circular_dependencies@ == b.circular_dependencies@
    &&& a.boundary_violations@ == b.boundary_violations@
}

/// Filtering against an empty baseline keeps every finding.
pub proof fn law_empty_baseline_keeps_all(
    results: AnalysisResults,
    baseline: BaselineData,
    filtered: AnalysisResults,
)
    requires
        is_empty_baseline(&baseline),
        filtered_by_baseline(&filtered, &results, &baseline),
    ensures
        same_findings(&filtered, &results),
{
    lemma_empty_keys_filter_none(results.unused_files@, baseline.unused_files@);
    lemma_empty_keys_filter_none(results.unused_exports@, baseline.unused_exports@);
    lemma_empty_keys_filter_none(results.unused_types@, baseline.unused_types@);
    lemma_empty_keys_filter_none(results.unused_dependencies@, baseline.unused_dependencies@);
    lemma_empty_keys_filter_none(results.unused_dev_dependencies@, baseline.unused_dev_dependencies@);
    lemma_empty_keys_filter_none(results.circular_dependencies@, baseline.circular_dependencies@);
    lemma_empty_keys_filter_none(
        results.unused_optional_dependencies@,
        baseline.unused_optional_dependencies@,
    );
    lemma_empty_keys_filter_none(results.unused_enum_members@, baseline.unused_enum_members@);
    lemma_empty_keys_filter_none(results.unused_class_members@, baseline.unused_class_members@);
    lemma_empty_keys_filter_none(results.unresolved_imports@, baseline.unresolved_imports@);
    lemma_empty_keys_filter_none(results.unlisted_dependencies@, baseline.unlisted_dependencies@);
    lemma_empty_keys_filter_none(results.duplicate_exports@, baseline.duplicate_exports@);
    lemma_empty_keys_filter_none(results.type_only_dependencies@, baseline.type_only_dependencies@);
    lemma_empty_keys_filter_none(results.test_only_dependencies@, baseline.test_only_dependencies@);
    lemma_empty_keys_filter_none(results.boundary_violations@, baseline.boundary_violations@);
}

/// Per-category change between the current results and a baseline.
#[derive(Clone, Copy, Debug, PartialEq, Eq, Structural)]
pub struct CategoryDelta {
    pub current: usize,
    pub baseline: usize,
    pub delta: i64,
}

/// Changes between the current results and a saved baseline, shown as
/// +/- counts in the failure summary of the combined command.
#[derive(Clone, Debug)]
pub struct BaselineDeltas {
    /// Net change in the total issue count (positive: more issues).
    pub total_delta: i64,
    /// Per-category changes keyed by category name.
    pub per_category: Vec<(String, CategoryDelta)>,
}

/// The key of a circular dependency does not depend on the order in which
/// its files are listed.
pub proof fn law_circular_key_ignores_order(a: Seq<Seq<char>>, b: Seq<Seq<char>>)
    requires
        a.to_multiset() == b.to_multiset(),
    ensures
        circular_key(a) == circular_key(b),
{
    lemma_map_same_elements(a, b, slashed());
    law_sort_seq_ignores_order(a.map_values(slashed()), b.map_values(slashed()));
}

/// The key of a duplicate export does not depend on the order in which its
/// locations are listed.
pub proof fn law_duplicate_key_ignores_order(name: Seq<char>, a: Seq<Seq<char>>, b: Seq<Seq<char>>)
    requires
        a.to_multiset() == b.to_multiset(),
    ensures
        duplicate_key(name, a) == duplicate_key(name, b),
{
    lemma_map_same_elements(a, b, slashed());
    law_sort_seq_ignores_order(a.map_values(slashed()), b.map_values(slashed()));
}

} // verus!
