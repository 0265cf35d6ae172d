//! Per-file batches of fixes: unused exports, enum members and
//! dependencies grouped by the file they are removed from, so that each
//! file is read and written once.

use vstd::prelude::*;
use crate::paths::{path_eq, spec_path_eq};
use crate::results::{AnalysisResults, UnusedDependency};
use crate::rules::Located;

verus! {

/// A removal as plain values: the `package.json` path, the package name
/// and the section it is listed in.
pub type RemovalView = (Seq<char>, Seq<char>, Seq<char>);

/// The removals of one list of unused dependencies, all in one section.
pub open spec fn dep_removals(deps: Seq<UnusedDependency>, section: Seq<char>) -> Seq<RemovalView> {
    deps.map_values(|d: UnusedDependency| (d.path@, d.package_name@, section))
}

/// Every removal: production dependencies, then development, then
/// optional ones, each in order.
pub open spec fn all_removals(r: AnalysisResults) -> Seq<RemovalView> {
    dep_removals(r.unused_dependencies@, "dependencies"@)
        + dep_removals(r.unused_dev_dependencies@, "devDependencies"@)
        + dep_removals(r.unused_optional_dependencies@, "optionalDependencies"@)
}

/// A group as plain values: the `package.json` path and its removals
/// (package name, section).
pub type GroupView = (Seq<char>, Seq<(Seq<char>, Seq<char>)>);

/// The index of the first group whose path equals `p` (as a path).
pub open spec fn group_index(groups: Seq<GroupView>, p: Seq<char>) -> Option<int> {
    if exists|i: int| 0 <= i < groups.len() && spec_path_eq(#[trigger] groups[i].0, p) {
        Some(choose|i: int| 0 <= i < groups.len() && spec_path_eq(#[trigger] groups[i].0, p)
            && forall|j: int| 0 <= j < i ==> !spec_path_eq(#[trigger] groups[j].0, p))
    } else {
        None
    }
}

/// One removal added to the groups: appended to the first group with an
/// equal path, or starting a new group at the end.
pub open spec fn add_to_groups(groups: Seq<GroupView>, x: RemovalView) -> Seq<GroupView> {
    match group_index(groups, x.0) {
        Some(i) => groups.update(i, (groups[i].0, groups[i].1.push((x.1, x.2)))),
        None => groups.push((x.0, seq![(x.1, x.2)])),
    }
}

/// The removals grouped per `package.json`, groups in order of first
/// appearance and removals in order within each group.
pub open spec fn group_removals(items: Seq<RemovalView>) -> Seq<GroupView>
    decreases items.len(),
{
    if items.len() == 0 {
        Seq::empty()
    } else {
        add_to_groups(group_removals(items.drop_last()), items.last())
    }
}

/// The unused dependencies of one `package.json`, with their sections.
pub struct PackageRemovals {
    pub package_json: String,
    pub removals: Vec<(String, &'static str)>,
}

/// The view of a group.
pub open spec fn group_view(g: PackageRemovals) -> GroupView {
    (g.package_json@, g.removals@.map_values(|r: (String, &'static str)| (r.0@, r.1@)))
}

/// The view of the groups.
pub open spec fn groups_view(gs: Seq<PackageRemovals>) -> Seq<GroupView> {
    gs.map_values(|g: PackageRemovals| group_view(g))
}

/// Adds one removal to the groups.
fn add_removal(groups: &mut Vec<PackageRemovals>, path: &String, name: &String, section: &'static str)
    ensures
        groups_view(final(groups)@) == add_to_groups(groups_view(old(groups)@), (path@, name@, section@)),
{
    let ghost gv = groups_view(groups@);
    let mut k: usize = 0;
    let mut found = false;
    while k < groups.len()
        invariant_except_break
            !found,
        invariant
            k <= groups@.len(),
            gv == groups_view(groups@),
            gv.len() == groups@.len(),
            forall|j: int| 0 <= j < k ==> !spec_path_eq(#[trigger] gv[j].0, path@),
        ensures
            found ==> k < groups@.len() && spec_path_eq(gv[k as int].0, path@),
            !found ==> k == groups@.len(),
        decreases groups@.len() - k,
    {
        assert(gv[k as int].0 == groups@[k as int].package_json@);
        if path_eq(groups[k].package_json.as_str(), path.as_str()) {
            found = true;
            break;
        }
        k = k + 1;
    }
    if found {
        let ghost w = choose|q: int| 0 <= q < gv.len() && spec_path_eq(#[trigger] gv[q].0, path@)
            && forall|j: int| 0 <= j < q ==> !spec_path_eq(#[trigger] gv[j].0, path@);
        assert(w == k as int) by {
            if w < k as int {
                assert(!spec_path_eq(gv[w].0, path@));
            } else if w > k as int {
                assert(!spec_path_eq(gv[k as int].0, path@));
            }
        }
        let ghost before = groups@;
        let mut g = groups.remove(k);
        assert(g == before[k as int]);
        g.removals.push((name.clone(), section));
        groups.insert(k, g);
        proof {
            assert(groups@ =~= before.update(k as int, g));
            assert(group_view(g).1 =~= gv[k as int].1.push((name@, section@)));
            assert(groups_view(groups@) =~= gv.update(k as int, (gv[k as int].0, gv[k as int].1.push((name@, section@)))));
        }
    } else {
        let mut removals: Vec<(String, &'static str)> = Vec::new();
        removals.push((name.clone(), section));
        groups.push(PackageRemovals { package_json: path.clone(), removals });
        proof {
            assert(groups_view(groups@).last().1 =~= seq![(name@, section@)]);
            assert(groups_view(groups@) =~= gv.push((path@, seq![(name@, section@)])));
        }
    }
}

/// Adds the removals of one list of unused dependencies.
fn add_all(
    groups: &mut Vec<PackageRemovals>,
    deps: &Vec<UnusedDependency>,
    section: &'static str,
    Ghost(base): Ghost<Seq<RemovalView>>,
)
    requires
        groups_view(old(groups)@) == group_removals(base),
    ensures
        groups_view(final(groups)@) == group_removals(base + dep_removals(deps@, section@)),
{
    let ghost d = dep_removals(deps@, section@);
    let mut i: usize = 0;
    while i < deps.len()
        invariant
            i <= deps@.len(),
            d == dep_removals(deps@, section@),
            d.len() == deps@.len(),
            groups_view(groups@) == group_removals(base + d.take(i as int)),
        decreases deps@.len() - i,
    {
        proof {
            assert((base + d.take(i + 1)).drop_last() =~= base + d.take(i as int));
            assert((base + d.take(i + 1)).last() == d[i as int]);
        }
        add_removal(groups, &deps[i].path, &deps[i].package_name, section);
        i = i + 1;
    }
    assert(d.take(d.len() as int) =~= d);
}

/// Groups the unused production, development and optional dependencies by
/// their `package.json`; empty when there is none.
pub fn group_dependency_removals(results: &AnalysisResults) -> (r: Vec<PackageRemovals>)
    ensures
        groups_view(r@) == group_removals(all_removals(*results)),
{
    let mut groups: Vec<PackageRemovals> = Vec::new();
    proof {
        reveal_strlit("dependencies");
        reveal_strlit("devDependencies");
        reveal_strlit("optionalDependencies");
        assert(groups_view(groups@) =~= group_removals(Seq::empty()));
    }
    let ghost a = dep_removals(results.unused_dependencies@, "dependencies"@);
    let ghost b = dep_removals(results.unused_dev_dependencies@, "devDependencies"@);
    let ghost c = dep_removals(results.unused_optional_dependencies@, "optionalDependencies"@);
    add_all(&mut groups, &results.unused_dependencies, "dependencies", Ghost(Seq::empty()));
    assert(Seq::<RemovalView>::empty() + a =~= a);
    add_all(&mut groups, &results.unused_dev_dependencies, "devDependencies", Ghost(a));
    add_all(&mut groups, &results.unused_optional_dependencies, "optionalDependencies", Ghost(a + b));
    groups
}

/// A group of findings as plain values: the file and its findings.
pub type FileGroupView<T> = (Seq<char>, Seq<T>);

/// The index of the first group whose file equals `p` (as a path).
pub open spec fn file_group_index<T>(groups: Seq<FileGroupView<T>>, p: Seq<char>) -> Option<int> {
    if exists|i: int| 0 <= i < groups.len() && spec_path_eq(#[trigger] groups[i].0, p) {
        Some(choose|i: int| 0 <= i < groups.len() && spec_path_eq(#[trigger] groups[i].0, p)
            && forall|j: int| 0 <= j < i ==> !spec_path_eq(#[trigger] groups[j].0, p))
    } else {
        None
    }
}

/// The findings grouped by file: groups in order of first appearance,
/// findings in order within each group.
pub open spec fn group_by_path<T: Located>(items: Seq<T>) -> Seq<FileGroupView<T>>
    decreases items.len(),
{
    if items.len() == 0 {
        Seq::empty()
    } else {
        let prev = group_by_path(items.drop_last());
        let x = items.last();
        match file_group_index(prev, x.path_view()) {
            Some(i) => prev.update(i, (prev[i].0, prev[i].1.push(x))),
            None => prev.push((x.path_view(), seq![x])),
        }
    }
}

/// The findings of one file.
pub struct FileGroup<T> {
    pub path: String,
    pub items: Vec<T>,
}

/// The view of the groups.
pub open spec fn file_groups_view<T>(gs: Seq<FileGroup<T>>) -> Seq<FileGroupView<T>> {
    gs.map_values(|g: FileGroup<T>| (g.path@, g.items@))
}

/// Groups findings by their file.
pub fn group_by_file<T: Located>(items: Vec<T>) -> (r: Vec<FileGroup<T>>)
    ensures
        file_groups_view(r@) == group_by_path(items@),
{
    let ghost all = items@;
    let mut groups: Vec<FileGroup<T>> = Vec::new();
    assert(file_groups_view(groups@) =~= group_by_path(all.take(0)));
    for x in it: items
        invariant
            it.seq() == all,
            file_groups_view(groups@) == group_by_path(all.take(it.index() as int)),
    {
        let ghost i = it.index();
        let ghost gv = file_groups_view(groups@);
        proof {
            assert(all.take(i + 1).drop_last() =~= all.take(i as int));
            assert(all.take(i + 1).last() == x);
        }
        let mut k: usize = 0;
        let mut found = false;
        while k < groups.len()
            invariant_except_break
                !found,
            invariant
                k <= groups@.len(),
                gv == file_groups_view(groups@),
                gv.len() == groups@.len(),
                forall|j: int| 0 <= j < k ==> !spec_path_eq(#[trigger] gv[j].0, x.path_view()),
            ensures
                found ==> k < groups@.len() && spec_path_eq(gv[k as int].0, x.path_view()),
                !found ==> k == groups@.len(),
            decreases groups@.len() - k,
        {
            assert(gv[k as int].0 == groups@[k as int].path@);
            if path_eq(groups[k].path.as_str(), x.path_str()) {
                found = true;
                break;
            }
            k = k + 1;
        }
        if found {
            let ghost w = choose|q: int| 0 <= q < gv.len() && spec_path_eq(#[trigger] gv[q].0, x.path_view())
                && forall|j: int| 0 <= j < q ==> !spec_path_eq(#[trigger] gv[j].0, x.path_view());
            assert(w == k as int) by {
                if w < k as int {
                    assert(!spec_path_eq(gv[w].0, x.path_view()));
                } else if w > k as int {
                    assert(!spec_path_eq(gv[k as int].0, x.path_view()));
                }
            }
            let ghost before = groups@;
            let mut g = groups.remove(k);
            assert(g == before[k as int]);
            g.items.push(x);
            groups.insert(k, g);
            proof {
                assert(groups@ =~= before.update(k as int, g));
                assert(file_groups_view(groups@) =~= gv.update(k as int, (gv[k as int].0, gv[k as int].1.push(x))));
            }
        } else {
            let path = x.path_str().to_string();
            let mut v: Vec<T> = Vec::new();
            v.push(x);
            groups.push(FileGroup { path, items: v });
            proof {
                assert(file_groups_view(groups@).last().1 =~= seq![x]);
                assert(file_groups_view(groups@) =~= gv.push((x.path_view(), seq![x])));
            }
        }
    }
    assert(all.take(all.len() as int) =~= all);
    groups
}

} // verus!
