//! Whole-file fixes: which unused enum members and exports of one file can
//! be removed, and the file's text after removing them. Reading and
//! writing files is left to the caller.

use vstd::prelude::*;
use vstd::seq_lib::group_to_multiset_ensures;
use crate::fix::{
    export_list_start, export_list_without, is_export_list, list_body, list_braces_ordered,
    remove_member_from_single_line, remove_specifiers_from_export_list, single_line_without_member,
    str_views, strip_or_keep, type_list_form,
};
use crate::results::{UnusedExport, UnusedMember};
use crate::text::{
    chars_of, contains_exec, contains_str, ends_with, extend_all, extend_range, find_char, find_exec,
    find_str, lemma_find_str_fits,
    has_prefix_at, is_ws, join, join_chars, lead_ws, lead_ws_count, lemma_find_char, split_str,
    split_str_exec, starts_with, string_of, sub_vec, trim_start, views,
};

verus! {

/// The line ending of a file: CRLF when the text holds one, else LF.
pub open spec fn line_ending(content: Seq<char>) -> Seq<char> {
    if contains_str(content, "\r\n"@) {
        "\r\n"@
    } else {
        "\n"@
    }
}

/// The lines of a file, split at its line ending.
pub open spec fn file_lines(content: Seq<char>) -> Seq<Seq<char>> {
    split_str(content, line_ending(content))
}

/// Edited lines joined with the file's line ending, with a final line
/// ending added when the file had one and the joined text lacks it.
pub open spec fn rejoin(content: Seq<char>, lines: Seq<Seq<char>>) -> Seq<char> {
    let le = line_ending(content);
    let j = join(lines, le);
    if ends_with(content, le) && !ends_with(j, le) {
        j + le
    } else {
        j
    }
}

/// The 0-based index of a 1-based line (line 0 counts as the first).
pub open spec fn line_index(line: u32) -> int {
    if line == 0 {
        0
    } else {
        line - 1
    }
}

/// A planned fix as plain values: line index, name, parent name.
pub type FixView = (int, Seq<char>, Seq<char>);

/// `x` inserted after the last fix whose line index is not smaller.
pub open spec fn insert_fix(s: Seq<FixView>, x: FixView) -> Seq<FixView>
    decreases s.len(),
{
    if s.len() == 0 {
        seq![x]
    } else if s.last().0 >= x.0 {
        s.push(x)
    } else {
        insert_fix(s.drop_last(), x).push(s.last())
    }
}

/// Fixes by descending line index; fixes of one line keep their order.
pub open spec fn sort_fixes(s: Seq<FixView>) -> Seq<FixView>
    decreases s.len(),
{
    if s.len() == 0 {
        Seq::empty()
    } else {
        insert_fix(sort_fixes(s.drop_last()), s.last())
    }
}

/// The first fix of each run of fixes with the same line index.
pub open spec fn dedup_fixes(s: Seq<FixView>) -> Seq<FixView>
    decreases s.len(),
{
    if s.len() == 0 {
        Seq::empty()
    } else {
        let d = dedup_fixes(s.drop_last());
        if d.len() > 0 && d.last().0 == s.last().0 {
            d
        } else {
            d.push(s.last())
        }
    }
}

/// The lines kept after editing: each line replaced by its edit, or dropped
/// when the edit gives `None`.
pub open spec fn keep_edits(lines: Seq<Seq<char>>, edit: spec_fn(int, Seq<char>) -> Option<Seq<char>>) -> Seq<Seq<char>>
    decreases lines.len(),
{
    if lines.len() == 0 {
        Seq::empty()
    } else {
        let prev = keep_edits(lines.drop_last(), edit);
        match edit(lines.len() - 1, lines.last()) {
            Some(l) => prev.push(l),
            None => prev,
        }
    }
}

/// `insert_fix` as a split at the point where the smaller suffix starts.
proof fn lemma_insert_fix_split(s: Seq<FixView>, x: FixView, p: int)
    requires
        0 <= p <= s.len(),
        p > 0 ==> s[p - 1].0 >= x.0,
        forall|j: int| p <= j < s.len() ==> (#[trigger] s[j]).0 < x.0,
    ensures
        insert_fix(s, x) == s.take(p) + seq![x] + s.skip(p),
    decreases s.len(),
{
    if s.len() == 0 {
        assert(s.take(p) + seq![x] + s.skip(p) =~= seq![x]);
    } else if p == s.len() {
        assert(s.take(p) + seq![x] + s.skip(p) =~= s.push(x));
    } else {
        lemma_insert_fix_split(s.drop_last(), x, p);
        assert(s.drop_last().take(p) + seq![x] + s.drop_last().skip(p) + seq![s.last()] =~= s.take(p)
            + seq![x] + s.skip(p));
    }
}

/// The line ending of a text.
fn line_ending_exec(content: &Vec<char>) -> (r: Vec<char>)
    ensures
        r@ == line_ending(content@),
{
    let crlf = chars_of("\r\n");
    if contains_exec(content, &crlf) {
        crlf
    } else {
        chars_of("\n")
    }
}

/// Whether `s` ends with `p`.
fn ends_with_exec(s: &Vec<char>, p: &Vec<char>) -> (r: bool)
    ensures
        r == ends_with(s@, p@),
{
    if p.len() > s.len() {
        return false;
    }
    let r = crate::text::has_prefix_at(s, s.len() - p.len(), p);
    assert(s@.skip(s@.len() - p@.len()).take(p@.len() as int) =~= s@.skip(s@.len() - p@.len()));
    r
}

/// Joins edited lines as `rejoin` does.
fn rejoin_exec(content: &Vec<char>, le: &Vec<char>, lines: &Vec<Vec<char>>) -> (r: Vec<char>)
    requires
        le@ == line_ending(content@),
    ensures
        r@ == rejoin(content@, views(lines@)),
{
    let mut j = join_chars(lines, le);
    if ends_with_exec(content, le) && !ends_with_exec(&j, le) {
        extend_all(&mut j, le);
    }
    j
}

/// A planned removal of an unused enum member.
pub struct EnumMemberFix {
    /// 0-based line index.
    pub line_idx: usize,
    pub member_name: String,
    pub parent_name: String,
}

/// The view of an enum member fix.
pub open spec fn enum_fix_view(f: EnumMemberFix) -> FixView {
    (f.line_idx as int, f.member_name@, f.parent_name@)
}

/// Whether a member can be fixed: its line exists and holds its name.
pub open spec fn member_fixable(m: UnusedMember, lines: Seq<Seq<char>>) -> bool {
    line_index(m.line) < lines.len() && contains_str(lines[line_index(m.line)], m.member_name@)
}

/// The fix a member asks for.
pub open spec fn member_candidate(m: UnusedMember) -> FixView {
    (line_index(m.line), m.member_name@, m.parent_name@)
}

/// The enum member fixes of a file: the fixable members, by descending
/// line, one per line (the first member listed for it).
pub open spec fn enum_fix_plan(content: Seq<char>, members: Seq<UnusedMember>) -> Seq<FixView> {
    let lines = file_lines(content);
    dedup_fixes(
        sort_fixes(
            members.filter(|m: UnusedMember| member_fixable(m, lines)).map_values(
                |m: UnusedMember| member_candidate(m),
            ),
        ),
    )
}

/// The member of the first fix on line `k`, if any.
pub open spec fn first_fix_at(fixes: Seq<FixView>, k: int) -> Option<Seq<char>>
    decreases fixes.len(),
{
    if fixes.len() == 0 {
        None
    } else if fixes[0].0 == k {
        Some(fixes[0].1)
    } else {
        first_fix_at(fixes.drop_first(), k)
    }
}

/// Whether a line holds both braces of an enum body.
pub open spec fn single_line_enum(line: Seq<char>) -> bool {
    find_char(line, '{') is Some && find_char(line, '}') is Some
}

/// How one line changes: a single-line enum loses the member; a line of a
/// multi-line enum is dropped; other lines stay.
pub open spec fn enum_line_edit(line: Seq<char>, fix: Option<Seq<char>>) -> Option<Seq<char>> {
    match fix {
        None => Some(line),
        Some(m) => if single_line_enum(line) {
            Some(single_line_without_member(line, m))
        } else {
            None
        },
    }
}

/// The text of a file after its enum member fixes.
pub open spec fn enum_fixed_content(content: Seq<char>, fixes: Seq<FixView>) -> Seq<char> {
    rejoin(
        content,
        keep_edits(file_lines(content), |k: int, l: Seq<char>| enum_line_edit(l, first_fix_at(fixes, k))),
    )
}

/// The member of the first fix on line `k`.
fn first_fix_exec(fixes: &Vec<EnumMemberFix>, k: usize) -> (r: Option<usize>)
    ensures
        match r {
            Some(i) => i < fixes@.len() && first_fix_at(fixes@.map_values(|f: EnumMemberFix| enum_fix_view(f)), k as int) == Some(fixes@[i as int].member_name@),
            None => first_fix_at(fixes@.map_values(|f: EnumMemberFix| enum_fix_view(f)), k as int) is None,
        },
{
    let ghost v = fixes@.map_values(|f: EnumMemberFix| enum_fix_view(f));
    let mut i: usize = 0;
    assert(v.skip(0) =~= v);
    while i < fixes.len()
        invariant
            i <= fixes@.len(),
            v == fixes@.map_values(|f: EnumMemberFix| enum_fix_view(f)),
            first_fix_at(v, k as int) == first_fix_at(v.skip(i as int), k as int),
        decreases fixes@.len() - i,
    {
        assert(v.skip(i as int).drop_first() =~= v.skip(i + 1));
        assert(v.skip(i as int)[0] == enum_fix_view(fixes@[i as int]));
        if fixes[i].line_idx == k {
            return Some(i);
        }
        i = i + 1;
    }
    None
}

/// Plans the removal of a file's unused enum members and computes the
/// file's new text. Members whose line is missing or does not hold their
/// name are skipped; fixes come by descending line, one per line. A
/// single-line enum (`{` and `}` on the line) loses the member in place; a
/// member line of a multi-line enum is removed.
pub fn fix_enum_members(content: &str, members: &Vec<UnusedMember>) -> (r: (Vec<EnumMemberFix>, String))
    ensures
        r.0@.map_values(|f: EnumMemberFix| enum_fix_view(f)) == enum_fix_plan(content@, members@),
        r.1@ == enum_fixed_content(content@, enum_fix_plan(content@, members@)),
{
    let text = chars_of(content);
    let le = line_ending_exec(&text);
    proof {
        reveal_strlit("\r\n");
        reveal_strlit("\n");
    }
    let lines = split_str_exec(&text, &le);
    let ghost ls = views(lines@);
    let ghost fixable = |m: UnusedMember| member_fixable(m, ls);
    let ghost cand = |m: UnusedMember| member_candidate(m);
    let ghost fv = |f: EnumMemberFix| enum_fix_view(f);
    let mut sorted: Vec<EnumMemberFix> = Vec::new();
    let mut i: usize = 0;
    while i < members.len()
        invariant
            i <= members@.len(),
            ls == views(lines@),
            ls == file_lines(content@),
            fixable == (|m: UnusedMember| member_fixable(m, ls)),
            cand == (|m: UnusedMember| member_candidate(m)),
            fv == (|f: EnumMemberFix| enum_fix_view(f)),
            sorted@.map_values(fv) == sort_fixes(members@.take(i as int).filter(fixable).map_values(cand)),
        decreases members@.len() - i,
    {
        let m = &members[i];
        proof {
            assert(members@.take(i + 1) =~= members@.take(i as int).push(*m));
            members@.take(i as int).lemma_filter_push(*m, fixable);
        }
        let idx: usize = if m.line == 0 { 0 } else { (m.line - 1) as usize };
        let mut ok = false;
        if idx < lines.len() {
            let name = chars_of(m.member_name.as_str());
            ok = contains_exec(&lines[idx], &name);
        }
        if ok {
            let ghost before = sorted@.map_values(fv);
            let ghost x = cand(*m);
            proof {
                let f = members@.take(i as int).filter(fixable);
                assert(f.push(*m).map_values(cand) =~= f.map_values(cand).push(x));
                assert(f.push(*m).map_values(cand).drop_last() =~= f.map_values(cand));
            }
            let mut p = sorted.len();
            while p > 0 && sorted[p - 1].line_idx < idx
                invariant
                    p <= sorted@.len(),
                    x.0 == idx,
                    before == sorted@.map_values(fv),
                    fv == (|f: EnumMemberFix| enum_fix_view(f)),
                    forall|j: int| p <= j < sorted@.len() ==> (#[trigger] sorted@[j]).line_idx < idx,
                decreases p,
            {
                p = p - 1;
            }
            proof {
                assert forall|j: int| p <= j < before.len() implies (#[trigger] before[j]).0 < x.0 by {
                    assert(before[j] == fv(sorted@[j]));
                }
                if p > 0 {
                    assert(before[p - 1] == fv(sorted@[p - 1]));
                }
                lemma_insert_fix_split(before, x, p as int);
            }
            let fix = EnumMemberFix {
                line_idx: idx,
                member_name: m.member_name.clone(),
                parent_name: m.parent_name.clone(),
            };
            sorted.insert(p, fix);
            assert(sorted@.map_values(fv) =~= before.take(p as int) + seq![x] + before.skip(p as int));
        }
        i = i + 1;
    }
    assert(members@.take(members@.len() as int) =~= members@);
    let ghost sv = sorted@.map_values(fv);
    let mut fixes: Vec<EnumMemberFix> = Vec::new();
    let sorted_iter = sorted;
    let ghost sall = sorted_iter@;
    for f in it: sorted_iter
        invariant
            it.seq() == sall,
            sv == sall.map_values(fv),
            fv == (|f: EnumMemberFix| enum_fix_view(f)),
            fixes@.map_values(fv) == dedup_fixes(sv.take(it.index() as int)),
    {
        let ghost k = it.index();
        let ghost before = fixes@.map_values(fv);
        proof {
            assert(sv.take(k + 1).drop_last() =~= sv.take(k as int));
            assert(sv.take(k + 1).last() == fv(f));
        }
        let n = fixes.len();
        if n == 0 || fixes[n - 1].line_idx != f.line_idx {
            proof {
                if n > 0 {
                    assert(before.last() == fv(fixes@[n - 1]));
                }
            }
            fixes.push(f);
            assert(fixes@.map_values(fv) =~= before.push(fv(fixes@.last())));
        } else {
            proof {
                assert(before.last() == fv(fixes@[n - 1]));
            }
        }
    }
    assert(sv.take(sv.len() as int) =~= sv);
    let ghost plan = fixes@.map_values(fv);
    let ghost edit = |k: int, l: Seq<char>| enum_line_edit(l, first_fix_at(plan, k));
    let mut kept: Vec<Vec<char>> = Vec::new();
    let mut k: usize = 0;
    while k < lines.len()
        invariant
            k <= lines@.len(),
            ls == views(lines@),
            plan == fixes@.map_values(fv),
            fv == (|f: EnumMemberFix| enum_fix_view(f)),
            edit == (|k: int, l: Seq<char>| enum_line_edit(l, first_fix_at(plan, k))),
            views(kept@) == keep_edits(ls.take(k as int), edit),
        decreases lines@.len() - k,
    {
        proof {
            assert(ls.take(k + 1).drop_last() =~= ls.take(k as int));
            assert(ls.take(k + 1).last() == lines@[k as int]@);
        }
        let ghost before = views(kept@);
        match first_fix_exec(&fixes, k) {
            None => {
                kept.push(lines[k].clone());
                assert(views(kept@) =~= before.push(lines@[k as int]@));
            },
            Some(fi) => {
                let line = &lines[k];
                let has_open = find_exec(line, '{');
                let has_close = find_exec(line, '}');
                if has_open.is_some() && has_close.is_some() {
                    let ls_str = string_of(line);
                    let edited = remove_member_from_single_line(
                        ls_str.as_str(),
                        fixes[fi].member_name.as_str(),
                    );
                    let ev = chars_of(edited.as_str());
                    kept.push(ev);
                    assert(views(kept@) =~= before.push(edited@));
                }
            },
        }
        k = k + 1;
    }
    assert(ls.take(ls.len() as int) =~= ls);
    let out = rejoin_exec(&text, &le, &kept);
    (fixes, string_of(&out))
}

/// Every character before `lead_ws(s)` is whitespace, and the next is not.
proof fn lemma_lead_ws(s: Seq<char>)
    ensures
        lead_ws(s) <= s.len(),
        forall|i: int| 0 <= i < lead_ws(s) ==> is_ws(#[trigger] s[i]),
        lead_ws(s) < s.len() ==> !is_ws(s[lead_ws(s) as int]),
    decreases s.len(),
{
    if s.len() > 0 && is_ws(s[0]) {
        lemma_lead_ws(s.drop_first());
        assert forall|i: int| 1 <= i < lead_ws(s) implies is_ws(#[trigger] s[i]) by {
            assert(s[i] == s.drop_first()[i - 1]);
        }
    }
}

/// Where whitespace runs up to a non-whitespace character at `j`,
/// `lead_ws` is `j`.
proof fn lemma_lead_ws_at(s: Seq<char>, j: int)
    requires
        0 <= j < s.len(),
        forall|i: int| 0 <= i < j ==> is_ws(#[trigger] s[i]),
        !is_ws(s[j]),
    ensures
        lead_ws(s) == j,
{
    lemma_lead_ws(s);
    if lead_ws(s) < j {
        assert(is_ws(s[lead_ws(s) as int]));
    }
    if lead_ws(s) > j {
        assert(is_ws(s[j]));
    }
}

/// A `{` at `j` with no `}` before it orders the braces.
proof fn lemma_braces_from(b: Seq<char>, j: int)
    requires
        0 <= j < b.len(),
        b[j] == '{',
        forall|i: int| 0 <= i < j ==> #[trigger] b[i] != '}',
    ensures
        match (find_char(b, '{'), find_char(b, '}')) {
            (Some(bs), Some(be)) => bs < be,
            _ => true,
        },
{
    lemma_find_char(b, '{');
    lemma_find_char(b, '}');
    if let Some(be) = find_char(b, '}') {
        if (be as int) < j {
            assert(b[be as int] != '}');
        }
        if let Some(bs) = find_char(b, '{') {
            assert(bs <= j);
        }
    }
}

/// A line that starts (after indentation) with `export ` followed by an
/// export list has its braces in order.
proof fn lemma_list_braces(line: Seq<char>)
    requires
        starts_with(trim_start(line), "export "@),
        export_list_start(strip_or_keep(trim_start(line), "export "@)),
    ensures
        list_braces_ordered(line),
{
    reveal_strlit("export ");
    reveal_strlit("type ");
    reveal_strlit("type {");
    reveal_strlit("type\t{");
    reveal_strlit("type  {");
    reveal_strlit("type");
    let a = strip_or_keep(trim_start(line), "export "@);
    let b = list_body(line);
    if type_list_form(a) {
        let x = a.skip(4);
        if starts_with(a, "type {"@) {
            assert(a.take(6)[5] == a[5] && a.take(6)[4] == a[4]);
            assert(x[0] == ' ' && x[1] == '{');
            lemma_lead_ws_at(x, 1);
        } else if starts_with(a, "type\t{"@) {
            assert(a.take(6)[5] == a[5] && a.take(6)[4] == a[4]);
            assert(x[0] == '\t' && x[1] == '{');
            lemma_lead_ws_at(x, 1);
        } else {
            assert(a.take(7)[6] == a[6] && a.take(7)[5] == a[5] && a.take(7)[4] == a[4]);
            assert(x[0] == ' ' && x[1] == ' ' && x[2] == '{');
            lemma_lead_ws_at(x, 2);
        }
        assert(b[0] == '{');
        lemma_braces_from(b, 0);
    } else {
        lemma_lead_ws(a);
        let w = lead_ws(a) as int;
        let t = trim_start(a);
        assert(t == a.skip(w));
        if starts_with(t, "type "@) {
            let sx = t.skip(5);
            assert(sx[0] == '{');
            assert(b[w + 5] == '{');
            assert forall|i: int| 0 <= i < w + 5 implies #[trigger] b[i] != '}' by {
                if i >= w {
                    assert(b[i] == t[i - w]);
                    assert(t.take(5)[i - w] == "type "@[i - w]);
                }
            }
            lemma_braces_from(b, w + 5);
        } else {
            assert(t[0] == '{');
            assert(b[w] == '{');
            lemma_braces_from(b, w);
        }
    }
}

/// A line with a planned export fix starts with `export ` after its
/// indentation.
proof fn lemma_export_fix_line(plan: Seq<FixView>, k: int, ls: Seq<Seq<char>>)
    requires
        forall|j: int| 0 <= j < plan.len() ==> 0 <= (#[trigger] plan[j]).0 < ls.len()
            && starts_with(trim_start(ls[plan[j].0]), "export "@),
        names_at(plan, k).len() > 0,
    ensures
        0 <= k < ls.len(),
        starts_with(trim_start(ls[k]), "export "@),
{
    broadcast use vstd::seq_lib::group_filter_ensures;
    let pred = on_line(k);
    let f = plan.filter(pred);
    assert(f.len() > 0);
    assert(f.contains(f[0]));
    plan.lemma_filter_contains_rev(pred, f[0]);
    let j = choose|j: int| 0 <= j < plan.len() && plan[j] == f[0];
    assert(pred(f[0]));
    assert(plan[j].0 == k);
}

/// A planned removal of an unused export.
pub struct ExportFix {
    /// 0-based line index.
    pub line_idx: usize,
    pub export_name: String,
}

/// The view of an export fix.
pub open spec fn export_fix_view(f: ExportFix) -> FixView {
    (f.line_idx as int, f.export_name@, Seq::empty())
}

/// The text after `export ` of a line.
pub open spec fn after_export(line: Seq<char>) -> Seq<char> {
    strip_or_keep(trim_start(line), "export "@)
}

/// Whether the text after `export default ` starts a declaration that can
/// stand without `export default`: a function, async function, class or
/// abstract class.
pub open spec fn default_declaration(after_default: Seq<char>) -> bool {
    ||| starts_with(after_default, "function "@)
    ||| starts_with(after_default, "async function "@)
    ||| starts_with(after_default, "class "@)
    ||| starts_with(after_default, "abstract class "@)
}

/// Whether an export can be fixed: its line exists, starts with `export `
/// after indentation, and is no `export default` of an expression.
pub open spec fn export_fixable(e: UnusedExport, lines: Seq<Seq<char>>) -> bool {
    let k = line_index(e.line);
    &&& k < lines.len()
    &&& starts_with(trim_start(lines[k]), "export "@)
    &&& (starts_with(after_export(lines[k]), "default "@) ==> default_declaration(
        after_export(lines[k]).skip(8),
    ))
}

/// The fix an export asks for.
pub open spec fn export_candidate(e: UnusedExport) -> FixView {
    (line_index(e.line), e.export_name@, Seq::empty())
}

/// The export fixes of a file: the fixable exports by descending line;
/// the exports of one line keep their order.
pub open spec fn export_fix_plan(content: Seq<char>, exports: Seq<UnusedExport>) -> Seq<FixView> {
    let lines = file_lines(content);
    sort_fixes(
        exports.filter(|e: UnusedExport| export_fixable(e, lines)).map_values(
            |e: UnusedExport| export_candidate(e),
        ),
    )
}

/// Whether a fix is on line `k`.
pub open spec fn on_line(k: int) -> spec_fn(FixView) -> bool {
    |f: FixView| f.0 == k
}

/// The name of a fix.
pub open spec fn fix_name() -> spec_fn(FixView) -> Seq<char> {
    |f: FixView| f.1
}

/// The names of the fixes on line `k`, in order.
pub open spec fn names_at(fixes: Seq<FixView>, k: int) -> Seq<Seq<char>> {
    fixes.filter(on_line(k)).map_values(fix_name())
}

/// The declaration that replaces `export ...`: without `default ` for a
/// default function or class, else the text after `export `.
pub open spec fn export_replacement(ae: Seq<char>) -> Seq<char> {
    if starts_with(ae, "default "@) && default_declaration(ae.skip(8)) {
        ae.skip(8)
    } else {
        ae
    }
}

/// How one line changes: an export list loses the names (the line goes
/// when none remains); another export loses its `export` keyword; lines
/// without fixes stay.
pub open spec fn export_line_edit(line: Seq<char>, names: Seq<Seq<char>>) -> Option<Seq<char>> {
    if names.len() == 0 {
        Some(line)
    } else if export_list_start(after_export(line)) {
        export_list_without(line, names)
    } else {
        Some(line.take(lead_ws(line) as int) + export_replacement(after_export(line)))
    }
}

/// The text of a file after its export fixes.
pub open spec fn export_fixed_content(content: Seq<char>, fixes: Seq<FixView>) -> Seq<char> {
    rejoin(
        content,
        keep_edits(file_lines(content), |k: int, l: Seq<char>| export_line_edit(l, names_at(fixes, k))),
    )
}

/// The names of the fixes on line `k`.
fn names_at_exec<'a>(fixes: &'a Vec<ExportFix>, k: usize) -> (r: Vec<&'a str>)
    ensures
        str_views(r@) == names_at(fixes@.map_values(|f: ExportFix| export_fix_view(f)), k as int),
{
    let ghost v = fixes@.map_values(|f: ExportFix| export_fix_view(f));
    let ghost pred = on_line(k as int);
    let ghost nm = fix_name();
    let mut r: Vec<&'a str> = Vec::new();
    let mut i: usize = 0;
    while i < fixes.len()
        invariant
            i <= fixes@.len(),
            v == fixes@.map_values(|f: ExportFix| export_fix_view(f)),
            pred == on_line(k as int),
            nm == fix_name(),
            str_views(r@) == v.take(i as int).filter(pred).map_values(nm),
        decreases fixes@.len() - i,
    {
        proof {
            assert(v.take(i + 1) =~= v.take(i as int).push(v[i as int]));
            v.take(i as int).lemma_filter_push(v[i as int], pred);
            assert(v[i as int] == export_fix_view(fixes@[i as int]));
        }
        let ghost before = str_views(r@);
        if fixes[i].line_idx == k {
            r.push(fixes[i].export_name.as_str());
            proof {
                let f = v.take(i as int).filter(pred);
                assert(f.push(v[i as int]).map_values(nm) =~= f.map_values(nm).push(nm(v[i as int])));
            }
            assert(str_views(r@) =~= before.push(fixes@[i as int].export_name@));
        }
        i = i + 1;
    }
    assert(v.take(v.len() as int) =~= v);
    r
}

/// Whether `s` starts with `p` at `pos`.
fn at_prefix(s: &Vec<char>, pos: usize, p: &str) -> (r: bool)
    requires
        pos <= s@.len(),
    ensures
        r == starts_with(s@.skip(pos as int), p@),
{
    let pv = chars_of(p);
    has_prefix_at(s, pos, &pv)
}

/// Whether the text at `pos` starts a default declaration.
fn default_declaration_at(s: &Vec<char>, pos: usize) -> (r: bool)
    requires
        pos <= s@.len(),
    ensures
        r == default_declaration(s@.skip(pos as int)),
{
    at_prefix(s, pos, "function ") || at_prefix(s, pos, "async function ") || at_prefix(s, pos, "class ")
        || at_prefix(s, pos, "abstract class ")
}

/// The index after `export ` in a line (after its indentation), when the
/// line starts so.
fn export_at(s: &Vec<char>) -> (r: Option<usize>)
    ensures
        match r {
            Some(at) => at <= s@.len() && starts_with(trim_start(s@), "export "@) && s@.skip(at as int)
                == after_export(s@),
            None => !starts_with(trim_start(s@), "export "@),
        },
{
    let n = s.len();
    let lw = lead_ws_count(s, 0, n);
    assert(s@.subrange(0, n as int) =~= s@);
    if at_prefix(s, lw, "export ") {
        proof {
            reveal_strlit("export ");
        }
        assert(s@.skip(lw as int).skip(7) =~= s@.skip(lw + 7));
        Some(lw + 7)
    } else {
        None
    }
}

/// Whether an export on this line can be fixed: the line starts with
/// `export ` after indentation and is no `export default` of an
/// expression.
fn export_line_fixable(line: &Vec<char>) -> (r: bool)
    ensures
        r == (starts_with(trim_start(line@), "export "@) && (starts_with(after_export(line@), "default "@)
            ==> default_declaration(after_export(line@).skip(8)))),
{
    proof {
        reveal_strlit("default ");
    }
    let n = line.len();
    match export_at(line) {
        None => false,
        Some(at) => {
            if at_prefix(line, at, "default ") {
                assert(at + 8 <= n);
                assert(line@.skip(at as int).skip(8) =~= line@.skip(at + 8));
                default_declaration_at(line, at + 8)
            } else {
                true
            }
        },
    }
}

/// The edit of one line with export fixes.
fn export_edit_exec(line: &Vec<char>, names: &Vec<&str>) -> (r: Option<Vec<char>>)
    requires
        names@.len() > 0,
        starts_with(trim_start(line@), "export "@),
    ensures
        match r {
            Some(t) => export_line_edit(line@, str_views(names@)) == Some(t@),
            None => export_line_edit(line@, str_views(names@)) is None,
        },
{
    proof {
        reveal_strlit("default ");
        reveal_strlit("export ");
    }
    let n = line.len();
    let lw = lead_ws_count(line, 0, n);
    assert(line@.subrange(0, n as int) =~= line@);
    assert(line@.skip(lw as int).take(7) == "export "@);
    assert(line@.skip(lw as int).skip(7) =~= line@.skip(lw + 7));
    let at = lw + 7;
    assert(line@.skip(at as int) == after_export(line@));
    let ae = sub_vec(line, at, n);
    assert(ae@ =~= line@.skip(at as int));
    let ae_str = string_of(&ae);
    if is_export_list(ae_str.as_str()) {
        proof {
            lemma_list_braces(line@);
        }
        let line_str = string_of(line);
        match remove_specifiers_from_export_list(line_str.as_str(), names.as_slice()) {
            Some(t) => Some(chars_of(t.as_str())),
            None => None,
        }
    } else {
        let mut out: Vec<char> = Vec::new();
        extend_range(&mut out, line, 0, lw);
        let mut start = at;
        if at_prefix(line, at, "default ") {
            assert(at + 8 <= line@.len());
            assert(line@.skip(at as int).skip(8) =~= line@.skip(at + 8));
            if default_declaration_at(line, at + 8) {
                start = at + 8;
            }
        }
        extend_range(&mut out, line, start, n);
        assert(line@.subrange(0, lw as int) =~= line@.take(lead_ws(line@) as int));
        assert(line@.subrange(start as int, n as int) =~= export_replacement(after_export(line@)));
        Some(out)
    }
}

/// Plans the removal of a file's unused exports and computes the file's
/// new text. Exports whose line is missing, does not start with `export `,
/// or exports a default expression are skipped; fixes come by descending
/// line. An export list loses the names of its line (the line goes when no
/// specifier remains); any other export loses `export` (and `default ` of a
/// default function or class).
pub fn fix_exports(content: &str, exports: &Vec<UnusedExport>) -> (r: (Vec<ExportFix>, String))
    ensures
        r.0@.map_values(|f: ExportFix| export_fix_view(f)) == export_fix_plan(content@, exports@),
        r.1@ == export_fixed_content(content@, export_fix_plan(content@, exports@)),
{
    let text = chars_of(content);
    let le = line_ending_exec(&text);
    proof {
        reveal_strlit("\r\n");
        reveal_strlit("\n");
        reveal_strlit("default ");
    }
    let lines = split_str_exec(&text, &le);
    let ghost ls = views(lines@);
    let ghost fixable = |e: UnusedExport| export_fixable(e, ls);
    let ghost cand = |e: UnusedExport| export_candidate(e);
    let ghost fv = |f: ExportFix| export_fix_view(f);
    let mut sorted: Vec<ExportFix> = Vec::new();
    let mut i: usize = 0;
    while i < exports.len()
        invariant
            i <= exports@.len(),
            ls == views(lines@),
            ls == file_lines(content@),
            fixable == (|e: UnusedExport| export_fixable(e, ls)),
            cand == (|e: UnusedExport| export_candidate(e)),
            fv == (|f: ExportFix| export_fix_view(f)),
            sorted@.map_values(fv) == sort_fixes(exports@.take(i as int).filter(fixable).map_values(cand)),
            "default "@.len() == 8,
            forall|j: int| 0 <= j < sorted@.len() ==> (#[trigger] sorted@[j]).line_idx < ls.len()
                && starts_with(trim_start(ls[sorted@[j].line_idx as int]), "export "@),
        decreases exports@.len() - i,
    {
        let e = &exports[i];
        proof {
            assert(exports@.take(i + 1) =~= exports@.take(i as int).push(*e));
            exports@.take(i as int).lemma_filter_push(*e, fixable);
        }
        let idx: usize = if e.line == 0 { 0 } else { (e.line - 1) as usize };
        let mut ok = false;
        if idx < lines.len() {
            assert(ls[idx as int] == lines@[idx as int]@);
            ok = export_line_fixable(&lines[idx]);
        }
        assert(ok ==> idx < ls.len() && starts_with(trim_start(ls[idx as int]), "export "@));
        if ok {
            let ghost before = sorted@.map_values(fv);
            let ghost x = cand(*e);
            proof {
                let f = exports@.take(i as int).filter(fixable);
                assert(f.push(*e).map_values(cand) =~= f.map_values(cand).push(x));
                assert(f.push(*e).map_values(cand).drop_last() =~= f.map_values(cand));
            }
            let mut p = sorted.len();
            while p > 0 && sorted[p - 1].line_idx < idx
                invariant
                    p <= sorted@.len(),
                    x.0 == idx,
                    before == sorted@.map_values(fv),
                    fv == (|f: ExportFix| export_fix_view(f)),
                    forall|j: int| p <= j < sorted@.len() ==> (#[trigger] sorted@[j]).line_idx < idx,
                decreases p,
            {
                p = p - 1;
            }
            proof {
                assert forall|j: int| p <= j < before.len() implies (#[trigger] before[j]).0 < x.0 by {
                    assert(before[j] == fv(sorted@[j]));
                }
                if p > 0 {
                    assert(before[p - 1] == fv(sorted@[p - 1]));
                }
                lemma_insert_fix_split(before, x, p as int);
            }
            let fix = ExportFix { line_idx: idx, export_name: e.export_name.clone() };
            let ghost old_sorted = sorted@;
            sorted.insert(p, fix);
            assert(sorted@.map_values(fv) =~= before.take(p as int) + seq![x] + before.skip(p as int));
            assert forall|j: int| 0 <= j < sorted@.len() implies (#[trigger] sorted@[j]).line_idx < ls.len()
                && starts_with(trim_start(ls[sorted@[j].line_idx as int]), "export "@) by {
                if j < p {
                    assert(sorted@[j] == old_sorted[j]);
                } else if j > p {
                    assert(sorted@[j] == old_sorted[j - 1]);
                }
            }
        }
        i = i + 1;
    }
    assert(exports@.take(exports@.len() as int) =~= exports@);
    let ghost plan = sorted@.map_values(fv);
    assert forall|j: int| 0 <= j < plan.len() implies 0 <= (#[trigger] plan[j]).0 < ls.len()
        && starts_with(trim_start(ls[plan[j].0]), "export "@) by {
        assert(plan[j] == fv(sorted@[j]));
    }
    let ghost edit = |k: int, l: Seq<char>| export_line_edit(l, names_at(plan, k));
    let mut kept: Vec<Vec<char>> = Vec::new();
    let mut k: usize = 0;
    while k < lines.len()
        invariant
            k <= lines@.len(),
            ls == views(lines@),
            plan == sorted@.map_values(fv),
            fv == (|f: ExportFix| export_fix_view(f)),
            edit == (|k: int, l: Seq<char>| export_line_edit(l, names_at(plan, k))),
            views(kept@) == keep_edits(ls.take(k as int), edit),
            forall|j: int| 0 <= j < plan.len() ==> 0 <= (#[trigger] plan[j]).0 < ls.len()
                && starts_with(trim_start(ls[plan[j].0]), "export "@),
        decreases lines@.len() - k,
    {
        proof {
            assert(ls.take(k + 1).drop_last() =~= ls.take(k as int));
            assert(ls.take(k + 1).last() == lines@[k as int]@);
        }
        let ghost before = views(kept@);
        let names = names_at_exec(&sorted, k);
        let line = &lines[k];
        if names.len() == 0 {
            kept.push(line.clone());
            assert(views(kept@) =~= before.push(line@));
        } else {
            proof {
                assert(names_at(plan, k as int).len() > 0) by {
                    assert(str_views(names@).len() == names@.len());
                }
                lemma_export_fix_line(plan, k as int, ls);
                assert(ls[k as int] == line@);
            }
            match export_edit_exec(line, &names) {
                Some(t) => {
                    let ghost tv = t@;
                    kept.push(t);
                    assert(views(kept@) =~= before.push(tv));
                },
                None => {},
            }
        }
        k = k + 1;
    }
    assert(ls.take(ls.len() as int) =~= ls);
    let out = rejoin_exec(&text, &le, &kept);
    (sorted, string_of(&out))
}

/// `join` with one more part in front.
proof fn lemma_join_cons(a: Seq<char>, rest: Seq<Seq<char>>, sep: Seq<char>)
    requires
        rest.len() > 0,
    ensures
        join(seq![a] + rest, sep) == a + sep + join(rest, sep),
    decreases rest.len(),
{
    if rest.len() == 1 {
        assert((seq![a] + rest).drop_last() =~= seq![a]);
        assert((seq![a] + rest).last() == rest[0]);
        assert(seq![a][0] == a);
        assert(join(seq![a], sep) == a);
        assert(join(rest, sep) == rest[0]);
        assert((seq![a] + rest).len() == 2);
    } else {
        lemma_join_cons(a, rest.drop_last(), sep);
        assert((seq![a] + rest).drop_last() =~= seq![a] + rest.drop_last());
        assert((seq![a] + rest).last() == rest.last());
        assert((seq![a] + rest).len() > 1);
        assert(join(rest, sep) == join(rest.drop_last(), sep) + sep + rest.last());
        assert(a + sep + join(rest.drop_last(), sep) + sep + rest.last() =~= a + sep + (join(
            rest.drop_last(),
            sep,
        ) + sep + rest.last()));
    }
}

/// Splitting always gives at least one piece.
proof fn lemma_split_str_nonempty(s: Seq<char>, p: Seq<char>)
    ensures
        split_str(s, p).len() >= 1,
    decreases s.len(),
{
    if p.len() > 0 {
        if let Some(i) = find_str(s, p) {
            lemma_find_str_fits(s, p);
            lemma_split_str_nonempty(s.skip((i + p.len()) as int), p);
        }
    }
}

/// Joining the pieces of a split with the separator gives the text back.
pub proof fn lemma_join_split(s: Seq<char>, p: Seq<char>)
    requires
        p.len() > 0,
    ensures
        join(split_str(s, p), p) == s,
    decreases s.len(),
{
    if let Some(i) = find_str(s, p) {
        lemma_find_str_fits(s, p);
        let rest = s.skip((i + p.len()) as int);
        lemma_join_split(rest, p);
        lemma_split_str_nonempty(rest, p);
        lemma_join_cons(s.take(i as int), split_str(rest, p), p);
        assert(s =~= s.take(i as int) + p + rest);
    }
}

/// Lines edited by an edit that keeps every line stay as they are.
proof fn lemma_keep_edits_identity(lines: Seq<Seq<char>>, edit: spec_fn(int, Seq<char>) -> Option<Seq<char>>)
    requires
        forall|k: int| 0 <= k < lines.len() ==> #[trigger] edit(k, lines[k]) == Some(lines[k]),
    ensures
        keep_edits(lines, edit) == lines,
    decreases lines.len(),
{
    if lines.len() > 0 {
        assert forall|k: int| 0 <= k < lines.drop_last().len() implies #[trigger] edit(k, lines.drop_last()[k])
            == Some(lines.drop_last()[k]) by {
            assert(lines.drop_last()[k] == lines[k]);
        }
        lemma_keep_edits_identity(lines.drop_last(), edit);
        assert(edit(lines.len() - 1, lines[lines.len() - 1]) == Some(lines[lines.len() - 1]));
        assert(lines.drop_last().push(lines.last()) =~= lines);
    }
}

/// A file's lines rejoined unchanged give the file back.
proof fn lemma_rejoin_lines(content: Seq<char>)
    ensures
        rejoin(content, file_lines(content)) == content,
{
    reveal_strlit("\r\n");
    reveal_strlit("\n");
    lemma_join_split(content, line_ending(content));
}

/// A file for which no enum member fix is planned keeps its text exactly,
/// line endings included.
pub proof fn law_no_enum_fix_keeps_text(content: Seq<char>, members: Seq<UnusedMember>)
    requires
        enum_fix_plan(content, members).len() == 0,
    ensures
        enum_fixed_content(content, enum_fix_plan(content, members)) == content,
{
    let fixes = enum_fix_plan(content, members);
    let lines = file_lines(content);
    let edit = |k: int, l: Seq<char>| enum_line_edit(l, first_fix_at(fixes, k));
    assert forall|k: int| 0 <= k < lines.len() implies #[trigger] edit(k, lines[k]) == Some(lines[k]) by {
        assert(first_fix_at(fixes, k) is None);
    }
    lemma_keep_edits_identity(lines, edit);
    lemma_rejoin_lines(content);
}

/// A file for which no export fix is planned keeps its text exactly, line
/// endings included.
pub proof fn law_no_export_fix_keeps_text(content: Seq<char>, exports: Seq<UnusedExport>)
    requires
        export_fix_plan(content, exports).len() == 0,
    ensures
        export_fixed_content(content, export_fix_plan(content, exports)) == content,
{
    let fixes = export_fix_plan(content, exports);
    let lines = file_lines(content);
    let edit = |k: int, l: Seq<char>| export_line_edit(l, names_at(fixes, k));
    assert forall|k: int| 0 <= k < lines.len() implies #[trigger] edit(k, lines[k]) == Some(lines[k]) by {
        assert(fixes.filter(on_line(k)) =~= Seq::<FixView>::empty());
        assert(names_at(fixes, k).len() == 0);
    }
    lemma_keep_edits_identity(lines, edit);
    lemma_rejoin_lines(content);
}

/// Whether fixes come by descending line.
pub open spec fn by_desc_line(s: Seq<FixView>) -> bool {
    forall|i: int, j: int| 0 <= i < j < s.len() ==> (#[trigger] s[i]).0 >= (#[trigger] s[j]).0
}

/// Inserting keeps the lines descending, adds `x`, and puts `x` after the
/// fixes of its line.
proof fn lemma_insert_fix(s: Seq<FixView>, x: FixView, k: int)
    ensures
        by_desc_line(s) ==> by_desc_line(insert_fix(s, x)),
        insert_fix(s, x).to_multiset() == s.to_multiset().insert(x),
        insert_fix(s, x).filter(on_line(k)) == if x.0 == k {
            s.filter(on_line(k)).push(x)
        } else {
            s.filter(on_line(k))
        },
    decreases s.len(),
{
    broadcast use group_to_multiset_ensures;

    let p = on_line(k);
    if s.len() == 0 {
        assert(seq![x] =~= Seq::<FixView>::empty().push(x));
        Seq::<FixView>::empty().lemma_filter_push(x, p);
    } else if s.last().0 >= x.0 {
        s.lemma_filter_push(x, p);
    } else {
        let d = s.drop_last();
        let y = s.last();
        lemma_insert_fix(d, x, k);
        let t = insert_fix(d, x);
        t.lemma_filter_push(y, p);
        d.lemma_filter_push(y, p);
        assert(s =~= d.push(y));
        if by_desc_line(s) {
            assert(by_desc_line(d)) by {
                assert forall|i: int, j: int| 0 <= i < j < d.len() implies (#[trigger] d[i]).0 >= (#[trigger] d[j]).0 by {
                    assert(d[i] == s[i] && d[j] == s[j]);
                }
            }
            assert forall|m: int| 0 <= m < t.len() implies (#[trigger] t[m]).0 >= y.0 by {
                assert(t.to_multiset().count(t[m]) > 0);
                if t[m] != x {
                    assert(d.to_multiset().count(t[m]) > 0);
                    assert(d.contains(t[m]));
                    let q = choose|q: int| 0 <= q < d.len() && d[q] == t[m];
                    assert(s[q] == d[q]);
                    assert(s[q].0 >= s[s.len() - 1].0);
                }
            }
            let r = t.push(y);
            assert forall|i: int, j: int| 0 <= i < j < r.len() implies (#[trigger] r[i]).0 >= (#[trigger] r[j]).0 by {
                if j == t.len() {
                    assert(r[i] == t[i]);
                } else {
                    assert(r[i] == t[i] && r[j] == t[j]);
                }
            }
        }
        assert(t.push(y).to_multiset() =~= d.to_multiset().insert(x).insert(y));
        assert(s.to_multiset().insert(x) =~= d.to_multiset().insert(y).insert(x));
    }
}

/// Fixes are sorted by descending line: the result is in that order, holds
/// the same fixes, and fixes of one line keep their order.
pub proof fn law_sort_fixes_is_stable_sort(s: Seq<FixView>, k: int)
    ensures
        by_desc_line(sort_fixes(s)),
        sort_fixes(s).to_multiset() == s.to_multiset(),
        sort_fixes(s).filter(on_line(k)) == s.filter(on_line(k)),
    decreases s.len(),
{
    broadcast use group_to_multiset_ensures;

    if s.len() == 0 {
        assert(s =~= Seq::<FixView>::empty());
        assert(sort_fixes(s) =~= Seq::<FixView>::empty());
    } else {
        let d = s.drop_last();
        let y = s.last();
        law_sort_fixes_is_stable_sort(d, k);
        lemma_insert_fix(sort_fixes(d), y, k);
        d.lemma_filter_push(y, on_line(k));
        assert(s =~= d.push(y));
    }
}

} // verus!
