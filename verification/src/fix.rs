//! Source edits that remove unused enum members and unused exports.
//!
//! The edits work on one line at a time; reading and writing the files is
//! left to the caller.

use vstd::prelude::*;
use crate::text::{
    before_char, chars_eq, chars_of, extend_all, extend_range, find_char, find_exec, find_from,
    join, join_chars, lemma_before_char_is, lemma_split_step, rfind_char, rfind_exec, split_char,
    string_of, sub_vec, trim, trim_bounds, trim_end, trim_start, views, lead_ws_count,
    trail_ws_count, starts_with, lead_ws, find_str, has_prefix_at, find_str_from,
};

verus! {

/// The identifier of an enum member part such as `" Active = 'a'"`: the
/// trimmed text before any `=`.
pub open spec fn member_ident(part: Seq<char>) -> Seq<char> {
    trim(before_char(trim(part), '='))
}

/// Whether a comma-separated part of a single-line enum body stays when
/// `member` is removed: empty parts are dropped, and so is the member.
pub open spec fn keeps_member(part: Seq<char>, member: Seq<char>) -> bool {
    trim(part).len() > 0 && member_ident(part) != member
}

/// The line `line` with `member` removed from a single-line enum body
/// `{ ... }` (between the first `{` and the last `}`); other lines are
/// returned unchanged.
pub open spec fn single_line_without_member(line: Seq<char>, member: Seq<char>) -> Seq<char> {
    match (find_char(line, '{'), rfind_char(line, '}')) {
        (Some(open), Some(close)) if open < close => {
            let parts = split_char(line.subrange(open + 1 as int, close as int), ',');
            let kept = parts.filter(|p: Seq<char>| keeps_member(p, member)).map_values(
                |p: Seq<char>| trim(p),
            );
            if kept.len() == 0 {
                trim_end(line.take(open + 1 as int)) + trim_start(line.skip(close as int))
            } else {
                line.take(open + 1 as int) + seq![' '] + join(kept, seq![',', ' ']) + seq![' ']
                    + line.skip(close as int)
            }
        },
        _ => line,
    }
}

/// Remove a single member from a single-line enum like `enum Foo { A, B, C }`.
///
/// Returns the line with the member removed and the remaining members
/// written as `{ A, B }`; when no member remains the body becomes `{}`.
pub fn remove_member_from_single_line(line: &str, member_name: &str) -> (r: String)
    ensures
        r@ == single_line_without_member(line@, member_name@),
{
    let s = chars_of(line);
    let m = chars_of(member_name);
    let open = match find_exec(&s, '{') {
        Some(o) => o,
        None => return string_of(&s),
    };
    let close = match rfind_exec(&s, '}') {
        Some(c) => c,
        None => return string_of(&s),
    };
    if open >= close {
        return string_of(&s);
    }
    let ghost inner = s@.subrange(open + 1, close as int);
    let ghost keep = |p: Seq<char>| keeps_member(p, m@);
    let ghost tr = |p: Seq<char>| trim(p);
    let mut kept: Vec<Vec<char>> = Vec::new();
    let ghost mut done: Seq<Seq<char>> = Seq::empty();
    let mut start = open + 1;
    assert(s@.subrange(start as int, close as int) =~= inner);
    loop
        invariant_except_break
            split_char(inner, ',') == done + split_char(s@.subrange(start as int, close as int), ','),
        invariant
            open < start <= close < s@.len(),
            inner == s@.subrange(open + 1, close as int),
            keep == (|p: Seq<char>| keeps_member(p, m@)),
            tr == (|p: Seq<char>| trim(p)),
            views(kept@) == done.filter(keep).map_values(tr),
        ensures
            split_char(inner, ',') == done,
            views(kept@) == done.filter(keep).map_values(tr),
        decreases close - start,
    {
        let r = find_from(&s, ',', start, close);
        let ghost piece = s@.subrange(start as int, r as int);
        proof {
            lemma_split_step(s@, ',', start as int, r as int, close as int);
        }
        let (a, b) = trim_bounds(&s, start, r);
        let mut keep_it = false;
        if a < b {
            let eq = find_from(&s, '=', a, b);
            proof {
                lemma_before_char_is(s@, '=', a as int, eq as int, b as int);
            }
            let (c, d) = trim_bounds(&s, a, eq);
            let ident = sub_vec(&s, c, d);
            if !chars_eq(&ident, &m) {
                keep_it = true;
            }
        }
        proof {
            assert(keep_it == keeps_member(piece, m@));
            done.lemma_filter_push(piece, keep);
        }
        if keep_it {
            let t = sub_vec(&s, a, b);
            let ghost before = kept@;
            kept.push(t);
            proof {
                assert(views(kept@) =~= views(before).push(t@));
            }
        }
        proof {
            let old_done = done;
            done = done.push(piece);
            assert(done.filter(keep).map_values(tr) =~= if keep(piece) {
                old_done.filter(keep).map_values(tr).push(tr(piece))
            } else {
                old_done.filter(keep).map_values(tr)
            });
        }
        if r >= close {
            proof {
                assert(split_char(s@.subrange(start as int, close as int), ',') =~= seq![piece]);
            }
            break;
        }
        start = r + 1;
    }
    let mut out: Vec<char> = Vec::new();
    if kept.len() == 0 {
        let tb = trail_ws_count(&s, 0, open + 1);
        let la = lead_ws_count(&s, close, s.len());
        extend_range(&mut out, &s, 0, open + 1 - tb);
        extend_range(&mut out, &s, close + la, s.len());
        proof {
            assert(s@.subrange(0, open + 1) =~= s@.take(open + 1));
            assert(s@.subrange(close as int, s@.len() as int) =~= s@.skip(close as int));
            assert(s@.take(open + 1).take(open + 1 - tb) =~= s@.subrange(0, open + 1 - tb));
            assert(s@.skip(close as int).skip(la as int) =~= s@.subrange(close + la, s@.len() as int));
        }
    } else {
        extend_range(&mut out, &s, 0, open + 1);
        out.push(' ');
        let sep = chars_of(", ");
        let joined = join_chars(&kept, &sep);
        extend_all(&mut out, &joined);
        out.push(' ');
        extend_range(&mut out, &s, close, s.len());
        proof {
            reveal_strlit(", ");
            assert(sep@ =~= seq![',', ' ']);
            assert(s@.subrange(0, open + 1) =~= s@.take(open + 1));
            assert(s@.subrange(close as int, s@.len() as int) =~= s@.skip(close as int));
        }
    }
    string_of(&out)
}


/// `s` without the prefix `p` when it starts with it (`strip_prefix(..).unwrap_or(s)`).
pub open spec fn strip_or_keep(s: Seq<char>, p: Seq<char>) -> Seq<char> {
    if starts_with(s, p) {
        s.skip(p.len() as int)
    } else {
        s
    }
}

/// Whether the text after `export ` starts a named export list such as
/// `{ A, B }` or `type { A }`.
pub open spec fn export_list_start(after_export: Seq<char>) -> bool {
    let s = strip_or_keep(trim_start(after_export), "type "@);
    s.len() > 0 && s[0] == '{'
}

/// Check if a line (after stripping `export `) is a named export list like `{ A, B } ...`
pub fn is_export_list(after_export: &str) -> (r: bool)
    ensures
        r == export_list_start(after_export@),
{
    let s = chars_of(after_export);
    let n = s.len();
    let lw = lead_ws_count(&s, 0, n);
    let kw = chars_of("type ");
    let hp = has_prefix_at(&s, lw, &kw);
    let at = if hp {
        lw + kw.len()
    } else {
        lw
    };
    proof {
        assert(s@.subrange(0, n as int) =~= s@);
        if hp {
            assert(s@.skip(lw as int).skip(kw@.len() as int) =~= s@.skip(lw + kw@.len()));
        }
        assert(strip_or_keep(trim_start(after_export@), "type "@) == s@.skip(at as int));
    }
    if at >= n {
        proof {
            assert(strip_or_keep(trim_start(after_export@), "type "@).len() == 0);
        }
        return false;
    }
    s[at] == '{'
}

/// Whether `a` (the text after `export `) starts `type {` with one tab or
/// up to two spaces before the brace.
pub open spec fn type_list_form(a: Seq<char>) -> bool {
    starts_with(a, "type {"@) || starts_with(a, "type\t{"@) || starts_with(a, "type  {"@)
}

/// The text from which the braces of an export list are searched.
pub open spec fn list_body(line: Seq<char>) -> Seq<char> {
    let a = strip_or_keep(trim_start(line), "export "@);
    if type_list_form(a) {
        trim_start(a.skip("type"@.len() as int))
    } else {
        a
    }
}

/// The exported name of a specifier: the original name of `A as B`.
pub open spec fn exported_name(spec: Seq<char>) -> Seq<char> {
    match find_str(spec, " as "@) {
        Some(i) => trim(spec.take(i as int)),
        None => trim(spec),
    }
}

/// Whether a trimmed specifier stays in the list.
pub open spec fn keeps_specifier(x: Seq<char>, names: Seq<Seq<char>>) -> bool {
    x.len() > 0 && !names.contains(exported_name(x))
}

/// The specifiers left in an export list after removing `names`.
pub open spec fn remaining_specifiers(line: Seq<char>, names: Seq<Seq<char>>) -> Seq<Seq<char>> {
    let b = list_body(line);
    let bs = find_char(b, '{').unwrap();
    let be = find_char(b, '}').unwrap();
    split_char(b.subrange(bs + 1 as int, be as int), ',').map_values(|x: Seq<char>| trim(x)).filter(
        |x: Seq<char>| keeps_specifier(x, names),
    )
}

/// Whether the braces of an export list can be sliced: when both exist, the
/// `}` comes after the `{`.
pub open spec fn list_braces_ordered(line: Seq<char>) -> bool {
    let b = list_body(line);
    match (find_char(b, '{'), find_char(b, '}')) {
        (Some(bs), Some(be)) => bs < be,
        _ => true,
    }
}

/// The line with `names` removed from its export list; `None` when a brace
/// is missing or no specifier remains (the line is then deleted).
pub open spec fn export_list_without(line: Seq<char>, names: Seq<Seq<char>>) -> Option<Seq<char>> {
    let b = list_body(line);
    let a = strip_or_keep(trim_start(line), "export "@);
    match (find_char(b, '{'), find_char(b, '}')) {
        (Some(bs), Some(be)) => {
            let rem = remaining_specifiers(line, names);
            if rem.len() == 0 {
                None
            } else {
                Some(
                    line.take(lead_ws(line) as int) + "export "@ + (if type_list_form(a) {
                        "type "@
                    } else {
                        Seq::empty()
                    }) + "{ "@ + join(rem, ", "@) + " }"@ + b.skip(be + 1 as int),
                )
            }
        },
        _ => None,
    }
}

/// The views of a slice of string slices.
pub open spec fn str_views(names: Seq<&str>) -> Seq<Seq<char>> {
    names.map_values(|n: &str| n@)
}

/// Whether `x` is one of `names`.
pub fn contains_name(names: &[&str], x: &Vec<char>) -> (r: bool)
    ensures
        r == str_views(names@).contains(x@),
{
    let mut k: usize = 0;
    while k < names.len()
        invariant
            k <= names@.len(),
            forall|j: int| 0 <= j < k ==> names@[j]@ != x@,
        decreases names@.len() - k,
    {
        let nk = chars_of(names[k]);
        if chars_eq(&nk, x) {
            assert(str_views(names@)[k as int] == x@);
            return true;
        }
        k = k + 1;
    }
    proof {
        if str_views(names@).contains(x@) {
            let j = choose|j: int| 0 <= j < str_views(names@).len() && str_views(names@)[j] == x@;
            assert(names@[j]@ == x@);
        }
    }
    false
}

/// Where the parts of an export-list line start: the indentation length,
/// the text after `export `, whether `type {` follows, and the body in which
/// the braces are searched.
fn list_layout(s: &Vec<char>) -> (r: (usize, usize, bool, usize))
    ensures
        r.0 <= r.1 <= r.3 <= s@.len(),
        r.0 == lead_ws(s@),
        s@.skip(r.1 as int) == strip_or_keep(trim_start(s@), "export "@),
        r.2 == type_list_form(strip_or_keep(trim_start(s@), "export "@)),
        s@.skip(r.3 as int) == list_body(s@),
{
    let n = s.len();
    let lw = lead_ws_count(s, 0, n);
    let kw_export = chars_of("export ");
    let has_export = has_prefix_at(s, lw, &kw_export);
    let ae = if has_export {
        lw + kw_export.len()
    } else {
        lw
    };
    proof {
        assert(s@.subrange(0, n as int) =~= s@);
        if has_export {
            assert(s@.skip(lw as int).skip(kw_export@.len() as int) =~= s@.skip(
                lw + kw_export@.len(),
            ));
        }
    }
    let t1 = chars_of("type {");
    let t2 = chars_of("type\t{");
    let t3 = chars_of("type  {");
    let tf = has_prefix_at(s, ae, &t1) || has_prefix_at(s, ae, &t2) || has_prefix_at(s, ae, &t3);
    let kw_type = chars_of("type");
    let at = if tf {
        proof {
            reveal_strlit("type {");
            reveal_strlit("type\t{");
            reveal_strlit("type  {");
            reveal_strlit("type");
        }
        let t4 = ae + kw_type.len();
        let l = lead_ws_count(s, t4, n);
        proof {
            assert(s@.skip(ae as int).skip(kw_type@.len() as int) =~= s@.subrange(
                t4 as int,
                n as int,
            ));
            assert(s@.subrange(t4 as int, n as int).skip(l as int) =~= s@.skip(t4 + l));
        }
        t4 + l
    } else {
        ae
    };
    (lw, ae, tf, at)
}

/// The trimmed, non-empty specifiers of `s[lo..hi]` (split at commas) whose
/// exported name is not one of `names_to_remove`.
fn kept_specifiers(s: &Vec<char>, lo: usize, hi: usize, names_to_remove: &[&str]) -> (kept: Vec<
    Vec<char>,
>)
    requires
        lo <= hi <= s@.len(),
    ensures
        views(kept@) == split_char(s@.subrange(lo as int, hi as int), ',').map_values(
            |x: Seq<char>| trim(x),
        ).filter(|x: Seq<char>| keeps_specifier(x, str_views(names_to_remove@))),
{
    let ghost names = str_views(names_to_remove@);
    let ghost inside = s@.subrange(lo as int, hi as int);
    let ghost keep = |x: Seq<char>| keeps_specifier(x, names);
    let ghost tr = |x: Seq<char>| trim(x);
    let as_kw = chars_of(" as ");
    proof {
        reveal_strlit(" as ");
    }
    let mut kept: Vec<Vec<char>> = Vec::new();
    let ghost mut done: Seq<Seq<char>> = Seq::empty();
    let mut start = lo;
    loop
        invariant_except_break
            split_char(inside, ',') == done + split_char(s@.subrange(start as int, hi as int), ','),
        invariant
            lo <= start <= hi <= s@.len(),
            inside == s@.subrange(lo as int, hi as int),
            as_kw@ == " as "@,
            as_kw@.len() > 0,
            keep == (|x: Seq<char>| keeps_specifier(x, names)),
            tr == (|x: Seq<char>| trim(x)),
            names == str_views(names_to_remove@),
            views(kept@) == done.map_values(tr).filter(keep),
        ensures
            split_char(inside, ',') == done,
            views(kept@) == done.map_values(tr).filter(keep),
        decreases hi - start,
    {
        let r = find_from(s, ',', start, hi);
        let ghost piece = s@.subrange(start as int, r as int);
        proof {
            lemma_split_step(s@, ',', start as int, r as int, hi as int);
        }
        let (a, b) = trim_bounds(s, start, r);
        let mut keep_it = false;
        if a < b {
            let q = find_str_from(s, &as_kw, a, b);
            let (c, d) = if q < b {
                let cd = trim_bounds(s, a, q);
                proof {
                    assert(s@.subrange(a as int, b as int).take(q - a) =~= s@.subrange(
                        a as int,
                        q as int,
                    ));
                }
                cd
            } else {
                trim_bounds(s, a, b)
            };
            let name = sub_vec(s, c, d);
            if !contains_name(names_to_remove, &name) {
                keep_it = true;
            }
        }
        proof {
            assert(keep_it == keep(tr(piece)));
            done.map_values(tr).lemma_filter_push(tr(piece), keep);
            done.lemma_push_map_commute(tr, piece);
        }
        if keep_it {
            let t = sub_vec(s, a, b);
            let ghost before = kept@;
            kept.push(t);
            proof {
                assert(views(kept@) =~= views(before).push(t@));
            }
        }
        proof {
            done = done.push(piece);
        }
        if r >= hi {
            proof {
                assert(split_char(s@.subrange(start as int, hi as int), ',') =~= seq![piece]);
            }
            break;
        }
        start = r + 1;
    }
    kept
}

/// Given a line like `export { A, B, C } from "./mod";` or `export { A, B, C };`,
/// remove the specified specifiers. If all specifiers are removed, returns `None`
/// (meaning the entire line should be deleted). Otherwise returns the updated line.
pub fn remove_specifiers_from_export_list(line: &str, names_to_remove: &[&str]) -> (r: Option<String>)
    requires
        list_braces_ordered(line@),
    ensures
        match r {
            Some(t) => export_list_without(line@, str_views(names_to_remove@)) == Some(t@),
            None => export_list_without(line@, str_views(names_to_remove@)) == None::<Seq<char>>,
        },
{
    let s = chars_of(line);
    let n = s.len();
    let (lw, ae, tf, at) = list_layout(&s);
    let bs = find_from(&s, '{', at, n);
    let be = find_from(&s, '}', at, n);
    proof {
        assert(s@.skip(at as int) =~= s@.subrange(at as int, n as int));
        crate::text::lemma_find_char_is(s@.skip(at as int), '{', bs - at);
        crate::text::lemma_find_char_is(s@.skip(at as int), '}', be - at);
    }
    if bs >= n || be >= n {
        return None;
    }
    let kept = kept_specifiers(&s, bs + 1, be, names_to_remove);
    proof {
        assert(s@.skip(at as int).subrange(bs - at + 1, be - at) =~= s@.subrange(
            bs + 1,
            be as int,
        ));
    }
    if kept.len() == 0 {
        return None;
    }
    let mut out: Vec<char> = Vec::new();
    extend_range(&mut out, &s, 0, lw);
    let kw_export = chars_of("export ");
    extend_all(&mut out, &kw_export);
    if tf {
        let kw_type_sp = chars_of("type ");
        extend_all(&mut out, &kw_type_sp);
    }
    let open_sp = chars_of("{ ");
    extend_all(&mut out, &open_sp);
    let sep = chars_of(", ");
    let joined = join_chars(&kept, &sep);
    extend_all(&mut out, &joined);
    let close_sp = chars_of(" }");
    extend_all(&mut out, &close_sp);
    extend_range(&mut out, &s, be + 1, n);
    proof {
        assert(s@.subrange(0, lw as int) =~= line@.take(lead_ws(line@) as int));
        assert(s@.skip(at as int).skip(be - at + 1) =~= s@.subrange(be + 1, n as int));
    }
    Some(string_of(&out))
}

} // verus!
