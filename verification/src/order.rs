//! Lexicographic order of strings and sorting of string lists.
//!
//! `String`'s `Ord` compares UTF-8 bytes lexicographically, which orders
//! strings exactly as comparing their characters by code point does.

use vstd::prelude::*;
use crate::text::views;
use vstd::relations::{sorted_by, total_ordering};
use vstd::seq_lib::{group_to_multiset_ensures, lemma_sorted_unique};

verus! {

/// `a < b` in the order of `String`'s `Ord`.
pub open spec fn lex_lt(a: Seq<char>, b: Seq<char>) -> bool
    decreases a.len(),
{
    if a.len() == 0 {
        b.len() > 0
    } else if b.len() == 0 {
        false
    } else if a[0] != b[0] {
        (a[0] as u32) < (b[0] as u32)
    } else {
        lex_lt(a.drop_first(), b.drop_first())
    }
}

/// `a <= b` in the order of `String`'s `Ord`.
pub open spec fn lex_le(a: Seq<char>, b: Seq<char>) -> bool {
    !lex_lt(b, a)
}

/// `x` inserted into `s` after the last element that is not greater than it.
pub open spec fn insert_sorted(s: Seq<Seq<char>>, x: Seq<char>) -> Seq<Seq<char>>
    decreases s.len(),
{
    if s.len() == 0 {
        seq![x]
    } else if lex_le(s.last(), x) {
        s.push(x)
    } else {
        insert_sorted(s.drop_last(), x).push(s.last())
    }
}

/// `s` in ascending order, as `slice::sort` leaves it.
pub open spec fn sort_seq(s: Seq<Seq<char>>) -> Seq<Seq<char>>
    decreases s.len(),
{
    if s.len() == 0 {
        Seq::empty()
    } else {
        insert_sorted(sort_seq(s.drop_last()), s.last())
    }
}

/// `lex_lt` after a common prefix of length `i`.
proof fn lemma_lex_lt_skip(a: Seq<char>, b: Seq<char>, i: int)
    requires
        0 <= i <= a.len(),
        i <= b.len(),
        forall|j: int| 0 <= j < i ==> a[j] == b[j],
    ensures
        lex_lt(a, b) == lex_lt(a.skip(i), b.skip(i)),
    decreases i,
{
    if i > 0 {
        assert(a.drop_first().skip(i - 1) =~= a.skip(i));
        assert(b.drop_first().skip(i - 1) =~= b.skip(i));
        lemma_lex_lt_skip(a.drop_first(), b.drop_first(), i - 1);
    } else {
        assert(a.skip(0) =~= a);
        assert(b.skip(0) =~= b);
    }
}

/// Whether `a` sorts before `b`.
pub fn lex_lt_exec(a: &Vec<char>, b: &Vec<char>) -> (r: bool)
    ensures
        r == lex_lt(a@, b@),
{
    let mut i: usize = 0;
    while i < a.len() && i < b.len() && a[i] == b[i]
        invariant
            i <= a@.len(),
            i <= b@.len(),
            forall|j: int| 0 <= j < i ==> a@[j] == b@[j],
        decreases a@.len() - i,
    {
        i = i + 1;
    }
    proof {
        lemma_lex_lt_skip(a@, b@, i as int);
    }
    if i == a.len() {
        i < b.len()
    } else if i == b.len() {
        false
    } else {
        (a[i] as u32) < (b[i] as u32)
    }
}

/// `insert_sorted` as a split at the point where the greater suffix starts.
proof fn lemma_insert_sorted_split(s: Seq<Seq<char>>, x: Seq<char>, p: int)
    requires
        0 <= p <= s.len(),
        p > 0 ==> lex_le(s[p - 1], x),
        forall|j: int| p <= j < s.len() ==> !lex_le(#[trigger] s[j], x),
    ensures
        insert_sorted(s, x) == s.take(p) + seq![x] + s.skip(p),
    decreases s.len(),
{
    if s.len() == 0 {
        assert(s.take(p) + seq![x] + s.skip(p) =~= seq![x]);
    } else if p == s.len() {
        assert(s.take(p) + seq![x] + s.skip(p) =~= s.push(x));
    } else {
        assert(!lex_le(s.last(), x));
        lemma_insert_sorted_split(s.drop_last(), x, p);
        assert(s.drop_last().take(p) + seq![x] + s.drop_last().skip(p) + seq![s.last()] =~= s.take(
            p,
        ) + seq![x] + s.skip(p));
    }
}

/// Inserts `x` into `v` as `insert_sorted` does.
fn insert_sorted_exec(v: &mut Vec<Vec<char>>, x: Vec<char>)
    ensures
        views(final(v)@) == insert_sorted(views(old(v)@), x@),
{
    let mut p = v.len();
    while p > 0 && lex_lt_exec(&x, &v[p - 1])
        invariant
            p <= v@.len(),
            forall|j: int| p <= j < v@.len() ==> !lex_le(#[trigger] views(v@)[j], x@),
        decreases p,
    {
        p = p - 1;
    }
    proof {
        lemma_insert_sorted_split(views(v@), x@, p as int);
    }
    let ghost before = v@;
    let ghost xv = x@;
    v.insert(p, x);
    proof {
        assert(views(v@) =~= views(before).take(p as int) + seq![xv] + views(before).skip(p as int));
    }
}

/// `v` sorted ascending.
pub fn sort_chars(v: &Vec<Vec<char>>) -> (r: Vec<Vec<char>>)
    ensures
        views(r@) == sort_seq(views(v@)),
{
    let mut r: Vec<Vec<char>> = Vec::new();
    let mut i: usize = 0;
    while i < v.len()
        invariant
            i <= v@.len(),
            views(r@) == sort_seq(views(v@).take(i as int)),
        decreases v@.len() - i,
    {
        proof {
            assert(views(v@).take(i + 1).drop_last() =~= views(v@).take(i as int));
        }
        insert_sorted_exec(&mut r, v[i].clone());
        i = i + 1;
    }
    assert(views(v@).take(v@.len() as int) =~= views(v@));
    r
}

/// The order `lex_le` as a relation.
pub open spec fn lex_leq() -> spec_fn(Seq<char>, Seq<char>) -> bool {
    |a: Seq<char>, b: Seq<char>| lex_le(a, b)
}

/// No string sorts before itself.
proof fn lemma_lex_irreflexive(a: Seq<char>)
    ensures
        !lex_lt(a, a),
    decreases a.len(),
{
    if a.len() > 0 {
        lemma_lex_irreflexive(a.drop_first());
    }
}

/// Of two different strings exactly one sorts first.
proof fn lemma_lex_trichotomy(a: Seq<char>, b: Seq<char>)
    ensures
        a != b ==> lex_lt(a, b) || lex_lt(b, a),
        !(lex_lt(a, b) && lex_lt(b, a)),
    decreases a.len(),
{
    if a.len() > 0 && b.len() > 0 && a[0] == b[0] {
        lemma_lex_trichotomy(a.drop_first(), b.drop_first());
        if a.drop_first() == b.drop_first() {
            assert(a =~= seq![a[0]] + a.drop_first());
            assert(b =~= seq![b[0]] + b.drop_first());
        }
    } else if a.len() == 0 && b.len() == 0 {
        assert(a =~= b);
    } else if a.len() > 0 && b.len() > 0 {
        let x = a[0];
        let y = b[0];
        vstd::utf8::char_u32_cast(x, x as u32);
        vstd::utf8::char_u32_cast(y, y as u32);
        assert((x as u32) != (y as u32));
    }
}

/// `lex_lt` is transitive.
proof fn lemma_lex_transitive(a: Seq<char>, b: Seq<char>, c: Seq<char>)
    requires
        lex_lt(a, b),
        lex_lt(b, c),
    ensures
        lex_lt(a, c),
    decreases a.len(),
{
    if a.len() > 0 && b.len() > 0 && c.len() > 0 && a[0] == b[0] && b[0] == c[0] {
        lemma_lex_transitive(a.drop_first(), b.drop_first(), c.drop_first());
    }
}

/// `lex_le` is a total order.
pub proof fn lemma_lex_total_ordering()
    ensures
        total_ordering(lex_leq()),
{
    let le = lex_leq();
    assert forall|x: Seq<char>| #[trigger] le(x, x) by {
        lemma_lex_irreflexive(x);
    }
    assert forall|x: Seq<char>, y: Seq<char>| #[trigger] le(x, y) && #[trigger] le(y, x) implies x == y by {
        lemma_lex_trichotomy(x, y);
    }
    assert forall|x: Seq<char>, y: Seq<char>| #[trigger] le(x, y) || #[trigger] le(y, x) by {
        lemma_lex_trichotomy(x, y);
    }
    assert forall|x: Seq<char>, y: Seq<char>, z: Seq<char>| #[trigger] le(x, y) && #[trigger] le(y, z) implies le(
        x,
        z,
    ) by {
        if lex_lt(z, x) {
            lemma_lex_trichotomy(x, y);
            if x == y {
            } else {
                lemma_lex_transitive(z, x, y);
            }
        }
    }
}

/// Inserting keeps a sorted sequence sorted and adds `x` to its elements.
proof fn lemma_insert_sorted(s: Seq<Seq<char>>, x: Seq<char>)
    requires
        sorted_by(s, lex_leq()),
    ensures
        sorted_by(insert_sorted(s, x), lex_leq()),
        insert_sorted(s, x).to_multiset() == s.to_multiset().insert(x),
    decreases s.len(),
{
    broadcast use group_to_multiset_ensures;

    lemma_lex_total_ordering();
    let le = lex_leq();
    if s.len() == 0 {
        assert(seq![x] =~= Seq::<Seq<char>>::empty().push(x));
    } else if lex_le(s.last(), x) {
        let r = s.push(x);
        assert forall|i: int, j: int| 0 <= i < j < r.len() implies #[trigger] le(r[i], r[j]) by {
            if j == s.len() {
                if i < s.len() - 1 {
                    assert(le(s[i], s[s.len() - 1]));
                }
                assert(le(s[s.len() - 1], x));
            }
        }
    } else {
        let d = s.drop_last();
        let y = s.last();
        assert(sorted_by(d, le)) by {
            assert forall|i: int, j: int| 0 <= i < j < d.len() implies #[trigger] le(d[i], d[j]) by {
                assert(le(s[i], s[j]));
            }
        }
        lemma_insert_sorted(d, x);
        let t = insert_sorted(d, x);
        assert(lex_lt(x, y));
        assert forall|k: int| 0 <= k < t.len() implies #[trigger] le(t[k], y) by {
            assert(t.to_multiset().count(t[k]) > 0);
            if t[k] != x {
                assert(d.to_multiset().count(t[k]) > 0);
                assert(d.contains(t[k]));
                let m = choose|m: int| 0 <= m < d.len() && d[m] == t[k];
                assert(le(s[m], s[s.len() - 1]));
            } else {
                lemma_lex_trichotomy(x, y);
            }
        }
        let r = t.push(y);
        assert forall|i: int, j: int| 0 <= i < j < r.len() implies #[trigger] le(r[i], r[j]) by {
            if j == t.len() {
                assert(le(t[i], y));
            } else {
                assert(le(t[i], t[j]));
            }
        }
        assert(s =~= d.push(y));
        assert(r.to_multiset() =~= d.to_multiset().insert(x).insert(y));
        assert(s.to_multiset().insert(x) =~= d.to_multiset().insert(y).insert(x));
    }
}

/// `sort_seq` gives its input's elements in ascending order.
pub proof fn lemma_sort_seq(s: Seq<Seq<char>>)
    ensures
        sorted_by(sort_seq(s), lex_leq()),
        sort_seq(s).to_multiset() == s.to_multiset(),
    decreases s.len(),
{
    broadcast use group_to_multiset_ensures;

    if s.len() == 0 {
        assert(sort_seq(s) =~= Seq::<Seq<char>>::empty());
        assert(s =~= Seq::<Seq<char>>::empty());
    } else {
        lemma_sort_seq(s.drop_last());
        lemma_insert_sorted(sort_seq(s.drop_last()), s.last());
        assert(s =~= s.drop_last().push(s.last()));
    }
}

/// Sorting depends only on which strings there are, not on their order.
pub proof fn law_sort_seq_ignores_order(a: Seq<Seq<char>>, b: Seq<Seq<char>>)
    requires
        a.to_multiset() == b.to_multiset(),
    ensures
        sort_seq(a) == sort_seq(b),
{
    lemma_sort_seq(a);
    lemma_sort_seq(b);
    lemma_lex_total_ordering();
    lemma_sorted_unique(sort_seq(a), sort_seq(b), lex_leq());
}

/// Mapping two sequences with the same elements gives sequences with the
/// same elements.
pub proof fn lemma_map_same_elements<A, B>(a: Seq<A>, b: Seq<A>, f: spec_fn(A) -> B)
    requires
        a.to_multiset() == b.to_multiset(),
    ensures
        a.map_values(f).to_multiset() == b.map_values(f).to_multiset(),
    decreases a.len(),
{
    broadcast use group_to_multiset_ensures;
    broadcast use vstd::multiset::group_multiset_axioms;

    if a.len() == 0 {
        assert(a.to_multiset().len() == 0);
        assert(b.to_multiset().len() == b.len());
        assert(b.len() == 0);
        assert(a.map_values(f) =~= Seq::<B>::empty());
        assert(b.map_values(f) =~= Seq::<B>::empty());
    } else {
        let x = a.last();
        assert(a =~= a.drop_last().push(x));
        assert(b.to_multiset().count(x) > 0);
        assert(b.contains(x));
        let i = choose|i: int| 0 <= i < b.len() && b[i] == x;
        assert(b.remove(i).to_multiset() == b.to_multiset().remove(x));
        assert(a.drop_last().to_multiset() =~= a.to_multiset().remove(x));
        lemma_map_same_elements(a.drop_last(), b.remove(i), f);
        assert(a.map_values(f) =~= a.drop_last().map_values(f).push(f(x)));
        assert(b.map_values(f).remove(i) =~= b.remove(i).map_values(f));
        assert(b.map_values(f)[i] == f(x));
        assert(b.map_values(f).remove(i).to_multiset() == b.map_values(f).to_multiset().remove(f(x)));
        assert(b.map_values(f).to_multiset().count(f(x)) > 0) by {
            assert(b.map_values(f).contains(f(x)));
        }
        assert(b.map_values(f).to_multiset() =~= b.map_values(f).to_multiset().remove(f(x)).insert(f(x)));
    }
}

} // verus!
