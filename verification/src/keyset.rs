//! Sets held in `rustc_hash::FxHashSet`: of string keys, and of
//! (file, line) pairs.
//!
//! What such a set holds is named, and the operations the library uses are
//! stated over that name as `HashSet`'s documentation gives them.

use vstd::prelude::*;
use rustc_hash::FxHashSet;
use crate::text::string_views;

verus! {

#[verifier::external_type_specification]
#[verifier::external_body]
pub struct ExFxBuildHasher(rustc_hash::FxBuildHasher);

/// The keys an `FxHashSet` holds, each by its characters.
pub uninterp spec fn fx_keys(s: FxHashSet<String>) -> Set<Seq<char>>;

/// `FxHashSet::default()`: a set that holds no key.
#[verifier::external_body]
fn fx_set_new() -> (s: FxHashSet<String>)
    ensures
        fx_keys(s) == Set::<Seq<char>>::empty(),
{
    FxHashSet::default()
}

/// `HashSet::insert` on an `FxHashSet`: afterwards the set holds `k` and
/// every key it held before, and nothing else.
#[verifier::external_body]
fn fx_set_insert(s: &mut FxHashSet<String>, k: String)
    ensures
        fx_keys(*final(s)) == fx_keys(*old(s)).insert(k@),
{
    s.insert(k);
}

/// `HashSet::contains` on an `FxHashSet`, asked with a `&str`: whether the
/// set holds a key equal to `k`.
#[verifier::external_body]
pub(crate) fn fx_set_contains(s: &FxHashSet<String>, k: &str) -> (r: bool)
    ensures
        r == fx_keys(*s).contains(k@),
{
    s.contains(k)
}

/// The set of the given keys.
pub fn key_set(keys: &Vec<String>) -> (s: FxHashSet<String>)
    ensures
        forall|k: Seq<char>| #[trigger] fx_keys(s).contains(k) <==> string_views(keys@).contains(k),
{
    let ghost all = string_views(keys@);
    let mut s = fx_set_new();
    let mut i: usize = 0;
    while i < keys.len()
        invariant
            i <= keys@.len(),
            all == string_views(keys@),
            forall|k: Seq<char>| #[trigger] fx_keys(s).contains(k) <==> all.take(i as int).contains(k),
        decreases keys@.len() - i,
    {
        let k = keys[i].clone();
        proof {
            let t0 = all.take(i as int);
            let t1 = all.take(i + 1);
            assert(t1 =~= t0.push(k@));
            assert forall|q: Seq<char>| t1.contains(q) <==> (t0.contains(q) || q == k@) by {
                if t1.contains(q) {
                    let j = choose|j: int| 0 <= j < t1.len() && t1[j] == q;
                    if j < i {
                        assert(t0[j] == q);
                    }
                }
                if q == k@ {
                    assert(t1[i as int] == q);
                }
                if t0.contains(q) {
                    let j = choose|j: int| 0 <= j < t0.len() && t0[j] == q;
                    assert(t1[j] == q);
                }
            }
        }
        fx_set_insert(&mut s, k);
        i = i + 1;
    }
    assert(all.take(keys@.len() as int) =~= all);
    s
}

/// The (file, line) pairs an `FxHashSet` holds.
pub uninterp spec fn fx_lines(s: FxHashSet<(usize, usize)>) -> Set<(usize, usize)>;

/// `FxHashSet::default()`: a set that holds no pair.
#[verifier::external_body]
pub(crate) fn fx_lines_new() -> (s: FxHashSet<(usize, usize)>)
    ensures
        fx_lines(s) == Set::<(usize, usize)>::empty(),
{
    FxHashSet::default()
}

/// `HashSet::insert` on an `FxHashSet` of pairs: afterwards the set holds
/// `k` and every pair it held before, and nothing else; `true` comes back
/// when `k` was not held before.
#[verifier::external_body]
pub(crate) fn fx_lines_insert(s: &mut FxHashSet<(usize, usize)>, k: (usize, usize)) -> (fresh: bool)
    ensures
        fresh == !fx_lines(*old(s)).contains(k),
        fx_lines(*final(s)) == fx_lines(*old(s)).insert(k),
{
    s.insert(k)
}

} // verus!
