//! Character-level text utilities with their mathematical meaning.
//!
//! Strings are viewed as `Seq<char>`; the spec functions here say what the
//! std string operations used by the command-line logic compute.

use vstd::prelude::*;

verus! {

/// Unicode `White_Space` property, which `char::is_whitespace` and the
/// `trim` family test.
pub open spec fn is_ws(c: char) -> bool {
    let n = c as u32;
    ||| (9 <= n && n <= 13)
    ||| n == 32
    ||| n == 0x85
    ||| n == 0xA0
    ||| n == 0x1680
    ||| (0x2000 <= n && n <= 0x200A)
    ||| n == 0x2028
    ||| n == 0x2029
    ||| n == 0x202F
    ||| n == 0x205F
    ||| n == 0x3000
}

/// Number of leading whitespace characters.
pub open spec fn lead_ws(s: Seq<char>) -> nat
    decreases s.len(),
{
    if s.len() > 0 && is_ws(s[0]) {
        1 + lead_ws(s.drop_first())
    } else {
        0
    }
}

/// `str::trim_start`.
pub open spec fn trim_start(s: Seq<char>) -> Seq<char> {
    s.skip(lead_ws(s) as int)
}

/// Number of trailing whitespace characters.
pub open spec fn trail_ws(s: Seq<char>) -> nat
    decreases s.len(),
{
    if s.len() > 0 && is_ws(s.last()) {
        1 + trail_ws(s.drop_last())
    } else {
        0
    }
}

/// `str::trim_end`.
pub open spec fn trim_end(s: Seq<char>) -> Seq<char> {
    s.take(s.len() - trail_ws(s))
}

/// `str::trim`.
pub open spec fn trim(s: Seq<char>) -> Seq<char> {
    trim_end(trim_start(s))
}

/// `str::starts_with` for a string pattern.
pub open spec fn starts_with(s: Seq<char>, p: Seq<char>) -> bool {
    p.len() <= s.len() && s.take(p.len() as int) == p
}

/// `str::ends_with` for a string pattern.
pub open spec fn ends_with(s: Seq<char>, p: Seq<char>) -> bool {
    p.len() <= s.len() && s.skip(s.len() - p.len()) == p
}

/// Whether `p` occurs in `s` starting at index `i`.
pub open spec fn occurs_at(s: Seq<char>, p: Seq<char>, i: int) -> bool {
    0 <= i && i + p.len() <= s.len() && s.subrange(i, i + p.len()) == p
}

/// `str::contains` for a string pattern.
pub open spec fn contains_str(s: Seq<char>, p: Seq<char>) -> bool {
    exists|i: int| occurs_at(s, p, i)
}

/// Index of the first occurrence of `c`, as `str::find` with a char pattern
/// (counted in characters).
pub open spec fn find_char(s: Seq<char>, c: char) -> Option<nat>
    decreases s.len(),
{
    if s.len() == 0 {
        None
    } else if s[0] == c {
        Some(0)
    } else {
        match find_char(s.drop_first(), c) {
            Some(i) => Some(i + 1),
            None => None,
        }
    }
}

/// Index of the last occurrence of `c`, as `str::rfind` with a char pattern.
pub open spec fn rfind_char(s: Seq<char>, c: char) -> Option<nat>
    decreases s.len(),
{
    if s.len() == 0 {
        None
    } else if s.last() == c {
        Some((s.len() - 1) as nat)
    } else {
        rfind_char(s.drop_last(), c)
    }
}

/// `str::split` with a char separator: always at least one piece.
pub open spec fn split_char(s: Seq<char>, sep: char) -> Seq<Seq<char>>
    decreases s.len(),
{
    match find_char(s, sep) {
        None => seq![s],
        Some(i) => {
            proof {
                lemma_find_char(s, sep);
            }
            seq![s.take(i as int)] + split_char(s.skip(i + 1 as int), sep)
        },
    }
}

/// What `find_char` returns: the first index holding `c`, or `None` when
/// `c` does not occur.
pub proof fn lemma_find_char(s: Seq<char>, c: char)
    ensures
        match find_char(s, c) {
            Some(i) => i < s.len() && s[i as int] == c && forall|j: int| 0 <= j < i ==> s[j] != c,
            None => forall|j: int| 0 <= j < s.len() ==> s[j] != c,
        },
    decreases s.len(),
{
    if s.len() > 0 && s[0] != c {
        lemma_find_char(s.drop_first(), c);
        assert forall|j: int| 1 <= j < s.len() implies s[j] == s.drop_first()[j - 1] by {}
    }
}

/// `[S]::join` with a separator.
pub open spec fn join(parts: Seq<Seq<char>>, sep: Seq<char>) -> Seq<char>
    decreases parts.len(),
{
    if parts.len() == 0 {
        Seq::empty()
    } else if parts.len() == 1 {
        parts[0]
    } else {
        join(parts.drop_last(), sep) + sep + parts.last()
    }
}

/// `str::replace` of one character by another.
pub open spec fn replace_char(s: Seq<char>, from: char, to: char) -> Seq<char> {
    s.map_values(|c: char| if c == from { to } else { c })
}

/// Decimal digits of a natural number, as `Display` prints an unsigned integer.
pub open spec fn decimal(n: nat) -> Seq<char>
    decreases n,
{
    if n < 10 {
        seq![digit_char(n)]
    } else {
        decimal(n / 10).push(digit_char(n % 10))
    }
}

/// The ASCII digit for `d < 10`.
pub open spec fn digit_char(d: nat) -> char {
    if d == 0 { '0' }
    else if d == 1 { '1' }
    else if d == 2 { '2' }
    else if d == 3 { '3' }
    else if d == 4 { '4' }
    else if d == 5 { '5' }
    else if d == 6 { '6' }
    else if d == 7 { '7' }
    else if d == 8 { '8' }
    else { '9' }
}

/// Appends one character to a `String`.
#[verifier::external_body]
pub(crate) fn push_char(s: &mut String, c: char)
    ensures
        final(s)@ == old(s)@.push(c),
{
    s.push(c);
}

/// The characters of a string slice, in order.
pub fn chars_of(s: &str) -> (v: Vec<char>)
    ensures
        v@ == s@,
{
    let mut v: Vec<char> = Vec::new();
    for c in it: s.chars()
        invariant
            v@ == it.seq().take(it.index() as int),
            it.seq() == s@,
        ensures
            v@ == s@,
    {
        v.push(c);
    }
    v
}


/// `char::is_whitespace`.
pub fn is_ws_exec(c: char) -> (r: bool)
    ensures
        r == is_ws(c),
{
    let n = c as u32;
    (9 <= n && n <= 13) || n == 32 || n == 0x85 || n == 0xA0 || n == 0x1680 || (0x2000 <= n
        && n <= 0x200A) || n == 0x2028 || n == 0x2029 || n == 0x202F || n == 0x205F || n == 0x3000
}

/// Leading whitespace count of `s[lo..hi]`.
pub fn lead_ws_count(s: &Vec<char>, lo: usize, hi: usize) -> (n: usize)
    requires
        lo <= hi <= s@.len(),
    ensures
        n == lead_ws(s@.subrange(lo as int, hi as int)),
        lo + n <= hi,
{
    let mut i = lo;
    while i < hi && is_ws_exec(s[i])
        invariant
            lo <= i <= hi <= s@.len(),
            lead_ws(s@.subrange(lo as int, hi as int)) == (i - lo) + lead_ws(
                s@.subrange(i as int, hi as int),
            ),
        decreases hi - i,
    {
        assert(s@.subrange(i as int, hi as int).drop_first() =~= s@.subrange(
            i + 1,
            hi as int,
        ));
        i = i + 1;
    }
    i - lo
}

/// Trailing whitespace count of `s[lo..hi]`.
pub fn trail_ws_count(s: &Vec<char>, lo: usize, hi: usize) -> (n: usize)
    requires
        lo <= hi <= s@.len(),
    ensures
        n == trail_ws(s@.subrange(lo as int, hi as int)),
        lo + n <= hi,
{
    let mut j = hi;
    while lo < j && is_ws_exec(s[j - 1])
        invariant
            lo <= j <= hi <= s@.len(),
            trail_ws(s@.subrange(lo as int, hi as int)) == (hi - j) + trail_ws(
                s@.subrange(lo as int, j as int),
            ),
        decreases j - lo,
    {
        assert(s@.subrange(lo as int, j as int).drop_last() =~= s@.subrange(
            lo as int,
            j - 1,
        ));
        j = j - 1;
    }
    hi - j
}

/// Bounds of `trim(s[lo..hi])` inside `s`.
pub fn trim_bounds(s: &Vec<char>, lo: usize, hi: usize) -> (r: (usize, usize))
    requires
        lo <= hi <= s@.len(),
    ensures
        lo <= r.0 <= r.1 <= hi,
        s@.subrange(r.0 as int, r.1 as int) == trim(s@.subrange(lo as int, hi as int)),
        s@.subrange(r.0 as int, hi as int) == trim_start(s@.subrange(lo as int, hi as int)),
{
    let a = lead_ws_count(s, lo, hi);
    let start = lo + a;
    assert(s@.subrange(lo as int, hi as int).skip(a as int) =~= s@.subrange(
        start as int,
        hi as int,
    ));
    let b = trail_ws_count(s, start, hi);
    let end = hi - b;
    assert(s@.subrange(start as int, hi as int).take((hi - start) - b) =~= s@.subrange(
        start as int,
        end as int,
    ));
    (start, end)
}

/// The characters `s[lo..hi]` as a new vector.
pub fn sub_vec(s: &Vec<char>, lo: usize, hi: usize) -> (v: Vec<char>)
    requires
        lo <= hi <= s@.len(),
    ensures
        v@ == s@.subrange(lo as int, hi as int),
{
    let mut v: Vec<char> = Vec::new();
    let mut i = lo;
    while i < hi
        invariant
            lo <= i <= hi <= s@.len(),
            v@ == s@.subrange(lo as int, i as int),
        decreases hi - i,
    {
        v.push(s[i]);
        i = i + 1;
    }
    v
}

/// Appends `t[lo..hi]` to `out`.
pub fn extend_range(out: &mut Vec<char>, t: &Vec<char>, lo: usize, hi: usize)
    requires
        lo <= hi <= t@.len(),
    ensures
        final(out)@ == old(out)@ + t@.subrange(lo as int, hi as int),
{
    let mut i = lo;
    while i < hi
        invariant
            lo <= i <= hi <= t@.len(),
            out@ == old(out)@ + t@.subrange(lo as int, i as int),
        decreases hi - i,
    {
        out.push(t[i]);
        i = i + 1;
    }
}

/// Appends all of `t` to `out`.
pub fn extend_all(out: &mut Vec<char>, t: &Vec<char>)
    ensures
        final(out)@ == old(out)@ + t@,
{
    extend_range(out, t, 0, t.len());
    assert(t@.subrange(0, t@.len() as int) =~= t@);
}

/// Appends the characters of `t` to `out`.
pub fn extend_str(out: &mut Vec<char>, t: &str)
    ensures
        final(out)@ == old(out)@ + t@,
{
    let v = chars_of(t);
    extend_all(out, &v);
}

/// A `String` holding exactly the characters of `v`.
pub fn string_of(v: &Vec<char>) -> (s: String)
    ensures
        s@ == v@,
{
    let mut s = String::new();
    let mut i: usize = 0;
    while i < v.len()
        invariant
            i <= v@.len(),
            s@ == v@.take(i as int),
        decreases v@.len() - i,
    {
        push_char(&mut s, v[i]);
        assert(v@.take(i + 1) =~= v@.take(i as int).push(v@[i as int]));
        i = i + 1;
    }
    assert(v@.take(v@.len() as int) =~= v@);
    s
}

/// Whether two character sequences are equal.
pub fn chars_eq(a: &Vec<char>, b: &Vec<char>) -> (r: bool)
    ensures
        r == (a@ == b@),
{
    if a.len() != b.len() {
        return false;
    }
    let mut i: usize = 0;
    while i < a.len()
        invariant
            i <= a@.len() == b@.len(),
            forall|j: int| 0 <= j < i ==> a@[j] == b@[j],
        decreases a@.len() - i,
    {
        if a[i] != b[i] {
            return false;
        }
        i = i + 1;
    }
    assert(a@ =~= b@);
    true
}

/// Index of the first `c` at or after `from` and before `hi`, or `hi`.
pub fn find_from(s: &Vec<char>, c: char, from: usize, hi: usize) -> (r: usize)
    requires
        from <= hi <= s@.len(),
    ensures
        from <= r <= hi,
        r < hi ==> s@[r as int] == c,
        forall|j: int| from <= j < r ==> s@[j] != c,
{
    let mut i = from;
    while i < hi && s[i] != c
        invariant
            from <= i <= hi <= s@.len(),
            forall|j: int| from <= j < i ==> s@[j] != c,
        decreases hi - i,
    {
        i = i + 1;
    }
    i
}

/// `find_char` of a whole sequence, from the first-index facts.
pub proof fn lemma_find_char_is(s: Seq<char>, c: char, r: int)
    requires
        0 <= r <= s.len(),
        r < s.len() ==> s[r] == c,
        forall|j: int| 0 <= j < r ==> s[j] != c,
    ensures
        find_char(s, c) == if r < s.len() { Some(r as nat) } else { None::<nat> },
{
    lemma_find_char(s, c);
}

/// `rfind_char` from the last-index facts.
pub proof fn lemma_rfind_char_is(s: Seq<char>, c: char, r: int)
    requires
        -1 <= r < s.len(),
        r >= 0 ==> s[r] == c,
        forall|j: int| r < j < s.len() ==> s[j] != c,
    ensures
        rfind_char(s, c) == if r >= 0 { Some(r as nat) } else { None::<nat> },
    decreases s.len(),
{
    if s.len() > 0 && r < s.len() - 1 {
        lemma_rfind_char_is(s.drop_last(), c, r);
    }
}

/// Index of the last `c` in `s`, if any.
pub fn rfind_exec(s: &Vec<char>, c: char) -> (r: Option<usize>)
    ensures
        r matches Some(i) ==> i < s@.len(),
        match r {
            Some(i) => rfind_char(s@, c) == Some(i as nat),
            None => rfind_char(s@, c) == None::<nat>,
        },
{
    let mut j = s.len();
    while j > 0 && s[j - 1] != c
        invariant
            j <= s@.len(),
            forall|k: int| j <= k < s@.len() ==> s@[k] != c,
        decreases j,
    {
        j = j - 1;
    }
    proof {
        lemma_rfind_char_is(s@, c, j - 1);
    }
    if j == 0 {
        None
    } else {
        Some(j - 1)
    }
}

/// Index of the first `c` in `s`, if any.
pub fn find_exec(s: &Vec<char>, c: char) -> (r: Option<usize>)
    ensures
        r matches Some(i) ==> i < s@.len(),
        match r {
            Some(i) => find_char(s@, c) == Some(i as nat),
            None => find_char(s@, c) == None::<nat>,
        },
{
    let i = find_from(s, c, 0, s.len());
    proof {
        lemma_find_char_is(s@, c, i as int);
    }
    if i < s.len() {
        Some(i)
    } else {
        None
    }
}


/// The part of `s` before the first `c` (all of `s` when `c` is absent):
/// the first item of `str::split`.
pub open spec fn before_char(s: Seq<char>, c: char) -> Seq<char> {
    match find_char(s, c) {
        Some(i) => s.take(i as int),
        None => s,
    }
}

/// One step of `split_char` over a window of `s`, given where the next
/// separator is.
pub proof fn lemma_split_step(s: Seq<char>, sep: char, start: int, r: int, hi: int)
    requires
        0 <= start <= r <= hi <= s.len(),
        r < hi ==> s[r] == sep,
        forall|j: int| start <= j < r ==> s[j] != sep,
    ensures
        split_char(s.subrange(start, hi), sep) == if r < hi {
            seq![s.subrange(start, r)] + split_char(s.subrange(r + 1, hi), sep)
        } else {
            seq![s.subrange(start, hi)]
        },
{
    let x = s.subrange(start, hi);
    lemma_find_char_is(x, sep, r - start);
    if r < hi {
        assert(x.take(r - start) =~= s.subrange(start, r));
        assert(x.skip(r - start + 1) =~= s.subrange(r + 1, hi));
    }
}

/// `before_char` of a window of `s`, given where the first `c` is.
pub proof fn lemma_before_char_is(s: Seq<char>, c: char, start: int, r: int, hi: int)
    requires
        0 <= start <= r <= hi <= s.len(),
        r < hi ==> s[r] == c,
        forall|j: int| start <= j < r ==> s[j] != c,
    ensures
        before_char(s.subrange(start, hi), c) == s.subrange(start, r),
{
    let x = s.subrange(start, hi);
    lemma_find_char_is(x, c, r - start);
    assert(x.take(r - start) =~= s.subrange(start, r));
    if r == hi {
        assert(x =~= s.subrange(start, r));
    }
}

/// Views of a vector of character vectors.
pub open spec fn views(v: Seq<Vec<char>>) -> Seq<Seq<char>> {
    v.map_values(|x: Vec<char>| x@)
}

/// `join` of one more part.
pub proof fn lemma_join_push(parts: Seq<Seq<char>>, sep: Seq<char>, x: Seq<char>)
    ensures
        join(parts.push(x), sep) == if parts.len() == 0 { x } else { join(parts, sep) + sep + x },
{
    assert(parts.push(x).drop_last() =~= parts);
}

/// Joins character vectors with a separator.
pub fn join_chars(parts: &Vec<Vec<char>>, sep: &Vec<char>) -> (r: Vec<char>)
    ensures
        r@ == join(views(parts@), sep@),
{
    let mut out: Vec<char> = Vec::new();
    let mut i: usize = 0;
    while i < parts.len()
        invariant
            i <= parts@.len(),
            out@ == join(views(parts@).take(i as int), sep@),
        decreases parts@.len() - i,
    {
        proof {
            lemma_join_push(views(parts@).take(i as int), sep@, parts@[i as int]@);
            assert(views(parts@).take(i + 1) =~= views(parts@).take(i as int).push(
                parts@[i as int]@,
            ));
        }
        if i > 0 {
            extend_all(&mut out, sep);
        }
        extend_all(&mut out, &parts[i]);
        i = i + 1;
    }
    assert(views(parts@).take(parts@.len() as int) =~= views(parts@));
    out
}


/// Index of the first occurrence of `p` in `s`, as `str::find` with a
/// string pattern (counted in characters).
pub open spec fn find_str(s: Seq<char>, p: Seq<char>) -> Option<nat>
    decreases s.len(),
{
    if starts_with(s, p) {
        Some(0)
    } else if s.len() == 0 {
        None
    } else {
        match find_str(s.drop_first(), p) {
            Some(i) => Some(i + 1),
            None => None,
        }
    }
}

/// `find_str` of a window of `s`, given where the first occurrence is.
pub proof fn lemma_find_str_is(s: Seq<char>, p: Seq<char>, lo: int, r: int, hi: int)
    requires
        0 <= lo <= r <= hi <= s.len(),
        p.len() > 0,
        r < hi ==> starts_with(s.subrange(r, hi), p),
        forall|j: int| lo <= j < r ==> !starts_with(#[trigger] s.subrange(j, hi), p),
    ensures
        find_str(s.subrange(lo, hi), p) == if r < hi { Some((r - lo) as nat) } else { None::<nat> },
    decreases hi - lo,
{
    let x = s.subrange(lo, hi);
    if lo < r {
        assert(!starts_with(s.subrange(lo, hi), p));
        assert(x.drop_first() =~= s.subrange(lo + 1, hi));
        lemma_find_str_is(s, p, lo + 1, r, hi);
    } else if r == hi {
        assert(x.len() == 0);
    }
}

/// Whether `s` from index `pos` starts with `p`.
pub fn has_prefix_at(s: &Vec<char>, pos: usize, p: &Vec<char>) -> (r: bool)
    requires
        pos <= s@.len(),
    ensures
        r == starts_with(s@.skip(pos as int), p@),
{
    if p.len() > s.len() - pos {
        return false;
    }
    let mut i: usize = 0;
    assert(pos + p@.len() <= s@.len());
    while i < p.len()
        invariant
            pos + p@.len() <= s@.len(),
            s@.len() <= usize::MAX,
            i <= p@.len(),
            forall|j: int| 0 <= j < i ==> s@[pos + j] == p@[j],
        decreases p@.len() - i,
    {
        if s[pos + i] != p[i] {
            assert(s@.skip(pos as int).take(p@.len() as int)[i as int] != p@[i as int]);
            return false;
        }
        i = i + 1;
    }
    assert(s@.skip(pos as int).take(p@.len() as int) =~= p@);
    true
}

/// Whether the window `s[pos..hi]` starts with `p`.
pub fn has_prefix_in(s: &Vec<char>, pos: usize, hi: usize, p: &Vec<char>) -> (r: bool)
    requires
        pos <= hi <= s@.len(),
    ensures
        r == starts_with(s@.subrange(pos as int, hi as int), p@),
{
    if p.len() > hi - pos {
        return false;
    }
    let r = has_prefix_at(s, pos, p);
    assert(s@.skip(pos as int).take(p@.len() as int) =~= s@.subrange(pos as int, hi as int).take(
        p@.len() as int,
    ));
    r
}

/// Index of the first occurrence of `p` inside `s[lo..hi]`, or `hi`.
pub fn find_str_from(s: &Vec<char>, p: &Vec<char>, lo: usize, hi: usize) -> (r: usize)
    requires
        lo <= hi <= s@.len(),
        p@.len() > 0,
    ensures
        lo <= r <= hi,
        find_str(s@.subrange(lo as int, hi as int), p@) == if r < hi {
            Some((r - lo) as nat)
        } else {
            None::<nat>
        },
{
    let mut i = lo;
    while i < hi
        invariant
            lo <= i <= hi <= s@.len(),
            p@.len() > 0,
            forall|j: int| lo <= j < i ==> !starts_with(#[trigger] s@.subrange(j, hi as int), p@),
        decreases hi - i,
    {
        if has_prefix_in(s, i, hi, p) {
            proof {
                lemma_find_str_is(s@, p@, lo as int, i as int, hi as int);
            }
            return i;
        }
        i = i + 1;
    }
    proof {
        lemma_find_str_is(s@, p@, lo as int, hi as int, hi as int);
    }
    hi
}


/// The characters of `s` with every `from` replaced by `to`.
pub fn replace_char_exec(s: &str, from: char, to: char) -> (r: Vec<char>)
    ensures
        r@ == replace_char(s@, from, to),
{
    let v = chars_of(s);
    let mut r: Vec<char> = Vec::new();
    let mut i: usize = 0;
    while i < v.len()
        invariant
            i <= v@.len(),
            r@ == replace_char(v@.take(i as int), from, to),
        decreases v@.len() - i,
    {
        proof {
            assert(v@.take(i + 1) =~= v@.take(i as int).push(v@[i as int]));
            v@.take(i as int).lemma_push_map_commute(|c: char| if c == from { to } else { c }, v@[i as int]);
        }
        if v[i] == from {
            r.push(to);
        } else {
            r.push(v[i]);
        }
        i = i + 1;
    }
    assert(v@.take(v@.len() as int) =~= v@);
    r
}

/// Views of a vector of strings.
pub open spec fn string_views(v: Seq<String>) -> Seq<Seq<char>> {
    v.map_values(|x: String| x@)
}

/// Whether `x` is one of `v`.
pub fn contains_string(v: &Vec<String>, x: &Vec<char>) -> (r: bool)
    ensures
        r == string_views(v@).contains(x@),
{
    let mut k: usize = 0;
    while k < v.len()
        invariant
            k <= v@.len(),
            forall|j: int| 0 <= j < k ==> v@[j]@ != x@,
        decreases v@.len() - k,
    {
        let c = chars_of(v[k].as_str());
        if chars_eq(&c, x) {
            assert(string_views(v@)[k as int] == x@);
            return true;
        }
        k = k + 1;
    }
    proof {
        if string_views(v@).contains(x@) {
            let j = choose|j: int| 0 <= j < string_views(v@).len() && string_views(v@)[j] == x@;
            assert(v@[j]@ == x@);
        }
    }
    false
}

/// Decimal digits of `n`.
pub fn decimal_exec(n: u64) -> (r: Vec<char>)
    ensures
        r@ == decimal(n as nat),
    decreases n,
{
    if n < 10 {
        let mut r: Vec<char> = Vec::new();
        r.push(digit_exec(n));
        r
    } else {
        let mut r = decimal_exec(n / 10);
        r.push(digit_exec(n % 10));
        r
    }
}

/// The ASCII digit for `d < 10`.
pub fn digit_exec(d: u64) -> (c: char)
    requires
        d < 10,
    ensures
        c == digit_char(d as nat),
{
    if d == 0 { '0' }
    else if d == 1 { '1' }
    else if d == 2 { '2' }
    else if d == 3 { '3' }
    else if d == 4 { '4' }
    else if d == 5 { '5' }
    else if d == 6 { '6' }
    else if d == 7 { '7' }
    else if d == 8 { '8' }
    else { '9' }
}


/// Mapping a prefix one element longer.
pub proof fn lemma_take_map_push<A, B>(s: Seq<A>, f: spec_fn(A) -> B, i: int)
    requires
        0 <= i < s.len(),
    ensures
        s.take(i + 1).map_values(f) == s.take(i).map_values(f).push(f(s[i])),
{
    assert(s.take(i + 1) =~= s.take(i).push(s[i]));
    s.take(i).lemma_push_map_commute(f, s[i]);
}

/// Splits `s` at the last occurrence of `c` into the part before it and
/// the part after it, or `None` when `c` does not occur, as
/// `str::rsplit_once` does with a char delimiter.
pub fn str_rsplit_once(s: &str, c: char) -> (r: Option<(&str, &str)>)
    ensures
        match r {
            Some((a, b)) => rfind_char(s@, c) is Some && a@ == s@.take(rfind_char(s@, c).unwrap() as int)
                && b@ == s@.skip(rfind_char(s@, c).unwrap() + 1 as int),
            None => rfind_char(s@, c) is None,
        },
{
    let v = chars_of(s);
    match rfind_exec(&v, c) {
        None => None,
        Some(i) => {
            let n = v.len();
            let a = s.substring_char(0, i);
            let b = s.substring_char(i + 1, n);
            assert(a@ =~= s@.take(i as int));
            assert(b@ =~= s@.skip(i + 1 as int));
            Some((a, b))
        },
    }
}

/// Value of a string of ASCII digits.
pub open spec fn digits_value(s: Seq<char>) -> int
    decreases s.len(),
{
    if s.len() == 0 {
        0
    } else {
        digits_value(s.drop_last()) * 10 + ((s.last() as int) - ('0' as int))
    }
}

/// Whether every character is an ASCII digit.
pub open spec fn all_digits(s: Seq<char>) -> bool {
    forall|i: int| 0 <= i < s.len() ==> '0' <= #[trigger] s[i] <= '9'
}

/// What `usize::from_str` accepts: an optional `+`, then at least one ASCII
/// digit, with a value that fits in `usize`.
pub open spec fn parsed_usize(s: Seq<char>) -> Option<nat> {
    let d = if s.len() > 0 && s[0] == '+' { s.drop_first() } else { s };
    if d.len() > 0 && all_digits(d) && digits_value(d) <= usize::MAX {
        Some(digits_value(d) as nat)
    } else {
        None
    }
}

/// A prefix of digits has a value no larger than the whole.
proof fn lemma_digits_value_prefix(s: Seq<char>, i: int)
    requires
        0 <= i <= s.len(),
        all_digits(s),
    ensures
        0 <= digits_value(s.take(i)) <= digits_value(s),
    decreases s.len() - i,
{
    if i < s.len() {
        lemma_digits_value_prefix(s, i + 1);
        assert(s.take(i + 1).drop_last() =~= s.take(i));
        assert(s.take(i + 1).last() == s[i]);
    } else {
        assert(s.take(i) =~= s);
    }
    lemma_digits_value_nonneg(s);
}

/// Digit strings have non-negative values.
proof fn lemma_digits_value_nonneg(s: Seq<char>)
    requires
        all_digits(s),
    ensures
        digits_value(s) >= 0,
    decreases s.len(),
{
    if s.len() > 0 {
        assert(all_digits(s.drop_last()));
        lemma_digits_value_nonneg(s.drop_last());
    }
}

/// Parses a decimal `usize` as `str::parse::<usize>` does.
pub fn parse_usize(s: &str) -> (r: Option<usize>)
    ensures
        match r {
            Some(n) => parsed_usize(s@) == Some(n as nat),
            None => parsed_usize(s@) is None,
        },
{
    let v = chars_of(s);
    let mut i: usize = 0;
    if v.len() > 0 && v[0] == '+' {
        i = 1;
    }
    let ghost d = if s@.len() > 0 && s@[0] == '+' { s@.drop_first() } else { s@ };
    assert(d =~= v@.skip(i as int));
    if i >= v.len() {
        return None;
    }
    let start = i;
    let mut acc: usize = 0;
    while i < v.len()
        invariant
            start <= i <= v@.len(),
            v@ == s@,
            d == (if s@.len() > 0 && s@[0] == '+' { s@.drop_first() } else { s@ }),
            d =~= v@.skip(start as int),
            all_digits(v@.subrange(start as int, i as int)),
            acc == digits_value(v@.subrange(start as int, i as int)),
        decreases v@.len() - i,
    {
        let c = v[i];
        assert(v@.subrange(start as int, i + 1).drop_last() =~= v@.subrange(start as int, i as int));
        if c < '0' || c > '9' {
            assert(d[i - start] == c);
            return None;
        }
        let dv: usize = (c as u32 - '0' as u32) as usize;
        if acc > (usize::MAX - dv) / 10 {
            proof {
                assert(all_digits(v@.subrange(start as int, i + 1)));
                assert(digits_value(v@.subrange(start as int, i + 1)) > usize::MAX);
                assert(v@.subrange(start as int, i + 1) =~= d.take(i + 1 - start));
                if all_digits(d) {
                    lemma_digits_value_prefix(d, i + 1 - start);
                }
            }
            return None;
        }
        acc = acc * 10 + dv;
        i = i + 1;
    }
    assert(v@.subrange(start as int, v@.len() as int) =~= d);
    Some(acc)
}

/// Whether `p` occurs in `s`, as `str::contains` with a string pattern.
pub fn contains_exec(s: &Vec<char>, p: &Vec<char>) -> (r: bool)
    ensures
        r == contains_str(s@, p@),
{
    if p.len() > s.len() {
        assert forall|i: int| !occurs_at(s@, p@, i) by {}
        return false;
    }
    let last = s.len() - p.len();
    let mut i: usize = 0;
    while i < last
        invariant
            p@.len() <= s@.len(),
            last == s@.len() - p@.len(),
            i <= last,
            forall|j: int| 0 <= j < i ==> !#[trigger] occurs_at(s@, p@, j),
        decreases last - i,
    {
        assert(s@.skip(i as int).take(p@.len() as int) =~= s@.subrange(i as int, i + p@.len()));
        if has_prefix_at(s, i, p) {
            assert(occurs_at(s@, p@, i as int));
            return true;
        }
        i = i + 1;
    }
    assert(s@.skip(last as int).take(p@.len() as int) =~= s@.subrange(last as int, last + p@.len()));
    if has_prefix_at(s, last, p) {
        assert(occurs_at(s@, p@, last as int));
        return true;
    }
    assert forall|j: int| !occurs_at(s@, p@, j) by {
        if 0 <= j && j + p@.len() <= s@.len() {
            assert(j <= last);
        }
    }
    false
}

/// Whether two strings are equal.
pub fn str_eq(a: &str, b: &str) -> (r: bool)
    ensures
        r == (a@ == b@),
{
    let x = chars_of(a);
    let y = chars_of(b);
    chars_eq(&x, &y)
}

/// `str::split` with a char separator, as character vectors.
pub fn split_exec(s: &Vec<char>, sep: char) -> (r: Vec<Vec<char>>)
    ensures
        views(r@) == split_char(s@, sep),
{
    let mut pieces: Vec<Vec<char>> = Vec::new();
    let mut start: usize = 0;
    assert(s@.subrange(0, s@.len() as int) =~= s@);
    loop
        invariant
            start <= s@.len(),
            views(pieces@) + split_char(s@.subrange(start as int, s@.len() as int), sep) == split_char(
                s@,
                sep,
            ),
        decreases s@.len() - start,
    {
        let r = find_from(s, sep, start, s.len());
        proof {
            lemma_split_step(s@, sep, start as int, r as int, s@.len() as int);
        }
        let piece = sub_vec(s, start, r);
        let ghost before = pieces@;
        pieces.push(piece);
        assert(views(pieces@) =~= views(before).push(piece@));
        if r < s.len() {
            assert(views(before) + (seq![piece@] + split_char(s@.subrange(r + 1, s@.len() as int), sep))
                =~= views(pieces@) + split_char(s@.subrange(r + 1, s@.len() as int), sep));
            start = r + 1;
        } else {
            assert(views(before) + seq![piece@] =~= views(pieces@));
            return pieces;
        }
    }
}

/// `str::trim`, as a character vector.
pub fn trim_vec(s: &Vec<char>) -> (r: Vec<char>)
    ensures
        r@ == trim(s@),
{
    let (a, b) = trim_bounds(s, 0, s.len());
    assert(s@.subrange(0, s@.len() as int) =~= s@);
    sub_vec(s, a, b)
}

/// Where `find_str` finds a nonempty pattern, the pattern fits after it.
pub proof fn lemma_find_str_fits(s: Seq<char>, p: Seq<char>)
    ensures
        find_str(s, p) matches Some(i) ==> i + p.len() <= s.len() && s.subrange(i as int, (i + p.len()) as int) == p,
    decreases s.len(),
{
    if starts_with(s, p) {
        assert(s.subrange(0, p.len() as int) =~= s.take(p.len() as int));
    } else if s.len() > 0 {
        lemma_find_str_fits(s.drop_first(), p);
        if let Some(i) = find_str(s.drop_first(), p) {
            assert(s.subrange((i + 1) as int, (i + 1 + p.len()) as int) =~= s.drop_first().subrange(i as int, (i + p.len()) as int));
        }
    }
}

/// `str::split` with a nonempty string separator.
pub open spec fn split_str(s: Seq<char>, p: Seq<char>) -> Seq<Seq<char>>
    decreases s.len(),
{
    if p.len() == 0 {
        seq![s]
    } else {
        match find_str(s, p) {
            None => seq![s],
            Some(i) => {
                proof {
                    lemma_find_str_fits(s, p);
                }
                seq![s.take(i as int)] + split_str(s.skip((i + p.len()) as int), p)
            },
        }
    }
}

/// `str::split` with a nonempty string separator, as character vectors.
pub fn split_str_exec(s: &Vec<char>, p: &Vec<char>) -> (r: Vec<Vec<char>>)
    requires
        p@.len() > 0,
    ensures
        views(r@) == split_str(s@, p@),
{
    let mut pieces: Vec<Vec<char>> = Vec::new();
    let mut start: usize = 0;
    assert(s@.subrange(0, s@.len() as int) =~= s@);
    loop
        invariant
            start <= s@.len(),
            p@.len() > 0,
            views(pieces@) + split_str(s@.subrange(start as int, s@.len() as int), p@) == split_str(
                s@,
                p@,
            ),
        decreases s@.len() - start,
    {
        let n = s.len();
        let r = find_str_from(s, p, start, n);
        let ghost x = s@.subrange(start as int, n as int);
        let piece = sub_vec(s, start, r);
        let ghost before = pieces@;
        pieces.push(piece);
        assert(views(pieces@) =~= views(before).push(piece@));
        if r < n {
            proof {
                lemma_find_str_fits(x, p@);
                assert(x.take(r - start) =~= s@.subrange(start as int, r as int));
                assert(x.skip(r - start + p@.len()) =~= s@.subrange(r + p@.len(), n as int));
            }
            assert(views(before) + (seq![piece@] + split_str(s@.subrange(r + p@.len(), n as int), p@))
                =~= views(pieces@) + split_str(s@.subrange(r + p@.len(), n as int), p@));
            start = r + p.len();
        } else {
            assert(views(before) + seq![piece@] =~= views(pieces@));
            assert(x =~= s@.subrange(start as int, r as int));
            return pieces;
        }
    }
}

} // verus!
