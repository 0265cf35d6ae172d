//! Glob patterns, compiled and matched by the `globset` crate.
//!
//! What a glob matches takes pages to state, so the results of `globset`
//! are named here and the library's logic is stated over those names. A
//! `GlobSetBuilder` and a `GlobSet` are taken by the patterns of the globs
//! they hold, in the order in which they were added.

use vstd::prelude::*;
use crate::text::string_views;

verus! {

#[verifier::external_type_specification]
#[verifier::external_body]
pub struct ExGlobSetBuilder(globset::GlobSetBuilder);

#[verifier::external_type_specification]
#[verifier::external_body]
pub struct ExGlobSet(globset::GlobSet);

/// Whether `globset::Glob::new(pattern)` accepts the pattern.
pub uninterp spec fn spec_glob_valid(pattern: Seq<char>) -> bool;

/// The patterns of the globs a builder holds, in the order of `add`.
pub uninterp spec fn builder_globs(b: globset::GlobSetBuilder) -> Seq<Seq<char>>;

/// The patterns of the globs a set was built from, in order.
pub uninterp spec fn set_globs(s: globset::GlobSet) -> Seq<Seq<char>>;

/// Whether `GlobSetBuilder::build` succeeds on these globs.
pub uninterp spec fn spec_glob_build_ok(globs: Seq<Seq<char>>) -> bool;

/// Whether `GlobSet::is_match` of a set built from these globs holds of
/// `path`.
pub uninterp spec fn spec_glob_set_match(globs: Seq<Seq<char>>, path: Seq<char>) -> bool;

/// `globset::GlobSetBuilder::new()`: a builder that holds no glob.
#[verifier::external_body]
fn glob_builder_new() -> (b: globset::GlobSetBuilder)
    ensures
        builder_globs(b) == Seq::<Seq<char>>::empty(),
{
    globset::GlobSetBuilder::new()
}

/// `GlobSetBuilder::add` of the glob that `globset::Glob::new(pattern)`
/// makes: when `Glob::new` accepts the pattern, the glob is pushed onto
/// the builder and `true` comes back; when it refuses it, the builder is
/// left as it was and `false` comes back.
#[verifier::external_body]
fn glob_builder_add(b: &mut globset::GlobSetBuilder, pattern: &str) -> (ok: bool)
    ensures
        ok == spec_glob_valid(pattern@),
        builder_globs(*final(b)) == if ok {
            builder_globs(*old(b)).push(pattern@)
        } else {
            builder_globs(*old(b))
        },
{
    match globset::Glob::new(pattern) {
        Ok(g) => {
            b.add(g);
            true
        },
        Err(_) => false,
    }
}

/// `GlobSetBuilder::build`, its error dropped: a set of the builder's
/// globs, or `None`. Whether it succeeds is named; with no glob it always
/// succeeds (`GlobSet::new` hands back the empty set).
#[verifier::external_body]
fn glob_builder_build(b: &globset::GlobSetBuilder) -> (r: Option<globset::GlobSet>)
    ensures
        r is Some == spec_glob_build_ok(builder_globs(*b)),
        r matches Some(s) ==> set_globs(s) == builder_globs(*b),
        builder_globs(*b).len() == 0 ==> r is Some,
{
    b.build().ok()
}

/// `globset::GlobSet::empty()`: a set of no glob.
#[verifier::external_body]
pub(crate) fn glob_set_empty() -> (s: globset::GlobSet)
    ensures
        set_globs(s) == Seq::<Seq<char>>::empty(),
{
    globset::GlobSet::empty()
}

/// `GlobSet::len()`: the number of globs the set was built from.
#[verifier::external_body]
pub(crate) fn glob_set_len(s: &globset::GlobSet) -> (n: usize)
    ensures
        n == set_globs(*s).len(),
{
    s.len()
}

/// `GlobSet::is_match(path)`. The result is named; the one fact stated is
/// from its source: a set of no glob matches nothing.
#[verifier::external_body]
pub(crate) fn glob_set_is_match(s: &globset::GlobSet, path: &str) -> (r: bool)
    ensures
        r == spec_glob_set_match(set_globs(*s), path@),
        set_globs(*s).len() == 0 ==> !r,
{
    s.is_match(path)
}

/// The patterns that parse, in order.
pub open spec fn parsed_globs(patterns: Seq<Seq<char>>) -> Seq<Seq<char>> {
    patterns.filter(|p: Seq<char>| spec_glob_valid(p))
}

/// The patterns that do not parse, in order.
pub open spec fn refused_globs(patterns: Seq<Seq<char>>) -> Seq<Seq<char>> {
    patterns.filter(|p: Seq<char>| !spec_glob_valid(p))
}

/// The globs of the set compiled from `patterns`: those that parse, or
/// none when building the set fails.
pub open spec fn compiled_globs(patterns: Seq<Seq<char>>) -> Seq<Seq<char>> {
    if spec_glob_build_ok(parsed_globs(patterns)) {
        parsed_globs(patterns)
    } else {
        Seq::empty()
    }
}

/// Compiles the patterns into one set: those that parse go in, in order
/// (an empty set when building fails), and those that do not are handed
/// back so that they can be reported.
pub fn compile_globs(patterns: &Vec<String>) -> (r: (globset::GlobSet, Vec<String>))
    ensures
        set_globs(r.0) == compiled_globs(string_views(patterns@)),
        string_views(r.1@) == refused_globs(string_views(patterns@)),
{
    let ghost all = string_views(patterns@);
    let ghost good = |p: Seq<char>| spec_glob_valid(p);
    let ghost bad = |p: Seq<char>| !spec_glob_valid(p);
    let mut builder = glob_builder_new();
    let mut invalid: Vec<String> = Vec::new();
    let mut i: usize = 0;
    while i < patterns.len()
        invariant
            i <= patterns@.len(),
            all == string_views(patterns@),
            good == (|p: Seq<char>| spec_glob_valid(p)),
            bad == (|p: Seq<char>| !spec_glob_valid(p)),
            builder_globs(builder) == all.take(i as int).filter(good),
            string_views(invalid@) == all.take(i as int).filter(bad),
        decreases patterns@.len() - i,
    {
        let p = &patterns[i];
        proof {
            assert(all.take(i + 1) =~= all.take(i as int).push(p@));
            all.take(i as int).lemma_filter_push(p@, good);
            all.take(i as int).lemma_filter_push(p@, bad);
        }
        let ghost i0 = invalid@;
        if !glob_builder_add(&mut builder, p.as_str()) {
            invalid.push(p.clone());
            assert(string_views(invalid@) =~= string_views(i0).push(all[i as int]));
        }
        i = i + 1;
    }
    assert(all.take(patterns@.len() as int) =~= all);
    let set = match glob_builder_build(&builder) {
        Some(s) => s,
        None => glob_set_empty(),
    };
    (set, invalid)
}

/// Whether the set compiled from `patterns` matches `path`.
pub fn globs_match(patterns: &Vec<String>, path: &str) -> (r: bool)
    ensures
        r == spec_glob_set_match(compiled_globs(string_views(patterns@)), path@),
        compiled_globs(string_views(patterns@)).len() == 0 ==> !r,
{
    let (set, _) = compile_globs(patterns);
    glob_set_is_match(&set, path)
}

} // verus!
