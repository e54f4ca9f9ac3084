//! Trusted boundary around the multi-pattern matcher and case folding.
//!
//! The pattern automatons of the scorer and the extractor come from the
//! `aho_corasick` crate.  Whether the default builder accepts a pattern set,
//! and how many non-overlapping matches a search finds, are functions of the
//! pattern set (and the haystack) alone, so those results are given names
//! (`ac_build_ok`, `ac_match_count`) that the verified contracts speak of;
//! whether any match exists at all is the documented substring semantics,
//! stated outright as [`contains_any`].  Case folding comes from
//! `str::to_lowercase` and is named `lower_of`.

use aho_corasick::AhoCorasick;
use vstd::prelude::*;

verus! {

#[verifier::external_type_specification]
#[verifier::external_body]
pub struct ExAhoCorasick(AhoCorasick);

/// The pattern set a matcher was built from, each pattern as its characters.
pub uninterp spec fn ac_patterns(ac: AhoCorasick) -> Seq<Seq<char>>;

/// Whether a matcher supports unanchored searches (true of every matcher the
/// default builder produces); the searches below are infallible only then.
pub uninterp spec fn ac_unanchored(ac: AhoCorasick) -> bool;

/// Whether the default builder accepts a pattern set; it fails only when the
/// automaton would exceed the crate's internal size limits, so success is a
/// function of the pattern set alone.
pub uninterp spec fn ac_build_ok(patterns: Seq<Seq<char>>) -> bool;

/// How many non-overlapping matches of a pattern set the standard (earliest
/// match first) semantics find in a haystack; a function of the pattern set
/// and the haystack alone.
pub uninterp spec fn ac_match_count(patterns: Seq<Seq<char>>, haystack: Seq<char>) -> nat;

/// The lowercased form of a text, as `str::to_lowercase` defines it; a
/// function of the characters alone.
pub uninterp spec fn lower_of(s: Seq<char>) -> Seq<char>;

/// Whether some pattern of the set occurs as a substring of the haystack.
pub open spec fn contains_any(patterns: Seq<Seq<char>>, haystack: Seq<char>) -> bool {
    exists|p: int, i: int|
        #![trigger haystack.subrange(i, i + patterns[p].len())]
        0 <= p < patterns.len() && 0 <= i && i + patterns[p].len() <= haystack.len()
            && haystack.subrange(i, i + patterns[p].len()) == patterns[p]
}

/// Relies on `aho_corasick::AhoCorasick::new`: builds a matcher over exactly
/// the given patterns with the default configuration (standard match
/// semantics, unanchored searches), succeeding exactly when the builder
/// accepts the pattern set.
#[verifier::external_body]
pub(crate) fn ac_build(patterns: &Vec<String>) -> (r: Option<AhoCorasick>)
    ensures
        r is Some <==> ac_build_ok(patterns.deep_view()),
        r matches Some(ac) ==> ac_patterns(ac) == patterns.deep_view() && ac_unanchored(ac),
{
    AhoCorasick::new(patterns).ok()
}

/// Relies on `aho_corasick::AhoCorasick::find_iter`: iterates the
/// non-overlapping matches found in the haystack under the matcher's standard
/// semantics; at least one match is found exactly when some pattern occurs in
/// the haystack.  Infallible for an unanchored matcher and a plain `&str`
/// haystack.
#[verifier::external_body]
pub(crate) fn ac_count(ac: &AhoCorasick, haystack: &str) -> (r: usize)
    requires
        ac_unanchored(*ac),
    ensures
        r as nat == ac_match_count(ac_patterns(*ac), haystack@),
        (r > 0) == contains_any(ac_patterns(*ac), haystack@),
{
    ac.find_iter(haystack).count()
}

/// Relies on `aho_corasick::AhoCorasick::is_match`: true if and only if some
/// pattern of the matcher occurs in the haystack; infallible for an
/// unanchored matcher and a plain `&str` haystack.
#[verifier::external_body]
pub(crate) fn ac_is_match(ac: &AhoCorasick, haystack: &str) -> (r: bool)
    requires
        ac_unanchored(*ac),
    ensures
        r == contains_any(ac_patterns(*ac), haystack@),
{
    ac.is_match(haystack)
}

/// Relies on `str::to_lowercase`: the result depends on the characters alone,
/// and an empty text stays empty.
#[verifier::external_body]
pub(crate) fn lowercase(s: &str) -> (r: String)
    ensures
        r@ == lower_of(s@),
        s@.len() == 0 ==> r@.len() == 0,
{
    s.to_lowercase()
}

} // verus!
