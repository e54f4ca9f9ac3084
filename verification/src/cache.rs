//! Predictive cache: a bounded key-to-claims store with least-recently-used
//! eviction and time-to-live expiry, and the pattern scorer it delegates
//! likelihood estimation to.
//!
//! The scorer holds two multi-pattern automatons (factual indicators, opinion
//! indicators) and estimates, from match densities over the lowercased text,
//! the likelihood that a text contains verifiable claims.  Likelihoods and
//! confidences are fixed-point basis points: 10000 stands for 1.0.
//!
//! Entries are kept most-recently-used first: the ordering of `entries` is
//! the recency ordering, so every key appears exactly once in both the
//! mapping and the ordering by construction.

use crate::automaton::{
    ac_build,
    ac_build_ok,
    ac_count,
    ac_match_count,
    ac_patterns,
    ac_unanchored,
    lower_of,
    lowercase,
};
use aho_corasick::AhoCorasick;
use vstd::map::*;
use vstd::prelude::*;
use vstd::string::StringSliceAdditionalSpecFns;

verus! {

/// The factual-indicator pattern set of the scorer.
pub open spec fn factual_patterns() -> Seq<Seq<char>> {
    seq![
        "is"@,
        "are"@,
        "was"@,
        "were"@,
        "has"@,
        "have"@,
        "announced"@,
        "reported"@,
        "confirmed"@,
        "stated"@,
        "according to"@,
        "data shows"@,
        "statistics"@,
        "%"@,
        "percent"@,
        "million"@,
        "billion"@,
    ]
}

/// The opinion-indicator pattern set of the scorer.
pub open spec fn opinion_patterns() -> Seq<Seq<char>> {
    seq![
        "think"@,
        "believe"@,
        "feel"@,
        "should"@,
        "could"@,
        "probably"@,
        "maybe"@,
        "perhaps"@,
        "might"@,
        "in my opinion"@,
        "I believe"@,
        "seems like"@,
    ]
}

/// The likelihood score: each match count is normalized by a length-relative
/// density (count per 100 bytes of text, in basis points), the factual
/// density is capped at 1.0 and the opinion density at 0.5, and the result is
/// their difference clamped to `[0, 1]`.  An empty text scores 0.
pub open spec fn likelihood_bp(fc: nat, oc: nat, len: nat) -> u32 {
    if len == 0 {
        0u32
    } else {
        let f: nat = if fc * 1000000 / len > 10000 {
            10000
        } else {
            fc * 1000000 / len
        };
        let o: nat = if oc * 1000000 / len > 5000 {
            5000
        } else {
            oc * 1000000 / len
        };
        if f > o {
            (f - o) as u32
        } else {
            0u32
        }
    }
}

/// The likelihood score of a text: [`likelihood_bp`] over the match counts
/// of the two fixed pattern sets in the lowercased text and the text's byte
/// length.
pub open spec fn text_likelihood(t: &str) -> u32 {
    likelihood_bp(
        ac_match_count(factual_patterns(), lower_of(t@)),
        ac_match_count(opinion_patterns(), lower_of(t@)),
        t.spec_bytes().len(),
    )
}

/// Claim predictor: two immutable pattern automatons built once at
/// construction, and an advisory frequency table of observed word prefixes
/// that the scoring function itself does not consult.
pub struct ClaimPredictor {
    /// Matcher over the factual-indicator patterns.
    pub factual_matcher: AhoCorasick,
    /// Matcher over the opinion-indicator patterns.
    pub opinion_matcher: AhoCorasick,
    /// Advisory frequency table over leading word prefixes, unique keys.
    pub pattern_freq: Vec<(Vec<u8>, u32)>,
    /// Advisory prediction threshold in basis points.
    pub prediction_threshold: u32,
}

impl ClaimPredictor {
    /// The matchers hold exactly the two fixed pattern sets and support
    /// unanchored searches, and the frequency table has unique keys.
    pub open spec fn wf(&self) -> bool {
        &&& ac_patterns(self.factual_matcher) == factual_patterns()
        &&& ac_patterns(self.opinion_matcher) == opinion_patterns()
        &&& ac_unanchored(self.factual_matcher)
        &&& ac_unanchored(self.opinion_matcher)
        &&& forall|i: int, j: int|
            0 <= i < j < self.pattern_freq@.len() ==> self.pattern_freq@[i].0@
                != self.pattern_freq@[j].0@
    }

    /// Build the two automatons; this succeeds exactly when the builder
    /// accepts both fixed pattern sets (it refuses a set only when the
    /// automaton would exceed its internal size limits).
    pub fn new() -> (r: Option<ClaimPredictor>)
        ensures
            r is Some <==> ac_build_ok(factual_patterns()) && ac_build_ok(opinion_patterns()),
            r matches Some(p) ==> p.wf() && p.pattern_freq@.len() == 0
                && p.prediction_threshold == 6000,
    {
        let mut fpats: Vec<String> = Vec::new();
        fpats.push("is".to_owned());
        fpats.push("are".to_owned());
        fpats.push("was".to_owned());
        fpats.push("were".to_owned());
        fpats.push("has".to_owned());
        fpats.push("have".to_owned());
        fpats.push("announced".to_owned());
        fpats.push("reported".to_owned());
        fpats.push("confirmed".to_owned());
        fpats.push("stated".to_owned());
        fpats.push("according to".to_owned());
        fpats.push("data shows".to_owned());
        fpats.push("statistics".to_owned());
        fpats.push("%".to_owned());
        fpats.push("percent".to_owned());
        fpats.push("million".to_owned());
        fpats.push("billion".to_owned());
        assert(fpats.deep_view() =~~= factual_patterns());

        let mut opats: Vec<String> = Vec::new();
        opats.push("think".to_owned());
        opats.push("believe".to_owned());
        opats.push("feel".to_owned());
        opats.push("should".to_owned());
        opats.push("could".to_owned());
        opats.push("probably".to_owned());
        opats.push("maybe".to_owned());
        opats.push("perhaps".to_owned());
        opats.push("might".to_owned());
        opats.push("in my opinion".to_owned());
        opats.push("I believe".to_owned());
        opats.push("seems like".to_owned());
        assert(opats.deep_view() =~~= opinion_patterns());

        let factual_matcher = match ac_build(&fpats) {
            Some(m) => m,
            None => { return None },
        };
        let opinion_matcher = match ac_build(&opats) {
            Some(m) => m,
            None => { return None },
        };
        Some(
            ClaimPredictor {
                factual_matcher,
                opinion_matcher,
                pattern_freq: Vec::new(),
                prediction_threshold: 6000,
            },
        )
    }

    /// Likelihood, in basis points, that the text contains verifiable claims:
    /// the density score of [`likelihood_bp`] over the match counts of the
    /// two pattern sets in the lowercased text and the text's byte length.
    pub fn predict_claim_likelihood(&self, text: &str) -> (r: u32)
        requires
            self.wf(),
        ensures
            r == text_likelihood(text),
            r <= 10000,
    {
        let len = text.as_bytes().len();
        if len == 0 {
            return 0;
        }
        let lower = lowercase(text);
        let fc = ac_count(&self.factual_matcher, lower.as_str());
        let oc = ac_count(&self.opinion_matcher, lower.as_str());
        let fd = fc as u128 * 1000000 / (len as u128);
        let f: u128 = if fd > 10000 {
            10000
        } else {
            fd
        };
        let od = oc as u128 * 1000000 / (len as u128);
        let o: u128 = if od > 5000 {
            5000
        } else {
            od
        };
        let r: u128 = if f > o {
            f - o
        } else {
            0
        };
        r as u32
    }

    /// The leading word prefixes a text is learned from: the first ten
    /// whitespace-separated words of its lowercased bytes.
    fn extract_patterns(&self, text: &str) -> (r: Vec<Vec<u8>>)
        ensures
            r.deep_view() == take_up_to(
                spec_words(vstd::utf8::encode_utf8(lower_of(text@))),
                10,
            ),
    {
        let lower = lowercase(text);
        take_words(lower.as_str().as_bytes(), 10)
    }

    /// Advisory learning hook: record the text's leading word prefixes in
    /// the frequency table, incrementing each exactly when the text had
    /// claims.  The matchers and the threshold stay as they are, so scoring
    /// is unaffected.
    pub fn learn(&mut self, text: &str, had_claims: bool)
        requires
            old(self).wf(),
        ensures
            final(self).wf(),
            final(self).factual_matcher == old(self).factual_matcher,
            final(self).opinion_matcher == old(self).opinion_matcher,
            final(self).prediction_threshold == old(self).prediction_threshold,
            freq_map(final(self).pattern_freq@) == learn_words(
                freq_map(old(self).pattern_freq@),
                take_up_to(spec_words(vstd::utf8::encode_utf8(lower_of(text@))), 10),
                had_claims,
            ),
    {
        let mut words = self.extract_patterns(text);
        let ghost ws = words.deep_view();
        let ghost m0 = freq_map(self.pattern_freq@);
        let total = words.len();
        let mut k: usize = 0;
        proof {
            assert(ws.skip(0) =~= ws);
        }
        while k < total
            invariant
                self.factual_matcher == old(self).factual_matcher,
                self.opinion_matcher == old(self).opinion_matcher,
                self.prediction_threshold == old(self).prediction_threshold,
                old(self).wf(),
                forall|p: int, q: int|
                    0 <= p < q < self.pattern_freq@.len() ==> self.pattern_freq@[p].0@
                        != self.pattern_freq@[q].0@,
                k <= total,
                total == ws.len(),
                words.deep_view() == ws.skip(k as int),
                learn_words(freq_map(self.pattern_freq@), ws.skip(k as int), had_claims)
                    == learn_words(m0, ws, had_claims),
            decreases total - k,
        {
            let ghost pre = freq_map(self.pattern_freq@);
            let ghost wrest = ws.skip(k as int);
            let ghost wv_pre = words@;
            let word = words.remove(0);
            proof {
                assert(wv_pre[0].deep_view() == wrest[0]);
                assert(word@ == wrest[0]);
                assert(words@ =~= wv_pre.remove(0));
                assert forall|j: int| 0 <= j < words@.len() implies words@[j].deep_view()
                    == ws.skip(k + 1)[j] by {
                    assert(words@[j] == wv_pre[j + 1]);
                    assert(wv_pre[j + 1].deep_view() == wrest[j + 1]);
                    assert(wrest[j + 1] == ws.skip(k + 1)[j]);
                }
                assert(words.deep_view() =~~= ws.skip(k + 1));
                assert(wrest.drop_first() =~= ws.skip(k + 1));
            }
            bump_word(&mut self.pattern_freq, word, had_claims);
            proof {
                assert(learn_words(pre, wrest, had_claims) == learn_words(
                    learn_word(pre, wrest[0], had_claims),
                    wrest.drop_first(),
                    had_claims,
                ));
            }
            k += 1;
        }
        proof {
            assert(ws.skip(total as int) =~= Seq::<Seq<u8>>::empty());
        }
    }
}

/// An ASCII whitespace byte (what word splitting separates on).
pub open spec fn is_space_byte(b: u8) -> bool {
    b == 32 || b == 9 || b == 10 || b == 13
}

/// The longest non-whitespace prefix of a byte sequence.
pub open spec fn word_prefix(s: Seq<u8>) -> Seq<u8>
    decreases s.len(),
{
    if s.len() == 0 || is_space_byte(s[0]) {
        seq![]
    } else {
        seq![s[0]] + word_prefix(s.drop_first())
    }
}

/// A word prefix is no longer than its sequence.
pub proof fn lemma_word_prefix_len(s: Seq<u8>)
    ensures
        word_prefix(s).len() <= s.len(),
    decreases s.len(),
{
    if s.len() > 0 && !is_space_byte(s[0]) {
        lemma_word_prefix_len(s.drop_first());
    }
}

/// The whitespace-separated words of a byte sequence, in order.
pub open spec fn spec_words(s: Seq<u8>) -> Seq<Seq<u8>>
    decreases s.len(),
    via spec_words_decreases
{
    if s.len() == 0 {
        seq![]
    } else if is_space_byte(s[0]) {
        spec_words(s.drop_first())
    } else {
        seq![word_prefix(s)] + spec_words(s.skip(1 + word_prefix(s.drop_first()).len() as int))
    }
}

#[via_fn]
proof fn spec_words_decreases(s: Seq<u8>) {
    if s.len() > 0 && !is_space_byte(s[0]) {
        lemma_word_prefix_len(s.drop_first());
    }
}

/// The frequency table as a map from word to count.
pub open spec fn freq_map(s: Seq<(Vec<u8>, u32)>) -> Map<Seq<u8>, u32>
    decreases s.len(),
{
    if s.len() == 0 {
        Map::empty()
    } else {
        freq_map(s.drop_last()).insert(s.last().0@, s.last().1)
    }
}

/// The frequency table after learning one word: created at zero when absent,
/// and incremented (saturating) exactly when the text had claims.
pub open spec fn learn_word(m: Map<Seq<u8>, u32>, w: Seq<u8>, had_claims: bool) -> Map<
    Seq<u8>,
    u32,
> {
    let base: u32 = if m.contains_key(w) {
        m[w]
    } else {
        0
    };
    let bumped: u32 = if had_claims {
        if base == u32::MAX {
            u32::MAX
        } else {
            (base + 1) as u32
        }
    } else {
        base
    };
    m.insert(w, bumped)
}

/// The frequency table after learning a list of words, first word first.
pub open spec fn learn_words(m: Map<Seq<u8>, u32>, ws: Seq<Seq<u8>>, had_claims: bool) -> Map<
    Seq<u8>,
    u32,
>
    decreases ws.len(),
{
    if ws.len() == 0 {
        m
    } else {
        learn_words(learn_word(m, ws[0], had_claims), ws.drop_first(), had_claims)
    }
}

/// Words actually learned from: the first `n`, or all when fewer.
pub open spec fn take_up_to(ws: Seq<Seq<u8>>, n: int) -> Seq<Seq<u8>> {
    if ws.len() <= n {
        ws
    } else {
        ws.take(n)
    }
}

/// Taking up to `n >= 1` elements of a non-empty sequence keeps its head.
proof fn lemma_take_up_to_cons(w: Seq<u8>, rest: Seq<Seq<u8>>, n: int)
    requires
        n >= 1,
    ensures
        take_up_to(seq![w] + rest, n) == seq![w] + take_up_to(rest, n - 1),
{
    if rest.len() <= n - 1 {
        assert(take_up_to(seq![w] + rest, n) =~= seq![w] + rest);
    } else {
        assert((seq![w] + rest).take(n) =~= seq![w] + rest.take(n - 1));
    }
}

/// A sequence whose positions before `m` are not whitespace and whose
/// position `m` (if any) is has the word prefix of exactly those positions.
proof fn lemma_word_prefix_at(s: Seq<u8>, m: int)
    requires
        0 <= m <= s.len(),
        forall|k: int| 0 <= k < m ==> !is_space_byte(s[k]),
        m < s.len() ==> is_space_byte(s[m]),
    ensures
        word_prefix(s) == s.take(m),
    decreases m,
{
    if m == 0 {
        assert(word_prefix(s) =~= s.take(0));
    } else {
        lemma_word_prefix_at(s.drop_first(), m - 1);
        assert(word_prefix(s) =~= s.take(m));
    }
}

/// With unique keys, the map value of an entry is its stored count.
proof fn lemma_freq_map_get(s: Seq<(Vec<u8>, u32)>, i: int)
    requires
        0 <= i < s.len(),
        forall|p: int, q: int| 0 <= p < q < s.len() ==> s[p].0@ != s[q].0@,
    ensures
        freq_map(s).contains_key(s[i].0@),
        freq_map(s)[s[i].0@] == s[i].1,
    decreases s.len(),
{
    if i < s.len() - 1 {
        assert(s.drop_last()[i] == s[i]);
        lemma_freq_map_get(s.drop_last(), i);
        assert(s[i].0@ != s[s.len() - 1].0@);
    }
}

/// A key that no entry carries is not in the map.
proof fn lemma_freq_map_absent(s: Seq<(Vec<u8>, u32)>, w: Seq<u8>)
    requires
        forall|i: int| 0 <= i < s.len() ==> s[i].0@ != w,
    ensures
        !freq_map(s).contains_key(w),
    decreases s.len(),
{
    if s.len() > 0 {
        assert(forall|i: int| 0 <= i < s.drop_last().len() ==> s.drop_last()[i] == s[i]);
        lemma_freq_map_absent(s.drop_last(), w);
    }
}

/// Updating the count of one entry updates the map at its key.
proof fn lemma_freq_map_update(s: Seq<(Vec<u8>, u32)>, i: int, c: u32)
    requires
        0 <= i < s.len(),
        forall|p: int, q: int| 0 <= p < q < s.len() ==> s[p].0@ != s[q].0@,
    ensures
        freq_map(s.update(i, (s[i].0, c))) == freq_map(s).insert(s[i].0@, c),
    decreases s.len(),
{
    let s2 = s.update(i, (s[i].0, c));
    if i == s.len() - 1 {
        assert(s2.drop_last() =~= s.drop_last());
        assert(s2.last() == (s[i].0, c));
    } else {
        assert(s2.drop_last() =~= s.drop_last().update(i, (s[i].0, c)));
        assert(s.drop_last()[i] == s[i]);
        lemma_freq_map_update(s.drop_last(), i, c);
        assert(s2.last() == s.last());
        assert(s[i].0@ != s.last().0@);
        assert_maps_equal!(
            freq_map(s.drop_last()).insert(s[i].0@, c).insert(s.last().0@, s.last().1),
            freq_map(s.drop_last()).insert(s.last().0@, s.last().1).insert(s[i].0@, c),
        );
    }
}

/// Whether the byte at a position is ASCII whitespace.
fn space_byte_at(bytes: &[u8], i: usize) -> (r: bool)
    requires
        i < bytes@.len(),
    ensures
        r == is_space_byte(bytes@[i as int]),
{
    let b = *vstd::slice::slice_index_get(bytes, i);
    b == 32 || b == 9 || b == 10 || b == 13
}

/// Whether two byte vectors hold the same bytes.
fn bytes_eq(a: &Vec<u8>, b: &Vec<u8>) -> (r: bool)
    ensures
        r == (a@ == b@),
{
    if a.len() != b.len() {
        proof {
            assert(a@ != b@);
        }
        return false;
    }
    let mut i: usize = 0;
    while i < a.len()
        invariant
            a@.len() == b@.len(),
            i <= a@.len(),
            forall|k: int| 0 <= k < i ==> a@[k] == b@[k],
        decreases a@.len() - i,
    {
        if a[i] != b[i] {
            proof {
                assert(a@ != b@);
            }
            return false;
        }
        i += 1;
    }
    proof {
        assert(a@ =~= b@);
    }
    true
}

/// The first words of a byte sequence, at most `limit` of them.
fn take_words(bytes: &[u8], limit: usize) -> (r: Vec<Vec<u8>>)
    ensures
        r.deep_view() == take_up_to(spec_words(bytes@), limit as int),
{
    let n = bytes.len();
    let mut r: Vec<Vec<u8>> = Vec::new();
    let mut p: usize = 0;
    proof {
        assert(bytes@.skip(0) =~= bytes@);
        assert(r.deep_view() =~~= Seq::<Seq<u8>>::empty());
        assert(take_up_to(spec_words(bytes@), limit as int) =~= r.deep_view() + take_up_to(
            spec_words(bytes@.skip(0)),
            limit as int,
        ));
    }
    while p < n && r.len() < limit
        invariant
            p <= n,
            n == bytes@.len(),
            r@.len() <= limit,
            take_up_to(spec_words(bytes@), limit as int) == r.deep_view() + take_up_to(
                spec_words(bytes@.skip(p as int)),
                limit - r@.len(),
            ),
        decreases n - p,
    {
        let ghost rest = bytes@.skip(p as int);
        if space_byte_at(bytes, p) {
            proof {
                assert(rest[0] == bytes@[p as int]);
                assert(rest.drop_first() =~= bytes@.skip(p + 1));
            }
            p += 1;
        } else {
            let mut e: usize = p;
            while e < n && !space_byte_at(bytes, e)
                invariant
                    p <= e <= n,
                    n == bytes@.len(),
                    forall|k: int| p <= k < e ==> !is_space_byte(bytes@[k]),
                decreases n - e,
            {
                e += 1;
            }
            proof {
                assert(rest[0] == bytes@[p as int]);
                assert forall|k: int| 0 <= k < e - p implies !is_space_byte(rest[k]) by {
                    assert(rest[k] == bytes@[k + p]);
                }
                if (e as int) - (p as int) < rest.len() {
                    assert(rest[e - p] == bytes@[e as int]);
                }
                lemma_word_prefix_at(rest, e - p);
                assert(word_prefix(rest) =~= bytes@.subrange(p as int, e as int));
                assert(word_prefix(rest) == seq![rest[0]] + word_prefix(rest.drop_first()));
                assert(rest.skip(1 + word_prefix(rest.drop_first()).len() as int) =~= bytes@.skip(
                    e as int,
                ));
                assert(spec_words(rest) == seq![word_prefix(rest)] + spec_words(
                    bytes@.skip(e as int),
                ));
                lemma_take_up_to_cons(
                    word_prefix(rest),
                    spec_words(bytes@.skip(e as int)),
                    limit - r@.len(),
                );
            }
            let word = vstd::slice::slice_to_vec(vstd::slice::slice_subrange(bytes, p, e));
            let ghost before = r.deep_view();
            r.push(word);
            proof {
                assert(r.deep_view() =~~= before + seq![word@]);
            }
            p = e;
        }
    }
    proof {
        if p == n && r@.len() < limit {
            assert(bytes@.skip(n as int) =~= Seq::<u8>::empty());
            assert(take_up_to(spec_words(bytes@.skip(n as int)), limit - r@.len())
                =~= Seq::<Seq<u8>>::empty());
        } else {
            assert(take_up_to(spec_words(bytes@.skip(p as int)), 0) =~= Seq::<Seq<u8>>::empty());
        }
        assert(r.deep_view() =~= take_up_to(spec_words(bytes@), limit as int));
    }
    r
}

/// Record one word in a frequency table with unique keys.
fn bump_word(freq: &mut Vec<(Vec<u8>, u32)>, word: Vec<u8>, had_claims: bool)
    requires
        forall|p: int, q: int| 0 <= p < q < old(freq)@.len() ==> old(freq)@[p].0@ != old(
            freq,
        )@[q].0@,
    ensures
        forall|p: int, q: int|
            0 <= p < q < final(freq)@.len() ==> final(freq)@[p].0@ != final(freq)@[q].0@,
        freq_map(final(freq)@) == learn_word(freq_map(old(freq)@), word@, had_claims),
{
    let ghost oe = freq@;
    let mut i: usize = 0;
    while i < freq.len()
        invariant
            oe == old(freq)@,
            oe == freq@,
            forall|p: int, q: int| 0 <= p < q < oe.len() ==> oe[p].0@ != oe[q].0@,
            i <= oe.len(),
            forall|k: int| 0 <= k < i ==> oe[k].0@ != word@,
        decreases oe.len() - i,
    {
        if bytes_eq(&freq[i].0, &word) {
            let entry = freq.remove(i);
            let base = entry.1;
            let bumped: u32 = if had_claims {
                if base == u32::MAX {
                    u32::MAX
                } else {
                    base + 1
                }
            } else {
                base
            };
            freq.insert(i, (entry.0, bumped));
            proof {
                assert(freq@ =~= oe.update(i as int, (oe[i as int].0, bumped)));
                lemma_freq_map_update(oe, i as int, bumped);
                lemma_freq_map_get(oe, i as int);
                assert(oe[i as int].0@ == word@);
                assert(freq_map(oe).contains_key(word@));
                assert(freq_map(oe)[word@] == oe[i as int].1);
                assert(freq_map(freq@) == freq_map(oe).insert(word@, bumped));
                assert(learn_word(freq_map(oe), word@, had_claims) == freq_map(oe).insert(
                    word@,
                    bumped,
                ));
                assert(forall|p: int, q: int|
                    0 <= p < q < freq@.len() ==> freq@[p].0@ != freq@[q].0@);
            }
            return ;
        }
        i += 1;
    }
    proof {
        lemma_freq_map_absent(oe, word@);
    }
    let start: u32 = if had_claims {
        1
    } else {
        0
    };
    let ghost w = word@;
    freq.push((word, start));
    proof {
        assert(freq@.drop_last() =~= oe);
        assert(freq@.last() == (freq@.last().0, start));
        assert(freq@.last().0@ == w);
        assert(freq_map(freq@) == freq_map(oe).insert(w, start));
        assert(forall|k: int| 0 <= k < oe.len() ==> freq@[k] == oe[k]);
    }
}

/// One cached classification result with its recency metadata.
pub struct CachedResult {
    /// The 64-bit content fingerprint this entry is stored under.
    pub key: u64,
    /// The claims extracted for the fingerprinted text.
    pub claims: Vec<String>,
    /// Time of the last access, in seconds.
    pub last_access: u64,
    /// How often `get` returned this entry.
    pub hit_count: u32,
    /// Confidence in the stored claims, in basis points.
    pub confidence: u32,
}

/// The keys of a recency sequence.
pub open spec fn has_key(s: Seq<CachedResult>, key: u64) -> bool {
    exists|i: int| 0 <= i < s.len() && s[i].key == key
}

/// The position of a key in a recency sequence (unique under
/// [`distinct_keys`]).
pub open spec fn idx_of(s: Seq<CachedResult>, key: u64) -> int {
    choose|i: int| 0 <= i < s.len() && s[i].key == key
}

/// Every key appears at most once.
pub open spec fn distinct_keys(s: Seq<CachedResult>) -> bool {
    forall|i: int, j: int| 0 <= i < j < s.len() ==> s[i].key != s[j].key
}

/// Whether an entry is still inside its time-to-live at time `now` (times
/// before the last access count as age zero).
pub open spec fn entry_fresh(e: CachedResult, now: u64, ttl: u64) -> bool {
    (if now >= e.last_access {
        now - e.last_access
    } else {
        0
    }) < ttl
}

/// The recency sequence after a hit on `key`: the entry moves to the front
/// with its hit count incremented (saturating) and its last access refreshed.
pub open spec fn get_hit_model(s: Seq<CachedResult>, key: u64, now: u64) -> Seq<CachedResult> {
    let i = idx_of(s, key);
    let e = s[i];
    seq![
        (CachedResult {
            last_access: now,
            hit_count: if e.hit_count == u32::MAX {
                u32::MAX
            } else {
                (e.hit_count + 1) as u32
            },
            ..e
        }),
    ] + s.remove(i)
}

/// The recency sequence after storing an entry: any old entry under the same
/// key goes away, the least-recently-used entry (the back) is evicted if the
/// store is still at capacity, and the new entry enters at the front.
pub open spec fn put_model(s: Seq<CachedResult>, e: CachedResult, max: nat) -> Seq<CachedResult> {
    let s1 = if has_key(s, e.key) {
        s.remove(idx_of(s, e.key))
    } else {
        s
    };
    let s2 = if s1.len() >= max {
        s1.drop_last()
    } else {
        s1
    };
    seq![e] + s2
}

/// Total hits over a recency sequence.
pub open spec fn sum_hits(s: Seq<CachedResult>) -> int
    decreases s.len(),
{
    if s.len() == 0 {
        0
    } else {
        sum_hits(s.drop_last()) + s.last().hit_count
    }
}

/// Total confidence over a recency sequence.
pub open spec fn sum_confidence(s: Seq<CachedResult>) -> int
    decreases s.len(),
{
    if s.len() == 0 {
        0
    } else {
        sum_confidence(s.drop_last()) + s.last().confidence
    }
}

/// The hit-rate heuristic, in basis points: hits over hits plus entries, and
/// 0 while nothing was hit.  Misses are not separately counted, so this is a
/// coarse heuristic, not a true hit/miss ratio.
pub open spec fn rate_bp(hits: int, entries: int) -> int {
    if hits > 0 {
        hits * 10000 / (hits + entries)
    } else {
        0
    }
}

/// Cache statistics; all ratios in basis points.
#[derive(Debug)]
pub struct CacheStats {
    /// Number of live entries.
    pub entries: usize,
    /// Sum of all hit counts (saturating at the integer bound).
    pub total_hits: u64,
    /// Mean confidence over the live entries, in basis points.
    pub avg_confidence: u32,
    /// The [`rate_bp`] heuristic over total hits and entries.
    pub hit_rate: u32,
}

/// Bounded key-to-claims store, most-recently-used first, with time-to-live
/// expiry; delegates likelihood estimation to the claim predictor it owns.
pub struct PredictiveCache {
    /// Live entries, most recently used first; keys are unique.
    pub entries: Vec<CachedResult>,
    /// The pattern scorer.
    pub predictor: ClaimPredictor,
    /// Upper bound on the number of entries.
    pub max_entries: usize,
    /// Time-to-live in seconds.
    pub ttl_secs: u64,
}

/// Deep copy of a claims vector.
fn clone_claims(v: &Vec<String>) -> (r: Vec<String>)
    ensures
        r@ == v@,
{
    let mut r: Vec<String> = Vec::new();
    let mut i: usize = 0;
    while i < v.len()
        invariant
            i <= v@.len(),
            r@ =~= v@.take(i as int),
        decreases v@.len() - i,
    {
        r.push(v[i].clone());
        i += 1;
    }
    assert(r@ =~= v@);
    r
}

impl PredictiveCache {
    /// Keys are unique, the bound holds, and the predictor is well formed.
    pub open spec fn wf(&self) -> bool {
        &&& distinct_keys(self.entries@)
        &&& self.entries@.len() <= self.max_entries
        &&& self.max_entries >= 1
        &&& self.predictor.wf()
    }

    /// An empty cache with the given bound and time-to-live.  This succeeds
    /// exactly when the bound is positive (a zero bound could never satisfy
    /// the size invariant) and the predictor's automaton builder accepts its
    /// pattern sets.
    pub fn new(max_entries: usize, ttl_secs: u64) -> (r: Option<PredictiveCache>)
        ensures
            r is Some <==> max_entries >= 1 && ac_build_ok(factual_patterns()) && ac_build_ok(
                opinion_patterns(),
            ),
            r matches Some(c) ==> c.wf() && c.max_entries == max_entries && c.ttl_secs == ttl_secs
                && c.entries@.len() == 0,
    {
        if max_entries == 0 {
            return None;
        }
        let predictor = match ClaimPredictor::new() {
            Some(p) => p,
            None => { return None },
        };
        Some(PredictiveCache { entries: Vec::new(), predictor, max_entries, ttl_secs })
    }

    /// Position of a key in the recency ordering, if present.
    fn find_index(&self, key: u64) -> (r: Option<usize>)
        requires
            distinct_keys(self.entries@),
        ensures
            match r {
                Some(i) => i < self.entries@.len() && self.entries@[i as int].key == key && i
                    as int == idx_of(self.entries@, key),
                None => !has_key(self.entries@, key),
            },
    {
        let mut i: usize = 0;
        while i < self.entries.len()
            invariant
                distinct_keys(self.entries@),
                i <= self.entries@.len(),
                forall|j: int| 0 <= j < i ==> self.entries@[j].key != key,
            decreases self.entries@.len() - i,
        {
            if self.entries[i].key == key {
                proof {
                    assert(has_key(self.entries@, key));
                    let w = idx_of(self.entries@, key);
                    assert(0 <= w < self.entries@.len() && self.entries@[w].key == key);
                    if w < i as int {
                        assert(self.entries@[w].key != self.entries@[i as int].key);
                    } else if w > i as int {
                        assert(self.entries@[i as int].key != self.entries@[w].key);
                    }
                }
                return Some(i);
            }
            i += 1;
        }
        None
    }

    /// Look a key up.  On a hit the entry moves to the front of the recency
    /// ordering with its hit count incremented (saturating) and its last
    /// access refreshed to `now_secs`, and the stored claims come back; on a
    /// miss nothing changes and nothing comes back.
    pub fn get(&mut self, key: u64, now_secs: u64) -> (r: Option<Vec<String>>)
        requires
            old(self).wf(),
        ensures
            final(self).wf(),
            final(self).max_entries == old(self).max_entries,
            final(self).ttl_secs == old(self).ttl_secs,
            final(self).predictor == old(self).predictor,
            !has_key(old(self).entries@, key) ==> r is None && final(self).entries@ == old(
                self,
            ).entries@,
            has_key(old(self).entries@, key) ==> {
                let e = old(self).entries@[idx_of(old(self).entries@, key)];
                &&& r matches Some(c) && c@ == e.claims@
                &&& final(self).entries@ == get_hit_model(old(self).entries@, key, now_secs)
            },
    {
        let idx = self.find_index(key);
        match idx {
            None => None,
            Some(i) => {
                let mut e = self.entries.remove(i);
                e.last_access = now_secs;
                e.hit_count = if e.hit_count == u32::MAX {
                    u32::MAX
                } else {
                    e.hit_count + 1
                };
                let claims = clone_claims(&e.claims);
                self.entries.insert(0, e);
                proof {
                    let oe = old(self).entries@;
                    let ii = i as int;
                    assert(distinct_keys(oe.remove(ii))) by {
                        lemma_remove_distinct(oe, ii);
                    }
                    assert(forall|j: int|
                        0 <= j < oe.remove(ii).len() ==> oe.remove(ii)[j].key != key) by {
                        lemma_remove_drops_key(oe, ii);
                    }
                }
                Some(claims)
            },
        }
    }

    /// Store claims under a key with the given confidence: any old entry
    /// under the key goes away, the least-recently-used entry is evicted if
    /// the store is still at capacity, and the new entry enters at the front
    /// of the recency ordering with a zero hit count and `now_secs` as its
    /// last access.
    pub fn put(&mut self, key: u64, claims: Vec<String>, confidence: u32, now_secs: u64)
        requires
            old(self).wf(),
        ensures
            final(self).wf(),
            final(self).max_entries == old(self).max_entries,
            final(self).ttl_secs == old(self).ttl_secs,
            final(self).predictor == old(self).predictor,
            final(self).entries@ == put_model(
                old(self).entries@,
                (CachedResult {
                    key,
                    claims,
                    last_access: now_secs,
                    hit_count: 0,
                    confidence,
                }),
                old(self).max_entries as nat,
            ),
    {
        let ghost oe = self.entries@;
        let idx = self.find_index(key);
        match idx {
            Some(i) => {
                let _old_entry = self.entries.remove(i);
                proof {
                    lemma_remove_distinct(oe, i as int);
                    lemma_remove_drops_key(oe, i as int);
                }
            },
            None => {},
        }
        let ghost s1 = self.entries@;
        if self.entries.len() >= self.max_entries {
            let _evicted = self.entries.pop();
        }
        proof {
            assert(distinct_keys(self.entries@));
            assert(forall|j: int| 0 <= j < self.entries@.len() ==> self.entries@[j].key != key);
        }
        self.entries.insert(
            0,
            CachedResult { key, claims, last_access: now_secs, hit_count: 0, confidence },
        );
    }

    /// Likelihood, in basis points, that a text contains verifiable claims;
    /// pure delegation to the predictor, no cache state involved.
    pub fn predict_claims(&self, text: &str) -> (r: u32)
        requires
            self.wf(),
        ensures
            r == text_likelihood(text),
            r <= 10000,
    {
        self.predictor.predict_claim_likelihood(text)
    }

    /// Score a batch of keyed texts as pre-warming candidates.  The scoring
    /// is advisory: no entry is created and nothing changes.
    pub fn prewarm(&mut self, texts: &[(u64, String)])
        requires
            old(self).wf(),
        ensures
            *final(self) == *old(self),
    {
        let mut i: usize = 0;
        while i < texts.len()
            invariant
                self == old(self),
                old(self).wf(),
                i <= texts@.len(),
            decreases texts@.len() - i,
        {
            let t = vstd::slice::slice_index_get(texts, i);
            let likelihood = self.predict_claims(t.1.as_str());
            if likelihood > 7000 {
                // High-likelihood content would be scheduled for processing
                // here; scoring it is all the cache itself does.
            }
            i += 1;
        }
    }

    /// Drop every entry whose time since last access reached the
    /// time-to-live; the recency ordering of the remaining entries is kept.
    pub fn evict_expired(&mut self, now_secs: u64)
        requires
            old(self).wf(),
        ensures
            final(self).wf(),
            final(self).max_entries == old(self).max_entries,
            final(self).ttl_secs == old(self).ttl_secs,
            final(self).predictor == old(self).predictor,
            final(self).entries@ == old(self).entries@.filter(
                |e: CachedResult| entry_fresh(e, now_secs, old(self).ttl_secs),
            ),
    {
        let ghost oe = old(self).entries@;
        let ghost pred = |e: CachedResult| entry_fresh(e, now_secs, old(self).ttl_secs);
        let mut i: usize = 0;
        let ghost mut k: int = 0;
        while i < self.entries.len()
            invariant
                old(self).wf(),
                self.max_entries == old(self).max_entries,
                self.ttl_secs == old(self).ttl_secs,
                self.predictor == old(self).predictor,
                pred == (|e: CachedResult| entry_fresh(e, now_secs, old(self).ttl_secs)),
                0 <= k <= oe.len(),
                i as int == oe.take(k).filter(pred).len(),
                self.entries@ == oe.take(k).filter(pred) + oe.skip(k),
            decreases self.entries@.len() - i,
        {
            proof {
                assert(oe.take(k + 1).drop_last() =~= oe.take(k));
                assert(oe.take(k + 1).last() == oe[k]);
                reveal_with_fuel(Seq::filter, 2);
                assert(oe.take(k + 1).filter(pred) == oe.take(k).filter(pred) + (if pred(oe[k]) {
                    seq![oe[k]]
                } else {
                    Seq::<CachedResult>::empty()
                }));
                assert(self.entries@[i as int] == oe.skip(k)[0]);
                assert(oe.skip(k)[0] == oe[k]);
            }
            let e = &self.entries[i];
            let age = if now_secs >= e.last_access {
                now_secs - e.last_access
            } else {
                0
            };
            if age < self.ttl_secs {
                proof {
                    assert(pred(oe[k]));
                    assert(self.entries@ =~= oe.take(k + 1).filter(pred) + oe.skip(k + 1));
                }
                i += 1;
            } else {
                let _stale = self.entries.remove(i);
                proof {
                    assert(!pred(oe[k]));
                    assert(self.entries@ =~= oe.take(k + 1).filter(pred) + oe.skip(k + 1));
                }
            }
            proof {
                k = k + 1;
            }
        }
        proof {
            assert(k == oe.len());
            assert(oe.take(k) =~= oe);
            assert(oe.skip(k) =~= Seq::<CachedResult>::empty());
            assert(self.entries@ =~= oe.filter(pred));
            lemma_filter_distinct_keys(oe, pred);
            assert(oe.filter(pred).len() <= oe.len()) by {
                lemma_filter_len_bound(oe, pred);
            }
        }
    }

    /// Entry count, total hits, mean confidence and the hit-rate heuristic.
    pub fn stats(&self) -> (r: CacheStats)
        requires
            self.wf(),
        ensures
            r.entries == self.entries@.len(),
            r.total_hits as int == (if sum_hits(self.entries@) <= u64::MAX {
                sum_hits(self.entries@)
            } else {
                u64::MAX as int
            }),
            r.avg_confidence as int == (if self.entries@.len() == 0 {
                0
            } else {
                sum_confidence(self.entries@) / self.entries@.len() as int
            }),
            r.hit_rate as int == rate_bp(sum_hits(self.entries@), self.entries@.len() as int),
    {
        let ghost s = self.entries@;
        let mut hits: u128 = 0;
        let mut conf: u128 = 0;
        let mut i: usize = 0;
        proof {
            lemma_sum_hits_bounds(s);
            lemma_sum_confidence_bounds(s);
        }
        while i < self.entries.len()
            invariant
                s == self.entries@,
                self.wf(),
                i <= s.len(),
                hits as int == sum_hits(s.take(i as int)),
                conf as int == sum_confidence(s.take(i as int)),
                hits <= i as int * (u32::MAX as int),
                conf <= i as int * (u32::MAX as int),
            decreases s.len() - i,
        {
            proof {
                assert(s.take(i + 1).drop_last() =~= s.take(i as int));
                assert(s.take(i + 1).last() == s[i as int]);
                assert((i + 1) as int * (u32::MAX as int) == i as int * (u32::MAX as int) + (
                u32::MAX as int)) by (nonlinear_arith);
                assert(i as int * (u32::MAX as int) <= (usize::MAX as int) * (u32::MAX as int))
                    by (nonlinear_arith)
                    requires
                        0 <= i as int <= usize::MAX as int,
                ;
            }
            let e = &self.entries[i];
            hits = hits + e.hit_count as u128;
            conf = conf + e.confidence as u128;
            i += 1;
        }
        proof {
            assert(s.take(s.len() as int) =~= s);
            assert((usize::MAX as int) * (u32::MAX as int) < u128::MAX as int)
                by (nonlinear_arith);
        }
        let n = self.entries.len();
        let total_hits: u64 = if hits <= u64::MAX as u128 {
            hits as u64
        } else {
            u64::MAX
        };
        let avg_confidence: u32 = if n == 0 {
            0
        } else {
            (conf / (n as u128)) as u32
        };
        proof {
            if n > 0 {
                assert(sum_confidence(s) / (n as int) <= u32::MAX as int) by (nonlinear_arith)
                    requires
                        0 <= sum_confidence(s) <= (n as int) * (u32::MAX as int),
                        n as int >= 1,
                ;
            }
        }
        let hit_rate: u32 = if hits > 0 {
            let denom = hits + n as u128;
            let rate = hits * 10000 / denom;
            proof {
                assert(hits * 10000 / (hits + n as int) <= 10000) by (nonlinear_arith)
                    requires
                        hits as int >= 1,
                        n as int >= 0,
                ;
            }
            rate as u32
        } else {
            0
        };
        CacheStats { entries: n, total_hits, avg_confidence, hit_rate }
    }
}

/// Removing an entry from a sequence with unique keys keeps the keys unique.
pub proof fn lemma_remove_distinct(s: Seq<CachedResult>, i: int)
    requires
        distinct_keys(s),
        0 <= i < s.len(),
    ensures
        distinct_keys(s.remove(i)),
    decreases s.len(),
{
    let r = s.remove(i);
    assert forall|p: int, q: int| 0 <= p < q < r.len() implies r[p].key != r[q].key by {
        let sp = if p < i {
            p
        } else {
            p + 1
        };
        let sq = if q < i {
            q
        } else {
            q + 1
        };
        assert(r[p] == s[sp]);
        assert(r[q] == s[sq]);
    }
}

/// Removing the only entry under a key leaves no entry under that key.
pub proof fn lemma_remove_drops_key(s: Seq<CachedResult>, i: int)
    requires
        distinct_keys(s),
        0 <= i < s.len(),
    ensures
        forall|j: int| 0 <= j < s.remove(i).len() ==> s.remove(i)[j].key != s[i].key,
{
    let r = s.remove(i);
    assert forall|j: int| 0 <= j < r.len() implies r[j].key != s[i].key by {
        let sj = if j < i {
            j
        } else {
            j + 1
        };
        assert(r[j] == s[sj]);
    }
}

/// Every element of a filtered sequence stands somewhere in the original and
/// satisfies the predicate.
pub proof fn lemma_filter_subset(s: Seq<CachedResult>, pred: spec_fn(CachedResult) -> bool, j: int)
    requires
        0 <= j < s.filter(pred).len(),
    ensures
        pred(s.filter(pred)[j]),
        exists|w: int| 0 <= w < s.len() && s[w] == s.filter(pred)[j],
    decreases s.len(),
{
    reveal(Seq::filter);
    let f = s.filter(pred);
    let fd = s.drop_last().filter(pred);
    if pred(s.last()) && j == fd.len() {
        assert(f[j] == s.last());
        assert(s[s.len() - 1] == f[j]);
    } else {
        lemma_filter_subset(s.drop_last(), pred, j);
        let w = choose|w: int| 0 <= w < s.drop_last().len() && s.drop_last()[w] == fd[j];
        assert(s[w] == f[j]);
    }
}

/// A filtered sequence is no longer than the original.
pub proof fn lemma_filter_len_bound(s: Seq<CachedResult>, pred: spec_fn(CachedResult) -> bool)
    ensures
        s.filter(pred).len() <= s.len(),
    decreases s.len(),
{
    reveal(Seq::filter);
    if s.len() > 0 {
        lemma_filter_len_bound(s.drop_last(), pred);
    }
}

/// Filtering a sequence with unique keys keeps the keys unique.
pub proof fn lemma_filter_distinct_keys(s: Seq<CachedResult>, pred: spec_fn(CachedResult) -> bool)
    requires
        distinct_keys(s),
    ensures
        distinct_keys(s.filter(pred)),
    decreases s.len(),
{
    reveal(Seq::filter);
    if s.len() > 0 {
        lemma_filter_distinct_keys(s.drop_last(), pred);
        let f = s.filter(pred);
        let fd = s.drop_last().filter(pred);
        if pred(s.last()) {
            assert(f == fd + seq![s.last()]);
            assert forall|p: int, q: int| 0 <= p < q < f.len() implies f[p].key != f[q].key by {
                if q < fd.len() {
                } else {
                    assert(f[q] == s.last());
                    lemma_filter_subset(s.drop_last(), pred, p);
                    let w = choose|w: int| 0 <= w < s.drop_last().len() && s.drop_last()[w]
                        == fd[p];
                    assert(s[w] == fd[p]);
                    assert(s[w].key != s.last().key);
                }
            }
        } else {
            assert(f == fd);
        }
    }
}

/// Total hits and confidence are bounded by the entry count times the
/// largest count.
pub proof fn lemma_sum_hits_bounds(s: Seq<CachedResult>)
    ensures
        0 <= sum_hits(s) <= s.len() * (u32::MAX as int),
    decreases s.len(),
{
    if s.len() == 0 {
    } else {
        lemma_sum_hits_bounds(s.drop_last());
        assert(s.len() * (u32::MAX as int) == (s.len() - 1) * (u32::MAX as int) + (
        u32::MAX as int)) by (nonlinear_arith);
    }
}

/// See [`lemma_sum_hits_bounds`].
pub proof fn lemma_sum_confidence_bounds(s: Seq<CachedResult>)
    ensures
        0 <= sum_confidence(s) <= s.len() * (u32::MAX as int),
    decreases s.len(),
{
    if s.len() == 0 {
    } else {
        lemma_sum_confidence_bounds(s.drop_last());
        assert(s.len() * (u32::MAX as int) == (s.len() - 1) * (u32::MAX as int) + (
        u32::MAX as int)) by (nonlinear_arith);
    }
}

/// Time-to-live expiry: an entry whose age reached the time-to-live is
/// absent after [`PredictiveCache::evict_expired`] runs, so a subsequent
/// [`PredictiveCache::get`] of its key misses.
pub proof fn lemma_ttl_expiry(s: Seq<CachedResult>, now: u64, ttl: u64, i: int)
    requires
        distinct_keys(s),
        0 <= i < s.len(),
        !entry_fresh(s[i], now, ttl),
    ensures
        !has_key(s.filter(|e: CachedResult| entry_fresh(e, now, ttl)), s[i].key),
{
    let pred = |e: CachedResult| entry_fresh(e, now, ttl);
    let f = s.filter(pred);
    assert forall|j: int| 0 <= j < f.len() implies f[j].key != s[i].key by {
        lemma_filter_subset(s, pred, j);
        let w = choose|w: int| 0 <= w < s.len() && s[w] == f[j];
        assert(pred(s[w]));
        assert(w != i);
        if w < i {
            assert(s[w].key != s[i].key);
        } else {
            assert(s[i].key != s[w].key);
        }
    }
}

} // verus!
