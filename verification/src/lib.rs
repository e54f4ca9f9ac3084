//! Cross-process acceleration layer for a text-classification pipeline: a
//! framed shared-channel wire protocol, a round-robin channel pool, a bounded
//! predictive cache with LRU and TTL eviction, a multi-pattern text scorer,
//! an online verifier that recalibrates a decision threshold from observed
//! prediction accuracy, and a pattern-based claim extractor.
//!
//! Likelihoods, confidences, thresholds and accuracies are fixed-point values
//! in basis points: 10000 stands for 1.0.

pub mod automaton;
pub mod buffer;
pub mod cache;
pub mod calibration;
pub mod events;
pub mod numfmt;
pub mod patterns;
pub mod subbuffer;

use crate::automaton::{ac_build, ac_build_ok, ac_is_match, ac_patterns, ac_unanchored,
    contains_any, lower_of, lowercase};
use aho_corasick::AhoCorasick;
use vstd::prelude::*;
use vstd::string::StrSliceExecFns;
use vstd::string::StringExecFns;

verus! {

/// The factual-indicator pattern set of the extractor (the scorer's set with
/// trend verbs added).
pub open spec fn extractor_factual_patterns() -> Seq<Seq<char>> {
    seq![
        "is"@,
        "are"@,
        "was"@,
        "were"@,
        "has"@,
        "have"@,
        "announced"@,
        "reported"@,
        "confirmed"@,
        "stated"@,
        "according to"@,
        "data shows"@,
        "statistics"@,
        "%"@,
        "percent"@,
        "million"@,
        "billion"@,
        "increased"@,
        "decreased"@,
        "rose"@,
        "fell"@,
    ]
}

/// The opinion-indicator pattern set of the extractor (the scorer's set with
/// hedging adverbs added).
pub open spec fn extractor_opinion_patterns() -> Seq<Seq<char>> {
    seq![
        "think"@,
        "believe"@,
        "feel"@,
        "should"@,
        "could"@,
        "probably"@,
        "maybe"@,
        "perhaps"@,
        "might"@,
        "in my opinion"@,
        "I believe"@,
        "seems like"@,
        "likely"@,
        "possibly"@,
        "allegedly"@,
    ]
}

/// A sentence-ending character.
pub open spec fn is_ender(c: char) -> bool {
    c == '.' || c == '!' || c == '?'
}

/// An ASCII whitespace character (what trimming strips).
pub open spec fn is_space_char(c: char) -> bool {
    c == ' ' || c == '\t' || c == '\n' || c == '\r'
}

/// Index of the first sentence ender, or -1 when none occurs.
pub open spec fn first_ender(s: Seq<char>) -> int
    decreases s.len(),
{
    if s.len() == 0 {
        -1
    } else if is_ender(s[0]) {
        0
    } else {
        let r = first_ender(s.drop_first());
        if r < 0 {
            -1
        } else {
            r + 1
        }
    }
}

/// How many whitespace characters a sequence starts with.
pub open spec fn trim_start_count(s: Seq<char>) -> int
    decreases s.len(),
{
    if s.len() == 0 {
        0
    } else if !is_space_char(s[0]) {
        0
    } else {
        1 + trim_start_count(s.drop_first())
    }
}

/// How many whitespace characters a sequence ends with.
pub open spec fn trim_end_count(s: Seq<char>) -> int
    decreases s.len(),
{
    if s.len() == 0 {
        0
    } else if !is_space_char(s.last()) {
        0
    } else {
        1 + trim_end_count(s.drop_last())
    }
}

/// The sequence with leading and trailing whitespace stripped.
pub open spec fn trimmed(s: Seq<char>) -> Seq<char> {
    let a = trim_start_count(s);
    if a == s.len() {
        Seq::empty()
    } else {
        s.subrange(a, s.len() - trim_end_count(s))
    }
}

/// A sentence is verifiable when its lowercased form holds a factual
/// indicator and no opinion indicator.
pub open spec fn verifiable(s: Seq<char>) -> bool {
    contains_any(extractor_factual_patterns(), lower_of(s)) && !contains_any(
        extractor_opinion_patterns(),
        lower_of(s),
    )
}

/// What one raw sentence contributes to the extraction: its trimmed form,
/// when that is non-empty and the sentence is verifiable.
pub open spec fn kept(piece: Seq<char>) -> Seq<Seq<char>> {
    if trimmed(piece).len() > 0 && verifiable(piece) {
        seq![trimmed(piece)]
    } else {
        seq![]
    }
}

/// The extraction of a text: split at sentence enders, keep each verifiable
/// sentence trimmed.
pub open spec fn extract_model(s: Seq<char>) -> Seq<Seq<char>>
    decreases s.len(),
{
    let fe = first_ender(s);
    if fe < 0 || fe >= s.len() {
        kept(s)
    } else {
        kept(s.take(fe)) + extract_model(s.skip(fe + 1))
    }
}

/// A sequence whose positions before `m` hold no ender and whose position
/// `m` holds one has its first ender at `m`.
proof fn lemma_first_ender_at(s: Seq<char>, m: int)
    requires
        0 <= m < s.len(),
        is_ender(s[m]),
        forall|k: int| 0 <= k < m ==> !is_ender(s[k]),
    ensures
        first_ender(s) == m,
    decreases m,
{
    if m > 0 {
        lemma_first_ender_at(s.drop_first(), m - 1);
    }
}

/// A sequence without enders has no first ender.
proof fn lemma_first_ender_none(s: Seq<char>)
    requires
        forall|k: int| 0 <= k < s.len() ==> !is_ender(s[k]),
    ensures
        first_ender(s) == -1,
    decreases s.len(),
{
    if s.len() > 0 {
        lemma_first_ender_none(s.drop_first());
    }
}

/// A sequence whose positions before `m` are whitespace and whose position
/// `m` (if any) is not starts with exactly `m` whitespace characters.
proof fn lemma_trim_start_at(s: Seq<char>, m: int)
    requires
        0 <= m <= s.len(),
        forall|k: int| 0 <= k < m ==> is_space_char(s[k]),
        m < s.len() ==> !is_space_char(s[m]),
    ensures
        trim_start_count(s) == m,
    decreases m,
{
    if m > 0 {
        lemma_trim_start_at(s.drop_first(), m - 1);
    }
}

/// A sequence whose last `m` positions are whitespace and whose position
/// before them (if any) is not ends with exactly `m` whitespace characters.
proof fn lemma_trim_end_at(s: Seq<char>, m: int)
    requires
        0 <= m <= s.len(),
        forall|k: int| s.len() - m <= k < s.len() ==> is_space_char(s[k]),
        m < s.len() ==> !is_space_char(s[s.len() - 1 - m]),
    ensures
        trim_end_count(s) == m,
    decreases m,
{
    if m > 0 {
        lemma_trim_end_at(s.drop_last(), m - 1);
    }
}

/// Whether the character at a position is ASCII whitespace.
fn space_at(s: &str, i: usize) -> (r: bool)
    requires
        i < s@.len(),
    ensures
        r == is_space_char(s@[i as int]),
{
    let c = s.get_char(i);
    c == ' ' || c == '\t' || c == '\n' || c == '\r'
}

/// Strip leading and trailing ASCII whitespace.
fn trim_str<'a>(s: &'a str) -> (r: &'a str)
    ensures
        r@ == trimmed(s@),
{
    let n = s.unicode_len();
    let mut a: usize = 0;
    while a < n && space_at(s, a)
        invariant
            a <= n,
            n == s@.len(),
            forall|k: int| 0 <= k < a ==> is_space_char(s@[k]),
        decreases n - a,
    {
        a += 1;
    }
    proof {
        lemma_trim_start_at(s@, a as int);
    }
    if a == n {
        let r = s.substring_char(0, 0);
        proof {
            assert(r@ =~= trimmed(s@));
        }
        return r;
    }
    let mut end: usize = n;
    while end > a && space_at(s, end - 1)
        invariant
            a < n,
            n == s@.len(),
            a <= end <= n,
            !is_space_char(s@[a as int]),
            forall|k: int| end <= k < n ==> is_space_char(s@[k]),
        decreases end,
    {
        end -= 1;
    }
    proof {
        assert(end > a);
        lemma_trim_end_at(s@, n - end);
    }
    let r = s.substring_char(a, end);
    proof {
        assert(r@ =~= trimmed(s@));
    }
    r
}

/// Claim extractor: splits a text into sentences and keeps those whose
/// lowercased form holds a factual indicator and no opinion indicator.
pub struct ClaimExtractor {
    /// Matcher over the factual-indicator patterns.
    pub factual_matcher: AhoCorasick,
    /// Matcher over the opinion-indicator patterns.
    pub opinion_matcher: AhoCorasick,
}

impl ClaimExtractor {
    /// The matchers hold exactly the two fixed pattern sets and support
    /// unanchored searches.
    pub open spec fn wf(&self) -> bool {
        &&& ac_patterns(self.factual_matcher) == extractor_factual_patterns()
        &&& ac_patterns(self.opinion_matcher) == extractor_opinion_patterns()
        &&& ac_unanchored(self.factual_matcher)
        &&& ac_unanchored(self.opinion_matcher)
    }

    /// Build the two automatons; this succeeds exactly when the builder
    /// accepts both fixed pattern sets (it refuses a set only when the
    /// automaton would exceed its internal size limits).
    pub fn new() -> (r: Option<ClaimExtractor>)
        ensures
            r is Some <==> ac_build_ok(extractor_factual_patterns()) && ac_build_ok(
                extractor_opinion_patterns(),
            ),
            r matches Some(e) ==> e.wf(),
    {
        let mut fpats: Vec<String> = Vec::new();
        fpats.push("is".to_owned());
        fpats.push("are".to_owned());
        fpats.push("was".to_owned());
        fpats.push("were".to_owned());
        fpats.push("has".to_owned());
        fpats.push("have".to_owned());
        fpats.push("announced".to_owned());
        fpats.push("reported".to_owned());
        fpats.push("confirmed".to_owned());
        fpats.push("stated".to_owned());
        fpats.push("according to".to_owned());
        fpats.push("data shows".to_owned());
        fpats.push("statistics".to_owned());
        fpats.push("%".to_owned());
        fpats.push("percent".to_owned());
        fpats.push("million".to_owned());
        fpats.push("billion".to_owned());
        fpats.push("increased".to_owned());
        fpats.push("decreased".to_owned());
        fpats.push("rose".to_owned());
        fpats.push("fell".to_owned());
        assert(fpats.deep_view() =~~= extractor_factual_patterns());

        let mut opats: Vec<String> = Vec::new();
        opats.push("think".to_owned());
        opats.push("believe".to_owned());
        opats.push("feel".to_owned());
        opats.push("should".to_owned());
        opats.push("could".to_owned());
        opats.push("probably".to_owned());
        opats.push("maybe".to_owned());
        opats.push("perhaps".to_owned());
        opats.push("might".to_owned());
        opats.push("in my opinion".to_owned());
        opats.push("I believe".to_owned());
        opats.push("seems like".to_owned());
        opats.push("likely".to_owned());
        opats.push("possibly".to_owned());
        opats.push("allegedly".to_owned());
        assert(opats.deep_view() =~~= extractor_opinion_patterns());

        let factual_matcher = match ac_build(&fpats) {
            Some(m) => m,
            None => { return None },
        };
        let opinion_matcher = match ac_build(&opats) {
            Some(m) => m,
            None => { return None },
        };
        Some(ClaimExtractor { factual_matcher, opinion_matcher })
    }

    /// Whether a sentence is a verifiable claim.
    fn is_verifiable(&self, sentence: &str) -> (r: bool)
        requires
            self.wf(),
        ensures
            r == verifiable(sentence@),
    {
        let sentence_lower = lowercase(sentence);
        let has_factual = ac_is_match(&self.factual_matcher, sentence_lower.as_str());
        let has_opinion = ac_is_match(&self.opinion_matcher, sentence_lower.as_str());
        has_factual && !has_opinion
    }

    /// Index of the first sentence ender at or after `from`, if any.
    fn find_ender_from(&self, text: &str, from: usize) -> (r: Option<usize>)
        requires
            from <= text@.len(),
        ensures
            match r {
                Some(e) => from <= e < text@.len() && is_ender(text@[e as int]) && (forall|k: int|
                    from <= k < e ==> !is_ender(text@[k])),
                None => forall|k: int| from <= k < text@.len() ==> !is_ender(text@[k]),
            },
    {
        let n = text.unicode_len();
        let mut i: usize = from;
        while i < n
            invariant
                from <= i <= n,
                n == text@.len(),
                forall|k: int| from <= k < i ==> !is_ender(text@[k]),
            decreases n - i,
        {
            let c = text.get_char(i);
            if c == '.' || c == '!' || c == '?' {
                return Some(i);
            }
            i += 1;
        }
        None
    }

    /// Extract the verifiable claims of a text: the text is split at `.`,
    /// `!` and `?`, and each sentence that trims to something non-empty and
    /// holds a factual indicator but no opinion indicator comes back trimmed,
    /// in order.
    pub fn extract(&self, text: &str) -> (r: Vec<String>)
        requires
            self.wf(),
        ensures
            r.deep_view() == extract_model(text@),
    {
        let n = text.unicode_len();
        let mut out: Vec<String> = Vec::new();
        let mut p: usize = 0;
        proof {
            assert(text@.skip(0) =~= text@);
            assert(out.deep_view() =~~= Seq::<Seq<char>>::empty());
            assert(out.deep_view() + extract_model(text@) =~= extract_model(text@));
        }
        while p < n
            invariant
                self.wf(),
                p <= n,
                n == text@.len(),
                extract_model(text@) == out.deep_view() + extract_model(text@.skip(p as int)),
            decreases n - p,
        {
            let fe = self.find_ender_from(text, p);
            let ghost rest = text@.skip(p as int);
            match fe {
                Some(e) => {
                    proof {
                        assert(rest[e - p] == text@[e as int]);
                        assert forall|k: int| 0 <= k < e - p implies !is_ender(rest[k]) by {
                            assert(rest[k] == text@[k + p]);
                        }
                        lemma_first_ender_at(rest, e - p);
                        assert(rest.take(e - p) =~= text@.subrange(p as int, e as int));
                        assert(rest.skip(e - p + 1) =~= text@.skip(e + 1));
                    }
                    let piece = text.substring_char(p, e);
                    let t = trim_str(piece);
                    let ghost out_before = out.deep_view();
                    if !t.is_empty() && self.is_verifiable(piece) {
                        out.push(t.to_owned());
                        proof {
                            assert(out.deep_view() =~~= out_before + seq![t@]);
                        }
                    }
                    proof {
                        assert(extract_model(rest) == kept(piece@) + extract_model(
                            text@.skip(e + 1),
                        ));
                    }
                    p = e + 1;
                },
                None => {
                    proof {
                        assert forall|k: int| 0 <= k < rest.len() implies !is_ender(rest[k]) by {
                            assert(rest[k] == text@[k + p]);
                        }
                        lemma_first_ender_none(rest);
                        assert(rest =~= text@.subrange(p as int, n as int));
                    }
                    let piece = text.substring_char(p, n);
                    let t = trim_str(piece);
                    let ghost out_before = out.deep_view();
                    if !t.is_empty() && self.is_verifiable(piece) {
                        out.push(t.to_owned());
                        proof {
                            assert(out.deep_view() =~~= out_before + seq![t@]);
                        }
                    }
                    proof {
                        assert(extract_model(rest) == kept(piece@));
                        assert(text@.skip(n as int) =~= Seq::<char>::empty());
                        assert(extract_model(text@.skip(n as int)) =~= Seq::<Seq<char>>::empty());
                    }
                    p = n;
                },
            }
        }
        proof {
            assert(text@.skip(n as int) =~= Seq::<char>::empty());
            assert(extract_model(text@.skip(n as int)) =~= Seq::<Seq<char>>::empty());
            assert(out.deep_view() =~= extract_model(text@));
        }
        out
    }

    /// Extract claims for a batch of texts, one result per text, in order.
    pub fn extract_batch(&self, texts: &[&str]) -> (r: Vec<Vec<String>>)
        requires
            self.wf(),
        ensures
            r@.len() == texts@.len(),
            forall|i: int|
                0 <= i < texts@.len() ==> #[trigger] r@[i].deep_view() == extract_model(
                    texts@[i]@,
                ),
    {
        let mut r: Vec<Vec<String>> = Vec::new();
        let mut i: usize = 0;
        while i < texts.len()
            invariant
                self.wf(),
                i <= texts@.len(),
                r@.len() == i,
                forall|j: int|
                    0 <= j < i ==> #[trigger] r@[j].deep_view() == extract_model(texts@[j]@),
            decreases texts@.len() - i,
        {
            let text = *vstd::slice::slice_index_get(texts, i);
            r.push(self.extract(text));
            i += 1;
        }
        r
    }
}

} // verus!
