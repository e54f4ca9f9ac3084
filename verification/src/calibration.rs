//! Self-verification layer: records likelihood predictions, reconciles them
//! against observed outcomes, tracks running accuracy, and adapts the
//! decision threshold; and the engine that composes one predictive cache with
//! one verifier behind a decision/update API.
//!
//! All ratios are fixed-point basis points: 10000 stands for 1.0.  Accuracy
//! comparisons are made on the exact rational `correct / total` (as integer
//! cross products), not on the rounded display value.

use crate::automaton::ac_build_ok;
use crate::cache::{
    factual_patterns,
    get_hit_model,
    has_key,
    idx_of,
    opinion_patterns,
    put_model,
    text_likelihood,
    CachedResult,
    PredictiveCache,
};
use crate::numfmt::{dec_str, percent1_str, percent1_string, u64_to_string, unit2_str,
    unit2_string};
use vstd::prelude::*;
use vstd::string::StringExecFns;
use vstd::string::StringSliceAdditionalSpecFns;

verus! {

/// Minimum accuracy the calibration aims to keep, in basis points.
pub const MIN_ACCURACY_BP: u32 = 8500;

/// Lower clamp of the decision threshold, in basis points.
pub const THRESHOLD_FLOOR_BP: u32 = 5000;

/// Upper clamp of the decision threshold, in basis points.
pub const THRESHOLD_CEIL_BP: u32 = 9000;

/// How long a prediction record is retained, in seconds.
pub const RETENTION_SECS: u64 = 3600;

/// One recorded prediction, later reconciled against the true outcome.
pub struct Prediction {
    /// The content fingerprint the prediction was made for.
    pub key: u64,
    /// The predicted likelihood, in basis points.
    pub predicted_likelihood: u32,
    /// The observed outcome, once verified.
    pub actual_had_claims: Option<bool>,
    /// When the prediction was recorded, in seconds.
    pub timestamp: u64,
    /// Whether the record was reconciled already.
    pub verified: bool,
}

/// Whether a record is still inside the retention window at time
/// `now_secs` (times before the record count as age zero).
pub open spec fn record_fresh(p: Prediction, now_secs: u64) -> bool {
    (if now_secs >= p.timestamp {
        now_secs - p.timestamp
    } else {
        0
    }) < RETENTION_SECS
}

/// Whether some record carries the key.
pub open spec fn phas_key(s: Seq<Prediction>, key: u64) -> bool {
    exists|i: int| 0 <= i < s.len() && s[i].key == key
}

/// The position of a key (unique under [`pdistinct`]).
pub open spec fn pidx_of(s: Seq<Prediction>, key: u64) -> int {
    choose|i: int| 0 <= i < s.len() && s[i].key == key
}

/// Every key appears at most once.
pub open spec fn pdistinct(s: Seq<Prediction>) -> bool {
    forall|i: int, j: int| 0 <= i < j < s.len() ==> s[i].key != s[j].key
}

/// How many records were not yet reconciled.
pub open spec fn num_unverified(s: Seq<Prediction>) -> int
    decreases s.len(),
{
    if s.len() == 0 {
        0
    } else {
        num_unverified(s.drop_last()) + (if s.last().verified {
            0int
        } else {
            1
        })
    }
}

/// The unverified count lies between zero and the record count.
pub proof fn lemma_num_unverified_bounds(s: Seq<Prediction>)
    ensures
        0 <= num_unverified(s) <= s.len(),
    decreases s.len(),
{
    if s.len() > 0 {
        lemma_num_unverified_bounds(s.drop_last());
    }
}

/// An unverified record makes the unverified count positive.
pub proof fn lemma_num_unverified_at(s: Seq<Prediction>, i: int)
    requires
        0 <= i < s.len(),
        !s[i].verified,
    ensures
        num_unverified(s) >= 1,
    decreases s.len(),
{
    lemma_num_unverified_bounds(s.drop_last());
    if i < s.len() - 1 {
        lemma_num_unverified_at(s.drop_last(), i);
    }
}

/// Replacing one record moves the unverified count by the difference of the
/// two records' contributions.
pub proof fn lemma_num_unverified_update(s: Seq<Prediction>, i: int, p: Prediction)
    requires
        0 <= i < s.len(),
    ensures
        num_unverified(s.update(i, p)) == num_unverified(s) - (if s[i].verified {
            0int
        } else {
            1
        }) + (if p.verified {
            0int
        } else {
            1
        }),
    decreases s.len(),
{
    let s2 = s.update(i, p);
    if i == s.len() - 1 {
        assert(s2.drop_last() =~= s.drop_last());
    } else {
        assert(s2.drop_last() =~= s.drop_last().update(i, p));
        lemma_num_unverified_update(s.drop_last(), i, p);
        assert(s2.last() == s.last());
    }
}

/// Filtering never adds unverified records.
pub proof fn lemma_num_unverified_filter(s: Seq<Prediction>, pred: spec_fn(Prediction) -> bool)
    ensures
        0 <= num_unverified(s.filter(pred)) <= num_unverified(s),
    decreases s.len(),
{
    reveal(Seq::filter);
    lemma_num_unverified_bounds(s.filter(pred));
    if s.len() > 0 {
        lemma_num_unverified_filter(s.drop_last(), pred);
        if pred(s.last()) {
            assert(s.filter(pred).drop_last() =~= s.drop_last().filter(pred));
            assert(s.filter(pred).last() == s.last());
        }
    }
}

/// Running accuracy in basis points: 1.0 while nothing was recorded, else
/// `correct / total` rounded down and capped at 1.0.
pub open spec fn accuracy_bp(correct: int, total: int) -> int {
    if total == 0 {
        10000
    } else if correct * 10000 / total > 10000 {
        10000
    } else {
        correct * 10000 / total
    }
}

/// Exact rational test `correct / total < 85 / 100`.
pub open spec fn acc_below_min(correct: int, total: int) -> bool {
    correct * 20 < 17 * total
}

/// Exact rational test `correct / total > 95 / 100`.
pub open spec fn acc_above_high(correct: int, total: int) -> bool {
    correct * 20 > 19 * total
}

/// Clamp a threshold into `[0.5, 0.9]`.
pub open spec fn clamp_threshold(x: int) -> u32 {
    if x < THRESHOLD_FLOOR_BP {
        THRESHOLD_FLOOR_BP
    } else if x > THRESHOLD_CEIL_BP {
        THRESHOLD_CEIL_BP
    } else {
        x as u32
    }
}

/// The decision threshold after one verification: multiplied by 0.95 (more
/// permissive) while accuracy is below the required minimum, by 1.05
/// (stricter) while above 0.95, unchanged otherwise; then clamped.
pub open spec fn next_threshold(thr: u32, correct: int, total: int) -> u32 {
    if acc_below_min(correct, total) {
        clamp_threshold(thr * 95 / 100)
    } else if acc_above_high(correct, total) {
        clamp_threshold(thr * 105 / 100)
    } else {
        thr
    }
}

/// Confidence adjusted by historical accuracy: `raw * (1 + (acc - 0.85) / 2)`
/// over the exact rational accuracy `correct / total`, clamped to `[0, 1]`.
/// (The boost form for a correct prediction and the damping form for an
/// incorrect one are the same expression.)
pub open spec fn adjusted_confidence_bp(raw: u32, correct: int, total: int) -> u32 {
    let v = if total == 0 {
        raw * 43 / 40
    } else {
        raw * (23 * total + 20 * correct) / (40 * total)
    };
    if v > 10000 {
        10000
    } else {
        v as u32
    }
}

/// How recording a prediction changes the state: a fresh unverified record
/// enters under the key (replacing any earlier record under it), the total
/// count grows by one (saturating), and everything else stays.
pub open spec fn record_updates(
    pre: TruthSyncVerifier,
    post: TruthSyncVerifier,
    key: u64,
    likelihood: u32,
    now_secs: u64,
) -> bool {
    let rec = Prediction {
        key,
        predicted_likelihood: likelihood,
        actual_had_claims: None,
        timestamp: now_secs,
        verified: false,
    };
    &&& post.total_predictions as int == (if pre.total_predictions == u64::MAX {
        u64::MAX as int
    } else {
        pre.total_predictions + 1
    })
    &&& post.correct_predictions == pre.correct_predictions
    &&& post.confidence_threshold == pre.confidence_threshold
    &&& (if phas_key(pre.predictions@, key) {
        post.predictions@ == pre.predictions@.update(pidx_of(pre.predictions@, key), rec)
    } else {
        post.predictions@ == pre.predictions@.push(rec)
    })
}

/// Whether a verification of `key` finds a recorded, not yet verified
/// prediction to reconcile.
pub open spec fn verify_hit(v: TruthSyncVerifier, key: u64) -> bool {
    phas_key(v.predictions@, key) && !v.predictions@[pidx_of(v.predictions@, key)].verified
}

/// The neutral result a verification without a matching record returns.
pub open spec fn neutral_result() -> VerificationResult {
    VerificationResult {
        was_correct: false,
        predicted_likelihood: 0,
        actual_had_claims: false,
        current_accuracy: 0,
        adjusted_confidence: 0,
    }
}

/// How one verification changes the state and what it returns: the record is
/// marked verified with the observed outcome, the correct count grows
/// (saturating) exactly when the thresholded prediction matched the outcome,
/// the threshold adapts to the new accuracy, and the result reports the
/// stored likelihood, the outcome, the new accuracy and the
/// accuracy-adjusted confidence.
pub open spec fn verify_updates(
    pre: TruthSyncVerifier,
    post: TruthSyncVerifier,
    r: VerificationResult,
    key: u64,
    had_claims: bool,
) -> bool {
    let i = pidx_of(pre.predictions@, key);
    let p = pre.predictions@[i];
    let correct = (p.predicted_likelihood > pre.confidence_threshold) == had_claims;
    let new_correct = if correct {
        if pre.correct_predictions == u64::MAX {
            u64::MAX as int
        } else {
            pre.correct_predictions + 1
        }
    } else {
        pre.correct_predictions as int
    };
    &&& post.predictions@ == pre.predictions@.update(
        i,
        (Prediction { actual_had_claims: Some(had_claims), verified: true, ..p }),
    )
    &&& post.total_predictions == pre.total_predictions
    &&& post.correct_predictions == new_correct
    &&& post.confidence_threshold == next_threshold(
        pre.confidence_threshold,
        new_correct,
        pre.total_predictions as int,
    )
    &&& r.was_correct == correct
    &&& r.predicted_likelihood == p.predicted_likelihood
    &&& r.actual_had_claims == had_claims
    &&& r.current_accuracy == accuracy_bp(new_correct, pre.total_predictions as int)
    &&& r.adjusted_confidence == adjusted_confidence_bp(
        p.predicted_likelihood,
        new_correct,
        pre.total_predictions as int,
    )
}

/// The verification outcome handed back to the caller.
#[derive(Clone, Copy, Debug, PartialEq, Eq, Structural)]
pub struct VerificationResult {
    /// Whether the thresholded prediction matched the outcome.
    pub was_correct: bool,
    /// The likelihood that had been predicted, in basis points.
    pub predicted_likelihood: u32,
    /// The observed outcome.
    pub actual_had_claims: bool,
    /// Running accuracy after this verification, in basis points.
    pub current_accuracy: u32,
    /// The accuracy-adjusted confidence, in basis points.
    pub adjusted_confidence: u32,
}

impl Default for VerificationResult {
    /// The neutral result returned when no matching record exists.
    fn default() -> (r: VerificationResult)
        ensures
            r == (VerificationResult {
                was_correct: false,
                predicted_likelihood: 0,
                actual_had_claims: false,
                current_accuracy: 0,
                adjusted_confidence: 0,
            }),
    {
        VerificationResult {
            was_correct: false,
            predicted_likelihood: 0,
            actual_had_claims: false,
            current_accuracy: 0,
            adjusted_confidence: 0,
        }
    }
}

/// Verification statistics; ratios in basis points.
#[derive(Clone, Copy, Debug, PartialEq, Eq, Structural)]
pub struct VerificationStats {
    /// How many predictions were recorded.
    pub total_predictions: u64,
    /// How many verified predictions were correct.
    pub correct_predictions: u64,
    /// Running accuracy, in basis points.
    pub accuracy: u32,
    /// The current decision threshold, in basis points.
    pub current_threshold: u32,
}

/// Adaptive calibration state: per-key prediction records, running counts,
/// and the decision threshold.
pub struct TruthSyncVerifier {
    /// Prediction records, unique keys.
    pub predictions: Vec<Prediction>,
    /// How many predictions were recorded (saturating).
    pub total_predictions: u64,
    /// How many verified predictions were correct (saturating).
    pub correct_predictions: u64,
    /// The decision threshold, in basis points, always in `[0.5, 0.9]`.
    pub confidence_threshold: u32,
    /// The accuracy floor the calibration aims for, in basis points.
    pub min_accuracy_required: u32,
}

impl TruthSyncVerifier {
    /// Keys unique, stored likelihoods in `[0, 1]`, threshold clamped, and
    /// the counts consistent: the correct count never exceeds the total, and
    /// (inductively) the correct count plus the records still awaiting
    /// verification never exceeds it either, until the total saturates.
    pub open spec fn wf(&self) -> bool {
        &&& pdistinct(self.predictions@)
        &&& forall|i: int|
            0 <= i < self.predictions@.len() ==> self.predictions@[i].predicted_likelihood <= 10000
        &&& THRESHOLD_FLOOR_BP <= self.confidence_threshold <= THRESHOLD_CEIL_BP
        &&& self.min_accuracy_required == MIN_ACCURACY_BP
        &&& self.correct_predictions <= self.total_predictions
        &&& (self.total_predictions == u64::MAX || self.correct_predictions + num_unverified(
            self.predictions@,
        ) <= self.total_predictions)
    }

    /// A fresh verifier: no records, zero counts, threshold 0.7.
    pub fn new() -> (r: TruthSyncVerifier)
        ensures
            r.wf(),
            r.predictions@.len() == 0,
            r.total_predictions == 0,
            r.correct_predictions == 0,
            r.confidence_threshold == 7000,
    {
        TruthSyncVerifier {
            predictions: Vec::new(),
            total_predictions: 0,
            correct_predictions: 0,
            confidence_threshold: 7000,
            min_accuracy_required: MIN_ACCURACY_BP,
        }
    }

    /// Position of a key among the records, if present.
    fn find_index(&self, key: u64) -> (r: Option<usize>)
        requires
            pdistinct(self.predictions@),
        ensures
            match r {
                Some(i) => i < self.predictions@.len() && self.predictions@[i as int].key == key
                    && i as int == pidx_of(self.predictions@, key),
                None => !phas_key(self.predictions@, key),
            },
    {
        let mut i: usize = 0;
        while i < self.predictions.len()
            invariant
                pdistinct(self.predictions@),
                i <= self.predictions@.len(),
                forall|j: int| 0 <= j < i ==> self.predictions@[j].key != key,
            decreases self.predictions@.len() - i,
        {
            if self.predictions[i].key == key {
                proof {
                    assert(phas_key(self.predictions@, key));
                    let w = pidx_of(self.predictions@, key);
                    assert(0 <= w < self.predictions@.len() && self.predictions@[w].key == key);
                    if w < i as int {
                        assert(self.predictions@[w].key != self.predictions@[i as int].key);
                    } else if w > i as int {
                        assert(self.predictions@[i as int].key != self.predictions@[w].key);
                    }
                }
                return Some(i);
            }
            i += 1;
        }
        None
    }

    /// Record a prediction for later verification: a fresh unverified record
    /// is stored under the key (replacing any earlier record under it), and
    /// the total count grows by one (saturating).
    pub fn record_prediction(&mut self, key: u64, likelihood: u32, now_secs: u64)
        requires
            old(self).wf(),
            likelihood <= 10000,
        ensures
            final(self).wf(),
            record_updates(*old(self), *final(self), key, likelihood, now_secs),
    {
        let rec = Prediction {
            key,
            predicted_likelihood: likelihood,
            actual_had_claims: None,
            timestamp: now_secs,
            verified: false,
        };
        let idx = self.find_index(key);
        match idx {
            Some(i) => {
                let _old_rec = self.predictions.remove(i);
                self.predictions.insert(i, rec);
                proof {
                    let oe = old(self).predictions@;
                    let ii = i as int;
                    assert(self.predictions@ =~= oe.update(ii, rec));
                    lemma_num_unverified_bounds(oe);
                    lemma_num_unverified_update(oe, ii, rec);
                }
            },
            None => {
                self.predictions.push(rec);
                proof {
                    let oe = old(self).predictions@;
                    lemma_num_unverified_bounds(oe);
                    assert(self.predictions@.drop_last() =~= oe);
                    assert(num_unverified(self.predictions@) == num_unverified(oe) + 1);
                }
            },
        }
        self.total_predictions = if self.total_predictions == u64::MAX {
            u64::MAX
        } else {
            self.total_predictions + 1
        };
    }

    /// Running accuracy in basis points.
    pub fn accuracy(&self) -> (r: u32)
        ensures
            r as int == accuracy_bp(
                self.correct_predictions as int,
                self.total_predictions as int,
            ),
    {
        if self.total_predictions == 0 {
            return 10000;
        }
        let v = self.correct_predictions as u128 * 10000 / (self.total_predictions as u128);
        if v > 10000 {
            10000
        } else {
            v as u32
        }
    }

    /// Reconcile a recorded, not yet verified prediction against the
    /// observed outcome: the record is marked verified, the correct count
    /// grows if the thresholded prediction matched the outcome, and the
    /// threshold adapts to the new accuracy.  A key without such a record
    /// (unknown, or already verified) gives the neutral result and changes
    /// nothing.
    pub fn verify(&mut self, key: u64, had_claims: bool) -> (r: VerificationResult)
        requires
            old(self).wf(),
        ensures
            final(self).wf(),
            final(self).total_predictions == old(self).total_predictions,
            !verify_hit(*old(self), key) ==> *final(self) == *old(self) && r == neutral_result(),
            verify_hit(*old(self), key) ==> verify_updates(
                *old(self),
                *final(self),
                r,
                key,
                had_claims,
            ),
    {
        let idx = self.find_index(key);
        let i = match idx {
            None => { return VerificationResult::default() },
            Some(i) => i,
        };
        if self.predictions[i].verified {
            return VerificationResult::default();
        }
        let mut p = self.predictions.remove(i);
        let predicted_likelihood = p.predicted_likelihood;
        p.actual_had_claims = Some(had_claims);
        p.verified = true;
        self.predictions.insert(i, p);
        proof {
            let oe = old(self).predictions@;
            assert(self.predictions@ =~= oe.update(
                i as int,
                (Prediction {
                    actual_had_claims: Some(had_claims),
                    verified: true,
                    ..oe[i as int]
                }),
            ));
            lemma_num_unverified_at(oe, i as int);
            lemma_num_unverified_update(
                oe,
                i as int,
                (Prediction {
                    actual_had_claims: Some(had_claims),
                    verified: true,
                    ..oe[i as int]
                }),
            );
        }

        let predicted_positive = predicted_likelihood > self.confidence_threshold;
        let was_correct = predicted_positive == had_claims;
        if was_correct {
            self.correct_predictions = if self.correct_predictions == u64::MAX {
                u64::MAX
            } else {
                self.correct_predictions + 1
            };
        }
        let current_accuracy = self.accuracy();
        self.adjust_threshold();
        let adjusted_confidence = self.calculate_adjusted_confidence(predicted_likelihood);
        VerificationResult {
            was_correct,
            predicted_likelihood,
            actual_had_claims: had_claims,
            current_accuracy,
            adjusted_confidence,
        }
    }

    /// Move the threshold by the exact-rational accuracy tests and clamp it.
    fn adjust_threshold(&mut self)
        requires
            THRESHOLD_FLOOR_BP <= old(self).confidence_threshold <= THRESHOLD_CEIL_BP,
        ensures
            *final(self) == (TruthSyncVerifier {
                confidence_threshold: next_threshold(
                    old(self).confidence_threshold,
                    old(self).correct_predictions as int,
                    old(self).total_predictions as int,
                ),
                ..*old(self)
            }),
    {
        let c = self.correct_predictions as u128;
        let t = self.total_predictions as u128;
        if c * 20 < 17 * t {
            let lowered = self.confidence_threshold * 95 / 100;
            self.confidence_threshold = if lowered < THRESHOLD_FLOOR_BP {
                THRESHOLD_FLOOR_BP
            } else if lowered > THRESHOLD_CEIL_BP {
                THRESHOLD_CEIL_BP
            } else {
                lowered
            };
        } else if c * 20 > 19 * t {
            let raised = self.confidence_threshold * 105 / 100;
            self.confidence_threshold = if raised < THRESHOLD_FLOOR_BP {
                THRESHOLD_FLOOR_BP
            } else if raised > THRESHOLD_CEIL_BP {
                THRESHOLD_CEIL_BP
            } else {
                raised
            };
        }
    }

    /// The accuracy-adjusted confidence for the current counts.
    fn calculate_adjusted_confidence(&self, raw: u32) -> (r: u32)
        requires
            raw <= 10000,
        ensures
            r == adjusted_confidence_bp(
                raw,
                self.correct_predictions as int,
                self.total_predictions as int,
            ),
    {
        if self.total_predictions == 0 {
            // With nothing recorded yet the accuracy is defined as 1.0 and
            // the boost caps the raw value.
            let v = raw as u64 * 43 / 40;
            return if v > 10000 {
                10000
            } else {
                v as u32
            };
        }
        let c = self.correct_predictions as u128;
        let t = self.total_predictions as u128;
        proof {
            let ci = c as int;
            let ti = t as int;
            assert(23 * ti + 20 * ci <= 43 * 0xffff_ffff_ffff_ffffu64);
            assert(raw as int * (23 * ti + 20 * ci) <= 10000 * (43
                * 0xffff_ffff_ffff_ffffu64 as int)) by (nonlinear_arith)
                requires
                    0 <= raw as int <= 10000,
                    0 <= 23 * ti + 20 * ci <= 43 * 0xffff_ffff_ffff_ffffu64 as int,
            ;
        }
        let weight = 23 * t + 20 * c;
        let v = raw as u128 * weight / (40 * t);
        if v > 10000 {
            10000
        } else {
            v as u32
        }
    }

    /// The running counts, the accuracy and the current threshold; the
    /// reported counts are consistent (no more correct than recorded).
    pub fn stats(&self) -> (r: VerificationStats)
        requires
            self.wf(),
        ensures
            r.total_predictions == self.total_predictions,
            r.correct_predictions == self.correct_predictions,
            r.correct_predictions <= r.total_predictions,
            r.accuracy as int == accuracy_bp(
                self.correct_predictions as int,
                self.total_predictions as int,
            ),
            r.current_threshold == self.confidence_threshold,
    {
        VerificationStats {
            total_predictions: self.total_predictions,
            correct_predictions: self.correct_predictions,
            accuracy: self.accuracy(),
            current_threshold: self.confidence_threshold,
        }
    }

    /// Drop every record older than the retention window, verified or not;
    /// counts and threshold stay as they are.
    pub fn cleanup_old(&mut self, now_secs: u64)
        requires
            old(self).wf(),
        ensures
            final(self).wf(),
            final(self).total_predictions == old(self).total_predictions,
            final(self).correct_predictions == old(self).correct_predictions,
            final(self).confidence_threshold == old(self).confidence_threshold,
            final(self).predictions@ == old(self).predictions@.filter(
                (|p: Prediction| record_fresh(p, now_secs)),
            ),
    {
        let ghost oe = old(self).predictions@;
        let ghost pred = |p: Prediction| record_fresh(p, now_secs);
        let mut i: usize = 0;
        let ghost mut k: int = 0;
        while i < self.predictions.len()
            invariant
                old(self).wf(),
                self.total_predictions == old(self).total_predictions,
                self.correct_predictions == old(self).correct_predictions,
                self.confidence_threshold == old(self).confidence_threshold,
                self.min_accuracy_required == old(self).min_accuracy_required,
                pred == (|p: Prediction| record_fresh(p, now_secs)),
                0 <= k <= oe.len(),
                i as int == oe.take(k).filter(pred).len(),
                self.predictions@ == oe.take(k).filter(pred) + oe.skip(k),
            decreases self.predictions@.len() - i,
        {
            proof {
                assert(oe.take(k + 1).drop_last() =~= oe.take(k));
                assert(oe.take(k + 1).last() == oe[k]);
                reveal_with_fuel(Seq::filter, 2);
                assert(oe.take(k + 1).filter(pred) == oe.take(k).filter(pred) + (if pred(oe[k]) {
                    seq![oe[k]]
                } else {
                    Seq::<Prediction>::empty()
                }));
                assert(self.predictions@[i as int] == oe.skip(k)[0]);
                assert(oe.skip(k)[0] == oe[k]);
            }
            let p = &self.predictions[i];
            let age = if now_secs >= p.timestamp {
                now_secs - p.timestamp
            } else {
                0
            };
            if age < RETENTION_SECS {
                proof {
                    assert(pred(oe[k]));
                    assert(self.predictions@ =~= oe.take(k + 1).filter(pred) + oe.skip(k + 1));
                }
                i += 1;
            } else {
                let _stale = self.predictions.remove(i);
                proof {
                    assert(!pred(oe[k]));
                    assert(self.predictions@ =~= oe.take(k + 1).filter(pred) + oe.skip(k + 1));
                }
            }
            proof {
                k = k + 1;
            }
        }
        proof {
            assert(k == oe.len());
            assert(oe.take(k) =~= oe);
            assert(oe.skip(k) =~= Seq::<Prediction>::empty());
            assert(self.predictions@ =~= oe.filter(pred));
            lemma_pfilter_distinct(oe, pred);
            lemma_num_unverified_filter(oe, pred);
            assert forall|j: int|
                0 <= j < self.predictions@.len() implies self.predictions@[j].predicted_likelihood
                <= 10000 by {
                lemma_pfilter_subset(oe, pred, j);
                let w = choose|w: int| 0 <= w < oe.len() && oe[w] == oe.filter(pred)[j];
                assert(oe[w].predicted_likelihood <= 10000);
            }
        }
    }
}

/// Every element of a filtered record sequence stands somewhere in the
/// original and satisfies the predicate.
pub proof fn lemma_pfilter_subset(s: Seq<Prediction>, pred: spec_fn(Prediction) -> bool, j: int)
    requires
        0 <= j < s.filter(pred).len(),
    ensures
        pred(s.filter(pred)[j]),
        exists|w: int| 0 <= w < s.len() && s[w] == s.filter(pred)[j],
    decreases s.len(),
{
    reveal(Seq::filter);
    let f = s.filter(pred);
    let fd = s.drop_last().filter(pred);
    if pred(s.last()) && j == fd.len() {
        assert(f[j] == s.last());
        assert(s[s.len() - 1] == f[j]);
    } else {
        lemma_pfilter_subset(s.drop_last(), pred, j);
        let w = choose|w: int| 0 <= w < s.drop_last().len() && s.drop_last()[w] == fd[j];
        assert(s[w] == f[j]);
    }
}

/// Filtering a record sequence with unique keys keeps the keys unique.
pub proof fn lemma_pfilter_distinct(s: Seq<Prediction>, pred: spec_fn(Prediction) -> bool)
    requires
        pdistinct(s),
    ensures
        pdistinct(s.filter(pred)),
    decreases s.len(),
{
    reveal(Seq::filter);
    if s.len() > 0 {
        lemma_pfilter_distinct(s.drop_last(), pred);
        let f = s.filter(pred);
        let fd = s.drop_last().filter(pred);
        if pred(s.last()) {
            assert(f == fd + seq![s.last()]);
            assert forall|p: int, q: int| 0 <= p < q < f.len() implies f[p].key != f[q].key by {
                if q < fd.len() {
                } else {
                    assert(f[q] == s.last());
                    lemma_pfilter_subset(s.drop_last(), pred, p);
                    let w = choose|w: int| 0 <= w < s.drop_last().len() && s.drop_last()[w]
                        == fd[p];
                    assert(s[w] == fd[p]);
                    assert(s[w].key != s.last().key);
                }
            }
        } else {
            assert(f == fd);
        }
    }
}

/// The decision an engine returns for one input.
#[derive(Debug)]
pub enum ProcessingDecision {
    /// The cache already holds claims for the key.
    CacheHit(Vec<String>),
    /// No cached result; the likelihood clears the threshold, so the caller
    /// should invoke the external classifier.
    Process(u32),
    /// No cached result and the likelihood does not clear the threshold.
    Skip(u32),
}

/// How one decision changes the cache and what it returns: the prediction is
/// recorded, then a cache hit hands the stored claims back (refreshing their
/// recency), and otherwise the likelihood is measured against the threshold
/// that was current when the decision began.
pub open spec fn decide_updates(
    pre: PredictiveCache,
    post: PredictiveCache,
    r: ProcessingDecision,
    key: u64,
    lik: u32,
    threshold: u32,
    now_secs: u64,
) -> bool {
    if has_key(pre.entries@, key) {
        let e = pre.entries@[idx_of(pre.entries@, key)];
        &&& (r matches ProcessingDecision::CacheHit(c) && c@ == e.claims@)
        &&& post.entries@ == get_hit_model(pre.entries@, key, now_secs)
    } else {
        &&& post.entries@ == pre.entries@
        &&& (if lik > threshold {
            r == ProcessingDecision::Process(lik)
        } else {
            r == ProcessingDecision::Skip(lik)
        })
    }
}

/// The integration point: one predictive cache and one verifier behind a
/// decision/update API.
pub struct TruthSyncEngine {
    /// The bounded predictive cache.
    pub cache: PredictiveCache,
    /// The calibration state.
    pub verifier: TruthSyncVerifier,
}

impl TruthSyncEngine {
    /// Both components are well formed.
    pub open spec fn wf(&self) -> bool {
        &&& self.cache.wf()
        &&& self.verifier.wf()
    }

    /// A fresh engine: an empty cache with the given bound and time-to-live,
    /// and a fresh verifier.  This succeeds exactly when the cache bound is
    /// positive and the scorer's automaton builder accepts its pattern sets.
    pub fn new(cache_size: usize, ttl_secs: u64) -> (r: Option<TruthSyncEngine>)
        ensures
            r is Some <==> cache_size >= 1 && ac_build_ok(factual_patterns()) && ac_build_ok(
                opinion_patterns(),
            ),
            r matches Some(e) ==> e.wf() && e.cache.max_entries == cache_size
                && e.cache.ttl_secs == ttl_secs && e.cache.entries@.len() == 0
                && e.verifier.total_predictions == 0 && e.verifier.correct_predictions == 0
                && e.verifier.confidence_threshold == 7000 && e.verifier.predictions@.len() == 0,
    {
        let cache = match PredictiveCache::new(cache_size, ttl_secs) {
            Some(c) => c,
            None => { return None },
        };
        Some(TruthSyncEngine { cache, verifier: TruthSyncVerifier::new() })
    }

    /// Decide what to do with one input: predict its likelihood, record the
    /// prediction, and either hand back the cached claims, or tell the caller
    /// to process (likelihood above the current threshold) or skip it.
    pub fn process_with_verification(&mut self, key: u64, text: &str, now_secs: u64) -> (r:
        ProcessingDecision)
        requires
            old(self).wf(),
        ensures
            final(self).wf(),
            final(self).cache.max_entries == old(self).cache.max_entries,
            final(self).cache.ttl_secs == old(self).cache.ttl_secs,
            final(self).cache.predictor == old(self).cache.predictor,
            record_updates(
                old(self).verifier,
                final(self).verifier,
                key,
                text_likelihood(text),
                now_secs,
            ),
            decide_updates(
                old(self).cache,
                final(self).cache,
                r,
                key,
                text_likelihood(text),
                old(self).verifier.confidence_threshold,
                now_secs,
            ),
    {
        let likelihood = self.cache.predict_claims(text);
        self.verifier.record_prediction(key, likelihood, now_secs);
        match self.cache.get(key, now_secs) {
            Some(cached) => ProcessingDecision::CacheHit(cached),
            None => {
                if likelihood > self.verifier.confidence_threshold {
                    ProcessingDecision::Process(likelihood)
                } else {
                    ProcessingDecision::Skip(likelihood)
                }
            },
        }
    }

    /// Reconcile the prediction for a key against the claims the classifier
    /// produced (the outcome is whether any claim came back), and store the
    /// claims under the key with the verifier's accuracy-adjusted confidence.
    pub fn update_and_verify(&mut self, key: u64, claims: Vec<String>, now_secs: u64) -> (r:
        VerificationResult)
        requires
            old(self).wf(),
        ensures
            final(self).wf(),
            final(self).cache.max_entries == old(self).cache.max_entries,
            final(self).cache.ttl_secs == old(self).cache.ttl_secs,
            final(self).cache.predictor == old(self).cache.predictor,
            !verify_hit(old(self).verifier, key) ==> final(self).verifier == old(self).verifier
                && r == neutral_result(),
            verify_hit(old(self).verifier, key) ==> verify_updates(
                old(self).verifier,
                final(self).verifier,
                r,
                key,
                claims@.len() > 0,
            ),
            final(self).cache.entries@ == put_model(
                old(self).cache.entries@,
                (CachedResult {
                    key,
                    claims,
                    last_access: now_secs,
                    hit_count: 0,
                    confidence: r.adjusted_confidence,
                }),
                old(self).cache.max_entries as nat,
            ),
    {
        let had_claims = claims.len() > 0;
        let verification = self.verifier.verify(key, had_claims);
        self.cache.put(key, claims, verification.adjusted_confidence, now_secs);
        verification
    }
}

/// The combined statistics summary of an engine.
pub open spec fn engine_stats_str(
    entries: nat,
    hit_bp: nat,
    correct: nat,
    total: nat,
    acc_bp: nat,
    thr_bp: nat,
) -> Seq<char> {
    "TruthSync Stats:\nCache: "@ + dec_str(entries) + " entries, "@ + percent1_str(hit_bp)
        + "% hit rate\nPredictions: "@ + dec_str(correct) + "/"@ + dec_str(total) + " correct ("@
        + percent1_str(acc_bp) + "% accuracy)\nThreshold: "@ + unit2_str(thr_bp)
}

impl TruthSyncEngine {
    /// A human-readable summary: cache entries and hit rate, prediction
    /// counts and accuracy, and the current threshold.
    pub fn stats(&self) -> (r: String)
        requires
            self.wf(),
        ensures
            r@ == engine_stats_str(
                self.cache.entries@.len() as nat,
                crate::cache::rate_bp(
                    crate::cache::sum_hits(self.cache.entries@),
                    self.cache.entries@.len() as int,
                ) as nat,
                self.verifier.correct_predictions as nat,
                self.verifier.total_predictions as nat,
                accuracy_bp(
                    self.verifier.correct_predictions as int,
                    self.verifier.total_predictions as int,
                ) as nat,
                self.verifier.confidence_threshold as nat,
            ),
    {
        let cache_stats = self.cache.stats();
        let verify_stats = self.verifier.stats();
        let mut s = "TruthSync Stats:\nCache: ".to_owned();
        s.append(u64_to_string(cache_stats.entries as u64).as_str());
        s.append(" entries, ");
        s.append(percent1_string(cache_stats.hit_rate).as_str());
        s.append("% hit rate\nPredictions: ");
        s.append(u64_to_string(verify_stats.correct_predictions).as_str());
        s.append("/");
        s.append(u64_to_string(verify_stats.total_predictions).as_str());
        s.append(" correct (");
        s.append(percent1_string(verify_stats.accuracy).as_str());
        s.append("% accuracy)\nThreshold: ");
        s.append(unit2_string(verify_stats.current_threshold).as_str());
        s
    }
}

/// Threshold adaptation: while accuracy stays below the required minimum and
/// the threshold sits above its floor, each verification strictly lowers the
/// threshold, and it always stays within `[0.5, 0.9]`.
pub proof fn lemma_threshold_adaptation(thr: u32, correct: int, total: int)
    requires
        THRESHOLD_FLOOR_BP <= thr <= THRESHOLD_CEIL_BP,
        acc_below_min(correct, total),
    ensures
        THRESHOLD_FLOOR_BP <= next_threshold(thr, correct, total) <= THRESHOLD_CEIL_BP,
        thr > THRESHOLD_FLOOR_BP ==> next_threshold(thr, correct, total) < thr,
{
    let product = (thr * 95) as int;
    let lowered = product / 100;
    vstd::arithmetic::div_mod::lemma_fundamental_div_mod(product, 100);
    assert(product == 100 * (product / 100) + product % 100);
    assert(100 * lowered <= product);
    assert(product < 100 * thr);
    assert(lowered < thr);
    assert(lowered >= 0);
}

} // verus!
