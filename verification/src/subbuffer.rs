//! Channel pool with predictive pre-caching: an ordered set of input
//! channels and an ordered set of output channels, each written and read in
//! round-robin order, in front of one predictive cache.
//!
//! An input is keyed by a 64-bit FNV-1a fingerprint of its bytes.  A cached
//! key is answered directly on the output side (the fast path); everything
//! else is framed onto the next input channel for the external classifier.

use crate::buffer::{spec_write_region, Channel, ChannelError, GET_RESULTS, HEADER_SIZE,
    PROCESS_TEXT};
use crate::automaton::ac_build_ok;
use crate::cache::{
    factual_patterns,
    get_hit_model,
    opinion_patterns,
    has_key,
    idx_of,
    put_model,
    rate_bp,
    sum_confidence,
    sum_hits,
    CacheStats,
    CachedResult,
    PredictiveCache,
};
use crate::numfmt::{dec_str, percent1_str, percent1_string, u64_to_string, unit2_str,
    unit2_string};
use vstd::prelude::*;
use vstd::string::StringExecFns;
use vstd::string::StringSliceAdditionalSpecFns;

verus! {

/// The FNV-1a offset basis.
pub const FNV_OFFSET: u64 = 0xcbf2_9ce4_8422_2325;

/// The FNV-1a prime.
pub const FNV_PRIME: u64 = 0x100_0000_01b3;

/// One FNV-1a step: fold a byte in and multiply by the prime (wrapping).
pub open spec fn fnv1a_step(h: u64, b: u8) -> u64 {
    (h ^ b as u64).wrapping_mul(FNV_PRIME)
}

/// The 64-bit FNV-1a fingerprint of a byte sequence.
pub open spec fn fnv1a_hash(bytes: Seq<u8>) -> u64
    decreases bytes.len(),
{
    if bytes.len() == 0 {
        FNV_OFFSET
    } else {
        fnv1a_step(fnv1a_hash(bytes.drop_last()), bytes.last())
    }
}

/// The content key of a text: the FNV-1a fingerprint of its bytes.
pub open spec fn text_key(t: &str) -> u64 {
    fnv1a_hash(t.spec_bytes())
}

/// Claims serialized for the wire: their byte images joined by newlines.
pub open spec fn joined_bytes(claims: Seq<String>) -> Seq<u8>
    decreases claims.len(),
{
    if claims.len() == 0 {
        seq![]
    } else if claims.len() == 1 {
        string_bytes(claims[0])
    } else {
        joined_bytes(claims.drop_last()) + seq![10u8] + string_bytes(claims.last())
    }
}

/// A round-robin cursor, advanced modulo the pool size.
pub open spec fn advance(cur: int, len: int) -> int
    recommends
        len > 0,
{
    (cur + 1) % len
}

/// The byte image of a `String`.
pub open spec fn string_bytes(s: String) -> Seq<u8> {
    vstd::utf8::encode_utf8(s@)
}

/// Sub-buffer manager: the channel pool plus its cache.
pub struct SubBufferManager {
    /// Input channels, written in round-robin order.
    pub input_buffers: Vec<Channel>,
    /// Output channels, written (fast path) and read in round-robin order.
    pub output_buffers: Vec<Channel>,
    /// The predictive cache consulted before any channel work.
    pub cache: PredictiveCache,
    /// Cursor into the input channels.
    pub current_input: usize,
    /// Cursor into the output channels.
    pub current_output: usize,
}

/// Compute the 64-bit FNV-1a fingerprint of a byte slice.
fn fnv1a(bytes: &[u8]) -> (r: u64)
    ensures
        r == fnv1a_hash(bytes@),
{
    let mut h: u64 = FNV_OFFSET;
    let mut i: usize = 0;
    while i < bytes.len()
        invariant
            i <= bytes@.len(),
            h == fnv1a_hash(bytes@.take(i as int)),
        decreases bytes@.len() - i,
    {
        let b = *vstd::slice::slice_index_get(bytes, i);
        h = (h ^ b as u64).wrapping_mul(FNV_PRIME);
        proof {
            assert(bytes@.take(i + 1).drop_last() =~= bytes@.take(i as int));
            assert(bytes@.take(i + 1).last() == bytes@[i as int]);
        }
        i += 1;
    }
    proof {
        assert(bytes@.take(bytes@.len() as int) =~= bytes@);
    }
    h
}

/// Serialize claims for the wire: byte images joined by newlines.
fn join_claims(claims: &Vec<String>) -> (r: Vec<u8>)
    ensures
        r@ == joined_bytes(claims@),
{
    let mut r: Vec<u8> = Vec::new();
    let mut i: usize = 0;
    while i < claims.len()
        invariant
            i <= claims@.len(),
            r@ == joined_bytes(claims@.take(i as int)),
        decreases claims@.len() - i,
    {
        if i > 0 {
            r.push(10u8);
        }
        let bytes = claims[i].as_str().as_bytes();
        r.extend_from_slice(bytes);
        proof {
            assert(claims@.take(i + 1).drop_last() =~= claims@.take(i as int));
            assert(claims@.take(i + 1).last() == claims@[i as int]);
            if i == 0 {
                assert(r@ =~= joined_bytes(claims@.take(1)));
            } else {
                assert(r@ =~= joined_bytes(claims@.take(i + 1)));
            }
        }
        i += 1;
    }
    proof {
        assert(claims@.take(claims@.len() as int) =~= claims@);
    }
    r
}

/// Everything of a pool except one output channel and its cursor stands as
/// it was; the addressed channel holds the given frame and the cursor moved
/// on.
pub open spec fn output_written(
    pre: SubBufferManager,
    post: SubBufferManager,
    kind: u16,
    data: Seq<u8>,
) -> bool {
    let cur = pre.current_output as int;
    &&& post.output_buffers@.len() == pre.output_buffers@.len()
    &&& post.output_buffers@[cur].region@ == spec_write_region(
        pre.output_buffers@[cur].region@,
        kind,
        data,
    )
    &&& post.output_buffers@[cur].capacity == pre.output_buffers@[cur].capacity
    &&& forall|j: int|
        0 <= j < pre.output_buffers@.len() && j != cur ==> post.output_buffers@[j]
            == pre.output_buffers@[j]
    &&& post.current_output as int == advance(cur, pre.output_buffers@.len() as int)
}

impl SubBufferManager {
    /// Pools are non-empty, cursors in range, channels well formed, cache
    /// well formed.
    pub open spec fn wf(&self) -> bool {
        &&& self.input_buffers@.len() > 0
        &&& self.output_buffers@.len() > 0
        &&& self.current_input < self.input_buffers@.len()
        &&& self.current_output < self.output_buffers@.len()
        &&& forall|i: int| 0 <= i < self.input_buffers@.len() ==> self.input_buffers@[i].wf()
        &&& forall|i: int| 0 <= i < self.output_buffers@.len() ==> self.output_buffers@[i].wf()
        &&& self.cache.wf()
    }

    /// A pool of `num_input_buffers` input and `num_output_buffers` output
    /// channels of the given payload capacity, with an empty cache of 10000
    /// entries and a 300-second time-to-live.  Construction succeeds exactly
    /// when both pools are non-empty (a zero pool is a configuration error)
    /// and the cache's automaton builder accepts its pattern sets; any
    /// failure is `AllocationError`.
    pub fn new(num_input_buffers: usize, num_output_buffers: usize, buffer_size: usize) -> (r:
        Result<SubBufferManager, ChannelError>)
        requires
            buffer_size <= u32::MAX,
            crate::buffer::CONTROL_SIZE + buffer_size <= usize::MAX,
        ensures
            r is Ok <==> num_input_buffers > 0 && num_output_buffers > 0 && ac_build_ok(
                factual_patterns(),
            ) && ac_build_ok(opinion_patterns()),
            r is Err ==> r == Err::<SubBufferManager, ChannelError>(ChannelError::AllocationError),
            r matches Ok(m) ==> m.wf() && m.input_buffers@.len() == num_input_buffers
                && m.output_buffers@.len() == num_output_buffers && m.current_input == 0
                && m.current_output == 0 && m.cache.entries@.len() == 0 && m.cache.max_entries
                == 10000 && m.cache.ttl_secs == 300 && (forall|i: int|
                0 <= i < num_input_buffers ==> m.input_buffers@[i].capacity == buffer_size) && (
            forall|i: int|
                0 <= i < num_output_buffers ==> m.output_buffers@[i].capacity == buffer_size),
    {
        if num_input_buffers == 0 || num_output_buffers == 0 {
            return Err(ChannelError::AllocationError);
        }
        let cache = match PredictiveCache::new(10000, 300) {
            Some(c) => c,
            None => { return Err(ChannelError::AllocationError) },
        };
        let mut input_buffers: Vec<Channel> = Vec::new();
        let mut i: usize = 0;
        while i < num_input_buffers
            invariant
                i <= num_input_buffers,
                input_buffers@.len() == i,
                buffer_size <= u32::MAX,
                crate::buffer::CONTROL_SIZE + buffer_size <= usize::MAX,
                forall|j: int|
                    0 <= j < i ==> input_buffers@[j].wf() && input_buffers@[j].capacity
                        == buffer_size,
            decreases num_input_buffers - i,
        {
            input_buffers.push(Channel::new(buffer_size));
            i += 1;
        }
        let mut output_buffers: Vec<Channel> = Vec::new();
        let mut i: usize = 0;
        while i < num_output_buffers
            invariant
                i <= num_output_buffers,
                output_buffers@.len() == i,
                buffer_size <= u32::MAX,
                crate::buffer::CONTROL_SIZE + buffer_size <= usize::MAX,
                forall|j: int|
                    0 <= j < i ==> output_buffers@[j].wf() && output_buffers@[j].capacity
                        == buffer_size,
            decreases num_output_buffers - i,
        {
            output_buffers.push(Channel::new(buffer_size));
            i += 1;
        }
        Ok(
            SubBufferManager {
                input_buffers,
                output_buffers,
                cache,
                current_input: 0,
                current_output: 0,
            },
        )
    }

    /// Serialize cached claims onto the next output channel as a
    /// `GET_RESULTS` frame: the fast path for cache hits.
    #[verifier::rlimit(100)]
    #[verifier::spinoff_prover]
    fn write_output_cached(&mut self, _key: u64, claims: &Vec<String>) -> (r: Result<
        (),
        ChannelError,
    >)
        requires
            old(self).wf(),
        ensures
            final(self).wf(),
            final(self).input_buffers@ == old(self).input_buffers@,
            final(self).current_input == old(self).current_input,
            final(self).cache == old(self).cache,
            ({
                let data = joined_bytes(claims@);
                let cap = old(self).output_buffers@[old(self).current_output as int].capacity;
                if data.len() + HEADER_SIZE <= cap {
                    r == Ok::<(), ChannelError>(()) && output_written(
                        *old(self),
                        *final(self),
                        GET_RESULTS,
                        data,
                    )
                } else {
                    &&& r == Err::<(), ChannelError>(ChannelError::PayloadTooLarge)
                    &&& final(self).output_buffers@ == old(self).output_buffers@
                    &&& final(self).current_output == old(self).current_output
                }
            }),
    {
        let data = join_claims(claims);
        let idx = self.current_output;
        let mut ch = self.output_buffers.remove(idx);
        let res = ch.write(GET_RESULTS, data.as_slice());
        self.output_buffers.insert(idx, ch);
        proof {
            assert(self.output_buffers@ =~= old(self).output_buffers@.update(
                idx as int,
                self.output_buffers@[idx as int],
            ));
        }
        match res {
            Ok(()) => {
                let n = self.output_buffers.len();
                self.current_output = (self.current_output + 1) % n;
                Ok(())
            },
            Err(e) => {
                proof {
                    assert(self.output_buffers@ =~= old(self).output_buffers@);
                }
                Err(e)
            },
        }
    }

    /// Handle one input: compute its content key, answer a cache hit
    /// directly on the output side, and otherwise frame the text onto the
    /// next input channel as a `PROCESS_TEXT` frame.  The key comes back so
    /// the caller can reconcile the result later; an unread frame on the
    /// addressed channel is simply overwritten.
    #[verifier::rlimit(100)]
    pub fn write_input(&mut self, text: &str, now_secs: u64) -> (r: Result<u64, ChannelError>)
        requires
            old(self).wf(),
        ensures
            final(self).wf(),
            write_input_updates(*old(self), *final(self), r, text, now_secs),
    {
        let key = fnv1a(text.as_bytes());
        let cached = self.cache.get(key, now_secs);
        match cached {
            Some(claims) => {
                let res = self.write_output_cached(key, &claims);
                proof {
                    reveal(write_input_updates);
                    assert(claims@ == old(self).cache.entries@[idx_of(
                        old(self).cache.entries@,
                        key,
                    )].claims@);
                }
                match res {
                    Ok(()) => Ok(key),
                    Err(e) => Err(e),
                }
            },
            None => {
                proof {
                    reveal(write_input_updates);
                }
                let idx = self.current_input;
                let mut ch = self.input_buffers.remove(idx);
                let res = ch.write(PROCESS_TEXT, text.as_bytes());
                self.input_buffers.insert(idx, ch);
                proof {
                    assert(self.input_buffers@ =~= old(self).input_buffers@.update(
                        idx as int,
                        self.input_buffers@[idx as int],
                    ));
                }
                match res {
                    Ok(()) => {
                        let n = self.input_buffers.len();
                        self.current_input = (self.current_input + 1) % n;
                        Ok(key)
                    },
                    Err(e) => {
                        proof {
                            assert(self.input_buffers@ =~= old(self).input_buffers@);
                        }
                        Err(e)
                    },
                }
            },
        }
    }

    /// Read whatever frame is present on the next output channel.  The
    /// cursor advances past the channel only when a well-formed frame was
    /// read; a torn or never-written slot gives `InvalidFrame` and leaves the
    /// pool as it was, and the caller should treat it as "no data yet".
    pub fn read_output(&mut self) -> (r: Result<(u16, Vec<u8>), ChannelError>)
        requires
            old(self).wf(),
        ensures
            final(self).wf(),
            ({
                let cur = old(self).current_output as int;
                let ch = old(self).output_buffers@[cur];
                let stored = crate::buffer::spec_read_region(ch.region@, ch.capacity as nat);
                match r {
                    Ok(p) => {
                        &&& stored == Some((p.0, p.1@))
                        &&& final(self).current_output as int == advance(
                            cur,
                            old(self).output_buffers@.len() as int,
                        )
                        &&& final(self).output_buffers@ == old(self).output_buffers@
                        &&& final(self).input_buffers@ == old(self).input_buffers@
                        &&& final(self).current_input == old(self).current_input
                        &&& final(self).cache == old(self).cache
                    },
                    Err(e) => {
                        &&& e == ChannelError::InvalidFrame
                        &&& (stored is None)
                        &&& *final(self) == *old(self)
                    },
                }
            }),
    {
        let idx = self.current_output;
        let result = self.output_buffers[idx].read();
        match result {
            Ok(p) => {
                let n = self.output_buffers.len();
                assert(self.current_output < n);
                self.current_output = (self.current_output + 1) % n;
                Ok(p)
            },
            Err(e) => Err(e),
        }
    }

    /// Store a processed result in the cache under its key.
    pub fn update_cache(&mut self, key: u64, claims: Vec<String>, confidence: u32, now_secs: u64)
        requires
            old(self).wf(),
        ensures
            final(self).wf(),
            final(self).input_buffers@ == old(self).input_buffers@,
            final(self).output_buffers@ == old(self).output_buffers@,
            final(self).current_input == old(self).current_input,
            final(self).current_output == old(self).current_output,
            final(self).cache.entries@ == put_model(
                old(self).cache.entries@,
                (CachedResult {
                    key,
                    claims,
                    last_access: now_secs,
                    hit_count: 0,
                    confidence,
                }),
                old(self).cache.max_entries as nat,
            ),
    {
        self.cache.put(key, claims, confidence, now_secs);
    }

    /// Key a batch of texts and score them as pre-warming candidates; the
    /// scoring is advisory and nothing changes.
    pub fn prewarm_batch(&mut self, texts: Vec<String>)
        requires
            old(self).wf(),
        ensures
            *final(self) == *old(self),
    {
        let mut keyed: Vec<(u64, String)> = Vec::new();
        let mut i: usize = 0;
        let texts_len = texts.len();
        let mut remaining = texts;
        while i < texts_len
            invariant
                self == old(self),
                old(self).wf(),
                i <= texts_len,
                remaining@.len() + i == texts_len,
            decreases texts_len - i,
        {
            if remaining.len() > 0 {
                let t = remaining.remove(0);
                let key = fnv1a(t.as_str().as_bytes());
                keyed.push((key, t));
            }
            i += 1;
        }
        self.cache.prewarm(keyed.as_slice());
    }

    /// Entry count, hits, hit rate and average confidence, as one line.
    pub fn cache_stats(&self) -> (r: String)
        requires
            self.wf(),
        ensures
            r@ == pool_stats_str(
                self.cache.entries@.len() as nat,
                (if sum_hits(self.cache.entries@) <= u64::MAX {
                    sum_hits(self.cache.entries@)
                } else {
                    u64::MAX as int
                }) as nat,
                rate_bp(sum_hits(self.cache.entries@), self.cache.entries@.len() as int) as nat,
                (if self.cache.entries@.len() == 0 {
                    0
                } else {
                    sum_confidence(self.cache.entries@) / self.cache.entries@.len() as int
                }) as nat,
            ),
    {
        let stats: CacheStats = self.cache.stats();
        let mut s = "Cache: ".to_owned();
        s.append(u64_to_string(stats.entries as u64).as_str());
        s.append(" entries, ");
        s.append(u64_to_string(stats.total_hits).as_str());
        s.append(" hits, ");
        s.append(percent1_string(stats.hit_rate).as_str());
        s.append("% hit rate, ");
        s.append(unit2_string(stats.avg_confidence).as_str());
        s.append(" avg confidence");
        s
    }

    /// How many input channels the pool owns.
    pub fn num_input_buffers(&self) -> (r: usize)
        ensures
            r == self.input_buffers@.len(),
    {
        self.input_buffers.len()
    }

    /// How many output channels the pool owns.
    pub fn num_output_buffers(&self) -> (r: usize)
        ensures
            r == self.output_buffers@.len(),
    {
        self.output_buffers.len()
    }
}

/// The cache statistics line.
pub open spec fn pool_stats_str(entries: nat, hits: nat, rate: nat, avg: nat) -> Seq<char> {
    "Cache: "@ + dec_str(entries) + " entries, "@ + dec_str(hits) + " hits, "@ + percent1_str(
        rate,
    ) + "% hit rate, "@ + unit2_str(avg) + " avg confidence"@
}

/// How one input changes the pool: on a cache hit the entry's recency is
/// refreshed and the joined claims go out as a `GET_RESULTS` frame (unless
/// they do not fit the output channel); on a miss the text goes onto the next
/// input channel as a `PROCESS_TEXT` frame (unless it does not fit).  The
/// content key comes back on success.
#[verifier::opaque]
pub open spec fn write_input_updates(
    pre: SubBufferManager,
    post: SubBufferManager,
    r: Result<u64, ChannelError>,
    text: &str,
    now_secs: u64,
) -> bool {
    let key = text_key(text);
    if has_key(pre.cache.entries@, key) {
        let e = pre.cache.entries@[idx_of(pre.cache.entries@, key)];
        let data = joined_bytes(e.claims@);
        let cap = pre.output_buffers@[pre.current_output as int].capacity;
        &&& post.cache.entries@ == get_hit_model(pre.cache.entries@, key, now_secs)
        &&& post.input_buffers@ == pre.input_buffers@
        &&& post.current_input == pre.current_input
        &&& (if data.len() + HEADER_SIZE <= cap {
            r == Ok::<u64, ChannelError>(key) && output_written(pre, post, GET_RESULTS, data)
        } else {
            &&& r == Err::<u64, ChannelError>(ChannelError::PayloadTooLarge)
            &&& post.output_buffers@ == pre.output_buffers@
            &&& post.current_output == pre.current_output
        })
    } else {
        let data = text.spec_bytes();
        let cur = pre.current_input as int;
        let cap = pre.input_buffers@[cur].capacity;
        &&& post.cache.entries@ == pre.cache.entries@
        &&& post.output_buffers@ == pre.output_buffers@
        &&& post.current_output == pre.current_output
        &&& (if data.len() + HEADER_SIZE <= cap {
            &&& r == Ok::<u64, ChannelError>(key)
            &&& post.input_buffers@.len() == pre.input_buffers@.len()
            &&& post.input_buffers@[cur].region@ == spec_write_region(
                pre.input_buffers@[cur].region@,
                PROCESS_TEXT,
                data,
            )
            &&& post.input_buffers@[cur].capacity == cap
            &&& (forall|j: int|
                0 <= j < pre.input_buffers@.len() && j != cur ==> post.input_buffers@[j]
                    == pre.input_buffers@[j])
            &&& post.current_input as int == advance(cur, pre.input_buffers@.len() as int)
        } else {
            &&& r == Err::<u64, ChannelError>(ChannelError::PayloadTooLarge)
            &&& post.input_buffers@ == pre.input_buffers@
            &&& post.current_input == pre.current_input
        })
    }
}

} // verus!
