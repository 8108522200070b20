//! The leaky-bucket milk counter, packed into one 64-bit word.
//!
//! The low byte of the word holds the fill level; the remaining 56 bits hold
//! the wall-clock millisecond stamp of the last accepted transition, with its
//! own low byte cleared. The stamp therefore loses its lowest 8 bits: stored
//! times are rounded down to a multiple of 256 ms. That loss is part of the
//! encoding's contract, not an accident.

use vstd::prelude::*;

verus! {

/// Greatest fill level a bucket can hold.
pub const MAX_BUCKET_LEVEL: u8 = 5;

/// Milliseconds of elapsed time that refill one unit.
pub const REFILL_INTERVAL_MS: u64 = 1000;

/// Mask selecting the 56 stamp bits of a packed bucket word.
pub const STAMP_MASK: u64 = 0xFFFF_FFFF_FFFF_FF00;

/// A bucket's state: fill level plus the wall-clock millisecond stamp of the
/// last accepted transition.
#[derive(Copy, Clone, PartialEq, Eq, Structural, Debug)]
pub struct BucketState {
    pub level: u8,
    pub last_ms: u64,
}

impl BucketState {
    /// The process-wide invariant: the level never exceeds the capacity, and
    /// the stamp is one the packed encoding can represent.
    pub open spec fn wf(self) -> bool {
        self.level <= MAX_BUCKET_LEVEL && self.last_ms & 0xFF == 0
    }
}

/// The packed form of a level and a stamp: stamp bits above the low byte,
/// level in the low byte.
pub open spec fn spec_encode_state(level: u8, timestamp_ms: u64) -> u64 {
    (timestamp_ms & STAMP_MASK) | (level as u64)
}

/// The level a packed word holds.
pub open spec fn spec_level_of(word: u64) -> u8 {
    (word & 0xFF) as u8
}

/// The stamp a packed word holds (always a multiple of 256).
pub open spec fn spec_stamp_of(word: u64) -> u64 {
    word & STAMP_MASK
}

/// The state a packed word holds.
pub open spec fn spec_decode_state(word: u64) -> BucketState {
    BucketState { level: spec_level_of(word), last_ms: spec_stamp_of(word) }
}

/// Packs a level and a millisecond stamp into one word. The stamp's low byte
/// is discarded to make room for the level.
pub fn encode_state(bucket_size: u8, timestamp_ms: u64) -> (r: u64)
    ensures
        r == spec_encode_state(bucket_size, timestamp_ms),
{
    (timestamp_ms & STAMP_MASK) | (bucket_size as u64)
}

/// Unpacks a word into its level and its stamp.
pub fn decode_state(state: u64) -> (r: (u8, u64))
    ensures
        r.0 == spec_level_of(state),
        r.1 == spec_stamp_of(state),
        r.0 == spec_decode_state(state).level,
        r.1 == spec_decode_state(state).last_ms,
{
    proof {
        assert(state & 0xFF < 256) by (bit_vector);
    }
    ((state & 0xFF) as u8, state & STAMP_MASK)
}

/// Encoding and decoding are mutually inverse wherever a state is
/// representable at all: any level round-trips, and a stamp round-trips
/// exactly when it is a multiple of 256. In general the decoded stamp is the
/// encoded one rounded down to a multiple of 256.
pub proof fn lemma_bucket_round_trip(level: u8, timestamp_ms: u64)
    ensures
        spec_level_of(spec_encode_state(level, timestamp_ms)) == level,
        spec_stamp_of(spec_encode_state(level, timestamp_ms)) == timestamp_ms & STAMP_MASK,
        timestamp_ms & 0xFF == 0 ==> spec_stamp_of(spec_encode_state(level, timestamp_ms))
            == timestamp_ms,
{
    let w = spec_encode_state(level, timestamp_ms);
    assert(((timestamp_ms & 0xFFFF_FFFF_FFFF_FF00u64) | (level as u64)) & 0xFF == level as u64)
        by (bit_vector);
    assert(((timestamp_ms & 0xFFFF_FFFF_FFFF_FF00u64) | (level as u64)) & 0xFFFF_FFFF_FFFF_FF00u64
        == timestamp_ms & 0xFFFF_FFFF_FFFF_FF00u64) by (bit_vector)
        requires level as u64 <= 255u64;
    assert(timestamp_ms & 0xFF == 0 ==> timestamp_ms & 0xFFFF_FFFF_FFFF_FF00u64 == timestamp_ms)
        by (bit_vector);
}

/// A packed word round-trips through decode and encode unchanged.
pub proof fn lemma_bucket_word_round_trip(word: u64)
    ensures
        spec_encode_state(spec_level_of(word), spec_stamp_of(word)) == word,
{
    assert(((word & 0xFFFF_FFFF_FFFF_FF00u64) & 0xFFFF_FFFF_FFFF_FF00u64) | (word & 0xFFu64)
        == word) by (bit_vector);
    assert(word & 0xFF < 256) by (bit_vector);
}

/// How many units elapsed time refills: one per full refill interval,
/// capped at the capacity. Elapsed time is clamped at zero, so a stamp that
/// lies in the future (only possible if the wall clock ran backwards)
/// refills nothing.
pub open spec fn spec_refill_units(s: BucketState, now: u64) -> u64 {
    let elapsed = if now >= s.last_ms { (now - s.last_ms) as u64 } else { 0u64 };
    let units = elapsed / REFILL_INTERVAL_MS;
    if units > MAX_BUCKET_LEVEL as u64 {
        MAX_BUCKET_LEVEL as u64
    } else {
        units
    }
}

/// The pure withdrawal transition: refill by elapsed time, clamp at the
/// capacity, then take one unit and stamp `now`. Fails exactly when the
/// bucket is empty and no refill interval has passed.
pub open spec fn spec_try_withdraw(s: BucketState, now: u64) -> Option<BucketState> {
    let refill = spec_refill_units(s, now);
    if s.level == 0 && refill == 0 {
        None
    } else {
        let candidate = if s.level as u64 + refill > MAX_BUCKET_LEVEL as u64 {
            MAX_BUCKET_LEVEL as u64
        } else {
            (s.level as u64 + refill) as u64
        };
        Some(BucketState { level: (candidate - 1) as u8, last_ms: now })
    }
}

/// Attempts one withdrawal against `s` as observed at time `now`.
///
/// This is a pure function of its arguments: re-running it after a lost
/// compare-and-swap race is always correct.
pub fn try_withdraw(s: BucketState, now: u64) -> (r: Option<BucketState>)
    ensures
        r == spec_try_withdraw(s, now),
{
    let elapsed: u64 = if now >= s.last_ms {
        now - s.last_ms
    } else {
        0
    };
    let units: u64 = elapsed / REFILL_INTERVAL_MS;
    let refill: u64 = if units > MAX_BUCKET_LEVEL as u64 {
        MAX_BUCKET_LEVEL as u64
    } else {
        units
    };
    if s.level == 0 && refill == 0 {
        None
    } else {
        let candidate: u64 = if s.level as u64 + refill > MAX_BUCKET_LEVEL as u64 {
            MAX_BUCKET_LEVEL as u64
        } else {
            s.level as u64 + refill
        };
        Some(BucketState { level: (candidate - 1) as u8, last_ms: now })
    }
}

/// The state a refill installs: a full bucket stamped `now`.
pub fn refill_state(now: u64) -> (r: BucketState)
    ensures
        r.level == MAX_BUCKET_LEVEL,
        r.last_ms == now,
{
    BucketState { level: MAX_BUCKET_LEVEL, last_ms: now }
}

/// A successful withdrawal keeps the level within capacity and never moves
/// the stamp backwards while the clock is monotone, so the bucket invariant
/// survives every accepted transition.
pub proof fn lemma_withdraw_preserves_bounds(s: BucketState, now: u64)
    ensures
        spec_try_withdraw(s, now) matches Some(s2) ==> s2.level < MAX_BUCKET_LEVEL,
        spec_try_withdraw(s, now) matches Some(s2) ==> (now >= s.last_ms ==> s2.last_ms
            >= s.last_ms),
{
}

/// The state after `k` back-to-back withdrawals, each at the stored stamp
/// (no time passing between them), where every attempt must succeed.
pub open spec fn spec_withdraw_n(s: BucketState, k: int) -> Option<BucketState>
    decreases k,
{
    if k <= 0 {
        Some(s)
    } else {
        match spec_withdraw_n(s, k - 1) {
            Some(t) => spec_try_withdraw(t, t.last_ms),
            None => None,
        }
    }
}

/// Back-to-back withdrawals with no time passing spend the stored units
/// one for one: from a well-formed bucket, exactly `level` of them succeed
/// — the k-th leaves `level - k` units — and every further one fails. No
/// chain of transitions can spend a unit twice.
pub proof fn lemma_withdraw_chain(s: BucketState, k: int)
    requires
        s.wf(),
        0 <= k,
    ensures
        k <= s.level ==> spec_withdraw_n(s, k) == Some(
            BucketState { level: (s.level - k) as u8, last_ms: s.last_ms },
        ),
        k > s.level ==> spec_withdraw_n(s, k) is None,
    decreases k,
{
    if k > 0 {
        lemma_withdraw_chain(s, k - 1);
        if k <= s.level {
            let t = BucketState { level: (s.level - (k - 1)) as u8, last_ms: s.last_ms };
            lemma_withdraw_no_refill(t, t.last_ms);
        } else if k - 1 == s.level {
            let t = BucketState { level: 0, last_ms: s.last_ms };
            lemma_withdraw_no_refill(t, t.last_ms);
        }
    }
}

/// With no time passing, withdrawals conserve units exactly: from a
/// well-formed state a withdrawal at the stored stamp succeeds if and only
/// if a unit is present, and a success takes exactly one unit. No two
/// successes can spend the same unit, because each success's output level is
/// one below its observed input level.
pub proof fn lemma_withdraw_no_refill(s: BucketState, now: u64)
    requires
        s.level <= MAX_BUCKET_LEVEL,
        now >= s.last_ms,
        now - s.last_ms < REFILL_INTERVAL_MS,
    ensures
        s.level == 0 ==> spec_try_withdraw(s, now) is None,
        s.level > 0 ==> spec_try_withdraw(s, now) == Some(
            BucketState { level: (s.level - 1) as u8, last_ms: now },
        ),
{
    assert(spec_refill_units(s, now) == 0) by {
        let elapsed = (now - s.last_ms) as u64;
        assert(elapsed / REFILL_INTERVAL_MS == 0);
    }
}

} // verus!
