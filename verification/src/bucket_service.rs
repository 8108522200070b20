//! The milk bucket behind its shared atomic word: withdrawal and refill.
//!
//! The wall-clock time is captured once per request by the caller and
//! handed in as a plain number, so the whole transition is a pure function
//! and the service needs no clock of its own.

use crate::bucket::MAX_BUCKET_LEVEL;
use crate::bucket::encode_state;
use crate::bucket::spec_encode_state;
use crate::bucket::spec_decode_state;
use crate::bucket::spec_try_withdraw;
use crate::bucket::try_withdraw;
use crate::bucket::BucketState;
use crate::retry::Updated;
use crate::retry::fetch_update;
use core::sync::atomic::AtomicU64;
use core::sync::atomic::Ordering;
use vstd::prelude::*;

verus! {

/// The pure withdrawal transition on packed words.
pub open spec fn withdraw_transition(w: u64, now: u64) -> Option<u64> {
    match spec_try_withdraw(spec_decode_state(w), now) {
        Some(s2) => Some(spec_encode_state(s2.level, s2.last_ms)),
        None => None,
    }
}

/// Every word a withdrawal installs decodes to a well-formed bucket: the
/// level stays within capacity and the stamp is representable. Corrupt
/// state can therefore never enter through this transition.
pub proof fn lemma_withdraw_preserves_wf(w: u64, now: u64)
    ensures
        withdraw_transition(w, now) matches Some(nw) ==> spec_decode_state(nw).wf(),
{
    let s = spec_decode_state(w);
    crate::bucket::lemma_withdraw_preserves_bounds(s, now);
    if withdraw_transition(w, now) is Some {
        let s2 = spec_try_withdraw(s, now)->Some_0;
        crate::bucket::lemma_bucket_round_trip(s2.level, s2.last_ms);
        let nw = spec_encode_state(s2.level, s2.last_ms);
        assert(nw & 0xFFFF_FFFF_FFFF_FF00u64 & 0xFFu64 == 0) by (bit_vector);
    }
}

/// The word a refill installs decodes to a well-formed bucket as well.
pub proof fn lemma_refill_preserves_wf(now: u64)
    ensures
        spec_decode_state(spec_encode_state(MAX_BUCKET_LEVEL, now)).wf(),
{
    crate::bucket::lemma_bucket_round_trip(MAX_BUCKET_LEVEL, now);
    let nw = spec_encode_state(MAX_BUCKET_LEVEL, now);
    assert(nw & 0xFFFF_FFFF_FFFF_FF00u64 & 0xFFu64 == 0) by (bit_vector);
}

/// How a withdrawal request ends.
pub enum WithdrawOutcome {
    /// One unit was withdrawn; the packed word the bucket now holds.
    Withdrawn(u64),
    /// The bucket was empty with no refill due; nothing was written.
    Empty,
    /// The whole retry budget was lost to concurrent writers.
    Busy,
}

/// A process-wide bucket: level and refill stamp packed into one atomic
/// word, read and written by any number of request handlers without a
/// lock.
pub struct BucketHandle {
    word: AtomicU64,
}

impl BucketHandle {
    /// A fresh handle: empty bucket, stamp at the epoch.
    pub fn new() -> BucketHandle {
        BucketHandle { word: AtomicU64::new(0) }
    }

    /// Withdraws one unit at wall-clock time `now`, refilling by the time
    /// elapsed since the stored stamp first. Every installed word is the
    /// pure withdrawal transition of a word the bucket really held, so
    /// concurrent withdrawals can never spend the same unit twice.
    pub fn withdraw(&self, now: u64) -> (r: WithdrawOutcome)
        ensures
            r matches WithdrawOutcome::Withdrawn(nw) ==> exists|w: u64|
                #[trigger] withdraw_transition(w, now) == Some(nw),
            r is Empty ==> exists|w: u64| #[trigger] withdraw_transition(w, now) is None,
    {
        let trans = |w: u64| -> (o: Option<u64>)
            ensures
                o == withdraw_transition(w, now),
            {
                let (level, last_ms) = crate::bucket::decode_state(w);
                match try_withdraw(BucketState { level, last_ms }, now) {
                    Some(s2) => Some(encode_state(s2.level, s2.last_ms)),
                    None => None,
                }
            };
        match fetch_update(&self.word, trans) {
            Updated::Done(_, installed) => WithdrawOutcome::Withdrawn(installed),
            Updated::Declined(_) => WithdrawOutcome::Empty,
            Updated::Contended => WithdrawOutcome::Busy,
        }
    }

    /// Unconditionally refills the bucket to capacity, stamped `now`, and
    /// reports the installed word.
    pub fn refill(&self, now: u64) -> (r: u64)
        ensures
            r == spec_encode_state(MAX_BUCKET_LEVEL, now),
    {
        let w = encode_state(MAX_BUCKET_LEVEL, now);
        self.word.swap(w, Ordering::AcqRel);
        w
    }

    /// The packed word currently observed; for inspection only, stale the
    /// moment it returns.
    pub fn peek(&self) -> u64 {
        self.word.load(Ordering::Acquire)
    }
}

} // verus!
