//! The shared lock-free update primitive: an atomic word plus a pure
//! transition function, applied through a compare-and-swap retry loop.

use core::sync::atomic::AtomicU64;
use core::sync::atomic::Ordering;
use vstd::prelude::*;

verus! {

/// How many compare-and-swap attempts an update may spend before giving
/// up. A retry is only ever needed when another writer changed the word
/// between the load and the swap, so under any realistic contention the
/// budget is never approached.
pub const RETRY_BUDGET: u64 = 1_000_000;

/// What became of an atomic update attempt.
pub enum Updated {
    /// The transition was installed: the observed word and the word that
    /// replaced it.
    Done(u64, u64),
    /// The transition declined the observed word; nothing was written.
    Declined(u64),
    /// Every attempt in the budget lost its race; nothing was written.
    Contended,
}

/// Atomically replaces the word held by `cell` by the value the pure
/// transition `f` derives from it.
///
/// The word is loaded, `f` is applied to it, and the result is installed by
/// compare-and-swap; a lost race reloads and recomputes, so every installed
/// value is `f` of a value the cell really held at the load. A `None` from
/// `f` means the request cannot proceed against the observed state — not a
/// concurrency failure — and is reported with the observed word. No lock is
/// held at any point.
pub fn fetch_update<F: Fn(u64) -> Option<u64>>(cell: &AtomicU64, f: F) -> (r: Updated)
    requires
        forall|w: u64| call_requires(f, (w,)),
    ensures
        r matches Updated::Done(observed, installed) ==> call_ensures(
            f,
            (observed,),
            Some(installed),
        ),
        r matches Updated::Declined(observed) ==> call_ensures(f, (observed,), None::<u64>),
{
    let mut attempts: u64 = 0;
    while attempts < RETRY_BUDGET
        invariant
            forall|w: u64| call_requires(f, (w,)),
        decreases RETRY_BUDGET - attempts,
    {
        let observed = cell.load(Ordering::Acquire);
        match f(observed) {
            None => {
                return Updated::Declined(observed);
            },
            Some(next) => {
                match cell.compare_exchange(
                    observed,
                    next,
                    Ordering::Release,
                    Ordering::Acquire,
                ) {
                    Ok(_) => {
                        return Updated::Done(observed, next);
                    },
                    Err(_) => {},
                }
            },
        }
        attempts = attempts + 1;
    }
    Updated::Contended
}

} // verus!
