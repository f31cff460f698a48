//! The flag that asks all threads to end, and waiting that looks at it.

use std::sync::atomic::{AtomicBool, Ordering};
use std::sync::Arc;
use vstd::prelude::*;

verus! {

/// Set once the program is to end. All threads share it.
pub type ShutdownFlag = Arc<AtomicBool>;

/// A flag that is not set. What it holds later depends on all who share it, so it is read with
/// `is_set` alone.
pub fn new_flag() -> ShutdownFlag {
    Arc::new(AtomicBool::new(false))
}

/// Whether the flag is set. Any thread, and a signal, may set it at any time, so either answer may
/// come.
pub fn is_set(flag: &ShutdownFlag) -> bool {
    flag.load(Ordering::SeqCst)
}

/// Sets the flag.
pub fn request(flag: &ShutdownFlag) {
    flag.store(true, Ordering::SeqCst)
}

/// The longest sleep between two looks at the flag, in nanoseconds.
pub const SLEEP_STEP: u128 = 200_000_000;

/// How long to sleep before the next look at the flag; `None` where the flag is set or the time
/// is over. Times are in nanoseconds after some fixed moment.
pub open spec fn nap(set: bool, now: u128, deadline: u128) -> Option<u128> {
    if set || now >= deadline {
        None
    } else if deadline - now <= SLEEP_STEP {
        Some((deadline - now) as u128)
    } else {
        Some(SLEEP_STEP)
    }
}

/// How long to sleep before the next look at the flag.
pub fn sleep_step(set: bool, now: u128, deadline: u128) -> (r: Option<u128>)
    ensures
        r == nap(set, now, deadline),
{
    if set || now >= deadline {
        return None;
    }
    let left: u128 = deadline - now;
    if left <= SLEEP_STEP {
        Some(left)
    } else {
        Some(SLEEP_STEP)
    }
}

/// A sleep ends no later than the deadline, and the flag is looked at again within a fifth of a
/// second.
pub proof fn law_sleep_is_interruptible(set: bool, now: u128, deadline: u128)
    ensures
        set ==> nap(set, now, deadline) is None,
        nap(set, now, deadline) matches Some(d) ==> 0 < d <= SLEEP_STEP && now + d <= deadline,
{
}

}
