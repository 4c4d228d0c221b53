//! The source of the current time, injected into every operation that needs
//! it so that a fixed time can stand in for the wall clock.

use crate::time::{clamp_secs, local_now_secs, Timestamp};
use vstd::prelude::*;

verus! {

/// A source of the current time.
pub trait Clock {
    fn now(&self) -> Timestamp;
}

/// The local wall clock, to the second.
pub struct SystemClock;

impl Clock for SystemClock {
    /// The second that the local wall clock shows, brought into the years
    /// 0000 to 9999 where it lies outside them. What the wall clock shows
    /// depends on the moment of the call, so the contract speaks of some
    /// second `shown`.
    fn now(&self) -> (r: Timestamp)
        ensures
            exists|shown: i64| r@ == #[trigger] clamp_secs(shown as int),
    {
        let shown: i64 = local_now_secs();
        let r = Timestamp::clamped(shown);
        assert(r@ == clamp_secs(shown as int));
        r
    }
}

} // verus!
