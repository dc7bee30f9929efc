//! Wall-clock time: from a real-time clock when one is registered,
//! otherwise estimated from the time since boot.
use vstd::prelude::*;

verus! {

/// Seconds from 1970 to the assumed boot date when no clock is present:
/// 55 years of 365 days and 30 more days.
pub const PSEUDO_EPOCH_SECS: u64 = (55 * 365 + 30) * 24 * 3600;

/// A point in time: seconds and nanoseconds since 1970.
#[derive(Clone, Copy, PartialEq, Eq, Structural, Debug)]
pub struct Instant {
    pub secs: u64,
    pub nanos: u32,
}

impl Instant {
    pub fn new(secs: u64, nanos: u32) -> (r: Instant)
        ensures
            r == (Instant { secs, nanos }),
    {
        Instant { secs, nanos }
    }

    /// The current time: what the clock says if there is one, else the
    /// assumed boot date plus the time since boot (`secs` and `nanos`,
    /// nanoseconds below one second).
    pub fn now<C: RealTimeClock>(rtc: Option<&C>, since_boot_secs: u64, since_boot_nanos: u32) -> (r:
        Instant)
        requires
            rtc is None ==> since_boot_secs + PSEUDO_EPOCH_SECS <= u64::MAX,
            since_boot_nanos < 1_000_000_000,
        ensures
            rtc is None ==> r == (Instant {
                secs: (PSEUDO_EPOCH_SECS + since_boot_secs) as u64,
                nanos: since_boot_nanos,
            }),
            rtc matches Some(c) ==> call_ensures(C::now, (c,), r),
    {
        match rtc {
            Some(c) => c.now(),
            None => Instant { secs: PSEUDO_EPOCH_SECS + since_boot_secs, nanos: since_boot_nanos },
        }
    }
}

/// A hardware real-time clock.
pub trait RealTimeClock {
    fn now(&self) -> Instant;
}

} // verus!
