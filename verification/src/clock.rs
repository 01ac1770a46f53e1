//! Wall-clock time: timestamps and the millisecond clock of the hybrid
//! logical clocks.
//!
//! The system clock is read once per use. A clock that reads before the Unix
//! epoch gives no reading; the runtime then counts the time as the epoch
//! itself, so that reading the clock never fails.

use vstd::prelude::*;

verus! {

/// A point in UTC time: whole seconds since the Unix epoch and the
/// nanoseconds past that second.
#[derive(Clone, Copy, Debug, PartialEq, Eq, PartialOrd, Ord, Hash)]
pub struct Timestamp {
    pub secs: i64,
    pub nanos: u32,
}

impl Timestamp {
    /// The Unix epoch, 1970-01-01T00:00:00Z.
    pub fn epoch() -> (t: Self)
        ensures
            t.secs == 0,
            t.nanos == 0,
    {
        Timestamp { secs: 0, nanos: 0 }
    }

    /// The nanoseconds part is below one second.
    pub open spec fn is_valid(&self) -> bool {
        self.nanos < 1_000_000_000
    }
}

/// Calls `std::time::SystemTime::now` and `duration_since(UNIX_EPOCH)`: the
/// whole seconds and the sub-second nanoseconds elapsed since the epoch, or
/// `None` when the system clock reads before the epoch (the error that
/// `duration_since` returns). The reading depends on the clock; the contract
/// claims only what `Duration::subsec_nanos` documents of every outcome:
/// the nanoseconds are below one second.
#[verifier::external_body]
fn system_time_since_epoch() -> (r: Option<(u64, u32)>)
    ensures
        r matches Some(d) ==> d.1 < 1_000_000_000,
{
    std::time::SystemTime::now().duration_since(std::time::UNIX_EPOCH).ok().map(|d| (d.as_secs(), d.subsec_nanos()))
}

/// The timestamp of a clock reading (seconds and nanoseconds since the
/// epoch). No reading, or one too far in the future for 64-bit signed
/// seconds, counts as the epoch.
pub fn timestamp_of_reading(r: Option<(u64, u32)>) -> (t: Timestamp)
    ensures
        r matches Some(d) ==> if d.0 <= i64::MAX {
            t.secs == d.0 && t.nanos == d.1
        } else {
            t.secs == 0 && t.nanos == 0
        },
        r is None ==> t.secs == 0 && t.nanos == 0,
{
    match r {
        Some((secs, nanos)) => {
            if secs <= i64::MAX as u64 {
                Timestamp { secs: secs as i64, nanos }
            } else {
                Timestamp::epoch()
            }
        },
        None => Timestamp::epoch(),
    }
}

/// The milliseconds since the epoch of a clock reading, cut to 64 bits as
/// the clocks store them. No reading counts as the epoch, 0.
pub fn millis_of_reading(r: Option<(u64, u32)>) -> (ms: u64)
    ensures
        r matches Some(d) ==> ms == (d.0 * 1000 + d.1 / 1_000_000) as u64,
        r is None ==> ms == 0,
{
    match r {
        Some((secs, nanos)) => {
            let total: u128 = (secs as u128) * 1000 + (nanos / 1_000_000) as u128;
            total as u64
        },
        None => 0,
    }
}

/// The current UTC time (the epoch when the clock reads before it, so
/// never before the epoch).
pub fn now_timestamp() -> (t: Timestamp)
    ensures
        t.is_valid(),
        t.secs >= 0,
{
    timestamp_of_reading(system_time_since_epoch())
}

/// The current time in milliseconds since the epoch (0 when the clock reads
/// before it).
pub fn now_millis() -> u64 {
    millis_of_reading(system_time_since_epoch())
}

} // verus!
