use vstd::prelude::*;
use std::time::{Duration, SystemTime, SystemTimeError, UNIX_EPOCH};
use crate::utils::throttling::{Timestamp, instant_nanos};

verus! {

#[verifier::external_type_specification]
#[verifier::external_body]
pub struct ExSystemTime(SystemTime);

#[verifier::external_type_specification]
#[verifier::external_body]
pub struct ExSystemTimeError(SystemTimeError);

/// Trusted: `std::time::SystemTime::now`. Nothing is promised of the
/// reading: it is the system clock's.
#[verifier::external_body]
fn system_now() -> (t: SystemTime) {
    SystemTime::now()
}

/// Trusted: `SystemTime::duration_since(UNIX_EPOCH)`: the time elapsed since
/// the epoch, or an error when `t` is earlier than the epoch. Nothing is
/// promised of the value, which is the clock's.
#[verifier::external_body]
fn duration_since_epoch(t: &SystemTime) -> (r: Result<Duration, SystemTimeError>) {
    t.duration_since(UNIX_EPOCH)
}

/// Trusted: `SystemTimeError::duration`: how far the reading lies before the
/// epoch.
#[verifier::external_body]
fn time_before_epoch(e: &SystemTimeError) -> (d: Duration) {
    e.duration()
}

/// Trusted: `Duration::as_secs`: the whole seconds of `d`.
#[verifier::external_body]
fn duration_secs(d: &Duration) -> (secs: u64) {
    d.as_secs()
}

/// Trusted: `Duration::subsec_nanos`: the nanoseconds of `d` past its whole
/// seconds, which std documents as always less than one billion.
#[verifier::external_body]
fn duration_subsec_nanos(d: &Duration) -> (nanos: u32)
    ensures
        nanos < 1_000_000_000,
{
    d.subsec_nanos()
}

/// The instant `secs` seconds and `nanos` nanoseconds after the epoch (when
/// `after_epoch`) or before it, with its nanoseconds below one billion.
/// Offsets too large for 64-bit seconds give the latest (after) or earliest
/// (before) instant that 64-bit seconds hold.
pub open spec fn offset_timestamp(after_epoch: bool, secs: u64, nanos: u32) -> Timestamp {
    if after_epoch {
        if secs <= i64::MAX {
            Timestamp { secs: secs as i64, nanos }
        } else {
            Timestamp { secs: i64::MAX, nanos }
        }
    } else if secs >= i64::MAX {
        Timestamp { secs: i64::MIN, nanos: 0 }
    } else if nanos == 0 {
        Timestamp { secs: -(secs as int) as i64, nanos: 0 }
    } else {
        Timestamp { secs: (-(secs as int) - 1) as i64, nanos: (1_000_000_000 - nanos) as u32 }
    }
}

/// The instant at the given offset from the epoch.
pub fn timestamp_from_offset(after_epoch: bool, secs: u64, nanos: u32) -> (t: Timestamp)
    requires
        nanos < 1_000_000_000,
    ensures
        t == offset_timestamp(after_epoch, secs, nanos),
        t.nanos < 1_000_000_000,
        secs < i64::MAX ==> instant_nanos(t) == if after_epoch {
            secs * 1_000_000_000 + nanos
        } else {
            -(secs * 1_000_000_000 + nanos)
        },
{
    if after_epoch {
        if secs <= i64::MAX as u64 {
            Timestamp { secs: secs as i64, nanos }
        } else {
            Timestamp { secs: i64::MAX, nanos }
        }
    } else if secs >= i64::MAX as u64 {
        Timestamp { secs: i64::MIN, nanos: 0 }
    } else if nanos == 0 {
        Timestamp { secs: -(secs as i64), nanos: 0 }
    } else {
        Timestamp { secs: -(secs as i64) - 1, nanos: 1_000_000_000 - nanos }
    }
}

/// The current UTC instant, read from the system clock; a clock set before
/// the epoch gives a negative instant.
pub fn utc_now() -> (now: Timestamp)
    ensures
        now.nanos < 1_000_000_000,
{
    let t = system_now();
    match duration_since_epoch(&t) {
        Ok(d) => {
            let secs = duration_secs(&d);
            let nanos = duration_subsec_nanos(&d);
            timestamp_from_offset(true, secs, nanos)
        },
        Err(e) => {
            let d = time_before_epoch(&e);
            let secs = duration_secs(&d);
            let nanos = duration_subsec_nanos(&d);
            timestamp_from_offset(false, secs, nanos)
        },
    }
}

} // verus!
