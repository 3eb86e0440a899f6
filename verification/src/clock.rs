//! The system clock, read as Unix time without ever panicking: a clock set
//! before 1970 reads as a negative count of seconds.
use crate::health::UnixTime;
use std::time::{Duration, SystemTime, SystemTimeError};
use vstd::prelude::*;

verus! {

#[verifier::external_type_specification]
#[verifier::external_body]
pub struct ExSystemTime(SystemTime);

#[verifier::external_type_specification]
#[verifier::external_body]
pub struct ExSystemTimeError(SystemTimeError);

/// `SystemTime::now()`: the system clock's reading. Nothing is stated of
/// it: it is the clock.
#[verifier::external_body]
fn system_now() -> SystemTime {
    SystemTime::now()
}

/// `SystemTime::duration_since(UNIX_EPOCH)`: how long after the Unix epoch
/// `t` lies, or an error when it lies before it. Nothing is stated of which
/// comes or of the durations.
#[verifier::external_body]
fn since_unix_epoch(t: &SystemTime) -> Result<Duration, SystemTimeError> {
    t.duration_since(std::time::UNIX_EPOCH)
}

/// `SystemTimeError::duration`: how far before the epoch the reading was.
#[verifier::external_body]
fn before_epoch_by(e: &SystemTimeError) -> Duration {
    e.duration()
}

/// `Duration::as_secs`: the whole seconds of `d`.
#[verifier::external_body]
fn whole_secs(d: &Duration) -> u64 {
    d.as_secs()
}

/// `Duration::subsec_nanos`: the nanoseconds of `d` past its whole
/// seconds, which its documentation gives as less than one billion.
#[verifier::external_body]
fn subsec_nanos(d: &Duration) -> (r: u32)
    ensures
        r < 1_000_000_000,
{
    d.subsec_nanos()
}

/// The current time as Unix time; a moment before the epoch counts its
/// seconds back from it (whole seconds rounded down, the nanoseconds past
/// them), and a reading beyond what an `i64` of seconds holds reads as that
/// bound.
pub(crate) fn now() -> UnixTime {
    let t = system_now();
    match since_unix_epoch(&t) {
        Ok(d) => {
            let s = whole_secs(&d);
            if s > 9_223_372_036_854_775_807u64 {
                UnixTime { secs: i64::MAX, nanos: 0 }
            } else {
                UnixTime { secs: s as i64, nanos: subsec_nanos(&d) }
            }
        },
        Err(e) => {
            let d = before_epoch_by(&e);
            let s = whole_secs(&d);
            let n = subsec_nanos(&d);
            if s >= 9_223_372_036_854_775_807u64 {
                UnixTime { secs: i64::MIN, nanos: 0 }
            } else if n == 0 {
                UnixTime { secs: -(s as i64), nanos: 0 }
            } else {
                UnixTime { secs: -(s as i64) - 1, nanos: 1_000_000_000 - n }
            }
        },
    }
}

} // verus!
