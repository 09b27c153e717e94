//! A millisecond clock, supplied by the embedder so the policies that read
//! time can be driven by a test.

use vstd::prelude::*;

verus! {

/// A millisecond wall clock. Nothing is assumed of what it answers.
pub trait Clock {
    /// Milliseconds since the Unix epoch.
    fn now_ms(&self) -> i64;
}

/// The system wall clock.
#[derive(Clone, Copy, Debug, Default)]
pub struct SystemClock;

impl Clock for SystemClock {
    fn now_ms(&self) -> i64 {
        system_now_ms()
    }
}

/// The system clock.
pub fn system_clock() -> (r: SystemClock) {
    SystemClock
}

#[verifier::external_type_specification]
#[verifier::external_body]
pub struct ExSystemTime(std::time::SystemTime);

/// The system clock's reading.
///
/// Trusted: wraps `std::time::SystemTime::now`; nothing is claimed of the
/// value, which is the time.
#[verifier::external_body]
fn system_time_now() -> std::time::SystemTime {
    std::time::SystemTime::now()
}

/// How long after the Unix epoch `t` is, or `None` when it is before it.
///
/// Trusted: wraps `SystemTime::duration_since` with `UNIX_EPOCH`, its error
/// (the reading is earlier) read as `None`; nothing is claimed of the value.
#[verifier::external_body]
fn since_epoch(t: &std::time::SystemTime) -> Option<std::time::Duration> {
    t.duration_since(std::time::UNIX_EPOCH).ok()
}

/// A duration in whole milliseconds.
///
/// Trusted: wraps `Duration::as_millis`; the duration is opaque here, so
/// nothing is claimed of the value.
#[verifier::external_body]
fn duration_millis(d: &std::time::Duration) -> u128 {
    d.as_millis()
}

/// Milliseconds since the Unix epoch, or `None` when the system clock is set
/// before the epoch.
fn system_millis() -> Option<u128> {
    let now = system_time_now();
    match since_epoch(&now) {
        Some(elapsed) => Some(duration_millis(&elapsed)),
        None => None,
    }
}

/// An elapsed time since the epoch (`None`: the clock is set before the
/// epoch) as epoch milliseconds: `0` before the epoch, saturating at
/// `i64::MAX`.
pub open spec fn epoch_millis_spec(elapsed: Option<u128>) -> i64 {
    match elapsed {
        None => 0,
        Some(ms) => if ms > i64::MAX as u128 {
            i64::MAX
        } else {
            ms as i64
        },
    }
}

/// An elapsed time since the epoch as epoch milliseconds.
pub fn epoch_millis(elapsed: Option<u128>) -> (r: i64)
    ensures
        r == epoch_millis_spec(elapsed),
{
    match elapsed {
        None => 0,
        Some(ms) => if ms > 9223372036854775807u128 {
            i64::MAX
        } else {
            ms as i64
        },
    }
}

/// Milliseconds since the Unix epoch, saturating at `i64::MAX`, or `0` when
/// the system clock is set before the epoch: whatever the clock read, the
/// answer is that reading converted by [`epoch_millis`].
fn system_now_ms() -> (r: i64)
    ensures
        exists|elapsed: Option<u128>| r == #[trigger] epoch_millis_spec(elapsed),
        r >= 0,
{
    let elapsed = system_millis();
    let r = epoch_millis(elapsed);
    assert(r == epoch_millis_spec(elapsed));
    r
}

} // verus!
