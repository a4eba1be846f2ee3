//! The wall clock (the standard library's system time) and a source of
//! random numbers.
//!
//! They depend on the machine and the moment, so nothing is stated of the
//! values they return; the functions that use them state what holds for
//! every value.

use vstd::prelude::*;

verus! {

/// Reads `std::time::SystemTime::now()` and takes its `duration_since`
/// the Unix epoch: the whole seconds and the sub-second nanoseconds, or
/// `None` when the clock reads before the epoch. Nothing is stated of the
/// value: it is the time of the call.
#[verifier::external_body]
pub(crate) fn system_time_since_epoch() -> Option<(u64, u32)> {
    match std::time::SystemTime::now().duration_since(std::time::UNIX_EPOCH) {
        Ok(d) => Some((d.as_secs(), d.subsec_nanos())),
        Err(_) => None,
    }
}

/// Nanoseconds since the Unix epoch denoted by a system clock reading, when
/// they fit in an `i64`; `None` for a clock before the epoch or too far after.
pub open spec fn nanos_of(t: Option<(u64, u32)>) -> Option<i64> {
    match t {
        Some((secs, nanos)) => if secs * 1_000_000_000 + nanos <= i64::MAX {
            Some((secs * 1_000_000_000 + nanos) as i64)
        } else {
            None
        },
        None => None,
    }
}

/// The clock in nanoseconds since the Unix epoch, or `None` when it reads
/// before the epoch or beyond the range of `i64`.
pub(crate) fn unix_nanos() -> (r: Option<i64>)
    ensures
        exists|t: Option<(u64, u32)>| r == nanos_of(t),
{
    let t = system_time_since_epoch();
    let r = match t {
        Some((secs, nanos)) => {
            let total: u128 = (secs as u128) * 1_000_000_000 + nanos as u128;
            if total <= 0x7FFF_FFFF_FFFF_FFFFu128 {
                Some(total as i64)
            } else {
                None
            }
        },
        None => None,
    };
    assert(r == nanos_of(t));
    r
}

/// Calls `rand::random::<u32>()`. Nothing is stated of the value: it is random.
#[verifier::external_body]
pub(crate) fn random_u32() -> u32 {
    rand::random::<u32>()
}

/// Milliseconds since the epoch denoted by a system clock reading, as
/// `Duration::as_millis` gives them cut to 64 bits; zero for a clock that
/// reads before the epoch.
pub open spec fn system_millis(t: Option<(u64, u32)>) -> u64 {
    match t {
        Some((secs, nanos)) => ((secs * 1000 + nanos / 1_000_000) % 0x1_0000_0000_0000_0000) as u64,
        None => 0,
    }
}

/// Converts a system clock reading to milliseconds.
pub fn system_millis_of(t: Option<(u64, u32)>) -> (ms: u64)
    ensures
        ms == system_millis(t),
{
    match t {
        Some((secs, nanos)) => {
            let total: u128 = (secs as u128) * 1000 + (nanos / 1_000_000) as u128;
            (total % 0x1_0000_0000_0000_0000u128) as u64
        },
        None => 0,
    }
}

/// Current time in milliseconds since the Unix epoch by the system clock
/// (zero if it reads before the epoch).
pub fn now_ms() -> (ms: u64)
    ensures
        exists|t: Option<(u64, u32)>| ms == system_millis(t),
{
    let t = system_time_since_epoch();
    system_millis_of(t)
}

/// The low 32 bits of a system clock reading in nanoseconds (as
/// `Duration::as_nanos` gives them); a fixed seed when the clock reads
/// before the epoch.
pub open spec fn system_low_bits(t: Option<(u64, u32)>) -> u32 {
    match t {
        Some((secs, nanos)) => ((secs * 1_000_000_000 + nanos) % 0x1_0000_0000) as u32,
        None => 12345,
    }
}

/// Takes the low 32 bits of a system clock reading in nanoseconds.
pub fn system_low_bits_of(t: Option<(u64, u32)>) -> (r: u32)
    ensures
        r == system_low_bits(t),
{
    match t {
        Some((secs, nanos)) => {
            let total: u128 = (secs as u128) * 1_000_000_000 + nanos as u128;
            (total % 0x1_0000_0000u128) as u32
        },
        None => 12345,
    }
}

} // verus!
