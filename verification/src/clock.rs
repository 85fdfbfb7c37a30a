use vstd::prelude::*;
use std::time::Duration;

verus! {

/// The whole milliseconds that a duration holds: what `Duration::as_millis`
/// returns for it.
pub uninterp spec fn millis_in(d: Duration) -> u128;

/// `Duration::as_millis`: the whole milliseconds that the duration holds.
#[verifier::external_body]
fn as_millis(d: Duration) -> (ms: u128)
    ensures
        ms == millis_in(d),
{
    d.as_millis()
}

/// `Duration::from_millis`: the duration of that many milliseconds, which
/// holds that many whole milliseconds.
#[verifier::external_body]
fn from_millis(ms: u64) -> (d: Duration)
    ensures
        millis_in(d) == ms,
{
    Duration::from_millis(ms)
}

/// A number of milliseconds as a wait can hold it: itself, or the largest
/// that fits.
pub open spec fn capped(ms: u128) -> u64 {
    if ms > u64::MAX {
        u64::MAX
    } else {
        ms as u64
    }
}

/// The whole milliseconds that the duration holds, or the largest number
/// that fits if there are more.
pub fn millis_of(d: Duration) -> (ms: u64)
    ensures
        ms == capped(millis_in(d)),
{
    let ms = as_millis(d);
    if ms > u64::MAX as u128 {
        u64::MAX
    } else {
        ms as u64
    }
}

/// The duration of that many milliseconds.
pub fn duration_of(ms: u64) -> (d: Duration)
    ensures
        millis_in(d) == ms,
{
    from_millis(ms)
}

} // verus!
