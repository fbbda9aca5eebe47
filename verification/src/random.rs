//! A number that stands in for a random one, taken from the clock.

use std::time::{Duration, SystemTime, SystemTimeError, UNIX_EPOCH};
use vstd::prelude::*;

verus! {

/// `std::time::SystemTime`, a point in time by the system clock.
#[verifier::external_type_specification]
#[verifier::external_body]
pub struct ExSystemTime(SystemTime);

/// `std::time::SystemTimeError`, the error of `SystemTime::duration_since`.
#[verifier::external_type_specification]
#[verifier::external_body]
pub struct ExSystemTimeError(SystemTimeError);

/// `SystemTime::now` gives the current time; nothing is known of it.
pub assume_specification[ SystemTime::now ]() -> (now: SystemTime)
;

/// `SystemTime::duration_since` gives the time that has passed since
/// `earlier`, or an error where `earlier` is the later of the two;
/// nothing more is claimed of it.
pub assume_specification[ SystemTime::duration_since ](
    time: &SystemTime,
    earlier: SystemTime,
) -> (r: Result<Duration, SystemTimeError>)
;

/// `Duration::subsec_millis` gives the fraction of a second of the
/// duration in whole milliseconds, which is below one thousand.
pub assume_specification[ Duration::subsec_millis ](duration: &Duration) -> (millis: u32)
    ensures
        millis < 1000,
;

/// The constant `std::time::UNIX_EPOCH`.
#[verifier::external_body]
fn unix_epoch() -> SystemTime {
    UNIX_EPOCH
}

/// The number that `get_fake` derives from the milliseconds `millis`:
/// `lower` plus the remainder of `millis` by the width of the range.
pub open spec fn fake_number(lower: u32, upper: u32, millis: u32) -> int {
    lower + millis as int % (upper - lower)
}

/// The number in `lower..upper` that the milliseconds `millis` select.
pub fn fake_from_millis(lower: u32, upper: u32, millis: u32) -> (r: u32)
    requires
        lower < upper,
    ensures
        r == fake_number(lower, upper, millis),
        lower <= r < upper,
{
    lower + (millis % (upper - lower))
}

/// Returns a fake "random" number based on the current system time:
/// at least `lower` (inclusive) and below `upper` (exclusive). `None`
/// where the system time lies before the Unix epoch.
pub fn get_fake(lower: u32, upper: u32) -> (r: Option<u32>)
    requires
        lower < upper,
    ensures
        r matches Some(n) ==> lower <= n < upper && exists|millis: u32|
            millis < 1000 && n == #[trigger] fake_number(lower, upper, millis),
{
    let millis = match SystemTime::now().duration_since(unix_epoch()) {
        Ok(duration) => duration.subsec_millis(),
        Err(_) => {
            return None;
        },
    };
    Some(fake_from_millis(lower, upper, millis))
}

} // verus!
