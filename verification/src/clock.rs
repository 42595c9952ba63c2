//! Time on the ear controller, in ticks of its clock.

use vstd::prelude::*;

verus! {

/// `embassy_time::Instant`'s subtraction: the number of ticks from one instant
/// to a later one. The subtraction panics where the second instant is not the
/// later one, so that is left out.
#[verifier::external_body]
fn ticks_between(earlier: u64, later: u64) -> (r: u64)
    requires
        earlier <= later,
    ensures
        r == later - earlier,
{
    let span = embassy_time::Instant::from_ticks(later)
        - embassy_time::Instant::from_ticks(earlier);
    span.as_ticks()
}

/// `embassy_time::Duration::as_millis`: a number of ticks in milliseconds,
/// rounded down, at the tick rate that the crate is built with, 1 MHz.
#[verifier::external_body]
fn ticks_as_millis(ticks: u64) -> (r: u64)
    ensures
        r == ticks / 1000,
{
    embassy_time::Duration::from_ticks(ticks).as_millis()
}

/// The milliseconds from one time to a later one, both in ticks of a
/// microsecond, rounded down.
pub open spec fn millis_between(earlier: int, later: int) -> int {
    (later - earlier) / 1000
}

/// The milliseconds from one time to a later one, both in ticks.
pub fn millis_since(earlier: u64, later: u64) -> (r: u64)
    requires
        earlier <= later,
    ensures
        r == millis_between(earlier as int, later as int),
{
    ticks_as_millis(ticks_between(earlier, later))
}

/// A whole number of milliseconds has passed, and not yet one more.
pub proof fn millis_are_whole(earlier: int, later: int)
    ensures
        1000 * millis_between(earlier, later) <= later - earlier < 1000 * (millis_between(
            earlier,
            later,
        ) + 1),
{
}

} // verus!
