//! Tick clock: millisecond stamps that cycle through `[0, 1000)` and the
//! wraparound-safe test for "more than this many milliseconds have passed".

use vstd::prelude::*;

verus! {

/// Length of the stamp cycle in milliseconds.
pub const TICK_CYCLE_MS: i16 = 1000;

/// Fine cadence: the shortest gap between two dispatch opportunities.
pub const FINE_CADENCE_MS: i16 = 50;

/// Coarse cadence: the shortest gap between two rate re-estimations.
pub const COARSE_CADENCE_MS: i16 = 500;

/// A stamp is a millisecond count taken modulo the cycle length.
pub open spec fn is_stamp(t: int) -> bool {
    0 <= t < 1000
}

/// Signed wraparound difference: the plain difference when it is not
/// negative, otherwise the difference carried once around the cycle.
pub open spec fn wrapped_elapsed(old_stamp: int, new_stamp: int) -> int {
    let differ = new_stamp - old_stamp;
    if differ < 0 {
        1000 + differ
    } else {
        differ
    }
}

/// More than `threshold_ms` milliseconds lie between the two stamps.
pub open spec fn elapsed_spec(old_stamp: int, new_stamp: int, threshold_ms: int) -> bool {
    wrapped_elapsed(old_stamp, new_stamp) > threshold_ms
}

/// Reduces a running millisecond count to a stamp.
pub fn stamp_from_millis(millis: u128) -> (stamp: i16)
    ensures
        stamp == millis % 1000,
        is_stamp(stamp as int),
{
    (millis % (TICK_CYCLE_MS as u128)) as i16
}

/// Tells whether more than `threshold_ms` milliseconds have passed from
/// `old_stamp` to `new_stamp`, counting across the end of the cycle.
pub fn elapsed(old_stamp: i16, new_stamp: i16, threshold_ms: i16) -> (fired: bool)
    ensures
        fired == elapsed_spec(old_stamp as int, new_stamp as int, threshold_ms as int),
        is_stamp(old_stamp as int) && is_stamp(new_stamp as int) ==> fired == ((new_stamp
            - old_stamp) % 1000 > threshold_ms),
{
    let differ: i32 = new_stamp as i32 - old_stamp as i32;
    if differ > threshold_ms as i32 {
        true
    } else if differ < 0 && TICK_CYCLE_MS as i32 + differ > threshold_ms as i32 {
        true
    } else {
        false
    }
}

/// Fine-cadence test: more than 50 ms from `old_stamp` to `new_stamp`.
pub fn is_nst_gt_ost_timeout(old_stamp: &i16, new_stamp: &i16) -> (fired: bool)
    ensures
        fired == elapsed_spec(*old_stamp as int, *new_stamp as int, 50),
{
    elapsed(*old_stamp, *new_stamp, FINE_CADENCE_MS)
}

/// Coarse-cadence test: more than 500 ms from `old_stamp` to `new_stamp`.
pub fn is_nst_gt_ost_helfsec(old_stamp: &i16, new_stamp: &i16) -> (fired: bool)
    ensures
        fired == elapsed_spec(*old_stamp as int, *new_stamp as int, 500),
{
    elapsed(*old_stamp, *new_stamp, COARSE_CADENCE_MS)
}

/// On stamps the wraparound difference is the distance travelled round the
/// cycle, `(new - old) mod 1000`, so the cadence test compares that distance
/// with the threshold.
pub proof fn lemma_elapsed_is_cycle_distance(old_stamp: int, new_stamp: int, threshold_ms: int)
    requires
        is_stamp(old_stamp),
        is_stamp(new_stamp),
    ensures
        wrapped_elapsed(old_stamp, new_stamp) == (new_stamp - old_stamp) % 1000,
        elapsed_spec(old_stamp, new_stamp, threshold_ms) == ((new_stamp - old_stamp) % 1000
            > threshold_ms),
{
}

/// The cadence test is strict: a pair of equal stamps never passes it for a
/// threshold that is not negative, and a distance that only equals the
/// threshold does not pass it either, while one millisecond more does.
pub proof fn lemma_elapsed_is_strict(old_stamp: int, new_stamp: int, threshold_ms: int)
    ensures
        threshold_ms >= 0 ==> !elapsed_spec(old_stamp, old_stamp, threshold_ms),
        wrapped_elapsed(old_stamp, new_stamp) == threshold_ms ==> !elapsed_spec(
            old_stamp,
            new_stamp,
            threshold_ms,
        ),
        wrapped_elapsed(old_stamp, new_stamp) == threshold_ms + 1 ==> elapsed_spec(
            old_stamp,
            new_stamp,
            threshold_ms,
        ),
{
}

/// Between two stamps the distance there and the distance back add up to one
/// full cycle, unless the stamps are equal. So of two distinct stamps at most
/// one direction passes the coarse cadence.
pub proof fn lemma_distances_close_the_cycle(old_stamp: int, new_stamp: int)
    requires
        is_stamp(old_stamp),
        is_stamp(new_stamp),
    ensures
        0 <= wrapped_elapsed(old_stamp, new_stamp) < 1000,
        old_stamp != new_stamp ==> wrapped_elapsed(old_stamp, new_stamp) + wrapped_elapsed(
            new_stamp,
            old_stamp,
        ) == 1000,
        !(elapsed_spec(old_stamp, new_stamp, 500) && elapsed_spec(new_stamp, old_stamp, 500)),
{
}

} // verus!
