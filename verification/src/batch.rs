//! Batch size controller: how many connections one worker task may drain.
//!
//! Magnitudes are fixed-point fractions held in thousandths, so `300` stands
//! for `0.3`. A product of a count and a magnitude is rounded to the nearest
//! whole number, a tie going up, and is capped at `u32::MAX`.

use vstd::prelude::*;

verus! {

/// Denominator of a magnitude: `MAGNITUDE_SCALE` stands for `1.0`.
pub const MAGNITUDE_SCALE: u32 = 1000;

/// `value * magnitude / 1000` rounded to the nearest whole number, a tie
/// going up.
pub open spec fn nearest_scaled(value: nat, magnitude: nat) -> nat {
    (value * magnitude + 500) / 1000
}

/// The rounded product, capped at the largest `u32`.
pub open spec fn scale_by_magnitude_spec(value: nat, magnitude: nat) -> nat {
    if nearest_scaled(value, magnitude) > u32::MAX {
        u32::MAX as nat
    } else {
        nearest_scaled(value, magnitude)
    }
}

/// Multiplies a count by a magnitude given in thousandths.
pub fn scale_by_magnitude(value: u32, magnitude: u32) -> (scaled: u32)
    ensures
        scaled == scale_by_magnitude_spec(value as nat, magnitude as nat),
{
    assert(value as u64 * magnitude as u64 + 500 <= u64::MAX) by (nonlinear_arith)
        requires
            value as u64 <= 0xffff_ffff,
            magnitude as u64 <= 0xffff_ffff,
    ;
    let rounded: u64 = (value as u64 * magnitude as u64 + 500) / 1000;
    if rounded > u32::MAX as u64 {
        u32::MAX
    } else {
        rounded as u32
    }
}

/// Batch size of the active regime: the rate estimate times the prediction
/// magnitude.
pub fn active_batch_size(xrps: u32, xrps_predict_magnitude: u32) -> (size: u32)
    ensures
        size == scale_by_magnitude_spec(xrps as nat, xrps_predict_magnitude as nat),
{
    scale_by_magnitude(xrps, xrps_predict_magnitude)
}

/// Batch size of the idle regime: the worker count times the initial
/// magnitude.
pub fn idle_batch_size(worker_thread_count: u32, box_init_magnitude: u32) -> (size: u32)
    ensures
        size == scale_by_magnitude_spec(worker_thread_count as nat, box_init_magnitude as nat),
{
    scale_by_magnitude(worker_thread_count, box_init_magnitude)
}

/// Quota handed to one worker task: the batch size damped by the box
/// magnitude.
pub fn task_quota(batch_size: u32, box_magnitude: u32) -> (quota: u32)
    ensures
        quota == scale_by_magnitude_spec(batch_size as nat, box_magnitude as nat),
{
    scale_by_magnitude(batch_size, box_magnitude)
}

/// The rounded product is the whole number nearest to the exact product: it
/// lies within half a unit of it, and an exact half is rounded up.
pub proof fn lemma_nearest_scaled_rounds_half_up(value: nat, magnitude: nat)
    ensures
        1000 * nearest_scaled(value, magnitude) - 500 <= value * magnitude,
        value * magnitude < 1000 * nearest_scaled(value, magnitude) + 500,
        (value * magnitude) % 1000 == 500 ==> nearest_scaled(value, magnitude) == (value
            * magnitude) / 1000 + 1,
        (value * magnitude) % 1000 == 0 ==> 1000 * nearest_scaled(value, magnitude) == value
            * magnitude,
{
    let product = value * magnitude;
    assert(nearest_scaled(value, magnitude) == (product + 500) / 1000);
}

/// A larger count, or a larger magnitude, never gives a smaller result.
pub proof fn lemma_scale_by_magnitude_monotone(
    value: nat,
    magnitude: nat,
    larger_value: nat,
    larger_magnitude: nat,
)
    requires
        value <= larger_value,
        magnitude <= larger_magnitude,
    ensures
        scale_by_magnitude_spec(value, magnitude) <= scale_by_magnitude_spec(
            larger_value,
            larger_magnitude,
        ),
{
    assert(value * magnitude <= larger_value * larger_magnitude) by (nonlinear_arith)
        requires
            value <= larger_value,
            magnitude <= larger_magnitude,
    ;
}

/// The unit magnitude leaves a count as it is, and the zero magnitude or a
/// zero count gives zero.
pub proof fn lemma_scale_by_magnitude_units(value: nat)
    requires
        value <= u32::MAX,
    ensures
        scale_by_magnitude_spec(value, 1000) == value,
        scale_by_magnitude_spec(value, 0) == 0,
        scale_by_magnitude_spec(0, value) == 0,
{
    assert(value * 0 == 0) by (nonlinear_arith);
    assert(0 * value == 0) by (nonlinear_arith);
}

} // verus!
