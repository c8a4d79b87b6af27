//! Rate estimator: a smoothed requests-per-second figure, fed once per
//! coarse tick with the number of connections accepted since the last one.
//!
//! A coarse tick comes about half a second after the one before, so twice
//! the count is the rate that the interval alone suggests. The estimate moves
//! halfway from its previous value towards that figure: an exponential moving
//! average of weight one half, in whole numbers, rounded down.

use vstd::prelude::*;

verus! {

/// The estimate that follows `previous` once `delta_count` connections were
/// accepted in the interval just finished, capped at the largest `u32`.
pub open spec fn smoothed_rate(previous: nat, delta_count: nat) -> nat {
    let blended = (previous + 2 * delta_count) / 2;
    if blended > u32::MAX {
        u32::MAX as nat
    } else {
        blended
    }
}

/// Running state of the rate estimator.
#[derive(Debug, Clone, Copy, PartialEq, Eq, Structural)]
pub struct ReqCounter {
    /// The current estimate, in requests per second.
    pub xrps: u32,
}

impl View for ReqCounter {
    type V = nat;

    /// The current estimate as a number.
    open spec fn view(&self) -> nat {
        self.xrps as nat
    }
}

impl ReqCounter {
    /// The estimator after `delta_count` was folded in.
    pub open spec fn spec_change(self, delta_count: u32) -> ReqCounter {
        ReqCounter { xrps: smoothed_rate(self.xrps as nat, delta_count as nat) as u32 }
    }

    /// An estimator that has seen no traffic yet.
    pub fn new() -> (counter: ReqCounter)
        ensures
            counter@ == 0,
    {
        ReqCounter { xrps: 0 }
    }

    /// Folds the count of one coarse interval into the estimate.
    pub fn change(&mut self, delta_count: u32)
        ensures
            final(self)@ == smoothed_rate(old(self)@, delta_count as nat),
            *final(self) == old(self).spec_change(delta_count),
    {
        let blended: u64 = (self.xrps as u64 + 2 * (delta_count as u64)) / 2;
        if blended > u32::MAX as u64 {
            self.xrps = u32::MAX;
        } else {
            self.xrps = blended as u32;
        }
    }

    /// The current estimate.
    pub fn get_xrps(&self) -> (xrps: u32)
        ensures
            xrps == self@,
    {
        self.xrps
    }

    /// Folds the count of one coarse interval into the estimate and returns
    /// the new estimate.
    pub fn update(&mut self, delta_count: u32) -> (xrps: u32)
        ensures
            final(self)@ == smoothed_rate(old(self)@, delta_count as nat),
            *final(self) == old(self).spec_change(delta_count),
            xrps == final(self)@,
    {
        self.change(delta_count);
        self.get_xrps()
    }
}

/// An interval without a single connection never raises the estimate.
pub proof fn lemma_quiet_interval_never_raises(previous: nat)
    ensures
        smoothed_rate(previous, 0) <= previous,
        smoothed_rate(previous, 0) == if previous / 2 > u32::MAX {
            u32::MAX as nat
        } else {
            previous / 2
        },
{
}

/// The estimate after `intervals` coarse intervals without connections.
pub open spec fn quiet_run(previous: nat, intervals: nat) -> nat
    decreases intervals,
{
    if intervals == 0 {
        previous
    } else {
        smoothed_rate(quiet_run(previous, (intervals - 1) as nat), 0)
    }
}

/// A run of intervals without connections gives estimates that never rise:
/// each one is at most the one before it.
pub proof fn lemma_quiet_run_never_raises(previous: nat, intervals: nat)
    ensures
        quiet_run(previous, intervals) <= previous,
        intervals > 0 ==> quiet_run(previous, intervals) <= quiet_run(
            previous,
            (intervals - 1) as nat,
        ),
    decreases intervals,
{
    if intervals > 0 {
        lemma_quiet_run_never_raises(previous, (intervals - 1) as nat);
    }
}

/// More connections in the interval never give a lower estimate, and a higher
/// previous estimate never gives a lower one either.
pub proof fn lemma_smoothed_rate_monotone(
    previous: nat,
    delta_count: nat,
    larger_previous: nat,
    larger_delta: nat,
)
    requires
        previous <= larger_previous,
        delta_count <= larger_delta,
    ensures
        smoothed_rate(previous, delta_count) <= smoothed_rate(larger_previous, larger_delta),
{
}

/// A steady count holds a matching estimate where it is: with `delta_count`
/// connections in every half-second interval the rate `2 * delta_count` is a
/// fixed point.
pub proof fn lemma_steady_rate_is_fixed(delta_count: nat)
    requires
        2 * delta_count <= u32::MAX,
    ensures
        smoothed_rate(2 * delta_count, delta_count) == 2 * delta_count,
{
}

} // verus!
