//! The times that encoded frames are sent with.

use vstd::prelude::*;

use crate::encoder::video::{EncodedFrame, EncodedView};

verus! {

/// Counts the time of encoded frames in microseconds. It starts again behind
/// the largest 64-bit number.
#[derive(Debug, Clone, Copy, PartialEq, Eq, Structural)]
pub struct PtsCounter {
    next: u64,
    step: u64,
}

impl PtsCounter {
    /// The time of the next frame.
    pub closed spec fn spec_next(&self) -> u64 {
        self.next
    }

    /// The time from one frame to the next.
    pub closed spec fn spec_step(&self) -> u64 {
        self.step
    }

    /// Starts counting for the given frame rate.
    pub fn new(fps: u32) -> (counter: PtsCounter)
        requires
            fps > 0,
        ensures
            counter.spec_next() == 0,
            counter.spec_step() == 1_000_000nat / fps as nat,
    {
        PtsCounter { next: 0, step: 1_000_000 / fps as u64 }
    }

    /// Gives an encoded frame its time.
    pub fn stamp(&mut self, encoded: EncodedFrame) -> (stamped: EncodedFrame)
        ensures
            stamped@ == (EncodedView { pts: old(self).spec_next(), ..encoded@ }),
            final(self).spec_step() == old(self).spec_step(),
            final(self).spec_next() == stamped_after(
                old(self).spec_next(),
                old(self).spec_step(),
            ),
    {
        let pts: u64 = self.next;
        self.next = self.next.wrapping_add(self.step);
        EncodedFrame { pts, ..encoded }
    }
}

/// The time that follows another one.
pub open spec fn stamped_after(time: u64, step: u64) -> u64 {
    ((time + step) % 0x1_0000_0000_0000_0000) as u64
}

/// The time of the `n`th frame.
pub open spec fn nth_time(step: u64, n: nat) -> u64
    decreases n,
{
    if n == 0 {
        0
    } else {
        stamped_after(nth_time(step, (n - 1) as nat), step)
    }
}

/// Frames are a fixed time apart: until the counter starts again, the `n`th
/// frame comes `n` steps after the first.
pub proof fn times_are_even(step: u64, n: nat)
    requires
        n * step < 0x1_0000_0000_0000_0000,
    ensures
        nth_time(step, n) == n * step,
    decreases n,
{
    if n > 0 {
        assert((n - 1) * step == n * step - step) by (nonlinear_arith);
        times_are_even(step, (n - 1) as nat);
    } else {
        assert(n * step == 0) by (nonlinear_arith)
            requires
                n == 0,
        ;
    }
}

/// Every frame comes one step after the one before it; behind the largest time,
/// counting goes on at its beginning.
pub proof fn steps_are_even(time: u64, step: u64)
    ensures
        time + step <= u64::MAX ==> stamped_after(time, step) == time + step,
        time + step > u64::MAX ==> stamped_after(time, step) == time + step
            - 0x1_0000_0000_0000_0000,
{
}

} // verus!
