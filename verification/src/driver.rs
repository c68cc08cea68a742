//! The update loop's decision logic: once per periodic callback, carrying a
//! monotonically non-decreasing timestamp, the driver advances the simulation
//! by one generation if and only if at least one step interval has elapsed
//! since the last accepted step. Scheduling the callbacks themselves and
//! redrawing are the embedding program's business.

use vstd::prelude::*;

use crate::grid::Grid;
use crate::grid::GridModel;
use crate::stepper::step;
use crate::stepper::step_model;

verus! {

/// A callback at `timestamp` advances the simulation exactly when a full
/// step interval has elapsed since the last accepted step.
pub open spec fn step_due(last_step_time: int, step_interval: int, timestamp: int) -> bool {
    timestamp - last_step_time >= step_interval
}

/// How many of a whole sequence of callbacks advance the simulation,
/// starting from `last_step_time`: the clock moves to the callback's
/// timestamp on each accepted step and stays put on each rejected one.
pub open spec fn advances(last_step_time: int, step_interval: int, timestamps: Seq<int>) -> int
    decreases timestamps.len(),
{
    if timestamps.len() == 0 {
        0
    } else if step_due(last_step_time, step_interval, timestamps[0]) {
        1 + advances(timestamps[0], step_interval, timestamps.drop_first())
    } else {
        advances(last_step_time, step_interval, timestamps.drop_first())
    }
}

/// Holds the one live grid and the time of the last accepted step, and
/// decides on each callback whether a generation advance is due.
pub struct Driver {
    grid: Grid,
    last_step_time: u64,
    step_interval: u64,
}

impl Driver {
    pub closed spec fn grid_model(&self) -> GridModel {
        self.grid@
    }

    pub closed spec fn last_step_time_spec(&self) -> u64 {
        self.last_step_time
    }

    pub closed spec fn step_interval_spec(&self) -> u64 {
        self.step_interval
    }

    pub open spec fn wf(&self) -> bool {
        &&& self.grid_model().wf()
        &&& self.step_interval_spec() >= 1
    }

    /// Takes ownership of the freshly seeded grid; the clock starts at zero.
    pub fn new(grid: Grid, step_interval: u64) -> (driver: Driver)
        requires
            grid.wf(),
            step_interval >= 1,
        ensures
            driver.wf(),
            driver.grid_model() == grid@,
            driver.last_step_time_spec() == 0,
            driver.step_interval_spec() == step_interval,
    {
        Driver { grid, last_step_time: 0, step_interval }
    }

    /// The current grid, for drawing.
    pub fn grid(&self) -> (grid: &Grid)
        ensures
            grid@ == self.grid_model(),
    {
        &self.grid
    }

    pub fn last_step_time(&self) -> (t: u64)
        ensures
            t == self.last_step_time_spec(),
    {
        self.last_step_time
    }

    pub fn step_interval(&self) -> (t: u64)
        ensures
            t == self.step_interval_spec(),
    {
        self.step_interval
    }

    /// One periodic callback. If a step interval has elapsed since the last
    /// accepted step, the held grid is replaced by its successor and the
    /// clock moves to `timestamp`; otherwise nothing changes. The host hands
    /// in non-decreasing timestamps, so `timestamp` never lies before the
    /// last accepted step.
    pub fn on_frame(&mut self, timestamp: u64) -> (stepped: bool)
        requires
            old(self).wf(),
            old(self).last_step_time_spec() <= timestamp,
        ensures
            final(self).wf(),
            final(self).step_interval_spec() == old(self).step_interval_spec(),
            stepped == step_due(
                old(self).last_step_time_spec() as int,
                old(self).step_interval_spec() as int,
                timestamp as int,
            ),
            stepped ==> final(self).grid_model() == step_model(old(self).grid_model())
                && final(self).last_step_time_spec() == timestamp,
            !stepped ==> final(self).grid_model() == old(self).grid_model()
                && final(self).last_step_time_spec() == old(self).last_step_time_spec(),
    {
        if timestamp - self.last_step_time >= self.step_interval {
            self.last_step_time = timestamp;
            let next: Grid = step(&self.grid);
            self.grid = next;
            true
        } else {
            false
        }
    }
}

/// Law: with step interval `t`, the callback sequence with timestamps
/// `0, t - 1, t, 2t - 1, 2t` triggers exactly two generation advances — the
/// ones at `t` and at `2t` — not one per callback.
pub proof fn lemma_time_gating(t: int)
    requires
        t >= 1,
    ensures
        advances(0, t, seq![0, t - 1, t, 2 * t - 1, 2 * t]) == 2,
{
    let s0: Seq<int> = seq![0, t - 1, t, 2 * t - 1, 2 * t];
    let s1: Seq<int> = seq![t - 1, t, 2 * t - 1, 2 * t];
    let s2: Seq<int> = seq![t, 2 * t - 1, 2 * t];
    let s3: Seq<int> = seq![2 * t - 1, 2 * t];
    let s4: Seq<int> = seq![2 * t];
    let s5: Seq<int> = Seq::<int>::empty();
    assert(s0.drop_first() =~= s1);
    assert(s1.drop_first() =~= s2);
    assert(s2.drop_first() =~= s3);
    assert(s3.drop_first() =~= s4);
    assert(s4.drop_first() =~= s5);
    assert(!step_due(0, t, 0));
    assert(!step_due(0, t, t - 1));
    assert(step_due(0, t, t));
    assert(!step_due(t, t, 2 * t - 1));
    assert(step_due(t, t, 2 * t));
    assert(advances(2 * t, t, s5) == 0);
    assert(advances(t, t, s4) == 1);
    assert(advances(t, t, s3) == 1);
    assert(advances(0, t, s2) == 2);
    assert(advances(0, t, s1) == 2);
    assert(advances(0, t, s0) == 2);
}

} // verus!
