//! The order of the stages of a frame.
//!
//! Each physics tick of a frame resolves the impulses, then applies gravity,
//! then integrates the motion; when the ticks of the frame are done, the
//! animations advance once.

use crate::clock::{PhysicsTimer, carry_over, physics_clock, ticks_due};
use vstd::prelude::*;

verus! {

/// One stage of a frame.
#[derive(Clone, Copy, Debug, PartialEq, Eq, Structural)]
pub enum Stage {
    /// Resolve the impulses submitted since the previous tick and apply
    /// them to the velocities.
    ResolveImpulses,
    /// Pull the velocity of every entity under gravity downwards.
    ApplyGravity,
    /// Add each velocity to the position of its entity.
    IntegrateMotion,
    /// Advance every animation cycle by the time of the frame.
    Animate,
}

/// The stages of a frame in which `ticks` physics ticks fall due.
pub open spec fn frame_stages(ticks: nat) -> Seq<Stage>
    decreases ticks,
{
    if ticks == 0 {
        seq![Stage::Animate]
    } else {
        seq![Stage::ResolveImpulses, Stage::ApplyGravity, Stage::IntegrateMotion] + frame_stages(
            (ticks - 1) as nat,
        )
    }
}

/// The stages of a frame that are still to run.
#[derive(Debug)]
pub struct FrameSchedule {
    ticks_left: u128,
    stage: Stage,
    done: bool,
}

impl FrameSchedule {
    #[verifier::type_invariant]
    spec fn consistent(self) -> bool {
        (self.stage == Stage::Animate) == (self.ticks_left == 0)
    }

    /// The stages that are still to run, the next one first.
    pub closed spec fn remaining(self) -> Seq<Stage> {
        if self.done {
            Seq::empty()
        } else {
            match self.stage {
                Stage::ResolveImpulses => frame_stages(self.ticks_left as nat),
                Stage::ApplyGravity => seq![Stage::ApplyGravity, Stage::IntegrateMotion]
                    + frame_stages((self.ticks_left - 1) as nat),
                Stage::IntegrateMotion => seq![Stage::IntegrateMotion] + frame_stages(
                    (self.ticks_left - 1) as nat,
                ),
                Stage::Animate => seq![Stage::Animate],
            }
        }
    }

    /// The schedule of a frame in which `ticks` physics ticks fall due.
    pub fn new(ticks: u128) -> (schedule: Self)
        ensures
            schedule.remaining() == frame_stages(ticks as nat),
    {
        if ticks == 0 {
            FrameSchedule { ticks_left: 0, stage: Stage::Animate, done: false }
        } else {
            FrameSchedule { ticks_left: ticks, stage: Stage::ResolveImpulses, done: false }
        }
    }

    /// Hands `elapsed_ms` to the clock and gives the schedule of the frame:
    /// the three stages of a tick for every tick that has fallen due, then
    /// the animations.
    pub fn begin(clock: &mut PhysicsTimer, elapsed_ms: u128) -> (schedule: Self)
        ensures
            schedule.remaining() == frame_stages(
                ticks_due(old(clock).accumulated(), elapsed_ms as nat),
            ),
            final(clock).accumulated() == carry_over(old(clock).accumulated(), elapsed_ms as nat),
    {
        let ticks = physics_clock(clock, elapsed_ms);
        FrameSchedule::new(ticks)
    }

    /// Takes the next stage off the schedule; `None` when the frame is over.
    pub fn next_stage(&mut self) -> (stage: Option<Stage>)
        ensures
            old(self).remaining().len() == 0 ==> {
                &&& stage is None
                &&& final(self).remaining().len() == 0
            },
            old(self).remaining().len() > 0 ==> {
                &&& stage == Some(old(self).remaining()[0])
                &&& final(self).remaining() == old(self).remaining().skip(1)
            },
    {
        proof {
            use_type_invariant(&*self);
        }
        if self.done {
            return None;
        }
        let stage = self.stage;
        match stage {
            Stage::ResolveImpulses => {
                self.stage = Stage::ApplyGravity;
            },
            Stage::ApplyGravity => {
                self.stage = Stage::IntegrateMotion;
            },
            Stage::IntegrateMotion => {
                *self = FrameSchedule::new(self.ticks_left - 1);
            },
            Stage::Animate => {
                self.done = true;
            },
        }
        Some(stage)
    }
}

/// The stages of a frame with `ticks` ticks: for each tick the impulses,
/// then gravity, then the motion; after the last tick the animations, once.
pub proof fn lemma_stage_order(ticks: nat, tick: nat)
    requires
        tick < ticks,
    ensures
        frame_stages(ticks).len() == 3 * ticks + 1,
        frame_stages(ticks)[(3 * tick) as int] == Stage::ResolveImpulses,
        frame_stages(ticks)[(3 * tick + 1) as int] == Stage::ApplyGravity,
        frame_stages(ticks)[(3 * tick + 2) as int] == Stage::IntegrateMotion,
        frame_stages(ticks)[(3 * ticks) as int] == Stage::Animate,
    decreases ticks,
{
    lemma_frame_length(ticks);
    lemma_frame_length((ticks - 1) as nat);
    if tick > 0 {
        lemma_stage_order((ticks - 1) as nat, (tick - 1) as nat);
    }
}

/// A frame has three stages for each tick, and one more.
pub proof fn lemma_frame_length(ticks: nat)
    ensures
        frame_stages(ticks).len() == 3 * ticks + 1,
        frame_stages(ticks)[(3 * ticks) as int] == Stage::Animate,
    decreases ticks,
{
    if ticks > 0 {
        lemma_frame_length((ticks - 1) as nat);
    }
}

} // verus!
