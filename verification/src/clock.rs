//! The tick clock: wall-clock time in, physics ticks out.

use vstd::prelude::*;

verus! {

/// Length of one physics tick, in milliseconds.
pub const PHYSICS_TICK_TIME: u128 = 33;

/// Time that has been handed to the clock and is not yet part of a tick.
#[derive(Debug)]
pub struct PhysicsTimer(u128);

/// Ticks that fall due when `elapsed` milliseconds are added to a clock that
/// holds `accumulated` milliseconds.
pub open spec fn ticks_due(accumulated: nat, elapsed: nat) -> nat {
    (accumulated + elapsed) / (PHYSICS_TICK_TIME as nat)
}

/// What the clock holds once those ticks have been taken out.
pub open spec fn carry_over(accumulated: nat, elapsed: nat) -> nat {
    (accumulated + elapsed) % (PHYSICS_TICK_TIME as nat)
}

impl PhysicsTimer {
    #[verifier::type_invariant]
    spec fn below_one_tick(self) -> bool {
        self.0 < PHYSICS_TICK_TIME
    }

    /// Milliseconds held by the clock.
    pub closed spec fn accumulated(self) -> nat {
        self.0 as nat
    }

    /// A clock that holds no time.
    pub fn new() -> (clock: Self)
        ensures
            clock.accumulated() == 0,
    {
        PhysicsTimer(0)
    }

    /// Milliseconds held by the clock: always less than one tick.
    pub fn accumulated_ms(&self) -> (ms: u128)
        ensures
            ms == self.accumulated(),
            ms < PHYSICS_TICK_TIME,
    {
        proof {
            use_type_invariant(self);
        }
        self.0
    }
}

impl Default for PhysicsTimer {
    fn default() -> (clock: Self)
        ensures
            clock.accumulated() == 0,
    {
        PhysicsTimer(0)
    }
}

/// Adds `ms_since_last_call` to the clock and returns the number of ticks that
/// have fallen due: one for every full interval held, the remainder staying
/// in the clock for the next call.
pub fn physics_clock(clock: &mut PhysicsTimer, ms_since_last_call: u128) -> (ticks: u128)
    ensures
        ticks == ticks_due(old(clock).accumulated(), ms_since_last_call as nat),
        final(clock).accumulated() == carry_over(
            old(clock).accumulated(),
            ms_since_last_call as nat,
        ),
        final(clock).accumulated() < PHYSICS_TICK_TIME,
{
    proof {
        use_type_invariant(&*clock);
    }
    let whole: u128 = ms_since_last_call / PHYSICS_TICK_TIME;
    let part: u128 = ms_since_last_call % PHYSICS_TICK_TIME;
    let held: u128 = clock.0 + part;
    let ticks: u128 = whole + held / PHYSICS_TICK_TIME;
    clock.0 = held % PHYSICS_TICK_TIME;
    ticks
}

/// Sum of a run of elapsed times.
pub open spec fn total_elapsed(deltas: Seq<nat>) -> nat
    decreases deltas.len(),
{
    if deltas.len() == 0 {
        0
    } else {
        deltas[0] + total_elapsed(deltas.skip(1))
    }
}

/// Ticks emitted over a run of calls, one call for each element of `deltas`,
/// by a clock that holds `accumulated` milliseconds before the first call.
pub open spec fn ticks_over(accumulated: nat, deltas: Seq<nat>) -> nat
    decreases deltas.len(),
{
    if deltas.len() == 0 {
        0
    } else {
        ticks_due(accumulated, deltas[0]) + ticks_over(
            carry_over(accumulated, deltas[0]),
            deltas.skip(1),
        )
    }
}

/// What the clock holds after that run of calls.
pub open spec fn held_after(accumulated: nat, deltas: Seq<nat>) -> nat
    decreases deltas.len(),
{
    if deltas.len() == 0 {
        accumulated
    } else {
        held_after(carry_over(accumulated, deltas[0]), deltas.skip(1))
    }
}

/// However a span of time is split across calls, the clock emits the ticks
/// that one call with the whole span would emit, and is left holding the
/// same remainder.
pub proof fn lemma_split_is_irrelevant(accumulated: nat, deltas: Seq<nat>)
    requires
        accumulated < PHYSICS_TICK_TIME,
    ensures
        ticks_over(accumulated, deltas) == ticks_due(accumulated, total_elapsed(deltas)),
        held_after(accumulated, deltas) == carry_over(accumulated, total_elapsed(deltas)),
    decreases deltas.len(),
{
    if deltas.len() > 0 {
        lemma_split_is_irrelevant(carry_over(accumulated, deltas[0]), deltas.skip(1));
    }
}

/// A fresh clock that is handed `n` whole intervals in all emits exactly `n`
/// ticks, whatever the split, and ends empty.
pub proof fn lemma_tick_determinism(deltas: Seq<nat>, n: nat)
    requires
        total_elapsed(deltas) == PHYSICS_TICK_TIME * n,
    ensures
        ticks_over(0, deltas) == n,
        held_after(0, deltas) == 0,
{
    lemma_split_is_irrelevant(0, deltas);
}

} // verus!
