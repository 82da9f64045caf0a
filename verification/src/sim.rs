//! Frame orchestration: dwell timers and the speed ramp, the degenerate
//! step skip, window maintenance of the graph (grow ahead of the agent,
//! evict behind it), player lever input, and the render pose query.

use vstd::prelude::*;

use crate::geometry::{Point, EXT_SAFE, OFF_MAX};
use crate::preset::{preset_0_straight, preset_random};
use crate::state::{
    advanced, current_point_x, current_point_y, next_next_point_x, next_next_point_y,
    next_point_x, next_point_y, State,
};
use crate::track::{fork_toggled, is_fork_with, tail_exit_x, tail_exit_y, Letter, World};

verus! {

/// Starting dwell time per point, in microseconds (one tenth of a
/// second).
pub const PERIOD_START_US: u64 = 100_000;

/// Fastest dwell time per point the ramp reaches.
pub const PERIOD_MIN_US: u64 = 30_000;

/// How much one ramp step shortens the dwell time.
pub const PERIOD_STEP_US: u64 = 10_000;

/// Real time between ramp steps: ten seconds.
pub const SPEEDUP_INTERVAL_US: u64 = 10_000_000;

/// The graph never shrinks under this many blocks.
pub const WINDOW_MIN: usize = 25;

/// Blocks kept ahead of the agent: extension triggers while the agent is
/// within this margin of the tail.
pub const WINDOW_LOOKAHEAD: usize = 24;

/// Blocks kept at most; eviction at the head trims beyond this.
pub const WINDOW_MAX: usize = 100;

/// More blocks than one maintenance pass can ever append.
pub const WINDOW_BURST: usize = 130;

/// Largest wall-time step one frame may hand the simulation: a machine
/// limit (a thousand seconds) that keeps the clock arithmetic in bounds.
pub const MAX_FRAME_DELTA_US: u64 = 1_000_000_000;

/// A signed drift within one extension step stays within the budget of
/// one more step.
proof fn lemma_drift_step(d_old: int, delta: int, n_old: int, n_new: int)
    requires
        -(n_old * (2 * OFF_MAX)) <= d_old <= n_old * (2 * OFF_MAX),
        -(2 * OFF_MAX) <= delta <= 2 * OFF_MAX,
        0 <= n_old,
        n_old + 1 <= n_new,
    ensures
        -(n_new * (2 * OFF_MAX)) <= d_old + delta <= n_new * (2 * OFF_MAX),
{
    assert((n_old + 1) * (2 * OFF_MAX) == n_old * (2 * OFF_MAX) + 2 * OFF_MAX) by (nonlinear_arith);
    assert((n_old + 1) * (2 * OFF_MAX) <= n_new * (2 * OFF_MAX)) by (nonlinear_arith)
        requires
            n_old + 1 <= n_new,
            0 <= 2 * OFF_MAX,
    ;
}

/// A drift of at most `WINDOW_BURST` extension steps stays numerically
/// small against the anchoring budget.
proof fn lemma_drift_total(d: int, n: int)
    requires
        -(n * (2 * OFF_MAX)) <= d <= n * (2 * OFF_MAX),
        0 <= n <= WINDOW_BURST,
    ensures
        -(WINDOW_BURST * (2 * OFF_MAX)) <= d <= WINDOW_BURST * (2 * OFF_MAX),
{
    assert(n * (2 * OFF_MAX) <= WINDOW_BURST * (2 * OFF_MAX)) by (nonlinear_arith)
        requires
            0 <= n <= WINDOW_BURST,
            0 <= 2 * OFF_MAX,
    ;
}

/// Keep the graph window in shape: extend at the tail until the graph
/// has at least `WINDOW_MIN` blocks and more than `WINDOW_LOOKAHEAD`
/// blocks beyond the agent, then evict at the head, one block at a time,
/// until at most `WINDOW_MAX` blocks remain, decrementing the agent's
/// block index once per eviction so it keeps naming the same block.
///
/// Eviction never drops the graph under one block nor pushes the agent's
/// index below zero: the lookahead established first keeps the agent
/// strictly more than `WINDOW_LOOKAHEAD` blocks from the tail, so every
/// evicted block lies strictly behind the agent.
pub fn maintain_window(world: &mut World, state: &mut State)
    requires
        old(world).wf(),
        old(state).wf(*old(world)),
        old(world).rails@.len() <= WINDOW_MAX,
        -EXT_SAFE <= tail_exit_x(old(world).rails@) <= EXT_SAFE,
        -EXT_SAFE <= tail_exit_y(old(world).rails@) <= EXT_SAFE,
    ensures
        final(world).wf(),
        final(state).wf(*final(world)),
        WINDOW_MIN <= final(world).rails@.len() <= WINDOW_MAX,
        final(world).rails@.len() - final(state).current_rail_idx > WINDOW_LOOKAHEAD,
        final(state).current_point_idx == old(state).current_point_idx,
        final(state).alive == old(state).alive,
        final(state).timer_us == old(state).timer_us,
        final(state).speedup_timer_us == old(state).speedup_timer_us,
        final(state).current_rail_idx <= old(state).current_rail_idx,
        ({
            let k = old(state).current_rail_idx - final(state).current_rail_idx;
            forall|j: int|
                k <= j < old(world).rails@.len() ==> final(world).rails@[j - k]
                    == #[trigger] old(world).rails@[j]
        }),
        final(world).rails@[final(state).current_rail_idx as int] == old(world).rails@[old(
            state,
        ).current_rail_idx as int],
    {
        let ghost orig = old(world).rails@;
        let ghost len0 = old(world).rails@.len() as int;
        let ghost tail_x0 = tail_exit_x(orig);
        let ghost tail_y0 = tail_exit_y(orig);

        while world.rails.len() < WINDOW_MIN
            invariant
                world.wf(),
                *state == *old(state),
                len0 <= world.rails@.len() <= 100,
                world.rails@.subrange(0, len0) == orig,
                state.current_rail_idx < len0,
                old(state).wf(*old(world)),
                orig == old(world).rails@,
                len0 == old(world).rails@.len() as int,
                tail_x0 == tail_exit_x(orig),
                tail_y0 == tail_exit_y(orig),
                -EXT_SAFE <= tail_x0 <= EXT_SAFE,
                -EXT_SAFE <= tail_y0 <= EXT_SAFE,
                -((world.rails@.len() - len0) * (2 * OFF_MAX)) <= tail_exit_x(world.rails@)
                    - tail_x0 <= (world.rails@.len() - len0) * (2 * OFF_MAX),
                -((world.rails@.len() - len0) * (2 * OFF_MAX)) <= tail_exit_y(world.rails@)
                    - tail_y0 <= (world.rails@.len() - len0) * (2 * OFF_MAX),
            decreases 30 - world.rails@.len(),
        {
            let ghost before = world.rails@;
            proof {
                lemma_drift_total(tail_exit_x(before) - tail_x0, before.len() - len0);
                lemma_drift_total(tail_exit_y(before) - tail_y0, before.len() - len0);
            }
            preset_random(world);
            proof {
                assert(world.rails@.subrange(0, len0) =~= orig) by {
                    assert(world.rails@.subrange(0, before.len() as int) == before);
                    assert(forall|j: int|
                        0 <= j < len0 ==> world.rails@.subrange(0, before.len() as int)[j]
                            == world.rails@[j]);
                    assert(forall|j: int|
                        0 <= j < len0 ==> before.subrange(0, len0)[j] == before[j]);
                }
                lemma_drift_step(
                    tail_exit_x(before) - tail_x0,
                    tail_exit_x(world.rails@) - tail_exit_x(before),
                    before.len() - len0,
                    world.rails@.len() - len0,
                );
                lemma_drift_step(
                    tail_exit_y(before) - tail_y0,
                    tail_exit_y(world.rails@) - tail_exit_y(before),
                    before.len() - len0,
                    world.rails@.len() - len0,
                );
            }
        }

        let ghost len1 = world.rails@.len() as int;

        while state.current_rail_idx >= world.rails.len() - WINDOW_LOOKAHEAD
            invariant
                world.wf(),
                *state == *old(state),
                len0 <= len1 <= world.rails@.len(),
                WINDOW_MIN <= world.rails@.len(),
                len1 <= 100,
                world.rails@.len() == len1 || world.rails@.len() <= state.current_rail_idx + 26,
                world.rails@.len() <= 130,
                world.rails@.subrange(0, len0) == orig,
                state.current_rail_idx < len0,
                old(state).wf(*old(world)),
                orig == old(world).rails@,
                len0 == old(world).rails@.len() as int,
                tail_x0 == tail_exit_x(orig),
                tail_y0 == tail_exit_y(orig),
                -EXT_SAFE <= tail_x0 <= EXT_SAFE,
                -EXT_SAFE <= tail_y0 <= EXT_SAFE,
                -((world.rails@.len() - len0) * (2 * OFF_MAX)) <= tail_exit_x(world.rails@)
                    - tail_x0 <= (world.rails@.len() - len0) * (2 * OFF_MAX),
                -((world.rails@.len() - len0) * (2 * OFF_MAX)) <= tail_exit_y(world.rails@)
                    - tail_y0 <= (world.rails@.len() - len0) * (2 * OFF_MAX),
            decreases state.current_rail_idx + 30 - world.rails@.len(),
        {
            let ghost before = world.rails@;
            proof {
                lemma_drift_total(tail_exit_x(before) - tail_x0, before.len() - len0);
                lemma_drift_total(tail_exit_y(before) - tail_y0, before.len() - len0);
            }
            preset_random(world);
            proof {
                assert(world.rails@.subrange(0, len0) =~= orig) by {
                    assert(world.rails@.subrange(0, before.len() as int) == before);
                    assert(forall|j: int|
                        0 <= j < len0 ==> world.rails@.subrange(0, before.len() as int)[j]
                            == world.rails@[j]);
                    assert(forall|j: int|
                        0 <= j < len0 ==> before.subrange(0, len0)[j] == before[j]);
                }
                lemma_drift_step(
                    tail_exit_x(before) - tail_x0,
                    tail_exit_x(world.rails@) - tail_exit_x(before),
                    before.len() - len0,
                    world.rails@.len() - len0,
                );
                lemma_drift_step(
                    tail_exit_y(before) - tail_y0,
                    tail_exit_y(world.rails@) - tail_exit_y(before),
                    before.len() - len0,
                    world.rails@.len() - len0,
                );
            }
        }

        let ghost blocks2 = world.rails@;
        let ghost len2 = world.rails@.len() as int;
        let ghost idx2 = state.current_rail_idx as int;
        let ghost mut evicted: int = 0;

        while world.rails.len() > WINDOW_MAX
            invariant
                world.wf(),
                0 <= evicted <= idx2,
                state.current_rail_idx == idx2 - evicted,
                state.current_point_idx == old(state).current_point_idx,
                state.timer_us == old(state).timer_us,
                state.speedup_timer_us == old(state).speedup_timer_us,
                state.alive == old(state).alive,
                world.rails@ == blocks2.subrange(evicted, len2),
                len2 == blocks2.len(),
                len2 - idx2 > WINDOW_LOOKAHEAD,
                WINDOW_MIN <= len2,
                world.rails@.len() > WINDOW_MAX ==> world.rails@.len() <= state.current_rail_idx
                    + 26,
            decreases world.rails@.len(),
        {
            let ghost before = world.rails@;
            world.rails.remove(0);
            state.current_rail_idx = state.current_rail_idx - 1;
            proof {
                evicted = evicted + 1;
                assert(world.rails@ =~= blocks2.subrange(evicted, len2)) by {
                    assert(world.rails@ =~= before.subrange(1, before.len() as int));
                }
            }
        }

        proof {
            assert(world.rails@ == blocks2.subrange(evicted, len2));
            assert forall|j: int| evicted <= j < len0 implies world.rails@[j - evicted]
                == #[trigger] orig[j] by {
                assert(blocks2.subrange(evicted, len2)[j - evicted] == blocks2[j]);
                assert(blocks2.subrange(0, len0)[j] == blocks2[j]);
            }
            assert(world.rails@[state.current_rail_idx as int] == orig[old(
                state,
            ).current_rail_idx as int]);
        }
    }

/// The current waypoint coincides with the next one: a zero-length step
/// at a block boundary, skipped without advancing displayed time.
pub open spec fn degenerate_step(s: State, w: World) -> bool {
    &&& current_point_x(s, w) == next_point_x(s, w)
    &&& current_point_y(s, w) == next_point_y(s, w)
}

/// The ramp clock after one frame: advanced by the elapsed time, held at
/// the ramp interval once reached (only whether the interval was reached
/// is ever read, so holding loses nothing).
pub open spec fn bumped_speedup(sp: u64, delta: u64) -> u64 {
    if sp + delta >= SPEEDUP_INTERVAL_US {
        SPEEDUP_INTERVAL_US
    } else {
        (sp + delta) as u64
    }
}

/// One frame of the deterministic simulation core, before window
/// maintenance: on a degenerate step, advance once and do nothing else;
/// when dead, freeze; otherwise run the clocks by `delta`, advance one
/// point when the dwell time fills, and apply the speed ramp every
/// `SPEEDUP_INTERVAL_US` until `PERIOD_MIN_US`. Returns the new agent
/// state and the new dwell period.
pub open spec fn frame_step(s: State, w: World, period: u64, delta: u64) -> (State, u64) {
    if degenerate_step(s, w) {
        (advanced(s, w), period)
    } else if !s.alive {
        (s, period)
    } else {
        let sp = bumped_speedup(s.speedup_timer_us, delta);
        let s1 = if s.timer_us + delta >= period {
            State { timer_us: 0, speedup_timer_us: sp, ..advanced(s, w) }
        } else {
            State { timer_us: (s.timer_us + delta) as u64, speedup_timer_us: sp, ..s }
        };
        if s1.alive && sp >= SPEEDUP_INTERVAL_US && period > PERIOD_MIN_US {
            (State { speedup_timer_us: 0, ..s1 }, (period - PERIOD_STEP_US) as u64)
        } else {
            (s1, period)
        }
    }
}

/// What the agent's pose is drawn from: the three waypoints around the
/// agent and the dwell progress between the first two as an exact
/// fraction, held at one when the agent is dead.
pub struct RenderPose {
    pub current: Point,
    pub next: Point,
    pub next_next: Point,
    pub progress_num: u64,
    pub progress_den: u64,
    pub alive: bool,
}

/// The whole simulation: the track graph, the agent, and the current
/// dwell period (the difficulty ramp shortens it over time).
pub struct Sim {
    pub world: World,
    pub state: State,
    pub us_per_point: u64,
}

impl Sim {
    /// Graph and agent well formed, the graph within the window cap,
    /// clocks within their resets, and the period a multiple of the ramp
    /// step between its floor and its start.
    pub open spec fn wf(&self) -> bool {
        &&& self.world.wf()
        &&& self.state.wf(self.world)
        &&& PERIOD_MIN_US <= self.us_per_point <= PERIOD_START_US
        &&& self.us_per_point % PERIOD_STEP_US == 0
        &&& self.state.timer_us <= PERIOD_START_US
        &&& self.state.speedup_timer_us <= SPEEDUP_INTERVAL_US
        &&& self.world.rails@.len() <= WINDOW_MAX
    }

    /// A fresh playthrough: four straight runs from the origin, the
    /// agent at block zero point zero, the dwell period at its start.
    pub fn new() -> (sim: Sim)
        ensures
            sim.wf(),
            sim.world.rails@.len() == 4,
            sim.state.current_rail_idx == 0,
            sim.state.current_point_idx == 0,
            sim.state.alive,
            sim.state.timer_us == 0,
            sim.state.speedup_timer_us == 0,
            sim.us_per_point == PERIOD_START_US,
    {
        let mut world = World { rails: Vec::new() };
        preset_0_straight(&mut world);
        preset_0_straight(&mut world);
        preset_0_straight(&mut world);
        preset_0_straight(&mut world);
        let state = State::new();
        Sim { world, state, us_per_point: PERIOD_START_US }
    }

    /// Advance the simulation by `delta_us` of wall time: skip a
    /// degenerate step, else run the clocks, the point advance, and the
    /// speed ramp, then maintain the graph window around the agent.
    pub fn advance_simulation(&mut self, delta_us: u64)
        requires
            old(self).wf(),
            delta_us <= MAX_FRAME_DELTA_US,
            -EXT_SAFE <= tail_exit_x(old(self).world.rails@) <= EXT_SAFE,
            -EXT_SAFE <= tail_exit_y(old(self).world.rails@) <= EXT_SAFE,
        ensures
            final(self).wf(),
            ({
                let (s2, p2) = frame_step(
                    old(self).state,
                    old(self).world,
                    old(self).us_per_point,
                    delta_us,
                );
                &&& final(self).us_per_point == p2
                &&& final(self).state.current_point_idx == s2.current_point_idx
                &&& final(self).state.alive == s2.alive
                &&& final(self).state.timer_us == s2.timer_us
                &&& final(self).state.speedup_timer_us == s2.speedup_timer_us
                &&& final(self).state.current_rail_idx <= s2.current_rail_idx
                &&& final(self).world.rails@[final(self).state.current_rail_idx as int]
                    == old(self).world.rails@[s2.current_rail_idx as int]
                &&& (degenerate_step(old(self).state, old(self).world) ==> final(self).world
                    == old(self).world && final(self).state == s2)
                &&& (!degenerate_step(old(self).state, old(self).world)
                    ==> WINDOW_MIN <= final(self).world.rails@.len()
                    && final(self).world.rails@.len() - final(self).state.current_rail_idx
                    > WINDOW_LOOKAHEAD)
            }),
    {
        let cur = self.state.get_current_point_world_position(&self.world);
        let nxt = self.state.get_next_point_world_position(&self.world);
        if cur.x == nxt.x && cur.y == nxt.y {
            self.state.move_to_next_point(&self.world);
            return;
        }

        if self.state.alive {
            let sp = if self.state.speedup_timer_us + delta_us >= SPEEDUP_INTERVAL_US {
                SPEEDUP_INTERVAL_US
            } else {
                self.state.speedup_timer_us + delta_us
            };
            self.state.speedup_timer_us = sp;

            let t = self.state.timer_us + delta_us;
            if t >= self.us_per_point {
                self.state.timer_us = 0;
                self.state.move_to_next_point(&self.world);
            } else {
                self.state.timer_us = t;
            }

            if self.state.alive && sp >= SPEEDUP_INTERVAL_US && self.us_per_point
                > PERIOD_MIN_US {
                proof {
                    vstd::arithmetic::div_mod::lemma_mod_multiples_vanish(
                        1,
                        self.us_per_point - PERIOD_STEP_US,
                        PERIOD_STEP_US as int,
                    );
                }
                self.us_per_point = self.us_per_point - PERIOD_STEP_US;
                self.state.speedup_timer_us = 0;
            }
        }

        maintain_window(&mut self.world, &mut self.state);
    }

    /// Apply a player's lever pull for `letter`: switch the active
    /// branch of the next fork ahead of the agent with that letter, a
    /// no-op when none lies ahead. The agent's trajectory changes only
    /// once it reaches that fork.
    pub fn toggle_junction(&mut self, letter: Letter)
        requires
            old(self).wf(),
        ensures
            final(self).wf(),
            final(self).state == old(self).state,
            final(self).us_per_point == old(self).us_per_point,
            final(self).world.rails@.len() == old(self).world.rails@.len(),
            (forall|j: int|
                old(self).state.current_rail_idx + 1 <= j < old(self).world.rails@.len()
                    ==> !is_fork_with(#[trigger] old(self).world.rails@[j], letter))
                ==> final(self).world == old(self).world,
            (exists|j: int|
                old(self).state.current_rail_idx + 1 <= j < old(self).world.rails@.len()
                    && is_fork_with(#[trigger] old(self).world.rails@[j], letter)) ==> exists|
                i: int,
            |
                {
                    &&& old(self).state.current_rail_idx + 1 <= i < old(self).world.rails@.len()
                    &&& is_fork_with(#[trigger] old(self).world.rails@[i], letter)
                    &&& forall|j: int|
                        old(self).state.current_rail_idx + 1 <= j < i ==> !is_fork_with(
                            #[trigger] old(self).world.rails@[j],
                            letter,
                        )
                    &&& final(self).world.rails@ == old(self).world.rails@.update(
                        i,
                        fork_toggled(old(self).world.rails@[i]),
                    )
                },
    {
        let start = self.state.current_rail_idx + 1;
        self.world.toggle_next_fork(start, letter);
        proof {
            assert forall|i: int| 0 <= i < self.world.rails@.len() implies (
            #[trigger] self.world.rails@[i]).wf() by {
                if self.world.rails@[i] != old(self).world.rails@[i] {
                    assert(self.world.rails@[i] == fork_toggled(old(self).world.rails@[i]));
                }
            }
        }
    }

    /// The agent's pose for the current frame: its three surrounding
    /// waypoints, the dwell progress between the first two as an exact
    /// fraction in [0, 1] (held at one when dead), and the alive flag.
    pub fn current_render_pose(&self) -> (r: RenderPose)
        requires
            self.wf(),
        ensures
            r.current.x == current_point_x(self.state, self.world),
            r.current.y == current_point_y(self.state, self.world),
            r.next.x == next_point_x(self.state, self.world),
            r.next.y == next_point_y(self.state, self.world),
            r.next_next.x == next_next_point_x(self.state, self.world),
            r.next_next.y == next_next_point_y(self.state, self.world),
            r.alive == self.state.alive,
            r.progress_den == self.us_per_point,
            1 <= r.progress_den,
            r.progress_num <= r.progress_den,
            self.state.alive ==> r.progress_num == if self.state.timer_us <= self.us_per_point {
                self.state.timer_us
            } else {
                self.us_per_point
            },
            !self.state.alive ==> r.progress_num == r.progress_den,
    {
        let current = self.state.get_current_point_world_position(&self.world);
        let next = self.state.get_next_point_world_position(&self.world);
        let next_next = self.state.get_next_next_point_world_position(&self.world);
        let progress_num = if !self.state.alive {
            self.us_per_point
        } else if self.state.timer_us <= self.us_per_point {
            self.state.timer_us
        } else {
            self.us_per_point
        };
        RenderPose {
            current,
            next,
            next_next,
            progress_num,
            progress_den: self.us_per_point,
            alive: self.state.alive,
        }
    }
}

} // verus!
