//! Agent locomotion: the agent's place in the track graph (block index,
//! point index), its dwell timers, and the point-by-point advance with
//! dead-end termination.

use vstd::prelude::*;

use crate::geometry::Point;
use crate::track::{Block, ForkSelection, World};

verus! {

/// The agent's position in the graph and its clocks.
///
/// Timers count microseconds: `timer_us` is the dwell time at the
/// current point, `speedup_timer_us` the time since the last speed ramp.
pub struct State {
    pub current_rail_idx: usize,
    pub current_point_idx: usize,
    pub timer_us: u64,
    pub speedup_timer_us: u64,
    pub alive: bool,
}

/// Index of the block after the agent's, wrapping past the last block to
/// index zero.
pub open spec fn next_rail_idx(s: State, w: World) -> int {
    if s.current_rail_idx + 1 < w.rails@.len() {
        s.current_rail_idx + 1
    } else {
        0
    }
}

/// The locomotion transition: step to the next point; reaching the end
/// of a dead-end block kills the agent and clamps the point index to the
/// final full step; stepping past the end of a live block wraps to point
/// zero of the next block (modulo graph length).
pub open spec fn advanced(s: State, w: World) -> State {
    let rail = w.rails@[s.current_rail_idx as int].effective_rail();
    let len = rail.points@.len() as int;
    if rail.is_wall && s.current_point_idx + 1 >= len - 1 {
        State { current_point_idx: (len - 2) as usize, alive: false, ..s }
    } else if s.current_point_idx + 1 >= len {
        State { current_point_idx: 0, current_rail_idx: next_rail_idx(s, w) as usize, ..s }
    } else {
        State { current_point_idx: (s.current_point_idx + 1) as usize, ..s }
    }
}

/// World x coordinate of the agent's current waypoint.
pub open spec fn current_point_x(s: State, w: World) -> int {
    let r = w.rails@[s.current_rail_idx as int].effective_rail();
    r.position.x + r.points@[s.current_point_idx as int].x
}

/// World y coordinate of the agent's current waypoint.
pub open spec fn current_point_y(s: State, w: World) -> int {
    let r = w.rails@[s.current_rail_idx as int].effective_rail();
    r.position.y + r.points@[s.current_point_idx as int].y
}

/// World x coordinate of the waypoint after the agent's: the next point
/// of its block, or point zero of the next block.
pub open spec fn next_point_x(s: State, w: World) -> int {
    let r = w.rails@[s.current_rail_idx as int].effective_rail();
    if s.current_point_idx + 1 < r.points@.len() {
        r.position.x + r.points@[s.current_point_idx + 1].x
    } else {
        let nr = w.rails@[next_rail_idx(s, w)].effective_rail();
        nr.position.x + nr.points@[0].x
    }
}

/// World y coordinate of the waypoint after the agent's.
pub open spec fn next_point_y(s: State, w: World) -> int {
    let r = w.rails@[s.current_rail_idx as int].effective_rail();
    if s.current_point_idx + 1 < r.points@.len() {
        r.position.y + r.points@[s.current_point_idx + 1].y
    } else {
        let nr = w.rails@[next_rail_idx(s, w)].effective_rail();
        nr.position.y + nr.points@[0].y
    }
}

/// World x coordinate of the waypoint two ahead of the agent's. When it
/// falls outside the current block this reads point one (not zero) of
/// the next block: under seamless construction the next block's point
/// zero coincides with the current block's exit, a degenerate step the
/// interpolation skips.
pub open spec fn next_next_point_x(s: State, w: World) -> int {
    let r = w.rails@[s.current_rail_idx as int].effective_rail();
    if s.current_point_idx + 2 < r.points@.len() {
        r.position.x + r.points@[s.current_point_idx + 2].x
    } else {
        let nr = w.rails@[next_rail_idx(s, w)].effective_rail();
        nr.position.x + nr.points@[1].x
    }
}

/// World y coordinate of the waypoint two ahead of the agent's.
pub open spec fn next_next_point_y(s: State, w: World) -> int {
    let r = w.rails@[s.current_rail_idx as int].effective_rail();
    if s.current_point_idx + 2 < r.points@.len() {
        r.position.y + r.points@[s.current_point_idx + 2].y
    } else {
        let nr = w.rails@[next_rail_idx(s, w)].effective_rail();
        nr.position.y + nr.points@[1].y
    }
}

impl State {
    /// The agent points at an existing block and an existing point of
    /// that block's effective rail.
    pub open spec fn wf(&self, w: World) -> bool {
        &&& w.rails@.len() >= 1
        &&& self.current_rail_idx < w.rails@.len()
        &&& self.current_point_idx < w.rails@[self.current_rail_idx as int].effective_rail().points@.len()
    }

    /// A fresh agent: block zero, point zero, zeroed clocks, alive.
    pub fn new() -> (s: State)
        ensures
            s.current_rail_idx == 0,
            s.current_point_idx == 0,
            s.timer_us == 0,
            s.speedup_timer_us == 0,
            s.alive,
    {
        State {
            current_rail_idx: 0,
            current_point_idx: 0,
            timer_us: 0,
            speedup_timer_us: 0,
            alive: true,
        }
    }

    /// The block the agent is on.
    pub fn get_current_rail<'a>(&self, world: &'a World) -> (r: &'a Block)
        requires
            self.current_rail_idx < world.rails@.len(),
        ensures
            *r == world.rails@[self.current_rail_idx as int],
    {
        &world.rails[self.current_rail_idx]
    }

    /// The block after the agent's, wrapping past the tail.
    pub fn get_next_rail<'a>(&self, world: &'a World) -> (r: &'a Block)
        requires
            self.current_rail_idx < world.rails@.len(),
        ensures
            *r == world.rails@[next_rail_idx(*self, *world)],
    {
        let len = world.rails.len();
        let i = (self.current_rail_idx + 1) % len;
        proof {
            if self.current_rail_idx + 1 < len {
                vstd::arithmetic::div_mod::lemma_small_mod(
                    (self.current_rail_idx + 1) as nat,
                    len as nat,
                );
            } else {
                vstd::arithmetic::div_mod::lemma_mod_self_0(len as int);
            }
        }
        &world.rails[i]
    }

    /// Effective point sequence of the agent's block.
    pub fn get_current_rail_points<'a>(&self, world: &'a World) -> (r: &'a Vec<Point>)
        requires
            self.current_rail_idx < world.rails@.len(),
        ensures
            r@ == world.rails@[self.current_rail_idx as int].effective_rail().points@,
    {
        self.get_current_rail(world).points()
    }

    /// World position of the agent's current waypoint.
    pub fn get_current_point_world_position(&self, world: &World) -> (r: Point)
        requires
            world.wf(),
            self.wf(*world),
        ensures
            r.x == current_point_x(*self, *world),
            r.y == current_point_y(*self, *world),
    {
        let current_rail = self.get_current_rail(world);

        match current_rail {
            Block::Rail(rail) => {
                let p = rail.points[self.current_point_idx];
                Point { x: rail.position.x + p.x, y: rail.position.y + p.y }
            },
            Block::Fork(fork) => match fork.which {
                ForkSelection::Rail1 => {
                    let p = fork.rail1.points[self.current_point_idx];
                    Point { x: fork.rail1.position.x + p.x, y: fork.rail1.position.y + p.y }
                },
                ForkSelection::Rail2 => {
                    let p = fork.rail2.points[self.current_point_idx];
                    Point { x: fork.rail2.position.x + p.x, y: fork.rail2.position.y + p.y }
                },
            },
        }
    }

    /// World position of the waypoint after the agent's.
    pub fn get_next_point_world_position(&self, world: &World) -> (r: Point)
        requires
            world.wf(),
            self.wf(*world),
        ensures
            r.x == next_point_x(*self, *world),
            r.y == next_point_y(*self, *world),
    {
        let current_rail = self.get_current_rail(world);
        let next_rail = self.get_next_rail(world);

        let current_rail_points = current_rail.points();
        let current_rail_position = current_rail.position();
        let next_rail_points = next_rail.points();
        let next_rail_position = next_rail.position();

        if current_rail_points.len() > self.current_point_idx + 1 {
            let p = current_rail_points[self.current_point_idx + 1];
            Point { x: p.x + current_rail_position.x, y: p.y + current_rail_position.y }
        } else {
            let p = next_rail_points[0];
            Point { x: p.x + next_rail_position.x, y: p.y + next_rail_position.y }
        }
    }

    /// World position of the waypoint two ahead of the agent's.
    pub fn get_next_next_point_world_position(&self, world: &World) -> (r: Point)
        requires
            world.wf(),
            self.wf(*world),
        ensures
            r.x == next_next_point_x(*self, *world),
            r.y == next_next_point_y(*self, *world),
    {
        let current_rail = self.get_current_rail(world);
        let next_rail = self.get_next_rail(world);

        let current_rail_points = current_rail.points();
        let current_rail_position = current_rail.position();
        let next_rail_points = next_rail.points();
        let next_rail_position = next_rail.position();

        if current_rail_points.len() > self.current_point_idx + 2 {
            let p = current_rail_points[self.current_point_idx + 2];
            Point { x: p.x + current_rail_position.x, y: p.y + current_rail_position.y }
        } else {
            let p = next_rail_points[1];
            Point { x: p.x + next_rail_position.x, y: p.y + next_rail_position.y }
        }
    }

    /// Step to the next point, killing the agent at the end of a
    /// dead-end block and wrapping into the next block at the end of a
    /// live one. Leaves the clocks untouched.
    pub fn move_to_next_point(&mut self, world: &World)
        requires
            world.wf(),
            old(self).wf(*world),
        ensures
            *final(self) == advanced(*old(self), *world),
            final(self).wf(*world),
    {
        self.current_point_idx = self.current_point_idx + 1;

        let current_len = self.get_current_rail_points(world).len();
        let current_rail = &world.rails[self.current_rail_idx];
        let is_wall = match current_rail {
            Block::Rail(rail) => rail.is_wall,
            Block::Fork(fork) => match fork.which {
                ForkSelection::Rail1 => fork.rail1.is_wall,
                ForkSelection::Rail2 => fork.rail2.is_wall,
            },
        };
        if is_wall && self.current_point_idx >= current_len - 1 {
            self.alive = false;
            self.current_point_idx = current_len - 2;
            return;
        }

        if self.current_point_idx >= current_len {
            let n_rails = world.rails.len();
            self.current_point_idx = 0;
            self.current_rail_idx = self.current_rail_idx + 1;

            if self.current_rail_idx >= n_rails {
                self.current_rail_idx = 0;
            }
        }
    }
}

/// On a non-final point of a block that is not a dead end, one advance
/// strictly increments the point index by one and leaves the block
/// index and the alive flag unchanged.
pub proof fn lemma_advance_increments(s: State, w: World)
    requires
        w.wf(),
        s.wf(w),
        !w.rails@[s.current_rail_idx as int].effective_rail().is_wall,
        s.current_point_idx + 1 < w.rails@[
            s.current_rail_idx as int
        ].effective_rail().points@.len(),
    ensures
        advanced(s, w).current_point_idx == s.current_point_idx + 1,
        advanced(s, w).current_rail_idx == s.current_rail_idx,
        advanced(s, w).alive == s.alive,
{
}

/// On the final point of a dead-end block, one advance kills the agent
/// and clamps the point index to the final full step, and advancing
/// again changes nothing: the terminal state is a fixed point.
pub proof fn lemma_advance_dead_end(s: State, w: World)
    requires
        w.wf(),
        s.wf(w),
        w.rails@[s.current_rail_idx as int].effective_rail().is_wall,
        s.current_point_idx + 1 >= w.rails@[
            s.current_rail_idx as int
        ].effective_rail().points@.len() - 1,
    ensures
        !advanced(s, w).alive,
        advanced(s, w).current_point_idx == w.rails@[
            s.current_rail_idx as int
        ].effective_rail().points@.len() - 2,
        advanced(s, w).current_rail_idx == s.current_rail_idx,
        advanced(advanced(s, w), w) == advanced(s, w),
{
}

/// On the final point of a block that is not a dead end, one advance
/// wraps the point index to zero and increments the block index modulo
/// the graph length, leaving the alive flag unchanged.
pub proof fn lemma_advance_wraps(s: State, w: World)
    requires
        w.wf(),
        s.wf(w),
        !w.rails@[s.current_rail_idx as int].effective_rail().is_wall,
        s.current_point_idx + 1 == w.rails@[
            s.current_rail_idx as int
        ].effective_rail().points@.len(),
    ensures
        advanced(s, w).current_point_idx == 0,
        advanced(s, w).current_rail_idx == (s.current_rail_idx + 1) % (w.rails@.len() as int),
        advanced(s, w).alive == s.alive,
{
    assert(w.rails.len() == w.rails@.len());
    let len = w.rails@.len() as int;
    let i = s.current_rail_idx as int;
    if i + 1 < len {
        assert((i + 1) % len == i + 1) by (nonlinear_arith)
            requires
                0 <= i + 1 < len,
        ;
    } else {
        assert(len % len == 0) by (nonlinear_arith)
            requires
                1 <= len,
        ;
    }
}

} // verus!
