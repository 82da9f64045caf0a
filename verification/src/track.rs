//! The track model: plain segments (`Rail`), two-way branch points
//! (`Fork`), the sum type over the two (`Block`), and the ordered graph
//! of blocks the agent travels (`World`).

use vstd::prelude::*;

use crate::geometry::{
    curved_offsets, heading_at, lemma_curved_offsets_bounded, lemma_curved_offsets_distinct,
    lemma_curved_offsets_first, lemma_curved_offsets_len, lemma_heading_at_range,
    lemma_unit_bounds, offsets_match, heading_unit, Point, MAX_ARC_SPAN, N_HEADINGS, OFF_MAX,
    POS_MAX, POS_SAFE,
};

verus! {

/// Identifier of a player lever; each fork carries one, and a lever pull
/// targets the next fork ahead bearing the same letter.
#[derive(Clone, Copy, PartialEq, Eq, Structural, Debug)]
pub enum Letter {
    A,
    B,
    C,
}

/// Which of a fork's two branches the agent traverses.
#[derive(Clone, Copy, PartialEq, Eq, Structural, Debug)]
pub enum ForkSelection {
    Rail1,
    Rail2,
}

/// The other branch selector.
pub open spec fn toggled(s: ForkSelection) -> ForkSelection {
    match s {
        ForkSelection::Rail1 => ForkSelection::Rail2,
        ForkSelection::Rail2 => ForkSelection::Rail1,
    }
}

/// Toggling a selection twice returns it to the original branch.
pub proof fn lemma_toggle_involutive(s: ForkSelection)
    ensures
        toggled(toggled(s)) == s,
{
}

impl ForkSelection {
    /// Flip to the other branch.
    pub fn toggle(&self) -> (r: Self)
        ensures
            r == toggled(*self),
    {
        match self {
            ForkSelection::Rail1 => ForkSelection::Rail2,
            ForkSelection::Rail2 => ForkSelection::Rail1,
        }
    }
}

/// A plain track segment: an anchored polyline of at least two offsets,
/// optionally a dead end ("wall") that terminates the agent.
///
/// `exit_heading` records the heading of the final step, fixed when the
/// polyline is generated; a connecting segment starts from it.
pub struct Rail {
    pub position: Point,
    pub points: Vec<Point>,
    pub is_wall: bool,
    pub exit_heading: i64,
}

impl Rail {
    /// Well-formedness: at least two points (movement needs a heading),
    /// bounded offsets and anchor, distinct consecutive points, and an
    /// exit heading in range.
    pub open spec fn wf(&self) -> bool {
        &&& self.points@.len() >= 2
        &&& self.points@.len() <= MAX_ARC_SPAN
        &&& forall|i: int|
            0 <= i < self.points@.len() ==> -OFF_MAX <= (#[trigger] self.points@[i]).x <= OFF_MAX
                && -OFF_MAX <= self.points@[i].y <= OFF_MAX
        &&& forall|i: int| 1 <= i < self.points@.len() ==> #[trigger] self.points@[i] != self.points@[i - 1]
        &&& 0 <= self.exit_heading < N_HEADINGS
        &&& -POS_MAX <= self.position.x <= POS_MAX
        &&& -POS_MAX <= self.position.y <= POS_MAX
    }

    /// Build a discretized arc: point 0 is the origin, and point `i` is
    /// point `i - 1` plus a step of `dist` world units at heading
    /// `start_angle + i * angle_step` (wrapped). A zero `angle_step`
    /// yields a straight segment.
    pub fn new_curved(
        position: Point,
        start_angle: i64,
        is_wall: bool,
        dist: i64,
        n_points: usize,
        angle_step: i64,
    ) -> (r: Rail)
        requires
            0 <= start_angle < N_HEADINGS,
            -N_HEADINGS < angle_step < N_HEADINGS,
            1 <= dist,
            2 <= n_points,
            n_points * dist <= MAX_ARC_SPAN,
            -POS_MAX <= position.x <= POS_MAX,
            -POS_MAX <= position.y <= POS_MAX,
        ensures
            r.wf(),
            r.position == position,
            r.is_wall == is_wall,
            r.points@.len() == n_points,
            offsets_match(
                r.points@,
                curved_offsets(start_angle as int, angle_step as int, dist as int, n_points as nat),
            ),
            r.exit_heading == heading_at(
                start_angle as int,
                angle_step as int,
                (n_points - 1) as nat,
            ),
    {
        let ghost s = start_angle as int;
        let ghost a = angle_step as int;
        let ghost d = dist as int;
        proof {
            assert(dist * 65536 <= OFF_MAX && 2 * dist <= n_points * dist && n_points
                <= MAX_ARC_SPAN) by (nonlinear_arith)
                requires
                    1 <= dist,
                    2 <= n_points,
                    n_points * dist <= MAX_ARC_SPAN,
                    OFF_MAX == MAX_ARC_SPAN * 65536,
            ;
        }
        let mut pts: Vec<Point> = Vec::new();
        pts.push(Point { x: 0, y: 0 });
        let mut h: i64 = start_angle;
        let mut i: usize = 1;
        proof {
            lemma_curved_offsets_len(s, a, d, 1nat);
            lemma_curved_offsets_first(s, a, d, 1nat);
        }
        while i < n_points
            invariant
                1 <= i <= n_points,
                2 <= n_points,
                1 <= dist,
                n_points * dist <= MAX_ARC_SPAN,
                dist * 65536 <= OFF_MAX,
                0 <= start_angle < N_HEADINGS,
                -N_HEADINGS < angle_step < N_HEADINGS,
                s == start_angle as int,
                a == angle_step as int,
                d == dist as int,
                pts@.len() == i,
                offsets_match(pts@, curved_offsets(s, a, d, i as nat)),
                h == heading_at(s, a, (i - 1) as nat),
                0 <= h < N_HEADINGS,
            decreases n_points - i,
        {
            let sum = h + angle_step;
            let k = if sum < 0 {
                sum + 32
            } else if sum >= 32 {
                sum - 32
            } else {
                sum
            };
            proof {
                assert(k as int == heading_at(s, a, i as nat));
                lemma_heading_at_range(s, a, i as nat);
                lemma_unit_bounds(k as int);
            }
            let u = heading_unit(k);
            proof {
                assert(-(dist * 65536) <= dist * (u.0 as int) <= dist * 65536) by (nonlinear_arith)
                    requires
                        1 <= dist,
                        -65536 <= u.0 <= 65536,
                ;
                assert(-(dist * 65536) <= dist * (u.1 as int) <= dist * 65536) by (nonlinear_arith)
                    requires
                        1 <= dist,
                        -65536 <= u.1 <= 65536,
                ;
                lemma_curved_offsets_len(s, a, d, i as nat);
                lemma_curved_offsets_bounded(s, a, d, i as nat, i - 1);
                assert((i - 1) * (dist * 65536) <= MAX_ARC_SPAN * 65536) by (nonlinear_arith)
                    requires
                        1 <= i <= n_points,
                        1 <= dist,
                        n_points * dist <= MAX_ARC_SPAN,
                        0 <= MAX_ARC_SPAN,
                ;
            }
            let sx = dist * u.0;
            let sy = dist * u.1;
            let prev = pts[i - 1];
            pts.push(Point { x: prev.x + sx, y: prev.y + sy });
            proof {
                lemma_curved_offsets_len(s, a, d, (i + 1) as nat);
                assert(offsets_match(pts@, curved_offsets(s, a, d, (i + 1) as nat)));
            }
            h = k;
            i = i + 1;
        }
        proof {
            assert(n_points <= MAX_ARC_SPAN) by (nonlinear_arith)
                requires
                    1 <= dist,
                    n_points * dist <= MAX_ARC_SPAN,
                    0 <= n_points,
            ;
            let offs = curved_offsets(s, a, d, n_points as nat);
            assert forall|j: int| 0 <= j < n_points implies -OFF_MAX <= (#[trigger] pts@[j]).x
                <= OFF_MAX && -OFF_MAX <= pts@[j].y <= OFF_MAX by {
                lemma_curved_offsets_bounded(s, a, d, n_points as nat, j);
                assert(j * (dist * 65536) <= MAX_ARC_SPAN * 65536) by (nonlinear_arith)
                    requires
                        0 <= j < n_points,
                        1 <= dist,
                        n_points * dist <= MAX_ARC_SPAN,
                        0 <= MAX_ARC_SPAN,
                ;
            }
            assert forall|j: int| 1 <= j < n_points implies #[trigger] pts@[j] != pts@[j - 1] by {
                lemma_curved_offsets_distinct(s, a, d, n_points as nat, j);
            }
        }
        Rail { position, points: pts, is_wall, exit_heading: h }
    }

    /// A straight segment: an arc with a zero angular step.
    pub fn new_straight(
        position: Point,
        start_angle: i64,
        is_wall: bool,
        dist: i64,
        n_points: usize,
    ) -> (r: Rail)
        requires
            0 <= start_angle < N_HEADINGS,
            1 <= dist,
            2 <= n_points,
            n_points * dist <= MAX_ARC_SPAN,
            -POS_MAX <= position.x <= POS_MAX,
            -POS_MAX <= position.y <= POS_MAX,
        ensures
            r.wf(),
            r.position == position,
            r.is_wall == is_wall,
            r.points@.len() == n_points,
            offsets_match(
                r.points@,
                curved_offsets(start_angle as int, 0, dist as int, n_points as nat),
            ),
            r.exit_heading == start_angle,
    {
        let r = Self::new_curved(position, start_angle, is_wall, dist, n_points, 0);
        proof {
            crate::geometry::lemma_heading_at_is_start(start_angle as int, (n_points - 1) as nat);
        }
        r
    }

    /// Heading of the segment's final step: the direction a connecting
    /// segment should continue in.
    pub fn last_angle(&self) -> (r: i64)
        ensures
            r == self.exit_heading,
    {
        self.exit_heading
    }
}

/// A branch point: two candidate segments sharing an entry, one of which
/// is active for traversal, tagged with a player-facing letter.
pub struct Fork {
    pub rail1: Rail,
    pub rail2: Rail,
    pub which: ForkSelection,
    pub letter: Letter,
}

impl Fork {
    pub open spec fn wf(&self) -> bool {
        &&& self.rail1.wf()
        &&& self.rail2.wf()
    }

    /// The branch the agent traverses.
    pub open spec fn active_rail(&self) -> Rail {
        match self.which {
            ForkSelection::Rail1 => self.rail1,
            ForkSelection::Rail2 => self.rail2,
        }
    }

    /// The branch the graph continues from: the live (non-dead-end)
    /// branch when there is one, regardless of which branch is active.
    pub open spec fn live_rail(&self) -> Rail {
        if !self.rail1.is_wall {
            self.rail1
        } else {
            self.rail2
        }
    }

    /// Exit heading of the live branch.
    pub fn last_angle(&self) -> (r: i64)
        ensures
            r == self.live_rail().exit_heading,
    {
        if !self.rail1.is_wall {
            self.rail1.last_angle()
        } else {
            self.rail2.last_angle()
        }
    }

    /// Points of the active branch.
    pub fn points(&self) -> (r: &Vec<Point>)
        ensures
            r@ == self.active_rail().points@,
    {
        match self.which {
            ForkSelection::Rail1 => &self.rail1.points,
            ForkSelection::Rail2 => &self.rail2.points,
        }
    }

    /// Anchor of the active branch.
    pub fn position(&self) -> (r: Point)
        ensures
            r == self.active_rail().position,
    {
        match self.which {
            ForkSelection::Rail1 => self.rail1.position,
            ForkSelection::Rail2 => self.rail2.position,
        }
    }
}

/// A unit of track: a plain segment or a fork.
pub enum Block {
    Rail(Rail),
    Fork(Fork),
}

impl Block {
    pub open spec fn wf(&self) -> bool {
        match self {
            Block::Rail(rail) => rail.wf(),
            Block::Fork(fork) => fork.wf(),
        }
    }

    /// The segment the agent traverses: a fork resolves to its active
    /// branch.
    pub open spec fn effective_rail(&self) -> Rail {
        match self {
            Block::Rail(rail) => *rail,
            Block::Fork(fork) => fork.active_rail(),
        }
    }

    /// The segment the graph continues from: a fork resolves to its live
    /// branch.
    pub open spec fn continuation_rail(&self) -> Rail {
        match self {
            Block::Rail(rail) => *rail,
            Block::Fork(fork) => fork.live_rail(),
        }
    }

    /// Effective point sequence.
    pub fn points(&self) -> (r: &Vec<Point>)
        ensures
            r@ == self.effective_rail().points@,
    {
        match self {
            Block::Rail(rail) => &rail.points,
            Block::Fork(fork) => fork.points(),
        }
    }

    /// Effective anchor position.
    pub fn position(&self) -> (r: Point)
        ensures
            r == self.effective_rail().position,
    {
        match self {
            Block::Rail(rail) => rail.position,
            Block::Fork(fork) => fork.position(),
        }
    }
}

/// `b` is a fork tagged with `letter`.
pub open spec fn is_fork_with(b: Block, letter: Letter) -> bool {
    b matches Block::Fork(f) && f.letter == letter
}

/// The ordered graph of blocks the agent travels: grown at the tail by
/// the procedural builder, evicted at the head by window maintenance.
pub struct World {
    pub rails: Vec<Block>,
}

/// Every block of the sequence is well formed.
pub open spec fn blocks_wf(blocks: Seq<Block>) -> bool {
    forall|i: int| 0 <= i < blocks.len() ==> (#[trigger] blocks[i]).wf()
}

/// World x coordinate of the exit point of a block's continuation rail.
pub open spec fn block_exit_x(b: Block) -> int {
    let r = b.continuation_rail();
    r.position.x + r.points@[r.points@.len() - 1].x
}

/// World y coordinate of the exit point of a block's continuation rail.
pub open spec fn block_exit_y(b: Block) -> int {
    let r = b.continuation_rail();
    r.position.y + r.points@[r.points@.len() - 1].y
}

/// World x coordinate where the next appended block should anchor: the
/// origin for an empty graph, else the exit of the last block.
pub open spec fn tail_exit_x(blocks: Seq<Block>) -> int {
    if blocks.len() == 0 {
        0
    } else {
        block_exit_x(blocks[blocks.len() - 1])
    }
}

/// World y coordinate where the next appended block should anchor.
pub open spec fn tail_exit_y(blocks: Seq<Block>) -> int {
    if blocks.len() == 0 {
        0
    } else {
        block_exit_y(blocks[blocks.len() - 1])
    }
}

/// Heading the next appended block should start at: zero for an empty
/// graph, else the exit heading of the last block's continuation rail.
pub open spec fn tail_exit_heading(blocks: Seq<Block>) -> int {
    if blocks.len() == 0 {
        0
    } else {
        blocks[blocks.len() - 1].continuation_rail().exit_heading as int
    }
}

/// The graph's tail exit leaves room to anchor one more block without
/// any coordinate leaving `POS_MAX`: a machine limit, not a track rule.
pub open spec fn extendable(blocks: Seq<Block>) -> bool {
    &&& -POS_SAFE <= tail_exit_x(blocks) <= POS_SAFE
    &&& -POS_SAFE <= tail_exit_y(blocks) <= POS_SAFE
}

/// A block with the fork's active branch switched; a plain segment is
/// returned unchanged. Only the selection changes: both branches'
/// geometry, the tag, everything else stays.
pub open spec fn fork_toggled(b: Block) -> Block {
    match b {
        Block::Rail(rail) => b,
        Block::Fork(f) => Block::Fork(Fork { which: toggled(f.which), ..f }),
    }
}

/// Switching a fork twice restores the block exactly, and switching
/// never touches either branch's geometry, the tag, or a plain segment.
pub proof fn lemma_fork_toggled_involutive(b: Block)
    ensures
        fork_toggled(fork_toggled(b)) == b,
        b matches Block::Fork(f) ==> {
            &&& fork_toggled(b) matches Block::Fork(g)
            &&& g.rail1 == f.rail1
            &&& g.rail2 == f.rail2
            &&& g.letter == f.letter
            &&& g.which == toggled(f.which)
        },
        b matches Block::Rail(r) ==> fork_toggled(b) == b,
{
}

impl World {
    pub open spec fn wf(&self) -> bool {
        blocks_wf(self.rails@)
    }

    /// Index of the first fork at or after `starting_idx` whose letter
    /// matches, scanning forward only (no wraparound), or `None` if no
    /// block ahead matches.
    pub fn find_next_fork_index(&self, starting_idx: usize, letter: Letter) -> (r: Option<usize>)
        ensures
            match r {
                Some(i) => starting_idx <= i < self.rails@.len() && is_fork_with(
                    self.rails@[i as int],
                    letter,
                ) && forall|j: int|
                    starting_idx <= j < i ==> !is_fork_with(#[trigger] self.rails@[j], letter),
                None => forall|j: int|
                    starting_idx <= j < self.rails@.len() ==> !is_fork_with(
                        #[trigger] self.rails@[j],
                        letter,
                    ),
            },
    {
        let mut i = starting_idx;
        while i < self.rails.len()
            invariant
                starting_idx <= i,
                forall|j: int|
                    starting_idx <= j < i ==> !is_fork_with(#[trigger] self.rails@[j], letter),
            decreases self.rails@.len() - i,
        {
            if let Block::Fork(f) = &self.rails[i] {
                if f.letter == letter {
                    return Some(i);
                }
            }
            i = i + 1;
        }
        None
    }

    /// Apply a player's lever pull: find the first fork at or after
    /// `starting_idx` tagged with `letter` and switch its active branch.
    /// With no matching fork ahead this is a no-op, not an error.
    pub fn toggle_next_fork(&mut self, starting_idx: usize, letter: Letter)
        ensures
            (forall|j: int|
                starting_idx <= j < old(self).rails@.len() ==> !is_fork_with(
                    #[trigger] old(self).rails@[j],
                    letter,
                )) ==> *final(self) == *old(self),
            (exists|j: int|
                starting_idx <= j < old(self).rails@.len() && is_fork_with(
                    #[trigger] old(self).rails@[j],
                    letter,
                )) ==> exists|i: int|
                {
                    &&& starting_idx <= i < old(self).rails@.len()
                    &&& is_fork_with(#[trigger] old(self).rails@[i], letter)
                    &&& forall|j: int|
                        starting_idx <= j < i ==> !is_fork_with(#[trigger] old(self).rails@[j], letter)
                    &&& final(self).rails@ == old(self).rails@.update(
                        i,
                        fork_toggled(old(self).rails@[i]),
                    )
                },
    {
        if let Some(idx) = self.find_next_fork_index(starting_idx, letter) {
            let block = self.rails.remove(idx);
            match block {
                Block::Fork(f) => {
                    let flipped = Fork {
                        rail1: f.rail1,
                        rail2: f.rail2,
                        which: f.which.toggle(),
                        letter: f.letter,
                    };
                    self.rails.insert(idx, Block::Fork(flipped));
                    proof {
                        assert(self.rails@ =~= old(self).rails@.update(
                            idx as int,
                            fork_toggled(old(self).rails@[idx as int]),
                        ));
                    }
                },
                Block::Rail(r) => {
                    self.rails.insert(idx, Block::Rail(r));
                    proof {
                        assert(self.rails@ =~= old(self).rails@);
                    }
                },
            }
        }
    }
}

/// Whether the graph can take one more block without any coordinate
/// leaving its budget; the presentation layer checks this before asking
/// for an extension.
pub fn can_extend(world: &World) -> (r: bool)
    requires
        world.wf(),
    ensures
        r == extendable(world.rails@),
{
    let p = get_last_rail_world_position(world);
    -POS_SAFE <= p.x && p.x <= POS_SAFE && -POS_SAFE <= p.y && p.y <= POS_SAFE
}

/// World position where the next appended block should anchor: the
/// origin for an empty world, else the exit point of the last block's
/// continuation rail (the live branch of a fork, so the graph keeps
/// extending coherently even while a dead-end branch is selected).
pub fn get_last_rail_world_position(world: &World) -> (r: Point)
    requires
        world.wf(),
    ensures
        r.x == tail_exit_x(world.rails@),
        r.y == tail_exit_y(world.rails@),
        -(POS_MAX + OFF_MAX) <= r.x <= POS_MAX + OFF_MAX,
        -(POS_MAX + OFF_MAX) <= r.y <= POS_MAX + OFF_MAX,
{
    if world.rails.len() == 0 {
        return Point { x: 0, y: 0 };
    }

    let last = &world.rails[world.rails.len() - 1];

    match last {
        Block::Rail(rail) => {
            let lp = rail.points[rail.points.len() - 1];
            Point { x: rail.position.x + lp.x, y: rail.position.y + lp.y }
        },
        Block::Fork(fork) => {
            if !fork.rail1.is_wall {
                let lp = fork.rail1.points[fork.rail1.points.len() - 1];
                Point { x: fork.rail1.position.x + lp.x, y: fork.rail1.position.y + lp.y }
            } else {
                let lp = fork.rail2.points[fork.rail2.points.len() - 1];
                Point { x: fork.rail2.position.x + lp.x, y: fork.rail2.position.y + lp.y }
            }
        },
    }
}

/// Heading the next appended block should start at, in `[0, N_HEADINGS)`.
pub fn get_last_rail_world_start_angle(world: &World) -> (r: i64)
    requires
        world.wf(),
    ensures
        r == tail_exit_heading(world.rails@),
        0 <= r < N_HEADINGS,
{
    if world.rails.len() == 0 {
        return 0;
    }

    let last = &world.rails[world.rails.len() - 1];

    match last {
        Block::Rail(rail) => rail.last_angle(),
        Block::Fork(fork) => fork.last_angle(),
    }
}

} // verus!
