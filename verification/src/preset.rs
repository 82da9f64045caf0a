//! Procedural track builder: canned segment and fork shapes appended to
//! the graph tail, each anchored at the tail's exit position and heading
//! so the track connects seamlessly, composed by a weighted random
//! policy.

use vstd::prelude::*;

use rand::Rng;

use crate::geometry::{
    curved_offsets, heading_at, offsets_match, Point, OFF_MAX, POS_MAX, POS_SAFE,
};
use crate::track::{
    extendable, get_last_rail_world_position, get_last_rail_world_start_angle, tail_exit_heading,
    tail_exit_x, tail_exit_y, Block, Fork, ForkSelection, Letter, Rail, World,
};

verus! {

/// World units between consecutive points of every canned shape.
pub const RAIL_STEP_UNITS: i64 = 30;

/// Point count of a straight run.
pub const STRAIGHT_POINTS: usize = 8;

/// Point count of a gentle turn.
pub const TURN_POINTS: usize = 7;

/// Point count of a sharp turn.
pub const U_TURN_POINTS: usize = 5;

/// Heading change per point of a gentle turn: one heading step.
pub const TURN_STEP: i64 = 1;

/// Heading change per point of a sharp turn: two heading steps.
pub const U_TURN_STEP: i64 = 2;

/// Relies on rand: `Rng::random_range` over the nonempty inclusive range
/// `1..=max` returns a value inside that range, drawn from the
/// thread-local generator.
#[verifier::external_body]
fn random_number(max: i32) -> (r: i32)
    requires
        1 <= max,
    ensures
        1 <= r <= max,
{
    rand::rng().random_range(1..=max)
}

/// Sign a turn's heading step is multiplied by: mirrored when flipped.
pub open spec fn flip_sign(flipped: bool) -> int {
    if flipped {
        1
    } else {
        -1
    }
}

/// The multiplier a flipped shape applies to its heading step.
pub fn get_flipped_mult(flipped: bool) -> (m: i64)
    ensures
        m == flip_sign(flipped),
{
    if flipped {
        1
    } else {
        -1
    }
}

/// The letter a die roll selects: 1 is A, 2 is B, anything else C.
pub open spec fn letter_from_spec(n: int) -> Letter {
    if n == 1 {
        Letter::A
    } else if n == 2 {
        Letter::B
    } else {
        Letter::C
    }
}

/// Map a die roll to a letter.
pub fn letter_from(n: i32) -> (l: Letter)
    ensures
        l == letter_from_spec(n as int),
{
    match n {
        1 => Letter::A,
        2 => Letter::B,
        _ => Letter::C,
    }
}

/// A uniformly random letter from the closed tag set.
pub fn random_letter() -> (l: Letter) {
    letter_from(random_number(3))
}

/// `r` is an arc of `n` points at `astep` heading change per point,
/// anchored at the tail exit of `blocks`.
pub open spec fn rail_shaped(
    blocks: Seq<Block>,
    r: Rail,
    is_wall: bool,
    astep: int,
    n: int,
) -> bool {
    &&& r.position.x == tail_exit_x(blocks)
    &&& r.position.y == tail_exit_y(blocks)
    &&& r.is_wall == is_wall
    &&& r.points@.len() == n
    &&& offsets_match(
        r.points@,
        curved_offsets(tail_exit_heading(blocks), astep, RAIL_STEP_UNITS as int, n as nat),
    )
    &&& r.exit_heading == heading_at(tail_exit_heading(blocks), astep, (n - 1) as nat)
}

/// `b` is a straight run anchored at the tail of `blocks`.
pub open spec fn straight_block_at(blocks: Seq<Block>, b: Block) -> bool {
    b matches Block::Rail(r) && rail_shaped(blocks, r, false, 0, STRAIGHT_POINTS as int)
}

/// `b` is a gentle turn anchored at the tail of `blocks`.
pub open spec fn turn_block_at(blocks: Seq<Block>, b: Block, flipped: bool) -> bool {
    b matches Block::Rail(r) && rail_shaped(
        blocks,
        r,
        false,
        flip_sign(flipped) * TURN_STEP,
        TURN_POINTS as int,
    )
}

/// `b` is a sharp turn anchored at the tail of `blocks`.
pub open spec fn u_turn_block_at(blocks: Seq<Block>, b: Block, flipped: bool) -> bool {
    b matches Block::Rail(r) && rail_shaped(
        blocks,
        r,
        false,
        flip_sign(flipped) * U_TURN_STEP,
        U_TURN_POINTS as int,
    )
}

/// `b` is a symmetric gentle-turn fork anchored at the tail of `blocks`:
/// two mirrored turns, exactly one a dead end, branch two active.
pub open spec fn fork_90_block_at(
    blocks: Seq<Block>,
    b: Block,
    wall1: bool,
    flip1: bool,
    letter: Letter,
) -> bool {
    &&& b matches Block::Fork(f)
    &&& f.which == ForkSelection::Rail2
    &&& f.letter == letter
    &&& rail_shaped(blocks, f.rail1, wall1, flip_sign(flip1) * TURN_STEP, TURN_POINTS as int)
    &&& rail_shaped(blocks, f.rail2, !wall1, flip_sign(!flip1) * TURN_STEP, TURN_POINTS as int)
}

/// `b` is a symmetric sharp-turn fork anchored at the tail of `blocks`.
pub open spec fn fork_u_block_at(
    blocks: Seq<Block>,
    b: Block,
    wall1: bool,
    flip1: bool,
    letter: Letter,
) -> bool {
    &&& b matches Block::Fork(f)
    &&& f.which == ForkSelection::Rail2
    &&& f.letter == letter
    &&& rail_shaped(blocks, f.rail1, wall1, flip_sign(flip1) * U_TURN_STEP, U_TURN_POINTS as int)
    &&& rail_shaped(blocks, f.rail2, !wall1, flip_sign(!flip1) * U_TURN_STEP, U_TURN_POINTS as int)
}

/// A straight run of eight points at the standard step.
pub fn make_rail_straight(position: Point, start_angle: i64) -> (r: Rail)
    requires
        0 <= start_angle < 32,
        -POS_MAX <= position.x <= POS_MAX,
        -POS_MAX <= position.y <= POS_MAX,
    ensures
        r.wf(),
        r.position == position,
        !r.is_wall,
        r.points@.len() == STRAIGHT_POINTS,
        offsets_match(
            r.points@,
            curved_offsets(start_angle as int, 0, RAIL_STEP_UNITS as int, STRAIGHT_POINTS as nat),
        ),
        r.exit_heading == start_angle,
{
    Rail::new_straight(position, start_angle, false, RAIL_STEP_UNITS, STRAIGHT_POINTS)
}

/// A gentle turn of seven points, one heading step per point, mirrored
/// when flipped.
pub fn make_rail_90_turn(position: Point, start_angle: i64, is_wall: bool, flipped: bool) -> (r:
    Rail)
    requires
        0 <= start_angle < 32,
        -POS_MAX <= position.x <= POS_MAX,
        -POS_MAX <= position.y <= POS_MAX,
    ensures
        r.wf(),
        r.position == position,
        r.is_wall == is_wall,
        r.points@.len() == TURN_POINTS,
        offsets_match(
            r.points@,
            curved_offsets(
                start_angle as int,
                flip_sign(flipped) * TURN_STEP,
                RAIL_STEP_UNITS as int,
                TURN_POINTS as nat,
            ),
        ),
        r.exit_heading == heading_at(
            start_angle as int,
            flip_sign(flipped) * TURN_STEP,
            (TURN_POINTS - 1) as nat,
        ),
{
    Rail::new_curved(
        position,
        start_angle,
        is_wall,
        RAIL_STEP_UNITS,
        TURN_POINTS,
        get_flipped_mult(flipped) * TURN_STEP,
    )
}

/// A sharp turn of five points, two heading steps per point, mirrored
/// when flipped.
pub fn make_rail_u_turn(position: Point, start_angle: i64, is_wall: bool, flipped: bool) -> (r:
    Rail)
    requires
        0 <= start_angle < 32,
        -POS_MAX <= position.x <= POS_MAX,
        -POS_MAX <= position.y <= POS_MAX,
    ensures
        r.wf(),
        r.position == position,
        r.is_wall == is_wall,
        r.points@.len() == U_TURN_POINTS,
        offsets_match(
            r.points@,
            curved_offsets(
                start_angle as int,
                flip_sign(flipped) * U_TURN_STEP,
                RAIL_STEP_UNITS as int,
                U_TURN_POINTS as nat,
            ),
        ),
        r.exit_heading == heading_at(
            start_angle as int,
            flip_sign(flipped) * U_TURN_STEP,
            (U_TURN_POINTS - 1) as nat,
        ),
{
    Rail::new_curved(
        position,
        start_angle,
        is_wall,
        RAIL_STEP_UNITS,
        U_TURN_POINTS,
        get_flipped_mult(flipped) * U_TURN_STEP,
    )
}

/// Append one straight run at the graph's tail.
pub fn preset_0_straight(world: &mut World)
    requires
        old(world).wf(),
        extendable(old(world).rails@),
    ensures
        final(world).wf(),
        final(world).rails@.len() == old(world).rails@.len() + 1,
        final(world).rails@ == old(world).rails@.push(final(world).rails@.last()),
        straight_block_at(old(world).rails@, final(world).rails@.last()),
        -OFF_MAX <= tail_exit_x(final(world).rails@) - tail_exit_x(old(world).rails@) <= OFF_MAX,
        -OFF_MAX <= tail_exit_y(final(world).rails@) - tail_exit_y(old(world).rails@) <= OFF_MAX,
{
    let position = get_last_rail_world_position(world);
    let start_angle = get_last_rail_world_start_angle(world);
    let rail = make_rail_straight(position, start_angle);
    proof {
        crate::geometry::lemma_heading_at_is_start(
            start_angle as int,
            (STRAIGHT_POINTS - 1) as nat,
        );
    }
    world.rails.push(Block::Rail(rail));
}

/// Append one sharp turn, mirrored or not by a coin flip.
pub fn preset_1_u_turn(world: &mut World)
    requires
        old(world).wf(),
        extendable(old(world).rails@),
    ensures
        final(world).wf(),
        final(world).rails@.len() == old(world).rails@.len() + 1,
        final(world).rails@ == old(world).rails@.push(final(world).rails@.last()),
        exists|f: bool| u_turn_block_at(old(world).rails@, final(world).rails@.last(), f),
        -OFF_MAX <= tail_exit_x(final(world).rails@) - tail_exit_x(old(world).rails@) <= OFF_MAX,
        -OFF_MAX <= tail_exit_y(final(world).rails@) - tail_exit_y(old(world).rails@) <= OFF_MAX,
{
    let position = get_last_rail_world_position(world);
    let start_angle = get_last_rail_world_start_angle(world);
    let flipped = random_number(2) == 1;
    let rail = make_rail_u_turn(position, start_angle, false, flipped);
    world.rails.push(Block::Rail(rail));
    proof {
        let ghost blocks = old(world).rails@;
        assert(u_turn_block_at(blocks, world.rails@.last(), flipped));
    }
}

/// Append one gentle turn, mirrored or not by a coin flip.
pub fn preset_2_90_turn(world: &mut World)
    requires
        old(world).wf(),
        extendable(old(world).rails@),
    ensures
        final(world).wf(),
        final(world).rails@.len() == old(world).rails@.len() + 1,
        final(world).rails@ == old(world).rails@.push(final(world).rails@.last()),
        exists|f: bool| turn_block_at(old(world).rails@, final(world).rails@.last(), f),
        -OFF_MAX <= tail_exit_x(final(world).rails@) - tail_exit_x(old(world).rails@) <= OFF_MAX,
        -OFF_MAX <= tail_exit_y(final(world).rails@) - tail_exit_y(old(world).rails@) <= OFF_MAX,
{
    let position = get_last_rail_world_position(world);
    let start_angle = get_last_rail_world_start_angle(world);
    let flipped = random_number(2) == 1;
    let rail = make_rail_90_turn(position, start_angle, false, flipped);
    world.rails.push(Block::Rail(rail));
    proof {
        let ghost blocks = old(world).rails@;
        assert(turn_block_at(blocks, world.rails@.last(), flipped));
    }
}

/// Append one symmetric gentle-turn fork: mirrored branches, exactly one
/// a dead end, with a random letter, branch two initially active.
pub fn preset_3_fork_90_symmetrical_turn(world: &mut World)
    requires
        old(world).wf(),
        extendable(old(world).rails@),
    ensures
        final(world).wf(),
        final(world).rails@.len() == old(world).rails@.len() + 1,
        final(world).rails@ == old(world).rails@.push(final(world).rails@.last()),
        exists|w: bool, f: bool, l: Letter|
            fork_90_block_at(old(world).rails@, final(world).rails@.last(), w, f, l),
        -OFF_MAX <= tail_exit_x(final(world).rails@) - tail_exit_x(old(world).rails@) <= OFF_MAX,
        -OFF_MAX <= tail_exit_y(final(world).rails@) - tail_exit_y(old(world).rails@) <= OFF_MAX,
{
    let position = get_last_rail_world_position(world);
    let start_angle = get_last_rail_world_start_angle(world);

    let random_bool = random_number(2) == 1;
    let random_bool2 = random_number(2) == 1;
    let letter = random_letter();

    let fork = Fork {
        which: ForkSelection::Rail2,
        rail1: make_rail_90_turn(position, start_angle, random_bool, random_bool2),
        rail2: make_rail_90_turn(position, start_angle, !random_bool, !random_bool2),
        letter,
    };
    world.rails.push(Block::Fork(fork));
    proof {
        let ghost blocks = old(world).rails@;
        assert(fork_90_block_at(
            blocks,
            world.rails@.last(),
            random_bool,
            random_bool2,
            letter,
        ));
    }
}

/// Append one symmetric sharp-turn fork, as the gentle-turn fork but
/// with the sharp shape.
pub fn preset_4_fork_u_turn_symmetrical_turn(world: &mut World)
    requires
        old(world).wf(),
        extendable(old(world).rails@),
    ensures
        final(world).wf(),
        final(world).rails@.len() == old(world).rails@.len() + 1,
        final(world).rails@ == old(world).rails@.push(final(world).rails@.last()),
        exists|w: bool, f: bool, l: Letter|
            fork_u_block_at(old(world).rails@, final(world).rails@.last(), w, f, l),
        -OFF_MAX <= tail_exit_x(final(world).rails@) - tail_exit_x(old(world).rails@) <= OFF_MAX,
        -OFF_MAX <= tail_exit_y(final(world).rails@) - tail_exit_y(old(world).rails@) <= OFF_MAX,
{
    let position = get_last_rail_world_position(world);
    let start_angle = get_last_rail_world_start_angle(world);

    let random_bool = random_number(2) == 1;
    let random_bool2 = random_number(2) == 1;
    let letter = random_letter();

    let fork = Fork {
        which: ForkSelection::Rail2,
        rail1: make_rail_u_turn(position, start_angle, random_bool, random_bool2),
        rail2: make_rail_u_turn(position, start_angle, !random_bool, !random_bool2),
        letter,
    };
    world.rails.push(Block::Fork(fork));
    proof {
        let ghost blocks = old(world).rails@;
        assert(fork_u_block_at(
            blocks,
            world.rails@.last(),
            random_bool,
            random_bool2,
            letter,
        ));
    }
}

/// One or two blocks appended by the weighted random policy: a straight
/// run half of the time, else a turn or a fork always trailed by a
/// straight run.
pub open spec fn random_extension(old_blocks: Seq<Block>, new_blocks: Seq<Block>) -> bool {
    ||| {
        &&& new_blocks.len() == old_blocks.len() + 1
        &&& straight_block_at(old_blocks, new_blocks.last())
    }
    ||| {
        &&& new_blocks.len() == old_blocks.len() + 2
        &&& {
            let b1 = new_blocks[old_blocks.len() as int];
            let mid = old_blocks.push(b1);
            &&& straight_block_at(mid, new_blocks.last())
            &&& {
                ||| exists|f: bool| turn_block_at(old_blocks, b1, f)
                ||| exists|f: bool| u_turn_block_at(old_blocks, b1, f)
                ||| exists|w: bool, f: bool, l: Letter| fork_90_block_at(old_blocks, b1, w, f, l)
                ||| exists|w: bool, f: bool, l: Letter| fork_u_block_at(old_blocks, b1, w, f, l)
            }
        }
    }
}

/// Append blocks by the weighted random policy: half of the time one
/// straight run; else a gentle turn, a sharp turn, or one of the two
/// symmetric forks, always followed by one straight run.
pub fn preset_random(world: &mut World)
    requires
        old(world).wf(),
        -(POS_SAFE - OFF_MAX) <= tail_exit_x(old(world).rails@) <= POS_SAFE - OFF_MAX,
        -(POS_SAFE - OFF_MAX) <= tail_exit_y(old(world).rails@) <= POS_SAFE - OFF_MAX,
    ensures
        final(world).wf(),
        old(world).rails@.len() + 1 <= final(world).rails@.len() <= old(world).rails@.len() + 2,
        final(world).rails@.subrange(0, old(world).rails@.len() as int) == old(world).rails@,
        random_extension(old(world).rails@, final(world).rails@),
        -2 * OFF_MAX <= tail_exit_x(final(world).rails@) - tail_exit_x(old(world).rails@) <= 2
            * OFF_MAX,
        -2 * OFF_MAX <= tail_exit_y(final(world).rails@) - tail_exit_y(old(world).rails@) <= 2
            * OFF_MAX,
{
    if random_number(100) >= 50 {
        preset_0_straight(world);
    } else {
        if random_number(100) >= 75 {
            if random_number(100) >= 75 {
                preset_2_90_turn(world);
                preset_0_straight(world);
            } else {
                preset_1_u_turn(world);
                preset_0_straight(world);
            }
        } else {
            if random_number(100) >= 75 {
                preset_3_fork_90_symmetrical_turn(world);
                preset_0_straight(world);
            } else {
                preset_4_fork_u_turn_symmetrical_turn(world);
                preset_0_straight(world);
            }
        }
    }
    proof {
        assert(world.rails@.subrange(0, old(world).rails@.len() as int) =~= old(world).rails@);
    }
}

} // verus!
