//! Fixed-point plane geometry: points, headings, discretized arcs, and
//! shortest-path angle interpolation.
//!
//! A coordinate is an `i64` counting `COORD_SCALE`-ths of a world unit.
//! A heading is an integer in `[0, N_HEADINGS)`, counting sixteenths of a
//! half turn counter-clockwise from the positive x axis (y grows downward
//! on screen, which only affects how a heading is drawn, not the math).

use vstd::prelude::*;

verus! {

/// Fixed-point ticks per world unit (2^16).
pub const COORD_SCALE: i64 = 65536;

/// Number of distinct headings: a full turn is 32 steps of one sixteenth
/// of a half turn each.
pub const N_HEADINGS: i64 = 32;

/// Largest magnitude allowed for a point of a rail's offset polyline.
pub const OFF_MAX: i64 = 0x10_0000_0000;

/// Largest magnitude allowed for a block's world anchor coordinate.
pub const POS_MAX: i64 = 0x200_0000_0000_0000;

/// Largest span, in world units, that one arc may cover: the product of
/// its point count and step distance. `MAX_ARC_SPAN * COORD_SCALE`
/// equals `OFF_MAX`, so offsets of a conforming arc stay in bounds.
pub const MAX_ARC_SPAN: i64 = 0x10_0000;

/// Coordinate budget for appending one more block: while the graph's
/// tail exit stays within this bound a new block may anchor there and
/// its points remain well under `POS_MAX`.
pub const POS_SAFE: i64 = 0x100_0000_0000_0000;

/// Coordinate budget for a whole window-maintenance pass, which may
/// append a bounded burst of blocks: comfortably under `POS_SAFE`.
pub const EXT_SAFE: i64 = 0x80_0000_0000_0000;

/// A 2D point or offset in fixed-point world coordinates.
#[derive(Clone, Copy, PartialEq, Eq, Structural, Debug)]
pub struct Point {
    pub x: i64,
    pub y: i64,
}

/// Cosine of heading `k`, scaled by `COORD_SCALE`.
pub open spec fn unit_x(k: int) -> int {
    if k == 0 { 65536 }
    else if k == 1 { 64277 }
    else if k == 2 { 60547 }
    else if k == 3 { 54491 }
    else if k == 4 { 46341 }
    else if k == 5 { 36410 }
    else if k == 6 { 25080 }
    else if k == 7 { 12785 }
    else if k == 8 { 0 }
    else if k == 9 { -12785 }
    else if k == 10 { -25080 }
    else if k == 11 { -36410 }
    else if k == 12 { -46341 }
    else if k == 13 { -54491 }
    else if k == 14 { -60547 }
    else if k == 15 { -64277 }
    else if k == 16 { -65536 }
    else if k == 17 { -64277 }
    else if k == 18 { -60547 }
    else if k == 19 { -54491 }
    else if k == 20 { -46341 }
    else if k == 21 { -36410 }
    else if k == 22 { -25080 }
    else if k == 23 { -12785 }
    else if k == 24 { 0 }
    else if k == 25 { 12785 }
    else if k == 26 { 25080 }
    else if k == 27 { 36410 }
    else if k == 28 { 46341 }
    else if k == 29 { 54491 }
    else if k == 30 { 60547 }
    else if k == 31 { 64277 }
    else { 0 }
}

/// Sine of heading `k`, scaled by `COORD_SCALE`: the cosine table shifted
/// by a quarter turn.
pub open spec fn unit_y(k: int) -> int {
    unit_x(wrap_heading(k - 8))
}

/// The sine table is the cosine table shifted by a quarter turn; give the
/// shifted argument a meaning for every `k` in `[0, N_HEADINGS)`.
pub open spec fn unit_y_table(k: int) -> int {
    if k == 0 { 0 }
    else if k == 1 { 12785 }
    else if k == 2 { 25080 }
    else if k == 3 { 36410 }
    else if k == 4 { 46341 }
    else if k == 5 { 54491 }
    else if k == 6 { 60547 }
    else if k == 7 { 64277 }
    else if k == 8 { 65536 }
    else if k == 9 { 64277 }
    else if k == 10 { 60547 }
    else if k == 11 { 54491 }
    else if k == 12 { 46341 }
    else if k == 13 { 36410 }
    else if k == 14 { 25080 }
    else if k == 15 { 12785 }
    else if k == 16 { 0 }
    else if k == 17 { -12785 }
    else if k == 18 { -25080 }
    else if k == 19 { -36410 }
    else if k == 20 { -46341 }
    else if k == 21 { -54491 }
    else if k == 22 { -60547 }
    else if k == 23 { -64277 }
    else if k == 24 { -65536 }
    else if k == 25 { -64277 }
    else if k == 26 { -60547 }
    else if k == 27 { -54491 }
    else if k == 28 { -46341 }
    else if k == 29 { -36410 }
    else if k == 30 { -25080 }
    else if k == 31 { -12785 }
    else { 0 }
}

pub proof fn lemma_unit_y_is_table(k: int)
    requires
        0 <= k < 32,
    ensures
        unit_y(k) == unit_y_table(k),
{
}

/// Both components of a heading's unit vector fit in the scale, and they
/// are never both zero: a step of positive length never stands still.
pub proof fn lemma_unit_bounds(k: int)
    requires
        0 <= k < 32,
    ensures
        -65536 <= unit_x(k) <= 65536,
        -65536 <= unit_y(k) <= 65536,
        unit_x(k) != 0 || unit_y(k) != 0,
{
}

/// Every heading's unit vector has squared length within 22000 parts of
/// `COORD_SCALE` squared (about five millionths): each step of an arc
/// covers its nominal distance up to the fixed-point rounding of the
/// tables.
pub proof fn lemma_unit_length_tight(k: int)
    requires
        0 <= k < 32,
    ensures
        4294945609 <= unit_x(k) * unit_x(k) + unit_y(k) * unit_y(k) <= 4294988954,
{
    lemma_unit_y_is_table(k);
}

/// Unit vector of heading `k`, scaled by `COORD_SCALE`.
pub fn heading_unit(k: i64) -> (u: (i64, i64))
    requires
        0 <= k < 32,
    ensures
        u.0 == unit_x(k as int),
        u.1 == unit_y(k as int),
{
    proof {
        lemma_unit_y_is_table(k as int);
    }
    match k {
        0 => (65536, 0),
        1 => (64277, 12785),
        2 => (60547, 25080),
        3 => (54491, 36410),
        4 => (46341, 46341),
        5 => (36410, 54491),
        6 => (25080, 60547),
        7 => (12785, 64277),
        8 => (0, 65536),
        9 => (-12785, 64277),
        10 => (-25080, 60547),
        11 => (-36410, 54491),
        12 => (-46341, 46341),
        13 => (-54491, 36410),
        14 => (-60547, 25080),
        15 => (-64277, 12785),
        16 => (-65536, 0),
        17 => (-64277, -12785),
        18 => (-60547, -25080),
        19 => (-54491, -36410),
        20 => (-46341, -46341),
        21 => (-36410, -54491),
        22 => (-25080, -60547),
        23 => (-12785, -64277),
        24 => (0, -65536),
        25 => (12785, -64277),
        26 => (25080, -60547),
        27 => (36410, -54491),
        28 => (46341, -46341),
        29 => (54491, -36410),
        30 => (60547, -25080),
        _ => (64277, -12785),
    }
}

/// Bring a heading that drifted at most one turn out of range back into
/// `[0, N_HEADINGS)`.
pub open spec fn wrap_heading(h: int) -> int {
    if h < 0 { h + 32 } else if h >= 32 { h - 32 } else { h }
}

/// Heading of the step that enters point `i` of an arc that starts at
/// heading `start` and turns by `astep` at each point.
pub open spec fn heading_at(start: int, astep: int, i: nat) -> int
    decreases i,
{
    if i == 0 {
        start
    } else {
        wrap_heading(heading_at(start, astep, (i - 1) as nat) + astep)
    }
}

pub proof fn lemma_heading_at_range(start: int, astep: int, i: nat)
    requires
        0 <= start < 32,
        -32 < astep < 32,
    ensures
        0 <= heading_at(start, astep, i) < 32,
    decreases i,
{
    if i > 0 {
        lemma_heading_at_range(start, astep, (i - 1) as nat);
    }
}

/// Offsets of a discretized arc, relative to its anchor: point 0 is the
/// origin, and point `i` is point `i - 1` plus a step of `dist` world
/// units at heading `heading_at(start, astep, i)`. With `astep == 0` this
/// is a straight polyline.
pub open spec fn curved_offsets(start: int, astep: int, dist: int, n: nat) -> Seq<(int, int)>
    decreases n,
{
    if n == 0 {
        Seq::empty()
    } else if n == 1 {
        seq![(0int, 0int)]
    } else {
        let prev = curved_offsets(start, astep, dist, (n - 1) as nat);
        let last = prev[n - 2];
        let k = heading_at(start, astep, (n - 1) as nat);
        prev.push((last.0 + dist * unit_x(k), last.1 + dist * unit_y(k)))
    }
}

/// A vector of points realizes a sequence of mathematical offsets.
pub open spec fn offsets_match(pts: Seq<Point>, offs: Seq<(int, int)>) -> bool {
    &&& pts.len() == offs.len()
    &&& forall|i: int| 0 <= i < pts.len() ==> #[trigger] pts[i].x == offs[i].0 && pts[i].y == offs[i].1
}

pub proof fn lemma_curved_offsets_len(start: int, astep: int, dist: int, n: nat)
    ensures
        curved_offsets(start, astep, dist, n).len() == n,
    decreases n,
{
    if n > 1 {
        lemma_curved_offsets_len(start, astep, dist, (n - 1) as nat);
    }
}

/// Point 0 of any arc is the origin.
pub proof fn lemma_curved_offsets_first(start: int, astep: int, dist: int, n: nat)
    requires
        n >= 1,
    ensures
        curved_offsets(start, astep, dist, n)[0] == (0int, 0int),
    decreases n,
{
    lemma_curved_offsets_len(start, astep, dist, n);
    if n > 1 {
        lemma_curved_offsets_first(start, astep, dist, (n - 1) as nat);
    }
}

/// Each point of an arc is the previous point plus a step of `dist` world
/// units at the heading reached there, and that heading advances by
/// exactly the angular step from the previous one (wrapped into range).
pub proof fn lemma_curved_offsets_step(start: int, astep: int, dist: int, n: nat, i: int)
    requires
        1 <= i < n,
    ensures
        ({
            let offs = curved_offsets(start, astep, dist, n);
            let k = heading_at(start, astep, i as nat);
            offs[i].0 == offs[i - 1].0 + dist * unit_x(k)
                && offs[i].1 == offs[i - 1].1 + dist * unit_y(k)
                && k == wrap_heading(heading_at(start, astep, (i - 1) as nat) + astep)
        }),
    decreases n,
{
    lemma_curved_offsets_len(start, astep, dist, n);
    lemma_curved_offsets_len(start, astep, dist, (n - 1) as nat);
    if i < n - 1 {
        lemma_curved_offsets_step(start, astep, dist, (n - 1) as nat, i);
    }
}

/// Offset `i` of an arc spanning `dist` world units per step stays
/// within `i * dist` world units of the anchor.
pub proof fn lemma_curved_offsets_bounded(start: int, astep: int, dist: int, n: nat, i: int)
    requires
        0 <= dist,
        0 <= i < n,
    ensures
        ({
            let p = curved_offsets(start, astep, dist, n)[i];
            -(i * (dist * 65536)) <= p.0 <= i * (dist * 65536)
                && -(i * (dist * 65536)) <= p.1 <= i * (dist * 65536)
        }),
    decreases n, i,
{
    let offs = curved_offsets(start, astep, dist, n);
    lemma_curved_offsets_len(start, astep, dist, n);
    let b = dist * 65536;
    assert(0 <= b) by (nonlinear_arith)
        requires
            0 <= dist,
            b == dist * 65536,
    ;
    if i == 0 {
        lemma_curved_offsets_first(start, astep, dist, n);
    } else if i < n - 1 {
        lemma_curved_offsets_len(start, astep, dist, (n - 1) as nat);
        lemma_curved_offsets_bounded(start, astep, dist, (n - 1) as nat, i);
    } else {
        lemma_curved_offsets_bounded(start, astep, dist, n, i - 1);
        let k = heading_at(start, astep, i as nat);
        lemma_unit_bounds_any(k);
        lemma_curved_offsets_step(start, astep, dist, n, i);
        assert(-b <= dist * unit_x(k) <= b) by (nonlinear_arith)
            requires
                0 <= dist,
                -65536 <= unit_x(k) <= 65536,
                b == dist * 65536,
        ;
        assert(-b <= dist * unit_y(k) <= b) by (nonlinear_arith)
            requires
                0 <= dist,
                -65536 <= unit_y(k) <= 65536,
                b == dist * 65536,
        ;
        assert((i - 1) * b + b == i * b) by (nonlinear_arith);
    }
}

/// The unit tables, extended to every integer: outside `[0, N_HEADINGS)`
/// both read as at most one scale in magnitude as well (they are zero).
pub proof fn lemma_unit_bounds_any(k: int)
    ensures
        -65536 <= unit_x(k) <= 65536,
        -65536 <= unit_y(k) <= 65536,
{
}

/// Consecutive points of an arc with a positive step length never
/// coincide: a step's unit vector never vanishes.
pub proof fn lemma_curved_offsets_distinct(start: int, astep: int, dist: int, n: nat, i: int)
    requires
        0 <= start < 32,
        -32 < astep < 32,
        1 <= dist,
        1 <= i < n,
    ensures
        curved_offsets(start, astep, dist, n)[i] != curved_offsets(start, astep, dist, n)[i - 1],
{
    let k = heading_at(start, astep, i as nat);
    lemma_heading_at_range(start, astep, i as nat);
    lemma_unit_bounds(k);
    lemma_curved_offsets_step(start, astep, dist, n, i);
    assert(unit_x(k) != 0 ==> dist * unit_x(k) != 0) by (nonlinear_arith)
        requires
            1 <= dist,
    ;
    assert(unit_y(k) != 0 ==> dist * unit_y(k) != 0) by (nonlinear_arith)
        requires
            1 <= dist,
    ;
}

/// With a zero angular step every step repeats the same vector, so the
/// points lie collinear, point `i` standing `i` steps from the origin.
pub proof fn lemma_straight_offsets_collinear(start: int, dist: int, n: nat, i: int)
    requires
        0 <= start < 32,
        0 <= i < n,
    ensures
        ({
            let offs = curved_offsets(start, 0, dist, n);
            offs[i].0 == i * (dist * unit_x(start)) && offs[i].1 == i * (dist * unit_y(start))
        }),
    decreases i,
{
    lemma_curved_offsets_len(start, 0, dist, n);
    if i == 0 {
        lemma_curved_offsets_first(start, 0, dist, n);
    } else {
        lemma_straight_offsets_collinear(start, dist, n, i - 1);
        lemma_heading_at_is_start(start, i as nat);
        lemma_curved_offsets_step(start, 0, dist, n, i);
        let sx = dist * unit_x(start);
        let sy = dist * unit_y(start);
        assert((i - 1) * sx + sx == i * sx) by (nonlinear_arith);
        assert((i - 1) * sy + sy == i * sy) by (nonlinear_arith);
    }
}

/// With a zero angular step the heading never changes.
pub proof fn lemma_heading_at_is_start(start: int, i: nat)
    requires
        0 <= start < 32,
    ensures
        heading_at(start, 0, i) == start,
    decreases i,
{
    if i > 0 {
        lemma_heading_at_is_start(start, (i - 1) as nat);
    }
}

/// Angle units for pose interpolation: a full turn in `TURN_UNITS`
/// sub-divisions (2^20), fine enough for smooth rendering.
pub const TURN_UNITS: i64 = 0x10_0000;

/// Half a turn in interpolation units.
pub const HALF_TURN_UNITS: i64 = 0x8_0000;

/// The signed angular difference wrapped into `[-HALF_TURN_UNITS,
/// HALF_TURN_UNITS)`: the shortest rotation between the two headings.
pub open spec fn wrap_signed_diff(d: int) -> int {
    if d + HALF_TURN_UNITS < 0 {
        d + TURN_UNITS
    } else if d + HALF_TURN_UNITS >= TURN_UNITS {
        d - TURN_UNITS
    } else {
        d
    }
}

/// Interpolated heading from `start` toward `end` by the fraction
/// `num / den`, along the shortest angular path, normalized into
/// `[0, TURN_UNITS)`. The `TURN_UNITS * den` summand keeps the dividend
/// nonnegative and vanishes under the final wrap.
pub open spec fn interpolate_angle_spec(start: int, end: int, num: int, den: int) -> int {
    let diff = wrap_signed_diff(end - start);
    ((start * den + diff * num + TURN_UNITS * den) / den) % (TURN_UNITS as int)
}

/// The interpolation never takes the long way around: the wrapped
/// difference is at most half a turn in magnitude.
pub proof fn lemma_wrap_signed_diff_shortest(d: int)
    requires
        -TURN_UNITS < d < TURN_UNITS,
    ensures
        -HALF_TURN_UNITS <= wrap_signed_diff(d) < HALF_TURN_UNITS,
{
}

/// Half way between heading zero and the opposite heading (half a turn),
/// the interpolation lands a quarter turn on the negative side — three
/// quarters of a turn — and never on the long three-quarter path through
/// the positive side: the wrapped difference of exactly half a turn is
/// taken negative.
pub proof fn lemma_interpolate_halfway_opposite()
    ensures
        interpolate_angle_spec(0, HALF_TURN_UNITS as int, 1, 2) == 3 * (TURN_UNITS as int) / 4,
{
    assert(wrap_signed_diff(HALF_TURN_UNITS as int) == -(HALF_TURN_UNITS as int));
    assert((0 * 2 + -(HALF_TURN_UNITS as int) * 1 + (TURN_UNITS as int) * 2) / 2 == 786432);
    assert(786432int % (TURN_UNITS as int) == 786432) by {
        vstd::arithmetic::div_mod::lemma_small_mod(786432nat, TURN_UNITS as nat);
    }
}

/// Heading interpolation with exact integer arithmetic, mirroring
/// shortest-path angle interpolation: wrap the signed difference into
/// `[-half, half)`, scale it by `num / den`, add it to `start`, and
/// normalize into `[0, TURN_UNITS)`.
pub fn interpolate_angle(start: i64, end: i64, num: i64, den: i64) -> (r: i64)
    requires
        0 <= start < TURN_UNITS,
        0 <= end < TURN_UNITS,
        1 <= den <= 0x1_0000_0000,
        0 <= num <= den,
    ensures
        r == interpolate_angle_spec(start as int, end as int, num as int, den as int),
        0 <= r < TURN_UNITS,
{
    let d = end - start;
    let diff = if d + HALF_TURN_UNITS < 0 {
        d + TURN_UNITS
    } else if d + HALF_TURN_UNITS >= TURN_UNITS {
        d - TURN_UNITS
    } else {
        d
    };
    assert(diff == wrap_signed_diff(d as int));
    assert(0 <= start * den <= 0x10_0000 * 0x1_0000_0000) by (nonlinear_arith)
        requires
            0 <= start < 0x10_0000,
            1 <= den <= 0x1_0000_0000,
    ;
    assert(-(0x8_0000 * 0x1_0000_0000) <= diff * num <= 0x8_0000 * 0x1_0000_0000)
        by (nonlinear_arith)
        requires
            -0x8_0000 <= diff < 0x8_0000,
            0 <= num <= 0x1_0000_0000,
    ;
    assert(0 < TURN_UNITS * den <= 0x10_0000 * 0x1_0000_0000) by (nonlinear_arith)
        requires
            1 <= den <= 0x1_0000_0000,
    ;
    assert(diff * num + HALF_TURN_UNITS * den >= 0) by (nonlinear_arith)
        requires
            -HALF_TURN_UNITS <= diff,
            0 <= num <= den,
            0 < den,
    ;
    let raw = start * den + diff * num + TURN_UNITS * den;
    assert(raw >= HALF_TURN_UNITS * den > 0) by (nonlinear_arith)
        requires
            raw == start * den + diff * num + TURN_UNITS * den,
            0 <= start * den,
            diff * num + HALF_TURN_UNITS * den >= 0,
            TURN_UNITS == 2 * HALF_TURN_UNITS,
            0 < HALF_TURN_UNITS * den,
    ;
    let q = ((raw as u64) / (den as u64)) as i64;
    proof {
        lemma_interp_quotient_bounds(start as int, diff as int, num as int, den as int, raw as int, q as int);
    }
    let r = if q >= 2 * TURN_UNITS {
        q - 2 * TURN_UNITS
    } else if q >= TURN_UNITS {
        q - TURN_UNITS
    } else {
        q
    };
    proof {
        lemma_mod_by_cases(q as int, r as int);
    }
    r
}

/// The quotient of the interpolation dividend lies under three turns.
proof fn lemma_interp_quotient_bounds(start: int, diff: int, num: int, den: int, raw: int, q: int)
    requires
        0 <= start < TURN_UNITS,
        -HALF_TURN_UNITS <= diff < HALF_TURN_UNITS,
        0 <= num <= den,
        1 <= den,
        raw == start * den + diff * num + TURN_UNITS * den,
        0 <= raw,
        q == raw / den,
    ensures
        0 <= q < 3 * TURN_UNITS,
        q == (start * den + diff * num + TURN_UNITS * den) / den,
{
    assert(raw < 3 * TURN_UNITS * den) by (nonlinear_arith)
        requires
            raw == start * den + diff * num + TURN_UNITS * den,
            0 <= start < TURN_UNITS,
            -HALF_TURN_UNITS <= diff < HALF_TURN_UNITS,
            0 <= num <= den,
            1 <= den,
            TURN_UNITS == 2 * HALF_TURN_UNITS,
    ;
    assert(0 <= raw / den < 3 * TURN_UNITS) by (nonlinear_arith)
        requires
            0 <= raw < 3 * TURN_UNITS * den,
            1 <= den,
    ;
}

/// Reducing a value under three turns into `[0, TURN_UNITS)` by
/// subtraction agrees with the mathematical remainder.
proof fn lemma_mod_by_cases(q: int, r: int)
    requires
        0 <= q < 3 * TURN_UNITS,
        r == if q >= 2 * TURN_UNITS {
            q - 2 * TURN_UNITS
        } else if q >= TURN_UNITS {
            q - TURN_UNITS
        } else {
            q
        },
    ensures
        r == q % (TURN_UNITS as int),
        0 <= r < TURN_UNITS,
{
    let t = TURN_UNITS as int;
    if q >= 2 * t {
        assert((t * 2 + (q - 2 * t)) % t == (q - 2 * t) % t) by {
            vstd::arithmetic::div_mod::lemma_mod_multiples_vanish(2, q - 2 * t, t);
        }
        vstd::arithmetic::div_mod::lemma_small_mod((q - 2 * t) as nat, t as nat);
    } else if q >= t {
        assert((t * 1 + (q - t)) % t == (q - t) % t) by {
            vstd::arithmetic::div_mod::lemma_mod_multiples_vanish(1, q - t, t);
        }
        vstd::arithmetic::div_mod::lemma_small_mod((q - t) as nat, t as nat);
    } else {
        vstd::arithmetic::div_mod::lemma_small_mod(q as nat, t as nat);
    }
}

} // verus!
