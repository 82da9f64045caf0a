use railsim::geometry::{Point, COORD_SCALE};
use railsim::preset::{
    get_flipped_mult, letter_from, make_rail_90_turn, make_rail_straight, make_rail_u_turn,
    preset_0_straight, preset_1_u_turn, preset_2_90_turn, preset_3_fork_90_symmetrical_turn,
    preset_4_fork_u_turn_symmetrical_turn, preset_random, random_letter,
};
use railsim::track::{
    can_extend, get_last_rail_world_position, get_last_rail_world_start_angle, Block, Fork,
    ForkSelection, Letter, World,
};

fn fork_at_tail(world: &World, letter: Letter) -> Block {
    let pos = get_last_rail_world_position(world);
    let ang = get_last_rail_world_start_angle(world);
    Block::Fork(Fork {
        rail1: make_rail_90_turn(pos, ang, false, true),
        rail2: make_rail_90_turn(pos, ang, false, false),
        which: ForkSelection::Rail2,
        letter,
    })
}

#[test]
fn toggle_twice_returns_to_original_branch() {
    let s = ForkSelection::Rail1;
    let once = s.toggle();
    assert_eq!(once, ForkSelection::Rail2);
    assert_eq!(once.toggle(), s);
}

#[test]
fn toggling_a_fork_preserves_both_branches_geometry() {
    let mut world = World { rails: Vec::new() };
    preset_0_straight(&mut world);
    world.rails.push(fork_at_tail(&world, Letter::B));

    let (points1, points2) = match &world.rails[1] {
        Block::Fork(f) => (f.rail1.points.clone(), f.rail2.points.clone()),
        _ => panic!("expected a fork"),
    };

    world.toggle_next_fork(0, Letter::B);
    match &world.rails[1] {
        Block::Fork(f) => {
            assert_eq!(f.which, ForkSelection::Rail1);
            assert_eq!(f.letter, Letter::B);
            assert_eq!(f.rail1.points, points1);
            assert_eq!(f.rail2.points, points2);
        },
        _ => panic!("expected a fork"),
    }

    world.toggle_next_fork(0, Letter::B);
    match &world.rails[1] {
        Block::Fork(f) => {
            assert_eq!(f.which, ForkSelection::Rail2);
            assert_eq!(f.rail1.points, points1);
            assert_eq!(f.rail2.points, points2);
        },
        _ => panic!("expected a fork"),
    }
}

#[test]
fn find_next_fork_returns_nearest_match_in_scan_order() {
    let mut world = World { rails: Vec::new() };
    preset_0_straight(&mut world);
    world.rails.push(fork_at_tail(&world, Letter::A));
    preset_0_straight(&mut world);
    world.rails.push(fork_at_tail(&world, Letter::B));
    world.rails.push(fork_at_tail(&world, Letter::A));

    assert_eq!(world.find_next_fork_index(0, Letter::A), Some(1));
    assert_eq!(world.find_next_fork_index(1, Letter::A), Some(1));
    assert_eq!(world.find_next_fork_index(2, Letter::A), Some(4));
    assert_eq!(world.find_next_fork_index(0, Letter::B), Some(3));
    // No wraparound: scanning from past the last match finds nothing.
    assert_eq!(world.find_next_fork_index(5, Letter::A), None);
    assert_eq!(world.find_next_fork_index(0, Letter::C), None);
}

#[test]
fn toggle_with_no_matching_fork_is_a_no_op() {
    let mut world = World { rails: Vec::new() };
    preset_0_straight(&mut world);
    world.rails.push(fork_at_tail(&world, Letter::A));
    world.toggle_next_fork(0, Letter::C);
    match &world.rails[1] {
        Block::Fork(f) => assert_eq!(f.which, ForkSelection::Rail2),
        _ => panic!("expected a fork"),
    }
    // Scanning from beyond the fork also leaves it alone.
    world.toggle_next_fork(2, Letter::A);
    match &world.rails[1] {
        Block::Fork(f) => assert_eq!(f.which, ForkSelection::Rail2),
        _ => panic!("expected a fork"),
    }
}

#[test]
fn empty_world_anchors_at_origin_heading_zero() {
    let world = World { rails: Vec::new() };
    assert_eq!(get_last_rail_world_position(&world), Point { x: 0, y: 0 });
    assert_eq!(get_last_rail_world_start_angle(&world), 0);
    assert!(can_extend(&world));
}

#[test]
fn straight_preset_extends_seamlessly() {
    let mut world = World { rails: Vec::new() };
    preset_0_straight(&mut world);
    assert_eq!(world.rails.len(), 1);
    match &world.rails[0] {
        Block::Rail(r) => {
            assert_eq!(r.position, Point { x: 0, y: 0 });
            assert_eq!(r.points.len(), 8);
            assert!(!r.is_wall);
        },
        _ => panic!("expected a plain segment"),
    }
    // The tail exit sits seven 30-unit steps along heading zero.
    let exit = get_last_rail_world_position(&world);
    assert_eq!(exit, Point { x: 7 * 30 * COORD_SCALE, y: 0 });
    assert_eq!(get_last_rail_world_start_angle(&world), 0);

    // The next straight anchors exactly there.
    preset_0_straight(&mut world);
    match &world.rails[1] {
        Block::Rail(r) => assert_eq!(r.position, exit),
        _ => panic!("expected a plain segment"),
    }
}

#[test]
fn turn_presets_append_one_turn_block() {
    let mut world = World { rails: Vec::new() };
    preset_0_straight(&mut world);
    preset_2_90_turn(&mut world);
    assert_eq!(world.rails.len(), 2);
    match &world.rails[1] {
        Block::Rail(r) => {
            assert_eq!(r.points.len(), 7);
            assert!(!r.is_wall);
            // Exit heading turned six steps one way or the other.
            assert!(r.exit_heading == 6 || r.exit_heading == 26);
        },
        _ => panic!("expected a plain segment"),
    }

    preset_1_u_turn(&mut world);
    match &world.rails[2] {
        Block::Rail(r) => {
            assert_eq!(r.points.len(), 5);
            assert!(!r.is_wall);
        },
        _ => panic!("expected a plain segment"),
    }
}

#[test]
fn fork_presets_append_one_fork_with_exactly_one_dead_end() {
    let mut world = World { rails: Vec::new() };
    preset_0_straight(&mut world);
    preset_3_fork_90_symmetrical_turn(&mut world);
    match &world.rails[1] {
        Block::Fork(f) => {
            assert_eq!(f.which, ForkSelection::Rail2);
            assert_eq!(f.rail1.points.len(), 7);
            assert_eq!(f.rail2.points.len(), 7);
            assert!(f.rail1.is_wall != f.rail2.is_wall);
            assert_eq!(f.rail1.position, f.rail2.position);
        },
        _ => panic!("expected a fork"),
    }

    preset_4_fork_u_turn_symmetrical_turn(&mut world);
    match &world.rails[2] {
        Block::Fork(f) => {
            assert_eq!(f.rail1.points.len(), 5);
            assert_eq!(f.rail2.points.len(), 5);
            assert!(f.rail1.is_wall != f.rail2.is_wall);
        },
        _ => panic!("expected a fork"),
    }
}

#[test]
fn make_rail_turn_exit_headings() {
    let origin = Point { x: 0, y: 0 };
    assert_eq!(make_rail_straight(origin, 5).exit_heading, 5);
    // Six steps of one unit, flipped turns positive.
    assert_eq!(make_rail_90_turn(origin, 0, false, true).exit_heading, 6);
    assert_eq!(make_rail_90_turn(origin, 0, false, false).exit_heading, 26);
    // Four steps of two units.
    assert_eq!(make_rail_u_turn(origin, 0, false, true).exit_heading, 8);
    assert_eq!(make_rail_u_turn(origin, 0, false, false).exit_heading, 24);
    // Wall flag carries through.
    assert!(make_rail_u_turn(origin, 0, true, true).is_wall);
}

#[test]
fn random_preset_appends_one_or_two_blocks_ending_straight() {
    let mut world = World { rails: Vec::new() };
    preset_0_straight(&mut world);
    for _ in 0..60 {
        let before = world.rails.len();
        preset_random(&mut world);
        let added = world.rails.len() - before;
        assert!(added == 1 || added == 2);
        // After any turn or fork a straight run follows: the tail block
        // of every extension is a straight 8-point segment.
        match &world.rails[world.rails.len() - 1] {
            Block::Rail(r) => {
                assert_eq!(r.points.len(), 8);
                assert!(!r.is_wall);
            },
            _ => panic!("extension must end with a straight segment"),
        }
    }
}

#[test]
fn flipped_mult_signs() {
    assert_eq!(get_flipped_mult(true), 1);
    assert_eq!(get_flipped_mult(false), -1);
}

#[test]
fn letters_from_rolls() {
    assert_eq!(letter_from(1), Letter::A);
    assert_eq!(letter_from(2), Letter::B);
    assert_eq!(letter_from(3), Letter::C);
}

#[test]
fn random_letter_covers_the_tag_set() {
    let mut seen_a = false;
    let mut seen_b = false;
    let mut seen_c = false;
    for _ in 0..500 {
        match random_letter() {
            Letter::A => seen_a = true,
            Letter::B => seen_b = true,
            Letter::C => seen_c = true,
        }
    }
    assert!(seen_a && seen_b && seen_c);
}
