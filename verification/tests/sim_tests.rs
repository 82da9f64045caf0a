use railsim::geometry::Point;
use railsim::preset::preset_0_straight;
use railsim::sim::{maintain_window, Sim, PERIOD_START_US, WINDOW_LOOKAHEAD, WINDOW_MAX, WINDOW_MIN};
use railsim::state::State;
use railsim::preset::make_rail_90_turn;
use railsim::track::{Block, Fork, ForkSelection, Letter, Rail, World};

fn straight_world(blocks: usize) -> World {
    let mut world = World { rails: Vec::new() };
    for _ in 0..blocks {
        preset_0_straight(&mut world);
    }
    world
}

fn world_with_dead_end() -> World {
    let mut world = straight_world(1);
    let pos = railsim::track::get_last_rail_world_position(&world);
    let ang = railsim::track::get_last_rail_world_start_angle(&world);
    world.rails.push(Block::Rail(Rail::new_straight(pos, ang, true, 30, 8)));
    world
}

#[test]
fn advance_increments_point_on_non_final_point() {
    let world = straight_world(2);
    let mut state = State::new();
    state.current_point_idx = 2;
    state.move_to_next_point(&world);
    assert_eq!(state.current_point_idx, 3);
    assert_eq!(state.current_rail_idx, 0);
    assert!(state.alive);
}

#[test]
fn advance_wraps_to_next_block_on_final_point() {
    let world = straight_world(2);
    let mut state = State::new();
    state.current_point_idx = 7;
    state.move_to_next_point(&world);
    assert_eq!(state.current_point_idx, 0);
    assert_eq!(state.current_rail_idx, 1);
    assert!(state.alive);
}

#[test]
fn advance_wraps_block_index_modulo_graph_length() {
    let world = straight_world(1);
    let mut state = State::new();
    state.current_point_idx = 7;
    state.move_to_next_point(&world);
    assert_eq!(state.current_point_idx, 0);
    assert_eq!(state.current_rail_idx, 0);
}

#[test]
fn walkthrough_two_blocks() {
    // Graph of a straight block and a curved block, eight points each:
    // seven advances reach the last point of block zero, the eighth
    // lands on point zero of block one.
    let mut world = straight_world(1);
    let pos = railsim::track::get_last_rail_world_position(&world);
    let ang = railsim::track::get_last_rail_world_start_angle(&world);
    world.rails.push(Block::Rail(Rail::new_curved(pos, ang, false, 30, 8, 1)));

    let mut state = State::new();
    for _ in 0..7 {
        state.move_to_next_point(&world);
    }
    assert_eq!(state.current_rail_idx, 0);
    assert_eq!(state.current_point_idx, 7);
    assert!(state.alive);

    state.move_to_next_point(&world);
    assert_eq!(state.current_rail_idx, 1);
    assert_eq!(state.current_point_idx, 0);
    assert!(state.alive);
}

#[test]
fn dead_end_kills_and_clamps_idempotently() {
    // The tail is a dead-end segment of eight points: reaching point 6
    // and advancing once more kills the agent and clamps to point 6;
    // further advances change nothing.
    let world = world_with_dead_end();
    let mut state = State::new();
    state.current_rail_idx = 1;
    state.current_point_idx = 5;

    state.move_to_next_point(&world);
    assert_eq!(state.current_point_idx, 6);
    assert!(state.alive);

    state.move_to_next_point(&world);
    assert!(!state.alive);
    assert_eq!(state.current_point_idx, 6);
    assert_eq!(state.current_rail_idx, 1);

    state.move_to_next_point(&world);
    assert!(!state.alive);
    assert_eq!(state.current_point_idx, 6);
    assert_eq!(state.current_rail_idx, 1);
}

#[test]
fn position_queries_follow_the_effective_polyline() {
    let world = straight_world(2);
    let mut state = State::new();
    state.current_point_idx = 6;
    let step = 30 * railsim::geometry::COORD_SCALE;
    assert_eq!(
        state.get_current_point_world_position(&world),
        Point { x: 6 * step, y: 0 },
    );
    assert_eq!(state.get_next_point_world_position(&world), Point { x: 7 * step, y: 0 });
    // Two ahead falls outside the block: point one of the next block,
    // skipping its coincident point zero.
    assert_eq!(
        state.get_next_next_point_world_position(&world),
        Point { x: 8 * step, y: 0 },
    );
}

#[test]
fn window_maintenance_keeps_lookahead_and_caps_length() {
    let mut world = straight_world(4);
    let mut state = State::new();
    maintain_window(&mut world, &mut state);
    assert!(world.rails.len() >= WINDOW_MIN);
    assert!(world.rails.len() <= WINDOW_MAX);
    assert!(world.rails.len() - state.current_rail_idx > WINDOW_LOOKAHEAD);

    // Drive the agent forward for a long while; the window never lets
    // the lookahead drop, never exceeds the cap, never drops the graph
    // under one block, and the index never underflows.
    for _ in 0..600 {
        state.move_to_next_point(&world);
        if !state.alive {
            break;
        }
        maintain_window(&mut world, &mut state);
        assert!(world.rails.len() >= 1);
        assert!(world.rails.len() <= WINDOW_MAX);
        assert!(world.rails.len() - state.current_rail_idx > WINDOW_LOOKAHEAD);
        assert!(state.current_rail_idx < world.rails.len());
    }
}

#[test]
fn sim_starts_with_four_straights() {
    let sim = Sim::new();
    assert_eq!(sim.world.rails.len(), 4);
    assert_eq!(sim.us_per_point, PERIOD_START_US);
    assert!(sim.state.alive);
    let pose = sim.current_render_pose();
    assert_eq!(pose.current, Point { x: 0, y: 0 });
    assert_eq!(pose.progress_num, 0);
    assert_eq!(pose.progress_den, PERIOD_START_US);
    assert!(pose.alive);
}

#[test]
fn simulation_accumulates_dwell_time_then_advances() {
    let mut sim = Sim::new();
    sim.advance_simulation(40_000);
    assert_eq!(sim.state.timer_us, 40_000);
    assert_eq!(sim.state.current_point_idx, 0);

    sim.advance_simulation(70_000);
    // 110000 microseconds reach the 100000 period: advance and reset.
    assert_eq!(sim.state.timer_us, 0);
    assert_eq!(sim.state.current_point_idx, 1);
    assert!(sim.world.rails.len() >= WINDOW_MIN);
}

#[test]
fn speed_ramp_fires_after_its_interval() {
    let mut sim = Sim {
        world: straight_world(40),
        state: State::new(),
        us_per_point: PERIOD_START_US,
    };
    // 150 frames of 0.1 s: more than ten seconds of alive time even
    // counting the degenerate block-boundary frames that consume no
    // time, and well under twenty: exactly one ramp step.
    for _ in 0..150 {
        sim.advance_simulation(100_000);
    }
    assert!(sim.state.alive);
    assert_eq!(sim.us_per_point, PERIOD_START_US - 10_000);
}

#[test]
fn dead_agent_freezes_pose_at_full_progress() {
    let world = world_with_dead_end();
    let mut state = State::new();
    state.current_rail_idx = 1;
    state.current_point_idx = 6;
    let mut sim = Sim { world, state, us_per_point: PERIOD_START_US };
    // One full dwell: the advance kills the agent on the dead end.
    sim.advance_simulation(100_000);
    assert!(!sim.state.alive);
    let pose = sim.current_render_pose();
    assert!(!pose.alive);
    assert_eq!(pose.progress_num, pose.progress_den);
    // Further frames change nothing about the agent.
    sim.advance_simulation(100_000);
    assert!(!sim.state.alive);
    assert_eq!(sim.state.current_point_idx, 6);
}

#[test]
fn toggle_junction_targets_next_matching_fork_only() {
    let mut world = straight_world(2);
    let pos = railsim::track::get_last_rail_world_position(&world);
    let ang = railsim::track::get_last_rail_world_start_angle(&world);
    world.rails.push(Block::Fork(Fork {
        rail1: make_rail_90_turn(pos, ang, false, true),
        rail2: make_rail_90_turn(pos, ang, false, false),
        which: ForkSelection::Rail2,
        letter: Letter::B,
    }));
    preset_0_straight(&mut world);

    let mut sim = Sim { world, state: State::new(), us_per_point: PERIOD_START_US };

    // No fork with letter A ahead: a no-op.
    sim.toggle_junction(Letter::A);
    match &sim.world.rails[2] {
        Block::Fork(f) => assert_eq!(f.which, ForkSelection::Rail2),
        _ => panic!("expected a fork"),
    }

    sim.toggle_junction(Letter::B);
    match &sim.world.rails[2] {
        Block::Fork(f) => assert_eq!(f.which, ForkSelection::Rail1),
        _ => panic!("expected a fork"),
    }

    // Toggling twice restores the original branch.
    sim.toggle_junction(Letter::B);
    match &sim.world.rails[2] {
        Block::Fork(f) => assert_eq!(f.which, ForkSelection::Rail2),
        _ => panic!("expected a fork"),
    }
}
