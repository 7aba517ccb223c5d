use maze_motion::commit::commit_movement;
use maze_motion::fixed::{GROUND_HEIGHT, PUSH_DISTANCE, SCALE};
use maze_motion::geom::{KeyState, Mover, Obstacle, Orientation, Vec3Fx};
use maze_motion::intent::propose_position;
use maze_motion::pipeline::step_frame;

fn v(x: i64, y: i64, z: i64) -> Vec3Fx {
    Vec3Fx { x, y, z }
}

fn unit_extents() -> Vec3Fx {
    v(SCALE, SCALE, SCALE)
}

// Forward along +z, right along +x: an exactly orthonormal orientation.
fn axis_orientation() -> Orientation {
    Orientation { forward: v(0, 0, SCALE), right: v(SCALE, 0, 0) }
}

fn keys(forward: bool, back: bool, left: bool, right: bool) -> KeyState {
    KeyState { forward, back, left, right }
}

#[test]
fn opposing_keys_cancel() {
    let pos = v(5_000_000, GROUND_HEIGHT, 5_000_000);
    let p = propose_position(pos, axis_orientation(), keys(true, true, false, false), 100_000);
    assert_eq!(p, pos);
    let q = propose_position(pos, axis_orientation(), keys(true, true, true, true), 100_000);
    assert_eq!(q, pos);
}

#[test]
fn idle_keys_propose_current_position() {
    let pos = v(5_000_000, GROUND_HEIGHT, 5_000_000);
    let p = propose_position(pos, axis_orientation(), keys(false, false, false, false), 250_000);
    assert_eq!(p, pos);
}

#[test]
fn zero_frame_time_proposes_current_position() {
    let pos = v(5_000_000, GROUND_HEIGHT, 5_000_000);
    let p = propose_position(pos, axis_orientation(), keys(true, false, false, false), 0);
    assert_eq!(p, pos);
}

#[test]
fn single_key_moves_speed_times_dt() {
    let pos = v(0, GROUND_HEIGHT, 0);
    // speed 10, dt 1 s: exactly 10 world units along +z.
    let p = propose_position(pos, axis_orientation(), keys(true, false, false, false), 1_000_000);
    assert_eq!(p, v(0, GROUND_HEIGHT, 10_000_000));
}

#[test]
fn diagonal_keys_are_normalized() {
    let pos = v(0, GROUND_HEIGHT, 0);
    // forward + right for 1 s: each component is 10 * (707107 / 1000000)
    // world units, not 10.
    let p = propose_position(pos, axis_orientation(), keys(true, false, false, true), 1_000_000);
    assert_eq!(p, v(7_071_070, GROUND_HEIGHT, 7_071_070));
    // magnitude stays within a few micro-units of speed * dt = 10 units...
    let mag_sq = p.x as i128 * p.x as i128 + p.z as i128 * p.z as i128;
    let target = 10_000_000i128 * 10_000_000i128;
    assert!((mag_sq - target).abs() < 100_000_000_000);
    // ...and is nowhere near the un-normalized sqrt(2) * 10 units.
    let sqrt2_sq = 2i128 * target;
    assert!(sqrt2_sq - mag_sq > target / 2);
}

#[test]
fn proposal_pins_vertical_to_ground() {
    // A mover above the ground is proposed back onto it.
    let pos = v(0, 10_000_000, 0);
    let p = propose_position(pos, axis_orientation(), keys(false, false, false, false), 100_000);
    assert_eq!(p, v(0, GROUND_HEIGHT, 0));
}

#[test]
fn clear_commit_is_exact() {
    let mut mover = Mover { position: v(5_000_000, GROUND_HEIGHT, 5_000_000), extents: unit_extents() };
    let proposed = v(5_000_000, GROUND_HEIGHT, 4_000_000);
    commit_movement(&mut mover, proposed, false);
    assert_eq!(mover.position, proposed);
    assert_eq!(mover.extents, unit_extents());
}

#[test]
fn degenerate_collision_is_a_no_op() {
    let pos = v(5_000_000, GROUND_HEIGHT, 5_000_000);
    let mut mover = Mover { position: pos, extents: unit_extents() };
    commit_movement(&mut mover, pos, true);
    assert_eq!(mover.position, pos);
}

#[test]
fn blocked_commit_nudges_toward_current() {
    let mut mover = Mover { position: v(5_000_000, GROUND_HEIGHT, 5_000_000), extents: unit_extents() };
    let proposed = v(5_000_000, GROUND_HEIGHT, 5_500_000);
    commit_movement(&mut mover, proposed, true);
    // gap 0.5 units along -z, a length the model represents exactly: the
    // nudge is exactly PUSH_DISTANCE, from the proposal back past the old
    // position.
    assert_eq!(mover.position, v(5_000_000, GROUND_HEIGHT, 4_999_000));
    assert!((mover.position.z - 5_000_000).abs() <= PUSH_DISTANCE);
}

#[test]
fn tiny_gap_still_nudges_push_distance() {
    // The gap (0.0005 units) is shorter than PUSH_DISTANCE; the nudge is
    // still the full PUSH_DISTANCE and overshoots the old position, as the
    // fixed-length push is not clamped to the gap.
    let mut mover = Mover { position: v(0, GROUND_HEIGHT, 0), extents: unit_extents() };
    let proposed = v(0, GROUND_HEIGHT, 500);
    commit_movement(&mut mover, proposed, true);
    assert_eq!(mover.position, v(0, GROUND_HEIGHT, -1000));
}

#[test]
fn pythagorean_gap_gets_exact_push() {
    // A 3-4-5 gap has an exactly representable length (0.0005 units), so the
    // diagonal nudge comes out at exactly PUSH_DISTANCE: (600, 0, 800).
    let mut mover = Mover { position: v(0, GROUND_HEIGHT, 0), extents: unit_extents() };
    let proposed = v(-300, GROUND_HEIGHT, -400);
    commit_movement(&mut mover, proposed, true);
    assert_eq!(mover.position, v(600, GROUND_HEIGHT, 800));
    let (dx, dz) = (mover.position.x, mover.position.z);
    assert_eq!(dx * dx + dz * dz, PUSH_DISTANCE * PUSH_DISTANCE);
}

#[test]
fn irrational_gap_push_stays_under_distance() {
    // A gap of (0.0001, 0, 0.0001) has an irrational length; the nudge is
    // truncated just below PUSH_DISTANCE and never exceeds it.
    let mut mover = Mover { position: v(100, GROUND_HEIGHT, 100), extents: unit_extents() };
    let proposed = v(0, GROUND_HEIGHT, 0);
    commit_movement(&mut mover, proposed, true);
    // len = floor(sqrt(20000)) = 141, divisor 142: each component 704.
    assert_eq!(mover.position, v(804, GROUND_HEIGHT, 804));
    let (dx, dz) = (mover.position.x - 100, mover.position.z - 100);
    let mag_sq = dx * dx + dz * dz;
    assert!(mag_sq <= PUSH_DISTANCE * PUSH_DISTANCE);
    assert!(mag_sq >= PUSH_DISTANCE * PUSH_DISTANCE - 6 * PUSH_DISTANCE - 20_000);
}

#[test]
fn scenario_blocked_step_is_corrected() {
    // Mover at (5,1,5), obstacle at (5,1,6), both with extents (1,1,1):
    // the shrunken envelope is 0.7 per axis. Walking forward 0.5 units
    // proposes (5,1,5.5), which collides, so the mover is nudged back along
    // -z by exactly PUSH_DISTANCE, to (5, 1, 4.999).
    let mut mover = Mover { position: v(5_000_000, GROUND_HEIGHT, 5_000_000), extents: unit_extents() };
    let obstacles = vec![Obstacle {
        position: v(5_000_000, GROUND_HEIGHT, 6_000_000),
        extents: unit_extents(),
    }];
    let (proposed, hit) = step_frame(
        &mut mover,
        axis_orientation(),
        keys(true, false, false, false),
        50_000,
        &obstacles,
    );
    assert_eq!(proposed, v(5_000_000, GROUND_HEIGHT, 5_500_000));
    assert!(hit);
    assert_eq!(mover.position, v(5_000_000, GROUND_HEIGHT, 4_999_000));
    assert!((mover.position.z - 5_000_000).abs() <= PUSH_DISTANCE);
}

#[test]
fn scenario_clear_step_commits_exactly() {
    // Same setup, walking backward a full unit proposes (5,1,4): the gap to
    // the obstacle is 2.0 on z, well outside the envelope, so the proposal is
    // committed bit-for-bit.
    let mut mover = Mover { position: v(5_000_000, GROUND_HEIGHT, 5_000_000), extents: unit_extents() };
    let obstacles = vec![Obstacle {
        position: v(5_000_000, GROUND_HEIGHT, 6_000_000),
        extents: unit_extents(),
    }];
    let (proposed, hit) = step_frame(
        &mut mover,
        axis_orientation(),
        keys(false, true, false, false),
        100_000,
        &obstacles,
    );
    assert_eq!(proposed, v(5_000_000, GROUND_HEIGHT, 4_000_000));
    assert!(!hit);
    assert_eq!(mover.position, v(5_000_000, GROUND_HEIGHT, 4_000_000));
}

#[test]
fn clear_step_pulls_spawn_height_to_ground() {
    // A mover spawned above the ground is brought onto the ground plane by
    // its first committed move, and stays there afterwards.
    let mut mover = Mover { position: v(500_000, 10_000_000, 500_000), extents: unit_extents() };
    let obstacles: Vec<Obstacle> = vec![];
    let (_, hit) = step_frame(
        &mut mover,
        axis_orientation(),
        keys(true, false, false, false),
        16_667,
        &obstacles,
    );
    assert!(!hit);
    assert_eq!(mover.position.y, GROUND_HEIGHT);
    let (_, hit2) = step_frame(
        &mut mover,
        axis_orientation(),
        keys(true, false, false, false),
        16_667,
        &obstacles,
    );
    assert!(!hit2);
    assert_eq!(mover.position.y, GROUND_HEIGHT);
}

#[test]
fn idle_frame_keeps_resting_position() {
    // No keys held: the proposal is the current position, the verdict is the
    // at-rest overlap (none here), and the mover does not move.
    let pos = v(2_500_000, GROUND_HEIGHT, 2_500_000);
    let mut mover = Mover { position: pos, extents: unit_extents() };
    let obstacles = vec![Obstacle {
        position: v(9_000_000, GROUND_HEIGHT, 9_000_000),
        extents: unit_extents(),
    }];
    let (proposed, hit) = step_frame(
        &mut mover,
        axis_orientation(),
        keys(false, false, false, false),
        16_667,
        &obstacles,
    );
    assert_eq!(proposed, pos);
    assert!(!hit);
    assert_eq!(mover.position, pos);
}
