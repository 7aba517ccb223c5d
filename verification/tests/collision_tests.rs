use maze_motion::collision::{collides, collides_with};
use maze_motion::geom::{Obstacle, Vec3Fx};

fn unit_extents() -> Vec3Fx {
    Vec3Fx { x: 1_000_000, y: 1_000_000, z: 1_000_000 }
}

fn obstacle_at(x: i64, y: i64, z: i64) -> Obstacle {
    Obstacle { position: Vec3Fx { x, y, z }, extents: unit_extents() }
}

// Mover extents (1,1,1) and obstacle extents (1,1,1) give a shrunken envelope
// of 0.7 world units per axis: (1 + 1) * 0.5 * 0.7.
#[test]
fn adjacent_obstacle_collides() {
    let p = Vec3Fx { x: 5_000_000, y: 1_000_000, z: 5_500_000 };
    let ob = obstacle_at(5_000_000, 1_000_000, 6_000_000);
    // gap is (0, 0, 0.5): within 0.7 on every axis at once.
    assert!(collides_with(p, unit_extents(), &ob));
}

#[test]
fn far_obstacle_is_clear() {
    let p = Vec3Fx { x: 5_000_000, y: 1_000_000, z: 4_000_000 };
    let ob = obstacle_at(5_000_000, 1_000_000, 6_000_000);
    // gap is (0, 0, 2.0): the z axis exceeds 0.7, so no overlap.
    assert!(!collides_with(p, unit_extents(), &ob));
}

#[test]
fn envelope_boundary_is_inclusive() {
    // gap exactly 0.7 on z still counts as overlap: the test is <=.
    let p = Vec3Fx { x: 5_000_000, y: 1_000_000, z: 5_300_000 };
    let ob = obstacle_at(5_000_000, 1_000_000, 6_000_000);
    assert!(collides_with(p, unit_extents(), &ob));
    // one micro-unit beyond the envelope is clear.
    let q = Vec3Fx { x: 5_000_000, y: 1_000_000, z: 5_299_999 };
    assert!(!collides_with(q, unit_extents(), &ob));
}

#[test]
fn one_axis_outside_means_clear() {
    // Overlap must hold on all axes simultaneously, not just one.
    let p = Vec3Fx { x: 9_000_000, y: 1_000_000, z: 6_000_000 };
    let ob = obstacle_at(5_000_000, 1_000_000, 6_000_000);
    assert!(!collides_with(p, unit_extents(), &ob));
}

#[test]
fn any_obstacle_in_list_collides() {
    let p = Vec3Fx { x: 5_000_000, y: 1_000_000, z: 5_500_000 };
    let far = obstacle_at(20_000_000, 1_000_000, 20_000_000);
    let near = obstacle_at(5_000_000, 1_000_000, 6_000_000);
    let both = vec![far, near];
    assert!(collides(p, unit_extents(), &both));
    let only_far = vec![far];
    assert!(!collides(p, unit_extents(), &only_far));
    let none: Vec<Obstacle> = vec![];
    assert!(!collides(p, unit_extents(), &none));
}

#[test]
fn order_of_obstacles_does_not_change_verdict() {
    let p = Vec3Fx { x: 5_000_000, y: 1_000_000, z: 5_500_000 };
    let far = obstacle_at(20_000_000, 1_000_000, 20_000_000);
    let near = obstacle_at(5_000_000, 1_000_000, 6_000_000);
    let one_way = vec![far, near];
    let other_way = vec![near, far];
    assert_eq!(
        collides(p, unit_extents(), &one_way),
        collides(p, unit_extents(), &other_way)
    );
}
