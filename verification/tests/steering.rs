use minceraft::movement::Heading;
use minceraft::steering::isqrt;
use minceraft::steering::steer_along;
use minceraft::steering::Ground;

const SPEED: i64 = 3_333_400;

const HEADINGS: [Heading; 8] = [
    Heading::Forward,
    Heading::ForwardRight,
    Heading::Right,
    Heading::BackwardRight,
    Heading::Backward,
    Heading::BackwardLeft,
    Heading::Left,
    Heading::ForwardLeft,
];

fn length(v: (i64, i64)) -> f64 {
    ((v.0 as f64).powi(2) + (v.1 as f64).powi(2)).sqrt()
}

#[test]
fn square_roots_are_rounded_down() {
    assert_eq!(isqrt(0), 0);
    assert_eq!(isqrt(1), 1);
    assert_eq!(isqrt(3), 1);
    assert_eq!(isqrt(4), 2);
    assert_eq!(isqrt(24), 4);
    assert_eq!(isqrt(25), 5);
    assert_eq!(isqrt(2_000_000_000_000), 1_414_213);
    assert_eq!(isqrt((1u128 << 66) - 1), (1u64 << 33) - 1);
    assert_eq!(isqrt(1u128 << 64), 1u64 << 32);
    assert_eq!(isqrt(u128::MAX), u64::MAX);
    assert_eq!(isqrt((u64::MAX as u128) * (u64::MAX as u128)), u64::MAX);
    assert_eq!(isqrt((u64::MAX as u128) * (u64::MAX as u128) - 1), u64::MAX - 1);
}

#[test]
fn straight_headings_follow_the_camera() {
    let ahead = Ground { x: 0, z: -1_000_000 };
    assert_eq!(steer_along(ahead, Heading::Forward, SPEED), (0, -3_333_400));
    assert_eq!(steer_along(ahead, Heading::Right, SPEED), (3_333_400, 0));
    assert_eq!(steer_along(ahead, Heading::Backward, SPEED), (0, 3_333_400));
    assert_eq!(steer_along(ahead, Heading::Left, SPEED), (-3_333_400, 0));
    let turned = Ground { x: 600_000, z: -800_000 };
    assert_eq!(steer_along(turned, Heading::Forward, SPEED), (2_000_040, -2_666_720));
    assert_eq!(steer_along(turned, Heading::Right, SPEED), (2_666_720, 2_000_040));
    assert_eq!(steer_along(turned, Heading::Backward, SPEED), (-2_000_040, 2_666_720));
    assert_eq!(steer_along(turned, Heading::Left, SPEED), (-2_666_720, -2_000_040));
}

#[test]
fn diagonals_lie_between_their_two_keys() {
    let ahead = Ground { x: 0, z: -1_000_000 };
    assert_eq!(steer_along(ahead, Heading::ForwardRight, SPEED), (2_357_069, -2_357_069));
    assert_eq!(steer_along(ahead, Heading::BackwardRight, SPEED), (2_357_069, 2_357_069));
    assert_eq!(steer_along(ahead, Heading::BackwardLeft, SPEED), (-2_357_069, 2_357_069));
    assert_eq!(steer_along(ahead, Heading::ForwardLeft, SPEED), (-2_357_069, -2_357_069));
    let turned = Ground { x: 600_000, z: -800_000 };
    assert_eq!(steer_along(turned, Heading::ForwardRight, SPEED), (3_299_897, -471_413));
    assert_eq!(steer_along(turned, Heading::ForwardLeft, SPEED), (-471_413, -3_299_897));
}

#[test]
fn every_heading_is_walked_at_the_same_speed() {
    for forward in [
        Ground { x: 0, z: -1_000_000 },
        Ground { x: 600_000, z: -800_000 },
        Ground { x: -707_107, z: 707_107 },
        Ground { x: 70_737, z: 997_495 },
        Ground { x: i32::MIN, z: i32::MAX },
        Ground { x: 1, z: 0 },
        Ground { x: 1, z: 1 },
        Ground { x: 3, z: 4 },
        Ground { x: 0, z: -7 },
    ] {
        for heading in HEADINGS {
            let v = steer_along(forward, heading, SPEED);
            assert!((length(v) - SPEED as f64).abs() < 2.0, "{:?} {:?}", forward, heading);
        }
    }
}

#[test]
fn a_diagonal_is_not_faster_for_the_shortest_forward_vector() {
    let short = Ground { x: 1, z: 0 };
    assert_eq!(steer_along(short, Heading::Forward, 50_000_000), (50_000_000, 0));
    assert_eq!(steer_along(short, Heading::Right, 50_000_000), (0, 50_000_000));
    assert_eq!(steer_along(short, Heading::ForwardRight, 50_000_000), (35_355_353, 35_355_353));
    assert_eq!(steer_along(short, Heading::ForwardRight, SPEED), (2_357_070, 2_357_070));
}

#[test]
fn the_length_of_the_forward_vector_does_not_matter() {
    assert_eq!(
        steer_along(Ground { x: 3_000, z: 4_000 }, Heading::Forward, SPEED),
        (2_000_040, 2_666_720)
    );
    assert_eq!(steer_along(Ground { x: 3, z: 4 }, Heading::Forward, SPEED), (2_000_040, 2_666_720));
    assert_eq!(
        steer_along(Ground { x: 3_000, z: 4_000 }, Heading::ForwardRight, SPEED),
        (-471_413, 3_299_897)
    );
    assert_eq!(
        steer_along(Ground { x: 3, z: 4 }, Heading::ForwardRight, SPEED),
        (-471_414, 3_299_898)
    );
}

#[test]
fn no_forward_direction_gives_no_velocity() {
    for heading in HEADINGS {
        assert_eq!(steer_along(Ground { x: 0, z: 0 }, heading, SPEED), (0, 0));
        assert_eq!(steer_along(Ground { x: 5, z: -7 }, heading, 0), (0, 0));
    }
}

#[test]
fn extreme_values_are_stored_saturated() {
    let far = Ground { x: i32::MIN, z: i32::MIN };
    assert_eq!(steer_along(far, Heading::ForwardRight, i64::MAX), (0, -i64::MAX));
    assert_eq!(steer_along(Ground { x: 1, z: 0 }, Heading::Forward, i64::MIN), (i64::MIN, 0));
    assert_eq!(steer_along(Ground { x: -1, z: 0 }, Heading::Forward, i64::MIN), (i64::MAX, 0));
}
