use minceraft::height::HeightField;
use minceraft::physics::apply_gravity;
use minceraft::physics::integrate;
use minceraft::physics::physics_step;
use minceraft::physics::resolve_collision;
use minceraft::physics::resolve_collisions;
use minceraft::physics::voxel_centre;
use minceraft::physics::Body;
use minceraft::physics::Vec3;
use minceraft::physics::GRAVITY;
use minceraft::physics::REACH_SIDE;
use minceraft::physics::REACH_UP;
use minceraft::terrain::Voxel;
use minceraft::units::displacement;
use minceraft::units::distance;
use minceraft::units::saturate;
use minceraft::units::MICRO;
use minceraft::world::generate_full;
use minceraft::world::VoxelWorld;

const TICK: u32 = 16_667;

fn at(x: i64, y: i64, z: i64) -> Body {
    Body { position: Vec3 { x, y, z }, velocity: Vec3 { x: 1, y: 2, z: 3 } }
}

fn block(x: i32, y: i32, z: i32) -> Voxel {
    Voxel { x, y, z, surface: true }
}

fn flat(width: u32, level: i32) -> VoxelWorld {
    let count = (width * width) as usize;
    generate_full(HeightField::new(width, vec![level; count]).unwrap())
}

fn overlapping(p: Vec3, world: &VoxelWorld) -> bool {
    world.voxels().iter().any(|v| {
        (p.x - v.x as i64 * MICRO).abs() < REACH_SIDE
            && (p.y - v.y as i64 * MICRO).abs() < REACH_UP
            && (p.z - v.z as i64 * MICRO).abs() < REACH_SIDE
    })
}

#[test]
fn reach_is_half_of_player_plus_block() {
    assert_eq!(REACH_SIDE, 750_000);
    assert_eq!(REACH_UP, 1_500_000);
    assert_eq!(GRAVITY, 20);
    assert_eq!(MICRO, 1_000_000);
    assert_eq!(voxel_centre(-3), -3_000_000);
}

#[test]
fn stored_values_saturate() {
    assert_eq!(saturate(5), 5);
    assert_eq!(saturate(i64::MAX as i128 + 1), i64::MAX);
    assert_eq!(saturate(i64::MIN as i128 - 1), i64::MIN);
    assert_eq!(saturate(i64::MIN as i128), i64::MIN);
}

#[test]
fn displacement_rounds_toward_zero() {
    assert_eq!(displacement(1_000_000, 1_000_000), 1_000_000);
    assert_eq!(displacement(1_500_000, 1), 1);
    assert_eq!(displacement(-1_500_000, 1), -1);
    assert_eq!(displacement(999_999, 1), 0);
    assert_eq!(displacement(-999_999, 1), 0);
    assert_eq!(displacement(-333_340, 16_667), -5_555);
    assert_eq!(displacement(i64::MIN, u32::MAX), -39_614_081_247_908_796_759_917);
    assert_eq!(distance(i64::MIN, i64::MAX), 18_446_744_073_709_551_615);
    assert_eq!(distance(3, 10), 7);
}

#[test]
fn gravity_takes_twenty_units_per_second_each_second() {
    let mut body = at(0, 0, 0);
    body.velocity = Vec3 { x: 5, y: 0, z: -5 };
    apply_gravity(&mut body, TICK);
    assert_eq!(body.velocity, Vec3 { x: 5, y: -333_340, z: -5 });
    apply_gravity(&mut body, 1_000_000);
    assert_eq!(body.velocity.y, -20_333_340);
    assert_eq!(body.position, Vec3 { x: 0, y: 0, z: 0 });
    body.velocity.y = i64::MIN + 10;
    apply_gravity(&mut body, 1);
    assert_eq!(body.velocity.y, i64::MIN);
}

#[test]
fn a_body_moves_by_velocity_times_time() {
    let mut body = Body {
        position: Vec3 { x: 10, y: 15_000_000, z: -10 },
        velocity: Vec3 { x: 3_000_000, y: -333_340, z: -1_500_000 },
    };
    integrate(&mut body, TICK);
    assert_eq!(body.position, Vec3 { x: 10 + 50_001, y: 14_994_445, z: -10 - 25_000 });
    assert_eq!(body.velocity, Vec3 { x: 3_000_000, y: -333_340, z: -1_500_000 });
    body.position.x = i64::MAX - 5;
    integrate(&mut body, TICK);
    assert_eq!(body.position.x, i64::MAX);
}

#[test]
fn no_overlap_changes_nothing() {
    for p in [(750_000, 0, 0), (-750_000, 0, 0), (0, 1_500_000, 0), (0, -1_500_000, 0), (0, 0, 750_000), (0, 0, -750_000), (9_000_000, 0, 0)] {
        let mut body = at(p.0, p.1, p.2);
        resolve_collision(&mut body, &block(0, 0, 0));
        assert_eq!(body, at(p.0, p.1, p.2));
    }
}

#[test]
fn the_axis_of_largest_distance_is_corrected() {
    let mut body = at(700_000, 100_000, 0);
    resolve_collision(&mut body, &block(0, 0, 0));
    assert_eq!(body.position, Vec3 { x: 750_000, y: 100_000, z: 0 });
    assert_eq!(body.velocity, Vec3 { x: 0, y: 2, z: 3 });

    let mut body = at(-700_000, 100_000, 0);
    resolve_collision(&mut body, &block(0, 0, 0));
    assert_eq!(body.position, Vec3 { x: -750_000, y: 100_000, z: 0 });
    assert_eq!(body.velocity, Vec3 { x: 0, y: 2, z: 3 });

    let mut body = at(100_000, 0, 600_000);
    resolve_collision(&mut body, &block(0, 0, 0));
    assert_eq!(body.position, Vec3 { x: 100_000, y: 0, z: 750_000 });
    assert_eq!(body.velocity, Vec3 { x: 1, y: 2, z: 0 });

    let mut body = at(100_000, 0, -600_000);
    resolve_collision(&mut body, &block(0, 0, 0));
    assert_eq!(body.position, Vec3 { x: 100_000, y: 0, z: -750_000 });

    let mut body = at(700_000, 1_000_000, 0);
    resolve_collision(&mut body, &block(0, 0, 0));
    assert_eq!(body.position, Vec3 { x: 700_000, y: 1_500_000, z: 0 });
    assert_eq!(body.velocity, Vec3 { x: 1, y: 0, z: 3 });

    let mut body = at(0, -1_400_000, 0);
    resolve_collision(&mut body, &block(0, 0, 0));
    assert_eq!(body.position, Vec3 { x: 0, y: -1_500_000, z: 0 });
    assert_eq!(body.velocity, Vec3 { x: 1, y: 0, z: 3 });
}

#[test]
fn ties_go_to_the_later_axis() {
    let mut body = at(500_000, 500_000, 500_000);
    resolve_collision(&mut body, &block(0, 0, 0));
    assert_eq!(body.position, Vec3 { x: 500_000, y: 500_000, z: 750_000 });

    let mut body = at(500_000, 500_000, 100_000);
    resolve_collision(&mut body, &block(0, 0, 0));
    assert_eq!(body.position, Vec3 { x: 750_000, y: 500_000, z: 100_000 });

    let mut body = at(0, 0, 0);
    resolve_collision(&mut body, &block(0, 0, 0));
    assert_eq!(body.position, Vec3 { x: 0, y: 0, z: 750_000 });
    assert_eq!(body.velocity, Vec3 { x: 1, y: 2, z: 0 });
}

#[test]
fn voxels_are_centred_on_their_lattice_point() {
    let mut body = at(3_700_000, -2_000_000, 5_000_000);
    resolve_collision(&mut body, &block(3, -2, 5));
    assert_eq!(body.position, Vec3 { x: 3_750_000, y: -2_000_000, z: 5_000_000 });
    let mut body = at(i64::MAX, i64::MIN, 0);
    resolve_collision(&mut body, &block(i32::MAX, i32::MIN, 0));
    assert_eq!(body.position, Vec3 { x: i64::MAX, y: i64::MIN, z: 0 });
}

#[test]
fn corrections_are_applied_in_order() {
    let first = block(0, 0, 0);
    let second = block(1, 0, 0);
    let start = at(600_000, 0, 0);
    let mut body = start;
    resolve_collisions(&mut body, &vec![first, second]);
    assert_eq!(body.position, Vec3 { x: 250_000, y: 0, z: 0 });
    let mut body = start;
    resolve_collisions(&mut body, &vec![second, first]);
    assert_eq!(body.position, Vec3 { x: 750_000, y: 0, z: 0 });
    let mut body = start;
    resolve_collisions(&mut body, &vec![]);
    assert_eq!(body, start);
}

#[test]
fn one_tick_is_gravity_then_move_then_collision() {
    let world = flat(3, 0);
    let mut body = Body {
        position: Vec3 { x: 0, y: 15_000_000, z: 0 },
        velocity: Vec3 { x: 0, y: 0, z: 0 },
    };
    physics_step(&mut body, &world, false, TICK);
    assert_eq!(body.velocity, Vec3 { x: 0, y: -333_340, z: 0 });
    assert_eq!(body.position, Vec3 { x: 0, y: 14_994_445, z: 0 });
    physics_step(&mut body, &world, false, TICK);
    assert_eq!(body.velocity.y, -666_680);
    assert_eq!(body.position.y, 14_994_445 - 11_111);
}

#[test]
fn flight_switches_gravity_off() {
    let world = flat(3, 0);
    let mut body = Body {
        position: Vec3 { x: 0, y: 15_000_000, z: 0 },
        velocity: Vec3 { x: 0, y: 3_000_000, z: 0 },
    };
    physics_step(&mut body, &world, true, TICK);
    assert_eq!(body.velocity, Vec3 { x: 0, y: 3_000_000, z: 0 });
    assert_eq!(body.position, Vec3 { x: 0, y: 15_050_001, z: 0 });
}

#[test]
fn a_dropped_player_comes_to_rest_on_the_ground() {
    for level in [0, 3] {
        let world = flat(5, level);
        let rest = level as i64 * MICRO + REACH_UP;
        let mut body = Body {
            position: Vec3 { x: 200_000, y: 15_000_000, z: -300_000 },
            velocity: Vec3 { x: 0, y: 0, z: 0 },
        };
        let mut landed_after = None;
        for tick in 0..1000 {
            let before = body;
            physics_step(&mut body, &world, false, TICK);
            assert!(!overlapping(body.position, &world));
            assert!(body.position.y >= rest);
            assert!(body.position.y <= before.position.y);
            if landed_after.is_none() && body.position.y == rest && body.velocity.y == 0 {
                landed_after = Some(tick);
            }
            if landed_after.is_some() {
                assert_eq!(body.position, Vec3 { x: 200_000, y: rest, z: -300_000 });
                assert_eq!(body.velocity, Vec3 { x: 0, y: 0, z: 0 });
            }
        }
        let ticks = landed_after.unwrap();
        assert!(ticks > 10 && ticks < 200);
    }
}

#[test]
fn a_player_walks_into_a_step_and_stops() {
    let mut samples = vec![0; 25];
    for row in 0..5 {
        samples[row * 5 + 4] = 2;
    }
    let world = generate_full(HeightField::new(5, samples).unwrap());
    let mut body = Body {
        position: Vec3 { x: 0, y: 1_500_000, z: 0 },
        velocity: Vec3 { x: 0, y: 0, z: 0 },
    };
    for _ in 0..200 {
        body.velocity.x = 3_000_000;
        physics_step(&mut body, &world, false, TICK);
    }
    assert_eq!(body.position, Vec3 { x: 1_250_000, y: 1_500_000, z: 0 });
    assert_eq!(body.velocity, Vec3 { x: 0, y: 0, z: 0 });
}
