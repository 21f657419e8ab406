use car_physics::car::{apply_wheel_forces, grip, turn_wheel, update_wheels, wheel_force, Car, Wheel};
use car_physics::fixed::{isqrt, SCALE};
use car_physics::rigidbody::{apply_forces, update_transform, Pose, Rigidbody};
use car_physics::vector::Vector2;
use car_physics::world::{TickError, World};

fn v(x: i32, y: i32) -> Vector2 {
    Vector2::new(x, y)
}

fn unit_body() -> Rigidbody {
    Rigidbody::new(SCALE, SCALE, Vector2::zero(), 0).unwrap()
}

fn plain_car() -> Car {
    Car {
        steering_target: 0,
        power_target: 0,
        brake_target: 0,
        steering_angle_max: 0,
        steering_speed: 0,
        speed_max: 0,
        power: 0,
        brake_power: 0,
    }
}

fn plain_wheel() -> Wheel {
    Wheel {
        drive: false,
        speed: 0,
        brake: false,
        steering: 0,
        parent: 0,
        angle: 0,
        offset: Vector2::zero(),
        up: v(0, SCALE),
    }
}

fn pose() -> Pose {
    Pose { translation: Vector2::zero(), rotation: 0, scale: v(SCALE, SCALE) }
}

#[test]
fn off_center_force_spins_negative() {
    let mut bodies = vec![unit_body()];
    bodies[0].add_force(v(SCALE, 0), v(0, SCALE));
    assert_eq!(bodies[0].velocity_delta, v(SCALE, 0));
    assert_eq!(bodies[0].angular_velocity_delta, -SCALE);
    apply_forces(&mut bodies);
    assert_eq!(bodies[0].velocity, v(SCALE, 0));
    assert_eq!(bodies[0].angular_velocity, -SCALE);
}

#[test]
fn force_through_center_is_linear() {
    let mut bodies = vec![unit_body()];
    bodies[0].add_force(v(SCALE, 0), v(0, 0));
    assert_eq!(bodies[0].angular_velocity_delta, 0);
    apply_forces(&mut bodies);
    assert_eq!(bodies[0].velocity, v(SCALE, 0));
    assert_eq!(bodies[0].angular_velocity, 0);
}

#[test]
fn opposite_forces_add_their_spin() {
    let mut bodies = vec![unit_body()];
    bodies[0].add_force(v(SCALE, 0), v(0, SCALE));
    bodies[0].add_force(v(-SCALE, 0), v(0, -SCALE));
    apply_forces(&mut bodies);
    assert_eq!(bodies[0].velocity, v(0, 0));
    assert_eq!(bodies[0].angular_velocity, -2 * SCALE);
}

#[test]
fn apply_forces_clears_accumulators() {
    let mut bodies = vec![unit_body(), unit_body()];
    bodies[0].add_force(v(3000, -2000), v(500, 700));
    bodies[1].add_force(v(-12345, 678), v(-9000, 100));
    apply_forces(&mut bodies);
    for b in &bodies {
        assert_eq!(b.velocity_delta, v(0, 0));
        assert_eq!(b.angular_velocity_delta, 0);
    }
}

#[test]
fn zero_force_changes_nothing() {
    let mut b = unit_body();
    b.add_force(v(SCALE, SCALE), v(SCALE, 0));
    let before = b;
    b.add_force(v(0, 0), v(123, -456));
    assert_eq!(b, before);
    b.add_force(v(1, -1), v(SCALE, SCALE));
    assert_eq!(b, before);
}

#[test]
fn force_order_does_not_matter() {
    let mut a = unit_body();
    let mut b = unit_body();
    a.add_force(v(20000, 3000), v(1000, -4000));
    a.add_force(v(-7000, 11000), v(-2500, 6000));
    b.add_force(v(-7000, 11000), v(-2500, 6000));
    b.add_force(v(20000, 3000), v(1000, -4000));
    let mut x = vec![a];
    let mut y = vec![b];
    apply_forces(&mut x);
    apply_forces(&mut y);
    assert_eq!(x[0].velocity, y[0].velocity);
    assert_eq!(x[0].angular_velocity, y[0].angular_velocity);
}

#[test]
fn linear_mass_divides_force() {
    let mut b = Rigidbody::new(2 * SCALE, SCALE, Vector2::zero(), 0).unwrap();
    b.add_force(v(SCALE, -3 * SCALE), v(0, 0));
    assert_eq!(b.velocity_delta, v(5000, -15000));
}

#[test]
fn new_rejects_non_positive_mass() {
    assert!(Rigidbody::new(0, SCALE, Vector2::zero(), 0).is_none());
    assert!(Rigidbody::new(SCALE, -1, Vector2::zero(), 0).is_none());
    assert!(Rigidbody::new(1, 1, Vector2::zero(), 0).is_some());
}

#[test]
fn velocity_at_uses_pi_per_revolution() {
    let b = Rigidbody::new(SCALE, SCALE, v(SCALE, 0), SCALE).unwrap();
    assert_eq!(b.get_velocity_at(v(0, 0)), v(SCALE, 0));
    assert_eq!(b.get_velocity_at(v(SCALE, 0)), v(SCALE, 31416));
    assert_eq!(b.get_velocity_at(v(0, SCALE)), v(SCALE - 31416, 0));
}

#[test]
fn grip_steps_at_slide_speed() {
    assert_eq!(grip(0), SCALE);
    assert_eq!(grip(999_999), SCALE);
    assert_eq!(grip(1_000_000), 1000);
}

#[test]
fn integer_square_root() {
    assert_eq!(isqrt(0), 0);
    assert_eq!(isqrt(15), 3);
    assert_eq!(isqrt(16), 4);
    assert_eq!(isqrt(100_000_000), 10_000);
    assert_eq!(isqrt(u64::MAX), 4_294_967_295);
}

#[test]
fn drive_accelerates_wheel() {
    let car = Car { speed_max: 100 * SCALE, power: 50 * SCALE, power_target: SCALE, ..plain_car() };
    let mut wheels = vec![Wheel { drive: true, ..plain_wheel() }];
    update_wheels(&vec![car], &mut wheels, 1000);
    assert_eq!(wheels[0].speed, 5 * SCALE);
}

#[test]
fn drive_stops_at_speed_max() {
    let car = Car { speed_max: 100 * SCALE, power: 50 * SCALE, power_target: SCALE, ..plain_car() };
    let cars = vec![car];
    let mut wheels = vec![Wheel { drive: true, ..plain_wheel() }];
    for _ in 0..40 {
        update_wheels(&cars, &mut wheels, 1000);
        assert!(wheels[0].speed <= 100 * SCALE);
    }
    assert_eq!(wheels[0].speed, 100 * SCALE);
}

#[test]
fn steering_slews_to_limit() {
    let car = Car { steering_angle_max: 3500, steering_speed: 17500, steering_target: SCALE, ..plain_car() };
    let mut w = Wheel { steering: SCALE, ..plain_wheel() };
    w = turn_wheel(&car, &w, 1000);
    assert_eq!(w.angle, -1750);
    w = turn_wheel(&car, &w, 1000);
    assert_eq!(w.angle, -3500);
    w = turn_wheel(&car, &w, 1000);
    assert_eq!(w.angle, -3500);
}

#[test]
fn steering_left_converges_without_overshoot() {
    let car = Car { steering_angle_max: 3500, steering_speed: 17500, steering_target: -SCALE, ..plain_car() };
    let mut w = Wheel { steering: -SCALE, angle: 1000, ..plain_wheel() };
    let goal = -3500;
    let mut dist = (w.angle - goal).abs();
    for _ in 0..10 {
        w = turn_wheel(&car, &w, 1000);
        let d = (w.angle - goal).abs();
        assert!(d <= dist);
        assert!(w.angle >= goal);
        dist = d;
    }
    assert_eq!(w.angle, goal);
}

#[test]
fn brake_holds_still_wheel() {
    let car = Car { brake_power: 4000 * SCALE, brake_target: SCALE, ..plain_car() };
    let mut wheels = vec![Wheel { brake: true, ..plain_wheel() }];
    update_wheels(&vec![car], &mut wheels, 1000);
    assert_eq!(wheels[0].speed, 0);
}

#[test]
fn brake_opposes_motion() {
    let car = Car { brake_power: 10 * SCALE, brake_target: SCALE, ..plain_car() };
    let cars = vec![car];
    let mut wheels = vec![Wheel { brake: true, speed: 5 * SCALE, ..plain_wheel() }, Wheel { brake: true, speed: -5 * SCALE, ..plain_wheel() }];
    update_wheels(&cars, &mut wheels, 1000);
    assert_eq!(wheels[0].speed, 4 * SCALE);
    assert_eq!(wheels[1].speed, -4 * SCALE);
}

#[test]
fn rolling_wheel_pushes_body_forward() {
    let b = unit_body();
    let w = Wheel { speed: 10 * SCALE, ..plain_wheel() };
    // relative velocity (0, -10); force = 10 * 0.1 * 1 * 5 = 5 upward
    assert_eq!(wheel_force(&b, &w, 1000), v(0, 5 * SCALE));
    let mut bodies = vec![b];
    let mut wheels = vec![w];
    apply_wheel_forces(&mut bodies, &mut wheels, 1000);
    assert_eq!(bodies[0].velocity_delta, v(0, 5 * SCALE));
    assert_eq!(bodies[0].velocity, v(0, 0));
    assert_eq!(wheels[0].speed, 5 * SCALE);
}

#[test]
fn sliding_tire_loses_grip() {
    let b = Rigidbody::new(SCALE, SCALE, v(200 * SCALE, 0), 0).unwrap();
    let w = plain_wheel();
    // relative speed 200 is past the slide speed: grip 0.1
    assert_eq!(wheel_force(&b, &w, 1000), v(-10 * SCALE, 0));
}

#[test]
fn transform_scales_translation() {
    let bodies = vec![Rigidbody::new(SCALE, SCALE, v(2 * SCALE, -SCALE), 3 * SCALE).unwrap()];
    let mut poses = vec![Pose { scale: v(2 * SCALE, SCALE), ..pose() }];
    update_transform(&bodies, &mut poses, 5000);
    assert_eq!(poses[0].translation, v(2 * SCALE, -5000));
    assert_eq!(poses[0].rotation, 15000);
}

fn one_car_world() -> World {
    let car = Car {
        steering_angle_max: 3500,
        steering_speed: 17500,
        speed_max: 100 * SCALE,
        power: 50 * SCALE,
        power_target: SCALE,
        steering_target: SCALE,
        ..plain_car()
    };
    World {
        bodies: vec![Rigidbody::new(5 * SCALE, 5000 * SCALE, v(SCALE, 2 * SCALE), 300).unwrap()],
        poses: vec![Pose { translation: v(7, 8), ..pose() }],
        cars: vec![car],
        wheels: vec![
            Wheel { drive: true, speed: 3 * SCALE, offset: v(-1400, -2350), ..plain_wheel() },
            Wheel { steering: SCALE, angle: -1200, offset: v(1400, 1900), up: v(3000, 9539), ..plain_wheel() },
        ],
    }
}

#[test]
fn zero_tick_is_identity() {
    let mut world = one_car_world();
    let bodies = world.bodies.clone();
    let poses = world.poses.clone();
    let wheels = world.wheels.clone();
    assert_eq!(world.tick(0), Ok(()));
    assert_eq!(world.bodies, bodies);
    assert_eq!(world.poses, poses);
    assert_eq!(world.wheels, wheels);
}

#[test]
fn tick_moves_car() {
    let mut world = one_car_world();
    assert_eq!(world.tick(1000), Ok(()));
    assert!(world.poses[0].translation != v(7, 8));
    assert_eq!(world.bodies[0].velocity_delta, v(0, 0));
    assert_eq!(world.bodies[0].angular_velocity_delta, 0);
    assert_eq!(world.wheels[1].angle, -2950);
}

#[test]
fn detached_wheel_is_refused() {
    let mut world = one_car_world();
    world.wheels[1].parent = 3;
    let bodies = world.bodies.clone();
    assert_eq!(world.tick(1000), Err(TickError::DetachedWheel(1)));
    assert_eq!(world.bodies, bodies);
}

#[test]
fn unpaired_car_is_refused() {
    let mut world = one_car_world();
    world.cars.push(plain_car());
    assert_eq!(world.tick(1000), Err(TickError::UnpairedCar));
}
