//! Cars and wheels: per-wheel tire forces, steering slew, drive and brake.
use vstd::prelude::*;
use crate::fixed::{
    abs, clamp, div_trunc, isqrt, lemma_mul_bound, root, sat, saturate, sign, signum, tdiv,
    SCALE,
};
use crate::rigidbody::{velocity_at, Rigidbody};
use crate::vector::{dot, Vector2};

verus! {

/// Driving parameters and driver targets of a car. Targets are in
/// `[-1, 1]` (`brake_target` in `[0, 1]`); angles are radians.
#[derive(Clone, Copy, PartialEq, Eq, Structural, Debug)]
pub struct Car {
    pub steering_target: i32,
    pub power_target: i32,
    pub brake_target: i32,
    pub steering_angle_max: i32,
    pub steering_speed: i32,
    pub speed_max: i32,
    pub power: i32,
    pub brake_power: i32,
}

/// A wheel of a car. `parent` indexes the car (and its body); `angle` is the
/// wheel's local rotation about Z; `offset` is its position relative to the
/// car in world axes and `up` its rolling direction in world space, both
/// refreshed by the host from the current transforms before each tick.
#[derive(Clone, Copy, PartialEq, Eq, Structural, Debug)]
pub struct Wheel {
    pub drive: bool,
    pub speed: i32,
    pub brake: bool,
    pub steering: i32,
    pub parent: usize,
    pub angle: i32,
    pub offset: Vector2,
    pub up: Vector2,
}

/// Speed of the contact patch (raw units) from which the tire slides.
pub const SLIDE_SPEED: i64 = 1000000;

/// Grip for a contact speed: full below `SLIDE_SPEED`, a tenth above.
pub open spec fn grip_of(speed: int) -> int {
    if speed < SLIDE_SPEED { SCALE as int } else { SCALE / 10 }
}

/// Velocity of the contact patch relative to the wheel's rolling speed.
pub open spec fn relative_velocity(b: Rigidbody, w: Wheel) -> Vector2 {
    let v = velocity_at(b, w.offset);
    Vector2 {
        x: sat(v.x - tdiv(w.up.x * w.speed, SCALE as int)) as i32,
        y: sat(v.y - tdiv(w.up.y * w.speed, SCALE as int)) as i32,
    }
}

/// `-relative_vel * dt * grip * 5`.
pub open spec fn tire_force(b: Rigidbody, w: Wheel, dt: int) -> Vector2 {
    let r = relative_velocity(b, w);
    let g = grip_of(root((r.x * r.x + r.y * r.y) as nat) as int);
    Vector2 {
        x: sat(tdiv(-(r.x * dt * g * 5), SCALE * SCALE)) as i32,
        y: sat(tdiv(-(r.y * dt * g * 5), SCALE * SCALE)) as i32,
    }
}

/// The wheel after the back-reaction of its tire force: its speed drops by
/// the force's component along `up`.
pub open spec fn spun(b: Rigidbody, w: Wheel, dt: int) -> Wheel {
    Wheel { speed: sat(w.speed - tdiv(dot(tire_force(b, w, dt), w.up), SCALE as int)) as i32, ..w }
}

/// Bodies after the tire forces of the first `n` wheels were applied in order.
pub open spec fn forces_applied(bodies: Seq<Rigidbody>, wheels: Seq<Wheel>, dt: int, n: nat) -> Seq<Rigidbody>
    decreases n,
{
    if n == 0 {
        bodies
    } else {
        let prev = forces_applied(bodies, wheels, dt, (n - 1) as nat);
        let w = wheels[n - 1];
        let b = prev[w.parent as int];
        prev.update(w.parent as int, b.pushed(tire_force(b, w, dt), w.offset))
    }
}

/// Signed steering limit of a wheel.
pub open spec fn max_angle(car: Car, w: Wheel) -> int {
    tdiv(car.steering_angle_max * w.steering, SCALE as int)
}

/// The angle the wheel slews toward: `-max_angle * steering_target`.
pub open spec fn steer_goal(car: Car, w: Wheel) -> int {
    sat(tdiv(-(max_angle(car, w) * car.steering_target), SCALE as int))
}

/// How far the wheel may turn in `dt`: `steering_speed * |steering| * dt`.
pub open spec fn slew(car: Car, w: Wheel, dt: int) -> int {
    tdiv(car.steering_speed * abs(w.steering as int) * dt, SCALE * SCALE)
}

pub open spec fn steered_angle(car: Car, w: Wheel, dt: int) -> int {
    w.angle + clamp(steer_goal(car, w) - w.angle, -slew(car, w, dt), slew(car, w, dt))
}

pub open spec fn driven_speed(car: Car, w: Wheel, dt: int) -> int {
    if w.drive {
        let s = sat(w.speed + tdiv(car.power * dt * car.power_target, SCALE * SCALE));
        if s < car.speed_max { s } else { car.speed_max as int }
    } else {
        w.speed as int
    }
}

pub open spec fn braked_speed(car: Car, speed: int, dt: int) -> int {
    sat(speed - tdiv(car.brake_power * car.brake_target * dt, SCALE * SCALE) * sign(speed))
}

/// The wheel after one kinematics step: steering slew, then drive, then brake.
pub open spec fn turned(car: Car, w: Wheel, dt: int) -> Wheel {
    let s = driven_speed(car, w, dt);
    Wheel {
        angle: steered_angle(car, w, dt) as i32,
        speed: (if w.brake { braked_speed(car, s, dt) } else { s }) as i32,
        ..w
    }
}

/// Grip multiplier for a contact-patch speed: 1.0 while the tire sticks,
/// 0.1 once it slides.
pub fn grip(speed: i64) -> (r: i32)
    ensures
        r == grip_of(speed as int),
{
    if speed < SLIDE_SPEED {
        10000
    } else {
        1000
    }
}

/// Tire force of wheel `w` on body `b` over `dt` seconds.
pub fn wheel_force(b: &Rigidbody, w: &Wheel, dt: i32) -> (r: Vector2)
    ensures
        r == tire_force(*b, *w, dt as int),
{
    let v = b.get_velocity_at(w.offset);
    let s = w.speed as i128;
    proof {
        lemma_mul_bound(w.up.x as int, s as int, 0x8000_0000, 0x8000_0000);
        lemma_mul_bound(w.up.y as int, s as int, 0x8000_0000, 0x8000_0000);
    }
    let rx = saturate(v.x as i128 - div_trunc(w.up.x as i128 * s, 10000));
    let ry = saturate(v.y as i128 - div_trunc(w.up.y as i128 * s, 10000));
    proof {
        lemma_mul_bound(rx as int, rx as int, 0x8000_0000, 0x8000_0000);
        lemma_mul_bound(ry as int, ry as int, 0x8000_0000, 0x8000_0000);
        assert(rx * rx >= 0 && ry * ry >= 0) by (nonlinear_arith);
    }
    let sq: i128 = rx as i128 * rx as i128 + ry as i128 * ry as i128;
    let len = isqrt(sq as u64);
    let g = grip(len as i64) as i128;
    let t = dt as i128;
    proof {
        lemma_mul_bound(rx as int, t as int, 0x8000_0000, 0x8000_0000);
        lemma_mul_bound(rx * t, g as int, 0x4000_0000_0000_0000, 10000);
        lemma_mul_bound(ry as int, t as int, 0x8000_0000, 0x8000_0000);
        lemma_mul_bound(ry * t, g as int, 0x4000_0000_0000_0000, 10000);
    }
    let fx = rx as i128 * t * g * 5;
    let fy = ry as i128 * t * g * 5;
    Vector2 { x: saturate(div_trunc(-fx, 10000 * 10000)), y: saturate(div_trunc(-fy, 10000 * 10000)) }
}

/// Force pass: for every wheel in order, applies its tire force to the
/// parent body at the wheel's offset and feeds the force's component along
/// `up` back into the wheel's speed. Body velocities are not touched.
pub fn apply_wheel_forces(bodies: &mut Vec<Rigidbody>, wheels: &mut Vec<Wheel>, dt: i32)
    requires
        forall|i: int| 0 <= i < old(wheels)@.len() ==> old(wheels)@[i].parent < old(bodies)@.len(),
        forall|k: int| 0 <= k < old(bodies)@.len() ==> old(bodies)@[k].wf(),
    ensures
        final(bodies)@ == forces_applied(old(bodies)@, old(wheels)@, dt as int, old(wheels)@.len()),
        final(bodies)@.len() == old(bodies)@.len(),
        final(wheels)@.len() == old(wheels)@.len(),
        forall|i: int| 0 <= i < final(wheels)@.len() ==> final(wheels)@[i]
            == spun(old(bodies)@[old(wheels)@[i].parent as int], old(wheels)@[i], dt as int),
{
    let n = wheels.len();
    let mut i: usize = 0;
    while i < n
        invariant
            n == old(wheels)@.len(),
            wheels@.len() == n,
            0 <= i <= n,
            bodies@ == forces_applied(old(bodies)@, old(wheels)@, dt as int, i as nat),
            bodies@.len() == old(bodies)@.len(),
            forall|k: int| 0 <= k < bodies@.len() ==> {
                &&& bodies@[k].wf()
                &&& bodies@[k].linear_mass == old(bodies)@[k].linear_mass
                &&& bodies@[k].angular_mass == old(bodies)@[k].angular_mass
                &&& bodies@[k].velocity == old(bodies)@[k].velocity
                &&& bodies@[k].angular_velocity == old(bodies)@[k].angular_velocity
            },
            forall|j: int| 0 <= j < n ==> wheels@[j].parent < bodies@.len(),
            forall|j: int| 0 <= j < i ==> wheels@[j]
                == spun(old(bodies)@[old(wheels)@[j].parent as int], old(wheels)@[j], dt as int),
            forall|j: int| i <= j < n ==> wheels@[j] == old(wheels)@[j],
        decreases n - i,
    {
        let w = wheels[i];
        let p = w.parent;
        let mut b = bodies[p];
        let force = wheel_force(&b, &w, dt);
        b.add_force(force, w.offset);
        bodies.set(p, b);
        proof {
            lemma_mul_bound(force.x as int, w.up.x as int, 0x8000_0000, 0x8000_0000);
            lemma_mul_bound(force.y as int, w.up.y as int, 0x8000_0000, 0x8000_0000);
        }
        let along = force.x as i128 * w.up.x as i128 + force.y as i128 * w.up.y as i128;
        let speed = saturate(w.speed as i128 - div_trunc(along, 10000));
        wheels.set(i, Wheel { speed, ..w });
        i = i + 1;
    }
}

/// Kinematics pass: slews each wheel's angle toward its steering goal, then
/// applies drive (capped at `speed_max`) and brake (against the sign of the
/// speed).
pub fn update_wheels(cars: &Vec<Car>, wheels: &mut Vec<Wheel>, dt: i32)
    requires
        dt >= 0,
        forall|i: int| 0 <= i < old(wheels)@.len() ==> old(wheels)@[i].parent < cars@.len(),
        forall|k: int| 0 <= k < cars@.len() ==> cars@[k].steering_speed >= 0,
    ensures
        final(wheels)@.len() == old(wheels)@.len(),
        forall|i: int| 0 <= i < final(wheels)@.len() ==> final(wheels)@[i]
            == turned(cars@[old(wheels)@[i].parent as int], old(wheels)@[i], dt as int),
        forall|i: int| 0 <= i < final(wheels)@.len() && old(wheels)@[i].speed == 0 && !old(wheels)@[i].drive
            ==> final(wheels)@[i].speed == 0,
        forall|i: int| 0 <= i < final(wheels)@.len() && old(wheels)@[i].drive && !old(wheels)@[i].brake
            ==> final(wheels)@[i].speed <= cars@[old(wheels)@[i].parent as int].speed_max,
{
    let n = wheels.len();
    let mut i: usize = 0;
    while i < n
        invariant
            n == old(wheels)@.len(),
            wheels@.len() == n,
            0 <= i <= n,
            dt >= 0,
            forall|j: int| 0 <= j < n ==> old(wheels)@[j].parent < cars@.len(),
            forall|k: int| 0 <= k < cars@.len() ==> cars@[k].steering_speed >= 0,
            forall|j: int| 0 <= j < i ==> wheels@[j]
                == turned(cars@[old(wheels)@[j].parent as int], old(wheels)@[j], dt as int),
            forall|j: int| i <= j < n ==> wheels@[j] == old(wheels)@[j],
        decreases n - i,
    {
        let w = wheels[i];
        let car = &cars[w.parent];
        let updated = turn_wheel(car, &w, dt);
        wheels.set(i, updated);
        i = i + 1;
    }
}

/// One kinematics step of a single wheel.
pub fn turn_wheel(car: &Car, w: &Wheel, dt: i32) -> (r: Wheel)
    requires
        dt >= 0,
        car.steering_speed >= 0,
    ensures
        r == turned(*car, *w, dt as int),
{
    let t = dt as i128;
    proof {
        lemma_mul_bound(car.steering_angle_max as int, w.steering as int, 0x8000_0000, 0x8000_0000);
    }
    let max_angle = div_trunc(car.steering_angle_max as i128 * w.steering as i128, 10000);
    proof {
        lemma_mul_bound(max_angle as int, car.steering_target as int, 0x4000_0000_0000_0000, 0x8000_0000);
    }
    let goal = saturate(div_trunc(-(max_angle * car.steering_target as i128), 10000)) as i128;
    let st = w.steering as i128;
    let abs_st: i128 = if st < 0 { -st } else { st };
    proof {
        lemma_mul_bound(car.steering_speed as int, abs_st as int, 0x8000_0000, 0x8000_0000);
        lemma_mul_bound(car.steering_speed * abs_st, t as int, 0x4000_0000_0000_0000, 0x8000_0000);
        assert(car.steering_speed * abs_st * t >= 0) by (nonlinear_arith)
            requires car.steering_speed >= 0, abs_st >= 0, t >= 0;
    }
    let slew = div_trunc(car.steering_speed as i128 * abs_st * t, 10000 * 10000);
    let angle = w.angle as i128;
    let diff = goal - angle;
    let step = if diff < -slew { -slew } else if diff > slew { slew } else { diff };
    let new_angle = (angle + step) as i32;

    let mut speed = w.speed;
    if w.drive {
        proof {
            lemma_mul_bound(car.power as int, t as int, 0x8000_0000, 0x8000_0000);
            lemma_mul_bound(car.power * t, car.power_target as int, 0x4000_0000_0000_0000, 0x8000_0000);
        }
        let s = saturate(speed as i128 + div_trunc(car.power as i128 * t * car.power_target as i128, 10000 * 10000));
        speed = if s < car.speed_max { s } else { car.speed_max };
    }
    if w.brake {
        proof {
            lemma_mul_bound(car.brake_power as int, car.brake_target as int, 0x8000_0000, 0x8000_0000);
            lemma_mul_bound(car.brake_power * car.brake_target, t as int, 0x4000_0000_0000_0000, 0x8000_0000);
        }
        let brake = div_trunc(car.brake_power as i128 * car.brake_target as i128 * t, 10000 * 10000);
        let sg = signum(speed) as i128;
        proof {
            lemma_mul_bound(brake as int, sg as int, 0x2000_0000_0000_0000_0000_0000, 1);
        }
        speed = saturate(speed as i128 - brake * sg);
    }
    Wheel { angle: new_angle, speed, ..*w }
}

/// With the steering target held at full lock (`+1` or `-1`), the wheel
/// slews toward `-/+ steering_angle_max * steering`: each step moves it toward
/// that goal by exactly the step's slew, or onto the goal when closer, and
/// never past it.
pub proof fn law_steering_slew(car: Car, w: Wheel, dt: int)
    requires
        dt >= 0,
        car.steering_speed >= 0,
        car.steering_target == SCALE || car.steering_target == -SCALE,
        i32::MIN < max_angle(car, w) <= i32::MAX,
    ensures
        steer_goal(car, w) == (if car.steering_target == SCALE { -max_angle(car, w) } else { max_angle(car, w) }),
        slew(car, w, dt) >= 0,
        w.angle <= steer_goal(car, w) ==> w.angle <= steered_angle(car, w, dt) <= steer_goal(car, w),
        w.angle >= steer_goal(car, w) ==> steer_goal(car, w) <= steered_angle(car, w, dt) <= w.angle,
        abs(steered_angle(car, w, dt) - steer_goal(car, w)) == (if abs(w.angle - steer_goal(car, w)) <= slew(car, w, dt) {
            0
        } else {
            abs(w.angle - steer_goal(car, w)) - slew(car, w, dt)
        }),
{
    let m = max_angle(car, w);
    let a = car.steering_speed * abs(w.steering as int);
    assert(a * dt >= 0) by (nonlinear_arith)
        requires a == car.steering_speed * abs(w.steering as int), car.steering_speed >= 0, dt >= 0;
    assert((a * dt) / (SCALE * SCALE) >= 0) by (nonlinear_arith)
        requires a * dt >= 0;
    if car.steering_target == SCALE {
        assert(m * car.steering_target == m * 10000);
        if m >= 0 {
            assert((m * 10000) / 10000 == m) by (nonlinear_arith);
            assert(-(m * 10000) <= 0) by (nonlinear_arith) requires m >= 0;
        } else {
            assert((-(m * 10000)) / 10000 == -m) by (nonlinear_arith);
            assert(-(m * 10000) > 0) by (nonlinear_arith) requires m < 0;
        }
    } else {
        assert(m * car.steering_target == -(m * 10000)) by (nonlinear_arith)
            requires car.steering_target == -10000;
        assert(-(-(m * 10000)) == m * 10000);
        if m >= 0 {
            assert((m * 10000) / 10000 == m) by (nonlinear_arith);
            assert(m * 10000 >= 0) by (nonlinear_arith) requires m >= 0;
        } else {
            assert((-(m * 10000)) / 10000 == -m) by (nonlinear_arith);
            assert(m * 10000 < 0) by (nonlinear_arith) requires m < 0;
        }
    }
}

} // verus!
