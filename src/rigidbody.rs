//! 2D rigid bodies: force accumulation, velocity at a point, and the force
//! and transform integrators.
use vstd::prelude::*;
use crate::fixed::{
    abs, isqrt, lemma_mul_bound, lemma_tdiv_zero, lemma_tdiv_bound, root, sat, saturate, tdiv, div_trunc,
    MARGIN, SCALE,
};
use crate::vector::{cross, dot, Vector2};

verus! {

/// Pi in raw fixed-point units.
pub const PI: i32 = 31416;

/// A rigid body. `angular_velocity` is in revolutions per second where a point
/// velocity is taken and in radians per second where the pose is advanced.
/// `velocity_delta` and `angular_velocity_delta` accumulate the forces of one
/// tick until the force integrator folds them in.
#[derive(Clone, Copy, PartialEq, Eq, Structural, Debug)]
pub struct Rigidbody {
    pub linear_mass: i32,
    pub angular_mass: i32,
    pub velocity: Vector2,
    pub angular_velocity: i32,
    pub velocity_delta: Vector2,
    pub angular_velocity_delta: i32,
}

/// World pose of a body: translation, rotation about Z (radians) and scale.
#[derive(Clone, Copy, PartialEq, Eq, Structural, Debug)]
pub struct Pose {
    pub translation: Vector2,
    pub rotation: i32,
    pub scale: Vector2,
}

/// Both components within `MARGIN` of zero.
pub open spec fn near_zero(x: int, y: int) -> bool {
    abs(x) <= MARGIN && abs(y) <= MARGIN
}

/// The foot of the perpendicular from the center of mass to the line of action
/// of `force` through `pos`, i.e. `pos - project(pos, force)`, written as
/// `(force.y * c, -force.x * c) / |force|^2` with `c = pos x force`.
pub open spec fn foot_x(force: Vector2, pos: Vector2) -> int {
    tdiv(force.y * cross(pos, force), dot(force, force))
}

pub open spec fn foot_y(force: Vector2, pos: Vector2) -> int {
    tdiv(-(force.x * cross(pos, force)), dot(force, force))
}

/// Squared distance from the center of mass to the line of action, in raw
/// units squared: `|pos x force|^2 / |force|^2`.
pub open spec fn lever_sq(force: Vector2, pos: Vector2) -> int {
    tdiv(cross(pos, force) * cross(pos, force), dot(force, force))
}

/// `force / linear_mass`, one component.
pub open spec fn linear_change(f: int, linear_mass: int) -> int {
    tdiv(f * SCALE, linear_mass)
}

/// `|p|^2 * |force| / angular_mass`, signed by `pos x force`.
pub open spec fn angular_change(force: Vector2, pos: Vector2, angular_mass: int) -> int {
    if near_zero(foot_x(force, pos), foot_y(force, pos)) {
        0
    } else {
        let rot = tdiv(lever_sq(force, pos) * root(dot(force, force) as nat), SCALE * angular_mass);
        if cross(pos, force) > 0 { rot } else { -rot }
    }
}

/// Velocity of the point at local `pos`: `velocity - (pos.y, -pos.x) * pi * angular_velocity`.
pub open spec fn velocity_at(b: Rigidbody, pos: Vector2) -> Vector2 {
    Vector2 {
        x: sat(b.velocity.x - tdiv(pos.y * PI * b.angular_velocity, SCALE * SCALE)) as i32,
        y: sat(b.velocity.y + tdiv(pos.x * PI * b.angular_velocity, SCALE * SCALE)) as i32,
    }
}

proof fn lemma_lagrange(a: int, b: int, c: int, d: int)
    ensures
        (a * d - b * c) * (a * d - b * c) + (a * c + b * d) * (a * c + b * d)
            == (a * a + b * b) * (c * c + d * d),
{
    let u = a * d;
    let v = b * c;
    let w = a * c;
    let z = b * d;
    assert((u - v) * (u - v) == u * u - 2 * (u * v) + v * v) by (nonlinear_arith);
    assert((w + z) * (w + z) == w * w + 2 * (w * z) + z * z) by (nonlinear_arith);
    assert(u * v == w * z) by (nonlinear_arith)
        requires u == a * d, v == b * c, w == a * c, z == b * d;
    assert(u * u == (a * a) * (d * d)) by (nonlinear_arith)
        requires u == a * d;
    assert(v * v == (b * b) * (c * c)) by (nonlinear_arith)
        requires v == b * c;
    assert(w * w == (a * a) * (c * c)) by (nonlinear_arith)
        requires w == a * c;
    assert(z * z == (b * b) * (d * d)) by (nonlinear_arith)
        requires z == b * d;
    let aa = a * a;
    let bb = b * b;
    let cc = c * c;
    let dd = d * d;
    assert((aa + bb) * (cc + dd) == aa * cc + aa * dd + bb * cc + bb * dd) by (nonlinear_arith);
}

impl Rigidbody {
    pub open spec fn wf(self) -> bool {
        self.linear_mass > 0 && self.angular_mass > 0
    }

    /// A body with the given masses and velocities and empty accumulators.
    pub open spec fn unloaded(linear_mass: i32, angular_mass: i32, velocity: Vector2, angular_velocity: i32) -> Rigidbody {
        Rigidbody {
            linear_mass,
            angular_mass,
            velocity,
            angular_velocity,
            velocity_delta: Vector2 { x: 0, y: 0 },
            angular_velocity_delta: 0,
        }
    }

    /// The body after `add_force(force, pos)`.
    pub open spec fn pushed(self, force: Vector2, pos: Vector2) -> Rigidbody {
        if near_zero(force.x as int, force.y as int) {
            self
        } else {
            Rigidbody {
                velocity_delta: Vector2 {
                    x: sat(self.velocity_delta.x + linear_change(force.x as int, self.linear_mass as int)) as i32,
                    y: sat(self.velocity_delta.y + linear_change(force.y as int, self.linear_mass as int)) as i32,
                },
                angular_velocity_delta: sat(self.angular_velocity_delta + angular_change(force, pos, self.angular_mass as int)) as i32,
                ..self
            }
        }
    }

    /// The pose after one transform step of `dt` seconds.
    pub open spec fn moved(self, pose: Pose, dt: int) -> Pose {
        Pose {
            translation: Vector2 {
                x: sat(pose.translation.x + tdiv(self.velocity.x * dt * pose.scale.x, SCALE * SCALE)) as i32,
                y: sat(pose.translation.y + tdiv(self.velocity.y * dt * pose.scale.y, SCALE * SCALE)) as i32,
            },
            rotation: sat(pose.rotation + tdiv(self.angular_velocity * dt, SCALE as int)) as i32,
            scale: pose.scale,
        }
    }

    /// The body after the force integrator.
    pub open spec fn integrated(self) -> Rigidbody {
        Rigidbody {
            velocity: Vector2 {
                x: sat(self.velocity.x + self.velocity_delta.x) as i32,
                y: sat(self.velocity.y + self.velocity_delta.y) as i32,
            },
            angular_velocity: sat(self.angular_velocity + self.angular_velocity_delta) as i32,
            velocity_delta: Vector2 { x: 0, y: 0 },
            angular_velocity_delta: 0,
            ..self
        }
    }

    /// A body at rest with no accumulated force, or `None` when a mass is not
    /// strictly positive.
    pub fn new(linear_mass: i32, angular_mass: i32, velocity: Vector2, angular_velocity: i32) -> (r: Option<Rigidbody>)
        ensures
            r == (if linear_mass > 0 && angular_mass > 0 {
                Some(Rigidbody::unloaded(linear_mass, angular_mass, velocity, angular_velocity))
            } else {
                None
            }),
    {
        if linear_mass > 0 && angular_mass > 0 {
            Some(Rigidbody {
                linear_mass,
                angular_mass,
                velocity,
                angular_velocity,
                velocity_delta: Vector2 { x: 0, y: 0 },
                angular_velocity_delta: 0,
            })
        } else {
            None
        }
    }

    /// Accumulates `force` applied at `pos` (local frame, origin at the center
    /// of mass) into the velocity deltas.
    pub fn add_force(&mut self, force: Vector2, pos: Vector2)
        requires
            old(self).wf(),
        ensures
            *final(self) == old(self).pushed(force, pos),
            near_zero(force.x as int, force.y as int) ==> *final(self) == *old(self),
            pos == (Vector2 { x: 0, y: 0 }) ==> final(self).angular_velocity_delta
                == old(self).angular_velocity_delta,
    {
        let fx = force.x as i128;
        let fy = force.y as i128;
        if -(MARGIN as i128) <= fx && fx <= MARGIN as i128 && -(MARGIN as i128) <= fy && fy <= MARGIN as i128 {
            return;
        }
        let px = pos.x as i128;
        let py = pos.y as i128;
        let lm = self.linear_mass as i128;
        let am = self.angular_mass as i128;
        let lin_x = div_trunc(fx * 10000, lm);
        let lin_y = div_trunc(fy * 10000, lm);
        let vdx = saturate(self.velocity_delta.x as i128 + lin_x);
        let vdy = saturate(self.velocity_delta.y as i128 + lin_y);
        self.velocity_delta = Vector2 { x: vdx, y: vdy };

        proof {
            lemma_mul_bound(fx as int, fx as int, 0x8000_0000, 0x8000_0000);
            lemma_mul_bound(fy as int, fy as int, 0x8000_0000, 0x8000_0000);
            lemma_mul_bound(px as int, fy as int, 0x8000_0000, 0x8000_0000);
            lemma_mul_bound(py as int, fx as int, 0x8000_0000, 0x8000_0000);
            lemma_mul_bound(px as int, px as int, 0x8000_0000, 0x8000_0000);
            lemma_mul_bound(py as int, py as int, 0x8000_0000, 0x8000_0000);
            assert(fx * fx + fy * fy > 0) by (nonlinear_arith)
                requires fx < -1 || fx > 1 || fy < -1 || fy > 1;
        }
        let ff: i128 = fx * fx + fy * fy;
        let c: i128 = px * fy - py * fx;
        proof {
            lemma_mul_bound(fy as int, c as int, 0x8000_0000, 0x8000_0000_0000_0000);
            lemma_mul_bound(fx as int, c as int, 0x8000_0000, 0x8000_0000_0000_0000);
        }
        let qx = div_trunc(fy * c, ff);
        let fxc: i128 = fx * c;
        let qy = div_trunc(-fxc, ff);
        proof {
            if pos.x == 0 && pos.y == 0 {
                assert(c == 0) by (nonlinear_arith)
                    requires c == px * fy - py * fx, px == 0, py == 0;
                assert(fy * c == 0 && -fxc == 0) by (nonlinear_arith)
                    requires c == 0, fxc == fx * c;
                lemma_tdiv_zero(ff as int);
            }
        }
        if -(MARGIN as i128) <= qx && qx <= MARGIN as i128 && -(MARGIN as i128) <= qy && qy <= MARGIN as i128 {
            assert(qx == foot_x(force, pos));
            assert(qy == foot_y(force, pos));
            assert(angular_change(force, pos, am as int) == 0);
            assert(sat(self.angular_velocity_delta as int) == self.angular_velocity_delta);
            return;
        }
        proof {
            let pp = px * px + py * py;
            lemma_lagrange(px as int, py as int, fx as int, fy as int);
            assert(c * c <= pp * ff) by (nonlinear_arith)
                requires c * c + (px * fx + py * fy) * (px * fx + py * fy) == pp * ff;
            assert(c * c >= 0) by (nonlinear_arith);
            lemma_mul_bound(c as int, c as int, 0x8000_0000_0000_0000, 0x8000_0000_0000_0000);
            assert(abs(c * c) <= ff * pp) by (nonlinear_arith)
                requires c * c <= pp * ff, c * c >= 0;
            lemma_tdiv_bound((c * c) as int, ff as int, pp as int);
        }
        let lsq = div_trunc(c * c, ff);
        let flen = isqrt(ff as u64) as i128;
        proof {
            lemma_mul_bound(lsq as int, flen as int, 0x8000_0000_0000_0000, 0x1_0000_0000);
        }
        let rot = div_trunc(lsq * flen, 10000 * am);
        let change = if c > 0 { rot } else { -rot };
        self.angular_velocity_delta = saturate(self.angular_velocity_delta as i128 + change);
    }

    /// Velocity of the point at `pos` (local frame).
    pub fn get_velocity_at(&self, pos: Vector2) -> (r: Vector2)
        ensures
            r == velocity_at(*self, pos),
    {
        let w = self.angular_velocity as i128;
        proof {
            lemma_mul_bound(pos.y as int, PI as int, 0x8000_0000, 0x8000);
            lemma_mul_bound(pos.y * PI, w as int, 0x4000_0000_0000, 0x8000_0000);
            lemma_mul_bound(pos.x as int, PI as int, 0x8000_0000, 0x8000);
            lemma_mul_bound(pos.x * PI, w as int, 0x4000_0000_0000, 0x8000_0000);
        }
        let rx = div_trunc(pos.y as i128 * PI as i128 * w, 10000 * 10000);
        let ry = div_trunc(pos.x as i128 * PI as i128 * w, 10000 * 10000);
        Vector2 {
            x: saturate(self.velocity.x as i128 - rx),
            y: saturate(self.velocity.y as i128 + ry),
        }
    }
}

/// Force integrator: folds each body's accumulated deltas into its velocities
/// and clears the accumulators.
pub fn apply_forces(bodies: &mut Vec<Rigidbody>)
    ensures
        final(bodies)@.len() == old(bodies)@.len(),
        forall|i: int| 0 <= i < final(bodies)@.len() ==> final(bodies)@[i] == old(bodies)@[i].integrated(),
        forall|i: int| 0 <= i < final(bodies)@.len() ==> final(bodies)@[i].velocity_delta == (Vector2 { x: 0, y: 0 })
            && final(bodies)@[i].angular_velocity_delta == 0,
{
    let n = bodies.len();
    let mut i: usize = 0;
    while i < n
        invariant
            n == old(bodies)@.len(),
            bodies@.len() == n,
            0 <= i <= n,
            forall|j: int| 0 <= j < i ==> bodies@[j] == old(bodies)@[j].integrated(),
            forall|j: int| i <= j < n ==> bodies@[j] == old(bodies)@[j],
        decreases n - i,
    {
        let b = bodies[i];
        let updated = Rigidbody {
            velocity: Vector2 {
                x: saturate(b.velocity.x as i128 + b.velocity_delta.x as i128),
                y: saturate(b.velocity.y as i128 + b.velocity_delta.y as i128),
            },
            angular_velocity: saturate(b.angular_velocity as i128 + b.angular_velocity_delta as i128),
            velocity_delta: Vector2 { x: 0, y: 0 },
            angular_velocity_delta: 0,
            ..b
        };
        bodies.set(i, updated);
        i = i + 1;
    }
}

/// Transform integrator: advances each pose by its body's velocities over
/// `dt` seconds, the translation scaled componentwise by the pose's scale.
pub fn update_transform(bodies: &Vec<Rigidbody>, poses: &mut Vec<Pose>, dt: i32)
    requires
        old(poses)@.len() == bodies@.len(),
    ensures
        final(poses)@.len() == old(poses)@.len(),
        forall|i: int| 0 <= i < final(poses)@.len() ==> final(poses)@[i] == bodies@[i].moved(old(poses)@[i], dt as int),
{
    let n = poses.len();
    let mut i: usize = 0;
    while i < n
        invariant
            n == old(poses)@.len(),
            n == bodies@.len(),
            poses@.len() == n,
            0 <= i <= n,
            forall|j: int| 0 <= j < i ==> poses@[j] == bodies@[j].moved(old(poses)@[j], dt as int),
            forall|j: int| i <= j < n ==> poses@[j] == old(poses)@[j],
        decreases n - i,
    {
        let p = poses[i];
        let b = &bodies[i];
        let t = dt as i128;
        proof {
            lemma_mul_bound(b.velocity.x as int, t as int, 0x8000_0000, 0x8000_0000);
            lemma_mul_bound(b.velocity.x * t, p.scale.x as int, 0x4000_0000_0000_0000, 0x8000_0000);
            lemma_mul_bound(b.velocity.y as int, t as int, 0x8000_0000, 0x8000_0000);
            lemma_mul_bound(b.velocity.y * t, p.scale.y as int, 0x4000_0000_0000_0000, 0x8000_0000);
            lemma_mul_bound(b.angular_velocity as int, t as int, 0x8000_0000, 0x8000_0000);
        }
        let dx = div_trunc(b.velocity.x as i128 * t * p.scale.x as i128, 10000 * 10000);
        let dy = div_trunc(b.velocity.y as i128 * t * p.scale.y as i128, 10000 * 10000);
        let dr = div_trunc(b.angular_velocity as i128 * t, 10000);
        let moved = Pose {
            translation: Vector2 {
                x: saturate(p.translation.x as i128 + dx),
                y: saturate(p.translation.y as i128 + dy),
            },
            rotation: saturate(p.rotation as i128 + dr),
            scale: p.scale,
        };
        poses.set(i, moved);
        i = i + 1;
    }
}

/// Accumulated forces do not depend on the order in which they were applied:
/// two forces applied in either order leave the same deltas, and so the same
/// velocities after the force integrator, as long as no accumulator reaches
/// the end of its range on the way.
pub proof fn law_force_order_irrelevant(b: Rigidbody, f1: Vector2, p1: Vector2, f2: Vector2, p2: Vector2)
    requires
        b.wf(),
        in_range_after(b, f1, p1, f2, p2),
    ensures
        b.pushed(f1, p1).pushed(f2, p2) == b.pushed(f2, p2).pushed(f1, p1),
        b.pushed(f1, p1).pushed(f2, p2).integrated() == b.pushed(f2, p2).pushed(f1, p1).integrated(),
{
}

/// The change that `add_force(force, pos)` makes to each accumulator, before
/// clamping into range: `(x, y, angular)`.
pub open spec fn push_change(b: Rigidbody, force: Vector2, pos: Vector2) -> (int, int, int) {
    if near_zero(force.x as int, force.y as int) {
        (0, 0, 0)
    } else {
        (
            linear_change(force.x as int, b.linear_mass as int),
            linear_change(force.y as int, b.linear_mass as int),
            angular_change(force, pos, b.angular_mass as int),
        )
    }
}

pub open spec fn fits(v: int) -> bool {
    i32::MIN <= v <= i32::MAX
}

/// Every partial sum of the two changes stays in the range of `i32`.
pub open spec fn in_range_after(b: Rigidbody, f1: Vector2, p1: Vector2, f2: Vector2, p2: Vector2) -> bool {
    let c1 = push_change(b, f1, p1);
    let c2 = push_change(b, f2, p2);
    &&& fits(b.velocity_delta.x + c1.0) && fits(b.velocity_delta.x + c2.0) && fits(b.velocity_delta.x + c1.0 + c2.0)
    &&& fits(b.velocity_delta.y + c1.1) && fits(b.velocity_delta.y + c2.1) && fits(b.velocity_delta.y + c1.1 + c2.1)
    &&& fits(b.angular_velocity_delta + c1.2) && fits(b.angular_velocity_delta + c2.2)
        && fits(b.angular_velocity_delta + c1.2 + c2.2)
}

} // verus!
