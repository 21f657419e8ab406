//! A scene of cars and the per-tick schedule: wheel forces, wheel
//! kinematics, force integrator, transform integrator.
use vstd::prelude::*;
use crate::car::{
    apply_wheel_forces, forces_applied, relative_velocity, spun, tire_force, turned, update_wheels, Car, Wheel,
};
use crate::vector::Vector2;
use crate::fixed::abs;
use crate::rigidbody::{apply_forces, update_transform, Pose, Rigidbody};

verus! {

/// The simulated scene. Car `k` owns body `k` and pose `k`; each wheel names
/// its car by index.
pub struct World {
    pub bodies: Vec<Rigidbody>,
    pub poses: Vec<Pose>,
    pub cars: Vec<Car>,
    pub wheels: Vec<Wheel>,
}

/// Why a tick was refused. The world is left as it was.
#[derive(Clone, Copy, PartialEq, Eq, Structural, Debug)]
pub enum TickError {
    /// The tables of bodies, poses and cars differ in length.
    UnpairedCar,
    /// The wheel at this index names no car.
    DetachedWheel(usize),
}

pub open spec fn paired(bodies: Seq<Rigidbody>, poses: Seq<Pose>, cars: Seq<Car>) -> bool {
    poses.len() == bodies.len() && cars.len() == bodies.len()
}

pub open spec fn attached(bodies: Seq<Rigidbody>, wheels: Seq<Wheel>) -> bool {
    forall|i: int| 0 <= i < wheels.len() ==> wheels[i].parent < bodies.len()
}

/// Index of the first wheel that names no body, if any.
pub open spec fn first_detached(bodies: Seq<Rigidbody>, wheels: Seq<Wheel>, i: int) -> bool {
    0 <= i < wheels.len() && wheels[i].parent >= bodies.len()
        && forall|j: int| 0 <= j < i ==> wheels[j].parent < bodies.len()
}

/// Bodies at the end of a tick.
pub open spec fn bodies_after(bodies: Seq<Rigidbody>, wheels: Seq<Wheel>, dt: int) -> Seq<Rigidbody> {
    let pushed = forces_applied(bodies, wheels, dt, wheels.len());
    Seq::new(bodies.len(), |k: int| pushed[k].integrated())
}

/// Wheels at the end of a tick.
pub open spec fn wheels_after(bodies: Seq<Rigidbody>, cars: Seq<Car>, wheels: Seq<Wheel>, dt: int) -> Seq<Wheel> {
    Seq::new(
        wheels.len(),
        |i: int| turned(cars[wheels[i].parent as int], spun(bodies[wheels[i].parent as int], wheels[i], dt), dt),
    )
}

/// Poses at the end of a tick, advanced by the integrated bodies.
pub open spec fn poses_after(bodies: Seq<Rigidbody>, poses: Seq<Pose>, dt: int) -> Seq<Pose> {
    Seq::new(poses.len(), |k: int| bodies[k].moved(poses[k], dt))
}

impl World {
    pub open spec fn ready(&self) -> bool {
        &&& forall|k: int| 0 <= k < self.bodies@.len() ==> self.bodies@[k].wf()
        &&& forall|k: int| 0 <= k < self.cars@.len() ==> self.cars@[k].steering_speed >= 0
    }

    /// Runs one tick of `dt` seconds: wheel forces, wheel kinematics, the
    /// force integrator and the transform integrator, in that order.
    pub fn tick(&mut self, dt: i32) -> (r: Result<(), TickError>)
        requires
            dt >= 0,
            old(self).ready(),
        ensures
            !paired(old(self).bodies@, old(self).poses@, old(self).cars@) ==> r == Err::<(), TickError>(TickError::UnpairedCar),
            paired(old(self).bodies@, old(self).poses@, old(self).cars@) ==> (forall|i: int|
                first_detached(old(self).bodies@, old(self).wheels@, i) ==> r == Err::<(), TickError>(TickError::DetachedWheel(i as usize))),
            r is Ok <==> paired(old(self).bodies@, old(self).poses@, old(self).cars@)
                && attached(old(self).bodies@, old(self).wheels@),
            r is Err ==> final(self).bodies@ == old(self).bodies@ && final(self).poses@ == old(self).poses@
                && final(self).cars@ == old(self).cars@ && final(self).wheels@ == old(self).wheels@,
            r is Ok ==> {
                &&& final(self).bodies@ == bodies_after(old(self).bodies@, old(self).wheels@, dt as int)
                &&& final(self).wheels@ == wheels_after(old(self).bodies@, old(self).cars@, old(self).wheels@, dt as int)
                &&& final(self).poses@ == poses_after(final(self).bodies@, old(self).poses@, dt as int)
                &&& final(self).cars@ == old(self).cars@
            },
            r is Ok ==> forall|k: int| 0 <= k < final(self).bodies@.len()
                ==> final(self).bodies@[k].velocity_delta == (Vector2 { x: 0, y: 0 })
                && final(self).bodies@[k].angular_velocity_delta == 0,
            r is Ok ==> forall|i: int| 0 <= i < final(self).wheels@.len() && old(self).wheels@[i].drive
                && !old(self).wheels@[i].brake
                ==> final(self).wheels@[i].speed <= old(self).cars@[old(self).wheels@[i].parent as int].speed_max,
    {
        if self.poses.len() != self.bodies.len() || self.cars.len() != self.bodies.len() {
            return Err(TickError::UnpairedCar);
        }
        let n = self.wheels.len();
        let mut i: usize = 0;
        while i < n
            invariant
                n == self.wheels@.len(),
                0 <= i <= n,
                forall|j: int| 0 <= j < i ==> self.wheels@[j].parent < self.bodies@.len(),
                self.bodies@ == old(self).bodies@,
                self.poses@ == old(self).poses@,
                self.cars@ == old(self).cars@,
                self.wheels@ == old(self).wheels@,
                self.poses@.len() == self.bodies@.len(),
                self.cars@.len() == self.bodies@.len(),
            decreases n - i,
        {
            if self.wheels[i].parent >= self.bodies.len() {
                assert(first_detached(self.bodies@, self.wheels@, i as int));
                return Err(TickError::DetachedWheel(i));
            }
            i = i + 1;
        }
        apply_wheel_forces(&mut self.bodies, &mut self.wheels, dt);
        update_wheels(&self.cars, &mut self.wheels, dt);
        apply_forces(&mut self.bodies);
        update_transform(&self.bodies, &mut self.poses, dt);
        assert(self.bodies@ =~= bodies_after(old(self).bodies@, old(self).wheels@, dt as int));
        assert(self.wheels@ =~= wheels_after(old(self).bodies@, old(self).cars@, old(self).wheels@, dt as int));
        assert(self.poses@ =~= poses_after(self.bodies@, old(self).poses@, dt as int));
        Ok(())
    }
}

proof fn lemma_still_force(b: Rigidbody, w: Wheel)
    ensures
        tire_force(b, w, 0) == (Vector2 { x: 0, y: 0 }),
        b.pushed(tire_force(b, w, 0), w.offset) == b,
        spun(b, w, 0) == w,
{
    let r = relative_velocity(b, w);
    assert(r.x * 0 == 0 && r.y * 0 == 0);
}

proof fn lemma_still_forces(bodies: Seq<Rigidbody>, wheels: Seq<Wheel>, n: nat)
    requires
        n <= wheels.len(),
        attached(bodies, wheels),
    ensures
        forces_applied(bodies, wheels, 0, n) == bodies,
    decreases n,
{
    if n > 0 {
        lemma_still_forces(bodies, wheels, (n - 1) as nat);
        let w = wheels[n - 1];
        lemma_still_force(bodies[w.parent as int], w);
        assert(bodies.update(w.parent as int, bodies[w.parent as int]) =~= bodies);
    }
}

/// A tick of zero duration changes nothing, provided the accumulators are
/// empty at its start (as every tick leaves them) and no driven wheel spins
/// faster than its car's `speed_max` (the drive cap would pull it down).
pub proof fn law_zero_tick(bodies: Seq<Rigidbody>, poses: Seq<Pose>, cars: Seq<Car>, wheels: Seq<Wheel>)
    requires
        paired(bodies, poses, cars),
        attached(bodies, wheels),
        forall|k: int| 0 <= k < bodies.len() ==> bodies[k].velocity_delta == (Vector2 { x: 0, y: 0 })
            && bodies[k].angular_velocity_delta == 0,
        forall|i: int| 0 <= i < wheels.len() && wheels[i].drive ==> wheels[i].speed <= cars[wheels[i].parent as int].speed_max,
    ensures
        bodies_after(bodies, wheels, 0) == bodies,
        wheels_after(bodies, cars, wheels, 0) == wheels,
        poses_after(bodies_after(bodies, wheels, 0), poses, 0) == poses,
{
    lemma_still_forces(bodies, wheels, wheels.len());
    assert(bodies_after(bodies, wheels, 0) =~= bodies);
    assert forall|i: int| 0 <= i < wheels.len() implies wheels_after(bodies, cars, wheels, 0)[i] == wheels[i] by {
        lemma_still_force(bodies[wheels[i].parent as int], wheels[i]);
        let car = cars[wheels[i].parent as int];
        let w = wheels[i];
        assert(car.steering_speed * abs(w.steering as int) * 0 == 0);
        assert(car.power * 0 * car.power_target == 0);
        assert(car.brake_power * car.brake_target * 0 == 0);
    }
    assert(wheels_after(bodies, cars, wheels, 0) =~= wheels);
    assert forall|k: int| 0 <= k < poses.len() implies poses_after(bodies, poses, 0)[k] == poses[k] by {
        assert(bodies[k].velocity.x * 0 * poses[k].scale.x == 0);
        assert(bodies[k].velocity.y * 0 * poses[k].scale.y == 0);
        assert(bodies[k].angular_velocity * 0 == 0);
    }
    assert(poses_after(bodies, poses, 0) =~= poses);
}

} // verus!
