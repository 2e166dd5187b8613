//! A rigid body and its integration step.
use crate::quaternion::Quaternion;
use crate::scalar::{exact, number, quot, regular, Scalar, num, one, zero};
use crate::vector::Vector;
use vstd::prelude::*;

verus! {

/// The physical state of one body. The angular inertia is one scalar: the
/// body resists a torque about every axis alike.
pub struct Object<S> {
    /// The size at which the body is drawn.
    pub scale: S,
    /// The mass. A body whose mass is not finite is fixed.
    pub mass: S,
    pub angular_inertia: S,
    pub position: Vector<S>,
    pub velocity: Vector<S>,
    /// The orientation.
    pub rotation: Quaternion<S>,
    /// The rotation vector per unit of time, in the world frame.
    pub angular_velocity: Vector<S>,
    /// The model that the renderer draws for this body.
    pub graphicsmodel_id: usize,
}

impl<S: Scalar> Object<S> {
    /// The velocity after a step: the old one plus the acceleration
    /// `force / mass` times `dt`.
    pub open spec fn next_velocity(self, force: Vector<S>, dt: S) -> Vector<S> {
        self.velocity.plus(force.shrunk(self.mass).scaled(dt))
    }

    /// The position after a step: the old one plus the new velocity times
    /// `dt`.
    pub open spec fn next_position(self, force: Vector<S>, dt: S) -> Vector<S> {
        self.position.plus(self.next_velocity(force, dt).scaled(dt))
    }

    /// The angular velocity after a step: the old one plus the torque times
    /// `dt / angular_inertia`.
    pub open spec fn next_angular_velocity(self, torque: Vector<S>, dt: S) -> Vector<S> {
        self.angular_velocity.plus(torque.scaled(quot(dt, self.angular_inertia)))
    }

    /// `q` is the orientation after a step: a rotation by the new angular
    /// velocity times `dt`, applied after the old orientation and then
    /// normalized.
    pub open spec fn is_next_rotation(self, q: Quaternion<S>, torque: Vector<S>, dt: S) -> bool {
        exists|turn: Quaternion<S>|
            {
                &&& #[trigger] turn.is_rotation(self.next_angular_velocity(torque, dt).scaled(dt))
                &&& q.is_normalized(turn.times(self.rotation))
            }
    }

    /// `self` is what one step of `dt` under `force` and `torque` makes of
    /// `before`.
    pub open spec fn is_step_of(
        self,
        before: Object<S>,
        force: Vector<S>,
        torque: Vector<S>,
        dt: S,
    ) -> bool {
        &&& self.scale == before.scale
        &&& self.mass == before.mass
        &&& self.angular_inertia == before.angular_inertia
        &&& self.graphicsmodel_id == before.graphicsmodel_id
        &&& self.velocity == before.next_velocity(force, dt)
        &&& self.position == before.next_position(force, dt)
        &&& self.angular_velocity == before.next_angular_velocity(torque, dt)
        &&& before.is_next_rotation(self.rotation, torque, dt)
    }

    /// One step of the semi-implicit Euler scheme: the velocity first, the
    /// position from the new velocity, then the angular velocity and the
    /// orientation from the new angular velocity.
    pub fn update(&mut self, force: Vector<S>, torque: Vector<S>, dt: S)
        requires
            exact::<S>(),
            force.is_direction(),
            torque.is_direction(),
            old(self).angular_velocity.is_direction(),
        ensures
            final(self).is_step_of(*old(self), force, torque, dt),
            final(self).angular_velocity.is_direction(),
    {
        let acceleration = force / self.mass;
        self.velocity = self.velocity + acceleration * dt;
        self.position = self.position + self.velocity * dt;

        self.angular_velocity = self.angular_velocity + torque * (dt / self.angular_inertia);
        let turn = Quaternion::from_vector(self.angular_velocity * dt);
        self.rotation = turn * self.rotation;
        self.rotation.normalize();
    }
}

/// Where a point is after `k` moves by `step`.
pub open spec fn advanced<S: Scalar>(p: Vector<S>, step: Vector<S>, k: nat) -> Vector<S>
    decreases k,
{
    if k == 0 {
        p
    } else {
        advanced(p, step, (k - 1) as nat).plus(step)
    }
}

/// A body with a mass other than zero on which neither a force nor a
/// torque acts keeps its velocity and its angular velocity in a step, and
/// moves by its velocity times `dt`.
pub proof fn lemma_free_step<S: Scalar>(before: Object<S>, after: Object<S>, dt: S)
    requires
        exact::<S>(),
        before.mass != zero::<S>(),
        after.is_step_of(before, Vector::null_spec(), Vector::null_spec(), dt),
    ensures
        after.velocity == before.velocity,
        after.angular_velocity == before.angular_velocity,
        after.position == before.position.plus(before.velocity.scaled(dt)),
{
    let null = Vector::<S>::null_spec();
    assert(null.shrunk(before.mass).scaled(dt) == null);
    assert(null.scaled(quot(dt, before.angular_inertia)) == null);
}

/// Conservation: over any number of steps without force and torque a body
/// with a mass other than zero keeps its velocity and its angular
/// velocity, and its position advances by the same amount in each step.
pub proof fn lemma_free_body_coasts<S: Scalar>(states: Seq<Object<S>>, dt: S, k: nat)
    requires
        exact::<S>(),
        k < states.len(),
        states[0].mass != zero::<S>(),
        forall|n: int|
            0 <= n < states.len() - 1 ==> (#[trigger] states[n + 1]).is_step_of(
                states[n],
                Vector::null_spec(),
                Vector::null_spec(),
                dt,
            ),
    ensures
        states[k as int].mass == states[0].mass,
        states[k as int].velocity == states[0].velocity,
        states[k as int].angular_velocity == states[0].angular_velocity,
        states[k as int].position == advanced(
            states[0].position,
            states[0].velocity.scaled(dt),
            k,
        ),
    decreases k,
{
    if k > 0 {
        lemma_free_body_coasts(states, dt, (k - 1) as nat);
        assert(states[(k - 1) + 1].is_step_of(
            states[k - 1],
            Vector::null_spec(),
            Vector::null_spec(),
            dt,
        ));
        lemma_free_step(states[k - 1], states[k as int], dt);
    }
}

/// A body of unit size and unit mass at rest at the origin, with an angular
/// inertia of 600 and the given model.
pub fn make_object<S: Scalar>(graphicsmodel_id: usize) -> (r: Object<S>)
    requires
        regular::<S>(),
    ensures
        r.scale == one::<S>(),
        r.mass == one::<S>(),
        r.angular_inertia == num::<S>(600),
        r.position == (Vector { x: zero::<S>(), y: zero(), z: zero(), w: one() }),
        r.velocity == Vector::<S>::null_spec(),
        r.rotation == Quaternion::<S>::identity_spec(),
        r.angular_velocity == Vector::<S>::null_spec(),
        r.graphicsmodel_id == graphicsmodel_id,
{
    Object {
        scale: number(1),
        mass: number(1),
        angular_inertia: number(600),
        position: Vector::origin(),
        velocity: Vector::null(),
        rotation: Quaternion::identity(),
        angular_velocity: Vector::null(),
        graphicsmodel_id,
    }
}

} // verus!
