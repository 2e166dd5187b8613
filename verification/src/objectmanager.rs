//! The registry of bodies.
//!
//! Bodies are added and never removed, so the tag that an addition hands
//! out stays good for the life of the registry. Beside each body the
//! registry keeps the force and the torque that were applied to it since
//! the last physics step.
use crate::field::{field, lemma_field_adds};
use crate::object::{lemma_free_step, Object};
use crate::scalar::{exact, regular, said_finite, Scalar};
use crate::vector::Vector;
use vstd::prelude::*;

verus! {

/// The handle of a body: its place in the registry that handed it out.
pub struct ObjectTag(usize);

impl ObjectTag {
    /// The place of the body in the registry.
    pub closed spec fn index(&self) -> int {
        self.0 as int
    }
}

/// What waits for the bodies once `v` is added to what waits for the body
/// at `n`.
pub open spec fn pressed<S: Scalar>(waiting: Seq<Vector<S>>, n: int, v: Vector<S>) -> Seq<
    Vector<S>,
> {
    waiting.update(n, waiting[n].plus(v))
}

/// The bodies of a simulation, and what waits for each of them.
pub struct ObjectManager<S> {
    objects: Vec<Object<S>>,
    forces: Vec<Vector<S>>,
    torques: Vec<Vector<S>>,
}

impl<S: Scalar> ObjectManager<S> {
    /// The bodies, in the order in which they were added.
    pub closed spec fn bodies(&self) -> Seq<Object<S>> {
        self.objects@
    }

    /// The force that waits for each body.
    pub closed spec fn pending_forces(&self) -> Seq<Vector<S>> {
        self.forces@
    }

    /// The torque that waits for each body.
    pub closed spec fn pending_torques(&self) -> Seq<Vector<S>> {
        self.torques@
    }

    /// Each body has its force and its torque, and both are directions.
    pub open spec fn wf(&self) -> bool {
        &&& self.pending_forces().len() == self.bodies().len()
        &&& self.pending_torques().len() == self.bodies().len()
        &&& forall|n: int|
            0 <= n < self.bodies().len() ==> (#[trigger] self.pending_forces()[n]).is_direction()
        &&& forall|n: int|
            0 <= n < self.bodies().len() ==> (#[trigger] self.pending_torques()[n]).is_direction()
    }

    /// The tag names a body of this registry.
    pub open spec fn holds(&self, tag: &ObjectTag) -> bool {
        0 <= tag.index() < self.bodies().len()
    }

    /// Every body that a physics step may move, one whose mass may be found
    /// finite, turns about a direction.
    pub open spec fn steady(&self) -> bool {
        forall|n: int|
            0 <= n < self.bodies().len() && said_finite((#[trigger] self.bodies()[n]).mass, true)
                ==> self.bodies()[n].angular_velocity.is_direction()
    }

    /// What a physics step of `dt` makes of body `n` of `before`: a body
    /// whose mass `is_finite` takes one step under what waited for it, and
    /// nothing waits for it any more; any other body, and what waits for
    /// it, stays as it was.
    pub open spec fn flushed_at(&self, before: &ObjectManager<S>, n: int, dt: S) -> bool {
        let old_body = before.bodies()[n];
        let old_force = before.pending_forces()[n];
        let old_torque = before.pending_torques()[n];
        ||| {
            &&& said_finite(old_body.mass, true)
            &&& self.bodies()[n].is_step_of(old_body, old_force, old_torque, dt)
            &&& self.pending_forces()[n] == Vector::<S>::null_spec()
            &&& self.pending_torques()[n] == Vector::<S>::null_spec()
        }
        ||| {
            &&& said_finite(old_body.mass, false)
            &&& self.bodies()[n] == old_body
            &&& self.pending_forces()[n] == old_force
            &&& self.pending_torques()[n] == old_torque
        }
    }

    /// A registry without bodies.
    pub fn new() -> (r: ObjectManager<S>)
        ensures
            r.wf(),
            r.bodies() == Seq::<Object<S>>::empty(),
    {
        ObjectManager { objects: Vec::new(), forces: Vec::new(), torques: Vec::new() }
    }

    /// The number of bodies.
    pub fn len(&self) -> (n: usize)
        ensures
            n == self.bodies().len(),
    {
        self.objects.len()
    }

    /// Adds a body, with nothing waiting for it.
    pub fn push_object(&mut self, new_object: Object<S>)
        requires
            regular::<S>(),
            old(self).wf(),
        ensures
            final(self).wf(),
            final(self).bodies() == old(self).bodies().push(new_object),
            final(self).pending_forces() == old(self).pending_forces().push(Vector::null_spec()),
            final(self).pending_torques() == old(self).pending_torques().push(Vector::null_spec()),
    {
        self.objects.push(new_object);
        self.forces.push(Vector::null());
        self.torques.push(Vector::null());
    }

    /// Adds a body, with nothing waiting for it, and hands out its tag.
    pub fn push_object_tagged(&mut self, new_object: Object<S>) -> (tag: ObjectTag)
        requires
            regular::<S>(),
            old(self).wf(),
        ensures
            final(self).wf(),
            final(self).bodies() == old(self).bodies().push(new_object),
            final(self).pending_forces() == old(self).pending_forces().push(Vector::null_spec()),
            final(self).pending_torques() == old(self).pending_torques().push(Vector::null_spec()),
            tag.index() == old(self).bodies().len(),
    {
        self.objects.push(new_object);
        self.forces.push(Vector::null());
        self.torques.push(Vector::null());
        ObjectTag(self.objects.len() - 1)
    }

    /// Hands each body to `draw_object`, in the order in which the bodies
    /// were added: for every body a call has returned.
    pub fn draw<F: Fn(&Object<S>)>(&self, draw_object: F)
        requires
            forall|n: int|
                0 <= n < self.bodies().len() ==> call_requires(
                    draw_object,
                    (&#[trigger] self.bodies()[n],),
                ),
        ensures
            forall|n: int|
                0 <= n < self.bodies().len() ==> call_ensures(
                    draw_object,
                    (&#[trigger] self.bodies()[n],),
                    (),
                ),
    {
        let mut n: usize = 0;
        while n < self.objects.len()
            invariant
                n <= self.objects.len(),
                forall|m: int|
                    0 <= m < self.bodies().len() ==> call_requires(
                        draw_object,
                        (&#[trigger] self.bodies()[m],),
                    ),
                forall|m: int|
                    0 <= m < n ==> call_ensures(
                        draw_object,
                        (&#[trigger] self.bodies()[m],),
                        (),
                    ),
            decreases self.objects.len() - n,
        {
            assert(call_requires(draw_object, (&self.bodies()[n as int],)));
            draw_object(&self.objects[n]);
            n += 1;
        }
    }

    /// Whether the tag names a body of this registry.
    pub fn contains(&self, tag: &ObjectTag) -> (b: bool)
        ensures
            b == self.holds(tag),
    {
        tag.0 < self.objects.len()
    }

    /// The body that the tag names.
    pub fn get_object(&self, tag: &ObjectTag) -> (r: &Object<S>)
        requires
            self.holds(tag),
        ensures
            *r == self.bodies()[tag.index()],
    {
        &self.objects[tag.0]
    }

    /// The body that the tag names, to be changed in place. Nothing else in
    /// the registry changes.
    pub fn get_mut_object(&mut self, tag: &ObjectTag) -> (r: &mut Object<S>)
        requires
            old(self).holds(tag),
        ensures
            *r == old(self).bodies()[tag.index()],
            final(self).bodies() == old(self).bodies().update(tag.index(), *final(r)),
            final(self).pending_forces() == old(self).pending_forces(),
            final(self).pending_torques() == old(self).pending_torques(),
    {
        &mut self.objects[tag.0]
    }

    /// The force that waits for the body that the tag names.
    pub fn pending_force(&self, tag: &ObjectTag) -> (r: Vector<S>)
        requires
            self.wf(),
            self.holds(tag),
        ensures
            r == self.pending_forces()[tag.index()],
    {
        self.forces[tag.0]
    }

    /// The torque that waits for the body that the tag names.
    pub fn pending_torque(&self, tag: &ObjectTag) -> (r: Vector<S>)
        requires
            self.wf(),
            self.holds(tag),
        ensures
            r == self.pending_torques()[tag.index()],
    {
        self.torques[tag.0]
    }

    /// Adds a force, a direction, to what waits for the body.
    pub fn apply_force(&mut self, force: Vector<S>, tag: &ObjectTag)
        requires
            exact::<S>(),
            old(self).wf(),
            old(self).holds(tag),
            force.is_direction(),
        ensures
            final(self).wf(),
            final(self).bodies() == old(self).bodies(),
            final(self).pending_torques() == old(self).pending_torques(),
            final(self).pending_forces() == pressed(
                old(self).pending_forces(),
                tag.index(),
                force,
            ),
    {
        let sum = self.forces[tag.0] + force;
        self.forces[tag.0] = sum;
    }

    /// Adds a torque, a direction, to what waits for the body.
    pub fn apply_torque(&mut self, torque: Vector<S>, tag: &ObjectTag)
        requires
            exact::<S>(),
            old(self).wf(),
            old(self).holds(tag),
            torque.is_direction(),
        ensures
            final(self).wf(),
            final(self).bodies() == old(self).bodies(),
            final(self).pending_forces() == old(self).pending_forces(),
            final(self).pending_torques() == pressed(
                old(self).pending_torques(),
                tag.index(),
                torque,
            ),
    {
        let sum = self.torques[tag.0] + torque;
        self.torques[tag.0] = sum;
    }

    /// Adds a force and a torque, both directions, to what waits for the
    /// body.
    pub fn apply_force_torque(&mut self, force: Vector<S>, torque: Vector<S>, tag: &ObjectTag)
        requires
            exact::<S>(),
            old(self).wf(),
            old(self).holds(tag),
            force.is_direction(),
            torque.is_direction(),
        ensures
            final(self).wf(),
            final(self).bodies() == old(self).bodies(),
            final(self).pending_forces() == pressed(
                old(self).pending_forces(),
                tag.index(),
                force,
            ),
            final(self).pending_torques() == pressed(
                old(self).pending_torques(),
                tag.index(),
                torque,
            ),
    {
        let force_sum = self.forces[tag.0] + force;
        self.forces[tag.0] = force_sum;
        let torque_sum = self.torques[tag.0] + torque;
        self.torques[tag.0] = torque_sum;
    }

    /// One physics step for all bodies: each body of finite mass takes one
    /// step of `dt` under the force and torque that wait for it, and both
    /// are then set to null. Bodies whose mass is not finite are left alone.
    pub fn update_physics(&mut self, dt: S)
        requires
            exact::<S>(),
            old(self).wf(),
            old(self).steady(),
        ensures
            final(self).wf(),
            final(self).bodies().len() == old(self).bodies().len(),
            forall|n: int|
                0 <= n < old(self).bodies().len() ==> #[trigger] final(self).flushed_at(
                    old(self),
                    n,
                    dt,
                ),
    {
        let count = self.objects.len();
        let mut n: usize = 0;
        while n < count
            invariant
                exact::<S>(),
                self.wf(),
                n <= count,
                count == self.bodies().len(),
                count == old(self).bodies().len(),
                old(self).wf(),
                old(self).steady(),
                forall|m: int| 0 <= m < n ==> #[trigger] self.flushed_at(old(self), m, dt),
                forall|m: int|
                    n <= m < count ==> (#[trigger] self.bodies()[m]) == old(self).bodies()[m],
                forall|m: int|
                    n <= m < count ==> (#[trigger] self.pending_forces()[m]) == old(
                        self,
                    ).pending_forces()[m],
                forall|m: int|
                    n <= m < count ==> (#[trigger] self.pending_torques()[m]) == old(
                        self,
                    ).pending_torques()[m],
            decreases count - n,
        {
            let ghost before = *self;
            assert(before.bodies()[n as int] == old(self).bodies()[n as int]);
            assert(before.pending_forces()[n as int] == old(self).pending_forces()[n as int]);
            assert(before.pending_torques()[n as int] == old(self).pending_torques()[n as int]);
            if self.objects[n].mass.is_finite() {
                let force = self.forces[n];
                let torque = self.torques[n];
                self.objects[n].update(force, torque, dt);
                self.forces[n] = Vector::null();
                self.torques[n] = Vector::null();
            }
            assert(self.flushed_at(old(self), n as int, dt));
            assert forall|m: int| 0 <= m < n implies #[trigger] self.flushed_at(
                old(self),
                m,
                dt,
            ) by {
                assert(before.flushed_at(old(self), m, dt));
                assert(self.bodies()[m] == before.bodies()[m]);
                assert(self.pending_forces()[m] == before.pending_forces()[m]);
                assert(self.pending_torques()[m] == before.pending_torques()[m]);
            }
            n += 1;
        }
    }
}

/// Tags stay good: after a body is added, a tag that named a body names
/// the same body, and the new body has a place that no tag had.
pub proof fn lemma_tags_stay_good<S: Scalar>(
    before: ObjectManager<S>,
    after: ObjectManager<S>,
    new_object: Object<S>,
    tag: ObjectTag,
)
    requires
        after.bodies() == before.bodies().push(new_object),
        before.holds(&tag),
    ensures
        after.holds(&tag),
        after.bodies()[tag.index()] == before.bodies()[tag.index()],
        tag.index() != before.bodies().len(),
{
}

/// Accumulation is linear: to add `f1` and then `f2` to what waits for a
/// body for which nothing waits leaves the same as to add their sum at
/// once.
pub proof fn lemma_forces_add_up<S: Scalar>(
    waiting: Seq<Vector<S>>,
    n: int,
    f1: Vector<S>,
    f2: Vector<S>,
)
    requires
        exact::<S>(),
        0 <= n < waiting.len(),
        waiting[n] == Vector::<S>::null_spec(),
    ensures
        pressed(pressed(waiting, n, f1), n, f2) == pressed(waiting, n, f1.plus(f2)),
{
    assert(waiting[n].plus(f1) == f1);
    assert(waiting[n].plus(f1.plus(f2)) == f1.plus(f2));
    assert(pressed(pressed(waiting, n, f1), n, f2) =~= pressed(waiting, n, f1.plus(f2)));
}

/// Accumulation is linear whatever waits already, and the order of two
/// additions does not matter: in an ordered field sums are associative and
/// commutative.
pub proof fn lemma_forces_commute<S: Scalar>(
    waiting: Seq<Vector<S>>,
    n: int,
    m: int,
    f1: Vector<S>,
    f2: Vector<S>,
)
    requires
        field::<S>(),
        0 <= n < waiting.len(),
        0 <= m < waiting.len(),
    ensures
        pressed(pressed(waiting, n, f1), m, f2) == pressed(pressed(waiting, m, f2), n, f1),
        pressed(pressed(waiting, n, f1), n, f2) == pressed(waiting, n, f1.plus(f2)),
{
    lemma_field_adds::<S>();
    let w = waiting[n];
    assert(w.plus(f1).plus(f2) == w.plus(f1.plus(f2)));
    assert(w.plus(f1).plus(f2) == w.plus(f2).plus(f1)) by {
        assert(f1.plus(f2) == f2.plus(f1));
        assert(w.plus(f2).plus(f1) == w.plus(f2.plus(f1)));
    }
    assert(pressed(pressed(waiting, n, f1), n, f2) =~= pressed(waiting, n, f1.plus(f2)));
    assert(pressed(pressed(waiting, n, f1), m, f2) =~= pressed(pressed(waiting, m, f2), n, f1));
}

/// What a physics step makes of a body rests on the body and on what waits
/// for it, and on nothing else: whatever the step can make of body `n` in
/// one registry it can make of it in any registry that holds the same body
/// with the same force and torque waiting.
pub proof fn lemma_same_motion<S: Scalar>(
    after: ObjectManager<S>,
    one: ObjectManager<S>,
    other: ObjectManager<S>,
    n: int,
    dt: S,
)
    requires
        after.flushed_at(&one, n, dt),
        other.bodies()[n] == one.bodies()[n],
        other.pending_forces()[n] == one.pending_forces()[n],
        other.pending_torques()[n] == one.pending_torques()[n],
    ensures
        after.flushed_at(&other, n, dt),
{
}

/// Accumulation is linear in the motion too: two forces added one by one to
/// a body for which nothing waits, or their sum added at once, leave a
/// physics step the same to make of the body. The velocity, the position
/// and the angular velocity after the step are the same whichever way;
/// the orientation is in both one that the step can give.
pub proof fn lemma_forces_move_alike<S: Scalar>(
    start: ObjectManager<S>,
    one_by_one: ObjectManager<S>,
    at_once: ObjectManager<S>,
    after: ObjectManager<S>,
    n: int,
    f1: Vector<S>,
    f2: Vector<S>,
    dt: S,
)
    requires
        exact::<S>(),
        0 <= n < start.bodies().len(),
        start.pending_forces().len() == start.bodies().len(),
        start.pending_forces()[n] == Vector::<S>::null_spec(),
        one_by_one.bodies() == start.bodies(),
        one_by_one.pending_torques() == start.pending_torques(),
        one_by_one.pending_forces() == pressed(pressed(start.pending_forces(), n, f1), n, f2),
        at_once.bodies() == start.bodies(),
        at_once.pending_torques() == start.pending_torques(),
        at_once.pending_forces() == pressed(start.pending_forces(), n, f1.plus(f2)),
        after.flushed_at(&one_by_one, n, dt),
    ensures
        one_by_one.pending_forces() == at_once.pending_forces(),
        after.flushed_at(&at_once, n, dt),
        said_finite(start.bodies()[n].mass, true) || after.bodies()[n] == start.bodies()[n],
        !said_finite(start.bodies()[n].mass, false) ==> {
            &&& after.bodies()[n].velocity == start.bodies()[n].next_velocity(f1.plus(f2), dt)
            &&& after.bodies()[n].position == start.bodies()[n].next_position(f1.plus(f2), dt)
            &&& after.bodies()[n].angular_velocity == start.bodies()[n].next_angular_velocity(
                start.pending_torques()[n],
                dt,
            )
        },
{
    lemma_forces_add_up(start.pending_forces(), n, f1, f2);
    lemma_same_motion(after, one_by_one, at_once, n, dt);
}

/// Conservation in the registry: a body of finite mass, other than zero,
/// for which nothing waits keeps its velocity and angular velocity over
/// any number of physics steps, and its position advances by its velocity
/// times `dt` in each.
pub proof fn lemma_conservation<S: Scalar>(states: Seq<ObjectManager<S>>, n: int, dt: S, k: nat)
    requires
        exact::<S>(),
        k < states.len(),
        0 <= n < states[0].bodies().len(),
        states[0].wf(),
        states[0].pending_forces()[n] == Vector::<S>::null_spec(),
        states[0].pending_torques()[n] == Vector::<S>::null_spec(),
        !said_finite(states[0].bodies()[n].mass, false),
        states[0].bodies()[n].mass != crate::scalar::zero::<S>(),
        forall|j: int|
            0 <= j < states.len() - 1 ==> (#[trigger] states[j + 1]).flushed_at(&states[j], n, dt),
    ensures
        states[k as int].bodies()[n].mass == states[0].bodies()[n].mass,
        states[k as int].pending_forces()[n] == Vector::<S>::null_spec(),
        states[k as int].pending_torques()[n] == Vector::<S>::null_spec(),
        states[k as int].bodies()[n].velocity == states[0].bodies()[n].velocity,
        states[k as int].bodies()[n].angular_velocity == states[0].bodies()[n].angular_velocity,
        states[k as int].bodies()[n].position == crate::object::advanced(
            states[0].bodies()[n].position,
            states[0].bodies()[n].velocity.scaled(dt),
            k,
        ),
    decreases k,
{
    if k > 0 {
        lemma_conservation(states, n, dt, (k - 1) as nat);
        assert(states[(k - 1) + 1].flushed_at(&states[k - 1], n, dt));
        lemma_free_step(states[k - 1].bodies()[n], states[k as int].bodies()[n], dt);
    }
}

} // verus!
