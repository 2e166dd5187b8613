use drone_sim::scalar::Scalar;
use std::ops::{Add, Div, Mul, Neg, Sub};

/// The scalar of these tests: a single-precision float.
#[derive(Clone, Copy, Debug, PartialEq, PartialOrd)]
struct R(f32);

impl Add for R {
    type Output = R;
    fn add(self, rhs: R) -> R {
        R(self.0 + rhs.0)
    }
}

impl Sub for R {
    type Output = R;
    fn sub(self, rhs: R) -> R {
        R(self.0 - rhs.0)
    }
}

impl Mul for R {
    type Output = R;
    fn mul(self, rhs: R) -> R {
        R(self.0 * rhs.0)
    }
}

impl Div for R {
    type Output = R;
    fn div(self, rhs: R) -> R {
        R(self.0 / rhs.0)
    }
}

impl Neg for R {
    type Output = R;
    fn neg(self) -> R {
        R(-self.0)
    }
}

impl From<i16> for R {
    fn from(n: i16) -> R {
        R(f32::from(n))
    }
}

impl Scalar for R {
    fn sqrt(self) -> R {
        R(self.0.sqrt())
    }
    fn sin(self) -> R {
        R(self.0.sin())
    }
    fn cos(self) -> R {
        R(self.0.cos())
    }
    fn acos(self) -> R {
        R(self.0.acos())
    }
    fn is_finite(self) -> bool {
        self.0.is_finite()
    }
}

fn v(x: f32, y: f32, z: f32, w: f32) -> Vector<R> {
    Vector::new(R(x), R(y), R(z), R(w))
}

fn close(a: R, b: f32, tolerance: f32) -> bool {
    (a.0 - b).abs() <= tolerance
}

fn close_to(a: Vector<R>, b: (f32, f32, f32, f32), tolerance: f32) -> bool {
    close(a.x, b.0, tolerance)
        && close(a.y, b.1, tolerance)
        && close(a.z, b.2, tolerance)
        && close(a.w, b.3, tolerance)
}

fn parts(a: Vector<R>) -> (f32, f32, f32, f32) {
    (a.x.0, a.y.0, a.z.0, a.w.0)
}

use drone_sim::object::{make_object, Object};
use drone_sim::objectmanager::{ObjectManager, ObjectTag};
use drone_sim::quaternion::Quaternion;
use drone_sim::utils::double_mut_index;
use drone_sim::vector::Vector;
use std::cell::RefCell;

fn q_parts(a: Quaternion<R>) -> (f32, f32, f32, f32) {
    (a.r.0, a.i.0, a.j.0, a.k.0)
}

fn registry_of(count: usize) -> (ObjectManager<R>, Vec<ObjectTag>) {
    let mut registry = ObjectManager::new();
    let mut tags = Vec::new();
    for n in 0..count {
        tags.push(registry.push_object_tagged(make_object(n)));
    }
    (registry, tags)
}

#[test]
fn make_object_is_a_unit_body_at_rest() {
    let o: Object<R> = make_object(7);
    assert_eq!(o.scale, R(1.0));
    assert_eq!(o.mass, R(1.0));
    assert_eq!(o.angular_inertia, R(600.0));
    assert_eq!(parts(o.position), (0.0, 0.0, 0.0, 1.0));
    assert_eq!(parts(o.velocity), (0.0, 0.0, 0.0, 0.0));
    assert_eq!(q_parts(o.rotation), (1.0, 0.0, 0.0, 0.0));
    assert_eq!(parts(o.angular_velocity), (0.0, 0.0, 0.0, 0.0));
    assert_eq!(o.graphicsmodel_id, 7);
}

#[test]
fn update_is_semi_implicit() {
    let mut o: Object<R> = make_object(0);
    o.mass = R(2.0);
    o.angular_inertia = R(4.0);
    o.velocity = v(1.0, 0.0, 0.0, 0.0);
    o.update(v(0.0, 8.0, 0.0, 0.0), v(0.0, 0.0, 2.0, 0.0), R(0.5));
    // the velocity first: a = F / m = 4, v += a dt
    assert_eq!(parts(o.velocity), (1.0, 2.0, 0.0, 0.0));
    // the position from the new velocity
    assert_eq!(parts(o.position), (0.5, 1.0, 0.0, 1.0));
    // the angular velocity: torque * (dt / inertia)
    assert_eq!(parts(o.angular_velocity), (0.0, 0.0, 0.25, 0.0));
    // the orientation: a turn by 0.125 about the third axis
    let half = 0.0625f32;
    assert!(close(o.rotation.r, half.cos(), 1e-6));
    assert!(close(o.rotation.k, half.sin(), 1e-6));
    assert_eq!(o.rotation.i, R(0.0));
    assert_eq!(o.rotation.j, R(0.0));
    assert!(o.rotation.is_unit());
    assert_eq!(o.mass, R(2.0));
    assert_eq!(o.graphicsmodel_id, 0);
}

#[test]
fn update_turns_in_the_world_frame() {
    let mut o: Object<R> = make_object(0);
    // lying on its side: a quarter turn about the first axis
    o.rotation = Quaternion::from_vector(v(std::f32::consts::FRAC_PI_2, 0.0, 0.0, 0.0));
    o.angular_velocity = v(0.0, 1.0, 0.0, 0.0);
    o.update(Vector::null(), Vector::null(), R(0.1));
    let expected = Quaternion::from_vector(v(0.0, 0.1, 0.0, 0.0))
        * Quaternion::from_vector(v(std::f32::consts::FRAC_PI_2, 0.0, 0.0, 0.0));
    assert!(close(o.rotation.r, expected.r.0, 1e-6));
    assert!(close(o.rotation.i, expected.i.0, 1e-6));
    assert!(close(o.rotation.j, expected.j.0, 1e-6));
    assert!(close(o.rotation.k, expected.k.0, 1e-6));
}

#[test]
fn orientation_stays_normalized() {
    let mut o: Object<R> = make_object(0);
    o.angular_velocity = v(3.0, -2.0, 1.0, 0.0);
    for _ in 0..2000 {
        o.update(Vector::null(), v(0.1, 0.0, 0.0, 0.0), R(0.02));
        assert!(o.rotation.is_unit());
    }
}

#[test]
fn tags_name_bodies_in_the_order_of_their_addition() {
    let (mut registry, tags) = registry_of(3);
    assert_eq!(registry.len(), 3);
    for (n, tag) in tags.iter().enumerate() {
        assert!(registry.contains(tag));
        assert_eq!(registry.get_object(tag).graphicsmodel_id, n);
    }
    // more bodies do not disturb the tags handed out before
    let later = registry.push_object_tagged(make_object(30));
    registry.push_object(make_object(40));
    assert_eq!(registry.len(), 5);
    for (n, tag) in tags.iter().enumerate() {
        assert_eq!(registry.get_object(tag).graphicsmodel_id, n);
    }
    assert_eq!(registry.get_object(&later).graphicsmodel_id, 30);
}

#[test]
fn a_tag_of_a_larger_registry_is_not_held() {
    let (_, tags) = registry_of(3);
    let (small, _) = registry_of(1);
    assert!(small.contains(&tags[0]));
    assert!(!small.contains(&tags[1]));
    assert!(!small.contains(&tags[2]));
    let empty: ObjectManager<R> = ObjectManager::new();
    assert_eq!(empty.len(), 0);
    assert!(!empty.contains(&tags[0]));
}

#[test]
fn get_mut_object_changes_one_body() {
    let (mut registry, tags) = registry_of(3);
    registry.get_mut_object(&tags[1]).position = v(1.0, 2.0, 3.0, 1.0);
    assert_eq!(parts(registry.get_object(&tags[0]).position), (0.0, 0.0, 0.0, 1.0));
    assert_eq!(parts(registry.get_object(&tags[1]).position), (1.0, 2.0, 3.0, 1.0));
    assert_eq!(parts(registry.get_object(&tags[2]).position), (0.0, 0.0, 0.0, 1.0));
}

#[test]
fn a_new_body_has_nothing_waiting() {
    let (registry, tags) = registry_of(2);
    for tag in &tags {
        assert_eq!(parts(registry.pending_force(tag)), (0.0, 0.0, 0.0, 0.0));
        assert_eq!(parts(registry.pending_torque(tag)), (0.0, 0.0, 0.0, 0.0));
    }
}

#[test]
fn forces_and_torques_add_up_per_body() {
    let (mut registry, tags) = registry_of(2);
    registry.apply_force(v(1.0, 2.0, 3.0, 0.0), &tags[0]);
    registry.apply_force(v(10.0, 20.0, 30.0, 0.0), &tags[0]);
    registry.apply_torque(v(0.0, 0.0, 1.0, 0.0), &tags[0]);
    registry.apply_force_torque(v(0.5, 0.0, 0.0, 0.0), v(0.0, 0.25, 0.0, 0.0), &tags[1]);
    registry.apply_force_torque(v(0.5, 0.0, 0.0, 0.0), v(0.0, 0.25, 0.0, 0.0), &tags[1]);
    assert_eq!(parts(registry.pending_force(&tags[0])), (11.0, 22.0, 33.0, 0.0));
    assert_eq!(parts(registry.pending_torque(&tags[0])), (0.0, 0.0, 1.0, 0.0));
    assert_eq!(parts(registry.pending_force(&tags[1])), (1.0, 0.0, 0.0, 0.0));
    assert_eq!(parts(registry.pending_torque(&tags[1])), (0.0, 0.5, 0.0, 0.0));
}

#[test]
fn accumulation_is_linear() {
    let f1 = v(0.1, -7.3, 2.5, 0.0);
    let f2 = v(1e-3, 4.4, -0.7, 0.0);
    let (mut one_by_one, tags) = registry_of(1);
    let (mut at_once, _) = registry_of(1);
    one_by_one.apply_force(f1, &tags[0]);
    one_by_one.apply_force(f2, &tags[0]);
    at_once.apply_force(f1 + f2, &tags[0]);
    assert_eq!(parts(one_by_one.pending_force(&tags[0])), parts(at_once.pending_force(&tags[0])));
    one_by_one.update_physics(R(0.02));
    at_once.update_physics(R(0.02));
    let a = one_by_one.get_object(&tags[0]);
    let b = at_once.get_object(&tags[0]);
    assert_eq!(parts(a.position), parts(b.position));
    assert_eq!(parts(a.velocity), parts(b.velocity));
    assert_eq!(parts(a.angular_velocity), parts(b.angular_velocity));
    assert_eq!(q_parts(a.rotation), q_parts(b.rotation));
}

#[test]
fn the_order_of_two_forces_does_not_matter() {
    let f1 = v(0.1, -7.3, 2.5, 0.0);
    let f2 = v(1e-3, 4.4, -0.7, 0.0);
    let (mut first, tags) = registry_of(1);
    let (mut second, _) = registry_of(1);
    first.apply_force(f1, &tags[0]);
    first.apply_force(f2, &tags[0]);
    second.apply_force(f2, &tags[0]);
    second.apply_force(f1, &tags[0]);
    assert_eq!(parts(first.pending_force(&tags[0])), parts(second.pending_force(&tags[0])));
}

#[test]
fn update_physics_flushes_what_waits() {
    let (mut registry, tags) = registry_of(2);
    registry.apply_force_torque(v(0.0, 10.0, 0.0, 0.0), v(0.0, 0.0, 6.0, 0.0), &tags[0]);
    registry.update_physics(R(0.5));
    assert_eq!(parts(registry.pending_force(&tags[0])), (0.0, 0.0, 0.0, 0.0));
    assert_eq!(parts(registry.pending_torque(&tags[0])), (0.0, 0.0, 0.0, 0.0));
    assert_eq!(parts(registry.get_object(&tags[0]).velocity), (0.0, 5.0, 0.0, 0.0));
    assert_eq!(parts(registry.get_object(&tags[0]).position), (0.0, 2.5, 0.0, 1.0));
    assert_eq!(parts(registry.get_object(&tags[0]).angular_velocity), (0.0, 0.0, 0.005, 0.0));
    // the other body felt nothing
    assert_eq!(parts(registry.get_object(&tags[1]).velocity), (0.0, 0.0, 0.0, 0.0));
    assert_eq!(parts(registry.get_object(&tags[1]).position), (0.0, 0.0, 0.0, 1.0));
    // a second step without a new force keeps the velocity
    registry.update_physics(R(0.5));
    assert_eq!(parts(registry.get_object(&tags[0]).velocity), (0.0, 5.0, 0.0, 0.0));
    assert_eq!(parts(registry.get_object(&tags[0]).position), (0.0, 5.0, 0.0, 1.0));
}

#[test]
fn a_body_of_infinite_mass_is_fixed() {
    let (mut registry, tags) = registry_of(2);
    {
        let fixed = registry.get_mut_object(&tags[0]);
        fixed.mass = R(f32::INFINITY);
        fixed.velocity = v(1.0, 0.0, 0.0, 0.0);
        fixed.angular_velocity = v(0.0, 1.0, 0.0, 0.0);
    }
    registry.apply_force_torque(v(0.0, 10.0, 0.0, 0.0), v(0.0, 0.0, 6.0, 0.0), &tags[0]);
    registry.apply_force(v(0.0, 10.0, 0.0, 0.0), &tags[1]);
    registry.update_physics(R(0.5));
    let fixed = registry.get_object(&tags[0]);
    assert_eq!(parts(fixed.position), (0.0, 0.0, 0.0, 1.0));
    assert_eq!(parts(fixed.velocity), (1.0, 0.0, 0.0, 0.0));
    assert_eq!(parts(fixed.angular_velocity), (0.0, 1.0, 0.0, 0.0));
    assert_eq!(q_parts(fixed.rotation), (1.0, 0.0, 0.0, 0.0));
    // what waits for a fixed body keeps waiting
    assert_eq!(parts(registry.pending_force(&tags[0])), (0.0, 10.0, 0.0, 0.0));
    assert_eq!(parts(registry.pending_torque(&tags[0])), (0.0, 0.0, 6.0, 0.0));
    // the free body moved
    assert_eq!(parts(registry.get_object(&tags[1]).velocity), (0.0, 5.0, 0.0, 0.0));
    assert_eq!(parts(registry.pending_force(&tags[1])), (0.0, 0.0, 0.0, 0.0));
}

#[test]
fn a_free_body_coasts() {
    let (mut registry, tags) = registry_of(1);
    {
        let body = registry.get_mut_object(&tags[0]);
        body.velocity = v(1.0, -2.0, 0.5, 0.0);
        body.angular_velocity = v(0.0, 0.25, 0.0, 0.0);
        body.position = v(3.0, 3.0, 3.0, 1.0);
    }
    let dt = 0.02f32;
    let mut expected = (3.0f32, 3.0f32, 3.0f32);
    for _ in 0..250 {
        registry.update_physics(R(dt));
        expected = (expected.0 + 1.0 * dt, expected.1 + -2.0 * dt, expected.2 + 0.5 * dt);
        let body = registry.get_object(&tags[0]);
        assert_eq!(parts(body.velocity), (1.0, -2.0, 0.5, 0.0));
        assert_eq!(parts(body.angular_velocity), (0.0, 0.25, 0.0, 0.0));
        assert_eq!(parts(body.position), (expected.0, expected.1, expected.2, 1.0));
    }
    // five seconds on a straight line
    let body = registry.get_object(&tags[0]);
    assert!(close_to(body.position, (8.0, -7.0, 5.5, 1.0), 1e-3));
}

#[test]
fn constant_force_gives_constant_acceleration() {
    let (mut registry, tags) = registry_of(1);
    let dt = 0.02f32;
    for _ in 0..50 {
        registry.apply_force(v(0.0, 10.0, 0.0, 0.0), &tags[0]);
        registry.update_physics(R(dt));
    }
    let body = registry.get_object(&tags[0]);
    assert!(close_to(body.velocity, (0.0, 10.0, 0.0, 0.0), 1e-4));
    // the scheme takes the new velocity for each step: 0.004 * (1 + 2 + ... + 50)
    assert!(close_to(body.position, (0.0, 5.1, 0.0, 1.0), 1e-4));
    // which is the 5 of a t² / 2 up to one step of the velocity
    assert!(close(body.position.y, 5.0, 10.0 * dt * 0.5 + 1e-4));
}

#[test]
fn draw_hands_over_every_body_in_order() {
    let (registry, _) = registry_of(4);
    let seen = RefCell::new(Vec::new());
    registry.draw(|body: &Object<R>| seen.borrow_mut().push(body.graphicsmodel_id));
    assert_eq!(seen.into_inner(), vec![0, 1, 2, 3]);
}

#[test]
fn double_mut_index_gives_both_elements() {
    let mut numbers = vec![10, 20, 30, 40];
    {
        let (a, b) = double_mut_index(&mut numbers, 1, 3);
        assert_eq!((*a, *b), (20, 40));
        *a += 1;
        *b += 2;
    }
    assert_eq!(numbers, vec![10, 21, 30, 42]);
    {
        let (a, b) = double_mut_index(&mut numbers, 3, 0);
        assert_eq!((*a, *b), (42, 10));
        std::mem::swap(a, b);
    }
    assert_eq!(numbers, vec![42, 21, 30, 10]);
    {
        let (a, b) = double_mut_index(&mut numbers, 0, 1);
        *a = 0;
        *b = 1;
    }
    assert_eq!(numbers, vec![0, 1, 30, 10]);
}
