use drone_sim::scalar::Scalar;
use std::ops::{Add, Div, Mul, Neg, Sub};

/// The scalar of these tests: a single-precision float.
#[derive(Clone, Copy, Debug, PartialEq, PartialOrd)]
struct R(f32);

impl Add for R {
    type Output = R;
    fn add(self, rhs: R) -> R {
        R(self.0 + rhs.0)
    }
}

impl Sub for R {
    type Output = R;
    fn sub(self, rhs: R) -> R {
        R(self.0 - rhs.0)
    }
}

impl Mul for R {
    type Output = R;
    fn mul(self, rhs: R) -> R {
        R(self.0 * rhs.0)
    }
}

impl Div for R {
    type Output = R;
    fn div(self, rhs: R) -> R {
        R(self.0 / rhs.0)
    }
}

impl Neg for R {
    type Output = R;
    fn neg(self) -> R {
        R(-self.0)
    }
}

impl From<i16> for R {
    fn from(n: i16) -> R {
        R(f32::from(n))
    }
}

impl Scalar for R {
    fn sqrt(self) -> R {
        R(self.0.sqrt())
    }
    fn sin(self) -> R {
        R(self.0.sin())
    }
    fn cos(self) -> R {
        R(self.0.cos())
    }
    fn acos(self) -> R {
        R(self.0.acos())
    }
    fn is_finite(self) -> bool {
        self.0.is_finite()
    }
}

fn v(x: f32, y: f32, z: f32, w: f32) -> Vector<R> {
    Vector::new(R(x), R(y), R(z), R(w))
}

fn close(a: R, b: f32, tolerance: f32) -> bool {
    (a.0 - b).abs() <= tolerance
}

fn close_to(a: Vector<R>, b: (f32, f32, f32, f32), tolerance: f32) -> bool {
    close(a.x, b.0, tolerance)
        && close(a.y, b.1, tolerance)
        && close(a.z, b.2, tolerance)
        && close(a.w, b.3, tolerance)
}

fn parts(a: Vector<R>) -> (f32, f32, f32, f32) {
    (a.x.0, a.y.0, a.z.0, a.w.0)
}

use drone_sim::drone::{apply_pwm, get_pwm};
use drone_sim::object::{make_object, Object};
use drone_sim::objectmanager::ObjectManager;
use drone_sim::quaternion::Quaternion;
use drone_sim::spline::{Bezier, Spline};
use drone_sim::vector::Vector;

fn q(r: f32, i: f32, j: f32, k: f32) -> Quaternion<R> {
    Quaternion { r: R(r), i: R(i), j: R(j), k: R(k) }
}

fn curve() -> Bezier<R> {
    Bezier::new(
        v(0.25, -1.5, 3.0, 1.0),
        v(1.75, 0.5, 2.0, 1.5),
        v(2.5, 4.0, -1.0, 3.25),
        v(-0.5, 2.25, 0.75, 4.0),
    )
}

const POINTS: [[f32; 4]; 4] = [
    [0.25, -1.5, 3.0, 1.0],
    [1.75, 0.5, 2.0, 1.5],
    [2.5, 4.0, -1.0, 3.25],
    [-0.5, 2.25, 0.75, 4.0],
];

const TAUS: [f32; 7] = [0.0, 0.125, 0.3, 0.5, 0.7071, 0.99, 1.0];

fn blend(w: [f32; 4]) -> (f32, f32, f32, f32) {
    let part = |n: usize| {
        POINTS[0][n] * w[0] + POINTS[1][n] * w[1] + POINTS[2][n] * w[2] + POINTS[3][n] * w[3]
    };
    (part(0), part(1), part(2), part(3))
}

#[test]
fn sample_p_is_the_cubic() {
    for tau in TAUS {
        let expected = blend([
            (1.0 - tau) * (1.0 - tau) * (1.0 - tau),
            3.0 * (1.0 - tau) * (1.0 - tau) * tau,
            3.0 * (1.0 - tau) * tau * tau,
            tau * tau * tau,
        ]);
        assert_eq!(parts(curve().sample_p(R(tau))), expected);
    }
}

#[test]
fn sample_dp_dtau_is_its_derivative() {
    for tau in TAUS {
        let expected = blend([
            -3.0 * (1.0 - tau) * (1.0 - tau),
            9.0 * tau * tau - 12.0 * tau + 3.0,
            -9.0 * tau * tau + 6.0 * tau,
            3.0 * tau * tau,
        ]);
        assert_eq!(parts(curve().sample_dp_dtau(R(tau))), expected);
    }
}

#[test]
fn sample_ddp_dtau2_is_its_second_derivative() {
    for tau in TAUS {
        let expected =
            blend([-6.0 * tau + 6.0, 18.0 * tau - 12.0, -18.0 * tau + 6.0, 6.0 * tau]);
        assert_eq!(parts(curve().sample_ddp_dtau2(R(tau))), expected);
    }
}

#[test]
fn sample_all_is_the_chain_rule() {
    let mut s: Spline<R> = Spline::new();
    assert!(s.continues(&curve()));
    s.push_curve(curve());
    for t in [1.0f32, 1.3, 2.0, 2.75, 3.9, 4.0] {
        assert!(s.covers_once(R(t)));
        let (n, tau) = s.find_n_tau(R(t));
        assert_eq!(n, 0);
        let p = curve().sample_p(tau);
        let dp = curve().sample_dp_dtau(tau);
        let ddp = curve().sample_ddp_dtau2(tau);
        let dt_dtau = dp.w.0;
        let dtau_dt = 1.0 / dt_dtau;
        let ddtau_dt2 = -ddp.w.0 / (dt_dtau * dt_dtau * dt_dtau);
        let (position, velocity, acceleration) = s.sample_all(R(t));
        assert_eq!(parts(position), (p.x.0, p.y.0, p.z.0, 1.0));
        assert_eq!(parts(velocity), (dp.x.0 * dtau_dt, dp.y.0 * dtau_dt, dp.z.0 * dtau_dt, 0.0));
        assert_eq!(
            parts(acceleration),
            (
                ddp.x.0 * (dtau_dt * dtau_dt) + dp.x.0 * ddtau_dt2,
                ddp.y.0 * (dtau_dt * dtau_dt) + dp.y.0 * ddtau_dt2,
                ddp.z.0 * (dtau_dt * dtau_dt) + dp.z.0 * ddtau_dt2,
                0.0
            )
        );
    }
}

#[test]
fn merge_places_its_control_points() {
    let (x1, v1, t1) = ((0.3f32, -1.7f32, 2.9f32), (1.0f32, 0.5f32, -0.25f32), 2.5f32);
    let (x4, v4, t4) = ((4.1f32, 0.2f32, -3.3f32), (-0.5f32, 2.0f32, 1.5f32), 3.7f32);
    assert!(Bezier::joins(
        v(x1.0, x1.1, x1.2, 1.0),
        v(v1.0, v1.1, v1.2, 0.0),
        R(t1),
        v(x4.0, x4.1, x4.2, 1.0),
        v(v4.0, v4.1, v4.2, 0.0),
        R(t4),
    ));
    let c = Bezier::merge(
        v(x1.0, x1.1, x1.2, 1.0),
        v(v1.0, v1.1, v1.2, 0.0),
        R(t1),
        v(x4.0, x4.1, x4.2, 1.0),
        v(v4.0, v4.1, v4.2, 0.0),
        R(t4),
    );
    let t_span = t4 - t1;
    let t2 = t1 + t_span / 3.0;
    let t3 = t1 + t_span * 2.0 / 3.0;
    let (p1, p2, p3, p4) = c.control_points();
    assert_eq!(parts(p1), (x1.0, x1.1, x1.2, t1));
    assert_eq!(
        parts(p2),
        (x1.0 + v1.0 * (t2 - t1), x1.1 + v1.1 * (t2 - t1), x1.2 + v1.2 * (t2 - t1), t2)
    );
    assert_eq!(
        parts(p3),
        (x4.0 - v4.0 * (t4 - t3), x4.1 - v4.1 * (t4 - t3), x4.2 - v4.2 * (t4 - t3), t3)
    );
    assert_eq!(parts(p4), (x4.0, x4.1, x4.2, t4));
}

#[test]
fn to_matrix_is_the_closed_form() {
    let mut turns = vec![q(1.0, 0.0, 0.0, 0.0), q(0.5, 0.5, 0.5, 0.5)];
    for (a, b, c, d) in [(1.0f32, 2.0f32, 3.0f32, 4.0f32), (-0.3, 0.9, 0.1, -0.2), (0.0, 0.0, 1.0, 1e-3)] {
        let mut turn = q(a, b, c, d);
        turn.normalize();
        turns.push(turn);
    }
    for turn in turns {
        let (r, i, j, k) = (turn.r.0, turn.i.0, turn.j.0, turn.k.0);
        let data = turn.to_matrix().data();
        let expected = [
            [r * r + i * i - j * j - k * k, 2.0 * (i * j + r * k), 2.0 * (i * k - r * j), 0.0],
            [2.0 * (i * j - r * k), r * r - i * i + j * j - k * k, 2.0 * (j * k + r * i), 0.0],
            [2.0 * (i * k + r * j), 2.0 * (j * k - r * i), r * r - i * i - j * j + k * k, 0.0],
            [0.0, 0.0, 0.0, 1.0],
        ];
        for n in 0..4 {
            for m in 0..4 {
                assert_eq!(data[n][m].0, expected[n][m]);
            }
        }
    }
}

#[test]
fn update_is_the_euler_step() {
    let mut o: Object<R> = make_object(3);
    o.mass = R(1.7);
    o.angular_inertia = R(0.6);
    o.position = v(0.5, 1.5, -2.5, 1.0);
    o.velocity = v(0.1, -0.2, 0.3, 0.0);
    o.angular_velocity = v(0.4, 0.5, -0.6, 0.0);
    o.rotation = Quaternion::from_vector(v(0.2, -0.1, 0.3, 0.0));
    let before = (o.position, o.velocity, o.angular_velocity, o.rotation);
    let (force, torque, dt) = ((1.0f32, -9.8f32, 0.25f32), (0.3f32, 0.0f32, -0.7f32), 0.02f32);
    o.update(v(force.0, force.1, force.2, 0.0), v(torque.0, torque.1, torque.2, 0.0), R(dt));

    let velocity = (
        before.1.x.0 + force.0 / 1.7 * dt,
        before.1.y.0 + force.1 / 1.7 * dt,
        before.1.z.0 + force.2 / 1.7 * dt,
    );
    assert_eq!(parts(o.velocity), (velocity.0, velocity.1, velocity.2, 0.0));
    assert_eq!(
        parts(o.position),
        (
            before.0.x.0 + velocity.0 * dt,
            before.0.y.0 + velocity.1 * dt,
            before.0.z.0 + velocity.2 * dt,
            1.0
        )
    );
    let spin = (
        before.2.x.0 + torque.0 * (dt / 0.6),
        before.2.y.0 + torque.1 * (dt / 0.6),
        before.2.z.0 + torque.2 * (dt / 0.6),
    );
    assert_eq!(parts(o.angular_velocity), (spin.0, spin.1, spin.2, 0.0));
    let mut turned =
        Quaternion::from_vector(v(spin.0 * dt, spin.1 * dt, spin.2 * dt, 0.0)) * before.3;
    turned.normalize();
    assert_eq!(
        (o.rotation.r, o.rotation.i, o.rotation.j, o.rotation.k),
        (turned.r, turned.i, turned.j, turned.k)
    );
    assert_eq!(o.graphicsmodel_id, 3);
    assert_eq!((o.mass, o.angular_inertia, o.scale), (R(1.7), R(0.6), R(1.0)));
}

#[test]
fn get_pwm_is_the_control_law() {
    let mut drone: Object<R> = make_object(0);
    drone.mass = R(1.3);
    drone.rotation = Quaternion::from_vector(v(0.2, -0.1, 0.3, 0.0));
    drone.angular_velocity = v(0.4, 0.5, -0.6, 0.0);
    let a_target = v(1.0, 9.0, -2.0, 0.0);
    let (t1, t2, t3, t4) = get_pwm(&drone, a_target).unwrap();

    let beta = -25.0f32;
    let alpha = beta * beta / 4.0;
    let m = drone.rotation.to_matrix();
    let (x, y, z) = (m.0[0], m.0[1], m.0[2]);
    let axis = Vector::normalize(Vector::cross(y, a_target)).unwrap();
    let angle = Vector::angle(y, a_target).unwrap();
    let total = drone.angular_velocity * R(beta) + axis * angle * R(alpha);
    let roll = Vector::dot(total, x).0;
    let pitch = Vector::dot(total, z).0;
    let yaw = Vector::dot(total, y).0;
    let thrust = Vector::magnitude(a_target).0 * 1.3 * Vector::cos_angle(y, a_target).unwrap().0;
    assert_eq!(t1.0, (thrust - roll + pitch + yaw) * 0.25);
    assert_eq!(t2.0, (thrust + roll + pitch - yaw) * 0.25);
    assert_eq!(t3.0, (thrust + roll - pitch + yaw) * 0.25);
    assert_eq!(t4.0, (thrust - roll - pitch - yaw) * 0.25);
}

#[test]
fn apply_pwm_is_the_motor_layout() {
    let mut registry: ObjectManager<R> = ObjectManager::new();
    let tag = registry.push_object_tagged(make_object(0));
    let turn = Quaternion::from_vector(v(0.2, -0.1, 0.3, 0.0));
    registry.get_mut_object(&tag).rotation = turn;
    let (p1, p2, p3, p4) = (0.5f32, 1.25f32, 2.0f32, 0.75f32);
    apply_pwm(&mut registry, &tag, R(p1), R(p2), R(p3), R(p4));
    let m = turn.to_matrix();
    let force = m * (Vector::<R>::ey() * R(p1 + p2 + p3 + p4));
    let torque = m * v(-p1 + p2 + p3 - p4, p1 - p2 + p3 - p4, p1 + p2 - p3 - p4, 0.0);
    assert_eq!(parts(registry.pending_force(&tag)), parts(Vector::null() + force));
    assert_eq!(parts(registry.pending_torque(&tag)), parts(Vector::null() + torque));
}
