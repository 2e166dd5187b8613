use drone_sim::scalar::Scalar;
use std::ops::{Add, Div, Mul, Neg, Sub};

/// The scalar of these tests: a single-precision float.
#[derive(Clone, Copy, Debug, PartialEq, PartialOrd)]
struct R(f32);

impl Add for R {
    type Output = R;
    fn add(self, rhs: R) -> R {
        R(self.0 + rhs.0)
    }
}

impl Sub for R {
    type Output = R;
    fn sub(self, rhs: R) -> R {
        R(self.0 - rhs.0)
    }
}

impl Mul for R {
    type Output = R;
    fn mul(self, rhs: R) -> R {
        R(self.0 * rhs.0)
    }
}

impl Div for R {
    type Output = R;
    fn div(self, rhs: R) -> R {
        R(self.0 / rhs.0)
    }
}

impl Neg for R {
    type Output = R;
    fn neg(self) -> R {
        R(-self.0)
    }
}

impl From<i16> for R {
    fn from(n: i16) -> R {
        R(f32::from(n))
    }
}

impl Scalar for R {
    fn sqrt(self) -> R {
        R(self.0.sqrt())
    }
    fn sin(self) -> R {
        R(self.0.sin())
    }
    fn cos(self) -> R {
        R(self.0.cos())
    }
    fn acos(self) -> R {
        R(self.0.acos())
    }
    fn is_finite(self) -> bool {
        self.0.is_finite()
    }
}

fn v(x: f32, y: f32, z: f32, w: f32) -> Vector<R> {
    Vector::new(R(x), R(y), R(z), R(w))
}

fn close(a: R, b: f32, tolerance: f32) -> bool {
    (a.0 - b).abs() <= tolerance
}

fn close_to(a: Vector<R>, b: (f32, f32, f32, f32), tolerance: f32) -> bool {
    close(a.x, b.0, tolerance)
        && close(a.y, b.1, tolerance)
        && close(a.z, b.2, tolerance)
        && close(a.w, b.3, tolerance)
}

fn parts(a: Vector<R>) -> (f32, f32, f32, f32) {
    (a.x.0, a.y.0, a.z.0, a.w.0)
}

use drone_sim::scalar::{fraction, absolute, number};
use drone_sim::vector::Vector;
use std::f32::consts::{FRAC_PI_2, PI};

#[test]
fn number_and_fraction_make_the_constants() {
    assert_eq!(number::<R>(-25), R(-25.0));
    assert_eq!(number::<R>(600), R(600.0));
    assert_eq!(fraction::<R>(1, 4), R(0.25));
    assert_eq!(fraction::<R>(1, 1000), R(0.001));
    assert_eq!(fraction::<R>(9999, 10000), R(0.9999));
    assert_eq!(fraction::<R>(10001, 10000), R(1.0001));
}

#[test]
fn absolute_takes_the_sign_away() {
    assert_eq!(absolute(R(-2.5)), R(2.5));
    assert_eq!(absolute(R(2.5)), R(2.5));
    assert_eq!(absolute(R(0.0)), R(0.0));
}

#[test]
fn axes_null_and_origin() {
    assert_eq!(parts(Vector::<R>::ex()), (1.0, 0.0, 0.0, 0.0));
    assert_eq!(parts(Vector::<R>::ey()), (0.0, 1.0, 0.0, 0.0));
    assert_eq!(parts(Vector::<R>::ez()), (0.0, 0.0, 1.0, 0.0));
    assert_eq!(parts(Vector::<R>::null()), (0.0, 0.0, 0.0, 0.0));
    assert_eq!(parts(Vector::<R>::origin()), (0.0, 0.0, 0.0, 1.0));
}

#[test]
fn tags_are_set_and_nothing_else() {
    let p = v(1.0, 2.0, 3.0, 7.0);
    assert_eq!(parts(p.to_translation()), (1.0, 2.0, 3.0, 0.0));
    assert_eq!(parts(p.to_position()), (1.0, 2.0, 3.0, 1.0));
}

#[test]
fn is_finite_asks_all_four_components() {
    assert!(v(1.0, 2.0, 3.0, 0.0).is_finite());
    assert!(!v(f32::INFINITY, 2.0, 3.0, 0.0).is_finite());
    assert!(!v(1.0, f32::NAN, 3.0, 0.0).is_finite());
    assert!(!v(1.0, 2.0, f32::NEG_INFINITY, 0.0).is_finite());
    assert!(!v(1.0, 2.0, 3.0, f32::NAN).is_finite());
}

#[test]
fn dot_of_two_directions() {
    let d = Vector::dot(v(1.0, 2.0, 3.0, 0.0), v(4.0, 5.0, 6.0, 0.0));
    assert_eq!(d, R(32.0));
}

#[test]
fn cross_follows_the_right_hand() {
    let ex = Vector::<R>::ex();
    let ey = Vector::<R>::ey();
    let ez = Vector::<R>::ez();
    assert_eq!(parts(Vector::cross(ex, ey)), (0.0, 0.0, 1.0, 0.0));
    assert_eq!(parts(Vector::cross(ey, ez)), (1.0, 0.0, 0.0, 0.0));
    assert_eq!(parts(Vector::cross(ez, ex)), (0.0, 1.0, 0.0, 0.0));
    assert_eq!(parts(Vector::cross(ey, ex)), (0.0, 0.0, -1.0, 0.0));
    let c = Vector::cross(v(1.0, 2.0, 3.0, 0.0), v(4.0, 5.0, 6.0, 0.0));
    assert_eq!(parts(c), (-3.0, 6.0, -3.0, 0.0));
}

#[test]
fn magnitude_is_the_root_of_the_squares() {
    assert_eq!(Vector::magnitude(v(3.0, 4.0, 0.0, 0.0)), R(5.0));
    assert_eq!(Vector::magnitude(v(0.0, 0.0, 0.0, 0.0)), R(0.0));
}

#[test]
fn normalize_divides_by_the_length() {
    let n = Vector::normalize(v(3.0, 4.0, 0.0, 0.0)).unwrap();
    assert!(close_to(n, (0.6, 0.8, 0.0, 0.0), 1e-6));
}

#[test]
fn normalize_of_the_null_vector_is_nothing() {
    assert!(Vector::normalize(Vector::<R>::null()).is_none());
}

#[test]
fn cos_angle_is_clamped() {
    let a = v(0.1, 0.2, 0.3, 0.0);
    let same = Vector::cos_angle(a, a).unwrap();
    assert!(same.0 <= 1.0);
    assert!(close(same, 1.0, 1e-6));
    let opposite = Vector::cos_angle(a, -a).unwrap();
    assert!(opposite.0 >= -1.0);
    assert!(close(opposite, -1.0, 1e-6));
    assert_eq!(Vector::cos_angle(Vector::<R>::ex(), Vector::<R>::ey()), Some(R(0.0)));
}

#[test]
fn angle_between_directions() {
    let right = Vector::angle(Vector::<R>::ex(), Vector::<R>::ey()).unwrap();
    assert!(close(right, FRAC_PI_2, 1e-6));
    let none = Vector::angle(v(2.0, 0.0, 0.0, 0.0), v(5.0, 0.0, 0.0, 0.0)).unwrap();
    assert_eq!(none, R(0.0));
    let half_turn = Vector::angle(v(2.0, 0.0, 0.0, 0.0), v(-5.0, 0.0, 0.0, 0.0)).unwrap();
    assert!(close(half_turn, PI, 1e-6));
    let a = v(0.1, 0.2, 0.3, 0.0);
    assert!(Vector::angle(a, a).unwrap().0.is_finite());
}

#[test]
fn angle_with_the_null_vector_is_nothing() {
    assert!(Vector::angle(Vector::<R>::null(), Vector::<R>::ex()).is_none());
    assert!(Vector::angle(Vector::<R>::ex(), Vector::<R>::null()).is_none());
    assert!(Vector::cos_angle(Vector::<R>::null(), Vector::<R>::null()).is_none());
}

#[test]
fn operators_work_on_all_four_components() {
    let a = v(1.0, 2.0, 3.0, 1.0);
    let b = v(10.0, 20.0, 30.0, 1.0);
    assert_eq!(parts(a + b), (11.0, 22.0, 33.0, 2.0));
    assert_eq!(parts(b - a), (9.0, 18.0, 27.0, 0.0));
    assert_eq!(parts(a * R(2.0)), (2.0, 4.0, 6.0, 2.0));
    assert_eq!(parts(b / R(10.0)), (1.0, 2.0, 3.0, 0.1));
    assert_eq!(parts(-a), (-1.0, -2.0, -3.0, -1.0));
}

#[test]
fn random_unitvector_lies_on_the_unit_sphere() {
    let draws = [(0.0f32, 0.0f32), (1.0, 0.5), (3.0, -0.9), (6.0, 1.0), (2.5, -1.0)];
    for (phi, u) in draws {
        let r = Vector::random_unitvector(R(phi), R(u));
        assert_eq!(r.y, R(u));
        assert_eq!(r.w, R(0.0));
        assert!(close(Vector::magnitude(r), 1.0, 1e-6));
    }
    let r = Vector::random_unitvector(R(FRAC_PI_2), R(0.0));
    assert!(close_to(r, (1.0, 0.0, 0.0, 0.0), 1e-6));
    let r = Vector::random_unitvector(R(0.0), R(0.6));
    assert!(close_to(r, (0.0, 0.6, 0.8, 0.0), 1e-6));
}

#[test]
fn offset_tilts_by_about_theta() {
    let up = v(0.0, 2.0, 0.0, 0.0);
    let r = Vector::offset(up, Vector::<R>::ex(), R(0.05)).unwrap();
    assert!(close(Vector::magnitude(r), 1.0, 1e-6));
    let tilt = Vector::angle(up, r).unwrap();
    assert!(close(tilt, 0.05f32.atan(), 1e-4));
    // ex × up points along the third axis
    assert!(r.z.0 > 0.0);
    assert_eq!(r.x, R(0.0));
}

#[test]
fn offset_needs_directions() {
    assert!(Vector::offset(Vector::<R>::null(), Vector::<R>::ex(), R(0.05)).is_none());
    // a random vector along v has no vector product with it
    assert!(Vector::offset(Vector::<R>::ey(), Vector::<R>::ey(), R(0.05)).is_none());
}
