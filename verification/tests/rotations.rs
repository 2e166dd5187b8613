use drone_sim::scalar::Scalar;
use std::ops::{Add, Div, Mul, Neg, Sub};

/// The scalar of these tests: a single-precision float.
#[derive(Clone, Copy, Debug, PartialEq, PartialOrd)]
struct R(f32);

impl Add for R {
    type Output = R;
    fn add(self, rhs: R) -> R {
        R(self.0 + rhs.0)
    }
}

impl Sub for R {
    type Output = R;
    fn sub(self, rhs: R) -> R {
        R(self.0 - rhs.0)
    }
}

impl Mul for R {
    type Output = R;
    fn mul(self, rhs: R) -> R {
        R(self.0 * rhs.0)
    }
}

impl Div for R {
    type Output = R;
    fn div(self, rhs: R) -> R {
        R(self.0 / rhs.0)
    }
}

impl Neg for R {
    type Output = R;
    fn neg(self) -> R {
        R(-self.0)
    }
}

impl From<i16> for R {
    fn from(n: i16) -> R {
        R(f32::from(n))
    }
}

impl Scalar for R {
    fn sqrt(self) -> R {
        R(self.0.sqrt())
    }
    fn sin(self) -> R {
        R(self.0.sin())
    }
    fn cos(self) -> R {
        R(self.0.cos())
    }
    fn acos(self) -> R {
        R(self.0.acos())
    }
    fn is_finite(self) -> bool {
        self.0.is_finite()
    }
}

fn v(x: f32, y: f32, z: f32, w: f32) -> Vector<R> {
    Vector::new(R(x), R(y), R(z), R(w))
}

fn close(a: R, b: f32, tolerance: f32) -> bool {
    (a.0 - b).abs() <= tolerance
}

fn close_to(a: Vector<R>, b: (f32, f32, f32, f32), tolerance: f32) -> bool {
    close(a.x, b.0, tolerance)
        && close(a.y, b.1, tolerance)
        && close(a.z, b.2, tolerance)
        && close(a.w, b.3, tolerance)
}

fn parts(a: Vector<R>) -> (f32, f32, f32, f32) {
    (a.x.0, a.y.0, a.z.0, a.w.0)
}

use drone_sim::matrix::Matrix;
use drone_sim::quaternion::Quaternion;
use drone_sim::vector::Vector;
use std::f32::consts::{FRAC_PI_2, PI};

fn q(r: f32, i: f32, j: f32, k: f32) -> Quaternion<R> {
    Quaternion { r: R(r), i: R(i), j: R(j), k: R(k) }
}

fn q_parts(a: Quaternion<R>) -> (f32, f32, f32, f32) {
    (a.r.0, a.i.0, a.j.0, a.k.0)
}

fn q_close(a: Quaternion<R>, b: (f32, f32, f32, f32), tolerance: f32) -> bool {
    close(a.r, b.0, tolerance)
        && close(a.i, b.1, tolerance)
        && close(a.j, b.2, tolerance)
        && close(a.k, b.3, tolerance)
}

fn flat(m: Matrix<R>) -> [[f32; 4]; 4] {
    let d = m.data();
    let mut out = [[0.0f32; 4]; 4];
    for n in 0..4 {
        for k in 0..4 {
            out[n][k] = d[n][k].0;
        }
    }
    out
}

#[test]
fn identity_matrix_changes_nothing() {
    let m = Matrix::<R>::identity();
    assert_eq!(
        flat(m),
        [[1.0, 0.0, 0.0, 0.0], [0.0, 1.0, 0.0, 0.0], [0.0, 0.0, 1.0, 0.0], [0.0, 0.0, 0.0, 1.0]]
    );
    assert_eq!(parts(m * v(1.0, 2.0, 3.0, 1.0)), (1.0, 2.0, 3.0, 1.0));
    assert_eq!(parts(m.transform(v(1.0, 2.0, 3.0, 0.0))), (1.0, 2.0, 3.0, 0.0));
}

#[test]
fn scaling_leaves_the_tag() {
    let m = Matrix::scaling(R(2.0));
    assert_eq!(
        flat(m),
        [[2.0, 0.0, 0.0, 0.0], [0.0, 2.0, 0.0, 0.0], [0.0, 0.0, 2.0, 0.0], [0.0, 0.0, 0.0, 1.0]]
    );
    assert_eq!(parts(m * v(1.0, 2.0, 3.0, 1.0)), (2.0, 4.0, 6.0, 1.0));
}

#[test]
fn translation_moves_positions_only() {
    let m = Matrix::translation(v(10.0, 20.0, 30.0, 0.0));
    assert_eq!(parts(m * v(1.0, 2.0, 3.0, 1.0)), (11.0, 22.0, 33.0, 1.0));
    assert_eq!(parts(m * v(1.0, 2.0, 3.0, 0.0)), (1.0, 2.0, 3.0, 0.0));
    // a position as the argument gives the same transform
    let same = Matrix::translation(v(10.0, 20.0, 30.0, 1.0));
    assert_eq!(flat(m), flat(same));
    assert_eq!(flat(m)[3], [10.0, 20.0, 30.0, 1.0]);
}

#[test]
fn pos_to_vector_clears_the_tag() {
    let m = Matrix::<R>::pos_to_vector();
    assert_eq!(parts(m * v(1.0, 2.0, 3.0, 1.0)), (1.0, 2.0, 3.0, 0.0));
}

#[test]
fn data_is_laid_out_by_columns() {
    let m = Matrix([
        v(1.0, 2.0, 3.0, 4.0),
        v(5.0, 6.0, 7.0, 8.0),
        v(9.0, 10.0, 11.0, 12.0),
        v(13.0, 14.0, 15.0, 16.0),
    ]);
    assert_eq!(
        flat(m),
        [
            [1.0, 2.0, 3.0, 4.0],
            [5.0, 6.0, 7.0, 8.0],
            [9.0, 10.0, 11.0, 12.0],
            [13.0, 14.0, 15.0, 16.0]
        ]
    );
    // the matrix applied to the first axis is its first column
    assert_eq!(parts(m * v(1.0, 0.0, 0.0, 0.0)), (1.0, 2.0, 3.0, 4.0));
    assert_eq!(parts(m * v(0.0, 0.0, 0.0, 1.0)), (13.0, 14.0, 15.0, 16.0));
    assert_eq!(parts(m * v(1.0, 1.0, 1.0, 1.0)), (28.0, 32.0, 36.0, 40.0));
}

#[test]
fn a_product_applies_its_right_factor_first() {
    let t = Matrix::translation(v(10.0, 0.0, 0.0, 0.0));
    let s = Matrix::scaling(R(2.0));
    let p = v(1.0, 1.0, 1.0, 1.0);
    // scale, then move
    assert_eq!(parts((t * s) * p), (12.0, 2.0, 2.0, 1.0));
    assert_eq!(parts(t.compose(s) * p), parts(t * (s * p)));
    // move, then scale
    assert_eq!(parts((s * t) * p), (22.0, 2.0, 2.0, 1.0));
    assert_eq!(parts(s.compose(t) * p), parts(s * (t * p)));
}

#[test]
fn identity_quaternion_gives_the_identity_matrix() {
    let i = Quaternion::<R>::identity();
    assert_eq!(q_parts(i), (1.0, 0.0, 0.0, 0.0));
    assert!(i.is_unit());
    assert_eq!(flat(i.to_matrix()), flat(Matrix::<R>::identity()));
}

#[test]
fn is_unit_has_a_narrow_tolerance() {
    assert!(q(1.0, 0.0, 0.0, 0.0).is_unit());
    assert!(q(0.5, 0.5, 0.5, 0.5).is_unit());
    assert!(!q(0.99, 0.0, 0.0, 0.0).is_unit());
    assert!(!q(1.01, 0.0, 0.0, 0.0).is_unit());
    assert!(!q(0.0, 0.0, 0.0, 0.0).is_unit());
    assert!(!q(f32::NAN, 0.0, 0.0, 0.0).is_unit());
}

#[test]
fn normalize_divides_by_the_norm() {
    let mut a = q(2.0, 0.0, 0.0, 0.0);
    a.normalize();
    assert_eq!(q_parts(a), (1.0, 0.0, 0.0, 0.0));
    let mut b = q(1.0, 2.0, 3.0, 4.0);
    b.normalize();
    let root = 30.0f32.sqrt();
    assert!(q_close(b, (1.0 / root, 2.0 / root, 3.0 / root, 4.0 / root), 1e-6));
    assert!(b.is_unit());
}

#[test]
fn from_vector_of_no_rotation_is_the_identity() {
    let z = Quaternion::from_vector(Vector::<R>::null());
    assert_eq!(q_parts(z), (1.0, 0.0, 0.0, 0.0));
}

#[test]
fn from_vector_takes_half_the_angle() {
    let a = Quaternion::from_vector(v(0.0, 0.0, FRAC_PI_2, 0.0));
    let h = (0.5f32).sqrt();
    assert!(q_close(a, (h, 0.0, 0.0, h), 1e-6));
    let b = Quaternion::from_vector(v(1.0, 0.0, 0.0, 0.0));
    assert!(q_close(b, (0.5f32.cos(), 0.5f32.sin(), 0.0, 0.0), 1e-6));
}

#[test]
fn rotation_round_trip() {
    // a quarter turn about the second axis takes the first axis to minus the third
    let quarter = Quaternion::from_vector(v(0.0, FRAC_PI_2, 0.0, 0.0));
    assert!(close_to(quarter.to_matrix() * Vector::<R>::ex(), (0.0, 0.0, -1.0, 0.0), 1e-6));
    assert!(close_to(quarter.to_matrix() * Vector::<R>::ez(), (1.0, 0.0, 0.0, 0.0), 1e-6));
    assert!(close_to(quarter.to_matrix() * Vector::<R>::ey(), (0.0, 1.0, 0.0, 0.0), 1e-6));

    // a third of a turn about the diagonal permutes the axes
    let angle = 2.0 * PI / 3.0;
    let k = angle / 3.0f32.sqrt();
    let third = Quaternion::from_vector(v(k, k, k, 0.0));
    let m = third.to_matrix();
    assert!(close_to(m * Vector::<R>::ex(), (0.0, 1.0, 0.0, 0.0), 1e-6));
    assert!(close_to(m * Vector::<R>::ey(), (0.0, 0.0, 1.0, 0.0), 1e-6));
    assert!(close_to(m * Vector::<R>::ez(), (1.0, 0.0, 0.0, 0.0), 1e-6));

    // any rotation vector shorter than a half turn: the reference vector
    // turns by the length of the vector about its direction
    let vectors = [(0.3f32, -0.2f32, 0.5f32), (1.0, 2.0, -1.5), (-2.0, 0.1, 0.4), (0.0, 0.0, 3.0)];
    for (x, y, z) in vectors {
        let rv = v(x, y, z, 0.0);
        let theta = Vector::magnitude(rv).0;
        assert!(theta < PI);
        let axis = Vector::normalize(rv).unwrap();
        let m = Quaternion::from_vector(rv).to_matrix();
        // the axis stays
        assert!(close_to(m * axis, parts(axis), 1e-5));
        // a vector perpendicular to the axis turns by theta, and keeps its length
        let reference = Vector::normalize(Vector::cross(axis, v(0.3, 0.9, -0.2, 0.0))).unwrap();
        let turned = m * reference;
        assert!(close(Vector::magnitude(turned), 1.0, 1e-5));
        assert!(close(Vector::angle(reference, turned).unwrap(), theta, 1e-3));
        // and it turns the right way round
        let way = Vector::dot(Vector::cross(reference, turned), axis);
        assert!(close(way, theta.sin(), 1e-5));
    }
}

#[test]
fn hamilton_product() {
    let i = q(0.0, 1.0, 0.0, 0.0);
    let j = q(0.0, 0.0, 1.0, 0.0);
    let k = q(0.0, 0.0, 0.0, 1.0);
    assert_eq!(q_parts(i * j), (0.0, 0.0, 0.0, 1.0));
    assert_eq!(q_parts(j * i), (0.0, 0.0, 0.0, -1.0));
    assert_eq!(q_parts(j * k), (0.0, 1.0, 0.0, 0.0));
    assert_eq!(q_parts(k * i), (0.0, 0.0, 1.0, 0.0));
    assert_eq!(q_parts(i * i), (-1.0, 0.0, 0.0, 0.0));
    let a = q(1.0, 2.0, 3.0, 4.0);
    let b = q(5.0, 6.0, 7.0, 8.0);
    assert_eq!(q_parts(a * b), (-60.0, 12.0, 30.0, 24.0));
    assert_eq!(q_parts(a * Quaternion::<R>::identity()), q_parts(a));
}

#[test]
fn the_left_factor_of_a_product_turns_last() {
    let about_x = Quaternion::from_vector(v(FRAC_PI_2, 0.0, 0.0, 0.0));
    let about_y = Quaternion::from_vector(v(0.0, FRAC_PI_2, 0.0, 0.0));
    let both = about_x * about_y;
    let one_by_one = about_x.to_matrix() * (about_y.to_matrix() * Vector::<R>::ex());
    assert!(close_to(both.to_matrix() * Vector::<R>::ex(), parts(one_by_one), 1e-6));
    // about y first: ex goes to -ez, which about x goes to ey
    assert!(close_to(one_by_one, (0.0, 1.0, 0.0, 0.0), 1e-6));
    let other = about_y * about_x;
    assert!(close_to(other.to_matrix() * Vector::<R>::ex(), (0.0, 0.0, -1.0, 0.0), 1e-6));
}

#[test]
fn to_matrix_of_from_vector_is_the_rotation_about_the_vector() {
    let vectors = [
        (0.3f32, -0.2f32, 0.5f32),
        (1.0, 2.0, -1.5),
        (-2.0, 0.1, 0.4),
        (0.0, 0.0, 3.0),
        (1e-3, 0.0, 0.0),
        (0.0, -3.1, 0.0),
    ];
    let directions = [(1.0f32, 0.0f32, 0.0f32), (0.0, 1.0, 0.0), (0.3, 0.9, -0.2), (-0.6, 0.0, 0.8)];
    for (x, y, z) in vectors {
        let rv = v(x, y, z, 0.0);
        let theta = Vector::magnitude(rv).0;
        assert!(0.0 < theta && theta < PI);
        let k = Vector::normalize(rv).unwrap();
        let m = Quaternion::from_vector(rv).to_matrix();
        for (a, b, c) in directions {
            let u = v(a, b, c, 0.0);
            let expected = u * R(theta.cos())
                + Vector::cross(k, u) * R(theta.sin())
                + k * R(Vector::dot(k, u).0 * (1.0 - theta.cos()));
            let turned = m * u;
            assert!(close_to(turned, parts(expected), 1e-5));
            assert_eq!(turned.w, R(0.0));
        }
        // the axis stays where it is
        assert!(close_to(m * rv, (x, y, z, 0.0), 1e-5));
    }
}
