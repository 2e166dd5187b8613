//! Unit quaternions: the orientation of a body.
use crate::field::{
    field, lemma_axis_terms, lemma_distributes, lemma_factor_out, lemma_field_is_exact,
    lemma_lin_adds, lemma_lin_single, lemma_lin_takes, lemma_prod_commutes,
    lemma_prod_interchange, lemma_rotate, lemma_rotation_row,
};
use crate::matrix::Matrix;
use crate::scalar::{
    at_most, diff, exact, fraction, is_cos, is_sin, is_sqrt, less, num, number, one, prod, quot,
    ratio, regular, sum, zero, Scalar,
};
use crate::vector::{lemma_parallel_cross, Vector};
use core::ops::Mul;
use vstd::prelude::*;

verus! {

/// A quaternion `r + i·I + j·J + k·K`. One that stands for a rotation has
/// norm one, up to what [`Quaternion::unit`] allows.
#[derive(Clone, Copy)]
pub struct Quaternion<S> {
    pub r: S,
    pub i: S,
    pub j: S,
    pub k: S,
}

impl<S: Scalar> Quaternion<S> {
    /// The rotation by nothing.
    pub open spec fn identity_spec() -> Quaternion<S> {
        Quaternion { r: one(), i: zero(), j: zero(), k: zero() }
    }

    /// The sum of the squares of the four parts.
    pub open spec fn norm2(self) -> S {
        sum(
            sum(sum(prod(self.r, self.r), prod(self.i, self.i)), prod(self.j, self.j)),
            prod(self.k, self.k),
        )
    }

    /// The squared norm lies strictly between 0.9999 and 1.0001.
    pub open spec fn unit(self) -> bool {
        less(ratio::<S>(9999, 10000), self.norm2()) && less(self.norm2(), ratio::<S>(10001, 10000))
    }

    /// Every part over `len`.
    pub open spec fn shrunk(self, len: S) -> Quaternion<S> {
        Quaternion {
            r: quot(self.r, len),
            i: quot(self.i, len),
            j: quot(self.j, len),
            k: quot(self.k, len),
        }
    }

    /// `self` is `q` over a square root of the squared norm of `q`.
    pub open spec fn is_normalized(self, q: Quaternion<S>) -> bool {
        exists|len: S| #[trigger] is_sqrt(q.norm2(), len) && self == q.shrunk(len)
    }

    /// The Hamilton product: `self` applied after `rhs`.
    pub open spec fn times(self, rhs: Quaternion<S>) -> Quaternion<S> {
        Quaternion {
            r: diff(
                diff(diff(prod(self.r, rhs.r), prod(self.i, rhs.i)), prod(self.j, rhs.j)),
                prod(self.k, rhs.k),
            ),
            i: diff(
                sum(sum(prod(self.r, rhs.i), prod(self.i, rhs.r)), prod(self.j, rhs.k)),
                prod(self.k, rhs.j),
            ),
            j: diff(
                sum(sum(prod(self.r, rhs.j), prod(self.j, rhs.r)), prod(self.k, rhs.i)),
                prod(self.i, rhs.k),
            ),
            k: diff(
                sum(sum(prod(self.r, rhs.k), prod(self.k, rhs.r)), prod(self.i, rhs.j)),
                prod(self.j, rhs.i),
            ),
        }
    }

    /// The quaternion with the cosine `c` of half the angle as its real
    /// part and the axis `v / theta`, weighted by the sine `s`, as the rest.
    pub open spec fn about(v: Vector<S>, theta: S, c: S, s: S) -> Quaternion<S> {
        let axis = v.shrunk(theta);
        Quaternion { r: c, i: prod(s, axis.x), j: prod(s, axis.y), k: prod(s, axis.z) }
    }

    /// `self` is the rotation about `v` by the angle `theta`: the identity
    /// for an angle of zero or less, else built from a cosine and a sine of
    /// half the angle.
    pub open spec fn is_rotation_by(self, v: Vector<S>, theta: S) -> bool {
        if at_most(theta, zero()) {
            self == Self::identity_spec()
        } else {
            exists|c: S, s: S|
                {
                    &&& #[trigger] is_cos(quot(theta, num(2)), c)
                    &&& #[trigger] is_sin(quot(theta, num(2)), s)
                    &&& self == Self::about(v, theta, c, s)
                }
        }
    }

    /// `self` is the exponential of the rotation vector `v`: a rotation
    /// about `v` by an angle that is a length of `v`.
    pub open spec fn is_rotation(self, v: Vector<S>) -> bool {
        exists|theta: S| #[trigger] Vector::is_magnitude(v, theta) && self.is_rotation_by(v, theta)
    }

    /// The first column of the rotation matrix: where the body's first axis
    /// points.
    pub open spec fn column_x(self) -> Vector<S> {
        let q = self;
        Vector {
            x: diff(diff(sum(prod(q.r, q.r), prod(q.i, q.i)), prod(q.j, q.j)), prod(q.k, q.k)),
            y: prod(num(2), sum(prod(q.i, q.j), prod(q.r, q.k))),
            z: prod(num(2), diff(prod(q.i, q.k), prod(q.r, q.j))),
            w: zero(),
        }
    }

    /// The second column of the rotation matrix: where the body's up axis
    /// points.
    pub open spec fn column_y(self) -> Vector<S> {
        let q = self;
        Vector {
            x: prod(num(2), diff(prod(q.i, q.j), prod(q.r, q.k))),
            y: diff(sum(diff(prod(q.r, q.r), prod(q.i, q.i)), prod(q.j, q.j)), prod(q.k, q.k)),
            z: prod(num(2), sum(prod(q.j, q.k), prod(q.r, q.i))),
            w: zero(),
        }
    }

    /// The third column of the rotation matrix.
    pub open spec fn column_z(self) -> Vector<S> {
        let q = self;
        Vector {
            x: prod(num(2), sum(prod(q.i, q.k), prod(q.r, q.j))),
            y: prod(num(2), diff(prod(q.j, q.k), prod(q.r, q.i))),
            z: sum(diff(diff(prod(q.r, q.r), prod(q.i, q.i)), prod(q.j, q.j)), prod(q.k, q.k)),
            w: zero(),
        }
    }

    /// The rotation matrix: its first three columns say where the axes of
    /// the body point.
    pub open spec fn matrix(self) -> Matrix<S> {
        Matrix::of(
            self.column_x(),
            self.column_y(),
            self.column_z(),
            Vector { x: zero(), y: zero(), z: zero(), w: one() },
        )
    }

    /// The vector part: the axis of the rotation, as long as the sine of
    /// half its angle.
    pub open spec fn vector_part(self) -> Vector<S> {
        Vector { x: self.i, y: self.j, z: self.k, w: zero() }
    }

    /// What the rotation makes of the direction `u`, by the real part `r`
    /// and the vector part `w`: `u (r² - w·w) + (w × u) 2r + w (w·u) 2`.
    pub open spec fn rotated(self, u: Vector<S>) -> Vector<S> {
        let w = self.vector_part();
        u.scaled(diff(prod(self.r, self.r), Vector::dot_spec(w, w))).plus(
            Vector::cross_spec(w, u).scaled(prod(num(2), self.r)),
        ).plus(w.scaled(prod(Vector::dot_spec(w, u), num(2))))
    }

    /// The direction `u` turned about the unit axis `n` by the angle whose
    /// half has the cosine `c` and the sine `s`: the angle itself has the
    /// cosine `c² - s²` and the sine `2cs`, and one less its cosine is
    /// `2s²`, so that this is `u cos + (n × u) sin + n (n·u) (1 - cos)`.
    pub open spec fn turned_about(n: Vector<S>, u: Vector<S>, c: S, s: S) -> Vector<S> {
        u.scaled(diff(prod(c, c), prod(s, s))).plus(
            Vector::cross_spec(n, u).scaled(prod(num(2), prod(c, s))),
        ).plus(n.scaled(prod(Vector::dot_spec(n, u), prod(num(2), prod(s, s)))))
    }

    /// The vector `v` turned by the rotation.
    pub open spec fn turned(self, v: Vector<S>) -> Vector<S> {
        self.matrix().apply(v)
    }

    /// The rotation by nothing.
    pub fn identity() -> (q: Quaternion<S>)
        requires
            regular::<S>(),
        ensures
            q == Self::identity_spec(),
    {
        Quaternion { r: number(1), i: number(0), j: number(0), k: number(0) }
    }

    /// Whether the squared norm is within the tolerance that
    /// [`Quaternion::to_matrix`] asks for.
    pub fn is_unit(&self) -> (b: bool)
        requires
            regular::<S>(),
        ensures
            b == self.unit(),
    {
        let n = self.r * self.r + self.i * self.i + self.j * self.j + self.k * self.k;
        fraction::<S>(9999, 10000) < n && n < fraction::<S>(10001, 10000)
    }

    /// Divides the four parts by the norm.
    pub fn normalize(&mut self)
        requires
            regular::<S>(),
        ensures
            final(self).is_normalized(*old(self)),
    {
        let len = (self.r * self.r + self.i * self.i + self.j * self.j + self.k * self.k).sqrt();
        self.r = self.r / len;
        self.i = self.i / len;
        self.j = self.j / len;
        self.k = self.k / len;
        assert(is_sqrt(old(self).norm2(), len) && *self == old(self).shrunk(len));
    }

    /// The rotation about the direction `v` by an angle equal to its
    /// length; the identity where the length is zero or less.
    pub fn from_vector(v: Vector<S>) -> (q: Quaternion<S>)
        requires
            regular::<S>(),
            v.is_direction(),
        ensures
            q.is_rotation(v),
    {
        let theta = Vector::magnitude(v);
        if theta <= number(0) {
            let q = Quaternion::identity();
            assert(q.is_rotation_by(v, theta));
            return q;
        }
        let axis = v / theta;
        let half_theta = theta / number(2);
        let c = half_theta.cos();
        let s = half_theta.sin();
        let q = Quaternion { r: c, i: s * axis.x, j: s * axis.y, k: s * axis.z };
        assert(is_cos(quot(theta, num(2)), c) && is_sin(quot(theta, num(2)), s) && q == Self::about(
            v,
            theta,
            c,
            s,
        ));
        assert(q.is_rotation_by(v, theta));
        q
    }

    /// The rotation matrix of a unit quaternion.
    pub fn to_matrix(self) -> (m: Matrix<S>)
        requires
            regular::<S>(),
            self.unit(),
        ensures
            m == self.matrix(),
    {
        let two: S = number(2);
        Matrix(
            [
                Vector::new(
                    self.r * self.r + self.i * self.i - self.j * self.j - self.k * self.k,
                    two * (self.i * self.j + self.r * self.k),
                    two * (self.i * self.k - self.r * self.j),
                    number(0),
                ),
                Vector::new(
                    two * (self.i * self.j - self.r * self.k),
                    self.r * self.r - self.i * self.i + self.j * self.j - self.k * self.k,
                    two * (self.j * self.k + self.r * self.i),
                    number(0),
                ),
                Vector::new(
                    two * (self.i * self.k + self.r * self.j),
                    two * (self.j * self.k - self.r * self.i),
                    self.r * self.r - self.i * self.i - self.j * self.j + self.k * self.k,
                    number(0),
                ),
                Vector::new(number(0), number(0), number(0), number(1)),
            ],
        )
    }
}

impl<S: Scalar> Mul for Quaternion<S> {
    type Output = Quaternion<S>;

    fn mul(self, rhs: Quaternion<S>) -> (q: Quaternion<S>) {
        Quaternion {
            r: self.r * rhs.r - self.i * rhs.i - self.j * rhs.j - self.k * rhs.k,
            i: self.r * rhs.i + self.i * rhs.r + self.j * rhs.k - self.k * rhs.j,
            j: self.r * rhs.j + self.j * rhs.r + self.k * rhs.i - self.i * rhs.k,
            k: self.r * rhs.k + self.k * rhs.r + self.i * rhs.j - self.j * rhs.i,
        }
    }
}

impl<S: Scalar> vstd::std_specs::ops::MulSpecImpl for Quaternion<S> {
    open spec fn obeys_mul_spec() -> bool {
        true
    }

    open spec fn mul_req(self, rhs: Quaternion<S>) -> bool {
        regular::<S>()
    }

    open spec fn mul_spec(self, rhs: Quaternion<S>) -> Quaternion<S> {
        self.times(rhs)
    }
}

/// The identity turns nothing: its matrix is the identity matrix, and a
/// product with it is the other factor.
pub proof fn lemma_identity_turns_nothing<S: Scalar>(q: Quaternion<S>)
    requires
        exact::<S>(),
    ensures
        Quaternion::<S>::identity_spec().matrix() == Matrix::<S>::identity_spec(),
        Quaternion::<S>::identity_spec().times(q) == q,
        q.times(Quaternion::<S>::identity_spec()) == q,
{
    let i = Quaternion::<S>::identity_spec();
    assert(i.column_x() == (Vector { x: one::<S>(), y: zero(), z: zero(), w: zero() }));
    assert(i.column_y() == (Vector { x: zero::<S>(), y: one(), z: zero(), w: zero() }));
    assert(i.column_z() == (Vector { x: zero::<S>(), y: zero(), z: one(), w: zero() }));
}

/// The rotation formula: the matrix of a quaternion with the real part `r`
/// and the vector part `w` makes `u (r² - w·w) + (w × u) 2r + w (w·u) 2` of
/// a direction `u`.
pub proof fn lemma_matrix_rotates<S: Scalar>(q: Quaternion<S>, u: Vector<S>)
    requires
        regular::<S>(),
        field::<S>(),
        u.is_direction(),
    ensures
        q.matrix().apply(u) == q.rotated(u),
{
    lemma_field_is_exact::<S>();
    let (rr, ii, jj, kk) = (prod(q.r, q.r), prod(q.i, q.i), prod(q.j, q.j), prod(q.k, q.k));
    let w = q.vector_part();
    let ww = Vector::dot_spec(w, w);
    let d = Vector::dot_spec(w, u);
    let m = q.matrix();
    let turned = m.apply(u);
    let goal = q.rotated(u);

    // the first row
    assert(turned.x == goal.x) by {
        let a4 = (rr, ii, jj, kk);
        lemma_lin_single(a4, 1);
        lemma_lin_adds(a4, (1, 0, 0, 0), (0, 1, 0, 0));
        lemma_lin_takes(a4, (1, 1, 0, 0), (0, 0, 1, 0));
        lemma_lin_takes(a4, (1, 1, -1, 0), (0, 0, 0, 1));
        lemma_lin_adds(a4, (0, 1, 0, 0), (0, 0, 1, 0));
        lemma_lin_adds(a4, (0, 1, 1, 0), (0, 0, 0, 1));
        lemma_rotation_row(
            q.r,
            (q.i, q.j, q.k),
            (u.x, u.y, u.z),
            q.column_x().x,
            q.column_y().x,
            q.column_z().x,
            ww,
            d,
        );
    }
    // the second row
    assert(turned.y == goal.y) by {
        let a4 = (rr, jj, kk, ii);
        lemma_lin_single(a4, 1);
        lemma_lin_takes(a4, (1, 0, 0, 0), (0, 0, 0, 1));
        lemma_lin_adds(a4, (1, 0, 0, -1), (0, 1, 0, 0));
        lemma_lin_takes(a4, (1, 1, 0, -1), (0, 0, 1, 0));
        lemma_lin_adds(a4, (0, 0, 0, 1), (0, 1, 0, 0));
        lemma_lin_adds(a4, (0, 1, 0, 1), (0, 0, 1, 0));
        lemma_prod_commutes(q.i, q.j);
        lemma_rotate(prod(q.i, u.x), prod(q.j, u.y), prod(q.k, u.z));
        let dy = sum(sum(prod(q.j, u.y), prod(q.k, u.z)), prod(q.i, u.x));
        lemma_rotation_row(
            q.r,
            (q.j, q.k, q.i),
            (u.y, u.z, u.x),
            q.column_y().y,
            q.column_z().y,
            q.column_x().y,
            ww,
            dy,
        );
        lemma_rotate(
            prod(q.column_x().y, u.x),
            prod(q.column_y().y, u.y),
            prod(q.column_z().y, u.z),
        );
    }
    // the third row
    assert(turned.z == goal.z) by {
        let a4 = (rr, kk, ii, jj);
        lemma_lin_single(a4, 1);
        lemma_lin_takes(a4, (1, 0, 0, 0), (0, 0, 1, 0));
        lemma_lin_takes(a4, (1, 0, -1, 0), (0, 0, 0, 1));
        lemma_lin_adds(a4, (1, 0, -1, -1), (0, 1, 0, 0));
        lemma_lin_adds(a4, (0, 0, 1, 0), (0, 0, 0, 1));
        lemma_lin_adds(a4, (0, 0, 1, 1), (0, 1, 0, 0));
        lemma_prod_commutes(q.i, q.k);
        lemma_prod_commutes(q.j, q.k);
        lemma_rotate(prod(q.i, u.x), prod(q.j, u.y), prod(q.k, u.z));
        let dz = sum(sum(prod(q.k, u.z), prod(q.i, u.x)), prod(q.j, u.y));
        lemma_rotation_row(
            q.r,
            (q.k, q.i, q.j),
            (u.z, u.x, u.y),
            q.column_z().z,
            q.column_x().z,
            q.column_y().z,
            ww,
            dz,
        );
        lemma_rotate(
            prod(q.column_x().z, u.x),
            prod(q.column_y().z, u.y),
            prod(q.column_z().z, u.z),
        );
    }
    assert(turned.w == goal.w);
}

/// Rotation round trip: the matrix of the quaternion that
/// [`Quaternion::from_vector`] builds for the rotation vector `v` of the
/// length `theta`, from the cosine `c` and the sine `s` of half the angle,
/// turns a direction `u` about the axis `v / theta` as
/// [`Quaternion::turned_about`] says, where that axis has the length one.
/// Where `c² + s²` is one as well, the axis stays where it is, and `2s²` is
/// one less the cosine `c² - s²`.
pub proof fn lemma_rotation_round_trip<S: Scalar>(
    v: Vector<S>,
    theta: S,
    c: S,
    s: S,
    u: Vector<S>,
)
    requires
        regular::<S>(),
        field::<S>(),
        v.is_direction(),
        u.is_direction(),
        theta != zero::<S>(),
        Vector::dot_spec(v.shrunk(theta), v.shrunk(theta)) == one::<S>(),
    ensures
        Quaternion::about(v, theta, c, s).matrix().apply(u) == Quaternion::turned_about(
            v.shrunk(theta),
            u,
            c,
            s,
        ),
        sum(prod(c, c), prod(s, s)) == one::<S>() ==> {
            &&& Quaternion::about(v, theta, c, s).matrix().apply(v.shrunk(theta)) == v.shrunk(
                theta,
            )
            &&& prod(num(2), prod(s, s)) == diff(one(), diff(prod(c, c), prod(s, s)))
        },
{
    lemma_field_is_exact::<S>();
    let n = v.shrunk(theta);
    let q = Quaternion::about(v, theta, c, s);
    lemma_axis_turns(n, c, s, u);
    lemma_axis_turns(n, c, s, n);
    if sum(prod(c, c), prod(s, s)) == one::<S>() {
        let (cc, ss) = (prod(c, c), prod(s, s));
        let two = num::<S>(2);
        let a4 = (cc, ss, zero::<S>(), zero::<S>());
        lemma_lin_single(a4, 1);
        lemma_lin_single(a4, 2);
        lemma_lin_adds(a4, (1, 0, 0, 0), (0, 1, 0, 0));
        lemma_lin_takes(a4, (1, 0, 0, 0), (0, 1, 0, 0));
        lemma_lin_takes(a4, (1, 1, 0, 0), (1, -1, 0, 0));
        lemma_lin_adds(a4, (1, -1, 0, 0), (0, 2, 0, 0));
        lemma_prod_commutes(two, ss);
        let cosine = diff(cc, ss);
        let versine = prod(two, ss);
        assert(versine == diff(one::<S>(), cosine));
        assert(sum(cosine, versine) == one::<S>());
        // n × n is null, and n·n is one
        lemma_parallel_cross(n, one::<S>());
        assert(n.scaled(one::<S>()) == n);
        lemma_distributes(n.x, cosine, versine);
        lemma_distributes(n.y, cosine, versine);
        lemma_distributes(n.z, cosine, versine);
        assert(q.matrix().apply(n) == n);
    }
}

/// The rotation formula for a vector part that is the unit axis `n` times
/// `s`.
proof fn lemma_axis_turns<S: Scalar>(n: Vector<S>, c: S, s: S, u: Vector<S>)
    requires
        exact::<S>(),
        field::<S>(),
        regular::<S>(),
        n.is_direction(),
        u.is_direction(),
        Vector::dot_spec(n, n) == one::<S>(),
    ensures
        (Quaternion { r: c, i: prod(s, n.x), j: prod(s, n.y), k: prod(s, n.z) }).matrix().apply(u)
            == Quaternion::turned_about(n, u, c, s),
{
    let q = Quaternion { r: c, i: prod(s, n.x), j: prod(s, n.y), k: prod(s, n.z) };
    let w = q.vector_part();
    lemma_matrix_rotates(q, u);
    // w·w is s²
    lemma_prod_interchange(s, n.x, s, n.x);
    lemma_prod_interchange(s, n.y, s, n.y);
    lemma_prod_interchange(s, n.z, s, n.z);
    lemma_distributes(prod(s, s), prod(n.x, n.x), prod(n.y, n.y));
    lemma_distributes(prod(s, s), sum(prod(n.x, n.x), prod(n.y, n.y)), prod(n.z, n.z));
    assert(Vector::dot_spec(w, w) == prod(s, s));
    // w·u is s (n·u), and w × u is s (n × u)
    lemma_factor_out(s, (n.x, n.y, n.z), (u.x, u.y, u.z));
    lemma_factor_out(s, (n.y, n.z, n.x), (u.z, u.y, u.x));
    lemma_factor_out(s, (n.z, n.x, n.y), (u.x, u.z, u.y));
    lemma_factor_out(s, (n.x, n.y, n.z), (u.y, u.x, u.z));
    let dn = Vector::dot_spec(n, u);
    let cn = Vector::cross_spec(n, u);
    assert(Vector::dot_spec(w, u) == prod(s, dn));
    assert(Vector::cross_spec(w, u).x == prod(s, cn.x));
    assert(Vector::cross_spec(w, u).y == prod(s, cn.y));
    assert(Vector::cross_spec(w, u).z == prod(s, cn.z));
    lemma_axis_terms(s, c, n.x, dn, cn.x);
    lemma_axis_terms(s, c, n.y, dn, cn.y);
    lemma_axis_terms(s, c, n.z, dn, cn.z);
}

} // verus!
