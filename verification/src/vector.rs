//! Homogeneous vectors of four components.
//!
//! The fourth component is a tag, not geometry: zero marks a direction or
//! translation, one marks a position, and a control point of a trajectory
//! keeps its time there.
use crate::scalar::{
    diff, exact, is_acos, is_cos, is_sin, is_sqrt, less, number, one, opp, prod, quot, regular,
    said_finite, same, sum, zero, Scalar, num,
};
use crate::field::{field, lemma_field_is_exact, lemma_prod_associates, lemma_prod_commutes};
use core::ops::{Add, Div, Mul, Neg, Sub};
use vstd::prelude::*;
use vstd::std_specs::ops::{AddSpec, DivSpec, MulSpec, NegSpec, SubSpec};

verus! {

/// Three spatial components and a tag.
#[derive(Clone, Copy)]
pub struct Vector<S> {
    pub x: S,
    pub y: S,
    pub z: S,
    /// The tag: zero for a direction, one for a position, or a time.
    pub w: S,
}

impl<S: Scalar> Vector<S> {
    /// The tag says direction.
    pub open spec fn is_direction(self) -> bool {
        self.w == zero::<S>()
    }

    /// The tag says position.
    pub open spec fn is_position(self) -> bool {
        self.w == one::<S>()
    }

    /// What `-self` is: every component negated, the tag too.
    pub open spec fn negated(self) -> Vector<S> {
        Vector { x: opp(self.x), y: opp(self.y), z: opp(self.z), w: opp(self.w) }
    }

    /// What `self + rhs` is: the sum by components, the tag too.
    pub open spec fn plus(self, rhs: Vector<S>) -> Vector<S> {
        Vector {
            x: sum(self.x, rhs.x),
            y: sum(self.y, rhs.y),
            z: sum(self.z, rhs.z),
            w: sum(self.w, rhs.w),
        }
    }

    /// What `self - rhs` is: the difference by components, the tag too.
    pub open spec fn minus(self, rhs: Vector<S>) -> Vector<S> {
        Vector {
            x: diff(self.x, rhs.x),
            y: diff(self.y, rhs.y),
            z: diff(self.z, rhs.z),
            w: diff(self.w, rhs.w),
        }
    }

    /// What `self * k` is: every component times `k`, the tag too.
    pub open spec fn scaled(self, k: S) -> Vector<S> {
        Vector { x: prod(self.x, k), y: prod(self.y, k), z: prod(self.z, k), w: prod(self.w, k) }
    }

    /// What `self / k` is: every component over `k`, the tag too.
    pub open spec fn shrunk(self, k: S) -> Vector<S> {
        Vector { x: quot(self.x, k), y: quot(self.y, k), z: quot(self.z, k), w: quot(self.w, k) }
    }

    /// The scalar product of the three spatial components.
    pub open spec fn dot_spec(lhs: Vector<S>, rhs: Vector<S>) -> S {
        sum(sum(prod(lhs.x, rhs.x), prod(lhs.y, rhs.y)), prod(lhs.z, rhs.z))
    }

    /// The vector product, a direction.
    pub open spec fn cross_spec(lhs: Vector<S>, rhs: Vector<S>) -> Vector<S> {
        Vector {
            x: diff(prod(lhs.y, rhs.z), prod(lhs.z, rhs.y)),
            y: diff(prod(lhs.z, rhs.x), prod(lhs.x, rhs.z)),
            z: diff(prod(lhs.x, rhs.y), prod(lhs.y, rhs.x)),
            w: zero(),
        }
    }

    /// `len` is a length that the square root gave for `v`.
    pub open spec fn is_magnitude(v: Vector<S>, len: S) -> bool {
        is_sqrt(Self::dot_spec(v, v), len)
    }

    /// `v` divided by a length, or nothing where the length is zero.
    pub open spec fn normalized_by(v: Vector<S>, len: S) -> Option<Vector<S>> {
        if same(len, zero()) {
            None
        } else {
            Some(v.shrunk(len))
        }
    }

    /// `r` is `v` divided by one of its lengths, or nothing for a length of
    /// zero.
    pub open spec fn is_normalized(v: Vector<S>, r: Option<Vector<S>>) -> bool {
        exists|len: S| #[trigger] Self::is_magnitude(v, len) && r == Self::normalized_by(v, len)
    }

    /// `c` brought into the range from minus one to one.
    pub open spec fn clamped(c: S) -> S {
        let capped = if less(c, one()) {
            c
        } else {
            one()
        };
        if less(num::<S>(-1), capped) {
            capped
        } else {
            num::<S>(-1)
        }
    }

    /// The clamped scalar product of two unit vectors, where both exist.
    pub open spec fn cos_between(n1: Option<Vector<S>>, n2: Option<Vector<S>>) -> Option<S> {
        match (n1, n2) {
            (Some(a), Some(b)) => Some(Self::clamped(Self::dot_spec(a, b))),
            _ => None,
        }
    }

    /// `r` is the clamped cosine of the angle between `v1` and `v2`, or
    /// nothing where one of them has no direction.
    pub open spec fn is_cos_angle(v1: Vector<S>, v2: Vector<S>, r: Option<S>) -> bool {
        exists|n1: Option<Vector<S>>, n2: Option<Vector<S>>|
            #[trigger] Self::is_normalized(v1, n1) && #[trigger] Self::is_normalized(v2, n2) && r
                == Self::cos_between(n1, n2)
    }

    /// `r` is an arc cosine of `c`, where there is a `c`.
    pub open spec fn is_arc(c: Option<S>, r: Option<S>) -> bool {
        match c {
            None => r is None,
            Some(cv) => r is Some && is_acos(cv, r->0),
        }
    }

    /// `r` is the angle between `v1` and `v2`, or nothing where one of them
    /// has no direction.
    pub open spec fn is_angle(v1: Vector<S>, v2: Vector<S>, r: Option<S>) -> bool {
        exists|c: Option<S>| #[trigger] Self::is_cos_angle(v1, v2, c) && Self::is_arc(c, r)
    }

    /// `r` is the point of the unit sphere with the azimuth `phi` and the
    /// height `u`: its radius about the second axis is a square root of
    /// `1 - u²`.
    pub open spec fn is_on_sphere(r: Vector<S>, phi: S, u: S) -> bool {
        exists|radius: S, sine: S, cosine: S|
            {
                &&& #[trigger] is_sqrt(diff(one(), prod(u, u)), radius)
                &&& #[trigger] is_sin(phi, sine)
                &&& #[trigger] is_cos(phi, cosine)
                &&& r == (Vector {
                    x: prod(radius, sine),
                    y: u,
                    z: prod(radius, cosine),
                    w: zero(),
                })
            }
    }

    /// The unit vector `base` tilted along the unit vector `side` by
    /// `theta`, normalized again; nothing where one of the two is missing.
    pub open spec fn is_tilted(
        r: Option<Vector<S>>,
        base: Option<Vector<S>>,
        side: Option<Vector<S>>,
        theta: S,
    ) -> bool {
        match (base, side) {
            (Some(b), Some(s)) => Self::is_normalized(b.plus(s.scaled(theta)), r),
            _ => r is None,
        }
    }

    /// `r` is `v` turned by about `theta` towards the direction that is
    /// perpendicular to both `random_unit` and `v`.
    pub open spec fn is_offset(
        r: Option<Vector<S>>,
        v: Vector<S>,
        random_unit: Vector<S>,
        theta: S,
    ) -> bool {
        exists|side: Option<Vector<S>>, base: Option<Vector<S>>|
            {
                &&& #[trigger] Self::is_normalized(Self::cross_spec(random_unit, v), side)
                &&& #[trigger] Self::is_normalized(v, base)
                &&& Self::is_tilted(r, base, side, theta)
            }
    }

    /// The vector with these components.
    pub fn new(x: S, y: S, z: S, w: S) -> (r: Vector<S>)
        ensures
            r == (Vector { x, y, z, w }),
    {
        Vector { x, y, z, w }
    }

    /// The first axis, a direction.
    pub fn ex() -> (r: Vector<S>)
        requires
            regular::<S>(),
        ensures
            r == (Vector { x: one::<S>(), y: zero(), z: zero(), w: zero() }),
    {
        Vector { x: number(1), y: number(0), z: number(0), w: number(0) }
    }

    /// The second axis, a direction.
    pub fn ey() -> (r: Vector<S>)
        requires
            regular::<S>(),
        ensures
            r == (Vector { x: zero::<S>(), y: one(), z: zero(), w: zero() }),
    {
        Vector { x: number(0), y: number(1), z: number(0), w: number(0) }
    }

    /// The third axis, a direction.
    pub fn ez() -> (r: Vector<S>)
        requires
            regular::<S>(),
        ensures
            r == (Vector { x: zero::<S>(), y: zero(), z: one(), w: zero() }),
    {
        Vector { x: number(0), y: number(0), z: number(1), w: number(0) }
    }

    /// The direction of length zero.
    pub fn null() -> (r: Vector<S>)
        requires
            regular::<S>(),
        ensures
            r == Self::null_spec(),
    {
        Vector { x: number(0), y: number(0), z: number(0), w: number(0) }
    }

    /// The direction of length zero.
    pub open spec fn null_spec() -> Vector<S> {
        Vector { x: zero(), y: zero(), z: zero(), w: zero() }
    }

    /// The position at the origin.
    pub fn origin() -> (r: Vector<S>)
        requires
            regular::<S>(),
        ensures
            r == (Vector { x: zero::<S>(), y: zero(), z: zero(), w: one() }),
    {
        Vector { x: number(0), y: number(0), z: number(0), w: number(1) }
    }

    /// Whether all four components are finite. The components are asked in
    /// order, and the first that is not finite ends the asking.
    pub fn is_finite(&self) -> (r: bool)
        ensures
            r ==> said_finite(self.x, true) && said_finite(self.y, true) && said_finite(
                self.z,
                true,
            ) && said_finite(self.w, true),
            !r ==> said_finite(self.x, false) || said_finite(self.y, false) || said_finite(
                self.z,
                false,
            ) || said_finite(self.w, false),
    {
        self.x.is_finite() && self.y.is_finite() && self.z.is_finite() && self.w.is_finite()
    }

    /// The same components, tagged as a direction.
    pub fn to_translation(self) -> (r: Vector<S>)
        requires
            regular::<S>(),
        ensures
            r == (Vector { w: zero(), ..self }),
    {
        Vector { x: self.x, y: self.y, z: self.z, w: number(0) }
    }

    /// The same components, tagged as a position.
    pub fn to_position(self) -> (r: Vector<S>)
        requires
            regular::<S>(),
        ensures
            r == (Vector { w: one(), ..self }),
    {
        Vector { x: self.x, y: self.y, z: self.z, w: number(1) }
    }

    /// The scalar product of two directions.
    pub fn dot(lhs: Vector<S>, rhs: Vector<S>) -> (r: S)
        requires
            regular::<S>(),
            lhs.is_direction(),
            rhs.is_direction(),
        ensures
            r == Self::dot_spec(lhs, rhs),
    {
        lhs.x * rhs.x + lhs.y * rhs.y + lhs.z * rhs.z
    }

    /// The vector product of two directions.
    pub fn cross(lhs: Vector<S>, rhs: Vector<S>) -> (r: Vector<S>)
        requires
            regular::<S>(),
            lhs.is_direction(),
            rhs.is_direction(),
        ensures
            r == Self::cross_spec(lhs, rhs),
    {
        Vector {
            x: lhs.y * rhs.z - lhs.z * rhs.y,
            y: lhs.z * rhs.x - lhs.x * rhs.z,
            z: lhs.x * rhs.y - lhs.y * rhs.x,
            w: number(0),
        }
    }

    /// The length of a direction: the square root of its scalar product
    /// with itself.
    pub fn magnitude(v: Vector<S>) -> (r: S)
        requires
            regular::<S>(),
            v.is_direction(),
        ensures
            Self::is_magnitude(v, r),
    {
        Self::dot(v, v).sqrt()
    }

    /// The direction divided by its length; nothing for a length of zero.
    pub fn normalize(v: Vector<S>) -> (r: Option<Vector<S>>)
        requires
            exact::<S>(),
            v.is_direction(),
        ensures
            Self::is_normalized(v, r),
            r matches Some(n) ==> n.is_direction(),
    {
        let len = Self::magnitude(v);
        if len == number(0) {
            None
        } else {
            Some(v / len)
        }
    }

    /// The cosine of the angle between two directions, brought into the
    /// range from minus one to one; nothing where one of them has length
    /// zero.
    pub fn cos_angle(v1: Vector<S>, v2: Vector<S>) -> (r: Option<S>)
        requires
            exact::<S>(),
            v1.is_direction(),
            v2.is_direction(),
        ensures
            Self::is_cos_angle(v1, v2, r),
    {
        let n1 = Self::normalize(v1);
        let n2 = Self::normalize(v2);
        match (n1, n2) {
            (Some(a), Some(b)) => {
                let c = Self::dot(a, b);
                let capped = if c < number(1) {
                    c
                } else {
                    number(1)
                };
                if number::<S>(-1) < capped {
                    Some(capped)
                } else {
                    Some(number(-1))
                }
            },
            _ => None,
        }
    }

    /// The angle between two directions, from the clamped cosine; nothing
    /// where one of them has length zero.
    pub fn angle(v1: Vector<S>, v2: Vector<S>) -> (r: Option<S>)
        requires
            exact::<S>(),
            v1.is_direction(),
            v2.is_direction(),
        ensures
            Self::is_angle(v1, v2, r),
    {
        match Self::cos_angle(v1, v2) {
            Some(c) => Some(c.acos()),
            None => None,
        }
    }
}

impl<S: Scalar> Vector<S> {
    /// The point of the unit sphere for two random draws: the azimuth `phi`
    /// and the height `u`, the cosine of the polar angle. Draws that are
    /// even on `[0, 2π)` and on `[-1, 1]` give points that are even on the
    /// sphere.
    pub fn random_unitvector(phi: S, u: S) -> (r: Vector<S>)
        requires
            regular::<S>(),
        ensures
            Self::is_on_sphere(r, phi, u),
            r.is_direction(),
    {
        let radius = (number::<S>(1) - u * u).sqrt();
        let sine = phi.sin();
        let cosine = phi.cos();
        let r = Vector { x: radius * sine, y: u, z: radius * cosine, w: number(0) };
        assert(is_sqrt(diff(one(), prod(u, u)), radius));
        assert(is_sin(phi, sine) && is_cos(phi, cosine));
        r
    }

    /// A unit vector at an angle of about `theta` from the direction `v`,
    /// for small `theta`: `v` is normalized, moved by `theta` along the
    /// normalized vector product of `random_unit` and `v`, and normalized
    /// again. Nothing where `v`, the vector product or the moved vector has
    /// no direction.
    pub fn offset(v: Vector<S>, random_unit: Vector<S>, theta: S) -> (r: Option<Vector<S>>)
        requires
            exact::<S>(),
            v.is_direction(),
            random_unit.is_direction(),
        ensures
            Self::is_offset(r, v, random_unit, theta),
            r matches Some(n) ==> n.is_direction(),
    {
        let side = Self::normalize(Self::cross(random_unit, v));
        let base = Self::normalize(v);
        match (base, side) {
            (Some(b), Some(s)) => Self::normalize(b + s * theta),
            _ => None,
        }
    }
}

impl<S: Scalar> Neg for Vector<S> {
    type Output = Vector<S>;

    fn neg(self) -> (r: Vector<S>) {
        Vector { x: self.x.neg(), y: self.y.neg(), z: self.z.neg(), w: self.w.neg() }
    }
}

impl<S: Scalar> vstd::std_specs::ops::NegSpecImpl for Vector<S> {
    open spec fn obeys_neg_spec() -> bool {
        S::obeys_neg_spec()
    }

    open spec fn neg_req(self) -> bool {
        self.x.neg_req() && self.y.neg_req() && self.z.neg_req() && self.w.neg_req()
    }

    open spec fn neg_spec(self) -> Vector<S> {
        self.negated()
    }
}

impl<S: Scalar> Add for Vector<S> {
    type Output = Vector<S>;

    fn add(self, rhs: Vector<S>) -> (r: Vector<S>) {
        Vector { x: self.x + rhs.x, y: self.y + rhs.y, z: self.z + rhs.z, w: self.w + rhs.w }
    }
}

impl<S: Scalar> vstd::std_specs::ops::AddSpecImpl for Vector<S> {
    open spec fn obeys_add_spec() -> bool {
        S::obeys_add_spec()
    }

    open spec fn add_req(self, rhs: Vector<S>) -> bool {
        self.x.add_req(rhs.x) && self.y.add_req(rhs.y) && self.z.add_req(rhs.z) && self.w.add_req(
            rhs.w,
        )
    }

    open spec fn add_spec(self, rhs: Vector<S>) -> Vector<S> {
        self.plus(rhs)
    }
}

impl<S: Scalar> Sub for Vector<S> {
    type Output = Vector<S>;

    fn sub(self, rhs: Vector<S>) -> (r: Vector<S>) {
        Vector { x: self.x - rhs.x, y: self.y - rhs.y, z: self.z - rhs.z, w: self.w - rhs.w }
    }
}

impl<S: Scalar> vstd::std_specs::ops::SubSpecImpl for Vector<S> {
    open spec fn obeys_sub_spec() -> bool {
        S::obeys_sub_spec()
    }

    open spec fn sub_req(self, rhs: Vector<S>) -> bool {
        self.x.sub_req(rhs.x) && self.y.sub_req(rhs.y) && self.z.sub_req(rhs.z) && self.w.sub_req(
            rhs.w,
        )
    }

    open spec fn sub_spec(self, rhs: Vector<S>) -> Vector<S> {
        self.minus(rhs)
    }
}

impl<S: Scalar> Mul<S> for Vector<S> {
    type Output = Vector<S>;

    fn mul(self, rhs: S) -> (r: Vector<S>) {
        Vector { x: self.x * rhs, y: self.y * rhs, z: self.z * rhs, w: self.w * rhs }
    }
}

impl<S: Scalar> vstd::std_specs::ops::MulSpecImpl<S> for Vector<S> {
    open spec fn obeys_mul_spec() -> bool {
        S::obeys_mul_spec()
    }

    open spec fn mul_req(self, rhs: S) -> bool {
        self.x.mul_req(rhs) && self.y.mul_req(rhs) && self.z.mul_req(rhs) && self.w.mul_req(rhs)
    }

    open spec fn mul_spec(self, rhs: S) -> Vector<S> {
        self.scaled(rhs)
    }
}

impl<S: Scalar> Div<S> for Vector<S> {
    type Output = Vector<S>;

    fn div(self, rhs: S) -> (r: Vector<S>) {
        Vector { x: self.x / rhs, y: self.y / rhs, z: self.z / rhs, w: self.w / rhs }
    }
}

impl<S: Scalar> vstd::std_specs::ops::DivSpecImpl<S> for Vector<S> {
    open spec fn obeys_div_spec() -> bool {
        S::obeys_div_spec()
    }

    open spec fn div_req(self, rhs: S) -> bool {
        self.x.div_req(rhs) && self.y.div_req(rhs) && self.z.div_req(rhs) && self.w.div_req(rhs)
    }

    open spec fn div_spec(self, rhs: S) -> Vector<S> {
        self.shrunk(rhs)
    }
}

/// The vector product of a direction with a multiple of itself is the
/// null vector: parallel directions span no plane.
pub proof fn lemma_parallel_cross<S: Scalar>(u: Vector<S>, k: S)
    requires
        regular::<S>(),
        field::<S>(),
    ensures
        Vector::cross_spec(u, u.scaled(k)) == Vector::<S>::null_spec(),
{
    lemma_field_is_exact::<S>();
    lemma_prod_associates(u.y, u.z, k);
    lemma_prod_associates(u.z, u.y, k);
    lemma_prod_commutes(u.y, u.z);
    lemma_prod_associates(u.z, u.x, k);
    lemma_prod_associates(u.x, u.z, k);
    lemma_prod_commutes(u.z, u.x);
    lemma_prod_associates(u.x, u.y, k);
    lemma_prod_associates(u.y, u.x, k);
    lemma_prod_commutes(u.x, u.y);
}

} // verus!
