//! Homogeneous transforms: four column vectors.
use crate::field::{field, lemma_dot4_swaps, lemma_field_is_exact};
use crate::scalar::{exact, number, one, prod, regular, sum, zero, Scalar};
use crate::vector::Vector;
use core::ops::Mul;
use vstd::prelude::*;

verus! {

/// A 4×4 matrix, held as its four columns.
#[derive(Clone, Copy)]
pub struct Matrix<S>(pub [Vector<S>; 4]);

impl<S: Scalar> Matrix<S> {
    /// The column with index `n`.
    pub open spec fn col(self, n: int) -> Vector<S> {
        self.0[n]
    }

    /// The matrix with these four columns.
    pub open spec fn of(c0: Vector<S>, c1: Vector<S>, c2: Vector<S>, c3: Vector<S>) -> Matrix<S> {
        Matrix([c0, c1, c2, c3])
    }

    /// The matrix whose upper block has `k` on its diagonal, and whose last
    /// column is `c3`.
    pub open spec fn diagonal(k: S, c3: Vector<S>) -> Matrix<S> {
        Self::of(
            Vector { x: k, y: zero(), z: zero(), w: zero() },
            Vector { x: zero(), y: k, z: zero(), w: zero() },
            Vector { x: zero(), y: zero(), z: k, w: zero() },
            c3,
        )
    }

    /// The matrix of the transform that changes nothing.
    pub open spec fn identity_spec() -> Matrix<S> {
        Self::diagonal(one(), Vector { x: zero(), y: zero(), z: zero(), w: one() })
    }

    /// The matrix that scales the three spatial axes by `scale`.
    pub open spec fn scaling_spec(scale: S) -> Matrix<S> {
        Self::diagonal(scale, Vector { x: zero(), y: zero(), z: zero(), w: one() })
    }

    /// The matrix that moves positions by the spatial components of `v`.
    pub open spec fn translation_spec(v: Vector<S>) -> Matrix<S> {
        Self::diagonal(one(), Vector { w: one(), ..v })
    }

    /// The matrix that clears the tag.
    pub open spec fn pos_to_vector_spec() -> Matrix<S> {
        Self::diagonal(one(), Vector::null_spec())
    }

    /// What `self * v` is for a vector: the columns weighted by the
    /// components of `v` and summed, first column first, starting from the
    /// null vector.
    pub open spec fn apply(self, v: Vector<S>) -> Vector<S> {
        Vector::<S>::null_spec().plus(self.col(0).scaled(v.x)).plus(self.col(1).scaled(v.y)).plus(
            self.col(2).scaled(v.z),
        ).plus(self.col(3).scaled(v.w))
    }

    /// What `self * rhs` is for two matrices: `self` applied to each column
    /// of `rhs`, so that the product applies `rhs` first.
    pub open spec fn times(self, rhs: Matrix<S>) -> Matrix<S> {
        Self::of(
            self.apply(rhs.col(0)),
            self.apply(rhs.col(1)),
            self.apply(rhs.col(2)),
            self.apply(rhs.col(3)),
        )
    }

    /// The transform that changes nothing.
    pub fn identity() -> (r: Matrix<S>)
        requires
            regular::<S>(),
        ensures
            r == Self::identity_spec(),
    {
        Matrix(
            [
                Vector::new(number(1), number(0), number(0), number(0)),
                Vector::new(number(0), number(1), number(0), number(0)),
                Vector::new(number(0), number(0), number(1), number(0)),
                Vector::new(number(0), number(0), number(0), number(1)),
            ],
        )
    }

    /// The transform that scales the three spatial axes by `scale`.
    pub fn scaling(scale: S) -> (r: Matrix<S>)
        requires
            regular::<S>(),
        ensures
            r == Self::scaling_spec(scale),
    {
        Matrix(
            [
                Vector::new(scale, number(0), number(0), number(0)),
                Vector::new(number(0), scale, number(0), number(0)),
                Vector::new(number(0), number(0), scale, number(0)),
                Vector::new(number(0), number(0), number(0), number(1)),
            ],
        )
    }

    /// The transform that moves positions by `v`, a direction or a
    /// position.
    pub fn translation(v: Vector<S>) -> (r: Matrix<S>)
        requires
            regular::<S>(),
            v.is_direction() || v.is_position(),
        ensures
            r == Self::translation_spec(v),
    {
        Matrix(
            [
                Vector::new(number(1), number(0), number(0), number(0)),
                Vector::new(number(0), number(1), number(0), number(0)),
                Vector::new(number(0), number(0), number(1), number(0)),
                Vector::new(v.x, v.y, v.z, number(1)),
            ],
        )
    }

    /// The transform that turns a position into the direction from the
    /// origin to it.
    pub fn pos_to_vector() -> (r: Matrix<S>)
        requires
            regular::<S>(),
        ensures
            r == Self::pos_to_vector_spec(),
    {
        Matrix(
            [
                Vector::new(number(1), number(0), number(0), number(0)),
                Vector::new(number(0), number(1), number(0), number(0)),
                Vector::new(number(0), number(0), number(1), number(0)),
                Vector::new(number(0), number(0), number(0), number(0)),
            ],
        )
    }

    /// The sixteen numbers, column by column: entry `n` holds the four
    /// components of column `n`.
    pub fn data(self) -> (r: [[S; 4]; 4])
        ensures
            forall|n: int|
                0 <= n < 4 ==> {
                    &&& (#[trigger] r[n])[0] == self.col(n).x
                    &&& r[n][1] == self.col(n).y
                    &&& r[n][2] == self.col(n).z
                    &&& r[n][3] == self.col(n).w
                },
    {
        [
            [self.0[0].x, self.0[0].y, self.0[0].z, self.0[0].w],
            [self.0[1].x, self.0[1].y, self.0[1].z, self.0[1].w],
            [self.0[2].x, self.0[2].y, self.0[2].z, self.0[2].w],
            [self.0[3].x, self.0[3].y, self.0[3].z, self.0[3].w],
        ]
    }

    /// The matrix applied to a vector.
    pub fn transform(self, rhs: Vector<S>) -> (r: Vector<S>)
        requires
            regular::<S>(),
        ensures
            r == self.apply(rhs),
    {
        let mut result = Vector::null();
        result = result + self.0[0] * rhs.x;
        result = result + self.0[1] * rhs.y;
        result = result + self.0[2] * rhs.z;
        result = result + self.0[3] * rhs.w;
        result
    }

    /// The product of two matrices.
    pub fn compose(self, rhs: Matrix<S>) -> (r: Matrix<S>)
        requires
            regular::<S>(),
        ensures
            r == self.times(rhs),
    {
        Matrix(
            [
                self.transform(rhs.0[0]),
                self.transform(rhs.0[1]),
                self.transform(rhs.0[2]),
                self.transform(rhs.0[3]),
            ],
        )
    }
}

impl<S: Scalar> Mul<Vector<S>> for Matrix<S> {
    type Output = Vector<S>;

    fn mul(self, rhs: Vector<S>) -> (r: Vector<S>) {
        self.transform(rhs)
    }
}

impl<S: Scalar> vstd::std_specs::ops::MulSpecImpl<Vector<S>> for Matrix<S> {
    open spec fn obeys_mul_spec() -> bool {
        true
    }

    open spec fn mul_req(self, rhs: Vector<S>) -> bool {
        regular::<S>()
    }

    open spec fn mul_spec(self, rhs: Vector<S>) -> Vector<S> {
        self.apply(rhs)
    }
}

impl<S: Scalar> Mul<Matrix<S>> for Matrix<S> {
    type Output = Matrix<S>;

    fn mul(self, rhs: Matrix<S>) -> (r: Matrix<S>) {
        self.compose(rhs)
    }
}

impl<S: Scalar> vstd::std_specs::ops::MulSpecImpl<Matrix<S>> for Matrix<S> {
    open spec fn obeys_mul_spec() -> bool {
        true
    }

    open spec fn mul_req(self, rhs: Matrix<S>) -> bool {
        regular::<S>()
    }

    open spec fn mul_spec(self, rhs: Matrix<S>) -> Matrix<S> {
        self.times(rhs)
    }
}

/// A matrix of the shape of [`Matrix::diagonal`] multiplies the three
/// spatial components by `k` and adds its last column, weighted by the tag.
pub proof fn lemma_diagonal_applies<S: Scalar>(k: S, c3: Vector<S>, v: Vector<S>)
    requires
        exact::<S>(),
    ensures
        Matrix::diagonal(k, c3).apply(v) == (Vector {
            x: sum(prod(k, v.x), prod(c3.x, v.w)),
            y: sum(prod(k, v.y), prod(c3.y, v.w)),
            z: sum(prod(k, v.z), prod(c3.z, v.w)),
            w: prod(c3.w, v.w),
        }),
{
    let m = Matrix::diagonal(k, c3);
    assert(m.col(0).scaled(v.x) == (Vector { x: prod(k, v.x), y: zero(), z: zero(), w: zero() }));
    assert(m.col(1).scaled(v.y) == (Vector { x: zero(), y: prod(k, v.y), z: zero(), w: zero() }));
    assert(m.col(2).scaled(v.z) == (Vector { x: zero(), y: zero(), z: prod(k, v.z), w: zero() }));
}

/// The identity changes no vector.
pub proof fn lemma_identity_applies<S: Scalar>(v: Vector<S>)
    requires
        exact::<S>(),
    ensures
        Matrix::<S>::identity_spec().apply(v) == v,
{
    lemma_diagonal_applies(one(), Vector { x: zero(), y: zero(), z: zero(), w: one() }, v);
}

/// A scaling multiplies the three spatial components by `scale` and leaves
/// the tag.
pub proof fn lemma_scaling_applies<S: Scalar>(scale: S, v: Vector<S>)
    requires
        exact::<S>(),
    ensures
        Matrix::scaling_spec(scale).apply(v) == (Vector {
            x: prod(scale, v.x),
            y: prod(scale, v.y),
            z: prod(scale, v.z),
            w: v.w,
        }),
{
    lemma_diagonal_applies(scale, Vector { x: zero(), y: zero(), z: zero(), w: one() }, v);
}

/// A translation by `t` moves a position by `t` and leaves a direction as it
/// is.
pub proof fn lemma_translation_applies<S: Scalar>(t: Vector<S>, v: Vector<S>)
    requires
        exact::<S>(),
    ensures
        v.is_position() ==> Matrix::translation_spec(t).apply(v) == (Vector {
            x: sum(v.x, t.x),
            y: sum(v.y, t.y),
            z: sum(v.z, t.z),
            w: one(),
        }),
        v.is_direction() ==> Matrix::translation_spec(t).apply(v) == v,
{
    lemma_diagonal_applies(one(), Vector { w: one(), ..t }, v);
}

/// The matrix of [`Matrix::pos_to_vector`] clears the tag and leaves the
/// rest.
pub proof fn lemma_pos_to_vector_applies<S: Scalar>(v: Vector<S>)
    requires
        exact::<S>(),
    ensures
        Matrix::<S>::pos_to_vector_spec().apply(v) == (Vector { w: zero(), ..v }),
{
    lemma_diagonal_applies(one(), Vector::null_spec(), v);
}

/// A product applies its right factor first: `a * b` applied to a vector
/// is `a` applied to what `b` makes of the vector.
pub proof fn lemma_product_applies<S: Scalar>(a: Matrix<S>, b: Matrix<S>, v: Vector<S>)
    requires
        regular::<S>(),
        field::<S>(),
    ensures
        a.times(b).apply(v) == a.apply(b.apply(v)),
{
    lemma_field_is_exact::<S>();
    let w = (v.x, v.y, v.z, v.w);
    let b0 = (b.col(0).x, b.col(0).y, b.col(0).z, b.col(0).w);
    let b1 = (b.col(1).x, b.col(1).y, b.col(1).z, b.col(1).w);
    let b2 = (b.col(2).x, b.col(2).y, b.col(2).z, b.col(2).w);
    let b3 = (b.col(3).x, b.col(3).y, b.col(3).z, b.col(3).w);
    lemma_dot4_swaps((a.col(0).x, a.col(1).x, a.col(2).x, a.col(3).x), b0, b1, b2, b3, w);
    lemma_dot4_swaps((a.col(0).y, a.col(1).y, a.col(2).y, a.col(3).y), b0, b1, b2, b3, w);
    lemma_dot4_swaps((a.col(0).z, a.col(1).z, a.col(2).z, a.col(3).z), b0, b1, b2, b3, w);
    lemma_dot4_swaps((a.col(0).w, a.col(1).w, a.col(2).w, a.col(3).w), b0, b1, b2, b3, w);
}

} // verus!
