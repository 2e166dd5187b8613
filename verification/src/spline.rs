//! The trajectory: cubic Bezier segments over position and time.
//!
//! A control point keeps its time in the tag of the vector, so a segment
//! is a curve in space and time at once, traced by a parameter `tau` that
//! runs from zero to one. Time need not grow evenly with `tau`.
use crate::scalar::{
    abs, absolute, at_most, diff, exact, fraction, halved, halving, less, mean, num, number, one,
    opp, prod, quot, ratio, regular, same, sum, zero, Scalar,
};
use crate::field::{
    field, lemma_add_the_rest, lemma_add_then_take, lemma_at_most_shifts,
    lemma_at_most_then_less, lemma_comparisons, lemma_difference, lemma_field_halves,
    lemma_field_is_exact, lemma_half_is_less, lemma_halved_bounds, lemma_halved_positive,
    lemma_num_adds, lemma_order_total, lemma_order_transitive,
    lemma_num_opposite, lemma_num_order, lemma_positive_difference, lemma_positive_product,
    lemma_take_twice, lemma_thirds, lemma_tolerance, lemma_way_over_time,
    lemma_weighted_difference,
};
use crate::vector::Vector;
use core::ops::Neg;
use vstd::prelude::*;

verus! {

/// The number of halvings after which the search for `tau` stops even if
/// the bracket is still wider than the tolerance.
pub const MAX_HALVINGS: usize = 64;

/// `tau` lies between zero and one, both included.
pub open spec fn in_unit<S: Scalar>(tau: S) -> bool {
    at_most(zero(), tau) && at_most(tau, one())
}

/// The four Bernstein weights of a cubic at `tau`.
pub open spec fn weights<S: Scalar>(tau: S) -> (S, S, S, S) {
    let rest = diff(one(), tau);
    (
        prod(prod(rest, rest), rest),
        prod(prod(prod(num(3), rest), rest), tau),
        prod(prod(prod(num(3), rest), tau), tau),
        prod(prod(tau, tau), tau),
    )
}

/// The derivatives of the four weights with respect to `tau`.
pub open spec fn slopes<S: Scalar>(tau: S) -> (S, S, S, S) {
    let rest = diff(one(), tau);
    (
        prod(prod(num(-3), rest), rest),
        sum(diff(prod(prod(num(9), tau), tau), prod(num(12), tau)), num(3)),
        sum(prod(prod(num(-9), tau), tau), prod(num(6), tau)),
        prod(prod(num(3), tau), tau),
    )
}

/// The second derivatives of the four weights with respect to `tau`.
pub open spec fn bends<S: Scalar>(tau: S) -> (S, S, S, S) {
    (
        sum(prod(num(-6), tau), num(6)),
        diff(prod(num(18), tau), num(12)),
        sum(prod(num(-18), tau), num(6)),
        prod(num(6), tau),
    )
}

/// The bracket is still wider than the tolerance of a thousandth.
pub open spec fn wide<S: Scalar>(low: S, high: S) -> bool {
    less(ratio::<S>(1, 1000), diff(high, low))
}

/// The times of the four points grow strictly.
pub open spec fn rising<S: Scalar>(
    p1: Vector<S>,
    p2: Vector<S>,
    p3: Vector<S>,
    p4: Vector<S>,
) -> bool {
    less(p1.w, p2.w) && less(p2.w, p3.w) && less(p3.w, p4.w)
}

/// The three spatial components of `x` with the time `t` as the tag.
pub open spec fn at_time<S: Scalar>(x: Vector<S>, t: S) -> Vector<S> {
    Vector { w: t, ..x }
}

/// The four control points of the segment that joins the state `x1`, `v1`
/// at `t1` to the state `x4`, `v4` at `t4`: the inner points stand at one
/// and two thirds of the time span, each moved from its end along that
/// end's velocity for the time between them.
pub open spec fn joint<S: Scalar>(
    x1: Vector<S>,
    v1: Vector<S>,
    t1: S,
    x4: Vector<S>,
    v4: Vector<S>,
    t4: S,
) -> (Vector<S>, Vector<S>, Vector<S>, Vector<S>) {
    let span = diff(t4, t1);
    let t2 = sum(t1, quot(span, num(3)));
    let t3 = sum(t1, quot(prod(span, num(2)), num(3)));
    (
        at_time(x1, t1),
        at_time(x1.plus(v1.scaled(diff(t2, t1))), t2),
        at_time(x4.minus(v4.scaled(diff(t4, t3))), t3),
        at_time(x4, t4),
    )
}

/// Four control points weighted and summed, the first point first.
pub open spec fn blend_of<S: Scalar>(
    p: (Vector<S>, Vector<S>, Vector<S>, Vector<S>),
    w: (S, S, S, S),
) -> Vector<S> {
    p.0.scaled(w.0).plus(p.1.scaled(w.1)).plus(p.2.scaled(w.2)).plus(p.3.scaled(w.3))
}

/// The velocity that the curve through `p` implies at `tau`, its derivative
/// over the derivative of its own time, is within a hundredth of `v` in
/// each spatial component, and its time component is one. The derivative of
/// the time is not zero.
pub open spec fn keeps_velocity<S: Scalar>(
    p: (Vector<S>, Vector<S>, Vector<S>, Vector<S>),
    tau: S,
    v: Vector<S>,
) -> bool {
    let rate = blend_of(p, slopes(tau));
    let implied = rate.shrunk(rate.w);
    &&& !same(rate.w, zero())
    &&& less(abs(diff(implied.x, v.x)), ratio::<S>(1, 100))
    &&& less(abs(diff(implied.y, v.y)), ratio::<S>(1, 100))
    &&& less(abs(diff(implied.z, v.z)), ratio::<S>(1, 100))
    &&& same(implied.w, one())
}

/// A boundary velocity `v` of length `len` passes the boundary test at
/// `tau`: a velocity of length zero is not tested.
pub open spec fn passes<S: Scalar>(
    p: (Vector<S>, Vector<S>, Vector<S>, Vector<S>),
    tau: S,
    v: Vector<S>,
    len: S,
) -> bool {
    same(len, zero()) || keeps_velocity(p, tau, v)
}

/// The control points `p` meet the boundary velocities `v1` and `v4`,
/// whose lengths are `len1` and `len4`: their times grow strictly, and each
/// velocity passes the boundary test at its end.
pub open spec fn meets<S: Scalar>(
    p: (Vector<S>, Vector<S>, Vector<S>, Vector<S>),
    v1: Vector<S>,
    len1: S,
    v4: Vector<S>,
    len4: S,
) -> bool {
    rising(p.0, p.1, p.2, p.3) && passes(p, zero(), v1, len1) && passes(p, one(), v4, len4)
}

/// The control points `p` match the boundary velocities `v1` and `v4`:
/// each velocity passes the boundary test at its end, whatever the square
/// root gives as its length.
pub open spec fn matching<S: Scalar>(
    p: (Vector<S>, Vector<S>, Vector<S>, Vector<S>),
    v1: Vector<S>,
    v4: Vector<S>,
) -> bool {
    &&& forall|len: S| #[trigger] Vector::is_magnitude(v1, len) ==> passes(p, zero(), v1, len)
    &&& forall|len: S| #[trigger] Vector::is_magnitude(v4, len) ==> passes(p, one(), v4, len)
}

/// One cubic segment of a trajectory. The times of its four control points
/// grow strictly.
pub struct Bezier<S: Scalar> {
    p1: Vector<S>,
    p2: Vector<S>,
    p3: Vector<S>,
    p4: Vector<S>,
}

impl<S: Scalar> Bezier<S> {
    #[verifier::type_invariant]
    spec fn ordered(self) -> bool {
        rising(self.p1, self.p2, self.p3, self.p4)
    }

    /// The four control points, the start first.
    pub closed spec fn points(self) -> (Vector<S>, Vector<S>, Vector<S>, Vector<S>) {
        (self.p1, self.p2, self.p3, self.p4)
    }

    /// The state at which the segment starts: a position and its time.
    pub open spec fn first(self) -> Vector<S> {
        self.points().0
    }

    /// The state at which the segment ends: a position and its time.
    pub open spec fn last(self) -> Vector<S> {
        self.points().3
    }

    /// The control points weighted and summed, the first point first.
    pub open spec fn blend(self, w: (S, S, S, S)) -> Vector<S> {
        blend_of(self.points(), w)
    }

    /// The point of the curve at `tau`: position and time.
    pub open spec fn point(self, tau: S) -> Vector<S> {
        self.blend(weights(tau))
    }

    /// The derivative of the curve with respect to `tau` at `tau`.
    pub open spec fn rate(self, tau: S) -> Vector<S> {
        self.blend(slopes(tau))
    }

    /// The second derivative of the curve with respect to `tau` at `tau`.
    pub open spec fn curvature(self, tau: S) -> Vector<S> {
        self.blend(bends(tau))
    }

    /// The segment covers the time `t`: the time of its start is at most
    /// `t`, which is at most the time of its end.
    pub open spec fn covers(self, t: S) -> bool {
        at_most(self.first().w, t) && at_most(t, self.last().w)
    }

    /// The bracket of the bisection for the time `t` after `n` halvings. It
    /// starts as the whole range; each halving keeps the lower half where
    /// `t` is less than the time of the curve at the middle, else the upper
    /// half.
    pub open spec fn bracket(self, t: S, n: nat) -> (S, S)
        decreases n,
    {
        if n == 0 {
            (zero(), one())
        } else {
            let (low, high) = self.bracket(t, (n - 1) as nat);
            let mid = mean(low, high);
            if less(t, self.point(mid).w) {
                (low, mid)
            } else {
                (mid, high)
            }
        }
    }

    /// The number of halvings that the bisection for `t` makes when `n` are
    /// made already: it goes on while the bracket is wide, and not beyond
    /// `MAX_HALVINGS`.
    pub open spec fn halvings_from(self, t: S, n: nat) -> nat
        decreases MAX_HALVINGS - n,
    {
        let (low, high) = self.bracket(t, n);
        if n < MAX_HALVINGS && wide(low, high) {
            self.halvings_from(t, n + 1)
        } else {
            n
        }
    }

    /// The parameter that the bisection finds for the time `t`: the middle
    /// of the last bracket.
    pub open spec fn tau_of(self, t: S) -> S {
        let (low, high) = self.bracket(t, self.halvings_from(t, 0));
        mean(low, high)
    }

    /// `b` is the answer of [`Bezier::joins`]: whether the control points
    /// of [`joint`] meet the boundary velocities, for lengths of the two as
    /// the square root gave them.
    pub open spec fn is_joins(
        b: bool,
        x1: Vector<S>,
        v1: Vector<S>,
        t1: S,
        x4: Vector<S>,
        v4: Vector<S>,
        t4: S,
    ) -> bool {
        exists|len1: S, len4: S|
            {
                &&& #[trigger] Vector::is_magnitude(v1, len1)
                &&& #[trigger] Vector::is_magnitude(v4, len4)
                &&& b == meets(joint(x1, v1, t1, x4, v4, t4), v1, len1, v4, len4)
            }
    }

    /// The segment with the given control points.
    pub fn new(p1: Vector<S>, p2: Vector<S>, p3: Vector<S>, p4: Vector<S>) -> (r: Bezier<S>)
        requires
            rising(p1, p2, p3, p4),
        ensures
            r.points() == (p1, p2, p3, p4),
    {
        Bezier { p1, p2, p3, p4 }
    }

    /// The four control points, the start first.
    pub fn control_points(&self) -> (r: (Vector<S>, Vector<S>, Vector<S>, Vector<S>))
        ensures
            r == self.points(),
            rising(r.0, r.1, r.2, r.3),
    {
        proof {
            use_type_invariant(self);
        }
        (self.p1, self.p2, self.p3, self.p4)
    }

    /// The point of the curve at `tau`, its time in the tag.
    pub fn sample_p(&self, tau: S) -> (r: Vector<S>)
        requires
            regular::<S>(),
            in_unit(tau),
        ensures
            r == self.point(tau),
    {
        let rest = number::<S>(1) - tau;
        self.p1 * (rest * rest * rest) + self.p2 * (number::<S>(3) * rest * rest * tau) + self.p3
            * (number::<S>(3) * rest * tau * tau) + self.p4 * (tau * tau * tau)
    }

    /// The derivative of the curve with respect to `tau`, that of the time
    /// in the tag.
    pub fn sample_dp_dtau(&self, tau: S) -> (r: Vector<S>)
        requires
            regular::<S>(),
            in_unit(tau),
        ensures
            r == self.rate(tau),
    {
        let rest = number::<S>(1) - tau;
        self.p1 * (number::<S>(-3) * rest * rest) + self.p2 * (number::<S>(9) * tau * tau
            - number::<S>(12) * tau + number::<S>(3)) + self.p3 * (number::<S>(-9) * tau * tau
            + number::<S>(6) * tau) + self.p4 * (number::<S>(3) * tau * tau)
    }

    /// The second derivative of the curve with respect to `tau`, that of
    /// the time in the tag.
    pub fn sample_ddp_dtau2(&self, tau: S) -> (r: Vector<S>)
        requires
            regular::<S>(),
            in_unit(tau),
        ensures
            r == self.curvature(tau),
    {
        self.p1 * (number::<S>(-6) * tau + number::<S>(6)) + self.p2 * (number::<S>(18) * tau
            - number::<S>(12)) + self.p3 * (number::<S>(-18) * tau + number::<S>(6)) + self.p4 * (
        number::<S>(6) * tau)
    }
}

impl<S: Scalar> Bezier<S> {
    /// The parameter at which the curve is at the time `t`, by bisection
    /// to a tolerance of a thousandth in `tau`.
    pub fn find_tau(&self, t: S) -> (tau: S)
        requires
            exact::<S>(),
            self.covers(t),
        ensures
            tau == self.tau_of(t),
            in_unit(tau),
    {
        let delta = fraction::<S>(1, 1000);
        let half = fraction::<S>(1, 2);
        let mut tau_low: S = number(0);
        let mut tau_high: S = number(1);
        let mut n: usize = 0;
        assert(less(num::<S>(0), num::<S>(1)));
        while n < MAX_HALVINGS && delta < tau_high - tau_low
            invariant
                exact::<S>(),
                n <= MAX_HALVINGS,
                delta == ratio::<S>(1, 1000),
                half == ratio::<S>(1, 2),
                (tau_low, tau_high) == self.bracket(t, n as nat),
                in_unit(tau_low),
                in_unit(tau_high),
                at_most(tau_low, tau_high),
                self.halvings_from(t, 0) == self.halvings_from(t, n as nat),
            decreases MAX_HALVINGS - n,
        {
            let tau_mid = (tau_low + tau_high) * half;
            assert(tau_mid == mean(tau_low, tau_high));
            if t < self.sample_p(tau_mid).w {
                tau_high = tau_mid;
            } else {
                tau_low = tau_mid;
            }
            n += 1;
        }
        let tau = (tau_low + tau_high) * half;
        assert(tau == mean(tau_low, tau_high));
        tau
    }

    /// Whether two states, each a position, a velocity and a time, can be
    /// joined by [`Bezier::merge`]: whether the times of the control points
    /// grow strictly, the ends are the given positions and times, and at
    /// each end whose velocity has a length other than zero the velocity
    /// that the curve implies matches the given one. The velocities are
    /// directions.
    pub fn joins(x1: Vector<S>, v1: Vector<S>, t1: S, x4: Vector<S>, v4: Vector<S>, t4: S) -> (b:
        bool)
        requires
            exact::<S>(),
            v1.is_direction(),
            v4.is_direction(),
        ensures
            Self::is_joins(b, x1, v1, t1, x4, v4, t4),
    {
        let len1 = Vector::magnitude(v1);
        let len4 = Vector::magnitude(v4);
        let (p1, p2, p3, p4) = Self::control_points_between(x1, v1, t1, x4, v4, t4);

        if !(p1.w < p2.w && p2.w < p3.w && p3.w < p4.w) {
            return false;
        }
        let result = Bezier::new(p1, p2, p3, p4);

        let starts = result.p1.x == x1.x && result.p1.y == x1.y && result.p1.z == x1.z
            && result.p1.w == t1;
        let ends = result.p4.x == x4.x && result.p4.y == x4.y && result.p4.z == x4.z
            && result.p4.w == t4;
        assert(starts && ends);
        if !(starts && ends) {
            return false;
        }
        assert(less(num::<S>(0), num::<S>(1)));
        let tolerance = fraction::<S>(1, 100);
        if !(len1 == number(0)) {
            let rate = result.sample_dp_dtau(number(0));
            let vel1 = rate / rate.w;
            if !(!(rate.w == number(0)) && absolute(vel1.x - v1.x) < tolerance && absolute(
                vel1.y - v1.y,
            ) < tolerance && absolute(vel1.z - v1.z) < tolerance && vel1.w == number(1)) {
                return false;
            }
        }
        if !(len4 == number(0)) {
            let rate = result.sample_dp_dtau(number(1));
            let vel4 = rate / rate.w;
            if !(!(rate.w == number(0)) && absolute(vel4.x - v4.x) < tolerance && absolute(
                vel4.y - v4.y,
            ) < tolerance && absolute(vel4.z - v4.z) < tolerance && vel4.w == number(1)) {
                return false;
            }
        }
        true
    }

    /// The four control points between two states.
    fn control_points_between(
        x1: Vector<S>,
        v1: Vector<S>,
        t1: S,
        x4: Vector<S>,
        v4: Vector<S>,
        t4: S,
    ) -> (p: (Vector<S>, Vector<S>, Vector<S>, Vector<S>))
        requires
            regular::<S>(),
        ensures
            p == joint(x1, v1, t1, x4, v4, t4),
    {
        let t_span = t4 - t1;
        let t2 = t1 + t_span / number(3);
        let t3 = t1 + t_span * number(2) / number(3);

        let p1 = Vector { x: x1.x, y: x1.y, z: x1.z, w: t1 };
        let x2 = x1 + v1 * (t2 - t1);
        let p2 = Vector { x: x2.x, y: x2.y, z: x2.z, w: t2 };
        let x3 = x4 - v4 * (t4 - t3);
        let p3 = Vector { x: x3.x, y: x3.y, z: x3.z, w: t3 };
        let p4 = Vector { x: x4.x, y: x4.y, z: x4.z, w: t4 };
        (p1, p2, p3, p4)
    }

    /// The segment that joins two states, each a position, a velocity and a
    /// time. The velocities are directions. The times of the control points
    /// grow strictly, and the control points match the two velocities;
    /// [`Bezier::joins`] tells whether they do. The segment starts in the
    /// first state and ends in the second, and at each end whose velocity
    /// has a length other than zero the velocity that the curve implies is
    /// within a hundredth of the given one.
    pub fn merge(x1: Vector<S>, v1: Vector<S>, t1: S, x4: Vector<S>, v4: Vector<S>, t4: S) -> (r:
        Bezier<S>)
        requires
            regular::<S>(),
            v1.is_direction(),
            v4.is_direction(),
            rising(
                joint(x1, v1, t1, x4, v4, t4).0,
                joint(x1, v1, t1, x4, v4, t4).1,
                joint(x1, v1, t1, x4, v4, t4).2,
                joint(x1, v1, t1, x4, v4, t4).3,
            ),
            matching(joint(x1, v1, t1, x4, v4, t4), v1, v4),
        ensures
            r.points() == joint(x1, v1, t1, x4, v4, t4),
            r.first() == at_time(x1, t1),
            r.last() == at_time(x4, t4),
            forall|len: S|
                #[trigger] Vector::is_magnitude(v1, len) && !same(len, zero()) ==> keeps_velocity(
                    r.points(),
                    zero(),
                    v1,
                ),
            forall|len: S|
                #[trigger] Vector::is_magnitude(v4, len) && !same(len, zero()) ==> keeps_velocity(
                    r.points(),
                    one(),
                    v4,
                ),
    {
        let (p1, p2, p3, p4) = Self::control_points_between(x1, v1, t1, x4, v4, t4);
        Bezier::new(p1, p2, p3, p4)
    }
}

/// The segment `next` starts in the state in which `prev` ends: the same
/// position at the same time.
pub open spec fn joined<S: Scalar>(prev: Bezier<S>, next: Bezier<S>) -> bool {
    &&& same(prev.last().x, next.first().x)
    &&& same(prev.last().y, next.first().y)
    &&& same(prev.last().z, next.first().z)
    &&& same(prev.last().w, next.first().w)
}

/// Position, velocity and acceleration of the curve `c` at `tau`, with
/// respect to time: the derivatives with respect to `tau` go through the
/// chain rule, since time need not grow evenly with `tau`.
pub open spec fn state_at<S: Scalar>(c: Bezier<S>, tau: S) -> (Vector<S>, Vector<S>, Vector<S>) {
    (position_at(c, tau), velocity_at(c, tau), acceleration_at(c, tau))
}

/// The point of the curve at `tau`, tagged as a position.
pub open spec fn position_at<S: Scalar>(c: Bezier<S>, tau: S) -> Vector<S> {
    at_time(c.point(tau), one())
}

/// The derivative of `tau` with respect to time at `tau`.
pub open spec fn pace<S: Scalar>(c: Bezier<S>, tau: S) -> S {
    quot(one(), c.rate(tau).w)
}

/// The velocity `dP/dtau · dtau/dt`, tagged as a direction.
pub open spec fn velocity_at<S: Scalar>(c: Bezier<S>, tau: S) -> Vector<S> {
    at_time(c.rate(tau).scaled(pace(c, tau)), zero())
}

/// The acceleration `d²P/dtau² · (dtau/dt)² + dP/dtau · d²tau/dt²`, where
/// `d²tau/dt²` is `-(d²t/dtau²) / (dt/dtau)³`, tagged as a direction.
pub open spec fn acceleration_at<S: Scalar>(c: Bezier<S>, tau: S) -> Vector<S> {
    let dt_dtau = c.rate(tau).w;
    let ddtau_dt2 = quot(opp(c.curvature(tau).w), prod(prod(dt_dtau, dt_dtau), dt_dtau));
    at_time(
        c.curvature(tau).scaled(prod(pace(c, tau), pace(c, tau))).plus(
            c.rate(tau).scaled(ddtau_dt2),
        ),
        zero(),
    )
}

/// A trajectory: segments in a row, each starting where the one before it
/// ends.
pub struct Spline<S: Scalar> {
    curve_list: Vec<Bezier<S>>,
}

impl<S: Scalar> Spline<S> {
    #[verifier::type_invariant]
    spec fn inv(self) -> bool {
        self.continuous()
    }

    /// The segments, the earliest first.
    pub closed spec fn curves(self) -> Seq<Bezier<S>> {
        self.curve_list@
    }

    /// Each segment starts where the one before it ends. This holds of
    /// every trajectory.
    pub open spec fn continuous(self) -> bool {
        forall|n: int|
            0 <= n < self.curves().len() - 1 ==> joined(
                #[trigger] self.curves()[n],
                self.curves()[n + 1],
            )
    }

    /// The segment with index `n` is the only one that covers the time `t`.
    pub open spec fn only_covers(self, n: int, t: S) -> bool {
        &&& 0 <= n < self.curves().len()
        &&& self.curves()[n].covers(t)
        &&& forall|m: int|
            0 <= m < self.curves().len() && (#[trigger] self.curves()[m]).covers(t) ==> m == n
    }

    /// Exactly one segment covers the time `t`.
    pub open spec fn covered_once(self, t: S) -> bool {
        exists|n: int| self.only_covers(n, t)
    }

    /// A trajectory without segments.
    pub fn new() -> (r: Spline<S>)
        ensures
            r.curves() == Seq::<Bezier<S>>::empty(),
    {
        Spline { curve_list: Vec::new() }
    }

    /// The number of segments, which are continuous.
    pub fn len(&self) -> (n: usize)
        ensures
            n == self.curves().len(),
            self.continuous(),
    {
        proof {
            use_type_invariant(self);
        }
        self.curve_list.len()
    }

    /// The trajectory can take `next` as its next segment: it is empty, or
    /// `next` starts in the state in which its last segment ends.
    pub open spec fn can_take(self, next: Bezier<S>) -> bool {
        self.curves().len() == 0 || joined(self.curves().last(), next)
    }

    /// Whether `next` starts in the state in which the last segment ends, in
    /// position and in time. A first segment always does.
    pub fn continues(&self, next: &Bezier<S>) -> (b: bool)
        requires
            regular::<S>(),
        ensures
            b == self.can_take(*next),
    {
        if self.curve_list.len() > 0 {
            let n = self.curve_list.len() - 1;
            let last_state = self.curve_list[n].p4;
            let start_state = next.p1;
            last_state.x == start_state.x && last_state.y == start_state.y && last_state.z
                == start_state.z && last_state.w == start_state.w
        } else {
            true
        }
    }

    /// Appends a segment that starts in the state in which the last one
    /// ends, in position and in time. A first segment is always taken.
    pub fn push_curve(&mut self, new_curve: Bezier<S>)
        requires
            regular::<S>(),
            old(self).can_take(new_curve),
        ensures
            final(self).curves() == old(self).curves().push(new_curve),
    {
        let mut taken = Spline { curve_list: Vec::new() };
        core::mem::swap(self, &mut taken);
        proof {
            use_type_invariant(&taken);
        }
        let ghost before = taken.curve_list@;
        let mut list = taken.curve_list;
        list.push(new_curve);
        assert forall|n: int| 0 <= n < list@.len() - 1 implies joined(
            #[trigger] list@[n],
            list@[n + 1],
        ) by {
            if n < before.len() - 1 {
                assert(joined(before[n], before[n + 1]));
            }
        }
        *self = Spline { curve_list: list };
    }

    /// The time at which the last segment ends.
    pub fn duration(&self) -> (r: S)
        requires
            self.curves().len() > 0,
        ensures
            r == self.curves().last().last().w,
    {
        self.curve_list[self.curve_list.len() - 1].p4.w
    }

    /// Whether exactly one segment covers the time `t`.
    pub fn covers_once(&self, t: S) -> (b: bool)
        requires
            regular::<S>(),
        ensures
            b == self.covered_once(t),
    {
        let mut found: Option<usize> = None;
        let mut twice = false;
        let mut m: usize = 0;
        while m < self.curve_list.len()
            invariant
                m <= self.curve_list@.len(),
                regular::<S>(),
                found matches Some(k) ==> k < m && self.curves()[k as int].covers(t),
                found is None ==> !twice && forall|j: int|
                    0 <= j < m ==> !(#[trigger] self.curves()[j]).covers(t),
                found matches Some(k) ==> !twice ==> forall|j: int|
                    0 <= j < m && (#[trigger] self.curves()[j]).covers(t) ==> j == k,
                twice ==> exists|i: int, j: int|
                    0 <= i < j < m && (#[trigger] self.curves()[i]).covers(t) && (
                    #[trigger] self.curves()[j]).covers(t),
            decreases self.curve_list@.len() - m,
        {
            if self.curve_list[m].p1.w <= t && t <= self.curve_list[m].p4.w {
                if found.is_some() {
                    twice = true;
                    assert(self.curves()[found.unwrap() as int].covers(t));
                    assert(self.curves()[m as int].covers(t));
                } else {
                    found = Some(m);
                }
            }
            m += 1;
        }
        match found {
            Some(n) if !twice => {
                assert(self.only_covers(n as int, t));
                true
            },
            _ => {
                assert(!self.covered_once(t)) by {
                    if self.covered_once(t) {
                        let n = choose|n: int| self.only_covers(n, t);
                        if twice {
                            let (i, j) = choose|i: int, j: int|
                                0 <= i < j < self.curves().len() && (
                                #[trigger] self.curves()[i]).covers(t) && (
                                #[trigger] self.curves()[j]).covers(t);
                            assert(i == n && j == n);
                        }
                    }
                }
                false
            },
        }
    }

    /// The one segment that covers the time `t`, and the parameter of `t`
    /// on it.
    pub fn find_n_tau(&self, t: S) -> (r: (usize, S))
        requires
            exact::<S>(),
            self.covered_once(t),
        ensures
            self.only_covers(r.0 as int, t),
            r.1 == self.curves()[r.0 as int].tau_of(t),
            in_unit(r.1),
    {
        let ghost n = choose|n: int| self.only_covers(n, t);
        let count = self.curve_list.len();
        let mut m: usize = 0;
        while !(self.curve_list[m].p1.w <= t && t <= self.curve_list[m].p4.w)
            invariant
                regular::<S>(),
                self.only_covers(n, t),
                m <= n < count == self.curve_list@.len(),
                forall|j: int| 0 <= j < m ==> !(#[trigger] self.curves()[j]).covers(t),
            decreases n - m,
        {
            assert(!self.curves()[m as int].covers(t));
            assert(m < n);
            m += 1;
        }
        assert(self.curves()[m as int].covers(t));
        let tau = self.curve_list[m].find_tau(t);
        (m, tau)
    }

    /// The position on the trajectory at the time `t`.
    pub fn sample(&self, t: S) -> (r: Vector<S>)
        requires
            exact::<S>(),
            self.covered_once(t),
        ensures
            forall|n: int|
                self.only_covers(n, t) ==> r == position_at(
                    self.curves()[n],
                    self.curves()[n].tau_of(t),
                ),
    {
        let (n, tau) = self.find_n_tau(t);
        let p = self.curve_list[n].sample_p(tau);
        p.to_position()
    }

    /// The velocity on the trajectory at the time `t`.
    pub fn sample_velocity(&self, t: S) -> (r: Vector<S>)
        requires
            exact::<S>(),
            self.covered_once(t),
        ensures
            forall|n: int|
                self.only_covers(n, t) ==> r == velocity_at(
                    self.curves()[n],
                    self.curves()[n].tau_of(t),
                ),
    {
        let (n, tau) = self.find_n_tau(t);
        let dp_dtau = self.curve_list[n].sample_dp_dtau(tau);
        let dt_dtau = dp_dtau.w;
        let dtau_dt = number::<S>(1) / dt_dtau;
        let dp_dt = dp_dtau * dtau_dt;
        dp_dt.to_translation()
    }

    /// The acceleration on the trajectory at the time `t`.
    pub fn sample_acceleration(&self, t: S) -> (r: Vector<S>)
        requires
            exact::<S>(),
            self.covered_once(t),
        ensures
            forall|n: int|
                self.only_covers(n, t) ==> r == acceleration_at(
                    self.curves()[n],
                    self.curves()[n].tau_of(t),
                ),
    {
        let (n, tau) = self.find_n_tau(t);
        let dp_dtau = self.curve_list[n].sample_dp_dtau(tau);
        let ddp_dtau2 = self.curve_list[n].sample_ddp_dtau2(tau);
        let dt_dtau = dp_dtau.w;
        let dtau_dt = number::<S>(1) / dt_dtau;
        let ddt_dtau2 = ddp_dtau2.w;
        let ddtau_dt2 = ddt_dtau2.neg() / (dt_dtau * dt_dtau * dt_dtau);
        let ddp_dt2 = ddp_dtau2 * (dtau_dt * dtau_dt) + dp_dtau * ddtau_dt2;
        ddp_dt2.to_translation()
    }

    /// Position, velocity and acceleration on the trajectory at the time
    /// `t`.
    pub fn sample_all(&self, t: S) -> (r: (Vector<S>, Vector<S>, Vector<S>))
        requires
            exact::<S>(),
            self.covered_once(t),
        ensures
            forall|n: int|
                self.only_covers(n, t) ==> r == state_at(
                    self.curves()[n],
                    self.curves()[n].tau_of(t),
                ),
    {
        let (n, tau) = self.find_n_tau(t);
        let p = self.curve_list[n].sample_p(tau);
        let dp_dtau = self.curve_list[n].sample_dp_dtau(tau);
        let ddp_dtau2 = self.curve_list[n].sample_ddp_dtau2(tau);
        let dt_dtau = dp_dtau.w;
        let dtau_dt = number::<S>(1) / dt_dtau;
        let dp_dt = dp_dtau * dtau_dt;
        let ddt_dtau2 = ddp_dtau2.w;
        let ddtau_dt2 = ddt_dtau2.neg() / (dt_dtau * dt_dtau * dt_dtau);
        let ddp_dt2 = ddp_dtau2 * (dtau_dt * dtau_dt) + dp_dtau * ddtau_dt2;
        (p.to_position(), dp_dt.to_translation(), ddp_dt2.to_translation())
    }
}

/// The control point at the whole numbers `x`, `y`, `z` and the time `t`.
pub open spec fn knot_spec<S: Scalar>(x: int, y: int, z: int, t: int) -> Vector<S> {
    Vector { x: num(x), y: num(y), z: num(z), w: num(t) }
}

/// The control point at the whole numbers `x`, `y`, `z` and the time `t`.
fn knot<S: Scalar>(x: i16, y: i16, z: i16, t: i16) -> (r: Vector<S>)
    requires
        regular::<S>(),
    ensures
        r == knot_spec::<S>(x as int, y as int, z as int, t as int),
{
    Vector::new(number(x), number(y), number(z), number(t))
}

/// Four control points, each at whole numbers `(x, y, z, t)`.
pub open spec fn segment_spec<S: Scalar>(
    a: (int, int, int, int),
    b: (int, int, int, int),
    c: (int, int, int, int),
    d: (int, int, int, int),
) -> (Vector<S>, Vector<S>, Vector<S>, Vector<S>) {
    (
        knot_spec(a.0, a.1, a.2, a.3),
        knot_spec(b.0, b.1, b.2, b.3),
        knot_spec(c.0, c.1, c.2, c.3),
        knot_spec(d.0, d.1, d.2, d.3),
    )
}

/// The control points of the two segments of [`lissajous`].
pub open spec fn lissajous_points<S: Scalar>() -> Seq<
    (Vector<S>, Vector<S>, Vector<S>, Vector<S>),
> {
    seq![
        segment_spec((0, 0, -3, 0), (5, 5, -3, 3), (5, -5, -5, 6), (0, 0, -5, 9)),
        segment_spec((0, 0, -5, 9), (-5, 5, -5, 12), (-5, -5, -3, 15), (0, 0, -3, 18)),
    ]
}

/// The control points of the eight segments of [`test_spline`].
pub open spec fn test_points<S: Scalar>() -> Seq<(Vector<S>, Vector<S>, Vector<S>, Vector<S>)> {
    seq![
        segment_spec((-2, -2, -4, 0), (0, -2, -4, 2), (0, -2, -8, 3), (3, -2, -8, 5)),
        segment_spec((3, -2, -8, 5), (6, -2, -8, 7), (6, -1, -4, 8), (3, -1, -4, 10)),
        segment_spec((3, -1, -4, 10), (0, -1, -4, 12), (0, 0, -8, 13), (3, 0, -8, 15)),
        segment_spec((3, 0, -8, 15), (6, 0, -8, 17), (6, 1, -4, 18), (3, 1, -4, 20)),
        segment_spec((3, 1, -4, 20), (0, 1, -4, 22), (-3, 1, -4, 24), (-3, 2, -4, 26)),
        segment_spec((-3, 2, -4, 26), (-3, 3, -4, 28), (-3, -2, -4, 29), (-3, -2, -4, 31)),
        segment_spec((-3, -2, -4, 31), (-3, -2, -4, 32), (-3, -2, -4, 33), (-3, -2, -4, 34)),
        segment_spec((-3, -2, -4, 34), (-3, -2, -4, 36), (-3, -2, -4, 37), (-2, -2, -4, 38)),
    ]
}

/// The trajectory `r` runs through the segments with the control points
/// `p`, in that order.
pub open spec fn runs_through<S: Scalar>(
    r: Spline<S>,
    p: Seq<(Vector<S>, Vector<S>, Vector<S>, Vector<S>)>,
) -> bool {
    &&& r.curves().len() == p.len()
    &&& forall|n: int| 0 <= n < p.len() ==> (#[trigger] r.curves()[n]).points() == p[n]
}

/// A figure of two loops, from time 0 to time 18.
pub fn lissajous<S: Scalar>() -> (r: Spline<S>)
    requires
        exact::<S>(),
    ensures
        runs_through(r, lissajous_points()),
{
    let mut spline = Spline::new();
    spline.push_curve(
        Bezier::new(knot(0, 0, -3, 0), knot(5, 5, -3, 3), knot(5, -5, -5, 6), knot(0, 0, -5, 9)),
    );
    spline.push_curve(
        Bezier::new(
            knot(0, 0, -5, 9),
            knot(-5, 5, -5, 12),
            knot(-5, -5, -3, 15),
            knot(0, 0, -3, 18),
        ),
    );
    spline
}

/// A course of eight segments, from time 0 to time 38.
pub fn test_spline<S: Scalar>() -> (r: Spline<S>)
    requires
        exact::<S>(),
    ensures
        runs_through(r, test_points()),
{
    let mut spline = Spline::new();
    spline.push_curve(
        Bezier::new(
            knot(-2, -2, -4, 0),
            knot(0, -2, -4, 2),
            knot(0, -2, -8, 3),
            knot(3, -2, -8, 5),
        ),
    );
    spline.push_curve(
        Bezier::new(
            knot(3, -2, -8, 5),
            knot(6, -2, -8, 7),
            knot(6, -1, -4, 8),
            knot(3, -1, -4, 10),
        ),
    );
    spline.push_curve(
        Bezier::new(
            knot(3, -1, -4, 10),
            knot(0, -1, -4, 12),
            knot(0, 0, -8, 13),
            knot(3, 0, -8, 15),
        ),
    );
    spline.push_curve(
        Bezier::new(
            knot(3, 0, -8, 15),
            knot(6, 0, -8, 17),
            knot(6, 1, -4, 18),
            knot(3, 1, -4, 20),
        ),
    );
    spline.push_curve(
        Bezier::new(
            knot(3, 1, -4, 20),
            knot(0, 1, -4, 22),
            knot(-3, 1, -4, 24),
            knot(-3, 2, -4, 26),
        ),
    );
    spline.push_curve(
        Bezier::new(
            knot(-3, 2, -4, 26),
            knot(-3, 3, -4, 28),
            knot(-3, -2, -4, 29),
            knot(-3, -2, -4, 31),
        ),
    );
    spline.push_curve(
        Bezier::new(
            knot(-3, -2, -4, 31),
            knot(-3, -2, -4, 32),
            knot(-3, -2, -4, 33),
            knot(-3, -2, -4, 34),
        ),
    );
    spline.push_curve(
        Bezier::new(
            knot(-3, -2, -4, 34),
            knot(-3, -2, -4, 36),
            knot(-3, -2, -4, 37),
            knot(-2, -2, -4, 38),
        ),
    );
    spline
}

/// Endpoint exactness: a segment is at its first control point at `tau`
/// zero and at its last at `tau` one, in position and in time.
pub proof fn lemma_endpoints<S: Scalar>(c: Bezier<S>)
    requires
        exact::<S>(),
    ensures
        c.point(zero()) == c.first(),
        c.point(one()) == c.last(),
{
    assert(weights::<S>(zero()) == (one::<S>(), zero::<S>(), zero::<S>(), zero::<S>()));
    assert(weights::<S>(one()) == (zero::<S>(), zero::<S>(), zero::<S>(), one::<S>()));
}

/// The segment between two states that can be joined starts in the first
/// state and ends in the second, exactly, and the first time is less than
/// the second.
pub proof fn lemma_merge_joins<S: Scalar>(
    c: Bezier<S>,
    x1: Vector<S>,
    v1: Vector<S>,
    t1: S,
    x4: Vector<S>,
    v4: Vector<S>,
    t4: S,
)
    requires
        exact::<S>(),
        c.points() == joint(x1, v1, t1, x4, v4, t4),
    ensures
        c.point(zero()) == at_time(x1, t1),
        c.point(one()) == at_time(x4, t4),
        rising(c.points().0, c.points().1, c.points().2, c.points().3) ==> less(t1, t4),
{
    lemma_endpoints(c);
    let p = c.points();
    if rising(p.0, p.1, p.2, p.3) {
        assert(less(p.0.w, p.2.w));
    }
}

/// The bisection keeps its target bracketed: after any number of halvings
/// the bracket lies within the range from zero to one, the time of the
/// curve at its lower end is not after `t` unless that end is still zero,
/// and the time at its upper end is after `t` unless that end is still one.
pub proof fn lemma_bracket<S: Scalar>(c: Bezier<S>, t: S, n: nat)
    requires
        exact::<S>(),
    ensures
        in_unit(c.bracket(t, n).0),
        in_unit(c.bracket(t, n).1),
        at_most(c.bracket(t, n).0, c.bracket(t, n).1),
        c.bracket(t, n).0 == zero::<S>() || !less(t, c.point(c.bracket(t, n).0).w),
        c.bracket(t, n).1 == one::<S>() || less(t, c.point(c.bracket(t, n).1).w),
    decreases n,
{
    assert(less(num::<S>(0), num::<S>(1)));
    if n > 0 {
        lemma_bracket(c, t, (n - 1) as nat);
    }
}

/// After `n` halvings the bracket of the bisection is as wide as one
/// halved `n` times.
pub proof fn lemma_bracket_width<S: Scalar>(c: Bezier<S>, t: S, n: nat)
    requires
        exact::<S>(),
        halving::<S>(),
    ensures
        diff(c.bracket(t, n).1, c.bracket(t, n).0) == halved::<S>(n),
    decreases n,
{
    if n > 0 {
        lemma_bracket_width(c, t, (n - 1) as nat);
        let (low, high) = c.bracket(t, (n - 1) as nat);
        assert(diff(mean(low, high), low) == prod(diff(high, low), ratio::<S>(1, 2)));
        assert(diff(high, mean(low, high)) == prod(diff(high, low), ratio::<S>(1, 2)));
    }
}

/// The bisection reaches its tolerance: it makes ten halvings, and the
/// bracket whose middle [`Bezier::find_tau`] returns is one halved ten
/// times wide, which is not more than a thousandth.
pub proof fn lemma_ten_halvings<S: Scalar>(c: Bezier<S>, t: S)
    requires
        exact::<S>(),
        halving::<S>(),
    ensures
        c.halvings_from(t, 0) == 10,
        diff(c.bracket(t, 10).1, c.bracket(t, 10).0) == halved::<S>(10),
        !wide(c.bracket(t, 10).0, c.bracket(t, 10).1),
        c.tau_of(t) == mean(c.bracket(t, 10).0, c.bracket(t, 10).1),
{
    lemma_bracket_width(c, t, 10);
    lemma_halvings_left(c, t, 0);
}

/// With no more than ten halvings made, the bisection goes on to ten.
proof fn lemma_halvings_left<S: Scalar>(c: Bezier<S>, t: S, n: nat)
    requires
        exact::<S>(),
        halving::<S>(),
        n <= 10,
    ensures
        c.halvings_from(t, n) == 10,
    decreases 10 - n,
{
    lemma_bracket_width(c, t, n);
    if n < 10 {
        assert(less(ratio::<S>(1, 1000), halved::<S>(n)));
        lemma_halvings_left(c, t, n + 1);
    }
}

/// The brackets of the bisection for two times in order are in order:
/// after any number of halvings they are the same, or the one for the
/// earlier time ends where the other starts or before.
pub proof fn lemma_brackets_in_order<S: Scalar>(c: Bezier<S>, t1: S, t2: S, n: nat)
    requires
        exact::<S>(),
        at_most(t1, t2),
    ensures
        c.bracket(t1, n) == c.bracket(t2, n) || at_most(c.bracket(t1, n).1, c.bracket(t2, n).0),
    decreases n,
{
    if n > 0 {
        let m = (n - 1) as nat;
        lemma_brackets_in_order(c, t1, t2, m);
        lemma_bracket(c, t1, m);
        lemma_bracket(c, t2, m);
        let (low1, high1) = c.bracket(t1, m);
        let (low2, high2) = c.bracket(t2, m);
        let mid1 = mean(low1, high1);
        let mid2 = mean(low2, high2);
        assert(at_most(low1, mid1) && at_most(mid1, high1));
        assert(at_most(low2, mid2) && at_most(mid2, high2));
        if c.bracket(t1, m) == c.bracket(t2, m) {
            // the earlier time cannot go up where the later goes down
            if less(t2, c.point(mid1).w) && less(t1, t2) {
                assert(less(t1, c.point(mid1).w));
            }
        } else {
            lemma_at_most_chain(mid1, high1, low2);
            lemma_at_most_chain(high1, low2, mid2);
            lemma_at_most_chain(mid1, low2, mid2);
        }
    }
}

/// `a <= b` and `b <= c` give `a <= c`.
proof fn lemma_at_most_chain<S: Scalar>(a: S, b: S, c: S)
    requires
        exact::<S>(),
        at_most(a, b),
        at_most(b, c),
    ensures
        at_most(a, c),
{
    if less(a, b) && less(b, c) {
        assert(less(a, c));
    }
}

/// The bisection keeps the order of two times: for the earlier of two
/// times [`Bezier::find_tau`] returns no greater a parameter than for the
/// later.
pub proof fn lemma_find_tau_keeps_order<S: Scalar>(c: Bezier<S>, t1: S, t2: S)
    requires
        regular::<S>(),
        field::<S>(),
        at_most(t1, t2),
    ensures
        at_most(c.tau_of(t1), c.tau_of(t2)),
{
    lemma_field_is_exact::<S>();
    lemma_field_halves::<S>();
    lemma_ten_halvings(c, t1);
    lemma_ten_halvings(c, t2);
    lemma_brackets_in_order(c, t1, t2, 10);
    lemma_bracket(c, t1, 10);
    lemma_bracket(c, t2, 10);
    let (low1, high1) = c.bracket(t1, 10);
    let (low2, high2) = c.bracket(t2, 10);
    assert(at_most(mean(low1, high1), high1));
    assert(at_most(low2, mean(low2, high2)));
    if c.bracket(t1, 10) != c.bracket(t2, 10) {
        lemma_at_most_chain(mean(low1, high1), high1, low2);
        lemma_at_most_chain(mean(low1, high1), low2, mean(low2, high2));
    }
}

/// The time of the curve rises with `tau`: of two parameters between zero
/// and one, the greater has the later time.
pub open spec fn time_rises<S: Scalar>(c: Bezier<S>) -> bool {
    forall|a: S, b: S|
        in_unit(a) && in_unit(b) && less(a, b) ==> less(
            (#[trigger] c.point(a)).w,
            (#[trigger] c.point(b)).w,
        )
}

/// The bisection inverts the time to within its tolerance: on a segment
/// whose time rises with `tau`, the parameter that [`Bezier::find_tau`]
/// returns for the time `t` differs by less than a thousandth from any
/// parameter at which the curve is at the time `t`.
pub proof fn lemma_find_tau_near<S: Scalar>(c: Bezier<S>, t: S, taus: S)
    requires
        regular::<S>(),
        field::<S>(),
        time_rises(c),
        in_unit(taus),
        c.point(taus).w == t,
    ensures
        less(diff(c.tau_of(t), taus), ratio::<S>(1, 1000)),
        less(diff(taus, c.tau_of(t)), ratio::<S>(1, 1000)),
{
    lemma_field_is_exact::<S>();
    lemma_field_halves::<S>();
    lemma_ten_halvings(c, t);
    lemma_bracket(c, t, 10);
    let (low, high) = c.bracket(t, 10);
    let r = c.tau_of(t);
    let w = halved::<S>(10);
    let e = prod(w, ratio::<S>(1, 2));
    let eps = ratio::<S>(1, 1000);
    assert(r == mean(low, high));

    // the bracket holds every parameter of `t`
    lemma_order_total(low, taus);
    lemma_order_total(taus, high);
    lemma_order_total(t, t);
    lemma_comparisons(low, taus);
    lemma_comparisons(taus, high);
    if less(taus, low) {
        assert(less(c.point(taus).w, c.point(low).w));
        if low == zero::<S>() {
            lemma_comparisons(zero::<S>(), taus);
            lemma_order_total(taus, taus);
            if less(zero::<S>(), taus) {
                lemma_order_transitive(taus, zero::<S>(), taus);
            }
        }
    }
    if less(high, taus) {
        assert(less(c.point(high).w, c.point(taus).w));
        if high == one::<S>() {
            lemma_comparisons(taus, one::<S>());
            lemma_order_total(taus, taus);
            if less(taus, one::<S>()) {
                lemma_order_transitive(taus, one::<S>(), taus);
            }
        } else {
            lemma_order_transitive(t, c.point(high).w, t);
        }
    }
    assert(at_most(low, taus) && at_most(taus, high));

    // the result is half a bracket from either end, and half a bracket is
    // less than the tolerance
    assert(diff(r, low) == e);
    assert(diff(high, r) == e);
    lemma_add_the_rest(low, r);
    lemma_add_the_rest(r, high);
    lemma_halved_positive::<S>(10);
    lemma_half_is_less(w);
    lemma_halved_bounds::<S>(10);
    lemma_order_total(w, eps);
    if less(w, eps) {
        lemma_order_transitive(e, w, eps);
    }
    assert(less(e, eps));

    // low <= taus, so r = low + e <= taus + e, and r - taus <= e
    lemma_at_most_shifts(low, taus, e);
    lemma_at_most_shifts(r, sum(taus, e), taus);
    lemma_add_then_take(taus, e);
    lemma_at_most_then_less(diff(r, taus), e, eps);

    // taus <= high = r + e, so taus - r <= e
    lemma_at_most_shifts(taus, sum(r, e), r);
    lemma_add_then_take(r, e);
    lemma_at_most_then_less(diff(taus, r), e, eps);
}

/// The derivatives of the weights at the two ends: at the start the curve
/// leaves the first point towards the second, at the end it comes to the
/// last from the third.
pub proof fn lemma_slopes_at_ends<S: Scalar>()
    requires
        regular::<S>(),
        field::<S>(),
    ensures
        slopes::<S>(zero()) == (num::<S>(-3), num::<S>(3), zero::<S>(), zero::<S>()),
        slopes::<S>(one()) == (zero::<S>(), zero::<S>(), num::<S>(-3), num::<S>(3)),
{
    lemma_field_is_exact::<S>();
    // 9 - 12 + 3 is zero, and -9 + 6 is -3
    lemma_difference(num::<S>(9), num::<S>(12));
    lemma_num_opposite::<S>(12);
    lemma_num_adds::<S>(9, -12);
    lemma_num_adds::<S>(-3, 3);
    lemma_num_adds::<S>(-9, 6);
}

/// At the start the derivative of a curve is three times the step from its
/// first control point to its second, and at the end three times the step
/// from its third to its last.
pub proof fn lemma_rate_at_ends<S: Scalar>(p: (Vector<S>, Vector<S>, Vector<S>, Vector<S>))
    requires
        regular::<S>(),
        field::<S>(),
    ensures
        blend_of(p, slopes(zero())) == p.1.minus(p.0).scaled(num(3)),
        blend_of(p, slopes(one())) == p.3.minus(p.2).scaled(num(3)),
{
    lemma_field_is_exact::<S>();
    lemma_slopes_at_ends::<S>();
    lemma_weighted_difference(p.0.x, p.1.x, 3);
    lemma_weighted_difference(p.0.y, p.1.y, 3);
    lemma_weighted_difference(p.0.z, p.1.z, 3);
    lemma_weighted_difference(p.0.w, p.1.w, 3);
    lemma_weighted_difference(p.2.x, p.3.x, 3);
    lemma_weighted_difference(p.2.y, p.3.y, 3);
    lemma_weighted_difference(p.2.z, p.3.z, 3);
    lemma_weighted_difference(p.2.w, p.3.w, 3);
}

/// A curve that makes a step of `v` times the time of the step, a positive
/// one, keeps the velocity `v`: from its first control point to its second
/// at the start, from its third to its last at the end.
pub proof fn lemma_keeps_velocity<S: Scalar>(
    p: (Vector<S>, Vector<S>, Vector<S>, Vector<S>),
    v: Vector<S>,
    h: S,
    at_end: bool,
)
    requires
        regular::<S>(),
        field::<S>(),
        less(zero(), h),
        !at_end ==> p.1.minus(p.0) == (Vector { w: h, ..v.scaled(h) }),
        at_end ==> p.3.minus(p.2) == (Vector { w: h, ..v.scaled(h) }),
    ensures
        !at_end ==> keeps_velocity(p, zero(), v),
        at_end ==> keeps_velocity(p, one(), v),
{
    lemma_field_is_exact::<S>();
    lemma_rate_at_ends(p);
    lemma_way_over_time(v.x, h);
    lemma_way_over_time(v.y, h);
    lemma_way_over_time(v.z, h);
    lemma_tolerance::<S>();
    lemma_num_order::<S>(0, 3);
    lemma_positive_product(h, num::<S>(3));
}

/// Two states can be joined if and only if their times are in order: in an
/// ordered field [`Bezier::merge`] asks no more than that the first time is
/// less than the second, and the curve then keeps both boundary velocities.
pub proof fn lemma_merge_in_order<S: Scalar>(
    x1: Vector<S>,
    v1: Vector<S>,
    t1: S,
    x4: Vector<S>,
    v4: Vector<S>,
    t4: S,
)
    requires
        regular::<S>(),
        field::<S>(),
    ensures
        less(t1, t4) <==> rising(
            joint(x1, v1, t1, x4, v4, t4).0,
            joint(x1, v1, t1, x4, v4, t4).1,
            joint(x1, v1, t1, x4, v4, t4).2,
            joint(x1, v1, t1, x4, v4, t4).3,
        ),
        less(t1, t4) ==> matching(joint(x1, v1, t1, x4, v4, t4), v1, v4),
        less(t1, t4) ==> keeps_velocity(joint(x1, v1, t1, x4, v4, t4), zero(), v1),
        less(t1, t4) ==> keeps_velocity(joint(x1, v1, t1, x4, v4, t4), one(), v4),
{
    lemma_field_is_exact::<S>();
    let p = joint(x1, v1, t1, x4, v4, t4);
    if rising(p.0, p.1, p.2, p.3) {
        assert(less(p.0.w, p.2.w));
    }
    if less(t1, t4) {
        lemma_thirds(t1, t4);
        assert(rising(p.0, p.1, p.2, p.3));

        let h1 = diff(p.1.w, p.0.w);
        lemma_positive_difference(p.0.w, p.1.w);
        lemma_add_then_take(x1.x, prod(v1.x, h1));
        lemma_add_then_take(x1.y, prod(v1.y, h1));
        lemma_add_then_take(x1.z, prod(v1.z, h1));
        lemma_keeps_velocity(p, v1, h1, false);

        let h4 = diff(p.3.w, p.2.w);
        lemma_positive_difference(p.2.w, p.3.w);
        lemma_take_twice(x4.x, prod(v4.x, h4));
        lemma_take_twice(x4.y, prod(v4.y, h4));
        lemma_take_twice(x4.z, prod(v4.z, h4));
        lemma_keeps_velocity(p, v4, h4, true);
    }
}

} // verus!
