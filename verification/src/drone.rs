//! The flight controller of a quadrotor.
//!
//! Seen from above, with the first axis `x` of the body pointing forward
//! and the third axis `z` to the right:
//!
//! ```text
//!        x
//!     2     1
//!              z
//!     3     4
//! ```
//!
//! The motors are numbered 1 to 4: front right, front left, back left, back
//! right, and every tuple of four commands has this order. Roll is the
//! rotation about `x`, pitch the one about `z`, yaw the one about the up
//! axis `y`.
use crate::field::{
    field, lemma_common_factor, lemma_field_is_exact, lemma_lin_adds, lemma_lin_single,
    lemma_lin_takes, lemma_num_order, lemma_order_total, lemma_prod_associates,
    lemma_prod_commutes, lemma_quotient, lin,
};
use crate::object::Object;
use crate::objectmanager::{ObjectManager, ObjectTag};
use crate::scalar::{
    diff, exact, fraction, num, number, one, opp, prod, quot, ratio, regular, sum, zero, Scalar,
};
use crate::vector::{lemma_parallel_cross, Vector};
use core::ops::Neg;
use vstd::prelude::*;

verus! {

/// The gain on the angular velocity. It is negative: it damps.
pub open spec fn beta<S: Scalar>() -> S {
    num(-25)
}

/// The gain on the angular error, `beta² / 4`: critical damping.
pub open spec fn alpha<S: Scalar>() -> S {
    quot(prod(beta::<S>(), beta::<S>()), num(4))
}

/// The four motor commands for a thrust and three corrections, each a
/// quarter of a signed sum.
pub open spec fn mix<S: Scalar>(thrust: S, roll: S, pitch: S, yaw: S) -> (S, S, S, S) {
    let quarter = ratio::<S>(1, 4);
    (
        prod(sum(sum(diff(thrust, roll), pitch), yaw), quarter),
        prod(diff(sum(sum(thrust, roll), pitch), yaw), quarter),
        prod(sum(diff(sum(thrust, roll), pitch), yaw), quarter),
        prod(diff(diff(diff(thrust, roll), pitch), yaw), quarter),
    )
}

/// The correction that the controller asks for, in the world frame: the
/// angular velocity times `beta`, plus the axis of the error times the
/// angle of the error times `alpha`. No axis counts as the null vector.
pub open spec fn correction<S: Scalar>(
    angular_velocity: Vector<S>,
    axis: Option<Vector<S>>,
    angle: S,
) -> Vector<S> {
    let axis_desired = match axis {
        Some(a) => a,
        None => Vector::null_spec(),
    };
    angular_velocity.scaled(beta()).plus(axis_desired.scaled(angle).scaled(alpha()))
}

/// The motor commands of `drone` for the desired acceleration `a_target`,
/// from the axis and the angle of the error, the length of `a_target` and
/// the cosine of the angle between the up axis of the body and `a_target`.
/// Nothing where the angle or the cosine is undefined.
pub open spec fn commands<S: Scalar>(
    drone: Object<S>,
    a_target: Vector<S>,
    axis: Option<Vector<S>>,
    angle: Option<S>,
    len: S,
    cosine: Option<S>,
) -> Option<(S, S, S, S)> {
    match (angle, cosine) {
        (Some(error), Some(c)) => {
            let total = correction(drone.angular_velocity, axis, error);
            let roll = Vector::dot_spec(total, drone.rotation.column_x());
            let pitch = Vector::dot_spec(total, drone.rotation.column_z());
            let yaw = Vector::dot_spec(total, drone.rotation.column_y());
            let thrust = prod(prod(len, drone.mass), c);
            Some(mix(thrust, roll, pitch, yaw))
        },
        _ => None,
    }
}

/// `r` is what [`get_pwm`] answers: the [`commands`] for an axis, an angle,
/// a length and a cosine as the vector functions give them.
pub open spec fn is_pwm<S: Scalar>(
    r: Option<(S, S, S, S)>,
    drone: Object<S>,
    a_target: Vector<S>,
) -> bool {
    let up = drone.rotation.column_y();
    exists|axis: Option<Vector<S>>, angle: Option<S>, len: S, cosine: Option<S>|
        {
            &&& #[trigger] Vector::is_normalized(Vector::cross_spec(up, a_target), axis)
            &&& #[trigger] Vector::is_angle(up, a_target, angle)
            &&& #[trigger] Vector::is_magnitude(a_target, len)
            &&& #[trigger] Vector::is_cos_angle(up, a_target, cosine)
            &&& r == commands(drone, a_target, axis, angle, len, cosine)
        }
}

/// The force along the up axis of the body that four motor commands give:
/// their sum.
pub open spec fn lift<S: Scalar>(pwm1: S, pwm2: S, pwm3: S, pwm4: S) -> Vector<S> {
    (Vector { x: zero(), y: crate::scalar::one(), z: zero(), w: zero() }).scaled(
        sum(sum(sum(pwm1, pwm2), pwm3), pwm4),
    )
}

/// The torque in the frame of the body that four motor commands give,
/// about roll, yaw and pitch in that order of components.
pub open spec fn twist<S: Scalar>(pwm1: S, pwm2: S, pwm3: S, pwm4: S) -> Vector<S> {
    Vector {
        x: diff(sum(sum(opp(pwm1), pwm2), pwm3), pwm4),
        y: diff(sum(diff(pwm1, pwm2), pwm3), pwm4),
        z: diff(diff(sum(pwm1, pwm2), pwm3), pwm4),
        w: zero(),
    }
}

/// The four motor commands that turn the up axis of `drone` towards the
/// desired acceleration `a_target`, a direction in the world frame, and
/// give the thrust for the part of it along the up axis. A command may be
/// negative. Nothing where `a_target` has no direction.
pub fn get_pwm<S: Scalar>(drone: &Object<S>, a_target: Vector<S>) -> (r: Option<(S, S, S, S)>)
    requires
        exact::<S>(),
        drone.rotation.unit(),
        drone.angular_velocity.is_direction(),
        a_target.is_direction(),
    ensures
        is_pwm(r, *drone, a_target),
{
    let beta: S = number(-25);
    let alpha: S = beta * beta / number(4);

    let local_to_world = drone.rotation.to_matrix();
    let derivative_action = drone.angular_velocity * beta;

    let local_x = local_to_world.0[0];
    let local_y = local_to_world.0[1];
    let local_z = local_to_world.0[2];

    let axis = Vector::normalize(Vector::cross(local_y, a_target));
    let axis_desired = match axis {
        Some(a) => a,
        None => Vector::null(),
    };
    let angle = Vector::angle(local_y, a_target);
    let len = Vector::magnitude(a_target);
    let cosine = Vector::cos_angle(local_y, a_target);

    match (angle, cosine) {
        (Some(error), Some(c)) => {
            let proportional_action = axis_desired * error * alpha;
            let total_action = derivative_action + proportional_action;

            let roll_action = Vector::dot(total_action, local_x);
            let pitch_action = Vector::dot(total_action, local_z);
            let yaw_action = Vector::dot(total_action, local_y);

            let thrust = len * drone.mass * c;
            let quarter = fraction::<S>(1, 4);
            Some(
                (
                    (thrust - roll_action + pitch_action + yaw_action) * quarter,
                    (thrust + roll_action + pitch_action - yaw_action) * quarter,
                    (thrust + roll_action - pitch_action + yaw_action) * quarter,
                    (thrust - roll_action - pitch_action - yaw_action) * quarter,
                ),
            )
        },
        _ => None,
    }
}

/// Applies four motor commands to the body that the tag names: the lift
/// and the twist, turned from the frame of the body into the world frame
/// by the orientation of the body, are added to what waits for it.
pub fn apply_pwm<S: Scalar>(
    object_manager: &mut ObjectManager<S>,
    drone_tag: &ObjectTag,
    pwm1: S,
    pwm2: S,
    pwm3: S,
    pwm4: S,
)
    requires
        exact::<S>(),
        old(object_manager).wf(),
        old(object_manager).holds(drone_tag),
        old(object_manager).bodies()[drone_tag.index()].rotation.unit(),
    ensures
        final(object_manager).wf(),
        final(object_manager).bodies() == old(object_manager).bodies(),
        final(object_manager).pending_forces() == old(object_manager).pending_forces().update(
            drone_tag.index(),
            old(object_manager).pending_forces()[drone_tag.index()].plus(
                old(object_manager).bodies()[drone_tag.index()].rotation.turned(
                    lift(pwm1, pwm2, pwm3, pwm4),
                ),
            ),
        ),
        final(object_manager).pending_torques() == old(object_manager).pending_torques().update(
            drone_tag.index(),
            old(object_manager).pending_torques()[drone_tag.index()].plus(
                old(object_manager).bodies()[drone_tag.index()].rotation.turned(
                    twist(pwm1, pwm2, pwm3, pwm4),
                ),
            ),
        ),
{
    let local_to_world = object_manager.get_object(drone_tag).rotation.to_matrix();

    let force_local = Vector::<S>::ey() * (pwm1 + pwm2 + pwm3 + pwm4);
    let torque_local = Vector {
        x: pwm1.neg() + pwm2 + pwm3 - pwm4,
        y: pwm1 - pwm2 + pwm3 - pwm4,
        z: pwm1 + pwm2 - pwm3 - pwm4,
        w: number(0),
    };

    let force = local_to_world * force_local;
    let torque = local_to_world * torque_local;

    object_manager.apply_force_torque(force, torque, drone_tag);
}

/// Symmetry: for a body that does not turn and an error angle of zero,
/// the correction is null and each of the four commands is a quarter of
/// the thrust, `len · mass · cosine`.
pub proof fn lemma_symmetry<S: Scalar>(
    drone: Object<S>,
    a_target: Vector<S>,
    axis: Option<Vector<S>>,
    len: S,
    cosine: S,
)
    requires
        exact::<S>(),
        drone.angular_velocity == Vector::<S>::null_spec(),
    ensures
        correction(drone.angular_velocity, axis, zero()) == Vector::<S>::null_spec(),
        commands(drone, a_target, axis, Some(zero()), len, Some(cosine)) == Some(
            (
                prod(prod(prod(len, drone.mass), cosine), ratio::<S>(1, 4)),
                prod(prod(prod(len, drone.mass), cosine), ratio::<S>(1, 4)),
                prod(prod(prod(len, drone.mass), cosine), ratio::<S>(1, 4)),
                prod(prod(prod(len, drone.mass), cosine), ratio::<S>(1, 4)),
            ),
        ),
{
    let null = Vector::<S>::null_spec();
    let total = correction(drone.angular_velocity, axis, zero());
    assert(drone.angular_velocity.scaled(beta()) == null);
    assert(total == null);
    assert(Vector::dot_spec(total, drone.rotation.column_x()) == zero::<S>());
    assert(Vector::dot_spec(total, drone.rotation.column_y()) == zero::<S>());
    assert(Vector::dot_spec(total, drone.rotation.column_z()) == zero::<S>());
}

/// Symmetry for a desired acceleration along the up axis: for a body that
/// does not turn and a desired acceleration that is a multiple of its up
/// axis, whatever [`get_pwm`] answers has four equal commands, each a
/// quarter of the thrust: of a length of `a_target`, times the mass, times
/// a cosine of the angle between the up axis and `a_target`.
pub proof fn lemma_aligned_commands<S: Scalar>(drone: Object<S>, s: S, r: Option<(S, S, S, S)>)
    requires
        regular::<S>(),
        field::<S>(),
        drone.angular_velocity == Vector::<S>::null_spec(),
        is_pwm(r, drone, drone.rotation.column_y().scaled(s)),
    ensures
        r matches Some(t) ==> {
            &&& t.0 == t.1
            &&& t.1 == t.2
            &&& t.2 == t.3
            &&& exists|len: S, cosine: S|
                {
                    &&& #[trigger] Vector::is_magnitude(drone.rotation.column_y().scaled(s), len)
                    &&& #[trigger] Vector::is_cos_angle(
                        drone.rotation.column_y(),
                        drone.rotation.column_y().scaled(s),
                        Some(cosine),
                    )
                    &&& t.0 == prod(prod(prod(len, drone.mass), cosine), ratio::<S>(1, 4))
                }
        },
{
    lemma_field_is_exact::<S>();
    let up = drone.rotation.column_y();
    let a_target = up.scaled(s);
    let null = Vector::<S>::null_spec();
    lemma_parallel_cross(up, s);
    let (axis, angle, len, cosine) = choose|
        axis: Option<Vector<S>>,
        angle: Option<S>,
        len: S,
        cosine: Option<S>,
    |
        {
            &&& #[trigger] Vector::is_normalized(Vector::cross_spec(up, a_target), axis)
            &&& #[trigger] Vector::is_angle(up, a_target, angle)
            &&& #[trigger] Vector::is_magnitude(a_target, len)
            &&& #[trigger] Vector::is_cos_angle(up, a_target, cosine)
            &&& r == commands(drone, a_target, axis, angle, len, cosine)
        };
    // the axis of the error is missing or null
    let root = choose|root: S| #[trigger]
        Vector::is_magnitude(null, root) && axis == Vector::normalized_by(null, root);
    if axis is Some {
        assert(null.shrunk(root) == null);
    }
    if r is Some {
        let error = angle->0;
        let total = correction(drone.angular_velocity, axis, error);
        assert(drone.angular_velocity.scaled(beta()) == null);
        assert(total == null);
        assert(Vector::dot_spec(total, drone.rotation.column_x()) == zero::<S>());
        assert(Vector::dot_spec(total, drone.rotation.column_y()) == zero::<S>());
        assert(Vector::dot_spec(total, drone.rotation.column_z()) == zero::<S>());
        assert(Vector::is_cos_angle(up, a_target, Some(cosine->0)));
    }
}

/// The motors undo the mixing: the four commands that [`mix`] makes of a
/// thrust and three corrections give that thrust as their lift, and the
/// corrections as their twist, roll about the first axis, yaw about the
/// second and pitch about the third.
pub proof fn lemma_motors_undo_mix<S: Scalar>(thrust: S, roll: S, pitch: S, yaw: S)
    requires
        regular::<S>(),
        field::<S>(),
    ensures
        ({
            let t = mix(thrust, roll, pitch, yaw);
            &&& lift(t.0, t.1, t.2, t.3) == (Vector {
                x: zero::<S>(),
                y: thrust,
                z: zero::<S>(),
                w: zero::<S>(),
            })
            &&& twist(t.0, t.1, t.2, t.3) == (Vector { x: roll, y: yaw, z: pitch, w: zero::<S>() })
        }),
{
    lemma_field_is_exact::<S>();
    let v = (thrust, roll, pitch, yaw);
    let q = ratio::<S>(1, 4);
    let four = num::<S>(4);
    let t = mix(thrust, roll, pitch, yaw);
    lemma_lin_single(v, 1);
    let ct = (1int, 0int, 0int, 0int);
    let cr = (0int, 1int, 0int, 0int);
    let cp = (0int, 0int, 1int, 0int);
    let cy = (0int, 0int, 0int, 1int);
    // the four signed sums
    let c1 = (1int, -1int, 1int, 1int);
    let c2 = (1int, 1int, 1int, -1int);
    let c3 = (1int, 1int, -1int, 1int);
    let c4 = (1int, -1int, -1int, -1int);
    assert(t.0 == prod(lin(v, c1), q)) by {
        lemma_lin_takes(v, ct, cr);
        lemma_lin_adds(v, (1int, -1int, 0int, 0int), cp);
        lemma_lin_adds(v, (1int, -1int, 1int, 0int), cy);
    }
    assert(t.1 == prod(lin(v, c2), q)) by {
        lemma_lin_adds(v, ct, cr);
        lemma_lin_adds(v, (1int, 1int, 0int, 0int), cp);
        lemma_lin_takes(v, (1int, 1int, 1int, 0int), cy);
    }
    assert(t.2 == prod(lin(v, c3), q)) by {
        lemma_lin_adds(v, ct, cr);
        lemma_lin_takes(v, (1int, 1int, 0int, 0int), cp);
        lemma_lin_adds(v, (1int, 1int, -1int, 0int), cy);
    }
    assert(t.3 == prod(lin(v, c4), q)) by {
        lemma_lin_takes(v, ct, cr);
        lemma_lin_takes(v, (1int, -1int, 0int, 0int), cp);
        lemma_lin_takes(v, (1int, -1int, -1int, 0int), cy);
    }
    // four quarters are one
    assert(forall|x: S| #[trigger] prod(prod(x, four), q) == x) by {
        lemma_num_order::<S>(0, 4);
        lemma_order_total(zero::<S>(), zero::<S>());
        lemma_quotient(one::<S>(), four);
        lemma_prod_commutes(q, four);
        assert forall|x: S| #[trigger] prod(prod(x, four), q) == x by {
            lemma_prod_associates(x, four, q);
        }
    }
    lemma_lin_single(v, 4);
    let (e1, e2, e3, e4) = (lin(v, c1), lin(v, c2), lin(v, c3), lin(v, c4));

    // the lift
    assert(sum(sum(sum(t.0, t.1), t.2), t.3) == thrust) by {
        lemma_common_factor(e1, e2, q);
        lemma_common_factor(sum(e1, e2), e3, q);
        lemma_common_factor(sum(sum(e1, e2), e3), e4, q);
        lemma_lin_adds(v, c1, c2);
        lemma_lin_adds(v, (2int, 0int, 2int, 0int), c3);
        lemma_lin_adds(v, (3int, 1int, 1int, 1int), c4);
    }
    // the roll
    assert(diff(sum(sum(opp(t.0), t.1), t.2), t.3) == roll) by {
        lemma_common_factor(e1, e1, q);
        lemma_lin_takes(v, c1, c1);
        let n1 = lin(v, (-1int, 1int, -1int, -1int));
        lemma_common_factor(n1, e2, q);
        lemma_common_factor(sum(n1, e2), e3, q);
        lemma_common_factor(sum(sum(n1, e2), e3), e4, q);
        lemma_lin_adds(v, (-1int, 1int, -1int, -1int), c2);
        lemma_lin_adds(v, (0int, 2int, 0int, -2int), c3);
        lemma_lin_takes(v, (1int, 3int, -1int, -1int), c4);
    }
    // the yaw
    assert(diff(sum(diff(t.0, t.1), t.2), t.3) == yaw) by {
        lemma_common_factor(e1, e2, q);
        lemma_common_factor(diff(e1, e2), e3, q);
        lemma_common_factor(sum(diff(e1, e2), e3), e4, q);
        lemma_lin_takes(v, c1, c2);
        lemma_lin_adds(v, (0int, -2int, 0int, 2int), c3);
        lemma_lin_takes(v, (1int, -1int, -1int, 3int), c4);
    }
    // the pitch
    assert(diff(diff(sum(t.0, t.1), t.2), t.3) == pitch) by {
        lemma_common_factor(e1, e2, q);
        lemma_common_factor(sum(e1, e2), e3, q);
        lemma_common_factor(diff(sum(e1, e2), e3), e4, q);
        lemma_lin_adds(v, c1, c2);
        lemma_lin_takes(v, (2int, 0int, 2int, 0int), c3);
        lemma_lin_takes(v, (1int, -1int, 3int, -1int), c4);
    }
}

} // verus!
