//! The acceleration law that ground and air movement share, and the
//! capture of the pointer.
use crate::components::{CursorOptions, FpsController};
use crate::fixed::{
    lemma_mul_magnitude, lemma_sqrt_floor_exists, lemma_sqrt_floor_le, Fixed, ONE_RAW,
};
use crate::vector::Vec3;
use vstd::prelude::*;

verus! {

/// The speed that `acceleration` may add in one step: the smaller of
/// `accel * wish_speed * dt` and of what the velocity lacks to reach
/// `wish_speed` along `wish_direction`.
pub open spec fn acceleration_limit(
    wish_direction: Vec3,
    wish_speed: Fixed,
    accel: Fixed,
    velocity: Vec3,
    dt: Fixed,
) -> Fixed {
    accel.mul(wish_speed).mul(dt).min(wish_speed.sub(velocity.dot(wish_direction)))
}

/// The velocity that one step adds: nothing where the velocity already has
/// `wish_speed` along `wish_direction`, else `wish_direction` scaled by the
/// acceleration limit.
pub open spec fn spec_acceleration(
    wish_direction: Vec3,
    wish_speed: Fixed,
    accel: Fixed,
    velocity: Vec3,
    dt: Fixed,
) -> Vec3 {
    if wish_speed.sub(velocity.dot(wish_direction)).raw <= 0 {
        Vec3::zero()
    } else {
        wish_direction.scale(
            acceleration_limit(wish_direction, wish_speed, accel, velocity, dt),
        )
    }
}

/// The velocity to add in a step of `dt` so that the speed along
/// `wish_direction` approaches `wish_speed` without passing it. A body that
/// already has the wish speed along the wish direction gains nothing, and is
/// not slowed either.
#[verifier::when_used_as_spec(spec_acceleration)]
pub fn acceleration(
    wish_direction: Vec3,
    wish_speed: Fixed,
    accel: Fixed,
    velocity: Vec3,
    dt: Fixed,
) -> (add: Vec3)
    ensures
        add == spec_acceleration(wish_direction, wish_speed, accel, velocity, dt),
        velocity.dot(wish_direction).raw >= wish_speed.raw ==> add == Vec3::zero(),
{
    let velocity_projection: Fixed = velocity.dot(wish_direction);
    let add_speed: Fixed = wish_speed.sub(velocity_projection);
    if add_speed.raw <= 0 {
        return Vec3::zero();
    }
    let acceleration_speed: Fixed = accel.mul(wish_speed).mul(dt).min(add_speed);
    wish_direction.scale(acceleration_speed)
}

/// The length of what `acceleration` adds is at most the acceleration
/// limit times the length of the wish direction: for a wish direction no
/// longer than `bound` raw units and a limit that is not negative, the
/// length times one is at most the limit times `bound`.
pub proof fn lemma_acceleration_bounded_by(
    wish_direction: Vec3,
    wish_speed: Fixed,
    accel: Fixed,
    velocity: Vec3,
    dt: Fixed,
    bound: int,
)
    requires
        0 <= bound,
        wish_direction.raw_length_squared() <= bound * bound,
        acceleration_limit(wish_direction, wish_speed, accel, velocity, dt).raw >= 0,
    ensures
        spec_acceleration(wish_direction, wish_speed, accel, velocity, dt).length().raw * ONE_RAW
            <= acceleration_limit(wish_direction, wish_speed, accel, velocity, dt).raw * bound,
{
    let limit = acceleration_limit(wish_direction, wish_speed, accel, velocity, dt);
    let add = spec_acceleration(wish_direction, wish_speed, accel, velocity, dt);
    let s = limit.raw as int;
    let one = ONE_RAW as int;
    assert(0 <= s * bound) by (nonlinear_arith)
        requires
            0 <= s,
            0 <= bound,
    ;
    if wish_speed.sub(velocity.dot(wish_direction)).raw <= 0 {
        assert(add.raw_length_squared() == 0);
        lemma_sqrt_floor_le(0, 0);
    } else {
        let wx = wish_direction.x.raw as int;
        let wy = wish_direction.y.raw as int;
        let wz = wish_direction.z.raw as int;
        lemma_mul_magnitude(wish_direction.x, limit);
        lemma_mul_magnitude(wish_direction.y, limit);
        lemma_mul_magnitude(wish_direction.z, limit);
        let qx = add.x.raw as int;
        let qy = add.y.raw as int;
        let qz = add.z.raw as int;
        let n = add.raw_length_squared();
        let one2 = one * one;
        let w2 = wx * wx + wy * wy + wz * wz;
        let t = s * s;
        assert(0 <= n && 0 <= t) by (nonlinear_arith)
            requires
                n == qx * qx + qy * qy + qz * qz,
                t == s * s,
        ;
        assert(n * one2 <= w2 * t) by (nonlinear_arith)
            requires
                n == qx * qx + qy * qy + qz * qz,
                w2 == wx * wx + wy * wy + wz * wz,
                t == s * s,
                (qx * qx) * one2 <= (wx * wx) * t,
                (qy * qy) * one2 <= (wy * wy) * t,
                (qz * qz) * one2 <= (wz * wz) * t,
        ;
        assert(w2 * t <= (bound * bound) * t) by (nonlinear_arith)
            requires
                w2 <= bound * bound,
                0 <= t,
        ;
        let r = lemma_sqrt_floor_exists(n);
        // r * one is at most s * bound, since its square is.
        assert((r * one) * (r * one) <= (s * bound) * (s * bound)) by (nonlinear_arith)
            requires
                r * r <= n,
                n * one2 <= (bound * bound) * t,
                one2 == one * one,
                t == s * s,
        ;
        if r * one > s * bound {
            assert((r * one) * (r * one) > (s * bound) * (s * bound)) by (nonlinear_arith)
                requires
                    r * one > s * bound,
                    0 <= s * bound,
            ;
        }
        assert(add.length().raw <= r);
        assert(add.length().raw * one <= r * one) by (nonlinear_arith)
            requires
                add.length().raw <= r,
                one > 0,
        ;
    }
}

/// The length of what `acceleration` adds never exceeds the acceleration
/// limit, for a wish direction no longer than one and a limit that is not
/// negative.
pub proof fn lemma_acceleration_bounded(
    wish_direction: Vec3,
    wish_speed: Fixed,
    accel: Fixed,
    velocity: Vec3,
    dt: Fixed,
)
    requires
        wish_direction.raw_length_squared() <= ONE_RAW * ONE_RAW,
        acceleration_limit(wish_direction, wish_speed, accel, velocity, dt).raw >= 0,
    ensures
        spec_acceleration(wish_direction, wish_speed, accel, velocity, dt).length().raw
            <= acceleration_limit(wish_direction, wish_speed, accel, velocity, dt).raw,
{
    lemma_acceleration_bounded_by(
        wish_direction,
        wish_speed,
        accel,
        velocity,
        dt,
        ONE_RAW as int,
    );
}

/// The pointer after a click and the escape key: a click captures it, the
/// escape key releases it, and the escape key wins where both come at once.
pub open spec fn spec_cursor_after(left_click: bool, escape: bool, cursor: CursorOptions) -> CursorOptions {
    if escape {
        CursorOptions { locked: false, visible: true }
    } else if left_click {
        CursorOptions { locked: true, visible: false }
    } else {
        cursor
    }
}

/// Whether input is enabled after a click and the escape key: a click
/// enables it, the escape key disables it and wins where both come at once.
pub open spec fn spec_enable_after(left_click: bool, escape: bool, enable_input: bool) -> bool {
    if escape {
        false
    } else if left_click {
        true
    } else {
        enable_input
    }
}

/// The controller with `enable_input` as a click and the escape key leave
/// it.
pub open spec fn spec_controller_after(
    left_click: bool,
    escape: bool,
    controller: FpsController,
) -> FpsController {
    FpsController {
        enable_input: spec_enable_after(left_click, escape, controller.enable_input),
        ..controller
    }
}

/// Captures the pointer and enables every controller on a click; releases
/// the pointer and disables every controller on the escape key.
pub fn manage_cursor(
    left_click: bool,
    escape: bool,
    cursor: &mut CursorOptions,
    controllers: &mut Vec<FpsController>,
)
    ensures
        *final(cursor) == spec_cursor_after(left_click, escape, *old(cursor)),
        final(controllers)@.len() == old(controllers)@.len(),
        forall|i: int|
            0 <= i < old(controllers)@.len() ==> #[trigger] final(controllers)@[i]
                == spec_controller_after(left_click, escape, old(controllers)@[i]),
{
    if left_click {
        cursor.locked = true;
        cursor.visible = false;
    }
    if escape {
        cursor.locked = false;
        cursor.visible = true;
    }
    let mut i: usize = 0;
    while i < controllers.len()
        invariant
            i <= controllers.len(),
            controllers@.len() == old(controllers)@.len(),
            forall|j: int|
                0 <= j < i ==> #[trigger] controllers@[j] == spec_controller_after(
                    left_click,
                    escape,
                    old(controllers)@[j],
                ),
            forall|j: int| i <= j < controllers@.len() ==> controllers@[j] == old(controllers)@[j],
        decreases controllers.len() - i,
    {
        let mut controller: FpsController = controllers[i];
        if left_click {
            controller.enable_input = true;
        }
        if escape {
            controller.enable_input = false;
        }
        controllers[i] = controller;
        i = i + 1;
    }
}

} // verus!
