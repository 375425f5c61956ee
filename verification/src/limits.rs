//! Bounds on the speeds that friction and the air cap leave.
use crate::components::{
    FpsController, FpsControllerInput, LogicalBody, LookTrig, ShapeHitData, SinCos, EPSILON_RAW,
};
use crate::fixed::{
    lemma_div_magnitude, lemma_mul_magnitude, lemma_one_is_neutral, lemma_sqrt_floor_exists,
    lemma_sqrt_floor_monotonic, lemma_zero_absorbs, saturate, trunc_div, Fixed, ONE_RAW,
};
use crate::movement::{
    lemma_move_friction_scene, lemma_shape_hits_frame, spec_fps_controller_move,
    spec_friction_scene, spec_next_mode, spec_primed, spec_walks, spec_air_gain, spec_air_velocity, spec_calculate_wish_movement, spec_cap_lateral_speed,
    spec_friction_drop, spec_friction_factor, spec_ground_friction, spec_wish_vector,
};
use crate::util::{acceleration_limit, lemma_acceleration_bounded_by, spec_acceleration};
use crate::vector::{lemma_length_rounds_down, lemma_normalized_length, spec_unit_bound, Vec3};
use vstd::prelude::*;

verus! {

/// A raw component scaled by a factor from zero to one keeps its sign and
/// does not grow.
proof fn lemma_scaled_by_fraction(x: int, f: int) -> (q: int)
    requires
        0 <= f <= ONE_RAW,
        i64::MIN <= x <= i64::MAX,
    ensures
        q == trunc_div(x * f, ONE_RAW as int),
        saturate(q) == q,
        q * q <= x * x,
        x >= 0 ==> 0 <= q <= x,
        x <= 0 ==> x <= q <= 0,
{
    let one = ONE_RAW as int;
    let q = trunc_div(x * f, one);
    if x >= 0 {
        assert(0 <= x * f <= x * one) by (nonlinear_arith)
            requires
                0 <= x,
                0 <= f <= one,
        ;
        assert(0 <= q <= x) by (nonlinear_arith)
            requires
                q == (x * f) / one,
                0 <= x * f <= x * one,
                one == 0x1_0000_0000,
        ;
        assert(q * q <= x * x) by (nonlinear_arith)
            requires
                0 <= q <= x,
        ;
    } else {
        let m = -(x * f);
        assert(0 <= m <= (-x) * one) by (nonlinear_arith)
            requires
                x < 0,
                0 <= f <= one,
                m == -(x * f),
        ;
        if x * f >= 0 {
            assert(q == 0);
        } else {
            assert(q == -(m / one));
        }
        assert(x <= q <= 0) by (nonlinear_arith)
            requires
                q == -(m / one) || q == 0,
                0 <= m <= (-x) * one,
                x < 0,
                one == 0x1_0000_0000,
        ;
        assert(q * q <= x * x) by (nonlinear_arith)
            requires
                x <= q <= 0,
        ;
    }
    q
}

/// The friction factor lies between zero and one where neither the
/// friction nor the time step is negative.
proof fn lemma_friction_factor_range(dt: Fixed, controller: FpsController, speed: Fixed)
    requires
        controller.friction.raw >= 0,
        dt.raw >= 0,
        speed.raw >= 0,
    ensures
        0 <= spec_friction_factor(dt, controller, speed).raw <= ONE_RAW,
{
    let one = ONE_RAW as int;
    let control = speed.max(controller.stop_speed);
    assert(control.raw * controller.friction.raw >= 0) by (nonlinear_arith)
        requires
            control.raw >= 0,
            controller.friction.raw >= 0,
    ;
    let scaled = control.mul(controller.friction);
    assert(scaled.raw >= 0);
    assert(scaled.raw * dt.raw >= 0) by (nonlinear_arith)
        requires
            scaled.raw >= 0,
            dt.raw >= 0,
    ;
    let drop = scaled.mul(dt);
    assert(drop.raw >= 0);
    let rest = speed.sub(drop);
    assert(rest.raw <= speed.raw);
    if speed.raw > 0 && rest.raw >= 0 {
        assert(0 <= rest.raw * one <= speed.raw * one);
        assert(0 <= (rest.raw * one) / (speed.raw as int) <= one) by (nonlinear_arith)
            requires
                0 <= rest.raw * one <= speed.raw * one,
                speed.raw > 0,
        ;
    } else if speed.raw > 0 {
        let m = -(rest.raw * one);
        assert(m / (speed.raw as int) >= 0) by (nonlinear_arith)
            requires
                m >= 0,
                speed.raw > 0,
        ;
    }
}

/// Ground friction never speeds the body up and never turns it round: for
/// a friction and a time step that are not negative, each horizontal
/// component keeps its sign and does not grow, the horizontal speed does
/// not grow, and the vertical speed stays.
pub proof fn lemma_friction_never_speeds_up(dt: Fixed, controller: FpsController, velocity: Vec3)
    requires
        controller.friction.raw >= 0,
        dt.raw >= 0,
    ensures
        spec_ground_friction(dt, controller, velocity).lateral_length().raw
            <= velocity.lateral_length().raw,
        spec_ground_friction(dt, controller, velocity).y == velocity.y,
        velocity.x.raw >= 0 ==> 0 <= spec_ground_friction(dt, controller, velocity).x.raw
            <= velocity.x.raw,
        velocity.x.raw <= 0 ==> velocity.x.raw <= spec_ground_friction(
            dt,
            controller,
            velocity,
        ).x.raw <= 0,
        velocity.z.raw >= 0 ==> 0 <= spec_ground_friction(dt, controller, velocity).z.raw
            <= velocity.z.raw,
        velocity.z.raw <= 0 ==> velocity.z.raw <= spec_ground_friction(
            dt,
            controller,
            velocity,
        ).z.raw <= 0,
{
    let after = spec_ground_friction(dt, controller, velocity);
    let speed = velocity.lateral_length();
    let before_squared = velocity.raw_lateral_squared();
    let after_squared = after.raw_lateral_squared();
    assert(0 <= before_squared) by (nonlinear_arith)
        requires
            before_squared == velocity.x.raw * velocity.x.raw + velocity.z.raw * velocity.z.raw,
    ;
    assert(0 <= after_squared) by (nonlinear_arith)
        requires
            after_squared == after.x.raw * after.x.raw + after.z.raw * after.z.raw,
    ;
    let before_root = lemma_sqrt_floor_exists(before_squared);
    let after_root = lemma_sqrt_floor_exists(after_squared);
    if speed.raw > controller.friction_speed_cutoff.raw {
        lemma_friction_factor_range(dt, controller, speed);
        let factor = spec_friction_factor(dt, controller, speed);
        let qx = lemma_scaled_by_fraction(velocity.x.raw as int, factor.raw as int);
        let qz = lemma_scaled_by_fraction(velocity.z.raw as int, factor.raw as int);
        assert(after.x.raw == qx && after.z.raw == qz);
    } else {
        assert(after.x.raw == 0 && after.z.raw == 0);
        assert(velocity.x.raw * velocity.x.raw >= 0 && velocity.z.raw * velocity.z.raw >= 0)
            by (nonlinear_arith);
    }
    assert(after_squared <= before_squared);
    lemma_sqrt_floor_monotonic(after_squared, after_root, before_squared, before_root);
}

/// Whether `after` points where `before` does on the ground, and is no
/// faster: each horizontal component has kept its sign and has not grown.
pub open spec fn spec_keeps_direction(before: Vec3, after: Vec3) -> bool {
    &&& before.x.raw >= 0 ==> 0 <= after.x.raw <= before.x.raw
    &&& before.x.raw <= 0 ==> before.x.raw <= after.x.raw <= 0
    &&& before.z.raw >= 0 ==> 0 <= after.z.raw <= before.z.raw
    &&& before.z.raw <= 0 ==> before.z.raw <= after.z.raw <= 0
}

/// Ground friction slows a moving body down: where the horizontal speed is
/// above a cutoff that is not negative, the friction drop is above zero, and
/// the horizontal length is not saturated, the horizontal speed afterwards is
/// less than before, and not negative; and the body still moves the same
/// way.
pub proof fn lemma_friction_slows(dt: Fixed, controller: FpsController, velocity: Vec3)
    requires
        controller.friction_speed_cutoff.raw >= 0,
        velocity.lateral_length().raw > controller.friction_speed_cutoff.raw,
        spec_friction_drop(dt, controller, velocity.lateral_length()).raw > 0,
        velocity.raw_lateral_squared() < 0x4000_0000_0000_0000_0000_0000_0000_0000,
    ensures
        0 <= spec_ground_friction(dt, controller, velocity).lateral_length().raw
            < velocity.lateral_length().raw,
        spec_keeps_direction(velocity, spec_ground_friction(dt, controller, velocity)),
{
    let one = ONE_RAW as int;
    let after = spec_ground_friction(dt, controller, velocity);
    let speed = velocity.lateral_length();
    let s0 = speed.raw as int;
    let n = velocity.raw_lateral_squared();
    let m = after.raw_lateral_squared();
    lemma_length_rounds_down(velocity);
    lemma_length_rounds_down(after);
    assert(0 <= n) by (nonlinear_arith)
        requires
            n == velocity.x.raw * velocity.x.raw + velocity.z.raw * velocity.z.raw,
    ;
    let root = lemma_sqrt_floor_exists(n);
    assert(root < 0x8000_0000_0000_0000) by (nonlinear_arith)
        requires
            0 <= root,
            root * root <= n,
            n < 0x4000_0000_0000_0000_0000_0000_0000_0000,
    ;
    assert(s0 == root);
    assert(n < (s0 + 1) * (s0 + 1));
    let drop = spec_friction_drop(dt, controller, speed);
    let rest = speed.sub(drop);
    assert(rest.raw == s0 - drop.raw);
    let factor = spec_friction_factor(dt, controller, speed);
    let f = factor.raw as int;
    if rest.raw >= 0 {
        assert(0 <= (rest.raw * one) / s0 && ((rest.raw * one) / s0) * s0 <= rest.raw * one && (
        rest.raw * one) / s0 <= one) by (nonlinear_arith)
            requires
                0 <= rest.raw < s0,
                one == 0x1_0000_0000,
        ;
        assert(rest.raw * ONE_RAW == rest.raw * one);
        assert(f == (rest.raw * one) / s0);
    } else {
        let k = -(rest.raw * one);
        assert(rest.raw * ONE_RAW == rest.raw * one);
        assert(k / s0 >= 0) by (nonlinear_arith)
            requires
                k >= 0,
                s0 > 0,
        ;
        assert(f == 0);
    }
    assert(0 <= f && f * s0 <= (s0 - 1) * one) by (nonlinear_arith)
        requires
            f == 0 || (f * s0 <= rest.raw * one && 0 <= f),
            rest.raw <= s0 - 1,
            s0 >= 1,
            one > 0,
    ;
    assert(f <= one) by (nonlinear_arith)
        requires
            f * s0 <= (s0 - 1) * one,
            s0 >= 1,
            0 <= f,
            one > 0,
    ;
    let qx = lemma_scaled_by_fraction(velocity.x.raw as int, f);
    let qz = lemma_scaled_by_fraction(velocity.z.raw as int, f);
    assert(after.x.raw == qx && after.z.raw == qz);
    lemma_mul_magnitude(velocity.x, factor);
    lemma_mul_magnitude(velocity.z, factor);
    let x = velocity.x.raw as int;
    let z = velocity.z.raw as int;
    let one2 = one * one;
    let f2 = f * f;
    assert(0 <= m) by (nonlinear_arith)
        requires
            m == qx * qx + qz * qz,
    ;
    assert(m * one2 <= n * f2) by (nonlinear_arith)
        requires
            m == qx * qx + qz * qz,
            n == x * x + z * z,
            (qx * qx) * one2 <= (x * x) * f2,
            (qz * qz) * one2 <= (z * z) * f2,
    ;
    let r = lemma_sqrt_floor_exists(m);
    if f == 0 {
        assert(m == 0) by (nonlinear_arith)
            requires
                m * one2 <= n * f2,
                f2 == f * f,
                f == 0,
                0 <= m,
                one2 == one * one,
                one == 0x1_0000_0000,
        ;
        assert(r == 0) by (nonlinear_arith)
            requires
                0 <= r,
                r * r <= m,
                m == 0,
        ;
    } else {
        assert((r * one) * (r * one) < ((s0 + 1) * f) * ((s0 + 1) * f)) by (nonlinear_arith)
            requires
                r * r <= m,
                m * one2 <= n * f2,
                n < (s0 + 1) * (s0 + 1),
                one2 == one * one,
                f2 == f * f,
                f > 0,
                0 <= r,
                0 <= m,
        {
            assert((r * r) * one2 <= m * one2);
            assert(n * f2 < ((s0 + 1) * (s0 + 1)) * f2);
        }
        if r * one >= (s0 + 1) * f {
            assert((r * one) * (r * one) >= ((s0 + 1) * f) * ((s0 + 1) * f)) by (nonlinear_arith)
                requires
                    r * one >= (s0 + 1) * f,
                    (s0 + 1) * f >= 0,
            ;
            assert((s0 + 1) * f >= 0) by (nonlinear_arith)
                requires
                    s0 >= 1,
                    f > 0,
            ;
        }
        assert((s0 + 1) * f >= 0) by (nonlinear_arith)
            requires
                s0 >= 1,
                f > 0,
        ;
        assert(r * one < (s0 + 1) * f);
        assert(r < s0) by (nonlinear_arith)
            requires
                r * one < (s0 + 1) * f,
                f * s0 <= (s0 - 1) * one,
                s0 >= 1,
                f > 0,
                one > 0,
                0 <= r,
        {
            assert((r * one) * s0 < ((s0 + 1) * f) * s0);
            assert(((s0 + 1) * f) * s0 <= (s0 + 1) * ((s0 - 1) * one));
            assert((r * s0) * one < ((s0 + 1) * (s0 - 1)) * one);
            assert(r * s0 < s0 * s0);
        }
    }
}

/// Capping the horizontal speed brings it to the cap or below: for a cap
/// that is not negative and a velocity whose horizontal length fits the
/// number range, the horizontal speed is at most the cap afterwards.
pub proof fn lemma_cap_lateral_speed(velocity: Vec3, max_speed: Fixed)
    requires
        max_speed.raw >= 0,
        velocity.raw_lateral_squared() < 0x4000_0000_0000_0000_0000_0000_0000_0000,
    ensures
        spec_cap_lateral_speed(velocity, max_speed).lateral_length().raw <= max_speed.raw,
        spec_cap_lateral_speed(velocity, max_speed).y == velocity.y,
{
    let one = ONE_RAW as int;
    let capped = spec_cap_lateral_speed(velocity, max_speed);
    let n = velocity.raw_lateral_squared();
    assert(0 <= n) by (nonlinear_arith)
        requires
            n == velocity.x.raw * velocity.x.raw + velocity.z.raw * velocity.z.raw,
    ;
    let root = lemma_sqrt_floor_exists(n);
    assert(root < 0x8000_0000_0000_0000) by (nonlinear_arith)
        requires
            0 <= root,
            root * root <= n,
            n < 0x4000_0000_0000_0000_0000_0000_0000_0000,
    ;
    let speed = velocity.lateral_length();
    assert(speed.raw == root);
    if speed.raw > max_speed.raw {
        let m = max_speed.raw as int;
        let ratio = max_speed.div(speed);
        let r = ratio.raw as int;
        assert(0 <= (m * one) / root && ((m * one) / root) * root <= m * one && (m * one) / root
            <= one) by (nonlinear_arith)
            requires
                0 <= m < root,
                one == 0x1_0000_0000,
        ;
        assert(r == (m * one) / root);
        let qx = lemma_scaled_by_fraction(velocity.x.raw as int, r);
        let qz = lemma_scaled_by_fraction(velocity.z.raw as int, r);
        assert(capped.x.raw == qx && capped.z.raw == qz);
        let x = velocity.x.raw as int;
        let z = velocity.z.raw as int;
        lemma_capped_component(x, r, root, m, qx);
        lemma_capped_component(z, r, root, m, qz);
        let c2 = qx * qx + qz * qz;
        assert(c2 == capped.raw_lateral_squared());
        assert(0 <= c2) by (nonlinear_arith)
            requires
                c2 == qx * qx + qz * qz,
        ;
        let r2 = root * root;
        let m2 = m * m;
        assert(c2 * r2 <= n * m2) by (nonlinear_arith)
            requires
                c2 == qx * qx + qz * qz,
                n == x * x + z * z,
                (qx * qx) * r2 <= (x * x) * m2,
                (qz * qz) * r2 <= (z * z) * m2,
        ;
        assert(c2 < (m + 1) * (m + 1)) by (nonlinear_arith)
            requires
                c2 * r2 <= n * m2,
                n < (root + 1) * (root + 1),
                r2 == root * root,
                m2 == m * m,
                0 <= m < root,
                0 <= c2,
        {
            // (root + 1) * m < root * (m + 1), hence n * m^2 < root^2 * (m + 1)^2.
            assert((root + 1) * m <= root * (m + 1) - 1);
            assert(n * m2 <= ((root + 1) * m) * ((root + 1) * m));
            assert(((root + 1) * m) * ((root + 1) * m) < (root * (m + 1)) * (root * (m + 1)));
            assert(c2 * r2 < r2 * ((m + 1) * (m + 1)));
        }
        let capped_root = lemma_sqrt_floor_exists(c2);
        if capped_root > m {
            assert(capped_root * capped_root >= (m + 1) * (m + 1)) by (nonlinear_arith)
                requires
                    capped_root >= m + 1,
                    m >= 0,
            ;
        }
    }
}

/// A component scaled by the cap ratio: its square times the square of the
/// speed is at most the square of the component times the square of the
/// cap.
proof fn lemma_capped_component(x: int, r: int, root: int, m: int, q: int)
    requires
        q == trunc_div(x * r, ONE_RAW as int),
        0 <= r,
        r * root <= m * ONE_RAW,
        0 <= m,
        0 < root,
    ensures
        (q * q) * (root * root) <= (x * x) * (m * m),
{
    let one = ONE_RAW as int;
    let a = if x >= 0 {
        x
    } else {
        -x
    };
    let b = if q >= 0 {
        q
    } else {
        -q
    };
    assert(a * r >= 0) by (nonlinear_arith)
        requires
            a >= 0,
            r >= 0,
    ;
    assert(x * r == a * r || x * r == -(a * r)) by (nonlinear_arith)
        requires
            a == x || a == -x,
    ;
    assert(b == (a * r) / one);
    assert(0 <= b * one <= a * r) by (nonlinear_arith)
        requires
            b == (a * r) / one,
            a * r >= 0,
            one == 0x1_0000_0000,
    ;
    assert(b * one * root <= a * (m * one)) by (nonlinear_arith)
        requires
            0 <= b * one <= a * r,
            r * root <= m * one,
            0 < root,
            0 <= a,
            0 <= r,
    ;
    assert(0 <= b * root <= a * m) by (nonlinear_arith)
        requires
            b * one * root <= a * (m * one),
            one == 0x1_0000_0000,
            0 <= b * one,
            0 < root,
    ;
    assert((b * b) * (root * root) <= (a * a) * (m * m)) by (nonlinear_arith)
        requires
            0 <= b * root <= a * m,
    ;
    assert(b * b == q * q && a * a == x * x) by (nonlinear_arith)
        requires
            b == q || b == -q,
            a == x || a == -x,
    ;
}

/// However the air control is tuned, a step in the air leaves a horizontal
/// speed of at most `max_air_speed`: for a cap that is not negative and a
/// velocity that, before the cap, has a horizontal length within the number
/// range. The cap leaves the vertical speed alone.
pub proof fn lemma_air_speed_capped(
    dt: Fixed,
    controller: FpsController,
    velocity: Vec3,
    wish_direction: Vec3,
    wish_speed: Fixed,
)
    requires
        controller.max_air_speed.raw >= 0,
        spec_air_gain(dt, controller, velocity, wish_direction, wish_speed).raw_lateral_squared()
            < 0x4000_0000_0000_0000_0000_0000_0000_0000,
    ensures
        spec_air_velocity(dt, controller, velocity, wish_direction, wish_speed).lateral_length().raw
            <= controller.max_air_speed.raw,
        spec_air_velocity(dt, controller, velocity, wish_direction, wish_speed).y
            == velocity.y.add(controller.gravity.neg().mul(dt)),
{
    lemma_cap_lateral_speed(
        spec_air_gain(dt, controller, velocity, wish_direction, wish_speed),
        controller.max_air_speed,
    );
}

/// How long, in raw units, the wish direction that `calculate_wish_movement`
/// returns can be: one for a wish vector within the zero threshold, which is
/// returned as it is, else the unit bound of the wish vector's length.
pub open spec fn spec_wish_direction_bound(
    input: FpsControllerInput,
    yaw: SinCos,
    controller: FpsController,
) -> int {
    if spec_wish_vector(input, yaw, controller).length().raw > EPSILON_RAW {
        spec_unit_bound(spec_wish_vector(input, yaw, controller).length())
    } else {
        ONE_RAW as int
    }
}

/// The wish direction is no longer than its bound. The bound is one and at
/// most two to the minus ninth, and one and two raw units for a wish vector
/// of length one or more, so long as that length is not saturated; it is
/// never above two.
pub proof fn lemma_wish_direction_bounded(
    input: FpsControllerInput,
    yaw: SinCos,
    controller: FpsController,
)
    ensures
        spec_calculate_wish_movement(input, yaw, controller).0.raw_length_squared()
            <= spec_wish_direction_bound(input, yaw, controller) * spec_wish_direction_bound(
            input,
            yaw,
            controller,
        ),
        ONE_RAW <= spec_wish_direction_bound(input, yaw, controller) <= 2 * ONE_RAW,
        spec_wish_vector(input, yaw, controller).length().raw < i64::MAX
            ==> spec_wish_direction_bound(input, yaw, controller) <= ONE_RAW + 0x80_0000,
        ONE_RAW <= spec_wish_vector(input, yaw, controller).length().raw < i64::MAX
            ==> spec_wish_direction_bound(input, yaw, controller) <= ONE_RAW + 2,
{
    let wish = spec_wish_vector(input, yaw, controller);
    let length = wish.length();
    if length.raw > EPSILON_RAW {
        lemma_normalized_length(wish);
    } else {
        lemma_length_rounds_down(wish);
        let l = length.raw as int;
        assert((l + 1) * (l + 1) <= ONE_RAW * ONE_RAW) by (nonlinear_arith)
            requires
                0 <= l <= 512,
                ONE_RAW == 0x1_0000_0000,
        ;
    }
}

/// What the shared acceleration adds along the wish direction of an input
/// is at most the acceleration limit times the bound of that direction,
/// whatever wish speed, rate, velocity and time step it is given, so long
/// as the limit is not negative. On the ground the rate is `acceleration`
/// and the wish speed the one returned with the direction; in the air the
/// rate is `air_acceleration` and the wish speed is capped by
/// `air_speed_cap`.
pub proof fn lemma_wish_acceleration_bounded(
    input: FpsControllerInput,
    yaw: SinCos,
    controller: FpsController,
    wish_speed: Fixed,
    accel: Fixed,
    velocity: Vec3,
    dt: Fixed,
)
    requires
        acceleration_limit(
            spec_calculate_wish_movement(input, yaw, controller).0,
            wish_speed,
            accel,
            velocity,
            dt,
        ).raw >= 0,
    ensures
        spec_acceleration(
            spec_calculate_wish_movement(input, yaw, controller).0,
            wish_speed,
            accel,
            velocity,
            dt,
        ).length().raw * ONE_RAW <= acceleration_limit(
            spec_calculate_wish_movement(input, yaw, controller).0,
            wish_speed,
            accel,
            velocity,
            dt,
        ).raw * spec_wish_direction_bound(input, yaw, controller),
{
    lemma_wish_direction_bounded(input, yaw, controller);
    lemma_acceleration_bounded_by(
        spec_calculate_wish_movement(input, yaw, controller).0,
        wish_speed,
        accel,
        velocity,
        dt,
        spec_wish_direction_bound(input, yaw, controller),
    );
}

/// A body that slides on level ground with no key down slows down within
/// the step and does not turn round: where its horizontal speed is above a
/// cutoff that is not negative, the friction drop is above zero and the
/// horizontal length is not saturated, the horizontal speed after the
/// movement step is less than before and not negative, each horizontal
/// component has kept its sign, and the vertical speed is zero.
pub proof fn lemma_move_friction_slows(
    dt: Fixed,
    input: FpsControllerInput,
    look: LookTrig,
    body: LogicalBody,
    hits: Seq<ShapeHitData>,
)
    requires
        spec_friction_scene(input, body, hits),
        body.controller.friction_speed_cutoff.raw >= 0,
        body.velocity.lateral_length().raw > body.controller.friction_speed_cutoff.raw,
        spec_friction_drop(dt, body.controller, body.velocity.lateral_length()).raw > 0,
        body.velocity.raw_lateral_squared() < 0x4000_0000_0000_0000_0000_0000_0000_0000,
    ensures
        0 <= spec_fps_controller_move(dt, input, look, body, hits).velocity.lateral_length().raw
            < body.velocity.lateral_length().raw,
        spec_keeps_direction(
            body.velocity,
            spec_fps_controller_move(dt, input, look, body, hits).velocity,
        ),
        spec_fps_controller_move(dt, input, look, body, hits).velocity.y == Fixed::zero(),
{
    lemma_move_friction_scene(dt, input, look, body, hits);
    lemma_friction_slows(dt, body.controller, body.velocity);
    let slowed = spec_ground_friction(dt, body.controller, body.velocity);
    let after = spec_fps_controller_move(dt, input, look, body, hits).velocity;
    assert(after.raw_lateral_squared() == slowed.raw_lateral_squared());
}

/// Capping the horizontal speed never speeds the body up and never turns it
/// round, for a cap that is not negative.
pub proof fn lemma_cap_never_speeds_up(velocity: Vec3, max_speed: Fixed)
    requires
        max_speed.raw >= 0,
    ensures
        spec_keeps_direction(velocity, spec_cap_lateral_speed(velocity, max_speed)),
        spec_cap_lateral_speed(velocity, max_speed).lateral_length().raw
            <= velocity.lateral_length().raw,
        spec_cap_lateral_speed(velocity, max_speed).y == velocity.y,
{
    let one = ONE_RAW as int;
    let capped = spec_cap_lateral_speed(velocity, max_speed);
    let speed = velocity.lateral_length();
    lemma_length_rounds_down(velocity);
    if speed.raw > max_speed.raw {
        let l = speed.raw as int;
        let m = max_speed.raw as int;
        let ratio = max_speed.div(speed);
        assert(max_speed.raw * ONE_RAW == m * one);
        assert(0 <= (m * one) / l <= one) by (nonlinear_arith)
            requires
                0 <= m < l,
                one == 0x1_0000_0000,
        ;
        assert(ratio.raw == (m * one) / l);
        let qx = lemma_scaled_by_fraction(velocity.x.raw as int, ratio.raw as int);
        let qz = lemma_scaled_by_fraction(velocity.z.raw as int, ratio.raw as int);
        assert(capped.x.raw == qx && capped.z.raw == qz);
        let before = velocity.raw_lateral_squared();
        let after = capped.raw_lateral_squared();
        assert(0 <= after <= before) by (nonlinear_arith)
            requires
                after == qx * qx + qz * qz,
                before == velocity.x.raw * velocity.x.raw + velocity.z.raw * velocity.z.raw,
                qx * qx <= velocity.x.raw * velocity.x.raw,
                qz * qz <= velocity.z.raw * velocity.z.raw,
        ;
        let before_root = lemma_sqrt_floor_exists(before);
        let after_root = lemma_sqrt_floor_exists(after);
        lemma_sqrt_floor_monotonic(after, after_root, before, before_root);
    }
}

/// Whether the step is the first one of a body that starts forward in the
/// air: a step in ground mode of a body at rest that is not grounded and
/// touches nothing, with the forward key alone down, and with speeds and
/// rates that are not negative.
pub open spec fn spec_air_start_scene(
    input: FpsControllerInput,
    body: LogicalBody,
    hits: Seq<ShapeHitData>,
) -> bool {
    &&& spec_walks(input, body)
    &&& !body.controller.grounded
    &&& hits.len() == 0
    &&& body.velocity == Vec3::zero()
    &&& input.movement == Vec3 { x: Fixed::zero(), y: Fixed::zero(), z: Fixed::one() }
    &&& !input.sprint
    &&& !input.crouch
    &&& body.controller.forward_speed.raw >= 0
    &&& body.controller.air_speed_cap.raw >= 0
    &&& body.controller.air_acceleration.raw >= 0
    &&& body.controller.max_air_speed.raw >= 0
}

/// Whether `velocity` points along the forward axis of a yaw on the ground,
/// as far as signs say it: against the sine along x, and against the cosine
/// along z.
pub open spec fn spec_points_forward(yaw: SinCos, velocity: Vec3) -> bool {
    &&& yaw.sin.raw >= 0 ==> velocity.x.raw <= 0
    &&& yaw.sin.raw <= 0 ==> velocity.x.raw >= 0
    &&& yaw.cos.raw >= 0 ==> velocity.z.raw <= 0
    &&& yaw.cos.raw <= 0 ==> velocity.z.raw >= 0
}

/// The wish vector of the forward key alone is the forward axis of the yaw
/// scaled by the forward speed.
pub proof fn lemma_forward_wish(input: FpsControllerInput, yaw: SinCos, controller: FpsController)
    requires
        input.movement == (Vec3 { x: Fixed::zero(), y: Fixed::zero(), z: Fixed::one() }),
    ensures
        spec_wish_vector(input, yaw, controller) == (Vec3 {
            x: yaw.sin.neg().mul(controller.forward_speed),
            y: Fixed::zero(),
            z: yaw.cos.neg().mul(controller.forward_speed),
        }),
{
    lemma_zero_absorbs(controller.side_speed);
    lemma_zero_absorbs(Fixed::zero());
    lemma_one_is_neutral(controller.forward_speed);
    lemma_zero_absorbs(yaw.cos);
    lemma_zero_absorbs(yaw.sin.neg());
    lemma_zero_absorbs(Fixed::one());
    lemma_zero_absorbs(controller.forward_speed);
}

/// A body at rest in the air that starts forward moves, after one movement
/// step, along the forward axis of the yaw on the ground, no faster than the
/// air speed cap times the bound of the wish direction, and falls by
/// `gravity * dt`, for a time step that is not negative.
pub proof fn lemma_move_air_start(
    dt: Fixed,
    input: FpsControllerInput,
    look: LookTrig,
    body: LogicalBody,
    hits: Seq<ShapeHitData>,
)
    requires
        spec_air_start_scene(input, body, hits),
        dt.raw >= 0,
    ensures
        spec_points_forward(look.yaw, spec_fps_controller_move(dt, input, look, body, hits).velocity),
        spec_fps_controller_move(dt, input, look, body, hits).velocity.lateral_length().raw
            * ONE_RAW <= body.controller.air_speed_cap.raw * spec_wish_direction_bound(
            input,
            look.yaw,
            body.controller,
        ),
        spec_fps_controller_move(dt, input, look, body, hits).velocity.y
            == body.controller.gravity.neg().mul(dt),
        spec_fps_controller_move(dt, input, look, body, hits).controller.ground_tick == 0,
{
    let one = ONE_RAW as int;
    let c = body.controller;
    let yaw = look.yaw;
    let forward = c.forward_speed;
    let controller = spec_primed(
        FpsController { move_mode: spec_next_mode(c.move_mode, input.fly), ..c },
        hits,
    );
    let rest = Vec3::zero();
    lemma_shape_hits_frame(
        dt,
        input,
        LogicalBody {
            controller: FpsController { ground_tick: 0, ..controller },
            collider: body.collider,
            translation: body.translation,
            velocity: spec_air_velocity(
                dt,
                controller,
                rest,
                spec_calculate_wish_movement(input, yaw, controller).0,
                spec_calculate_wish_movement(input, yaw, controller).1,
            ),
        },
        hits,
        spec_calculate_wish_movement(input, yaw, controller).0,
        spec_calculate_wish_movement(input, yaw, controller).1,
    );
    let wish = spec_calculate_wish_movement(input, yaw, c);
    assert(wish == spec_calculate_wish_movement(input, yaw, controller));
    let after = spec_fps_controller_move(dt, input, look, body, hits).velocity;
    assert(after == spec_air_velocity(dt, c, rest, wish.0, wish.1));

    // The wish vector and the wish direction point forward.
    let vector = spec_wish_vector(input, yaw, c);
    lemma_forward_wish(input, yaw, c);
    lemma_mul_magnitude(yaw.sin.neg(), forward);
    lemma_mul_magnitude(yaw.cos.neg(), forward);
    assert(yaw.sin.raw >= 0 ==> yaw.sin.neg().raw * forward.raw <= 0) by (nonlinear_arith)
        requires
            yaw.sin.raw >= 0 ==> yaw.sin.neg().raw <= 0,
            forward.raw >= 0,
    ;
    assert(yaw.sin.raw <= 0 ==> yaw.sin.neg().raw * forward.raw >= 0) by (nonlinear_arith)
        requires
            yaw.sin.raw <= 0 ==> yaw.sin.neg().raw >= 0,
            forward.raw >= 0,
    ;
    assert(yaw.cos.raw >= 0 ==> yaw.cos.neg().raw * forward.raw <= 0) by (nonlinear_arith)
        requires
            yaw.cos.raw >= 0 ==> yaw.cos.neg().raw <= 0,
            forward.raw >= 0,
    ;
    assert(yaw.cos.raw <= 0 ==> yaw.cos.neg().raw * forward.raw >= 0) by (nonlinear_arith)
        requires
            yaw.cos.raw <= 0 ==> yaw.cos.neg().raw >= 0,
            forward.raw >= 0,
    ;
    assert(spec_points_forward(yaw, vector));
    let direction = wish.0;
    if vector.length().raw > EPSILON_RAW {
        lemma_div_magnitude(vector.x, vector.length());
        lemma_div_magnitude(vector.y, vector.length());
        lemma_div_magnitude(vector.z, vector.length());
    }
    assert(spec_points_forward(yaw, direction));
    assert(direction.y == Fixed::zero()) by {
        lemma_zero_absorbs(vector.length());
    }

    // The gain keeps the direction and is bounded.
    let air_speed = wish.1.min(c.air_speed_cap);
    let gain = spec_acceleration(direction, air_speed, c.air_acceleration, rest, dt);
    let limit = acceleration_limit(direction, air_speed, c.air_acceleration, rest, dt);
    lemma_zero_absorbs(direction.x);
    lemma_zero_absorbs(direction.y);
    lemma_zero_absorbs(direction.z);
    assert(rest.dot(direction) == Fixed::zero());
    lemma_zero_absorbs(limit);
    assert(gain.y == Fixed::zero());
    let s = limit.raw as int;
    if air_speed.raw > 0 {
        assert(c.air_acceleration.raw * air_speed.raw >= 0) by (nonlinear_arith)
            requires
                c.air_acceleration.raw >= 0,
                air_speed.raw > 0,
        ;
        lemma_mul_magnitude(c.air_acceleration, air_speed);
        let rate = c.air_acceleration.mul(air_speed);
        assert(rate.raw * dt.raw >= 0) by (nonlinear_arith)
            requires
                rate.raw >= 0,
                dt.raw >= 0,
        ;
        lemma_mul_magnitude(rate, dt);
        assert(0 <= s <= air_speed.raw);
        lemma_mul_magnitude(direction.x, limit);
        lemma_mul_magnitude(direction.z, limit);
        assert(direction.x.raw >= 0 ==> direction.x.raw * s >= 0) by (nonlinear_arith)
            requires
                s >= 0,
        ;
        assert(direction.x.raw <= 0 ==> direction.x.raw * s <= 0) by (nonlinear_arith)
            requires
                s >= 0,
        ;
        assert(direction.z.raw >= 0 ==> direction.z.raw * s >= 0) by (nonlinear_arith)
            requires
                s >= 0,
        ;
        assert(direction.z.raw <= 0 ==> direction.z.raw * s <= 0) by (nonlinear_arith)
            requires
                s >= 0,
        ;
        lemma_wish_acceleration_bounded(input, yaw, c, air_speed, c.air_acceleration, rest, dt);
    } else {
        assert(gain == Vec3::zero());
        assert(gain.raw_length_squared() == 0);
        lemma_length_rounds_down(gain);
        assert(gain.length().raw == 0) by (nonlinear_arith)
            requires
                0 <= gain.length().raw,
                gain.length().raw * gain.length().raw <= 0,
        ;
    }
    lemma_length_rounds_down(gain);
    assert(spec_points_forward(yaw, gain));
    lemma_wish_direction_bounded(input, yaw, c);
    let bound = spec_wish_direction_bound(input, yaw, c);
    assert(gain.length().raw * one <= c.air_speed_cap.raw * bound) by (nonlinear_arith)
        requires
            air_speed.raw > 0 ==> gain.length().raw * one <= s * bound && 0 <= s <= air_speed.raw,
            air_speed.raw <= 0 ==> gain.length().raw == 0,
            air_speed.raw <= c.air_speed_cap.raw,
            0 <= c.air_speed_cap.raw,
            0 < bound,
            gain.length().raw >= 0,
            one > 0,
    ;

    // Neither the fall nor the cap changes that.
    let flown = spec_air_gain(dt, c, rest, direction, wish.1);
    assert(flown == (Vec3 { x: gain.x, y: c.gravity.neg().mul(dt), z: gain.z }));
    lemma_length_rounds_down(gain);
    assert(flown.raw_lateral_squared() == gain.raw_lateral_squared());
    assert(flown.lateral_length() == gain.lateral_length());
    lemma_cap_never_speeds_up(flown, c.max_air_speed);
    assert(after.lateral_length().raw * one <= gain.length().raw * one) by (nonlinear_arith)
        requires
            after.lateral_length().raw <= gain.length().raw,
            one > 0,
    ;
}

} // verus!
