//! The grounding classifier and the movement integrator.
//!
//! Once per tick and per body, in this order: `fps_controller_grounded`
//! classifies the body from the ground sweep, `fps_controller_move`
//! integrates velocity, position and height, and `fps_controller_look`
//! copies the look angles of the input into the controller.
use crate::components::{
    Collider, FpsController, FpsControllerInput, LogicalBody, LookTrig, MoveMode, ShapeHitData,
    SinCos, EPSILON_RAW,
};
use crate::fixed::{
    lemma_one_is_neutral, lemma_sqrt_floor_le, lemma_zero_absorbs, Fixed, ONE_RAW,
};
use crate::util::{acceleration, acceleration_limit, spec_acceleration};
use crate::vector::{Mat3, Quat, Vec3};
use vstd::prelude::*;

verus! {

/// The raw representation of the lift, a hundredth of a unit, that keeps a
/// body with traction clear of the surface.
pub const GROUND_BIAS_RAW: i64 = 42949673;

/// The raw representation of the factor, 1.1, by which the step offset is
/// scaled to give the height of the step cast.
pub const STEP_CAST_SCALE_RAW: i64 = 4724464026;

/// The raw representation of the cosine of 0.3 radians, the steepest slope
/// that counts as ground.
pub const GROUND_ANGLE_COS_RAW: i64 = 4103138977;

/// The basis that turns a movement input into a direction on the ground:
/// a turn by the yaw about the vertical, with forward along negative z.
pub open spec fn spec_walk_basis(yaw: SinCos) -> Mat3 {
    Mat3 {
        x_axis: Vec3 { x: yaw.cos, y: Fixed::zero(), z: yaw.sin.neg() },
        y_axis: Vec3::up(),
        z_axis: Vec3 { x: yaw.sin.neg(), y: Fixed::zero(), z: yaw.cos.neg() },
    }
}

/// The basis that turns a movement input into a direction on the ground.
#[verifier::when_used_as_spec(spec_walk_basis)]
pub fn walk_basis(yaw: SinCos) -> (m: Mat3)
    ensures
        m == spec_walk_basis(yaw),
{
    Mat3 {
        x_axis: Vec3 { x: yaw.cos, y: Fixed::zero(), z: yaw.sin.neg() },
        y_axis: Vec3::up(),
        z_axis: Vec3 { x: yaw.sin.neg(), y: Fixed::zero(), z: yaw.cos.neg() },
    }
}

/// The basis that turns a movement input into a flight direction: right
/// follows the yaw, forward follows yaw and pitch along negative z, and up
/// is the world's up whatever the pitch.
pub open spec fn spec_fly_basis(look: LookTrig) -> Mat3 {
    Mat3 {
        x_axis: Vec3 { x: look.yaw.cos, y: Fixed::zero(), z: look.yaw.sin.neg() },
        y_axis: Vec3::up(),
        z_axis: Vec3 {
            x: look.yaw.sin.mul(look.pitch.cos).neg(),
            y: look.pitch.sin,
            z: look.yaw.cos.mul(look.pitch.cos).neg(),
        },
    }
}

/// The basis that turns a movement input into a flight direction.
#[verifier::when_used_as_spec(spec_fly_basis)]
pub fn fly_basis(look: LookTrig) -> (m: Mat3)
    ensures
        m == spec_fly_basis(look),
{
    Mat3 {
        x_axis: Vec3 { x: look.yaw.cos, y: Fixed::zero(), z: look.yaw.sin.neg() },
        y_axis: Vec3::up(),
        z_axis: Vec3 {
            x: look.yaw.sin.mul(look.pitch.cos).neg(),
            y: look.pitch.sin,
            z: look.yaw.cos.mul(look.pitch.cos).neg(),
        },
    }
}

/// The largest wish speed: the crouched speed when crouching, else the run
/// speed when sprinting, else the walk speed.
pub open spec fn spec_max_wish_speed(input: FpsControllerInput, controller: FpsController) -> Fixed {
    if input.crouch {
        controller.crouched_speed
    } else if input.sprint {
        controller.run_speed
    } else {
        controller.walk_speed
    }
}

/// The movement input scaled by the side and forward speeds and turned by
/// the yaw, before it is normalized.
pub open spec fn spec_wish_vector(
    input: FpsControllerInput,
    yaw: SinCos,
    controller: FpsController,
) -> Vec3 {
    walk_basis(yaw).mul_vec3(
        input.movement.mul_components(
            Vec3 { x: controller.side_speed, y: Fixed::zero(), z: controller.forward_speed },
        ),
    )
}

/// The direction the player wishes to move in and the speed wished for. The
/// direction is the wish vector divided by its length, or the wish vector
/// itself where its length is within the zero threshold; the speed is that
/// length, capped by the largest wish speed.
pub open spec fn spec_calculate_wish_movement(
    input: FpsControllerInput,
    yaw: SinCos,
    controller: FpsController,
) -> (Vec3, Fixed) {
    let wish = spec_wish_vector(input, yaw, controller);
    let length = wish.length();
    (
        if length.raw > EPSILON_RAW {
            wish.unscale(length)
        } else {
            wish
        },
        length.min(spec_max_wish_speed(input, controller)),
    )
}

/// The direction the player wishes to move in and the speed wished for,
/// from the movement axes of `input`, the sine and cosine of its yaw, and
/// the speeds of `controller`.
pub fn calculate_wish_movement(
    input: &FpsControllerInput,
    yaw: SinCos,
    controller: &FpsController,
) -> (wish: (Vec3, Fixed))
    ensures
        wish == spec_calculate_wish_movement(*input, yaw, *controller),
        wish.1.raw <= spec_max_wish_speed(*input, *controller).raw,
        wish.0.y == Fixed::zero(),
{
    let speeds: Vec3 = Vec3::new(controller.side_speed, Fixed::zero(), controller.forward_speed);
    let move_to_world: Mat3 = walk_basis(yaw);
    let scaled: Vec3 = input.movement.mul_components(speeds);
    let mut wish_direction: Vec3 = move_to_world.mul_vec3(scaled);
    let mut wish_speed: Fixed = wish_direction.length();
    proof {
        // Neither the input's vertical axis nor the yaw reaches the vertical.
        lemma_zero_absorbs(input.movement.y);
        lemma_zero_absorbs(scaled.x);
        lemma_zero_absorbs(scaled.z);
        lemma_zero_absorbs(Fixed::one());
        lemma_zero_absorbs(wish_speed);
    }
    if wish_speed.raw > EPSILON_RAW {
        wish_direction = wish_direction.unscale(wish_speed);
    }
    let max_speed: Fixed = if input.crouch {
        controller.crouched_speed
    } else if input.sprint {
        controller.run_speed
    } else {
        controller.walk_speed
    };
    wish_speed = wish_speed.min(max_speed);
    (wish_direction, wish_speed)
}

/// The velocity with its horizontal part scaled down to `max_speed` where
/// it is faster; the vertical part stays.
pub open spec fn spec_cap_lateral_speed(velocity: Vec3, max_speed: Fixed) -> Vec3 {
    let speed = velocity.lateral_length();
    if speed.raw > max_speed.raw {
        let ratio = max_speed.div(speed);
        Vec3 { x: velocity.x.mul(ratio), y: velocity.y, z: velocity.z.mul(ratio) }
    } else {
        velocity
    }
}

/// The velocity in the air before its horizontal speed is capped: the
/// shared acceleration toward the wish direction with the wish speed capped
/// by `air_speed_cap`, its vertical part replaced by the fall
/// `-gravity * dt`.
pub open spec fn spec_air_gain(
    dt: Fixed,
    controller: FpsController,
    velocity: Vec3,
    wish_direction: Vec3,
    wish_speed: Fixed,
) -> Vec3 {
    let add = spec_acceleration(
        wish_direction,
        wish_speed.min(controller.air_speed_cap),
        controller.air_acceleration,
        velocity,
        dt,
    );
    velocity.add(Vec3 { x: add.x, y: controller.gravity.neg().mul(dt), z: add.z })
}

/// The velocity after one step in the air: air control and the fall of
/// gravity, and the horizontal speed then capped by `max_air_speed`.
pub open spec fn spec_air_velocity(
    dt: Fixed,
    controller: FpsController,
    velocity: Vec3,
    wish_direction: Vec3,
    wish_speed: Fixed,
) -> Vec3 {
    spec_cap_lateral_speed(
        spec_air_gain(dt, controller, velocity, wish_direction, wish_speed),
        controller.max_air_speed,
    )
}

/// One step of movement in the air: the ground tick falls to zero and the
/// velocity gains air control and the fall of gravity.
pub fn handle_air_movement(
    dt: Fixed,
    controller: &mut FpsController,
    velocity: &mut Vec3,
    wish_direction: Vec3,
    wish_speed: Fixed,
)
    ensures
        *final(controller) == (FpsController { ground_tick: 0, ..*old(controller) }),
        *final(velocity) == spec_air_velocity(
            dt,
            *old(controller),
            *old(velocity),
            wish_direction,
            wish_speed,
        ),
{
    controller.ground_tick = 0;
    let air_speed: Fixed = wish_speed.min(controller.air_speed_cap);
    let mut add: Vec3 = acceleration(
        wish_direction,
        air_speed,
        controller.air_acceleration,
        *velocity,
        dt,
    );
    add.y = controller.gravity.neg().mul(dt);
    *velocity = velocity.add(add);
    let air_speed: Fixed = velocity.lateral_length();
    if air_speed.raw > controller.max_air_speed.raw {
        let ratio: Fixed = controller.max_air_speed.div(air_speed);
        velocity.x = velocity.x.mul(ratio);
        velocity.z = velocity.z.mul(ratio);
    }
}

/// The speed that friction takes from a horizontal speed above the cutoff:
/// `max(speed, stop_speed) * friction * dt`.
pub open spec fn spec_friction_drop(dt: Fixed, controller: FpsController, speed: Fixed) -> Fixed {
    speed.max(controller.stop_speed).mul(controller.friction).mul(dt)
}

/// The factor by which friction scales a horizontal speed above the
/// cutoff: the speed less the friction drop, over the speed, and zero where
/// that is negative.
pub open spec fn spec_friction_factor(dt: Fixed, controller: FpsController, speed: Fixed) -> Fixed {
    speed.sub(spec_friction_drop(dt, controller, speed)).div(speed).max(Fixed::zero())
}

/// The velocity after ground friction: the horizontal part scaled by the
/// friction factor where it is faster than `friction_speed_cutoff`, else
/// stopped; the vertical part stays.
pub open spec fn spec_ground_friction(dt: Fixed, controller: FpsController, velocity: Vec3) -> Vec3 {
    let speed = velocity.lateral_length();
    if speed.raw > controller.friction_speed_cutoff.raw {
        let factor = spec_friction_factor(dt, controller, speed);
        Vec3 { x: velocity.x.mul(factor), y: velocity.y, z: velocity.z.mul(factor) }
    } else {
        Vec3 { x: Fixed::zero(), y: velocity.y, z: Fixed::zero() }
    }
}

/// Slows the horizontal part of the velocity by ground friction.
pub fn handle_ground_friction(dt: Fixed, controller: &FpsController, velocity: &mut Vec3)
    ensures
        *final(velocity) == spec_ground_friction(dt, *controller, *old(velocity)),
{
    let lateral_speed: Fixed = velocity.lateral_length();
    if lateral_speed.raw > controller.friction_speed_cutoff.raw {
        let control: Fixed = lateral_speed.max(controller.stop_speed);
        let drop: Fixed = control.mul(controller.friction).mul(dt);
        let new_speed: Fixed = lateral_speed.sub(drop).div(lateral_speed).max(Fixed::zero());
        velocity.x = velocity.x.mul(new_speed);
        velocity.z = velocity.z.mul(new_speed);
    } else {
        velocity.x = Fixed::zero();
        velocity.z = Fixed::zero();
    }
}

/// Whether a contact gives traction: the vertical component of the normal
/// of the surface exceeds the controller's cutoff.
pub open spec fn spec_has_traction(controller: FpsController, hit: ShapeHitData) -> bool {
    hit.normal1.y.raw > controller.traction_normal_cutoff.raw
}

/// The ground tick counted up by one, saturating.
pub open spec fn spec_next_ground_tick(ground_tick: u8) -> u8 {
    if ground_tick == u8::MAX {
        u8::MAX
    } else {
        (ground_tick + 1) as u8
    }
}

/// The velocity after the first half of a contact: ground friction where
/// the body has a ground tick and the contact gives traction; then the
/// shared acceleration toward the tick's wish direction, up to its wish
/// speed; and the fall of gravity where the contact gives no traction.
pub open spec fn spec_contact_velocity(
    dt: Fixed,
    controller: FpsController,
    velocity: Vec3,
    hit: ShapeHitData,
    wish_direction: Vec3,
    wish_speed: Fixed,
) -> Vec3 {
    let has_traction = spec_has_traction(controller, hit);
    let slowed = if controller.ground_tick >= 1 && has_traction {
        spec_ground_friction(dt, controller, velocity)
    } else {
        velocity
    };
    let gained = slowed.add(
        spec_acceleration(wish_direction, wish_speed, controller.acceleration, slowed, dt),
    );
    if has_traction {
        gained
    } else {
        Vec3 { x: gained.x, y: gained.y.sub(controller.gravity.mul(dt)), z: gained.z }
    }
}

/// The velocity with its part along `normal` taken out.
pub open spec fn spec_slide(velocity: Vec3, normal: Vec3) -> Vec3 {
    velocity.sub(normal.scale(velocity.dot(normal)))
}

/// On level ground the slide takes out the vertical speed exactly and
/// leaves the horizontal velocity as it is.
pub proof fn lemma_slide_on_level_ground(velocity: Vec3)
    ensures
        spec_slide(velocity, Vec3::up()) == (Vec3 {
            x: velocity.x,
            y: Fixed::zero(),
            z: velocity.z,
        }),
{
    lemma_zero_absorbs(velocity.x);
    lemma_zero_absorbs(velocity.z);
    lemma_one_is_neutral(velocity.y);
    lemma_zero_absorbs(velocity.y);
}

/// Whether a contact with traction starts a jump: the jump key is down and
/// the body has a ground tick.
pub open spec fn spec_jumps(input: FpsControllerInput, controller: FpsController) -> bool {
    input.jump && controller.ground_tick > 0
}

/// The body after one contact of the sweep, for the wish direction and
/// speed of the tick. Without traction only the velocity changes and the
/// ground tick counts up. With traction the
/// velocity slides along the surface and the body is lifted by the ground
/// bias; a jump then sets the vertical speed to the jump speed, clears
/// `grounded` and restarts the ground tick, which ends at one.
pub open spec fn spec_handle_shape_hit(
    dt: Fixed,
    input: FpsControllerInput,
    body: LogicalBody,
    hit: ShapeHitData,
    wish_direction: Vec3,
    wish_speed: Fixed,
) -> LogicalBody {
    let controller = body.controller;
    let moved = spec_contact_velocity(
        dt,
        controller,
        body.velocity,
        hit,
        wish_direction,
        wish_speed,
    );
    if spec_has_traction(controller, hit) {
        let slid = spec_slide(moved, hit.normal1);
        let lifted = Vec3 {
            x: body.translation.x,
            y: body.translation.y.add(Fixed { raw: GROUND_BIAS_RAW }),
            z: body.translation.z,
        };
        if spec_jumps(input, controller) {
            LogicalBody {
                controller: FpsController { ground_tick: 1, grounded: false, ..controller },
                collider: body.collider,
                translation: lifted,
                velocity: Vec3 { x: slid.x, y: controller.jump_speed, z: slid.z },
            }
        } else {
            LogicalBody {
                controller: FpsController {
                    ground_tick: spec_next_ground_tick(controller.ground_tick),
                    ..controller
                },
                collider: body.collider,
                translation: lifted,
                velocity: slid,
            }
        }
    } else {
        LogicalBody {
            controller: FpsController {
                ground_tick: spec_next_ground_tick(controller.ground_tick),
                ..controller
            },
            collider: body.collider,
            translation: body.translation,
            velocity: moved,
        }
    }
}

/// What a body at rest gains on a contact: the wish direction scaled by the
/// smaller of `acceleration * wish_speed * dt` and the wish speed.
pub open spec fn spec_start_velocity(
    dt: Fixed,
    controller: FpsController,
    wish_direction: Vec3,
    wish_speed: Fixed,
) -> Vec3 {
    wish_direction.scale(controller.acceleration.mul(wish_speed).mul(dt).min(wish_speed))
}

/// Applies one contact of the sweep to the body. `wish_direction` and
/// `wish_speed` are what the player wishes for on this tick. On a contact
/// without traction a horizontal wish direction leaves the vertical speed
/// to gravity alone. On level ground a body at rest starts to move along a
/// horizontal wish direction.
pub fn handle_shape_hit(
    dt: Fixed,
    input: &FpsControllerInput,
    body: &mut LogicalBody,
    shape_hit_data: &ShapeHitData,
    wish_direction: Vec3,
    wish_speed: Fixed,
)
    ensures
        *final(body) == spec_handle_shape_hit(
            dt,
            *input,
            *old(body),
            *shape_hit_data,
            wish_direction,
            wish_speed,
        ),
        spec_contact_frame(*old(body), *final(body)),
        spec_has_traction(old(body).controller, *shape_hit_data) && spec_jumps(
            *input,
            old(body).controller,
        ) ==> final(body).velocity.y == old(body).controller.jump_speed
            && final(body).controller.ground_tick == 1 && !final(body).controller.grounded,
        !(spec_has_traction(old(body).controller, *shape_hit_data) && spec_jumps(
            *input,
            old(body).controller,
        )) ==> final(body).controller.ground_tick == spec_next_ground_tick(
            old(body).controller.ground_tick,
        ) && final(body).controller.grounded == old(body).controller.grounded,
        !spec_has_traction(old(body).controller, *shape_hit_data) ==> final(body).translation
            == old(body).translation,
        !spec_has_traction(old(body).controller, *shape_hit_data) && wish_direction.y
            == Fixed::zero() ==> final(body).velocity.y == old(body).velocity.y.sub(
            old(body).controller.gravity.mul(dt),
        ),
        spec_has_traction(old(body).controller, *shape_hit_data) && shape_hit_data.normal1
            == Vec3::up() && old(body).velocity == Vec3::zero() && wish_direction.y
            == Fixed::zero() && wish_speed.raw > 0 && !spec_jumps(*input, old(body).controller)
            ==> final(body).velocity == spec_start_velocity(
            dt,
            old(body).controller,
            wish_direction,
            wish_speed,
        ),
{
    proof {
        if wish_direction.y == Fixed::zero() {
            lemma_contact_scenes(dt, *input, *body, *shape_hit_data, wish_direction, wish_speed);
        }
    }
    let has_traction: bool = shape_hit_data.normal1.y.raw
        > body.controller.traction_normal_cutoff.raw;

    let mut velocity: Vec3 = body.velocity;
    if body.controller.ground_tick >= 1 && has_traction {
        handle_ground_friction(dt, &body.controller, &mut velocity);
    }
    let add: Vec3 = acceleration(
        wish_direction,
        wish_speed,
        body.controller.acceleration,
        velocity,
        dt,
    );
    velocity = velocity.add(add);
    if !has_traction {
        velocity.y = velocity.y.sub(body.controller.gravity.mul(dt));
    }
    if has_traction {
        let normal: Vec3 = shape_hit_data.normal1;
        velocity = velocity.sub(normal.scale(velocity.dot(normal)));

        if input.jump && body.controller.ground_tick > 0 {
            velocity.y = body.controller.jump_speed;
            body.controller.ground_tick = 0;
            body.controller.grounded = false;
        }
        // Keep the body clear of the surface.
        body.translation.y = body.translation.y.add(Fixed { raw: GROUND_BIAS_RAW });
    }
    body.velocity = velocity;
    body.controller.ground_tick = body.controller.ground_tick.saturating_add(1);
}

/// The shared acceleration along a horizontal wish direction is horizontal.
pub proof fn lemma_acceleration_horizontal(
    wish_direction: Vec3,
    wish_speed: Fixed,
    accel: Fixed,
    velocity: Vec3,
    dt: Fixed,
)
    requires
        wish_direction.y == Fixed::zero(),
    ensures
        spec_acceleration(wish_direction, wish_speed, accel, velocity, dt).y == Fixed::zero(),
{
    lemma_zero_absorbs(acceleration_limit(wish_direction, wish_speed, accel, velocity, dt));
}

/// Two scenes of a contact, for a horizontal wish direction. Without
/// traction the vertical speed afterwards is the old one less
/// `gravity * dt`. On level ground a body at rest that does not jump gains
/// the wish direction scaled by the smaller of
/// `acceleration * wish_speed * dt` and the wish speed.
pub proof fn lemma_contact_scenes(
    dt: Fixed,
    input: FpsControllerInput,
    body: LogicalBody,
    hit: ShapeHitData,
    wish_direction: Vec3,
    wish_speed: Fixed,
)
    requires
        wish_direction.y == Fixed::zero(),
    ensures
        !spec_has_traction(body.controller, hit) ==> spec_handle_shape_hit(
            dt,
            input,
            body,
            hit,
            wish_direction,
            wish_speed,
        ).velocity.y == body.velocity.y.sub(body.controller.gravity.mul(dt)),
        spec_has_traction(body.controller, hit) && hit.normal1 == Vec3::up() && body.velocity
            == Vec3::zero() && wish_speed.raw > 0 && !spec_jumps(input, body.controller)
            ==> spec_handle_shape_hit(dt, input, body, hit, wish_direction, wish_speed).velocity
            == spec_start_velocity(dt, body.controller, wish_direction, wish_speed),
{
    let controller = body.controller;
    if !spec_has_traction(controller, hit) {
        lemma_acceleration_horizontal(
            wish_direction,
            wish_speed,
            controller.acceleration,
            body.velocity,
            dt,
        );
    } else if hit.normal1 == Vec3::up() && body.velocity == Vec3::zero() && wish_speed.raw > 0 {
        let rest = Vec3::zero();
        // Friction leaves a body at rest at rest.
        lemma_zero_absorbs(spec_friction_factor(dt, controller, rest.lateral_length()));
        assert(spec_ground_friction(dt, controller, rest) == rest);
        // At rest the body lacks the whole wish speed.
        lemma_zero_absorbs(wish_direction.x);
        lemma_zero_absorbs(wish_direction.y);
        lemma_zero_absorbs(wish_direction.z);
        assert(rest.dot(wish_direction) == Fixed::zero());
        let gain = spec_acceleration(wish_direction, wish_speed, controller.acceleration, rest, dt);
        assert(gain == spec_start_velocity(dt, controller, wish_direction, wish_speed));
        lemma_acceleration_horizontal(
            wish_direction,
            wish_speed,
            controller.acceleration,
            rest,
            dt,
        );
        assert(rest.add(gain) == gain);
        lemma_slide_on_level_ground(gain);
    }
}

/// The body after the contacts of the sweep, applied in sweep order, each
/// for the wish direction and speed of the tick.
pub open spec fn spec_handle_shape_hits(
    dt: Fixed,
    input: FpsControllerInput,
    body: LogicalBody,
    hits: Seq<ShapeHitData>,
    wish_direction: Vec3,
    wish_speed: Fixed,
) -> LogicalBody
    decreases hits.len(),
{
    if hits.len() == 0 {
        body
    } else {
        spec_handle_shape_hit(
            dt,
            input,
            spec_handle_shape_hits(dt, input, body, hits.drop_last(), wish_direction, wish_speed),
            hits.last(),
            wish_direction,
            wish_speed,
        )
    }
}

/// Applies the contacts of the sweep to the body, in sweep order.
pub fn handle_shape_hits(
    dt: Fixed,
    input: &FpsControllerInput,
    body: &mut LogicalBody,
    shape_hits: &Vec<ShapeHitData>,
    wish_direction: Vec3,
    wish_speed: Fixed,
)
    ensures
        *final(body) == spec_handle_shape_hits(
            dt,
            *input,
            *old(body),
            shape_hits@,
            wish_direction,
            wish_speed,
        ),
{
    let ghost start = *body;
    let mut i: usize = 0;
    while i < shape_hits.len()
        invariant
            i <= shape_hits.len(),
            *body == spec_handle_shape_hits(
                dt,
                *input,
                start,
                shape_hits@.take(i as int),
                wish_direction,
                wish_speed,
            ),
        decreases shape_hits.len() - i,
    {
        proof {
            assert(shape_hits@.take(i + 1).drop_last() =~= shape_hits@.take(i as int));
        }
        handle_shape_hit(dt, input, body, &shape_hits[i], wish_direction, wish_speed);
        i = i + 1;
    }
    proof {
        assert(shape_hits@.take(i as int) =~= shape_hits@);
    }
}

/// The height from which the step cast looks down: the body's height in
/// the world plus the step offset scaled by the cast factor.
pub open spec fn spec_step_cast_height(body: LogicalBody) -> Fixed {
    body.translation.y.add(body.controller.step_offset.mul(Fixed { raw: STEP_CAST_SCALE_RAW }))
}

/// How far the contact point of `hit` lies under `cast_height`.
pub open spec fn spec_step_drop(cast_height: Fixed, hit: ShapeHitData) -> Fixed {
    cast_height.sub(hit.point1.y)
}

/// Whether the contact point of `hit` lies no more than `step_offset` under
/// `cast_height`.
pub open spec fn spec_step_near(cast_height: Fixed, step_offset: Fixed, hit: ShapeHitData) -> bool {
    spec_step_drop(cast_height, hit).raw <= step_offset.raw
}

/// The rise over the first contact, in sweep order, that lies no more than
/// `step_offset` under `cast_height`: the step offset less that drop. `None`
/// where no contact lies that near.
pub open spec fn spec_step_rise(
    cast_height: Fixed,
    step_offset: Fixed,
    hits: Seq<ShapeHitData>,
) -> Option<Fixed>
    decreases hits.len(),
{
    if hits.len() == 0 {
        None
    } else if spec_step_near(cast_height, step_offset, hits[0]) {
        Some(step_offset.sub(spec_step_drop(cast_height, hits[0])))
    } else {
        spec_step_rise(cast_height, step_offset, hits.drop_first())
    }
}

/// Whether contact `k` is the first of the sweep that lies near enough
/// under the cast origin.
pub open spec fn spec_first_near(
    cast_height: Fixed,
    step_offset: Fixed,
    hits: Seq<ShapeHitData>,
    k: int,
) -> bool {
    &&& 0 <= k < hits.len()
    &&& spec_step_near(cast_height, step_offset, hits[k])
    &&& forall|i: int| 0 <= i < k ==> !spec_step_near(cast_height, step_offset, #[trigger] hits[i])
}

/// The step rise is taken over the first near contact of the sweep and over
/// no other; there is none exactly where no contact is near.
pub proof fn lemma_step_rise_first(cast_height: Fixed, step_offset: Fixed, hits: Seq<ShapeHitData>)
    ensures
        spec_step_rise(cast_height, step_offset, hits).is_none() <==> forall|i: int|
            0 <= i < hits.len() ==> !spec_step_near(cast_height, step_offset, #[trigger] hits[i]),
        forall|k: int| #[trigger]
            spec_first_near(cast_height, step_offset, hits, k) ==> spec_step_rise(
                cast_height,
                step_offset,
                hits,
            ) == Some(step_offset.sub(spec_step_drop(cast_height, hits[k]))),
    decreases hits.len(),
{
    if hits.len() > 0 {
        let rest = hits.drop_first();
        lemma_step_rise_first(cast_height, step_offset, rest);
        assert(forall|i: int| 0 <= i < rest.len() ==> rest[i] == hits[i + 1]);
        if !spec_step_near(cast_height, step_offset, hits[0]) {
            assert forall|k: int| #[trigger]
                spec_first_near(cast_height, step_offset, hits, k) implies spec_step_rise(
                cast_height,
                step_offset,
                hits,
            ) == Some(step_offset.sub(spec_step_drop(cast_height, hits[k]))) by {
                assert(k >= 1);
                assert(rest[k - 1] == hits[k]);
                assert forall|i: int| 0 <= i < k - 1 implies !spec_step_near(
                    cast_height,
                    step_offset,
                    #[trigger] rest[i],
                ) by {
                    assert(rest[i] == hits[i + 1]);
                }
                assert(spec_first_near(cast_height, step_offset, rest, k - 1));
            }
            if forall|i: int|
                0 <= i < rest.len() ==> !spec_step_near(cast_height, step_offset, #[trigger] rest[i]) {
                assert forall|i: int| 0 <= i < hits.len() implies !spec_step_near(
                    cast_height,
                    step_offset,
                    #[trigger] hits[i],
                ) by {
                    if i > 0 {
                        assert(rest[i - 1] == hits[i]);
                    }
                }
            } else {
                let j = choose|j: int|
                    0 <= j < rest.len() && spec_step_near(cast_height, step_offset, #[trigger] rest[j]);
                assert(hits[j + 1] == rest[j]);
            }
        } else {
            assert forall|k: int| #[trigger]
                spec_first_near(cast_height, step_offset, hits, k) implies k == 0 by {
                if k > 0 {
                    assert(!spec_step_near(cast_height, step_offset, hits[0]));
                }
            }
        }
    }
}

/// The body after the step over a ledge: lifted by the step rise, and no
/// longer falling, where there is a rise above zero; else as it was.
pub open spec fn spec_handle_step_offset(body: LogicalBody, hits: Seq<ShapeHitData>) -> LogicalBody {
    match spec_step_rise(spec_step_cast_height(body), body.controller.step_offset, hits) {
        Some(rise) => if rise.raw > 0 {
            LogicalBody {
                controller: body.controller,
                collider: body.collider,
                translation: Vec3 {
                    x: body.translation.x,
                    y: body.translation.y.add(rise),
                    z: body.translation.z,
                },
                velocity: Vec3 {
                    x: body.velocity.x,
                    y: body.velocity.y.max(Fixed::zero()),
                    z: body.velocity.z,
                },
            }
        } else {
            body
        },
        None => body,
    }
}

/// Lifts the body over a ledge no higher than the step offset. Only the
/// first contact near enough under the cast origin counts. The cast origin
/// lies ahead of the body along its yaw, which does not change how far a
/// contact lies under it.
pub fn handle_step_offset(body: &mut LogicalBody, shape_hits: &Vec<ShapeHitData>)
    ensures
        *final(body) == spec_handle_step_offset(*old(body), shape_hits@),
{
    let step_offset: Fixed = body.controller.step_offset;
    let cast_height: Fixed = body.translation.y.add(
        step_offset.mul(Fixed { raw: STEP_CAST_SCALE_RAW }),
    );
    let mut i: usize = 0;
    proof {
        assert(shape_hits@.skip(0) =~= shape_hits@);
    }
    while i < shape_hits.len()
        invariant_except_break
            i <= shape_hits.len(),
            *body == *old(body),
            spec_step_rise(cast_height, step_offset, shape_hits@) == spec_step_rise(
                cast_height,
                step_offset,
                shape_hits@.skip(i as int),
            ),
        invariant
            step_offset == old(body).controller.step_offset,
            cast_height == spec_step_cast_height(*old(body)),
        ensures
            *body == spec_handle_step_offset(*old(body), shape_hits@),
        decreases shape_hits.len() - i,
    {
        proof {
            assert(shape_hits@.skip(i as int).drop_first() =~= shape_hits@.skip(i + 1));
            assert(shape_hits@.skip(i as int)[0] == shape_hits@[i as int]);
        }
        let distance: Fixed = cast_height.sub(shape_hits[i].point1.y);
        if distance.raw <= step_offset.raw {
            let step_height: Fixed = step_offset.sub(distance);
            if step_height.raw > 0 {
                body.translation.y = body.translation.y.add(step_height);
                // Stepping up never looks like falling.
                body.velocity.y = body.velocity.y.max(Fixed::zero());
            }
            break ;
        }
        i = i + 1;
    }
}

/// The height after a step of crouching or rising: the height moved by
/// `dt` times the crouch speed downward, or the uncrouch speed upward, and
/// kept between the crouched and the upright height.
pub open spec fn spec_crouch_height(
    dt: Fixed,
    input: FpsControllerInput,
    controller: FpsController,
) -> Fixed {
    controller.height.add(
        dt.mul(
            if input.crouch {
                controller.crouch_speed.neg()
            } else {
                controller.uncrouch_speed
            },
        ),
    ).clamp(controller.crouch_height, controller.upright_height)
}

/// The collider with its height set to `height`, where it is a capsule.
pub open spec fn spec_with_height(collider: Collider, height: Fixed) -> Collider {
    match collider {
        Collider::Capsule { radius, height: _ } => Collider::Capsule { radius, height },
        Collider::Other => Collider::Other,
    }
}

/// The body after a step of crouching or rising: the controller's height
/// blended, and the capsule's height set to it.
pub open spec fn spec_handle_crouch(
    dt: Fixed,
    input: FpsControllerInput,
    body: LogicalBody,
) -> LogicalBody {
    LogicalBody {
        controller: FpsController {
            height: spec_crouch_height(dt, input, body.controller),
            ..body.controller
        },
        collider: spec_with_height(body.collider, spec_crouch_height(dt, input, body.controller)),
        translation: body.translation,
        velocity: body.velocity,
    }
}

/// Blends the height toward the crouched or the upright height and sets the
/// capsule's height to it.
pub fn handle_crouch(dt: Fixed, input: &FpsControllerInput, body: &mut LogicalBody)
    ensures
        *final(body) == spec_handle_crouch(dt, *input, *old(body)),
        old(body).controller.crouch_height.raw <= old(body).controller.upright_height.raw
            ==> final(body).controller.height_in_range(),
{
    let rate: Fixed = if input.crouch {
        body.controller.crouch_speed.neg()
    } else {
        body.controller.uncrouch_speed
    };
    let height: Fixed = body.controller.height.add(dt.mul(rate)).clamp(
        body.controller.crouch_height,
        body.controller.upright_height,
    );
    body.controller.height = height;
    match body.collider {
        Collider::Capsule { radius, height: stored } => {
            if stored.raw != height.raw {
                body.collider = Collider::Capsule { radius, height };
            }
        },
        Collider::Other => {},
    }
}

/// The velocity in noclip mode: zero for no movement input, else the input
/// turned by the fly basis and scaled by the fly speed, the fast one when
/// sprinting.
pub open spec fn spec_noclip_velocity(
    input: FpsControllerInput,
    look: LookTrig,
    controller: FpsController,
) -> Vec3 {
    if input.movement == Vec3::zero() {
        Vec3::zero()
    } else {
        fly_basis(look).mul_vec3(input.movement).scale(
            if input.sprint {
                controller.fast_fly_speed
            } else {
                controller.fly_speed
            },
        )
    }
}

/// Sets the velocity in noclip mode: the input decides it alone, whatever
/// the body's velocity was.
pub fn handle_noclip_mode(
    input: &FpsControllerInput,
    look: LookTrig,
    controller: &FpsController,
    velocity: &mut Vec3,
)
    ensures
        *final(velocity) == spec_noclip_velocity(*input, look, *controller),
        input.movement == Vec3::zero() ==> *final(velocity) == Vec3::zero(),
{
    if input.movement == Vec3::zero() {
        *velocity = Vec3::zero();
    } else {
        let fly_speed: Fixed = if input.sprint {
            controller.fast_fly_speed
        } else {
            controller.fly_speed
        };
        let move_to_world: Mat3 = fly_basis(look);
        *velocity = move_to_world.mul_vec3(input.movement).scale(fly_speed);
    }
}

/// The body after one step in ground mode. A body whose collider is no
/// capsule is left as it is. Else, in this order, all for the wish
/// direction and speed of the input: air movement unless `grounded`; the
/// contacts of the sweep; the step over a ledge, where the
/// step offset is above the zero threshold and the body has a ground tick;
/// and the blend of the height.
pub open spec fn spec_handle_ground_mode(
    dt: Fixed,
    input: FpsControllerInput,
    yaw: SinCos,
    body: LogicalBody,
    hits: Seq<ShapeHitData>,
    grounded: bool,
) -> LogicalBody {
    match body.collider {
        Collider::Other => body,
        Collider::Capsule { radius: _, height: _ } => {
            let wish = spec_calculate_wish_movement(input, yaw, body.controller);
            let flown = if grounded {
                body
            } else {
                LogicalBody {
                    controller: FpsController { ground_tick: 0, ..body.controller },
                    collider: body.collider,
                    translation: body.translation,
                    velocity: spec_air_velocity(
                        dt,
                        body.controller,
                        body.velocity,
                        wish.0,
                        wish.1,
                    ),
                }
            };
            let contacted = spec_handle_shape_hits(dt, input, flown, hits, wish.0, wish.1);
            let stepped = if contacted.controller.step_offset.raw > EPSILON_RAW
                && contacted.controller.ground_tick >= 1 {
                spec_handle_step_offset(contacted, hits)
            } else {
                contacted
            };
            spec_handle_crouch(dt, input, stepped)
        },
    }
}

/// One step of a body in ground mode; `grounded` is the classification that
/// the ground sweep gave before the step.
pub fn handle_ground_mode(
    dt: Fixed,
    input: &FpsControllerInput,
    yaw: SinCos,
    body: &mut LogicalBody,
    shape_hits: &Vec<ShapeHitData>,
    grounded: bool,
)
    ensures
        *final(body) == spec_handle_ground_mode(
            dt,
            *input,
            yaw,
            *old(body),
            shape_hits@,
            grounded,
        ),
{
    match body.collider {
        Collider::Other => {},
        Collider::Capsule { radius: _, height: _ } => {
            let (wish_direction, wish_speed) = calculate_wish_movement(
                input,
                yaw,
                &body.controller,
            );

            if !grounded {
                handle_air_movement(
                    dt,
                    &mut body.controller,
                    &mut body.velocity,
                    wish_direction,
                    wish_speed,
                );
            }
            handle_shape_hits(dt, input, body, shape_hits, wish_direction, wish_speed);

            if body.controller.step_offset.raw > EPSILON_RAW && body.controller.ground_tick >= 1 {
                handle_step_offset(body, shape_hits);
            }
            handle_crouch(dt, input, body);
        },
    }
}

/// Whether some contact of the sweep gives traction.
pub open spec fn spec_any_traction(controller: FpsController, hits: Seq<ShapeHitData>) -> bool {
    exists|i: int| 0 <= i < hits.len() && spec_has_traction(controller, #[trigger] hits[i])
}

/// The controller with its ground tick set to one where some contact of the
/// sweep gives traction; else as it was.
pub open spec fn spec_primed(controller: FpsController, hits: Seq<ShapeHitData>) -> FpsController {
    if spec_any_traction(controller, hits) {
        FpsController { ground_tick: 1, ..controller }
    } else {
        controller
    }
}

/// Sets the ground tick to one where some contact of the sweep gives
/// traction, so that friction applies from the same tick on.
pub fn prime_ground_tick(controller: &mut FpsController, shape_hits: &Vec<ShapeHitData>)
    ensures
        *final(controller) == spec_primed(*old(controller), shape_hits@),
{
    let mut i: usize = 0;
    while i < shape_hits.len()
        invariant
            i <= shape_hits.len(),
            *controller == spec_primed(*old(controller), shape_hits@.take(i as int)),
        decreases shape_hits.len() - i,
    {
        let ghost before = shape_hits@.take(i as int);
        let ghost after = shape_hits@.take(i + 1);
        proof {
            assert(after[i as int] == shape_hits@[i as int]);
            if spec_any_traction(*old(controller), before) {
                let j = choose|j: int|
                    0 <= j < before.len() && spec_has_traction(
                        *old(controller),
                        #[trigger] before[j],
                    );
                assert(after[j] == before[j]);
            }
            if spec_any_traction(*old(controller), after) && !spec_has_traction(
                *old(controller),
                shape_hits@[i as int],
            ) {
                let j = choose|j: int|
                    0 <= j < after.len() && spec_has_traction(
                        *old(controller),
                        #[trigger] after[j],
                    );
                assert(before[j] == after[j]);
            }
        }
        if shape_hits[i].normal1.y.raw > controller.traction_normal_cutoff.raw {
            controller.ground_tick = 1;
        }
        i = i + 1;
    }
    proof {
        assert(shape_hits@.take(i as int) =~= shape_hits@);
    }
}

/// The mode after the fly key: the other mode on the tick on which the key
/// went down, else the same.
pub open spec fn spec_next_mode(mode: MoveMode, fly: bool) -> MoveMode {
    if fly {
        mode.toggled()
    } else {
        mode
    }
}

/// The body after one movement step. With `enable_input` off it stays as it
/// is. Else the fly key switches the mode, a contact with traction primes
/// the ground tick, and the step of the mode follows.
pub open spec fn spec_fps_controller_move(
    dt: Fixed,
    input: FpsControllerInput,
    look: LookTrig,
    body: LogicalBody,
    hits: Seq<ShapeHitData>,
) -> LogicalBody {
    if !body.controller.enable_input {
        body
    } else {
        let controller = spec_primed(
            FpsController {
                move_mode: spec_next_mode(body.controller.move_mode, input.fly),
                ..body.controller
            },
            hits,
        );
        match controller.move_mode {
            MoveMode::Noclip => LogicalBody {
                controller,
                collider: body.collider,
                translation: body.translation,
                velocity: spec_noclip_velocity(input, look, controller),
            },
            MoveMode::Ground => spec_handle_ground_mode(
                dt,
                input,
                look.yaw,
                LogicalBody {
                    controller,
                    collider: body.collider,
                    translation: body.translation,
                    velocity: body.velocity,
                },
                hits,
                controller.grounded,
            ),
        }
    }
}

/// Whether `after` differs from `before` at most in what the contacts of a
/// sweep may change: the velocity, the height of the position, the ground
/// tick and `grounded`.
pub open spec fn spec_contact_frame(before: LogicalBody, after: LogicalBody) -> bool {
    &&& after.controller == FpsController {
        ground_tick: after.controller.ground_tick,
        grounded: after.controller.grounded,
        ..before.controller
    }
    &&& after.collider == before.collider
    &&& after.translation.x == before.translation.x
    &&& after.translation.z == before.translation.z
}

/// The contacts of a sweep change nothing of a body but its velocity, the
/// height of its position, its ground tick and `grounded`; and a sweep
/// without contacts changes nothing.
pub proof fn lemma_shape_hits_frame(
    dt: Fixed,
    input: FpsControllerInput,
    body: LogicalBody,
    hits: Seq<ShapeHitData>,
    wish_direction: Vec3,
    wish_speed: Fixed,
)
    ensures
        spec_contact_frame(
            body,
            spec_handle_shape_hits(dt, input, body, hits, wish_direction, wish_speed),
        ),
        hits.len() == 0 ==> spec_handle_shape_hits(
            dt,
            input,
            body,
            hits,
            wish_direction,
            wish_speed,
        ) == body,
    decreases hits.len(),
{
    if hits.len() > 0 {
        lemma_shape_hits_frame(dt, input, body, hits.drop_last(), wish_direction, wish_speed);
    }
}

/// Whether `after` differs from `before` at most in what a movement step
/// may change: the velocity, the height of the position, the capsule's
/// height, and the controller's mode, height, ground tick and `grounded`.
pub open spec fn spec_move_frame(before: LogicalBody, after: LogicalBody) -> bool {
    &&& after.controller == FpsController {
        move_mode: after.controller.move_mode,
        height: after.controller.height,
        ground_tick: after.controller.ground_tick,
        grounded: after.controller.grounded,
        ..before.controller
    }
    &&& after.collider == before.collider || after.collider == spec_with_height(
        before.collider,
        after.controller.height,
    )
    &&& after.translation.x == before.translation.x
    &&& after.translation.z == before.translation.z
}

/// Whether the step that `input` asks of `body` is one in ground mode on a
/// capsule, with input enabled.
pub open spec fn spec_walks(input: FpsControllerInput, body: LogicalBody) -> bool {
    &&& body.controller.enable_input
    &&& spec_next_mode(body.controller.move_mode, input.fly) == MoveMode::Ground
    &&& body.collider != Collider::Other
}

/// Whether the step is a jump off the ground: a step in ground mode of a
/// body that is grounded, with the jump key down and a sweep of one contact
/// that gives traction.
pub open spec fn spec_jump_scene(
    input: FpsControllerInput,
    body: LogicalBody,
    hits: Seq<ShapeHitData>,
) -> bool {
    &&& spec_walks(input, body)
    &&& body.controller.grounded
    &&& input.jump
    &&& hits.len() == 1
    &&& spec_has_traction(body.controller, hits[0])
}

/// What a jump off the ground leaves: the body no longer grounded, its
/// ground tick restarted and counted once for the contact, and its vertical
/// speed the jump speed. (A step over a ledge in the same tick would stop a
/// jump speed below zero.)
pub open spec fn spec_jump_result(before: LogicalBody, after: LogicalBody) -> bool {
    &&& !after.controller.grounded
    &&& after.controller.ground_tick == 1
    &&& before.controller.step_offset.raw <= EPSILON_RAW || before.controller.jump_speed.raw >= 0
        ==> after.velocity.y == before.controller.jump_speed
}

/// What holds of every movement step: it keeps the tunable parameters, the
/// look angles and the horizontal position; the fly key alone decides the
/// mode; in noclip mode no movement input means no velocity; the height
/// stays between the crouched and the upright height, and enters that range
/// with every step in ground mode; a body in the air that touches nothing
/// has no ground tick; and a grounded body with traction jumps when asked.
pub proof fn lemma_move_invariants(
    dt: Fixed,
    input: FpsControllerInput,
    look: LookTrig,
    body: LogicalBody,
    hits: Seq<ShapeHitData>,
)
    ensures
        spec_move_frame(body, spec_fps_controller_move(dt, input, look, body, hits)),
        !body.controller.enable_input ==> spec_fps_controller_move(dt, input, look, body, hits)
            == body,
        body.controller.enable_input ==> spec_fps_controller_move(
            dt,
            input,
            look,
            body,
            hits,
        ).controller.move_mode == spec_next_mode(body.controller.move_mode, input.fly),
        body.controller.enable_input && spec_next_mode(body.controller.move_mode, input.fly)
            == MoveMode::Noclip && input.movement == Vec3::zero() ==> spec_fps_controller_move(
            dt,
            input,
            look,
            body,
            hits,
        ).velocity == Vec3::zero(),
        body.controller.crouch_height.raw <= body.controller.upright_height.raw && (
        body.controller.height_in_range() || spec_walks(input, body))
            ==> spec_fps_controller_move(dt, input, look, body, hits).controller.height_in_range(),
        spec_walks(input, body) && hits.len() == 0 && !body.controller.grounded
            ==> spec_fps_controller_move(dt, input, look, body, hits).controller.ground_tick == 0,
        spec_jump_scene(input, body, hits) ==> spec_jump_result(
            body,
            spec_fps_controller_move(dt, input, look, body, hits),
        ),
{
    if body.controller.enable_input {
        let controller = spec_primed(
            FpsController {
                move_mode: spec_next_mode(body.controller.move_mode, input.fly),
                ..body.controller
            },
            hits,
        );
        let primed = LogicalBody {
            controller,
            collider: body.collider,
            translation: body.translation,
            velocity: body.velocity,
        };
        if controller.move_mode == MoveMode::Ground && body.collider != Collider::Other {
            let wish = spec_calculate_wish_movement(input, look.yaw, controller);
            let flown = if controller.grounded {
                primed
            } else {
                LogicalBody {
                    controller: FpsController { ground_tick: 0, ..controller },
                    collider: primed.collider,
                    translation: primed.translation,
                    velocity: spec_air_velocity(dt, controller, primed.velocity, wish.0, wish.1),
                }
            };
            lemma_shape_hits_frame(dt, input, flown, hits, wish.0, wish.1);
            if spec_jump_scene(input, body, hits) {
                assert(spec_has_traction(body.controller, hits[0]));
                assert(spec_any_traction(
                    FpsController {
                        move_mode: spec_next_mode(body.controller.move_mode, input.fly),
                        ..body.controller
                    },
                    hits,
                ));
                assert(hits.drop_last().len() == 0);
                assert(spec_handle_shape_hits(
                    dt,
                    input,
                    flown,
                    hits.drop_last(),
                    wish.0,
                    wish.1,
                ) == flown);
                assert(hits.last() == hits[0]);
            }
        }
    }
}

/// Without a movement input there is no wish direction.
pub proof fn lemma_idle_wish(input: FpsControllerInput, yaw: SinCos, controller: FpsController)
    requires
        input.movement == Vec3::zero(),
    ensures
        spec_calculate_wish_movement(input, yaw, controller).0 == Vec3::zero(),
{
    lemma_zero_absorbs(controller.side_speed);
    lemma_zero_absorbs(controller.forward_speed);
    lemma_zero_absorbs(Fixed::zero());
    lemma_zero_absorbs(yaw.cos);
    lemma_zero_absorbs(yaw.sin.neg());
    lemma_zero_absorbs(yaw.cos.neg());
    lemma_zero_absorbs(Fixed::one());
    let wish = spec_wish_vector(input, yaw, controller);
    assert(wish == Vec3::zero());
    assert(wish.raw_length_squared() == 0);
    lemma_sqrt_floor_le(0, 0);
}

/// Without a wish direction the shared acceleration adds nothing.
pub proof fn lemma_acceleration_idle(wish_speed: Fixed, accel: Fixed, velocity: Vec3, dt: Fixed)
    ensures
        spec_acceleration(Vec3::zero(), wish_speed, accel, velocity, dt) == Vec3::zero(),
{
    lemma_zero_absorbs(acceleration_limit(Vec3::zero(), wish_speed, accel, velocity, dt));
}

/// Whether the step is one of a body that stands or slides on level ground
/// with no key down: a step in ground mode of a grounded body, without
/// movement input or jump, on one contact whose normal points straight up
/// and gives traction.
pub open spec fn spec_friction_scene(
    input: FpsControllerInput,
    body: LogicalBody,
    hits: Seq<ShapeHitData>,
) -> bool {
    &&& spec_walks(input, body)
    &&& body.controller.grounded
    &&& !input.jump
    &&& input.movement == Vec3::zero()
    &&& hits.len() == 1
    &&& hits[0].normal1 == Vec3::up()
    &&& body.controller.traction_normal_cutoff.raw < ONE_RAW
}

/// On level ground with no key down, a movement step leaves the velocity
/// that ground friction leaves, without its vertical part: friction acts on
/// the tick on which a contact with traction appears, and nothing else
/// changes the horizontal velocity.
pub proof fn lemma_move_friction_scene(
    dt: Fixed,
    input: FpsControllerInput,
    look: LookTrig,
    body: LogicalBody,
    hits: Seq<ShapeHitData>,
)
    requires
        spec_friction_scene(input, body, hits),
    ensures
        spec_fps_controller_move(dt, input, look, body, hits).velocity == (Vec3 {
            x: spec_ground_friction(dt, body.controller, body.velocity).x,
            y: Fixed::zero(),
            z: spec_ground_friction(dt, body.controller, body.velocity).z,
        }),
        spec_fps_controller_move(dt, input, look, body, hits).controller.ground_tick == 2,
        spec_fps_controller_move(dt, input, look, body, hits).controller.grounded,
{
    let controller = spec_primed(
        FpsController {
            move_mode: spec_next_mode(body.controller.move_mode, input.fly),
            ..body.controller
        },
        hits,
    );
    assert(spec_has_traction(body.controller, hits[0]));
    assert(spec_any_traction(
        FpsController {
            move_mode: spec_next_mode(body.controller.move_mode, input.fly),
            ..body.controller
        },
        hits,
    ));
    assert(controller.ground_tick == 1);
    let primed = LogicalBody {
        controller,
        collider: body.collider,
        translation: body.translation,
        velocity: body.velocity,
    };
    let wish = spec_calculate_wish_movement(input, look.yaw, controller);
    lemma_idle_wish(input, look.yaw, controller);
    assert(hits.drop_last().len() == 0);
    assert(spec_handle_shape_hits(dt, input, primed, hits.drop_last(), wish.0, wish.1) == primed);
    assert(hits.last() == hits[0]);
    let slowed = spec_ground_friction(dt, controller, body.velocity);
    assert(slowed == spec_ground_friction(dt, body.controller, body.velocity));
    lemma_acceleration_idle(wish.1, controller.acceleration, slowed, dt);
    assert(slowed.add(Vec3::zero()) == slowed);
    lemma_slide_on_level_ground(slowed);
    let contacted = spec_handle_shape_hit(dt, input, primed, hits[0], wish.0, wish.1);
    assert(contacted.velocity == (Vec3 { x: slowed.x, y: Fixed::zero(), z: slowed.z }));
    assert(contacted.controller.ground_tick == 2);
}

/// The wish direction is horizontal.
pub proof fn lemma_wish_horizontal(input: FpsControllerInput, yaw: SinCos, controller: FpsController)
    ensures
        spec_calculate_wish_movement(input, yaw, controller).0.y == Fixed::zero(),
{
    let scaled = input.movement.mul_components(
        Vec3 { x: controller.side_speed, y: Fixed::zero(), z: controller.forward_speed },
    );
    lemma_zero_absorbs(input.movement.y);
    lemma_zero_absorbs(scaled.x);
    lemma_zero_absorbs(scaled.z);
    lemma_zero_absorbs(Fixed::one());
    lemma_zero_absorbs(spec_wish_vector(input, yaw, controller).length());
}

/// Whether the step is one of a body that stands on level ground: a step in
/// ground mode of a grounded body at rest, without jump, on one contact
/// whose normal points straight up and gives traction.
pub open spec fn spec_standing_scene(
    input: FpsControllerInput,
    body: LogicalBody,
    hits: Seq<ShapeHitData>,
) -> bool {
    &&& spec_walks(input, body)
    &&& body.controller.grounded
    &&& !input.jump
    &&& body.velocity == Vec3::zero()
    &&& hits.len() == 1
    &&& hits[0].normal1 == Vec3::up()
    &&& body.controller.traction_normal_cutoff.raw < ONE_RAW
}

/// A body that stands on level ground starts toward the input: where the
/// wish speed is above zero, the velocity after the movement step is the
/// wish direction scaled by the smaller of `acceleration * wish_speed * dt`
/// and the wish speed.
pub proof fn lemma_move_start_from_rest(
    dt: Fixed,
    input: FpsControllerInput,
    look: LookTrig,
    body: LogicalBody,
    hits: Seq<ShapeHitData>,
)
    requires
        spec_standing_scene(input, body, hits),
        spec_calculate_wish_movement(input, look.yaw, body.controller).1.raw > 0,
    ensures
        spec_fps_controller_move(dt, input, look, body, hits).velocity == spec_start_velocity(
            dt,
            body.controller,
            spec_calculate_wish_movement(input, look.yaw, body.controller).0,
            spec_calculate_wish_movement(input, look.yaw, body.controller).1,
        ),
{
    let controller = spec_primed(
        FpsController {
            move_mode: spec_next_mode(body.controller.move_mode, input.fly),
            ..body.controller
        },
        hits,
    );
    assert(spec_has_traction(body.controller, hits[0]));
    assert(spec_any_traction(
        FpsController {
            move_mode: spec_next_mode(body.controller.move_mode, input.fly),
            ..body.controller
        },
        hits,
    ));
    let primed = LogicalBody {
        controller,
        collider: body.collider,
        translation: body.translation,
        velocity: body.velocity,
    };
    let wish = spec_calculate_wish_movement(input, look.yaw, controller);
    assert(wish == spec_calculate_wish_movement(input, look.yaw, body.controller));
    lemma_wish_horizontal(input, look.yaw, controller);
    assert(hits.drop_last().len() == 0);
    assert(spec_handle_shape_hits(dt, input, primed, hits.drop_last(), wish.0, wish.1) == primed);
    assert(hits.last() == hits[0]);
    lemma_contact_scenes(dt, input, primed, hits[0], wish.0, wish.1);
    let start = spec_start_velocity(dt, controller, wish.0, wish.1);
    lemma_zero_absorbs(controller.acceleration.mul(wish.1).mul(dt).min(wish.1));
    assert(start.y == Fixed::zero());
    assert(start == spec_start_velocity(dt, body.controller, wish.0, wish.1));
}

/// One movement step of a body: the mode switch, the priming of the ground
/// tick, and the step of the mode. `look` holds the sines and cosines of the
/// look angles of `input`, and `shape_hits` the contacts of this tick's
/// ground sweep.
pub fn fps_controller_move(
    dt: Fixed,
    input: &FpsControllerInput,
    look: LookTrig,
    body: &mut LogicalBody,
    shape_hits: &Vec<ShapeHitData>,
)
    ensures
        *final(body) == spec_fps_controller_move(dt, *input, look, *old(body), shape_hits@),
        spec_move_frame(*old(body), *final(body)),
        !old(body).controller.enable_input ==> *final(body) == *old(body),
        old(body).controller.enable_input ==> final(body).controller.move_mode == spec_next_mode(
            old(body).controller.move_mode,
            input.fly,
        ),
        old(body).controller.enable_input && final(body).controller.move_mode == MoveMode::Noclip
            && input.movement == Vec3::zero() ==> final(body).velocity == Vec3::zero(),
        old(body).controller.crouch_height.raw <= old(body).controller.upright_height.raw && (
        old(body).controller.height_in_range() || spec_walks(*input, *old(body)))
            ==> final(body).controller.height_in_range(),
        spec_walks(*input, *old(body)) && shape_hits@.len() == 0 && !old(body).controller.grounded
            ==> final(body).controller.ground_tick == 0,
        spec_jump_scene(*input, *old(body), shape_hits@) ==> spec_jump_result(
            *old(body),
            *final(body),
        ),
{
    proof {
        lemma_move_invariants(dt, *input, look, *body, shape_hits@);
    }
    if !body.controller.enable_input {
        return ;
    }
    if input.fly {
        body.controller.move_mode = body.controller.move_mode.toggled();
    }
    prime_ground_tick(&mut body.controller, shape_hits);

    match body.controller.move_mode {
        MoveMode::Noclip => handle_noclip_mode(input, look, &body.controller, &mut body.velocity),
        MoveMode::Ground => {
            let grounded: bool = body.controller.grounded;
            handle_ground_mode(dt, input, look.yaw, body, shape_hits, grounded)
        },
    }
}

/// Two presses of the fly key bring the mode back to what it was, whatever
/// else the two steps are given.
pub proof fn lemma_fly_twice_restores_mode(
    body: LogicalBody,
    dt1: Fixed,
    input1: FpsControllerInput,
    look1: LookTrig,
    hits1: Seq<ShapeHitData>,
    dt2: Fixed,
    input2: FpsControllerInput,
    look2: LookTrig,
    hits2: Seq<ShapeHitData>,
)
    requires
        body.controller.enable_input,
        input1.fly,
        input2.fly,
    ensures
        spec_fps_controller_move(
            dt2,
            input2,
            look2,
            spec_fps_controller_move(dt1, input1, look1, body, hits1),
            hits2,
        ).controller.move_mode == body.controller.move_mode,
        spec_fps_controller_move(dt1, input1, look1, body, hits1).controller.move_mode
            != body.controller.move_mode,
{
    lemma_move_invariants(dt1, input1, look1, body, hits1);
    lemma_move_invariants(
        dt2,
        input2,
        look2,
        spec_fps_controller_move(dt1, input1, look1, body, hits1),
        hits2,
    );
}

/// The cosine of the angle between `v` and the vertical: the vertical
/// component over the length.
pub open spec fn spec_vertical_cosine(v: Vec3) -> Fixed {
    v.y.div(v.length())
}

/// Whether a contact counts as ground: the negated normal of the swept
/// shape, turned by the body's rotation, has a length and stands within 0.3
/// radians of the vertical.
#[verifier::opaque]
pub open spec fn spec_ground_contact(rotation: Quat, hit: ShapeHitData) -> bool {
    let up = rotation.rotate(hit.normal2.neg());
    up.length().raw > 0 && spec_vertical_cosine(up).raw >= GROUND_ANGLE_COS_RAW
}

/// Whether a contact counts as ground.
#[verifier::when_used_as_spec(spec_ground_contact)]
pub fn ground_contact(rotation: Quat, hit: ShapeHitData) -> (r: bool)
    ensures
        r == spec_ground_contact(rotation, hit),
{
    proof {
        reveal(spec_ground_contact);
    }
    let up: Vec3 = rotation.rotate(hit.normal2.neg());
    let length: Fixed = up.length();
    length.raw > 0 && up.y.div(length).raw >= GROUND_ANGLE_COS_RAW
}

/// Whether the sweep found ground: some contact counts as ground.
pub open spec fn spec_is_grounded(rotation: Quat, hits: Seq<ShapeHitData>) -> bool {
    exists|i: int| 0 <= i < hits.len() && spec_ground_contact(rotation, #[trigger] hits[i])
}

/// The controller after the grounding classifier: with `enable_input` off as
/// it was; else with the ground tick primed and `grounded` set to whether the
/// sweep found ground.
pub open spec fn spec_fps_controller_grounded(
    controller: FpsController,
    hits: Seq<ShapeHitData>,
    rotation: Quat,
) -> FpsController {
    if !controller.enable_input {
        controller
    } else {
        FpsController { grounded: spec_is_grounded(rotation, hits), ..spec_primed(controller, hits) }
    }
}

/// Classifies the body as grounded or airborne from the contacts of the
/// ground sweep and the body's rotation, records the result in `grounded`
/// and returns it. A sweep without contacts means airborne. A contact with
/// traction primes the ground tick already here.
pub fn fps_controller_grounded(
    controller: &mut FpsController,
    shape_hits: &Vec<ShapeHitData>,
    rotation: Quat,
) -> (is_grounded: bool)
    ensures
        *final(controller) == spec_fps_controller_grounded(
            *old(controller),
            shape_hits@,
            rotation,
        ),
        is_grounded == final(controller).grounded,
        old(controller).enable_input ==> is_grounded == spec_is_grounded(rotation, shape_hits@),
        old(controller).enable_input && shape_hits@.len() == 0 ==> !is_grounded,
{
    if !controller.enable_input {
        return controller.grounded;
    }
    prime_ground_tick(controller, shape_hits);
    let mut is_grounded: bool = false;
    let mut i: usize = 0;
    while i < shape_hits.len()
        invariant
            i <= shape_hits.len(),
            is_grounded == spec_is_grounded(rotation, shape_hits@.take(i as int)),
        decreases shape_hits.len() - i,
    {
        let ghost before = shape_hits@.take(i as int);
        let ghost after = shape_hits@.take(i + 1);
        proof {
            assert(after[i as int] == shape_hits@[i as int]);
            if spec_is_grounded(rotation, before) {
                let j = choose|j: int|
                    0 <= j < before.len() && spec_ground_contact(rotation, #[trigger] before[j]);
                assert(after[j] == before[j]);
            }
            if spec_is_grounded(rotation, after) && !spec_ground_contact(
                rotation,
                shape_hits@[i as int],
            ) {
                let j = choose|j: int|
                    0 <= j < after.len() && spec_ground_contact(rotation, #[trigger] after[j]);
                assert(before[j] == after[j]);
            }
        }
        if ground_contact(rotation, shape_hits[i]) {
            is_grounded = true;
        }
        i = i + 1;
    }
    proof {
        assert(shape_hits@.take(i as int) =~= shape_hits@);
    }
    controller.grounded = is_grounded;
    is_grounded
}

/// The controller after the look angles of the input are copied into it;
/// with `enable_input` off, as it was.
pub open spec fn spec_fps_controller_look(
    controller: FpsController,
    input: FpsControllerInput,
) -> FpsController {
    if !controller.enable_input {
        controller
    } else {
        FpsController { pitch: input.pitch, yaw: input.yaw, ..controller }
    }
}

/// Copies the look angles of the input into the controller. It runs after
/// the movement step of the tick, which reads the angles of the input.
pub fn fps_controller_look(controller: &mut FpsController, input: &FpsControllerInput)
    ensures
        *final(controller) == spec_fps_controller_look(*old(controller), *input),
        old(controller).enable_input && input.pitch_in_range()
            ==> final(controller).pitch_in_range(),
        !old(controller).enable_input ==> *final(controller) == *old(controller),
{
    if !controller.enable_input {
        return ;
    }
    controller.pitch = input.pitch;
    controller.yaw = input.yaw;
}

} // verus!
