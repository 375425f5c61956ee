//! From what the keys and the pointer report to the input of a tick.
use crate::components::{
    ActionSnapshot, FpsController, FpsControllerInput, PI_RAW, PITCH_MAX_RAW, PITCH_MIN_RAW,
    TAU_RAW,
};
use crate::fixed::Fixed;
use crate::vector::Vec3;
use vstd::prelude::*;

verus! {

/// One for a key that is down, zero for one that is up.
pub open spec fn spec_get_pressed(pressed: bool) -> Fixed {
    if pressed {
        Fixed::one()
    } else {
        Fixed::zero()
    }
}

/// One for a key that is down, zero for one that is up.
#[verifier::when_used_as_spec(spec_get_pressed)]
pub fn get_pressed(pressed: bool) -> (r: Fixed)
    ensures
        r == spec_get_pressed(pressed),
{
    if pressed {
        Fixed::one()
    } else {
        Fixed::zero()
    }
}

/// The axis of two opposing keys: one, zero or minus one.
pub open spec fn spec_get_axis(positive: bool, negative: bool) -> Fixed {
    get_pressed(positive).sub(get_pressed(negative))
}

/// The axis of two opposing keys: one, zero or minus one.
#[verifier::when_used_as_spec(spec_get_axis)]
pub fn get_axis(positive: bool, negative: bool) -> (r: Fixed)
    ensures
        r == spec_get_axis(positive, negative),
        r == Fixed::one() || r == Fixed::zero() || r == Fixed::one().neg(),
        r == Fixed::zero() <==> positive == negative,
{
    get_pressed(positive).sub(get_pressed(negative))
}

/// The yaw wrapped: an angle of magnitude above half a turn is replaced by
/// its remainder modulo a full turn, which is never negative; any other
/// stays.
pub open spec fn spec_wrap_yaw(yaw: Fixed) -> Fixed {
    if yaw.raw > PI_RAW || yaw.raw < -PI_RAW {
        Fixed { raw: (yaw.raw % TAU_RAW) as i64 }
    } else {
        yaw
    }
}

/// The yaw wrapped. The result is never below minus half a turn and always
/// below a full turn.
#[verifier::when_used_as_spec(spec_wrap_yaw)]
pub fn wrap_yaw(yaw: Fixed) -> (r: Fixed)
    ensures
        r == spec_wrap_yaw(yaw),
        -PI_RAW <= r.raw < TAU_RAW,
{
    if yaw.raw > PI_RAW || yaw.raw < -PI_RAW {
        let remainder: i64 = yaw.raw % TAU_RAW;
        if remainder < 0 {
            Fixed { raw: remainder + TAU_RAW }
        } else {
            Fixed { raw: remainder }
        }
    } else {
        yaw
    }
}

/// The wrapped yaw lies above minus half a turn and at most at half a turn
/// exactly where the yaw did so before, or was wrapped to at most half a
/// turn. That covers every yaw from minus a full turn up to half a turn but
/// minus half a turn itself; a yaw just above half a turn stays as it is.
pub proof fn lemma_wrap_yaw_range(yaw: Fixed)
    ensures
        -PI_RAW < spec_wrap_yaw(yaw).raw <= PI_RAW <==> (-PI_RAW < yaw.raw <= PI_RAW || ((yaw.raw
            > PI_RAW || yaw.raw < -PI_RAW) && yaw.raw % TAU_RAW <= PI_RAW)),
        -TAU_RAW <= yaw.raw <= PI_RAW && yaw.raw != -PI_RAW ==> -PI_RAW < spec_wrap_yaw(yaw).raw
            <= PI_RAW,
{
}

/// The input after the keys and the pointer of one report: the pitch moved
/// against the pointer's vertical motion and clamped, the yaw moved against
/// its horizontal motion and wrapped, the movement axes from the opposing
/// keys, and the flags from their keys.
pub open spec fn spec_apply_actions(
    controller: FpsController,
    input: FpsControllerInput,
    actions: ActionSnapshot,
) -> FpsControllerInput {
    FpsControllerInput {
        pitch: input.pitch.sub(actions.look_y.mul(controller.sensitivity)).clamp(
            Fixed { raw: PITCH_MIN_RAW },
            Fixed { raw: PITCH_MAX_RAW },
        ),
        yaw: wrap_yaw(input.yaw.sub(actions.look_x.mul(controller.sensitivity))),
        movement: Vec3 {
            x: get_axis(actions.right, actions.left),
            y: get_axis(actions.jump, actions.sprint),
            z: get_axis(actions.forward, actions.backward),
        },
        fly: actions.fly_just_pressed,
        sprint: actions.sprint,
        jump: actions.jump,
        crouch: actions.crouch,
    }
}

/// Applies one report of the keys and the pointer to the input.
pub fn apply_actions(
    controller: &FpsController,
    input: &mut FpsControllerInput,
    actions: &ActionSnapshot,
)
    ensures
        *final(input) == spec_apply_actions(*controller, *old(input), *actions),
        final(input).pitch_in_range(),
        -PI_RAW <= final(input).yaw.raw < TAU_RAW,
{
    let sensitivity: Fixed = controller.sensitivity;
    input.pitch = input.pitch.sub(actions.look_y.mul(sensitivity)).clamp(
        Fixed { raw: PITCH_MIN_RAW },
        Fixed { raw: PITCH_MAX_RAW },
    );
    input.yaw = wrap_yaw(input.yaw.sub(actions.look_x.mul(sensitivity)));
    input.movement = Vec3::new(
        get_axis(actions.right, actions.left),
        get_axis(actions.jump, actions.sprint),
        get_axis(actions.forward, actions.backward),
    );
    input.fly = actions.fly_just_pressed;
    input.sprint = actions.sprint;
    input.jump = actions.jump;
    input.crouch = actions.crouch;
}

/// The input after a sequence of reports, applied in order.
pub open spec fn spec_apply_all_actions(
    controller: FpsController,
    input: FpsControllerInput,
    action_states: Seq<ActionSnapshot>,
) -> FpsControllerInput
    decreases action_states.len(),
{
    if action_states.len() == 0 {
        input
    } else {
        spec_apply_actions(
            controller,
            spec_apply_all_actions(controller, input, action_states.drop_last()),
            action_states.last(),
        )
    }
}

/// The input after the input step: with `enable_input` off as it was, else
/// after the reports applied in order.
pub open spec fn spec_fps_controller_input(
    controller: FpsController,
    input: FpsControllerInput,
    action_states: Seq<ActionSnapshot>,
) -> FpsControllerInput {
    if !controller.enable_input {
        input
    } else {
        spec_apply_all_actions(controller, input, action_states)
    }
}

/// Turns what the keys and the pointer report into the input of the tick.
/// After any report the pitch keeps its margin from straight up and
/// straight down, the yaw lies from minus half a turn to below a full turn,
/// and each movement axis is one, zero or minus one.
pub fn fps_controller_input(
    controller: &FpsController,
    input: &mut FpsControllerInput,
    action_states: &Vec<ActionSnapshot>,
)
    ensures
        *final(input) == spec_fps_controller_input(*controller, *old(input), action_states@),
        !controller.enable_input || action_states@.len() == 0 ==> *final(input) == *old(input),
        old(input).pitch_in_range() || (controller.enable_input && action_states@.len() > 0)
            ==> final(input).pitch_in_range(),
        controller.enable_input && action_states@.len() > 0 ==> -PI_RAW <= final(input).yaw.raw
            < TAU_RAW,
{
    if !controller.enable_input {
        return ;
    }
    let mut i: usize = 0;
    while i < action_states.len()
        invariant
            i <= action_states.len(),
            *input == spec_apply_all_actions(
                *controller,
                *old(input),
                action_states@.take(i as int),
            ),
            i > 0 ==> input.pitch_in_range() && -PI_RAW <= input.yaw.raw < TAU_RAW,
        decreases action_states.len() - i,
    {
        proof {
            assert(action_states@.take(i + 1).drop_last() =~= action_states@.take(i as int));
        }
        apply_actions(controller, input, &action_states[i]);
        i = i + 1;
    }
    proof {
        assert(action_states@.take(i as int) =~= action_states@);
    }
}

} // verus!
