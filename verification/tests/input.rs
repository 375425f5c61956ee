use fps_controller::components::{
    ActionSnapshot, CameraConfig, CursorOptions, FpsController, FpsControllerInput,
    ANGLE_EPSILON_RAW, HALF_PI_RAW, PITCH_MAX_RAW, PITCH_MIN_RAW, PI_RAW, TAU_RAW,
};
use fps_controller::fixed::Fixed;
use fps_controller::input::{apply_actions, fps_controller_input, get_axis, get_pressed, wrap_yaw};
use fps_controller::render::fps_controller_render;
use fps_controller::util::manage_cursor;
use fps_controller::vector::Vec3;

fn raw(raw: i64) -> Fixed {
    Fixed { raw }
}

fn fx(value: f64) -> Fixed {
    Fixed { raw: (value * 4294967296.0).round() as i64 }
}

fn v(x: f64, y: f64, z: f64) -> Vec3 {
    Vec3 { x: fx(x), y: fx(y), z: fx(z) }
}

fn idle() -> ActionSnapshot {
    ActionSnapshot {
        look_x: fx(0.0),
        look_y: fx(0.0),
        forward: false,
        backward: false,
        left: false,
        right: false,
        sprint: false,
        crouch: false,
        jump: false,
        fly_just_pressed: false,
    }
}

fn pointer(look_x: f64, look_y: f64) -> ActionSnapshot {
    ActionSnapshot { look_x: fx(look_x), look_y: fx(look_y), ..idle() }
}

#[test]
fn angle_constants_follow_the_circle() {
    let pi = std::f64::consts::PI * 4294967296.0;
    assert_eq!(PI_RAW, pi.floor() as i64);
    assert_eq!(HALF_PI_RAW, (pi / 2.0).floor() as i64);
    assert_eq!(TAU_RAW, (pi * 2.0).floor() as i64);
    assert_eq!(ANGLE_EPSILON_RAW, (0.001953125f64 * 4294967296.0) as i64);
    assert_eq!(PITCH_MAX_RAW, 6738130244);
    assert_eq!(PITCH_MIN_RAW, -6738130244);
}

#[test]
fn pressed_key_is_one() {
    assert_eq!(get_pressed(true), fx(1.0));
    assert_eq!(get_pressed(false), fx(0.0));
}

#[test]
fn axis_is_the_signed_combination_of_two_keys() {
    assert_eq!(get_axis(true, false), fx(1.0));
    assert_eq!(get_axis(false, true), fx(-1.0));
    assert_eq!(get_axis(true, true), fx(0.0));
    assert_eq!(get_axis(false, false), fx(0.0));
}

#[test]
fn pointer_moves_the_look_against_its_motion() {
    let c = FpsController::default();
    let mut input = FpsControllerInput::default();
    fps_controller_input(&c, &mut input, &vec![pointer(100.0, -250.0)]);
    // A thousandth of a radian per unit, rounded toward zero.
    assert_eq!(input.yaw, raw(-429496700));
    assert_eq!(input.pitch, raw(1073741750));
}

#[test]
fn pitch_is_clamped_short_of_straight_up_and_down() {
    let c = FpsController::default();
    let mut input = FpsControllerInput::default();
    fps_controller_input(&c, &mut input, &vec![pointer(0.0, -5000.0)]);
    assert_eq!(input.pitch, raw(PITCH_MAX_RAW));
    fps_controller_input(&c, &mut input, &vec![pointer(0.0, -1.0)]);
    assert_eq!(input.pitch, raw(PITCH_MAX_RAW));
    fps_controller_input(&c, &mut input, &vec![pointer(0.0, 50000.0)]);
    assert_eq!(input.pitch, raw(PITCH_MIN_RAW));
    fps_controller_input(&c, &mut input, &vec![pointer(0.0, 1000.0), pointer(0.0, -500.0)]);
    assert_eq!(input.pitch, raw(PITCH_MIN_RAW + 2147483500));
}

#[test]
fn pitch_stays_in_range_for_any_pointer_motion() {
    let c = FpsController::default();
    let mut input = FpsControllerInput::default();
    let motions: [f64; 9] =
        [1.0, -1.0, 1570.0, -1571.0, 3141.0, -6283.0, 1.0e9, -1.0e9, 0.0];
    for dy in motions {
        fps_controller_input(&c, &mut input, &vec![pointer(dy, dy)]);
        assert!(PITCH_MIN_RAW <= input.pitch.raw && input.pitch.raw <= PITCH_MAX_RAW);
        assert!(-PI_RAW <= input.yaw.raw && input.yaw.raw < TAU_RAW);
    }
    // A pitch out of range is brought back by the next report.
    input.pitch = fx(3.0);
    fps_controller_input(&c, &mut input, &vec![idle()]);
    assert_eq!(input.pitch, raw(PITCH_MAX_RAW));
    let mut saturated = FpsControllerInput::default();
    saturated.pitch = raw(i64::MIN);
    saturated.yaw = raw(i64::MAX);
    let mut wild = FpsController::default();
    wild.sensitivity = raw(i64::MAX);
    fps_controller_input(&wild, &mut saturated, &vec![pointer(1.0e9, 1.0e9)]);
    assert_eq!(saturated.pitch, raw(PITCH_MIN_RAW));
    assert!(-PI_RAW <= saturated.yaw.raw && saturated.yaw.raw < TAU_RAW);
}

#[test]
fn yaw_below_minus_half_a_turn_wraps_around() {
    assert_eq!(wrap_yaw(raw(-14000000000)), raw(12986075409));
    assert_eq!(wrap_yaw(raw(-PI_RAW - 1)), raw(TAU_RAW - PI_RAW - 1));
    assert_eq!(wrap_yaw(raw(-TAU_RAW)), raw(0));
    assert_eq!(wrap_yaw(raw(-TAU_RAW - 5)), raw(TAU_RAW - 5));
    let c = FpsController::default();
    let mut input = FpsControllerInput::default();
    input.yaw = fx(-3.0);
    fps_controller_input(&c, &mut input, &vec![pointer(500.0, 0.0)]);
    // -3.5 radians come out as -3.5 plus a full turn.
    assert_eq!(input.yaw, raw(fx(-3.0).raw - 2147483500 + TAU_RAW));
    assert!(0 < input.yaw.raw && input.yaw.raw <= PI_RAW);
}

#[test]
fn yaw_within_half_a_turn_stays() {
    assert_eq!(wrap_yaw(raw(0)), raw(0));
    assert_eq!(wrap_yaw(fx(3.0)), fx(3.0));
    assert_eq!(wrap_yaw(fx(-3.0)), fx(-3.0));
    assert_eq!(wrap_yaw(raw(PI_RAW)), raw(PI_RAW));
    assert_eq!(wrap_yaw(raw(-PI_RAW)), raw(-PI_RAW));
}

#[test]
fn yaw_above_half_a_turn_is_reduced_modulo_a_full_turn() {
    // The remainder is never negative, so a yaw between half a turn and a
    // full turn stays where it is.
    assert_eq!(wrap_yaw(raw(PI_RAW + 1)), raw(PI_RAW + 1));
    assert_eq!(wrap_yaw(fx(3.5)), fx(3.5));
    assert_eq!(wrap_yaw(raw(TAU_RAW)), raw(0));
    assert_eq!(wrap_yaw(raw(27000000000)), raw(13924591));
    assert_eq!(wrap_yaw(raw(i64::MAX)), raw(i64::MAX % TAU_RAW));
    assert_eq!(wrap_yaw(raw(i64::MIN)), raw(i64::MIN.rem_euclid(TAU_RAW)));
}

#[test]
fn keys_give_the_movement_axes_and_the_flags() {
    let c = FpsController::default();
    let mut input = FpsControllerInput::default();
    let keys = ActionSnapshot { forward: true, right: true, jump: true, ..idle() };
    fps_controller_input(&c, &mut input, &vec![keys]);
    assert_eq!(input.movement, v(1.0, 1.0, 1.0));
    assert!(input.jump && !input.sprint && !input.crouch && !input.fly);
    let keys = ActionSnapshot {
        backward: true,
        left: true,
        sprint: true,
        crouch: true,
        fly_just_pressed: true,
        ..idle()
    };
    fps_controller_input(&c, &mut input, &vec![keys]);
    assert_eq!(input.movement, v(-1.0, -1.0, -1.0));
    assert!(!input.jump && input.sprint && input.crouch && input.fly);
    let keys = ActionSnapshot {
        forward: true,
        backward: true,
        left: true,
        right: true,
        jump: true,
        sprint: true,
        ..idle()
    };
    fps_controller_input(&c, &mut input, &vec![keys]);
    assert_eq!(input.movement, Vec3::zero());
    assert!(!input.fly);
}

#[test]
fn reports_apply_in_order() {
    let c = FpsController::default();
    let mut input = FpsControllerInput::default();
    let first = ActionSnapshot { forward: true, fly_just_pressed: true, ..pointer(100.0, 0.0) };
    let second = ActionSnapshot { left: true, ..pointer(100.0, 0.0) };
    fps_controller_input(&c, &mut input, &vec![first, second]);
    assert_eq!(input.movement, v(-1.0, 0.0, 0.0));
    assert!(!input.fly);
    assert_eq!(input.yaw, raw(-2 * 429496700));
    let mut single = FpsControllerInput::default();
    apply_actions(&c, &mut single, &first);
    apply_actions(&c, &mut single, &second);
    assert_eq!(single, input);
}

#[test]
fn input_without_a_report_or_while_disabled_stays() {
    let mut c = FpsController::default();
    let mut input = FpsControllerInput::default();
    input.pitch = fx(0.5);
    input.jump = true;
    let before = input;
    fps_controller_input(&c, &mut input, &vec![]);
    assert_eq!(input, before);
    c.enable_input = false;
    let keys = ActionSnapshot { forward: true, fly_just_pressed: true, ..pointer(100.0, 50.0) };
    fps_controller_input(&c, &mut input, &vec![keys]);
    assert_eq!(input, before);
}

#[test]
fn camera_sits_at_half_the_height_plus_the_offset() {
    let mut c = FpsController::default();
    c.yaw = fx(1.25);
    c.pitch = fx(-0.5);
    let config = CameraConfig { height_offset: fx(0.25), radius_scale: fx(0.75) };
    let pose = fps_controller_render(v(1.0, 5.0, -2.0), &c, &config);
    assert_eq!(pose.translation, v(1.0, 6.75, -2.0));
    assert_eq!(pose.yaw, fx(1.25));
    assert_eq!(pose.pitch, fx(-0.5));
    c.height = fx(1.5);
    let config = CameraConfig { height_offset: fx(0.0), radius_scale: fx(0.75) };
    let pose = fps_controller_render(v(0.0, 0.0, 0.0), &c, &config);
    assert_eq!(pose.translation, v(0.0, 0.75, 0.0));
}

#[test]
fn click_captures_the_pointer_and_escape_releases_it() {
    let mut off = FpsController::default();
    off.enable_input = false;
    let on = FpsController::default();
    let mut controllers = vec![off, on];
    let mut cursor = CursorOptions { locked: false, visible: true };
    manage_cursor(false, false, &mut cursor, &mut controllers);
    assert_eq!(cursor, CursorOptions { locked: false, visible: true });
    assert_eq!(controllers, vec![off, on]);
    manage_cursor(true, false, &mut cursor, &mut controllers);
    assert_eq!(cursor, CursorOptions { locked: true, visible: false });
    assert_eq!(controllers, vec![on, on]);
    manage_cursor(false, false, &mut cursor, &mut controllers);
    assert_eq!(cursor, CursorOptions { locked: true, visible: false });
    assert_eq!(controllers, vec![on, on]);
    manage_cursor(false, true, &mut cursor, &mut controllers);
    assert_eq!(cursor, CursorOptions { locked: false, visible: true });
    assert_eq!(controllers, vec![off, off]);
}

#[test]
fn escape_wins_over_a_click_on_the_same_tick() {
    let mut off = FpsController::default();
    off.enable_input = false;
    let mut walking = FpsController::default();
    walking.ground_tick = 9;
    walking.height = fx(2.0);
    let mut controllers = vec![walking];
    let mut cursor = CursorOptions { locked: true, visible: false };
    manage_cursor(true, true, &mut cursor, &mut controllers);
    assert_eq!(cursor, CursorOptions { locked: false, visible: true });
    let mut expected = walking;
    expected.enable_input = false;
    assert_eq!(controllers, vec![expected]);
    let mut nobody: Vec<FpsController> = vec![];
    manage_cursor(true, false, &mut cursor, &mut nobody);
    assert_eq!(cursor, CursorOptions { locked: true, visible: false });
    assert!(nobody.is_empty());
}
