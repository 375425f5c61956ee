use fps_controller::components::{
    CameraConfig, Collider, FpsController, FpsControllerInput, LogicalBody, LookTrig, MoveMode,
    ShapeHitData, SinCos,
};
use fps_controller::fixed::Fixed;
use fps_controller::movement::{fps_controller_grounded, fps_controller_look, fps_controller_move};
use fps_controller::plugin::FpsControllerPlugin;
use fps_controller::render::fps_controller_render;
use fps_controller::vector::{Quat, Vec3};

const DT_60: Fixed = Fixed { raw: 71582788 };

fn raw(raw: i64) -> Fixed {
    Fixed { raw }
}

fn fx(value: f64) -> Fixed {
    Fixed { raw: (value * 4294967296.0).round() as i64 }
}

fn v(x: f64, y: f64, z: f64) -> Vec3 {
    Vec3 { x: fx(x), y: fx(y), z: fx(z) }
}

fn trig(yaw: f64, pitch: f64) -> LookTrig {
    LookTrig {
        yaw: SinCos { sin: fx(yaw.sin()), cos: fx(yaw.cos()) },
        pitch: SinCos { sin: fx(pitch.sin()), cos: fx(pitch.cos()) },
    }
}

fn body() -> LogicalBody {
    LogicalBody {
        controller: FpsController::default(),
        collider: Collider::Capsule { radius: fx(0.5), height: fx(3.0) },
        translation: v(0.0, 5.0, 0.0),
        velocity: Vec3::zero(),
    }
}

fn floor() -> ShapeHitData {
    ShapeHitData {
        distance: fx(0.0),
        point1: Vec3::zero(),
        normal1: v(0.0, 1.0, 0.0),
        normal2: v(0.0, -1.0, 0.0),
    }
}

fn camera() -> CameraConfig {
    CameraConfig { height_offset: fx(0.25), radius_scale: fx(0.75) }
}

#[test]
fn tick_runs_the_steps_in_order() {
    let mut input = FpsControllerInput::default();
    input.movement = v(0.0, 0.0, 1.0);
    input.yaw = fx(0.5);
    input.pitch = fx(-0.25);
    input.jump = true;
    let look = trig(0.5, -0.25);
    let hits = vec![floor()];

    let mut stepwise = body();
    stepwise.velocity = v(2.0, 0.0, 1.0);
    let mut whole = stepwise;

    fps_controller_grounded(&mut stepwise.controller, &hits, Quat::identity());
    fps_controller_move(DT_60, &input, look, &mut stepwise, &hits);
    fps_controller_look(&mut stepwise.controller, &input);
    let expected_pose =
        fps_controller_render(stepwise.translation, &stepwise.controller, &camera());

    let pose = FpsControllerPlugin.update(
        DT_60,
        &input,
        look,
        &mut whole,
        &hits,
        Quat::identity(),
        &camera(),
    );
    assert_eq!(whole, stepwise);
    assert_eq!(pose, expected_pose);
    // Landed and jumped on the same tick.
    assert_eq!(whole.velocity.y, whole.controller.jump_speed);
    assert!(!whole.controller.grounded);
    assert_eq!(whole.controller.ground_tick, 1);
    assert_eq!(whole.controller.yaw, fx(0.5));
    assert_eq!(whole.controller.pitch, fx(-0.25));
    assert_eq!(pose.yaw, fx(0.5));
    assert_eq!(pose.pitch, fx(-0.25));
    assert_eq!(pose.translation.y, whole.translation.y.add(fx(1.75)));
}

#[test]
fn tick_moves_on_the_angles_of_the_input_not_of_the_controller() {
    let mut b = body();
    b.controller.move_mode = MoveMode::Noclip;
    b.controller.yaw = fx(2.0);
    let mut input = FpsControllerInput::default();
    input.movement = v(0.0, 0.0, 1.0);
    let quarter = LookTrig {
        yaw: SinCos { sin: fx(1.0), cos: fx(0.0) },
        pitch: SinCos { sin: fx(0.0), cos: fx(1.0) },
    };
    input.yaw = raw(6746518852);
    FpsControllerPlugin.update(
        DT_60,
        &input,
        quarter,
        &mut b,
        &vec![],
        Quat::identity(),
        &camera(),
    );
    assert_eq!(b.velocity, v(-10.0, 0.0, 0.0));
    assert_eq!(b.controller.yaw, raw(6746518852));
}

#[test]
fn tick_of_a_disabled_body_changes_nothing() {
    let mut b = body();
    b.controller.enable_input = false;
    b.controller.grounded = true;
    b.velocity = v(1.0, 2.0, 3.0);
    let before = b;
    let mut input = FpsControllerInput::default();
    input.fly = true;
    input.yaw = fx(1.0);
    let pose = FpsControllerPlugin.update(
        DT_60,
        &input,
        trig(1.0, 0.0),
        &mut b,
        &vec![floor()],
        Quat::identity(),
        &camera(),
    );
    assert_eq!(b, before);
    assert_eq!(pose.translation, v(0.0, 6.75, 0.0));
    assert_eq!(pose.yaw, fx(0.0));
}

#[test]
fn falling_body_lands_and_comes_to_rest() {
    let mut b = body();
    b.translation = v(0.0, 1.0, 0.0);
    b.velocity = v(3.0, 0.0, 0.0);
    let input = FpsControllerInput::default();
    let look = trig(0.0, 0.0);
    for _ in 0..30 {
        FpsControllerPlugin.update(
            DT_60,
            &input,
            look,
            &mut b,
            &vec![],
            Quat::identity(),
            &camera(),
        );
        assert_eq!(b.controller.ground_tick, 0);
    }
    assert!(b.velocity.y.raw < fx(-11.0).raw);
    assert_eq!(b.velocity.x, fx(3.0));
    let mut speed = b.velocity.lateral_length();
    for _ in 0..120 {
        FpsControllerPlugin.update(
            DT_60,
            &input,
            look,
            &mut b,
            &vec![floor()],
            Quat::identity(),
            &camera(),
        );
        assert!(b.controller.grounded);
        assert!(b.controller.ground_tick >= 1);
        assert_eq!(b.velocity.y, fx(0.0));
        let now = b.velocity.lateral_length();
        assert!(now.raw <= speed.raw);
        speed = now;
    }
    assert_eq!(b.velocity, Vec3::zero());
}
