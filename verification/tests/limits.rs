use fps_controller::components::{
    Collider, FpsController, FpsControllerInput, LogicalBody, LookTrig, ShapeHitData, SinCos,
};
use fps_controller::fixed::Fixed;
use fps_controller::movement::{
    calculate_wish_movement, fps_controller_move, handle_air_movement, handle_ground_friction,
};
use fps_controller::util::acceleration;
use fps_controller::vector::Vec3;

const ONE: i64 = 1 << 32;

fn raw(raw: i64) -> Fixed {
    Fixed { raw }
}

fn fx(value: f64) -> Fixed {
    Fixed { raw: (value * 4294967296.0).round() as i64 }
}

/// A small deterministic generator, so that the samples are the same on
/// every run.
struct Samples(u64);

impl Samples {
    fn next(&mut self) -> u64 {
        self.0 = self.0.wrapping_mul(6364136223846793005).wrapping_add(1442695040888963407);
        self.0 >> 11
    }

    /// A raw value of magnitude below `2^bits`.
    fn signed(&mut self, bits: u32) -> i64 {
        let magnitude = (self.next() % (1u64 << bits)) as i64;
        if self.next() % 2 == 0 {
            magnitude
        } else {
            -magnitude
        }
    }

    fn unsigned(&mut self, bits: u32) -> i64 {
        (self.next() % (1u64 << bits)) as i64
    }

    fn vector(&mut self, bits: u32) -> Vec3 {
        Vec3 { x: raw(self.signed(bits)), y: raw(self.signed(bits)), z: raw(self.signed(bits)) }
    }
}

#[test]
fn friction_never_speeds_up_or_turns_round() {
    let mut samples = Samples(7);
    for round in 0..2000 {
        let mut c = FpsController::default();
        c.friction = raw(samples.unsigned(38));
        c.stop_speed = raw(samples.signed(36));
        c.friction_speed_cutoff = raw(samples.signed(33));
        let dt = raw(samples.unsigned(31));
        let bits = 20 + (round % 30) as u32;
        let before = samples.vector(bits);
        let mut after = before;
        handle_ground_friction(dt, &c, &mut after);
        assert!(after.lateral_length().raw <= before.lateral_length().raw);
        assert!(after.lateral_length().raw >= 0);
        assert_eq!(after.y, before.y);
        assert!(after.x.raw.abs() <= before.x.raw.abs());
        assert!(after.z.raw.abs() <= before.z.raw.abs());
        assert!(after.x.raw == 0 || (after.x.raw > 0) == (before.x.raw > 0));
        assert!(after.z.raw == 0 || (after.z.raw > 0) == (before.z.raw > 0));
    }
}

#[test]
fn air_movement_keeps_the_horizontal_speed_under_the_cap() {
    let mut samples = Samples(11);
    for round in 0..2000 {
        let mut c = FpsController::default();
        c.max_air_speed = raw(samples.unsigned(37));
        c.air_speed_cap = raw(samples.unsigned(35));
        c.air_acceleration = raw(samples.unsigned(38));
        c.gravity = raw(samples.signed(38));
        let dt = raw(samples.unsigned(31));
        let bits = 20 + (round % 30) as u32;
        let mut velocity = samples.vector(bits);
        let vertical = velocity.y;
        let direction = samples.vector(32).normalize_or_zero();
        let wish_speed = raw(samples.unsigned(37));
        handle_air_movement(dt, &mut c, &mut velocity, direction, wish_speed);
        assert!(velocity.lateral_length().raw <= c.max_air_speed.raw);
        assert_eq!(velocity.y, vertical.add(c.gravity.neg().mul(dt)));
        assert_eq!(c.ground_tick, 0);
    }
}

#[test]
fn acceleration_stays_within_its_limit() {
    let mut samples = Samples(13);
    let mut checked = 0;
    for _ in 0..4000 {
        let direction = samples.vector(32);
        let x = direction.x.raw as i128;
        let y = direction.y.raw as i128;
        let z = direction.z.raw as i128;
        if x * x + y * y + z * z > (ONE as i128) * (ONE as i128) {
            continue;
        }
        let wish_speed = raw(samples.unsigned(37));
        let rate = raw(samples.unsigned(37));
        let dt = raw(samples.unsigned(31));
        let velocity = samples.vector(36);
        let limit = rate.mul(wish_speed).mul(dt).min(wish_speed.sub(velocity.dot(direction)));
        let add = acceleration(direction, wish_speed, rate, velocity, dt);
        if velocity.dot(direction).raw >= wish_speed.raw {
            assert_eq!(add, Vec3::zero());
        }
        if limit.raw >= 0 {
            assert!(add.length().raw <= limit.raw);
            checked += 1;
        }
    }
    assert!(checked > 500);
}

#[test]
fn acceleration_limit_fails_for_a_negative_rate() {
    // With a negative rate the limit is negative, and no length is.
    let direction = Vec3 { x: fx(1.0), y: fx(0.0), z: fx(0.0) };
    let add = acceleration(direction, fx(1.0), fx(-1.0), Vec3::zero(), fx(1.0));
    assert_eq!(add, Vec3 { x: fx(-1.0), y: fx(0.0), z: fx(0.0) });
    assert_eq!(add.length(), fx(1.0));
}

#[test]
fn unused_contact_fields_do_not_matter_to_friction() {
    // Friction reads the controller and the velocity only.
    let c = FpsController::default();
    let hit = ShapeHitData {
        distance: fx(2.0),
        point1: Vec3::zero(),
        normal1: Vec3::up(),
        normal2: Vec3::up().neg(),
    };
    let mut velocity = Vec3 { x: fx(2.0), y: hit.distance, z: fx(0.0) };
    handle_ground_friction(raw(71582788), &c, &mut velocity);
    assert_eq!(velocity.y, fx(2.0));
    assert!(velocity.x.raw < fx(2.0).raw);
}

fn squared(v: Vec3) -> i128 {
    let (x, y, z) = (v.x.raw as i128, v.y.raw as i128, v.z.raw as i128);
    x * x + y * y + z * z
}

fn unit_bound(length: Fixed) -> i128 {
    if length.raw == i64::MAX {
        2 * ONE as i128
    } else {
        (ONE + ONE / length.raw + 1) as i128
    }
}

#[test]
fn normalized_vector_can_be_a_little_longer_than_one() {
    let diagonal = Vec3 { x: fx(1.0), y: fx(0.0), z: fx(1.0) }.normalize_or_zero();
    assert_eq!(diagonal, Vec3 { x: raw(3037000500), y: raw(0), z: raw(3037000500) });
    assert_eq!(squared(diagonal) - (ONE as i128) * (ONE as i128), 290948384);
    assert!(squared(diagonal) <= ((ONE + 2) as i128) * ((ONE + 2) as i128));
}

#[test]
fn normalized_vector_stays_within_its_bound() {
    let mut samples = Samples(19);
    for round in 0..4000 {
        let bits = 1 + (round % 62) as u32;
        let v = samples.vector(bits);
        let length = v.length();
        if length.raw == 0 {
            continue;
        }
        let bound = unit_bound(length);
        assert!(squared(v.normalize_or_zero()) <= bound * bound, "{:?}", v);
        if length.raw >= ONE && length.raw < i64::MAX {
            assert!(bound <= (ONE + 2) as i128);
        }
    }
    let largest = Vec3 { x: raw(i64::MIN), y: raw(i64::MAX), z: raw(i64::MIN) };
    assert_eq!(largest.length(), raw(i64::MAX));
    assert!(squared(largest.normalize_or_zero()) <= 4 * (ONE as i128) * (ONE as i128));
}

#[test]
fn acceleration_stays_within_its_limit_times_the_direction_bound() {
    let mut samples = Samples(23);
    let mut checked = 0;
    for round in 0..4000 {
        let bits = 10 + (round % 40) as u32;
        let wish = samples.vector(bits);
        let length = wish.length();
        if length.raw <= 512 {
            continue;
        }
        let direction = wish.unscale(length);
        let bound = unit_bound(length);
        let wish_speed = raw(samples.unsigned(37));
        let rate = raw(samples.unsigned(37));
        let dt = raw(samples.unsigned(31));
        let velocity = samples.vector(36);
        let limit = rate.mul(wish_speed).mul(dt).min(wish_speed.sub(velocity.dot(direction)));
        let add = acceleration(direction, wish_speed, rate, velocity, dt);
        if limit.raw >= 0 {
            assert!((add.length().raw as i128) * (ONE as i128) <= (limit.raw as i128) * bound);
            checked += 1;
        }
    }
    assert!(checked > 500);
}

fn level() -> ShapeHitData {
    ShapeHitData {
        distance: fx(0.0),
        point1: Vec3::zero(),
        normal1: Vec3::up(),
        normal2: Vec3::up().neg(),
    }
}

fn standing(controller: FpsController, velocity: Vec3) -> LogicalBody {
    LogicalBody {
        controller,
        collider: Collider::Capsule { radius: fx(0.5), height: controller.height },
        translation: Vec3::zero(),
        velocity,
    }
}

#[test]
fn sliding_body_slows_down_within_the_step_and_keeps_its_direction() {
    let mut samples = Samples(29);
    let mut checked = 0;
    for round in 0..3000 {
        let mut c = FpsController::default();
        c.grounded = true;
        c.ground_tick = (round % 3) as u8;
        c.friction = raw(samples.unsigned(36));
        c.stop_speed = raw(samples.unsigned(34));
        c.friction_speed_cutoff = raw(samples.unsigned(30));
        let dt = raw(samples.unsigned(28));
        let before = samples.vector(24 + (round % 14) as u32);
        let speed = before.lateral_length();
        let drop = speed.max(c.stop_speed).mul(c.friction).mul(dt);
        if speed.raw <= c.friction_speed_cutoff.raw || drop.raw <= 0 {
            continue;
        }
        let mut b = standing(c, before);
        let idle = FpsControllerInput::default();
        let look = LookTrig {
            yaw: SinCos { sin: fx(0.6), cos: fx(-0.8) },
            pitch: SinCos { sin: fx(0.0), cos: fx(1.0) },
        };
        fps_controller_move(dt, &idle, look, &mut b, &vec![level()]);
        let after = b.velocity;
        assert!(after.lateral_length().raw < speed.raw);
        assert!(after.lateral_length().raw >= 0);
        assert_eq!(after.y, fx(0.0));
        assert!(after.x.raw.abs() <= before.x.raw.abs());
        assert!(after.z.raw.abs() <= before.z.raw.abs());
        assert!(after.x.raw == 0 || (after.x.raw > 0) == (before.x.raw > 0));
        assert!(after.z.raw == 0 || (after.z.raw > 0) == (before.z.raw > 0));
        assert_eq!(b.controller.ground_tick, 2);
        checked += 1;
    }
    assert!(checked > 1000);
}

#[test]
fn friction_below_one_raw_unit_leaves_the_speed() {
    // The smallest friction above zero takes less than one raw unit in a
    // sixtieth of a second: the speed stays.
    let mut c = FpsController::default();
    c.grounded = true;
    c.friction = raw(1);
    let dt = raw(71582788);
    let speed = fx(5.0);
    assert_eq!(speed.max(c.stop_speed).mul(c.friction).mul(dt), raw(0));
    let mut b = standing(c, Vec3 { x: fx(5.0), y: fx(0.0), z: fx(0.0) });
    fps_controller_move(
        dt,
        &FpsControllerInput::default(),
        LookTrig {
            yaw: SinCos { sin: fx(0.0), cos: fx(1.0) },
            pitch: SinCos { sin: fx(0.0), cos: fx(1.0) },
        },
        &mut b,
        &vec![level()],
    );
    assert_eq!(b.velocity, Vec3 { x: fx(5.0), y: fx(0.0), z: fx(0.0) });
}

#[test]
fn body_in_the_air_starts_along_the_forward_axis_within_the_cap() {
    let mut samples = Samples(31);
    let mut moving = 0;
    for round in 0..3000 {
        let mut c = FpsController::default();
        c.forward_speed = raw(samples.unsigned(38));
        c.walk_speed = raw(samples.signed(37));
        c.air_speed_cap = raw(samples.unsigned(36));
        c.air_acceleration = raw(samples.unsigned(39));
        c.max_air_speed = raw(samples.unsigned(37));
        c.gravity = raw(samples.signed(38));
        let dt = if round % 2 == 0 { raw(71582788) } else { raw(samples.unsigned(30)) };
        let angle = (samples.unsigned(20) as f64) / 100000.0 - 5.0;
        let yaw = SinCos { sin: fx(angle.sin()), cos: fx(angle.cos()) };
        let look = LookTrig { yaw, pitch: SinCos { sin: fx(0.0), cos: fx(1.0) } };
        let mut input = FpsControllerInput::default();
        input.movement = Vec3 { x: fx(0.0), y: fx(0.0), z: fx(1.0) };
        let (direction, _) = calculate_wish_movement(&input, yaw, &c);
        let mut b = standing(c, Vec3::zero());
        fps_controller_move(dt, &input, look, &mut b, &vec![]);
        let after = b.velocity;
        assert!(yaw.sin.raw < 0 || after.x.raw <= 0);
        assert!(yaw.sin.raw > 0 || after.x.raw >= 0);
        assert!(yaw.cos.raw < 0 || after.z.raw <= 0);
        assert!(yaw.cos.raw > 0 || after.z.raw >= 0);
        assert!(
            (after.lateral_length().raw as i128) * (ONE as i128)
                <= (c.air_speed_cap.raw as i128) * ((ONE + 0x80_0000) as i128)
        );
        assert!(after.lateral_length().raw <= c.air_speed_cap.raw + 2);
        assert_eq!(after.y, c.gravity.neg().mul(dt));
        assert_eq!(b.controller.ground_tick, 0);
        // The velocity lies along the wish direction: the cross product of
        // the two on the ground is zero up to rounding.
        let cross = (after.x.raw as i128) * (direction.z.raw as i128)
            - (after.z.raw as i128) * (direction.x.raw as i128);
        assert!(cross.abs() <= 8 * (ONE as i128), "{}", cross);
        if after.lateral_length().raw > 0 {
            moving += 1;
        }
    }
    assert!(moving > 1000);
}
