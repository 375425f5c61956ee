//! The records the controller works on: its state, the per-tick input, the
//! results of the ground sweep, and the body it drives.
use crate::fixed::Fixed;
use crate::vector::Vec3;
use vstd::prelude::*;

verus! {

/// The raw representation of the circle constant, rounded down.
pub const PI_RAW: i64 = 13493037704;

/// The raw representation of a quarter turn, rounded down.
pub const HALF_PI_RAW: i64 = 6746518852;

/// The raw representation of a full turn, rounded down.
pub const TAU_RAW: i64 = 26986075409;

/// The raw representation of the margin, 2^-9 radians, that keeps the pitch
/// away from straight up and straight down.
pub const ANGLE_EPSILON_RAW: i64 = 8388608;

/// The raw representation of the largest pitch.
pub const PITCH_MAX_RAW: i64 = HALF_PI_RAW - ANGLE_EPSILON_RAW;

/// The raw representation of the smallest pitch.
pub const PITCH_MIN_RAW: i64 = ANGLE_EPSILON_RAW - HALF_PI_RAW;

/// The raw representation of the threshold, 2^-23, below which a length or
/// a step offset counts as zero.
pub const EPSILON_RAW: i64 = 512;

/// How the body moves.
#[derive(Clone, Copy, Debug, PartialEq, Eq, Structural)]
pub enum MoveMode {
    /// Flies through everything; no gravity and no ground interaction.
    Noclip,
    /// Walks, jumps and falls.
    Ground,
}

impl MoveMode {
    /// The other mode.
    pub open spec fn spec_toggled(self) -> MoveMode {
        match self {
            MoveMode::Noclip => MoveMode::Ground,
            MoveMode::Ground => MoveMode::Noclip,
        }
    }

    /// The other mode.
    #[verifier::when_used_as_spec(spec_toggled)]
    pub fn toggled(self) -> (r: MoveMode)
        ensures
            r == self.spec_toggled(),
    {
        match self {
            MoveMode::Noclip => MoveMode::Ground,
            MoveMode::Ground => MoveMode::Noclip,
        }
    }
}

/// The state of one controlled body: the tunable parameters, and the
/// transient fields `move_mode`, `height`, `ground_tick`, `grounded`,
/// `pitch`, `yaw` and `enable_input`.
#[derive(Clone, Copy, Debug, PartialEq, Eq, Structural)]
pub struct FpsController {
    pub move_mode: MoveMode,
    /// Radius of the body's capsule.
    pub radius: Fixed,
    /// Downward acceleration.
    pub gravity: Fixed,
    /// Largest wish speed when neither crouching nor sprinting.
    pub walk_speed: Fixed,
    /// Largest wish speed when sprinting.
    pub run_speed: Fixed,
    /// Scale of the forward axis of the input.
    pub forward_speed: Fixed,
    /// Scale of the sideways axis of the input.
    pub side_speed: Fixed,
    /// Largest wish speed while airborne.
    pub air_speed_cap: Fixed,
    /// Acceleration while airborne.
    pub air_acceleration: Fixed,
    /// Largest horizontal speed while airborne.
    pub max_air_speed: Fixed,
    /// Acceleration on the ground.
    pub acceleration: Fixed,
    /// Strength of the ground friction.
    pub friction: Fixed,
    /// A contact gives traction when its normal's vertical component
    /// exceeds this.
    pub traction_normal_cutoff: Fixed,
    /// At or below this horizontal speed friction stops the body outright.
    pub friction_speed_cutoff: Fixed,
    /// Vertical speed of a jump.
    pub jump_speed: Fixed,
    /// Speed in noclip mode.
    pub fly_speed: Fixed,
    /// Speed in noclip mode when sprinting.
    pub fast_fly_speed: Fixed,
    /// Largest wish speed when crouching.
    pub crouched_speed: Fixed,
    /// Rate at which the height shrinks while crouching.
    pub crouch_speed: Fixed,
    /// Rate at which the height grows back.
    pub uncrouch_speed: Fixed,
    /// Current height of the capsule, between `crouch_height` and
    /// `upright_height`.
    pub height: Fixed,
    pub upright_height: Fixed,
    pub crouch_height: Fixed,
    /// Friction treats a slower body as if it had this speed.
    pub stop_speed: Fixed,
    /// Radians of look rotation per unit of pointer motion.
    pub sensitivity: Fixed,
    /// While false, every step of the controller leaves the state as it is.
    pub enable_input: bool,
    /// Largest ledge height the body climbs without a jump.
    pub step_offset: Fixed,
    /// Look angle up and down, in radians.
    pub pitch: Fixed,
    /// Look angle left and right, in radians.
    pub yaw: Fixed,
    /// Saturating count of steps with ground contact; 0 while airborne.
    pub ground_tick: u8,
    /// Whether the last ground sweep found ground under the body.
    pub grounded: bool,
}

impl FpsController {
    /// The controller a body is spawned with: walking, upright, airborne.
    /// The capsule is half a unit wide, three units tall and half as tall
    /// when crouched; a jump starts at 8.5 units per second; a contact
    /// gives traction from a normal of 0.7 upward; friction stops the body
    /// below a tenth of a unit per second; the pointer turns the view by a
    /// thousandth of a radian per unit.
    pub open spec fn spec_default() -> FpsController {
        FpsController {
            move_mode: MoveMode::Ground,
            radius: Fixed { raw: 0x8000_0000 },
            gravity: Fixed::from_int(23),
            walk_speed: Fixed::from_int(9),
            run_speed: Fixed::from_int(14),
            forward_speed: Fixed::from_int(30),
            side_speed: Fixed::from_int(30),
            air_speed_cap: Fixed::from_int(2),
            air_acceleration: Fixed::from_int(20),
            max_air_speed: Fixed::from_int(15),
            acceleration: Fixed::from_int(10),
            friction: Fixed::from_int(10),
            traction_normal_cutoff: Fixed { raw: 0xb333_3333 },
            friction_speed_cutoff: Fixed { raw: 0x1999_9999 },
            jump_speed: Fixed { raw: 0x8_8000_0000 },
            fly_speed: Fixed::from_int(10),
            fast_fly_speed: Fixed::from_int(30),
            crouched_speed: Fixed::from_int(5),
            crouch_speed: Fixed::from_int(6),
            uncrouch_speed: Fixed::from_int(8),
            height: Fixed::from_int(3),
            upright_height: Fixed::from_int(3),
            crouch_height: Fixed { raw: 0x1_8000_0000 },
            stop_speed: Fixed::from_int(1),
            sensitivity: Fixed { raw: 0x41_8937 },
            enable_input: true,
            step_offset: Fixed::zero(),
            pitch: Fixed::zero(),
            yaw: Fixed::zero(),
            ground_tick: 0,
            grounded: false,
        }
    }

    /// Whether the height lies between the crouched and the upright height.
    pub open spec fn height_in_range(self) -> bool {
        self.crouch_height.raw <= self.height.raw <= self.upright_height.raw
    }

    /// Whether the pitch keeps its margin from straight up and straight down.
    pub open spec fn pitch_in_range(self) -> bool {
        PITCH_MIN_RAW <= self.pitch.raw <= PITCH_MAX_RAW
    }
}

impl Default for FpsController {
    fn default() -> (r: FpsController)
        ensures
            r == FpsController::spec_default(),
            r.height_in_range(),
            r.pitch_in_range(),
    {
        FpsController {
            move_mode: MoveMode::Ground,
            radius: Fixed { raw: 0x8000_0000 },
            gravity: Fixed::from_int(23),
            walk_speed: Fixed::from_int(9),
            run_speed: Fixed::from_int(14),
            forward_speed: Fixed::from_int(30),
            side_speed: Fixed::from_int(30),
            air_speed_cap: Fixed::from_int(2),
            air_acceleration: Fixed::from_int(20),
            max_air_speed: Fixed::from_int(15),
            acceleration: Fixed::from_int(10),
            friction: Fixed::from_int(10),
            traction_normal_cutoff: Fixed { raw: 0xb333_3333 },
            friction_speed_cutoff: Fixed { raw: 0x1999_9999 },
            jump_speed: Fixed { raw: 0x8_8000_0000 },
            fly_speed: Fixed::from_int(10),
            fast_fly_speed: Fixed::from_int(30),
            crouched_speed: Fixed::from_int(5),
            crouch_speed: Fixed::from_int(6),
            uncrouch_speed: Fixed::from_int(8),
            height: Fixed::from_int(3),
            upright_height: Fixed::from_int(3),
            crouch_height: Fixed { raw: 0x1_8000_0000 },
            stop_speed: Fixed::from_int(1),
            sensitivity: Fixed { raw: 0x41_8937 },
            enable_input: true,
            step_offset: Fixed::zero(),
            pitch: Fixed::zero(),
            yaw: Fixed::zero(),
            ground_tick: 0,
            grounded: false,
        }
    }
}

/// The input of one tick, already normalized.
#[derive(Clone, Copy, Debug, PartialEq, Eq, Structural)]
pub struct FpsControllerInput {
    /// True only on the tick on which the fly key went down.
    pub fly: bool,
    pub sprint: bool,
    pub jump: bool,
    pub crouch: bool,
    /// Look angle up and down, in radians.
    pub pitch: Fixed,
    /// Look angle left and right, in radians.
    pub yaw: Fixed,
    /// Right, up and forward axes, each between -1 and 1.
    pub movement: Vec3,
}

impl FpsControllerInput {
    /// The input with no key down, looking straight ahead.
    pub open spec fn spec_default() -> FpsControllerInput {
        FpsControllerInput {
            fly: false,
            sprint: false,
            jump: false,
            crouch: false,
            pitch: Fixed::zero(),
            yaw: Fixed::zero(),
            movement: Vec3::zero(),
        }
    }

    /// Whether the pitch keeps its margin from straight up and straight down.
    pub open spec fn pitch_in_range(self) -> bool {
        PITCH_MIN_RAW <= self.pitch.raw <= PITCH_MAX_RAW
    }
}

impl Default for FpsControllerInput {
    fn default() -> (r: FpsControllerInput)
        ensures
            r == FpsControllerInput::spec_default(),
            r.pitch_in_range(),
    {
        FpsControllerInput {
            fly: false,
            sprint: false,
            jump: false,
            crouch: false,
            pitch: Fixed::zero(),
            yaw: Fixed::zero(),
            movement: Vec3::zero(),
        }
    }
}

/// What the bound keys and the pointer report for one tick.
#[derive(Clone, Copy, Debug, PartialEq, Eq, Structural)]
pub struct ActionSnapshot {
    /// Pointer motion to the right since the last tick.
    pub look_x: Fixed,
    /// Pointer motion downward since the last tick.
    pub look_y: Fixed,
    pub forward: bool,
    pub backward: bool,
    pub left: bool,
    pub right: bool,
    pub sprint: bool,
    pub crouch: bool,
    pub jump: bool,
    /// True only on the tick on which the fly key went down.
    pub fly_just_pressed: bool,
}

/// The sine and cosine of an angle.
#[derive(Clone, Copy, Debug, PartialEq, Eq, Structural)]
pub struct SinCos {
    pub sin: Fixed,
    pub cos: Fixed,
}

/// The sines and cosines of the two look angles of an input.
#[derive(Clone, Copy, Debug, PartialEq, Eq, Structural)]
pub struct LookTrig {
    pub yaw: SinCos,
    pub pitch: SinCos,
}

/// One contact of the downward sweep of the body's shape.
#[derive(Clone, Copy, Debug, PartialEq, Eq, Structural)]
pub struct ShapeHitData {
    /// How far the shape travelled before it touched.
    pub distance: Fixed,
    /// The contact point on the surface that was hit.
    pub point1: Vec3,
    /// The outward normal of the surface that was hit.
    pub normal1: Vec3,
    /// The outward normal of the swept shape at the contact.
    pub normal2: Vec3,
}

/// The shape of the body's collider, as far as the controller reads it.
#[derive(Clone, Copy, Debug, PartialEq, Eq, Structural)]
pub enum Collider {
    /// An upright capsule.
    Capsule { radius: Fixed, height: Fixed },
    /// Any other shape; the controller leaves such a body alone.
    Other,
}

/// Everything of one body that a movement step reads and changes.
#[derive(Clone, Copy, Debug, PartialEq, Eq, Structural)]
pub struct LogicalBody {
    pub controller: FpsController,
    pub collider: Collider,
    /// Position of the body in the world.
    pub translation: Vec3,
    /// Linear velocity of the body.
    pub velocity: Vec3,
}

/// Where the camera sits relative to the body.
#[derive(Clone, Copy, Debug, PartialEq, Eq, Structural)]
pub struct CameraConfig {
    /// Added to half the body's height to give the height of the eyes.
    pub height_offset: Fixed,
    /// Scale of the camera's orbit radius.
    pub radius_scale: Fixed,
}

/// Position and look angles of the camera.
#[derive(Clone, Copy, Debug, PartialEq, Eq, Structural)]
pub struct CameraPose {
    pub translation: Vec3,
    pub yaw: Fixed,
    pub pitch: Fixed,
}

/// Whether the window holds the pointer.
#[derive(Clone, Copy, Debug, PartialEq, Eq, Structural)]
pub struct CursorOptions {
    /// The pointer is confined to the window and reports motion only.
    pub locked: bool,
    pub visible: bool,
}

} // verus!
