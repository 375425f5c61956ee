//! The movement and grounding core of a first-person character controller.
//!
//! Once per tick the controller turns the player's input and the contacts
//! of a downward sweep of the body's shape into a new velocity, position and
//! height for the body: air control, ground friction, jumps, steps over
//! ledges, crouching, and a fly-through mode.
//!
//! All arithmetic is fixed-point ([`fixed::Fixed`]), total and saturating,
//! so that a tick gives the same result on every machine. Angles enter the
//! movement step as sines and cosines that the caller supplies.
//!
//! The steps of a tick, in their order: [`fps_controller_grounded`]
//! classifies the body, [`fps_controller_input`] reads the keys and the
//! pointer, [`fps_controller_move`] integrates, [`fps_controller_look`]
//! copies the look angles, and [`fps_controller_render`] places the camera.
//! [`FpsControllerPlugin`] runs them on one body, given the input that the
//! second step left.
pub mod components;
pub mod fixed;
pub mod input;
pub mod limits;
pub mod movement;
pub mod plugin;
pub mod render;
pub mod util;
pub mod vector;

pub use input::fps_controller_input;
pub use movement::{fps_controller_grounded, fps_controller_look, fps_controller_move};
pub use plugin::FpsControllerPlugin;
pub use render::fps_controller_render;
pub use util::{acceleration, manage_cursor};
