//! Where the camera goes once the body has moved.
use crate::components::{CameraConfig, CameraPose, FpsController};
use crate::fixed::Fixed;
use crate::vector::Vec3;
use vstd::prelude::*;

verus! {

/// The height of the eyes above the body's position: half the body's
/// height plus the configured offset.
pub open spec fn spec_camera_height(controller: FpsController, camera_config: CameraConfig) -> Fixed {
    controller.height.div(Fixed::from_int(2)).add(camera_config.height_offset)
}

/// The pose of the camera: the body's position raised by the height of the
/// eyes, and the look angles of the controller.
pub open spec fn spec_fps_controller_render(
    logical_translation: Vec3,
    controller: FpsController,
    camera_config: CameraConfig,
) -> CameraPose {
    CameraPose {
        translation: Vec3 {
            x: logical_translation.x,
            y: logical_translation.y.add(spec_camera_height(controller, camera_config)),
            z: logical_translation.z,
        },
        yaw: controller.yaw,
        pitch: controller.pitch,
    }
}

/// Places the camera over the body at `logical_translation` and turns it by
/// the controller's yaw, then pitch, without roll.
pub fn fps_controller_render(
    logical_translation: Vec3,
    controller: &FpsController,
    camera_config: &CameraConfig,
) -> (pose: CameraPose)
    ensures
        pose == spec_fps_controller_render(logical_translation, *controller, *camera_config),
{
    let camera_height: Fixed = controller.height.div(Fixed::from_int(2)).add(
        camera_config.height_offset,
    );
    CameraPose {
        translation: Vec3 {
            x: logical_translation.x,
            y: logical_translation.y.add(camera_height),
            z: logical_translation.z,
        },
        yaw: controller.yaw,
        pitch: controller.pitch,
    }
}

} // verus!
