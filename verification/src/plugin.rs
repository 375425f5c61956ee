//! The steps of a tick in their fixed order.
use crate::components::{
    CameraConfig, CameraPose, Collider, FpsController, FpsControllerInput, LogicalBody, LookTrig,
    MoveMode, ShapeHitData,
};
use crate::fixed::Fixed;
use crate::movement::{
    fps_controller_grounded, fps_controller_look, fps_controller_move, lemma_move_invariants,
    spec_any_traction, spec_fps_controller_grounded, spec_fps_controller_look,
    spec_fps_controller_move, spec_is_grounded,
};
use crate::render::{fps_controller_render, spec_fps_controller_render};
use crate::vector::Quat;
use vstd::prelude::*;

verus! {

/// Runs the controller on one body at a time. Within a tick the grounding
/// classifier comes first, so that the movement step decides traction on
/// this tick's sweep; the movement step reads the look angles of the input;
/// only then are they copied into the controller; and the camera is placed
/// last.
pub struct FpsControllerPlugin;

/// The body with `controller` in place of its own.
pub open spec fn spec_with_controller(body: LogicalBody, controller: FpsController) -> LogicalBody {
    LogicalBody {
        controller,
        collider: body.collider,
        translation: body.translation,
        velocity: body.velocity,
    }
}

/// The body after a tick: classified, moved, and with the look angles of the
/// input, in this order.
pub open spec fn spec_update(
    dt: Fixed,
    input: FpsControllerInput,
    look: LookTrig,
    body: LogicalBody,
    hits: Seq<ShapeHitData>,
    rotation: Quat,
) -> LogicalBody {
    let moved = spec_fps_controller_move(
        dt,
        input,
        look,
        spec_with_controller(body, spec_fps_controller_grounded(body.controller, hits, rotation)),
        hits,
    );
    spec_with_controller(moved, spec_fps_controller_look(moved.controller, input))
}

impl FpsControllerPlugin {
    /// Runs one tick on one body and returns where its camera goes. `input`
    /// is the input of this tick and `look` the sines and cosines of its look
    /// angles; `shape_hits` are the contacts of the ground sweep and
    /// `rotation` is the body's rotation. A body with `enable_input` off
    /// stays as it is.
    pub fn update(
        &self,
        dt: Fixed,
        input: &FpsControllerInput,
        look: LookTrig,
        body: &mut LogicalBody,
        shape_hits: &Vec<ShapeHitData>,
        rotation: Quat,
        camera_config: &CameraConfig,
    ) -> (pose: CameraPose)
        ensures
            *final(body) == spec_update(dt, *input, look, *old(body), shape_hits@, rotation),
            pose == spec_fps_controller_render(
                final(body).translation,
                final(body).controller,
                *camera_config,
            ),
            !old(body).controller.enable_input ==> *final(body) == *old(body),
            old(body).controller.enable_input ==> final(body).controller.pitch == input.pitch
                && final(body).controller.yaw == input.yaw,
            final(body).controller.enable_input == old(body).controller.enable_input,
            old(body).controller.crouch_height.raw <= old(body).controller.upright_height.raw
                && old(body).controller.height_in_range()
                ==> final(body).controller.height_in_range(),
    {
        proof {
            lemma_move_invariants(
                dt,
                *input,
                look,
                spec_with_controller(
                    *body,
                    spec_fps_controller_grounded(body.controller, shape_hits@, rotation),
                ),
                shape_hits@,
            );
        }
        fps_controller_grounded(&mut body.controller, shape_hits, rotation);
        fps_controller_move(dt, input, look, body, shape_hits);
        fps_controller_look(&mut body.controller, input);
        fps_controller_render(body.translation, &body.controller, camera_config)
    }
}

/// What one tick is given: a record for stating what holds over runs of
/// ticks.
pub struct Tick {
    pub dt: Fixed,
    pub input: FpsControllerInput,
    pub look: LookTrig,
    pub hits: Seq<ShapeHitData>,
    pub rotation: Quat,
}

/// The body after a run of ticks, in order.
pub open spec fn spec_run(body: LogicalBody, ticks: Seq<Tick>) -> LogicalBody
    decreases ticks.len(),
{
    if ticks.len() == 0 {
        body
    } else {
        spec_update(
            ticks.last().dt,
            ticks.last().input,
            ticks.last().look,
            spec_run(body, ticks.drop_last()),
            ticks.last().hits,
            ticks.last().rotation,
        )
    }
}

/// Whether a tick leaves a walking body in the air: nothing under it, and
/// the fly key up.
pub open spec fn spec_airborne_tick(tick: Tick) -> bool {
    tick.hits.len() == 0 && !tick.input.fly
}

/// What a tick keeps of a body: whether input is enabled and the bounds of
/// the height; and with input off, everything.
pub proof fn lemma_update_keeps(
    dt: Fixed,
    input: FpsControllerInput,
    look: LookTrig,
    body: LogicalBody,
    hits: Seq<ShapeHitData>,
    rotation: Quat,
)
    ensures
        spec_update(dt, input, look, body, hits, rotation).controller.enable_input
            == body.controller.enable_input,
        spec_update(dt, input, look, body, hits, rotation).controller.crouch_height
            == body.controller.crouch_height,
        spec_update(dt, input, look, body, hits, rotation).controller.upright_height
            == body.controller.upright_height,
        !body.controller.enable_input ==> spec_update(dt, input, look, body, hits, rotation)
            == body,
{
    lemma_move_invariants(
        dt,
        input,
        look,
        spec_with_controller(body, spec_fps_controller_grounded(body.controller, hits, rotation)),
        hits,
    );
}

/// Over any run of ticks, whatever the crouch key and the time steps, the
/// height stays between the crouched and the upright height once it lies
/// there.
pub proof fn lemma_run_keeps_height(body: LogicalBody, ticks: Seq<Tick>)
    requires
        body.controller.crouch_height.raw <= body.controller.upright_height.raw,
        body.controller.height_in_range(),
    ensures
        spec_run(body, ticks).controller.height_in_range(),
        spec_run(body, ticks).controller.crouch_height == body.controller.crouch_height,
        spec_run(body, ticks).controller.upright_height == body.controller.upright_height,
    decreases ticks.len(),
{
    if ticks.len() > 0 {
        let before = spec_run(body, ticks.drop_last());
        let tick = ticks.last();
        lemma_run_keeps_height(body, ticks.drop_last());
        lemma_update_keeps(tick.dt, tick.input, tick.look, before, tick.hits, tick.rotation);
        lemma_move_invariants(
            tick.dt,
            tick.input,
            tick.look,
            spec_with_controller(
                before,
                spec_fps_controller_grounded(before.controller, tick.hits, tick.rotation),
            ),
            tick.hits,
        );
    }
}

/// Over any run of ticks the controller's pitch keeps its margin from
/// straight up and straight down, where it did so before and the pitch of
/// every input does.
pub proof fn lemma_run_keeps_pitch(body: LogicalBody, ticks: Seq<Tick>)
    requires
        body.controller.pitch_in_range(),
        forall|i: int| 0 <= i < ticks.len() ==> (#[trigger] ticks[i]).input.pitch_in_range(),
    ensures
        spec_run(body, ticks).controller.pitch_in_range(),
    decreases ticks.len(),
{
    if ticks.len() > 0 {
        let before = spec_run(body, ticks.drop_last());
        let tick = ticks.last();
        assert forall|i: int| 0 <= i < ticks.drop_last().len() implies (#[trigger] ticks.drop_last()[i])
            .input.pitch_in_range() by {
            assert(ticks.drop_last()[i] == ticks[i]);
        }
        lemma_run_keeps_pitch(body, ticks.drop_last());
        lemma_move_invariants(
            tick.dt,
            tick.input,
            tick.look,
            spec_with_controller(
                before,
                spec_fps_controller_grounded(before.controller, tick.hits, tick.rotation),
            ),
            tick.hits,
        );
    }
}

/// While a walking body touches nothing, tick after tick, it has no ground
/// tick and is not grounded.
pub proof fn lemma_run_airborne(body: LogicalBody, ticks: Seq<Tick>)
    requires
        body.controller.enable_input,
        body.controller.move_mode == MoveMode::Ground,
        body.collider != Collider::Other,
        ticks.len() > 0,
        forall|i: int| 0 <= i < ticks.len() ==> spec_airborne_tick(#[trigger] ticks[i]),
    ensures
        spec_run(body, ticks).controller.ground_tick == 0,
        !spec_run(body, ticks).controller.grounded,
        spec_run(body, ticks).controller.enable_input,
        spec_run(body, ticks).controller.move_mode == MoveMode::Ground,
        spec_run(body, ticks).collider != Collider::Other,
    decreases ticks.len(),
{
    let before = spec_run(body, ticks.drop_last());
    let tick = ticks.last();
    assert(spec_airborne_tick(tick));
    if ticks.len() > 1 {
        assert forall|i: int| 0 <= i < ticks.drop_last().len() implies spec_airborne_tick(
            #[trigger] ticks.drop_last()[i],
        ) by {
            assert(ticks.drop_last()[i] == ticks[i]);
        }
        lemma_run_airborne(body, ticks.drop_last());
    } else {
        assert(ticks.drop_last().len() == 0);
        assert(before == body);
    }
    let classified = spec_with_controller(
        before,
        spec_fps_controller_grounded(before.controller, tick.hits, tick.rotation),
    );
    assert(!spec_is_grounded(tick.rotation, tick.hits));
    assert(!spec_any_traction(before.controller, tick.hits));
    lemma_move_invariants(tick.dt, tick.input, tick.look, classified, tick.hits);
}

} // verus!
