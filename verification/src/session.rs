//! One simulation tick: the fixed pipeline that runs every system in
//! order, gated by the mode switch.
//!
//! Per tick: the pending mode request is applied (with its pointer and
//! menu side effects), the per-tick input accumulators are reset, the
//! gated systems run in the fixed order movement-intent, look,
//! mode-toggle, shooting, then projectile contact cleanup runs in any
//! mode, and the movement physics emits this tick's impulse for the
//! physics engine to integrate.

use vstd::prelude::*;
use crate::input::{InputSnapshot, MouseDelta, WindowSize};
use crate::state::{
    GameState, ModeSwitch, CursorView, Menu, spec_apply_transition, spec_request_toggle,
    apply_transition, handle_other_input, handle_input, cursor_for, create_menu,
};
use crate::look::{PlayerCam, cam_wf, spec_handle_mouse, handle_mouse};
use crate::motion::{
    PlayerController, CameraBasis, controller_wf, basis_wf, basis_forward, basis_right,
    direction_delta, spec_smoothed, reset_movement_input, handle_movement_input,
    handle_movement_physics, JUMP_IMPULSE_FX, MAX_ACCEL_FORCE_FX,
};
use crate::ground::{CastHit, world_wf, spec_grounded};
use crate::shoot::{
    Bullet, CameraRay, camera_ray_wf, spec_spawned, surviving, handle_shooting, bullet_collision,
};
use crate::math::{Vec3Fx, vec3_of, vec_bounded, abs, len2, trunc_div, sqrt_up, COORD_LIMIT};

verus! {

/// Everything one session owns across ticks: the mode switch, the
/// pointer and menu models it drives, the single character's camera and
/// controller, and the projectile registry.
pub struct Session {
    pub mode: ModeSwitch,
    pub cursor: CursorView,
    pub menu: Menu,
    pub camera: PlayerCam,
    pub controller: PlayerController,
    pub bullets: Vec<Bullet>,
    pub next_bullet_id: u64,
    /// The character's own collider handle, excluded from ground casts.
    pub self_entity: u64,
}

/// The state every tick re-establishes.
pub open spec fn session_wf(s: Session) -> bool {
    cam_wf(s.camera) && controller_wf(s.controller)
}

impl Session {
    /// A fresh session: first person, pointer captured, menu hidden,
    /// camera level, character at rest, no projectiles.
    pub fn start(self_entity: u64) -> (s: Session)
        ensures
            s.mode.state == GameState::FirstPerson,
            s.mode.pending is None,
            s.cursor == cursor_for(GameState::FirstPerson),
            !s.menu.visible,
            s.camera == (PlayerCam { yaw: 0i64, pitch: 0i64 }),
            s.controller == PlayerController::spec_default(),
            s.bullets@ == Seq::<Bullet>::empty(),
            s.next_bullet_id == 0,
            s.self_entity == self_entity,
            session_wf(s),
    {
        Session {
            mode: ModeSwitch::start(),
            cursor: CursorView { grab: crate::state::CursorGrab::Locked, visible: false },
            menu: create_menu(),
            camera: PlayerCam::level(),
            controller: Default::default(),
            bullets: Vec::new(),
            next_bullet_id: 0,
            self_entity,
        }
    }
}

/// What the collaborators feed one tick: the input devices' state, the
/// window, the camera-derived frames, and the physics engine's view of
/// the world.
pub struct TickInput {
    pub input: InputSnapshot,
    pub mouse_events: Vec<MouseDelta>,
    pub window: Option<WindowSize>,
    /// Horizontal movement frame derived from the camera orientation.
    pub basis: Option<CameraBasis>,
    /// Camera position and full look direction, for spawning.
    pub camera_ray: Option<CameraRay>,
    /// The character's current linear velocity, read from its body.
    pub velocity: Vec3Fx,
    /// The physics integration timestep.
    pub dt: i64,
    /// The colliders the downward probe can reach this tick.
    pub world: Vec<CastHit>,
    /// The projectile handles currently touching something.
    pub contacts: Vec<u64>,
}

/// Input a tick accepts.
pub open spec fn tick_input_wf(tin: TickInput) -> bool {
    &&& world_wf(tin.world@)
    &&& (tin.basis matches Some(b) ==> basis_wf(b))
    &&& (tin.camera_ray matches Some(cr) ==> camera_ray_wf(cr))
    &&& 0 <= tin.dt <= COORD_LIMIT
    &&& vec_bounded(tin.velocity, COORD_LIMIT as int)
}

/// The controller state entering the physics step: accumulators reset,
/// then — in first person only — the held keys' direction, the jump
/// latch and the camera mirror.
pub open spec fn spec_mid_controller(
    c0: PlayerController,
    fp: bool,
    tin: TickInput,
    cam_after: PlayerCam,
) -> PlayerController {
    let reset = PlayerController {
        movement_direction: Vec3Fx { x: 0, y: 0, z: 0 },
        jumping: false,
        ..c0
    };
    if fp {
        let f = basis_forward(tin.basis);
        let r = basis_right(tin.basis);
        let moved = PlayerController {
            movement_direction: vec3_of(
                direction_delta(tin.input, f.x as int, r.x as int),
                direction_delta(tin.input, f.y as int, r.y as int),
                direction_delta(tin.input, f.z as int, r.z as int),
            ),
            jumping: tin.input.jump.spec_just_pressed(),
            ..reset
        };
        match tin.window {
            Some(_) => PlayerController {
                camera_yaw: cam_after.yaw,
                camera_pitch: cam_after.pitch,
                ..moved
            },
            None => moved,
        }
    } else {
        reset
    }
}

/// Run one full tick and return the impulse the physics engine is to
/// integrate into the character's velocity.
pub fn tick(session: &mut Session, tin: &TickInput) -> (impulse: Vec3Fx)
    requires
        session_wf(*old(session)),
        old(session).next_bullet_id < u64::MAX,
        tick_input_wf(*tin),
    ensures
        session_wf(*final(session)),
        final(session).self_entity == old(session).self_entity,
        ({
            let (m1, c1, mn1) = spec_apply_transition(
                old(session).mode,
                old(session).cursor,
                old(session).menu,
            );
            let fp = m1.state is FirstPerson;
            let edge = tin.input.toggle.spec_just_pressed();
            let cam1 = if fp {
                spec_handle_mouse(old(session).camera, tin.window, tin.mouse_events@)
            } else {
                old(session).camera
            };
            let mid = spec_mid_controller(old(session).controller, fp, *tin, cam1);
            let spawned = fp && tin.camera_ray is Some && tin.input.fire.spec_just_pressed();
            let grounded = spec_grounded(tin.world@, old(session).self_entity);
            // one transition applied, then at most one new request
            &&& final(session).mode == spec_request_toggle(m1, edge)
            &&& final(session).cursor == c1
            &&& final(session).menu == mn1
            // the camera follows the tick's mouse queue only in first person
            &&& final(session).camera == cam1
            // the physics step persists the smoothed target on the
            // controller the gated systems produced
            &&& final(session).controller == (PlayerController {
                last_target_velocity: spec_smoothed(mid, tin.dt as int),
                ..mid
            })
            // the jump impulse comes exactly when the character is
            // grounded and the jump key rose this tick in first person
            &&& impulse.y == (if grounded && fp && tin.input.jump.spec_just_pressed() {
                JUMP_IMPULSE_FX as int
            } else {
                0int
            })
            // the horizontal impulse approaches the smoothed target
            &&& ({
                let s = spec_smoothed(mid, tin.dt as int);
                let dvx = s.x - tin.velocity.x;
                let dvy = s.y - tin.velocity.y;
                let dvz = s.z - tin.velocity.z;
                &&& (len2(dvx, dvy, dvz) <= MAX_ACCEL_FORCE_FX * MAX_ACCEL_FORCE_FX ==> impulse.x
                    == dvx && impulse.z == dvz)
                &&& (len2(dvx, dvy, dvz) > MAX_ACCEL_FORCE_FX * MAX_ACCEL_FORCE_FX ==> ({
                    let sq = sqrt_up(len2(dvx, dvy, dvz));
                    impulse.x == trunc_div(dvx * MAX_ACCEL_FORCE_FX, sq) && impulse.z
                        == trunc_div(dvz * MAX_ACCEL_FORCE_FX, sq)
                }))
                &&& len2(impulse.x as int, 0, impulse.z as int) <= MAX_ACCEL_FORCE_FX
                    * MAX_ACCEL_FORCE_FX
                &&& abs(impulse.x as int) <= abs(dvx)
                &&& abs(impulse.z as int) <= abs(dvz)
                &&& impulse.x * dvx >= 0
                &&& impulse.z * dvz >= 0
            })
            // one projectile per trigger edge, then contact cleanup
            &&& final(session).bullets@ == surviving(
                if spawned {
                    old(session).bullets@.push(
                        spec_spawned(tin.camera_ray.unwrap(), old(session).next_bullet_id),
                    )
                } else {
                    old(session).bullets@
                },
                tin.contacts@,
            )
            &&& final(session).next_bullet_id == old(session).next_bullet_id + (if spawned {
                1int
            } else {
                0int
            })
        }),
{
    apply_transition(&mut session.mode, &mut session.cursor, &mut session.menu);
    reset_movement_input(&mut session.controller);
    let first_person = match session.mode.state {
        GameState::FirstPerson => true,
        GameState::MenuOpen => false,
    };
    if first_person {
        handle_movement_input(&mut session.controller, tin.basis, &tin.input);
        handle_mouse(&mut session.camera, &mut session.controller, tin.window, &tin.mouse_events);
        handle_other_input(&mut session.mode, &tin.input);
        handle_shooting(
            &mut session.bullets,
            &mut session.next_bullet_id,
            tin.camera_ray,
            tin.input.fire,
        );
    } else {
        handle_input(&mut session.mode, &tin.input);
    }
    bullet_collision(&mut session.bullets, &tin.contacts);
    let mut impulse = Vec3Fx::zero();
    handle_movement_physics(
        &mut session.controller,
        tin.velocity,
        tin.dt,
        &tin.world,
        session.self_entity,
        &mut impulse,
    );
    impulse
}

} // verus!
