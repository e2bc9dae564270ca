use working_title::ground::{probe_ground, intersections, CastHit};
use working_title::input::{ButtonState, InputSnapshot, MouseDelta, WindowSize};
use working_title::look::{handle_mouse, PlayerCam};
use working_title::math::Vec3Fx;
use working_title::motion::{
    handle_movement_input, handle_movement_physics, reset_movement_input, CameraBasis,
    PlayerController,
};
use working_title::session::{tick, Session, TickInput};
use working_title::shoot::{bullet_collision, handle_shooting, Bullet, CameraRay};
use working_title::state::{
    apply_transition, create_menu, grab_cursor, handle_input, handle_other_input, release_cursor,
    CursorGrab, CursorView, GameState, Menu, ModeSwitch,
};

const UNIT: i64 = 1_000_000;

fn idle_input() -> InputSnapshot {
    InputSnapshot::idle()
}

fn pressed() -> ButtonState {
    ButtonState {
        down: true,
        was_down: false,
    }
}

fn held() -> ButtonState {
    ButtonState {
        down: true,
        was_down: true,
    }
}

fn window() -> Option<WindowSize> {
    Some(WindowSize {
        width: 1280,
        height: 720,
    })
}

fn flat_hit(entity: u64, toi: i64) -> CastHit {
    CastHit {
        entity,
        toi,
        start_penetrating: false,
        normal: Some(Vec3Fx {
            x: 0,
            y: UNIT,
            z: 0,
        }),
    }
}

fn basis() -> Option<CameraBasis> {
    Some(CameraBasis {
        forward: Vec3Fx {
            x: 0,
            y: 0,
            z: -UNIT,
        },
        right: Vec3Fx {
            x: UNIT,
            y: 0,
            z: 0,
        },
    })
}

fn quiet_tick_input() -> TickInput {
    TickInput {
        input: idle_input(),
        mouse_events: Vec::new(),
        window: window(),
        basis: basis(),
        camera_ray: Some(CameraRay {
            position: Vec3Fx { x: 0, y: 0, z: 0 },
            forward: Vec3Fx {
                x: 0,
                y: 0,
                z: -UNIT,
            },
        }),
        velocity: Vec3Fx { x: 0, y: 0, z: 0 },
        dt: 16_667,
        world: Vec::new(),
        contacts: Vec::new(),
    }
}

// --- mouse look ---

#[test]
fn one_mouse_event_turns_by_the_scaled_delta() {
    let mut cam = PlayerCam::level();
    let mut ctrl = PlayerController::default();
    let events = vec![MouseDelta { x: UNIT, y: UNIT }];
    handle_mouse(&mut cam, &mut ctrl, window(), &events);
    // 1 px * 0.0002 * 720 px, read as degrees: 0.144 deg = 2513 urad
    assert_eq!(cam.yaw, -2513);
    assert_eq!(cam.pitch, -2513);
    assert_eq!(ctrl.camera_yaw, -2513);
    assert_eq!(ctrl.camera_pitch, -2513);
}

#[test]
fn pitch_is_clamped_under_extreme_deltas() {
    let mut cam = PlayerCam::level();
    let mut ctrl = PlayerController::default();
    let events = vec![
        MouseDelta {
            x: 0,
            y: 1_000_000_000_000_000,
        },
        MouseDelta {
            x: 0,
            y: -3_000_000_000_000_000,
        },
        MouseDelta {
            x: 0,
            y: i64::MAX,
        },
    ];
    handle_mouse(&mut cam, &mut ctrl, window(), &events);
    assert!(cam.pitch >= -1_540_000 && cam.pitch <= 1_540_000);
    assert_eq!(cam.pitch, -1_540_000);
}

#[test]
fn pitch_clamp_holds_per_event_not_in_sum() {
    // a huge downward flick followed by a matching upward flick does
    // not cancel: the clamp applies after every event in order
    let mut cam = PlayerCam::level();
    let mut ctrl = PlayerController::default();
    let events = vec![
        MouseDelta {
            x: 0,
            y: 10_000_000_000,
        },
        MouseDelta {
            x: 0,
            y: -10_000_000_000,
        },
    ];
    handle_mouse(&mut cam, &mut ctrl, window(), &events);
    // after the first event the pitch sits on the clamp, so the second
    // one starts from there
    let step = 25_132_320; // 10000 px scaled: far past the clamp
    assert_eq!(cam.pitch, (-1_540_000i64 + step).min(1_540_000));
}

#[test]
fn yaw_wraps_around_the_full_turn() {
    let mut cam = PlayerCam {
        yaw: 3_141_593,
        pitch: 0,
    };
    let mut ctrl = PlayerController::default();
    let events = vec![MouseDelta { x: -UNIT, y: 0 }];
    handle_mouse(&mut cam, &mut ctrl, window(), &events);
    assert_eq!(cam.yaw, 3_141_593 + 2_513 - 6_283_186);
}

#[test]
fn sensitivity_scales_by_the_smaller_window_dimension() {
    let mut cam = PlayerCam::level();
    let mut ctrl = PlayerController::default();
    let events = vec![MouseDelta { x: 0, y: UNIT }];
    let narrow = Some(WindowSize {
        width: 500,
        height: 800,
    });
    handle_mouse(&mut cam, &mut ctrl, narrow, &events);
    // 1 px * 0.0002 * 500 px in degrees: 1745 urad
    assert_eq!(cam.pitch, -1745);
}

#[test]
fn no_window_skips_the_mouse_queue() {
    let mut cam = PlayerCam {
        yaw: 7,
        pitch: -9,
    };
    let mut ctrl = PlayerController::default();
    let events = vec![MouseDelta { x: UNIT, y: UNIT }];
    handle_mouse(&mut cam, &mut ctrl, None, &events);
    assert_eq!(cam.yaw, 7);
    assert_eq!(cam.pitch, -9);
}

// --- mode switch, cursor policy, menu ---

#[test]
fn toggle_round_trip_restores_pointer_and_menu() {
    let mut mode = ModeSwitch::start();
    let mut cursor = CursorView {
        grab: CursorGrab::Locked,
        visible: false,
    };
    let mut menu = create_menu();
    let mut tab = idle_input();
    tab.toggle = pressed();

    handle_other_input(&mut mode, &tab);
    apply_transition(&mut mode, &mut cursor, &mut menu);
    assert_eq!(mode.state, GameState::MenuOpen);
    assert_eq!(cursor.grab, CursorGrab::Released);
    assert!(cursor.visible);
    assert!(menu.visible);

    handle_input(&mut mode, &tab);
    apply_transition(&mut mode, &mut cursor, &mut menu);
    assert_eq!(mode.state, GameState::FirstPerson);
    assert_eq!(cursor.grab, CursorGrab::Locked);
    assert!(!cursor.visible);
    assert!(!menu.visible);
}

#[test]
fn repeated_toggle_in_one_tick_transitions_once() {
    let mut mode = ModeSwitch::start();
    let mut cursor = CursorView {
        grab: CursorGrab::Locked,
        visible: false,
    };
    let mut menu = create_menu();
    let mut tab = idle_input();
    tab.toggle = pressed();

    handle_other_input(&mut mode, &tab);
    handle_other_input(&mut mode, &tab);
    handle_other_input(&mut mode, &tab);
    apply_transition(&mut mode, &mut cursor, &mut menu);
    assert_eq!(mode.state, GameState::MenuOpen);
    assert_eq!(mode.pending, None);
}

#[test]
fn held_toggle_key_is_no_edge() {
    let mut mode = ModeSwitch::start();
    let mut input = idle_input();
    input.toggle = held();
    handle_other_input(&mut mode, &input);
    assert_eq!(mode.pending, None);
}

#[test]
fn cursor_actions_set_the_window_model() {
    let mut cursor = CursorView {
        grab: CursorGrab::Released,
        visible: true,
    };
    grab_cursor(&mut cursor);
    assert_eq!(cursor.grab, CursorGrab::Locked);
    assert!(!cursor.visible);
    release_cursor(&mut cursor);
    assert_eq!(cursor.grab, CursorGrab::Released);
    assert!(cursor.visible);
}

// --- movement input ---

#[test]
fn diagonal_input_is_not_normalized() {
    let mut ctrl = PlayerController::default();
    let mut input = idle_input();
    input.forward = true;
    input.right = true;
    handle_movement_input(&mut ctrl, basis(), &input);
    assert_eq!(
        ctrl.movement_direction,
        Vec3Fx {
            x: UNIT,
            y: 0,
            z: -UNIT
        }
    );
}

#[test]
fn opposed_keys_cancel() {
    let mut ctrl = PlayerController::default();
    let mut input = idle_input();
    input.forward = true;
    input.back = true;
    handle_movement_input(&mut ctrl, basis(), &input);
    assert_eq!(ctrl.movement_direction, Vec3Fx { x: 0, y: 0, z: 0 });
}

#[test]
fn no_camera_gives_zero_direction_but_keeps_the_jump_latch() {
    let mut ctrl = PlayerController::default();
    let mut input = idle_input();
    input.forward = true;
    input.jump = pressed();
    handle_movement_input(&mut ctrl, None, &input);
    assert_eq!(ctrl.movement_direction, Vec3Fx { x: 0, y: 0, z: 0 });
    assert!(ctrl.jumping);
}

#[test]
fn reset_clears_only_the_per_tick_accumulators() {
    let mut ctrl = PlayerController::default();
    let mut input = idle_input();
    input.forward = true;
    input.jump = pressed();
    handle_movement_input(&mut ctrl, basis(), &input);
    ctrl.last_target_velocity = Vec3Fx {
        x: 42,
        y: 0,
        z: 0,
    };
    reset_movement_input(&mut ctrl);
    assert_eq!(ctrl.movement_direction, Vec3Fx { x: 0, y: 0, z: 0 });
    assert!(!ctrl.jumping);
    assert_eq!(
        ctrl.last_target_velocity,
        Vec3Fx {
            x: 42,
            y: 0,
            z: 0
        }
    );
}

// --- movement physics ---

#[test]
fn smoothing_decays_exactly_toward_zero_with_no_keys() {
    let mut ctrl = PlayerController::default();
    ctrl.last_target_velocity = Vec3Fx {
        x: UNIT,
        y: 0,
        z: 0,
    };
    let world: Vec<CastHit> = Vec::new();
    let mut impulse = Vec3Fx { x: 0, y: 0, z: 0 };
    // accel 50 * dt 16667us = 0.83335 of the gap covered this tick
    handle_movement_physics(
        &mut ctrl,
        Vec3Fx { x: 0, y: 0, z: 0 },
        16_667,
        &world,
        1,
        &mut impulse,
    );
    assert_eq!(
        ctrl.last_target_velocity,
        Vec3Fx {
            x: 166_650,
            y: 0,
            z: 0
        }
    );
    assert_eq!(impulse.x, 166_650);
    assert_eq!(impulse.y, 0);
    assert_eq!(impulse.z, 0);
}

#[test]
fn smoothed_magnitude_never_grows_over_many_ticks() {
    let mut ctrl = PlayerController::default();
    ctrl.last_target_velocity = Vec3Fx {
        x: 5_000_000,
        y: 0,
        z: -3_000_000,
    };
    let world: Vec<CastHit> = Vec::new();
    let mut last = 5_000_000i64;
    for _ in 0..20 {
        let mut impulse = Vec3Fx { x: 0, y: 0, z: 0 };
        handle_movement_physics(
            &mut ctrl,
            Vec3Fx { x: 0, y: 0, z: 0 },
            16_667,
            &world,
            1,
            &mut impulse,
        );
        let mag = ctrl.last_target_velocity.x.abs();
        assert!(mag <= last);
        assert!(ctrl.last_target_velocity.x >= 0);
        assert!(ctrl.last_target_velocity.z <= 0);
        last = mag;
    }
}

#[test]
fn full_strength_step_lands_exactly_on_the_target() {
    let mut ctrl = PlayerController::default();
    ctrl.last_target_velocity = Vec3Fx {
        x: 4_321_000,
        y: 0,
        z: -999,
    };
    let world: Vec<CastHit> = Vec::new();
    let mut impulse = Vec3Fx { x: 0, y: 0, z: 0 };
    // accel 50 * dt 0.1s = 5.0, capped at 1: the lerp lands on zero
    handle_movement_physics(
        &mut ctrl,
        Vec3Fx { x: 0, y: 0, z: 0 },
        100_000,
        &world,
        1,
        &mut impulse,
    );
    assert_eq!(ctrl.last_target_velocity, Vec3Fx { x: 0, y: 0, z: 0 });
}

#[test]
fn corrective_impulse_is_clamped_to_max_accel_force() {
    let mut ctrl = PlayerController::default();
    let world: Vec<CastHit> = Vec::new();
    let mut impulse = Vec3Fx { x: 0, y: 0, z: 0 };
    // moving at 50 u/s with a zero target: the correction wants -50
    // but is clamped to magnitude 10
    handle_movement_physics(
        &mut ctrl,
        Vec3Fx {
            x: 50_000_000,
            y: 0,
            z: 0,
        },
        16_667,
        &world,
        1,
        &mut impulse,
    );
    assert_eq!(impulse.x, -10_000_000);
    assert_eq!(impulse.z, 0);
}

#[test]
fn clamped_impulse_keeps_the_correction_direction_exactly() {
    // moving at (30, 0, 40): the wanted correction has magnitude 50,
    // scaled down onto the cap radius 10 exactly
    let mut ctrl = PlayerController::default();
    let world: Vec<CastHit> = Vec::new();
    let mut impulse = Vec3Fx { x: 0, y: 0, z: 0 };
    handle_movement_physics(
        &mut ctrl,
        Vec3Fx {
            x: 30_000_000,
            y: 0,
            z: 40_000_000,
        },
        16_667,
        &world,
        1,
        &mut impulse,
    );
    assert_eq!(impulse.x, -6_000_000);
    assert_eq!(impulse.z, -8_000_000);
}

#[test]
fn clamped_impulse_rounds_toward_zero_on_inexact_lengths() {
    // correction (-20, 0, -10): squared length 500, ceiling square
    // root 22_360_680 in fixed point; each component scales by
    // 10 / 22.36068 with truncation toward zero
    let mut ctrl = PlayerController::default();
    let world: Vec<CastHit> = Vec::new();
    let mut impulse = Vec3Fx { x: 0, y: 0, z: 0 };
    handle_movement_physics(
        &mut ctrl,
        Vec3Fx {
            x: 20_000_000,
            y: 0,
            z: 10_000_000,
        },
        16_667,
        &world,
        1,
        &mut impulse,
    );
    assert_eq!(impulse.x, -8_944_271);
    assert_eq!(impulse.z, -4_472_135);
    let len2 = impulse.x as i128 * impulse.x as i128 + impulse.z as i128 * impulse.z as i128;
    assert!(len2 <= 10_000_000i128 * 10_000_000i128);
}

#[test]
fn key_input_never_produces_a_vertical_direction_component() {
    let mut ctrl = PlayerController::default();
    let mut input = idle_input();
    input.forward = true;
    input.right = true;
    handle_movement_input(&mut ctrl, basis(), &input);
    assert_eq!(ctrl.movement_direction.y, 0);
}

#[test]
fn vertical_velocity_is_never_driven_by_the_horizontal_controller() {
    let mut ctrl = PlayerController::default();
    let world: Vec<CastHit> = Vec::new();
    let mut impulse = Vec3Fx { x: 0, y: 0, z: 0 };
    // falling fast: the corrective impulse still has no vertical part
    handle_movement_physics(
        &mut ctrl,
        Vec3Fx {
            x: 0,
            y: -30_000_000,
            z: 0,
        },
        16_667,
        &world,
        1,
        &mut impulse,
    );
    assert_eq!(impulse.y, 0);
}

// --- jumping (grounded and edge-triggered only) ---

#[test]
fn jump_impulse_comes_only_when_grounded_and_requested() {
    let grounded_world = vec![flat_hit(7, 550_000)];
    let empty_world: Vec<CastHit> = Vec::new();

    // grounded + requested
    let mut ctrl = PlayerController::default();
    ctrl.jumping = true;
    let mut impulse = Vec3Fx { x: 0, y: 0, z: 0 };
    handle_movement_physics(
        &mut ctrl,
        Vec3Fx { x: 0, y: 0, z: 0 },
        16_667,
        &grounded_world,
        1,
        &mut impulse,
    );
    assert_eq!(impulse.y, 100_000_000);

    // airborne + requested (held every tick): never
    let mut ctrl = PlayerController::default();
    ctrl.jumping = true;
    for _ in 0..10 {
        let mut impulse = Vec3Fx { x: 0, y: 0, z: 0 };
        handle_movement_physics(
            &mut ctrl,
            Vec3Fx { x: 0, y: 0, z: 0 },
            16_667,
            &empty_world,
            1,
            &mut impulse,
        );
        assert_eq!(impulse.y, 0);
        ctrl.jumping = true;
    }

    // grounded + not requested
    let mut ctrl = PlayerController::default();
    let mut impulse = Vec3Fx { x: 0, y: 0, z: 0 };
    handle_movement_physics(
        &mut ctrl,
        Vec3Fx { x: 0, y: 0, z: 0 },
        16_667,
        &grounded_world,
        1,
        &mut impulse,
    );
    assert_eq!(impulse.y, 0);
}

// --- ground probe ---

#[test]
fn float_offset_band_decides_the_verdict() {
    // resting exactly at the float distance: grounded
    assert!(probe_ground(&vec![flat_hit(2, 550_000)], 1));
    // raised to 1.0 above: offset 0.45, airborne
    assert!(!probe_ground(&vec![flat_hit(2, 1_000_000)], 1));
    // sunk to 0.2: offset -0.35, outside the band
    assert!(!probe_ground(&vec![flat_hit(2, 200_000)], 1));
    // no hit at all
    assert!(!probe_ground(&Vec::new(), 1));
}

#[test]
fn band_edges_are_inclusive() {
    assert!(probe_ground(&vec![flat_hit(2, 250_000)], 1));
    assert!(!probe_ground(&vec![flat_hit(2, 249_999)], 1));
    assert!(probe_ground(&vec![flat_hit(2, 600_000)], 1));
    assert!(!probe_ground(&vec![flat_hit(2, 600_001)], 1));
}

#[test]
fn steep_nearest_surface_is_skipped_for_a_deeper_walkable_one() {
    let steep = CastHit {
        entity: 2,
        toi: 300_000,
        start_penetrating: false,
        normal: Some(Vec3Fx {
            x: UNIT,
            y: 0,
            z: 0,
        }),
    };
    let world = vec![steep, flat_hit(3, 550_000)];
    assert!(probe_ground(&world, 1));
    // without the deeper floor the steep wall alone gives no ground
    assert!(!probe_ground(&vec![steep], 1));
}

#[test]
fn forty_five_degree_normal_is_the_walkable_limit() {
    // exactly 45 degrees: y equals the horizontal part
    let diag = CastHit {
        entity: 2,
        toi: 550_000,
        start_penetrating: false,
        normal: Some(Vec3Fx {
            x: 707_107,
            y: 707_107,
            z: 0,
        }),
    };
    assert!(probe_ground(&vec![diag], 1));
    let steeper = CastHit {
        entity: 2,
        toi: 550_000,
        start_penetrating: false,
        normal: Some(Vec3Fx {
            x: 707_107,
            y: 707_106,
            z: 0,
        }),
    };
    assert!(!probe_ground(&vec![steeper], 1));
}

#[test]
fn penetrating_hits_and_the_own_collider_are_ignored() {
    let inside = CastHit {
        entity: 2,
        toi: 0,
        start_penetrating: true,
        normal: None,
    };
    assert!(!probe_ground(&vec![inside], 1));
    // the character's own collider never grounds it
    assert!(!probe_ground(&vec![flat_hit(1, 550_000)], 1));
}

#[test]
fn hit_without_details_shows_no_walkable_surface() {
    // a hit carrying no contact normal cannot meet the forty-five
    // degree rule, so it never grounds the character
    let bare = CastHit {
        entity: 2,
        toi: 550_000,
        start_penetrating: false,
        normal: None,
    };
    assert!(!probe_ground(&vec![bare], 1));
}

#[test]
fn cast_walk_is_sorted_deduplicated_and_bounded() {
    let world = vec![
        flat_hit(5, 900_000),
        flat_hit(3, 100_000),
        flat_hit(4, 400_000),
        flat_hit(6, 2_000_000), // beyond the travel limit
    ];
    let mut collisions: Vec<CastHit> = Vec::new();
    intersections(&world, 1, &mut collisions);
    assert!(collisions.len() <= world.len());
    assert_eq!(collisions.len(), 3);
    assert_eq!(collisions[0].entity, 3);
    assert_eq!(collisions[1].entity, 4);
    assert_eq!(collisions[2].entity, 5);
}

// --- shooting ---

#[test]
fn one_projectile_per_trigger_edge() {
    let mut bullets: Vec<Bullet> = Vec::new();
    let mut next_id = 0u64;
    let cam = Some(CameraRay {
        position: Vec3Fx { x: 0, y: 0, z: 0 },
        forward: Vec3Fx {
            x: 0,
            y: 0,
            z: -UNIT,
        },
    });

    handle_shooting(&mut bullets, &mut next_id, cam, pressed());
    assert_eq!(bullets.len(), 1);
    for _ in 0..10 {
        handle_shooting(&mut bullets, &mut next_id, cam, held());
    }
    assert_eq!(bullets.len(), 1);
    assert_eq!(next_id, 1);

    // release and press again: a second edge, a second projectile
    handle_shooting(&mut bullets, &mut next_id, cam, pressed());
    assert_eq!(bullets.len(), 2);
    assert_eq!(bullets[0].id, 0);
    assert_eq!(bullets[1].id, 1);
}

#[test]
fn projectile_spawns_one_unit_ahead_at_full_speed() {
    let mut bullets: Vec<Bullet> = Vec::new();
    let mut next_id = 9u64;
    let cam = Some(CameraRay {
        position: Vec3Fx {
            x: 2 * UNIT,
            y: UNIT,
            z: 0,
        },
        forward: Vec3Fx {
            x: 0,
            y: 0,
            z: -UNIT,
        },
    });
    handle_shooting(&mut bullets, &mut next_id, cam, pressed());
    assert_eq!(
        bullets[0].position,
        Vec3Fx {
            x: 2 * UNIT,
            y: UNIT,
            z: -UNIT
        }
    );
    assert_eq!(
        bullets[0].velocity,
        Vec3Fx {
            x: 0,
            y: 0,
            z: -200_000_000
        }
    );
    assert_eq!(bullets[0].id, 9);
}

#[test]
fn projectile_dies_on_the_tick_its_contact_is_first_reported() {
    // forward speed 200 u/s toward a wall one unit away, 200 Hz steps:
    // the flight covers the gap during the first physics step
    let mut bullets: Vec<Bullet> = Vec::new();
    let mut next_id = 0u64;
    let cam = Some(CameraRay {
        position: Vec3Fx { x: 0, y: 0, z: 0 },
        forward: Vec3Fx {
            x: 0,
            y: 0,
            z: -UNIT,
        },
    });
    handle_shooting(&mut bullets, &mut next_id, cam, pressed());
    let id = bullets[0].id;
    let wall_z = bullets[0].position.z - UNIT;
    let dt = 5_000; // 1/200 s
    let mut pos_z = bullets[0].position.z;
    let vel_z = bullets[0].velocity.z;

    // spawn tick: no contact yet
    bullet_collision(&mut bullets, &Vec::new());
    assert_eq!(bullets.len(), 1);

    // first flight tick: the engine integrates and reports the contact
    pos_z += vel_z * dt / UNIT;
    assert!(pos_z <= wall_z);
    let contacts = vec![id];
    bullet_collision(&mut bullets, &contacts);
    assert_eq!(bullets.len(), 0);
}

#[test]
fn contact_cleanup_keeps_untouched_projectiles_in_order() {
    let b = |id: u64| Bullet {
        id,
        position: Vec3Fx { x: 0, y: 0, z: 0 },
        velocity: Vec3Fx { x: 0, y: 0, z: 0 },
    };
    let mut bullets = vec![b(1), b(2), b(3)];
    let contacts = vec![2];
    bullet_collision(&mut bullets, &contacts);
    assert_eq!(bullets.len(), 2);
    assert_eq!(bullets[0].id, 1);
    assert_eq!(bullets[1].id, 3);
}

// --- the full tick ---

#[test]
fn fire_held_across_ticks_spawns_exactly_once() {
    let mut session = Session::start(1);
    let mut tin = quiet_tick_input();
    tin.input.fire = pressed();
    tick(&mut session, &tin);
    assert_eq!(session.bullets.len(), 1);
    tin.input.fire = held();
    for _ in 0..10 {
        tick(&mut session, &tin);
    }
    assert_eq!(session.bullets.len(), 1);
}

#[test]
fn menu_mode_gates_movement_look_and_fire() {
    let mut session = Session::start(1);

    // open the menu
    let mut tab = quiet_tick_input();
    tab.input.toggle = pressed();
    tick(&mut session, &tab);
    let mut tin = quiet_tick_input();
    tick(&mut session, &tin);
    assert_eq!(session.mode.state, GameState::MenuOpen);
    assert!(session.menu.visible);
    assert_eq!(session.cursor.grab, CursorGrab::Released);

    // held keys, mouse motion and fire do nothing while the menu is up
    tin.input.forward = true;
    tin.input.fire = pressed();
    tin.mouse_events = vec![MouseDelta { x: UNIT, y: UNIT }];
    tick(&mut session, &tin);
    assert_eq!(
        session.controller.movement_direction,
        Vec3Fx { x: 0, y: 0, z: 0 }
    );
    assert_eq!(session.camera.yaw, 0);
    assert_eq!(session.bullets.len(), 0);

    // close it again: input is live once the transition applies
    let mut tab2 = quiet_tick_input();
    tab2.input.toggle = pressed();
    tick(&mut session, &tab2);
    let mut walk = quiet_tick_input();
    walk.input.forward = true;
    tick(&mut session, &walk);
    assert_eq!(session.mode.state, GameState::FirstPerson);
    assert_eq!(session.cursor.grab, CursorGrab::Locked);
    assert_eq!(
        session.controller.movement_direction,
        Vec3Fx {
            x: 0,
            y: 0,
            z: -UNIT
        }
    );
}

#[test]
fn tick_applies_jump_only_on_the_grounded_rising_edge() {
    let mut session = Session::start(1);
    let mut tin = quiet_tick_input();
    tin.world = vec![flat_hit(7, 550_000)];
    tin.input.jump = pressed();
    let impulse = tick(&mut session, &tin);
    assert_eq!(impulse.y, 100_000_000);

    // held jump on later ticks: no further impulse
    tin.input.jump = held();
    let impulse = tick(&mut session, &tin);
    assert_eq!(impulse.y, 0);

    // airborne rising edge: nothing
    let mut session = Session::start(1);
    let mut tin = quiet_tick_input();
    tin.input.jump = pressed();
    let impulse = tick(&mut session, &tin);
    assert_eq!(impulse.y, 0);
}

#[test]
fn walking_accelerates_toward_the_camera_relative_target() {
    let mut session = Session::start(1);
    let mut tin = quiet_tick_input();
    tin.world = vec![flat_hit(7, 550_000)];
    tin.input.forward = true;
    let impulse = tick(&mut session, &tin);
    // target -5 u/s on z, smoothing covers 0.83335 of the gap
    assert_eq!(
        session.controller.last_target_velocity,
        Vec3Fx {
            x: 0,
            y: 0,
            z: -4_166_750
        }
    );
    assert_eq!(impulse.z, -4_166_750);
    assert_eq!(impulse.x, 0);
    assert_eq!(impulse.y, 0);
}

#[test]
fn session_starts_in_first_person_with_captured_pointer() {
    let session = Session::start(42);
    assert_eq!(session.mode.state, GameState::FirstPerson);
    assert_eq!(session.cursor.grab, CursorGrab::Locked);
    assert!(!session.cursor.visible);
    assert!(!session.menu.visible);
    assert_eq!(session.next_bullet_id, 0);
    assert_eq!(session.self_entity, 42);
}

#[test]
fn menu_model_starts_hidden_and_follows_show_hide() {
    let mut menu: Menu = create_menu();
    assert!(!menu.visible);
    working_title::state::show_menu(&mut menu);
    assert!(menu.visible);
    working_title::state::hide_menu(&mut menu);
    assert!(!menu.visible);
}
