//! Movement: camera-relative input direction, smoothed target velocity,
//! corrective impulse and ground-aware jumping.

use vstd::prelude::*;
use crate::input::InputSnapshot;
use crate::math::{SCALE, COORD_LIMIT, Vec3Fx, abs, mul_fx, trunc_div, sqrt_up, lerp_fx, len2, vec3_of, vec_bounded,
    lerp_vec, clamp_length_max, mul_fx_exec, lemma_mul_fx_bound, lemma_abs_sq, lemma_sq_le,
    lemma_mul_frac_le};
use crate::ground::{CastHit, world_wf, spec_grounded, probe_ground};

verus! {

/// Top speed a single held direction reaches, in units per second.
pub const MAX_SPEED_FX: i64 = 5_000_000;

/// Acceleration constant scaling how fast the smoothed target follows
/// the requested velocity.
pub const ACCEL_FX: i64 = 50_000_000;

/// Cap on the magnitude of one tick's corrective impulse.
pub const MAX_ACCEL_FORCE_FX: i64 = 10_000_000;

/// Fixed upward impulse of one jump.
pub const JUMP_IMPULSE_FX: i64 = 100_000_000;

/// Bound kept on movement-direction components: four unit-length
/// contributions at most.
pub const DIRECTION_LIMIT: i64 = 8_000_000;

/// Bound kept on the persisted smoothed target velocity.
pub const TARGET_LIMIT: i64 = 50_000_000;

/// Bound asked of each horizontal component of a camera basis vector:
/// the collaborator hands in unit vectors, so anything near one unit
/// is fine.
pub const BASIS_LIMIT: i64 = 2_000_000;

/// The player-controlled body's per-tick input accumulators and the
/// smoothing state that persists across ticks.
#[derive(Clone, Copy, PartialEq, Eq, Structural, Debug)]
pub struct PlayerController {
    /// Sum of the camera-relative contributions of the held movement
    /// keys this tick; reset at the start of every tick. Deliberately
    /// not normalized: diagonal input is faster than axis-aligned
    /// input, an observable behavior that is kept.
    pub movement_direction: Vec3Fx,
    /// Whether a jump was requested this tick (edge-triggered).
    pub jumping: bool,
    /// The smoothed target velocity persisted from the previous tick.
    pub last_target_velocity: Vec3Fx,
    /// Mirror of the camera's yaw, for other systems to read.
    pub camera_yaw: i64,
    /// Mirror of the camera's pitch, for other systems to read.
    pub camera_pitch: i64,
}

/// Bounds every tick re-establishes on the controller.
pub open spec fn controller_wf(c: PlayerController) -> bool {
    &&& vec_bounded(c.movement_direction, DIRECTION_LIMIT as int)
    &&& vec_bounded(c.last_target_velocity, TARGET_LIMIT as int)
}

impl Default for PlayerController {
    /// A fresh controller: no input, no motion, level mirror.
    fn default() -> (r: PlayerController)
        ensures
            r == PlayerController::spec_default(),
    {
        PlayerController {
            movement_direction: Vec3Fx { x: 0, y: 0, z: 0 },
            jumping: false,
            last_target_velocity: Vec3Fx { x: 0, y: 0, z: 0 },
            camera_yaw: 0,
            camera_pitch: 0,
        }
    }
}

impl PlayerController {
    pub open spec fn spec_default() -> PlayerController {
        PlayerController {
            movement_direction: Vec3Fx { x: 0, y: 0, z: 0 },
            jumping: false,
            last_target_velocity: Vec3Fx { x: 0, y: 0, z: 0 },
            camera_yaw: 0,
            camera_pitch: 0,
        }
    }
}

/// Clear the per-tick input accumulators; everything else persists.
pub fn reset_movement_input(controller: &mut PlayerController)
    ensures
        *final(controller) == (PlayerController {
            movement_direction: Vec3Fx { x: 0, y: 0, z: 0 },
            jumping: false,
            ..*old(controller)
        }),
{
    controller.movement_direction = Vec3Fx { x: 0, y: 0, z: 0 };
    controller.jumping = false;
}

/// The horizontal camera frame the movement keys are read in: unit
/// vectors along the camera's flattened look direction and its right,
/// computed from the camera orientation by the collaborator that owns
/// the trigonometry. Absent when no camera exists this tick.
#[derive(Clone, Copy, PartialEq, Eq, Structural, Debug)]
pub struct CameraBasis {
    pub forward: Vec3Fx,
    pub right: Vec3Fx,
}

/// A frame the movement keys may be read in: flattened to the
/// horizontal plane — vertical motion is never driven by key input —
/// with every component near unit length.
pub open spec fn basis_wf(b: CameraBasis) -> bool {
    &&& vec_bounded(b.forward, BASIS_LIMIT as int)
    &&& vec_bounded(b.right, BASIS_LIMIT as int)
    &&& b.forward.y == 0
    &&& b.right.y == 0
}

/// The forward frame vector, or zero without a camera.
pub open spec fn basis_forward(basis: Option<CameraBasis>) -> Vec3Fx {
    match basis {
        Some(b) => b.forward,
        None => Vec3Fx { x: 0, y: 0, z: 0 },
    }
}

/// The right frame vector, or zero without a camera.
pub open spec fn basis_right(basis: Option<CameraBasis>) -> Vec3Fx {
    match basis {
        Some(b) => b.right,
        None => Vec3Fx { x: 0, y: 0, z: 0 },
    }
}

/// What the held keys add to the movement direction along one axis:
/// one forward-frame contribution per held key of the opposed pair, and
/// likewise for the right frame.
pub open spec fn direction_delta(input: InputSnapshot, f: int, r: int) -> int {
    (if input.forward {
        f
    } else {
        0int
    }) - (if input.back {
        f
    } else {
        0int
    }) + (if input.right {
        r
    } else {
        0int
    }) - (if input.left {
        r
    } else {
        0int
    })
}

/// Accumulate the held movement keys into the controller's direction,
/// in the camera-relative horizontal frame, and latch a jump request on
/// the jump key's rising edge. Without a camera the frame degrades to
/// zero vectors and only the jump latch can change.
pub fn handle_movement_input(
    controller: &mut PlayerController,
    basis: Option<CameraBasis>,
    input: &InputSnapshot,
)
    requires
        vec_bounded(old(controller).movement_direction, 4_000_000int),
        basis matches Some(b) ==> basis_wf(b),
    ensures
        ({
            let f = basis_forward(basis);
            let r = basis_right(basis);
            let d0 = old(controller).movement_direction;
            let d1 = final(controller).movement_direction;
            &&& d1.x == d0.x + direction_delta(*input, f.x as int, r.x as int)
            &&& d1.y == d0.y + direction_delta(*input, f.y as int, r.y as int)
            &&& d1.z == d0.z + direction_delta(*input, f.z as int, r.z as int)
        }),
        final(controller).jumping == (old(controller).jumping
            || input.jump.spec_just_pressed()),
        final(controller).last_target_velocity == old(controller).last_target_velocity,
        final(controller).camera_yaw == old(controller).camera_yaw,
        final(controller).camera_pitch == old(controller).camera_pitch,
        vec_bounded(final(controller).movement_direction, DIRECTION_LIMIT as int),
        // the frame is horizontal, so key input never adds a vertical part
        old(controller).movement_direction.y == 0 ==> final(controller).movement_direction.y == 0,
{
    let (forward, right) = match basis {
        Some(b) => (b.forward, b.right),
        None => (Vec3Fx { x: 0, y: 0, z: 0 }, Vec3Fx { x: 0, y: 0, z: 0 }),
    };

    if input.forward {
        controller.movement_direction = controller.movement_direction.plus(forward);
    }
    if input.back {
        controller.movement_direction = controller.movement_direction.minus(forward);
    }
    if input.right {
        controller.movement_direction = controller.movement_direction.plus(right);
    }
    if input.left {
        controller.movement_direction = controller.movement_direction.minus(right);
    }
    if input.jump.just_pressed() {
        controller.jumping = true;
    }
}

/// The fraction of the gap to the requested velocity covered this tick:
/// the acceleration constant times the tick span, capped at one.
pub open spec fn smoothing_fraction(dt: int) -> int {
    let t = mul_fx(ACCEL_FX as int, dt);
    if t > SCALE {
        SCALE as int
    } else {
        t
    }
}

/// The velocity the held keys request: top speed along the accumulated
/// direction. A diagonal direction requests more than top speed; that
/// asymmetry is observable behavior and is kept.
pub open spec fn spec_target_velocity(c: PlayerController) -> Vec3Fx {
    vec3_of(
        mul_fx(c.movement_direction.x as int, MAX_SPEED_FX as int),
        mul_fx(c.movement_direction.y as int, MAX_SPEED_FX as int),
        mul_fx(c.movement_direction.z as int, MAX_SPEED_FX as int),
    )
}

/// The smoothed target velocity after one tick of span `dt`.
pub open spec fn spec_smoothed(c: PlayerController, dt: int) -> Vec3Fx {
    let tv = spec_target_velocity(c);
    let t = smoothing_fraction(dt);
    vec3_of(
        lerp_fx(c.last_target_velocity.x as int, tv.x as int, t),
        lerp_fx(c.last_target_velocity.y as int, tv.y as int, t),
        lerp_fx(c.last_target_velocity.z as int, tv.z as int, t),
    )
}

/// With no keys held the requested velocity is zero, and one smoothing
/// step moves the persisted target toward zero without overshooting:
/// every component keeps its sign and shrinks in magnitude, the squared
/// magnitude never grows, and a full-strength step (acceleration times
/// the tick span reaching one) lands exactly on zero.
pub proof fn lemma_smoothing_converges(prev: Vec3Fx, t: int)
    requires
        0 <= t <= SCALE,
    ensures
        ({
            let nx = lerp_fx(prev.x as int, 0, t);
            let ny = lerp_fx(prev.y as int, 0, t);
            let nz = lerp_fx(prev.z as int, 0, t);
            &&& abs(nx) <= abs(prev.x as int)
            &&& abs(ny) <= abs(prev.y as int)
            &&& abs(nz) <= abs(prev.z as int)
            &&& (prev.x >= 0 ==> 0 <= nx <= prev.x)
            &&& (prev.x <= 0 ==> prev.x <= nx <= 0)
            &&& (prev.y >= 0 ==> 0 <= ny <= prev.y)
            &&& (prev.y <= 0 ==> prev.y <= ny <= 0)
            &&& (prev.z >= 0 ==> 0 <= nz <= prev.z)
            &&& (prev.z <= 0 ==> prev.z <= nz <= 0)
            &&& len2(nx, ny, nz) <= prev.spec_len2()
            &&& (t == SCALE ==> nx == 0 && ny == 0 && nz == 0)
        }),
{
    lemma_mul_frac_le(0 - prev.x, t);
    lemma_mul_frac_le(0 - prev.y, t);
    lemma_mul_frac_le(0 - prev.z, t);
    let nx = lerp_fx(prev.x as int, 0, t);
    let ny = lerp_fx(prev.y as int, 0, t);
    let nz = lerp_fx(prev.z as int, 0, t);
    lemma_abs_sq(nx);
    lemma_abs_sq(ny);
    lemma_abs_sq(nz);
    lemma_abs_sq(prev.x as int);
    lemma_abs_sq(prev.y as int);
    lemma_abs_sq(prev.z as int);
    lemma_sq_le(abs(nx), abs(prev.x as int));
    lemma_sq_le(abs(ny), abs(prev.y as int));
    lemma_sq_le(abs(nz), abs(prev.z as int));
}

/// With no held movement keys the requested velocity is zero, so the
/// smoothed target a tick persists decays monotonically in magnitude,
/// component signs kept, with no overshoot; and once the acceleration
/// constant times the tick span reaches one, it lands exactly on zero.
pub proof fn lemma_idle_smoothing_decays(c: PlayerController, dt: int)
    requires
        c.movement_direction == (Vec3Fx { x: 0, y: 0, z: 0 }),
        controller_wf(c),
        0 <= dt <= COORD_LIMIT,
    ensures
        ({
            let s = spec_smoothed(c, dt);
            let prev = c.last_target_velocity;
            &&& abs(s.x as int) <= abs(prev.x as int)
            &&& abs(s.y as int) <= abs(prev.y as int)
            &&& abs(s.z as int) <= abs(prev.z as int)
            &&& s.x * prev.x >= 0
            &&& s.y * prev.y >= 0
            &&& s.z * prev.z >= 0
            &&& s.spec_len2() <= prev.spec_len2()
            &&& (smoothing_fraction(dt) == SCALE ==> s == (Vec3Fx { x: 0, y: 0, z: 0 }))
        }),
{
    let prev = c.last_target_velocity;
    let t = smoothing_fraction(dt);
    lemma_mul_fx_bound(ACCEL_FX as int, dt, ACCEL_FX as int, COORD_LIMIT as int);
    assert(spec_target_velocity(c) == (Vec3Fx { x: 0, y: 0, z: 0 })) by {
        assert(mul_fx(0, MAX_SPEED_FX as int) == 0) by {
            assert(0int * (MAX_SPEED_FX as int) == 0);
            assert(trunc_div(0, SCALE as int) == 0) by {
                vstd::arithmetic::div_mod::lemma_div_of0(SCALE as int);
            }
        }
    }
    lemma_smoothing_converges(prev, t);
    let s = spec_smoothed(c, dt);
    assert(s.x == lerp_fx(prev.x as int, 0, t));
    assert(s.y == lerp_fx(prev.y as int, 0, t));
    assert(s.z == lerp_fx(prev.z as int, 0, t));
    assert(s.x * prev.x >= 0 && s.y * prev.y >= 0 && s.z * prev.z >= 0) by (nonlinear_arith)
        requires
            (prev.x >= 0 ==> 0 <= s.x <= prev.x) && (prev.x <= 0 ==> prev.x <= s.x <= 0),
            (prev.y >= 0 ==> 0 <= s.y <= prev.y) && (prev.y <= 0 ==> prev.y <= s.y <= 0),
            (prev.z >= 0 ==> 0 <= s.z <= prev.z) && (prev.z <= 0 ==> prev.z <= s.z <= 0),
    ;
}

/// One tick of the movement controller: smooth the persisted target
/// toward the requested velocity, add the horizontal corrective impulse
/// (its magnitude clamped, its vertical part dropped), probe the ground
/// and add the jump impulse exactly when the character is grounded and
/// a jump was requested this tick.
pub fn handle_movement_physics(
    controller: &mut PlayerController,
    velocity: Vec3Fx,
    dt: i64,
    world: &Vec<CastHit>,
    self_entity: u64,
    impulse: &mut Vec3Fx,
)
    requires
        world_wf(world@),
        controller_wf(*old(controller)),
        0 <= dt <= COORD_LIMIT,
        vec_bounded(velocity, COORD_LIMIT as int),
        vec_bounded(*old(impulse), COORD_LIMIT as int),
    ensures
        controller_wf(*final(controller)),
        *final(controller) == (PlayerController {
            last_target_velocity: spec_smoothed(*old(controller), dt as int),
            ..*old(controller)
        }),
        // the jump impulse comes exactly when grounded and requested
        final(impulse).y == old(impulse).y + (if spec_grounded(world@, self_entity) && old(
            controller,
        ).jumping {
            JUMP_IMPULSE_FX as int
        } else {
            0int
        }),
        // the horizontal impulse approaches the smoothed target, clamped
        ({
            let s = spec_smoothed(*old(controller), dt as int);
            let dvx = s.x - velocity.x;
            let dvy = s.y - velocity.y;
            let dvz = s.z - velocity.z;
            let ix = final(impulse).x - old(impulse).x;
            let iz = final(impulse).z - old(impulse).z;
            &&& (len2(dvx, dvy, dvz) <= MAX_ACCEL_FORCE_FX * MAX_ACCEL_FORCE_FX ==> ix == dvx
                && iz == dvz)
            &&& (len2(dvx, dvy, dvz) > MAX_ACCEL_FORCE_FX * MAX_ACCEL_FORCE_FX ==> ({
                let sq = sqrt_up(len2(dvx, dvy, dvz));
                ix == trunc_div(dvx * MAX_ACCEL_FORCE_FX, sq) && iz == trunc_div(
                    dvz * MAX_ACCEL_FORCE_FX,
                    sq,
                )
            }))
            &&& len2(ix, 0, iz) <= MAX_ACCEL_FORCE_FX * MAX_ACCEL_FORCE_FX
            &&& abs(ix) <= abs(dvx)
            &&& abs(iz) <= abs(dvz)
            &&& ix * dvx >= 0
            &&& iz * dvz >= 0
        }),
{
    let target = controller.movement_direction.scaled(MAX_SPEED_FX);
    proof {
        lemma_mul_fx_bound(
            controller.movement_direction.x as int,
            MAX_SPEED_FX as int,
            DIRECTION_LIMIT as int,
            MAX_SPEED_FX as int,
        );
        lemma_mul_fx_bound(
            controller.movement_direction.y as int,
            MAX_SPEED_FX as int,
            DIRECTION_LIMIT as int,
            MAX_SPEED_FX as int,
        );
        lemma_mul_fx_bound(
            controller.movement_direction.z as int,
            MAX_SPEED_FX as int,
            DIRECTION_LIMIT as int,
            MAX_SPEED_FX as int,
        );
        lemma_mul_fx_bound(ACCEL_FX as int, dt as int, ACCEL_FX as int, COORD_LIMIT as int);
    }
    let t_raw = mul_fx_exec(ACCEL_FX, dt);
    let t = if t_raw > SCALE {
        SCALE
    } else {
        t_raw
    };
    let smoothed = lerp_vec(controller.last_target_velocity, target, t);
    let diff = smoothed.minus(velocity);
    let needed = clamp_length_max(diff, MAX_ACCEL_FORCE_FX);
    proof {
        lemma_abs_sq(needed.y as int);
    }
    impulse.x = impulse.x + needed.x;
    impulse.z = impulse.z + needed.z;
    let grounded = probe_ground(world, self_entity);
    if grounded && controller.jumping {
        impulse.y = impulse.y + JUMP_IMPULSE_FX;
    }
    controller.last_target_velocity = smoothed;
}

} // verus!
