//! Mouse look: yaw and pitch driven by the tick's queued mouse events.

use vstd::prelude::*;
use vstd::arithmetic::div_mod::lemma_div_is_ordered;
use crate::input::{MouseDelta, WindowSize};
use crate::math::{SCALE, abs, trunc_div, div_trunc_i128, euclid_mod_i128};
use crate::motion::PlayerController;

verus! {

/// Half turn in fixed-point radians.
pub const PI_FX: i64 = 3_141_593;

/// Full turn in fixed-point radians.
pub const TAU_FX: i64 = 6_283_186;

/// Pitch clamp bound: 1.54 radians, just shy of a quarter turn, so the
/// view never flips past vertical.
pub const PITCH_LIMIT_FX: i64 = 1_540_000;

/// Mouse sensitivity: 0.0002 in fixed point.
pub const MOUSE_RATIO_FX: i64 = 200;

/// Degrees-to-radians factor in fixed point.
pub const DEG_TO_RAD_FX: i64 = 17_453;

/// Camera orientation: yaw about the up axis composed outside pitch
/// about the yawed right axis, so pitch stays relative to the yawed
/// frame and the camera never rolls.
#[derive(Clone, Copy, PartialEq, Eq, Structural, Debug)]
pub struct PlayerCam {
    pub yaw: i64,
    pub pitch: i64,
}

/// A well-formed orientation: yaw wrapped to a half turn either way,
/// pitch inside the clamp band.
pub open spec fn cam_wf(c: PlayerCam) -> bool {
    &&& -(PI_FX as int) < c.yaw <= PI_FX
    &&& -(PITCH_LIMIT_FX as int) <= c.pitch <= PITCH_LIMIT_FX
}

impl PlayerCam {
    /// A camera looking straight ahead.
    pub fn level() -> (r: PlayerCam)
        ensures
            r == (PlayerCam { yaw: 0i64, pitch: 0i64 }),
    {
        PlayerCam { yaw: 0, pitch: 0 }
    }
}

/// Clamp to a closed interval.
pub open spec fn clamp_i(a: int, lo: int, hi: int) -> int {
    if a < lo {
        lo
    } else if a > hi {
        hi
    } else {
        a
    }
}

/// The angle congruent to `a` in the half-open turn `(-PI_FX, PI_FX]`.
pub open spec fn wrap_angle(a: int) -> int {
    PI_FX - ((PI_FX - a) % (TAU_FX as int))
}

/// One mouse event's angular step: the raw delta scaled by the
/// sensitivity ratio and the window's smaller dimension in pixels,
/// read as degrees and converted to radians.
pub open spec fn look_step_angle(d: int, w: int) -> int {
    trunc_div(
        trunc_div(d * MOUSE_RATIO_FX, SCALE as int) * w * (DEG_TO_RAD_FX as int),
        SCALE as int,
    )
}

/// Orientation after one mouse event: both angles decrease by the
/// event's scaled delta; yaw wraps around the full turn, pitch clamps.
pub open spec fn look_step(c: PlayerCam, d: MouseDelta, w: int) -> PlayerCam {
    PlayerCam {
        yaw: wrap_angle(c.yaw - look_step_angle(d.x as int, w)) as i64,
        pitch: clamp_i(
            c.pitch - look_step_angle(d.y as int, w),
            -(PITCH_LIMIT_FX as int),
            PITCH_LIMIT_FX as int,
        ) as i64,
    }
}

/// Orientation after a queue of events, applied in arrival order.
pub open spec fn look_fold(c: PlayerCam, events: Seq<MouseDelta>, w: int) -> PlayerCam
    decreases events.len(),
{
    if events.len() == 0 {
        c
    } else {
        look_fold(look_step(c, events[0], w), events.subrange(1, events.len() as int), w)
    }
}

/// Folding one more event steps the folded orientation once more.
proof fn lemma_fold_push(c: PlayerCam, events: Seq<MouseDelta>, e: MouseDelta, w: int)
    ensures
        look_fold(c, events.push(e), w) == look_step(look_fold(c, events, w), e, w),
    decreases events.len(),
{
    if events.len() == 0 {
        assert(events.push(e)[0] == e);
        assert(events.push(e).subrange(1, 1) =~= Seq::<MouseDelta>::empty());
        assert(look_fold(c, events.push(e), w) == look_fold(
            look_step(c, e, w),
            Seq::<MouseDelta>::empty(),
            w,
        ));
        assert(look_fold(look_step(c, e, w), Seq::<MouseDelta>::empty(), w) == look_step(
            c,
            e,
            w,
        ));
        assert(look_fold(c, events, w) == c);
    } else {
        assert(events.push(e)[0] == events[0]);
        assert(events.push(e).subrange(1, events.len() as int + 1) =~= events.subrange(
            1,
            events.len() as int,
        ).push(e));
        lemma_fold_push(look_step(c, events[0], w), events.subrange(1, events.len() as int), e, w);
        assert(look_fold(c, events.push(e), w) == look_fold(
            look_step(c, events[0], w),
            events.subrange(1, events.len() as int).push(e),
            w,
        ));
        assert(look_fold(c, events, w) == look_fold(
            look_step(c, events[0], w),
            events.subrange(1, events.len() as int),
            w,
        ));
    }
}

/// However extreme the raw deltas, the folded pitch never leaves the
/// clamp band, and the folded yaw never leaves the half-turn range: one
/// event is enough to pull even an out-of-range start back inside.
pub proof fn lemma_orientation_always_clamped(c: PlayerCam, events: Seq<MouseDelta>, w: int)
    ensures
        cam_wf(c) ==> cam_wf(look_fold(c, events, w)),
        events.len() > 0 ==> cam_wf(look_fold(c, events, w)),
    decreases events.len(),
{
    if events.len() > 0 {
        let c1 = look_step(c, events[0], w);
        vstd::arithmetic::div_mod::lemma_mod_bound(
            PI_FX - (c.yaw - look_step_angle(events[0].x as int, w)),
            TAU_FX as int,
        );
        lemma_orientation_always_clamped(c1, events.subrange(1, events.len() as int), w);
    }
}

/// The scaled angular step of one raw mouse delta component.
fn step_angle(d: i64, w: u32) -> (r: i128)
    ensures
        r == look_step_angle(d as int, w as int),
        abs(r as int) <= 200_000_000_000_000_000_000_000_000_000,
{
    let t1: i128 = div_trunc_i128((d as i128) * 200, SCALE as i128);
    let wi: i128 = w as i128;
    proof {
        assert(abs(t1 * wi) <= 10_000_000_000_000_000_000_000_000_000_000) by (nonlinear_arith)
            requires
                abs(t1 as int) <= 2_000_000_000_000_000_000_000,
                0 <= wi <= 5_000_000_000,
        ;
    }
    let t2: i128 = t1 * wi;
    proof {
        assert(abs(t2 * (DEG_TO_RAD_FX as i128)) <= 200_000_000_000_000_000_000_000_000_000_000_000)
            by (nonlinear_arith)
            requires
                abs(t2 as int) <= 10_000_000_000_000_000_000_000_000_000_000,
                DEG_TO_RAD_FX as i128 == 17_453,
        ;
    }
    let t3: i128 = div_trunc_i128(t2 * (DEG_TO_RAD_FX as i128), SCALE as i128);
    proof {
        lemma_div_is_ordered(
            abs((t2 * (DEG_TO_RAD_FX as i128)) as int),
            200_000_000_000_000_000_000_000_000_000_000_000,
            SCALE as int,
        );
    }
    t3
}

/// Wrap the yaw after subtracting one angular step.
fn yaw_step(yaw: i64, step: i128) -> (r: i64)
    requires
        abs(step as int) <= 200_000_000_000_000_000_000_000_000_000,
    ensures
        r == wrap_angle(yaw - step),
        -(PI_FX as int) < r <= PI_FX,
{
    let t: i128 = (PI_FX as i128) - ((yaw as i128) - step);
    let m: i128 = euclid_mod_i128(t, TAU_FX as i128);
    ((PI_FX as i128) - m) as i64
}

/// Clamp the pitch after subtracting one angular step.
fn pitch_step(pitch: i64, step: i128) -> (r: i64)
    requires
        abs(step as int) <= 200_000_000_000_000_000_000_000_000_000,
    ensures
        r == clamp_i(pitch - step, -(PITCH_LIMIT_FX as int), PITCH_LIMIT_FX as int),
        -(PITCH_LIMIT_FX as int) <= r <= PITCH_LIMIT_FX,
{
    let p: i128 = (pitch as i128) - step;
    if p < -(PITCH_LIMIT_FX as i128) {
        -PITCH_LIMIT_FX
    } else if p > PITCH_LIMIT_FX as i128 {
        PITCH_LIMIT_FX
    } else {
        p as i64
    }
}

/// Drain the tick's mouse events in arrival order, updating the camera
/// and mirroring the orientation onto the controller for other systems
/// to read. Skips everything when no window is available this tick.
pub fn handle_mouse(
    camera: &mut PlayerCam,
    controller: &mut PlayerController,
    window: Option<WindowSize>,
    events: &Vec<MouseDelta>,
)
    ensures
        window is None ==> *final(camera) == *old(camera) && *final(controller) == *old(
            controller,
        ),
        window matches Some(ws) ==> {
            &&& *final(camera) == look_fold(*old(camera), events@, min_dim(ws) as int)
            &&& *final(controller) == (PlayerController {
                camera_yaw: final(camera).yaw,
                camera_pitch: final(camera).pitch,
                ..*old(controller)
            })
        },
        cam_wf(*old(camera)) ==> cam_wf(*final(camera)),
{
    match window {
        None => {},
        Some(ws) => {
            let w: u32 = if ws.height < ws.width {
                ws.height
            } else {
                ws.width
            };
            let ghost c0 = *camera;
            let n = events.len();
            let mut i: usize = 0;
            while i < n
                invariant
                    i <= n,
                    n == events.len(),
                    *camera == look_fold(c0, events@.subrange(0, i as int), w as int),
                decreases n - i,
            {
                let e = events[i];
                let sy: i128 = step_angle(e.x, w);
                let sp: i128 = step_angle(e.y, w);
                camera.yaw = yaw_step(camera.yaw, sy);
                camera.pitch = pitch_step(camera.pitch, sp);
                proof {
                    assert(events@.subrange(0, i + 1) =~= events@.subrange(0, i as int).push(e));
                    lemma_fold_push(c0, events@.subrange(0, i as int), e, w as int);
                }
                i = i + 1;
            }
            proof {
                assert(events@.subrange(0, n as int) =~= events@);
                lemma_orientation_always_clamped(c0, events@, w as int);
            }
            controller.camera_yaw = camera.yaw;
            controller.camera_pitch = camera.pitch;
        },
    }
}

/// The camera orientation one tick's mouse queue produces: the folded
/// events when a window is available, the unchanged orientation when
/// not.
pub open spec fn spec_handle_mouse(
    cam: PlayerCam,
    window: Option<WindowSize>,
    events: Seq<MouseDelta>,
) -> PlayerCam {
    match window {
        Some(ws) => look_fold(cam, events, min_dim(ws)),
        None => cam,
    }
}

/// The smaller window dimension, the sensitivity scale factor.
pub open spec fn min_dim(ws: WindowSize) -> int {
    if ws.height < ws.width {
        ws.height as int
    } else {
        ws.width as int
    }
}

} // verus!
