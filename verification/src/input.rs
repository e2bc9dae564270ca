//! Per-tick input snapshots handed in by the windowing collaborator.

use vstd::prelude::*;

verus! {

/// A button's level this tick and on the previous tick, for edge detection.
#[derive(Clone, Copy, PartialEq, Eq, Structural, Debug)]
pub struct ButtonState {
    pub down: bool,
    pub was_down: bool,
}

impl ButtonState {
    /// True exactly on the tick the button goes from released to pressed.
    pub open spec fn spec_just_pressed(self) -> bool {
        self.down && !self.was_down
    }

    pub fn just_pressed(self) -> (r: bool)
        ensures
            r == self.spec_just_pressed(),
    {
        self.down && !self.was_down
    }

    /// A button that is neither down now nor was down before.
    pub fn released() -> (r: ButtonState)
        ensures
            r == (ButtonState { down: false, was_down: false }),
    {
        ButtonState { down: false, was_down: false }
    }
}

/// Snapshot of every key and button the controller reads in one tick.
#[derive(Clone, Copy, PartialEq, Eq, Structural, Debug)]
pub struct InputSnapshot {
    /// Forward movement key held.
    pub forward: bool,
    /// Backward movement key held.
    pub back: bool,
    /// Strafe-right movement key held.
    pub right: bool,
    /// Strafe-left movement key held.
    pub left: bool,
    /// Jump key, edge-triggered.
    pub jump: ButtonState,
    /// Mode-toggle key, edge-triggered.
    pub toggle: ButtonState,
    /// Fire trigger, edge-triggered.
    pub fire: ButtonState,
}

impl InputSnapshot {
    /// A snapshot with nothing held and nothing pressed.
    pub fn idle() -> (r: InputSnapshot)
        ensures
            r == InputSnapshot::spec_idle(),
    {
        InputSnapshot {
            forward: false,
            back: false,
            right: false,
            left: false,
            jump: ButtonState::released(),
            toggle: ButtonState::released(),
            fire: ButtonState::released(),
        }
    }

    pub open spec fn spec_idle() -> InputSnapshot {
        InputSnapshot {
            forward: false,
            back: false,
            right: false,
            left: false,
            jump: ButtonState { down: false, was_down: false },
            toggle: ButtonState { down: false, was_down: false },
            fire: ButtonState { down: false, was_down: false },
        }
    }
}

/// One mouse movement event, in fixed-point screen units. Events are
/// queued per tick and must be drained in arrival order.
#[derive(Clone, Copy, PartialEq, Eq, Structural, Debug)]
pub struct MouseDelta {
    pub x: i64,
    pub y: i64,
}

/// The window's client area in pixels, read each tick for sensitivity
/// scaling. Absent when no window is available.
#[derive(Clone, Copy, PartialEq, Eq, Structural, Debug)]
pub struct WindowSize {
    pub width: u32,
    pub height: u32,
}

} // verus!
