//! The two-state mode switch, and the pointer and menu state it drives.

use vstd::prelude::*;
use crate::input::InputSnapshot;

verus! {

/// The two top-level modes: controller input live, or menu shown.
#[derive(Clone, Copy, PartialEq, Eq, Structural, Debug)]
pub enum GameState {
    FirstPerson,
    MenuOpen,
}

impl Default for GameState {
    /// A session starts in first person.
    fn default() -> (r: GameState)
        ensures
            r == GameState::FirstPerson,
    {
        GameState::FirstPerson
    }
}

/// The mode the toggle key switches to from `s`.
pub open spec fn other_mode(s: GameState) -> GameState {
    match s {
        GameState::FirstPerson => GameState::MenuOpen,
        GameState::MenuOpen => GameState::FirstPerson,
    }
}

/// How the window holds the pointer.
#[derive(Clone, Copy, PartialEq, Eq, Structural, Debug)]
pub enum CursorGrab {
    Locked,
    Released,
}

/// Model of the pointer state; the window collaborator applies it.
#[derive(Clone, Copy, PartialEq, Eq, Structural, Debug)]
pub struct CursorView {
    pub grab: CursorGrab,
    pub visible: bool,
}

/// Model of the menu surface; the UI collaborator applies it.
#[derive(Clone, Copy, PartialEq, Eq, Structural, Debug)]
pub struct Menu {
    pub visible: bool,
}

/// The pointer state each mode demands on entry: confined and hidden in
/// first person, free and visible over the menu.
pub open spec fn cursor_for(s: GameState) -> CursorView {
    match s {
        GameState::FirstPerson => CursorView { grab: CursorGrab::Locked, visible: false },
        GameState::MenuOpen => CursorView { grab: CursorGrab::Released, visible: true },
    }
}

/// Whether the menu surface is shown in mode `s`.
pub open spec fn menu_shown_for(s: GameState) -> bool {
    s is MenuOpen
}

/// The menu starts hidden.
pub fn create_menu() -> (m: Menu)
    ensures
        !m.visible,
{
    Menu { visible: false }
}

pub fn show_menu(menu: &mut Menu)
    ensures
        final(menu).visible,
{
    menu.visible = true;
}

pub fn hide_menu(menu: &mut Menu)
    ensures
        !final(menu).visible,
{
    menu.visible = false;
}

/// Confine and hide the pointer, as first person demands.
pub fn grab_cursor(cursor: &mut CursorView)
    ensures
        *final(cursor) == cursor_for(GameState::FirstPerson),
{
    cursor.grab = CursorGrab::Locked;
    cursor.visible = false;
}

/// Release and show the pointer, as the menu demands.
pub fn release_cursor(cursor: &mut CursorView)
    ensures
        *final(cursor) == cursor_for(GameState::MenuOpen),
{
    cursor.grab = CursorGrab::Released;
    cursor.visible = true;
}

/// Mode state, with at most one pending transition request per tick.
#[derive(Clone, Copy, PartialEq, Eq, Debug)]
pub struct ModeSwitch {
    pub state: GameState,
    pub pending: Option<GameState>,
}

impl ModeSwitch {
    /// A fresh switch: first person, nothing requested.
    pub fn start() -> (r: ModeSwitch)
        ensures
            r.state == GameState::FirstPerson,
            r.pending is None,
    {
        ModeSwitch { state: GameState::FirstPerson, pending: None }
    }
}

/// Effect of reading one toggle source: on a rising edge the switch to
/// the other mode is requested; otherwise nothing changes. Repeating the
/// same request within a tick leaves the same single request pending.
pub open spec fn spec_request_toggle(m: ModeSwitch, edge: bool) -> ModeSwitch {
    if edge {
        ModeSwitch { state: m.state, pending: Some(other_mode(m.state)) }
    } else {
        m
    }
}

/// The toggle source read while in first person: a rising edge of the
/// toggle key requests the menu.
pub fn handle_other_input(mode: &mut ModeSwitch, input: &InputSnapshot)
    requires
        old(mode).state == GameState::FirstPerson,
    ensures
        *final(mode) == spec_request_toggle(*old(mode), input.toggle.spec_just_pressed()),
{
    if input.toggle.just_pressed() {
        mode.pending = Some(GameState::MenuOpen);
    }
}

/// The toggle source read while the menu is open: a rising edge of the
/// toggle key requests first person again.
pub fn handle_input(mode: &mut ModeSwitch, input: &InputSnapshot)
    requires
        old(mode).state == GameState::MenuOpen,
    ensures
        *final(mode) == spec_request_toggle(*old(mode), input.toggle.spec_just_pressed()),
{
    if input.toggle.just_pressed() {
        mode.pending = Some(GameState::FirstPerson);
    }
}

/// Effect of applying a pending request at the start of a tick: at most
/// one transition happens, and entering a mode sets the pointer and the
/// menu surface for that mode. A request for the current mode is dropped
/// without side effects.
pub open spec fn spec_apply_transition(m: ModeSwitch, c: CursorView, menu: Menu) -> (
    ModeSwitch,
    CursorView,
    Menu,
) {
    match m.pending {
        Some(next) => if next != m.state {
            (
                ModeSwitch { state: next, pending: None },
                cursor_for(next),
                Menu { visible: menu_shown_for(next) },
            )
        } else {
            (ModeSwitch { state: m.state, pending: None }, c, menu)
        },
        None => (m, c, menu),
    }
}

/// Apply the pending mode request, driving the pointer and menu models.
pub fn apply_transition(mode: &mut ModeSwitch, cursor: &mut CursorView, menu: &mut Menu)
    ensures
        (*final(mode), *final(cursor), *final(menu)) == spec_apply_transition(
            *old(mode),
            *old(cursor),
            *old(menu),
        ),
{
    match mode.pending {
        Some(next) => {
            if !matches_state(next, mode.state) {
                mode.state = next;
                mode.pending = None;
                match next {
                    GameState::FirstPerson => {
                        grab_cursor(cursor);
                        hide_menu(menu);
                    },
                    GameState::MenuOpen => {
                        release_cursor(cursor);
                        show_menu(menu);
                    },
                }
            } else {
                mode.pending = None;
            }
        },
        None => {},
    }
}

/// Structural comparison of two modes.
fn matches_state(a: GameState, b: GameState) -> (r: bool)
    ensures
        r == (a == b),
{
    match (a, b) {
        (GameState::FirstPerson, GameState::FirstPerson) => true,
        (GameState::MenuOpen, GameState::MenuOpen) => true,
        _ => false,
    }
}

/// Repeated identical toggle input within one tick collapses to a single
/// pending request: reading the same edge twice changes nothing more.
pub proof fn lemma_toggle_idempotent(m: ModeSwitch, edge: bool)
    ensures
        spec_request_toggle(spec_request_toggle(m, edge), edge) == spec_request_toggle(m, edge),
{
}

/// A full toggle round trip is symmetric: from a settled mode, toggling
/// to the other mode and back restores the mode, the pointer-capture
/// state and the menu surface exactly.
pub proof fn lemma_toggle_round_trip(m: ModeSwitch, c: CursorView, menu: Menu)
    requires
        m.pending is None,
        c == cursor_for(m.state),
        menu.visible == menu_shown_for(m.state),
    ensures
        ({
            let (m1, c1, menu1) = spec_apply_transition(spec_request_toggle(m, true), c, menu);
            let (m2, c2, menu2) = spec_apply_transition(spec_request_toggle(m1, true), c1, menu1);
            m2 == m && c2 == c && menu2 == menu
        }),
{
}

} // verus!
