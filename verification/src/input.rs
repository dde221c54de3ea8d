//! The keyboard dispatch step: one key press becomes a movement, a
//! fullscreen toggle, a quit signal, or nothing.
use vstd::prelude::*;

use crate::entity::Entity;
use crate::in_bounds;
use crate::mapgen::GameMap;

verus! {

/// The keys the dispatch step distinguishes. Every key outside this
/// set is `Other` and has no effect.
#[derive(Clone, Copy, Debug, PartialEq, Eq, Structural)]
pub enum KeyCode {
    Up,
    Down,
    Left,
    Right,
    Enter,
    Escape,
    Other,
}

/// One key press: which key, and whether Alt was held.
#[derive(Clone, Copy, Debug, PartialEq, Eq, Structural)]
pub struct KeyPress {
    pub code: KeyCode,
    pub alt: bool,
}

/// The horizontal step a key asks for: one cell left or right for the
/// arrow keys, none for every other key.
pub open spec fn key_dx(code: KeyCode) -> int {
    match code {
        KeyCode::Left => -1,
        KeyCode::Right => 1,
        _ => 0,
    }
}

/// The vertical step a key asks for: one cell up or down for the
/// arrow keys, none for every other key.
pub open spec fn key_dy(code: KeyCode) -> int {
    match code {
        KeyCode::Up => -1,
        KeyCode::Down => 1,
        _ => 0,
    }
}

/// Whether the key press toggles fullscreen: Enter with Alt held.
pub open spec fn toggles_fullscreen(key: KeyPress) -> bool {
    key.code == KeyCode::Enter && key.alt
}

/// The fullscreen flag after the key press: flipped by Alt+Enter,
/// kept by everything else.
pub open spec fn fullscreen_after(key: KeyPress, fullscreen: bool) -> bool {
    if toggles_fullscreen(key) {
        !fullscreen
    } else {
        fullscreen
    }
}

/// Pressing the same key twice leaves the fullscreen flag where it
/// began: Alt+Enter flips it and flips it back, and no other key
/// touches it.
pub proof fn lemma_fullscreen_toggle_involution(key: KeyPress, fullscreen: bool)
    ensures
        fullscreen_after(key, fullscreen_after(key, fullscreen)) == fullscreen,
{
}

/// Dispatches one key press: the arrow keys move the player one cell
/// (map-checked), Alt+Enter flips the fullscreen flag, Escape signals
/// that the main loop should end, and any other key does nothing.
/// The returned flag is true exactly when Escape was pressed.
pub fn handle_keys(key: KeyPress, player: &mut Entity, fullscreen: &mut bool, map: &GameMap) -> (quit:
    bool)
    requires
        map.wf(),
        old(player).pos_in_bounds(),
        in_bounds(old(player).x + key_dx(key.code), old(player).y + key_dy(key.code)),
    ensures
        quit == (key.code == KeyCode::Escape),
        *final(fullscreen) == fullscreen_after(key, *old(fullscreen)),
        final(player).glyph == old(player).glyph,
        final(player).color == old(player).color,
        final(player).pos_in_bounds(),
        map.grid()[old(player).x + key_dx(key.code)][old(player).y + key_dy(key.code)].blocked
            ==> *final(player) == *old(player),
        !map.grid()[old(player).x + key_dx(key.code)][old(player).y + key_dy(key.code)].blocked
            ==> final(player).x == old(player).x + key_dx(key.code) && final(player).y == old(
            player,
        ).y + key_dy(key.code),
{
    match key.code {
        KeyCode::Up => {
            player.move_by(0, -1, map);
            false
        },
        KeyCode::Down => {
            player.move_by(0, 1, map);
            false
        },
        KeyCode::Left => {
            player.move_by(-1, 0, map);
            false
        },
        KeyCode::Right => {
            player.move_by(1, 0, map);
            false
        },
        KeyCode::Enter => {
            if key.alt {
                *fullscreen = !*fullscreen;
            }
            false
        },
        KeyCode::Escape => true,
        KeyCode::Other => false,
    }
}

} // verus!
