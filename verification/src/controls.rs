//! Switchable input sources for moving a player sideways: cursor keys,
//! WASD, mouse/touch and gamepads, each toggled by a number key.
use vstd::prelude::*;
use crate::input::{axis, axis_of, Key, KeySet};

verus! {

/// Which input sources move the player.
#[derive(Clone, Copy, Debug, PartialEq, Eq, Structural)]
pub struct InputToggles {
    pub cursor_keys: bool,
    pub wasd: bool,
    pub mouse_touch: bool,
    pub gamepad: bool,
}

impl Default for InputToggles {
    /// Every source starts switched off.
    fn default() -> (t: InputToggles)
        ensures
            t == (InputToggles { cursor_keys: false, wasd: false, mouse_touch: false, gamepad: false }),
    {
        InputToggles { cursor_keys: false, wasd: false, mouse_touch: false, gamepad: false }
    }
}

/// The toggles after the number keys in `keys` are read: 1 flips the
/// cursor keys, 2 WASD, 3 mouse/touch, 4 gamepads.
pub open spec fn toggled(t: InputToggles, keys: Set<Key>) -> InputToggles {
    InputToggles {
        cursor_keys: t.cursor_keys != keys.contains(Key::Digit1),
        wasd: t.wasd != keys.contains(Key::Digit2),
        mouse_touch: t.mouse_touch != keys.contains(Key::Digit3),
        gamepad: t.gamepad != keys.contains(Key::Digit4),
    }
}

impl InputToggles {
    /// Flips the sources whose number key was just pressed.
    pub fn toggle_inputs(&mut self, just_pressed: &KeySet)
        ensures
            *final(self) == toggled(*old(self), just_pressed@),
    {
        if just_pressed.contains(Key::Digit1) {
            self.cursor_keys = !self.cursor_keys;
        }
        if just_pressed.contains(Key::Digit2) {
            self.wasd = !self.wasd;
        }
        if just_pressed.contains(Key::Digit3) {
            self.mouse_touch = !self.mouse_touch;
        }
        if just_pressed.contains(Key::Digit4) {
            self.gamepad = !self.gamepad;
        }
    }
}

/// Pressing the same number keys twice restores every toggle.
pub proof fn lemma_toggle_twice(t: InputToggles, keys: Set<Key>)
    ensures
        toggled(toggled(t, keys), keys) == t,
{
}

/// The digital part of the sideways movement from the keyboard: the cursor
/// keys when switched on, plus A/D when WASD is switched on.
pub open spec fn keyboard_dx_of(t: InputToggles, held: Set<Key>) -> int {
    (if t.cursor_keys {
        axis_of(held.contains(Key::ArrowLeft), held.contains(Key::ArrowRight))
    } else {
        0
    }) + (if t.wasd {
        axis_of(held.contains(Key::KeyA), held.contains(Key::KeyD))
    } else {
        0
    })
}

/// One unit when `b` holds, else none.
pub open spec fn unit_if(b: bool) -> int {
    if b {
        1
    } else {
        0
    }
}

/// The keyboard's share of the sideways movement, key by key: with the
/// cursor keys switched on, right arrow adds one and left arrow takes one
/// away; with WASD switched on, D adds one and A takes one away.
pub proof fn lemma_keyboard_dx_by_key(t: InputToggles, held: Set<Key>)
    ensures
        keyboard_dx_of(t, held) == unit_if(t.cursor_keys && held.contains(Key::ArrowRight))
            - unit_if(t.cursor_keys && held.contains(Key::ArrowLeft)) + unit_if(
            t.wasd && held.contains(Key::KeyD),
        ) - unit_if(t.wasd && held.contains(Key::KeyA)),
{
}

/// Only the arrow keys and A/D matter: two sets of held keys that agree on
/// those four give the same keyboard share, whatever else is held.
pub proof fn lemma_keyboard_dx_reads_only_its_keys(t: InputToggles, a: Set<Key>, b: Set<Key>)
    requires
        a.contains(Key::ArrowLeft) == b.contains(Key::ArrowLeft),
        a.contains(Key::ArrowRight) == b.contains(Key::ArrowRight),
        a.contains(Key::KeyA) == b.contains(Key::KeyA),
        a.contains(Key::KeyD) == b.contains(Key::KeyD),
    ensures
        keyboard_dx_of(t, a) == keyboard_dx_of(t, b),
{
    lemma_keyboard_dx_by_key(t, a);
    lemma_keyboard_dx_by_key(t, b);
}

/// Sums the keyboard's share of the sideways movement (from -2 to 2; the
/// caller adds the gamepads and clamps to [-1, 1]).
pub fn keyboard_dx(toggles: &InputToggles, held: &KeySet) -> (dx: i8)
    ensures
        dx == keyboard_dx_of(*toggles, held@),
        dx == unit_if(toggles.cursor_keys && held@.contains(Key::ArrowRight)) - unit_if(
            toggles.cursor_keys && held@.contains(Key::ArrowLeft),
        ) + unit_if(toggles.wasd && held@.contains(Key::KeyD)) - unit_if(
            toggles.wasd && held@.contains(Key::KeyA),
        ),
        -2 <= dx <= 2,
{
    proof {
        lemma_keyboard_dx_by_key(*toggles, held@);
    }
    let mut dx: i8 = 0;
    if toggles.cursor_keys {
        dx = dx + axis(held.contains(Key::ArrowLeft), held.contains(Key::ArrowRight));
    }
    if toggles.wasd {
        dx = dx + axis(held.contains(Key::KeyA), held.contains(Key::KeyD));
    }
    dx
}

/// One gamepad's d-pad share of the sideways movement: left and right
/// cancel out; nothing when gamepads are switched off.
pub fn dpad_dx(toggles: &InputToggles, left: bool, right: bool) -> (dx: i8)
    ensures
        dx == if toggles.gamepad {
            axis_of(left, right)
        } else {
            0
        },
        dx == unit_if(toggles.gamepad && right) - unit_if(toggles.gamepad && left),
{
    if toggles.gamepad {
        axis(left, right)
    } else {
        0
    }
}

/// The window title text of one toggle.
pub open spec fn mark_of(b: bool) -> Seq<char> {
    if b {
        "ON"@
    } else {
        "OFF"@
    }
}

/// The window title that shows the state of every toggle.
pub open spec fn title_of(t: InputToggles) -> Seq<char> {
    "1:Cursor["@ + mark_of(t.cursor_keys) + "]  2:WASD["@ + mark_of(t.wasd) + "]  3:Mouse/Touch["@
        + mark_of(t.mouse_touch) + "]  4:Gamepad["@ + mark_of(t.gamepad) + "]"@
}

fn mark(b: bool) -> (s: &'static str)
    ensures
        s@ == mark_of(b),
{
    if b {
        "ON"
    } else {
        "OFF"
    }
}

/// Builds the window title for the toggles.
pub fn update_title(toggles: &InputToggles) -> (s: String)
    ensures
        s@ == title_of(*toggles),
{
    let mut s = String::from_str("1:Cursor[");
    s.append(mark(toggles.cursor_keys));
    s.append("]  2:WASD[");
    s.append(mark(toggles.wasd));
    s.append("]  3:Mouse/Touch[");
    s.append(mark(toggles.mouse_touch));
    s.append("]  4:Gamepad[");
    s.append(mark(toggles.gamepad));
    s.append("]");
    assert(s@ =~= title_of(*toggles));
    s
}

} // verus!
