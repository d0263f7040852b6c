//! The first lesson: a square moved with the arrow keys.
use vstd::prelude::*;
use crate::input::{axis, axis_of, Heading, Key, KeySet};

verus! {

/// The direction in which the held arrow keys move the player (opposite
/// keys cancel out); the caller normalises it and scales it by speed and
/// frame time, and does not move the player when it is zero.
pub fn move_player(held: &KeySet) -> (h: Heading)
    ensures
        h.dx == axis_of(held@.contains(Key::ArrowLeft), held@.contains(Key::ArrowRight)),
        h.dy == axis_of(held@.contains(Key::ArrowDown), held@.contains(Key::ArrowUp)),
{
    Heading {
        dx: axis(held.contains(Key::ArrowLeft), held.contains(Key::ArrowRight)),
        dy: axis(held.contains(Key::ArrowDown), held.contains(Key::ArrowUp)),
    }
}

} // verus!
