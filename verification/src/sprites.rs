//! The sprite lesson: a ship steered with the arrow keys or WASD.
use vstd::prelude::*;
use crate::input::{axis, axis_of, Heading, Key, KeySet};

verus! {

/// The direction in which the held keys steer the ship: the arrow keys and
/// WASD act alike, opposite directions cancel out. The caller normalises
/// it, moves the ship and turns it to face the direction, and does nothing
/// when it is zero.
pub fn move_ship(held: &KeySet) -> (h: Heading)
    ensures
        h.dx == axis_of(
            held@.contains(Key::ArrowLeft) || held@.contains(Key::KeyA),
            held@.contains(Key::ArrowRight) || held@.contains(Key::KeyD),
        ),
        h.dy == axis_of(
            held@.contains(Key::ArrowDown) || held@.contains(Key::KeyS),
            held@.contains(Key::ArrowUp) || held@.contains(Key::KeyW),
        ),
{
    let up = held.contains(Key::ArrowUp) || held.contains(Key::KeyW);
    let down = held.contains(Key::ArrowDown) || held.contains(Key::KeyS);
    let left = held.contains(Key::ArrowLeft) || held.contains(Key::KeyA);
    let right = held.contains(Key::ArrowRight) || held.contains(Key::KeyD);
    Heading { dx: axis(left, right), dy: axis(down, up) }
}

} // verus!
