//! The simple breakout lesson: a paddle moved with the arrow keys.
use vstd::prelude::*;
use crate::input::{axis, axis_of, Key, KeySet};

verus! {

/// The direction in which the held arrow keys move the paddle (-1 left,
/// 1 right, 0 when neither or both are held); the caller scales it and
/// keeps the paddle inside the walls.
pub fn move_paddle(held: &KeySet) -> (dx: i8)
    ensures
        dx == axis_of(held@.contains(Key::ArrowLeft), held@.contains(Key::ArrowRight)),
{
    axis(held.contains(Key::ArrowLeft), held.contains(Key::ArrowRight))
}

} // verus!
