//! Keyboard keys and sets of keys, as the game logic reads them.
use vstd::prelude::*;

verus! {

/// The keys that the games react to; every other key is `Other`.
#[derive(Clone, Copy, Debug, PartialEq, Eq, Structural)]
pub enum Key {
    ArrowLeft,
    ArrowRight,
    ArrowUp,
    ArrowDown,
    KeyA,
    KeyD,
    KeyE,
    KeyF,
    KeyL,
    KeyQ,
    KeyR,
    KeyS,
    KeyT,
    KeyU,
    KeyW,
    KeyY,
    Digit0,
    Digit1,
    Digit2,
    Digit3,
    Digit4,
    Digit5,
    Digit6,
    Digit7,
    Digit8,
    Digit9,
    Space,
    Escape,
    Other,
}

/// The keys that are held (or were just pressed) in one frame.
pub struct KeySet {
    pub keys: Vec<Key>,
}

impl View for KeySet {
    type V = Set<Key>;

    open spec fn view(&self) -> Set<Key> {
        self.keys@.to_set()
    }
}

impl KeySet {
    /// A set holding exactly the given keys.
    pub fn new(keys: Vec<Key>) -> (s: KeySet)
        ensures
            s@ == keys@.to_set(),
    {
        KeySet { keys }
    }

    /// A set holding no key.
    pub fn empty() -> (s: KeySet)
        ensures
            s@ == Set::<Key>::empty(),
    {
        let s = KeySet { keys: Vec::new() };
        assert(s.keys@.to_set() =~= Set::<Key>::empty());
        s
    }

    /// Whether `key` is in the set.
    pub fn contains(&self, key: Key) -> (b: bool)
        ensures
            b == self@.contains(key),
    {
        let mut i: usize = 0;
        while i < self.keys.len()
            invariant
                i <= self.keys@.len(),
                forall|j: int| 0 <= j < i ==> self.keys@[j] != key,
            decreases self.keys@.len() - i,
        {
            if self.keys[i] == key {
                assert(self.keys@.contains(key));
                return true;
            }
            i = i + 1;
        }
        false
    }
}

/// A movement direction before normalisation: each component is -1, 0
/// or 1 (right and up are positive).
#[derive(Clone, Copy, Debug, PartialEq, Eq, Structural)]
pub struct Heading {
    pub dx: i8,
    pub dy: i8,
}

/// The movement along one axis when `negative` and `positive` tell whether
/// the keys for either direction are held: both or neither cancel out.
pub open spec fn axis_of(negative: bool, positive: bool) -> int {
    (if positive { 1int } else { 0int }) - (if negative { 1int } else { 0int })
}

/// Computes `axis_of(negative, positive)`.
pub fn axis(negative: bool, positive: bool) -> (a: i8)
    ensures
        a == axis_of(negative, positive),
{
    let mut a: i8 = 0;
    if negative {
        a = a - 1;
    }
    if positive {
        a = a + 1;
    }
    a
}

} // verus!
