//! A bouncing ball whose state can be saved, loaded and reset: the score,
//! the heads-up text, and which of save, load and reset a frame asks for.
use vstd::prelude::*;
use crate::input::{Key, KeySet};
use crate::text::{decimal, push_decimal};

verus! {

/// The score: how many wall bounces happened.
#[derive(Clone, Copy, Debug, PartialEq, Eq, Structural)]
pub struct Score {
    pub bounces: u32,
}

impl Default for Score {
    /// A fresh score: no bounce yet.
    fn default() -> (s: Score)
        ensures
            s.bounces == 0,
    {
        Score { bounces: 0 }
    }
}

impl Score {
    /// Counts one more bounce when the ball bounced off a wall this frame.
    pub fn count_bounce(&mut self, bounced: bool)
        requires
            bounced ==> old(self).bounces < u32::MAX,
        ensures
            final(self).bounces == old(self).bounces + if bounced { 1int } else { 0int },
    {
        if bounced {
            self.bounces = self.bounces + 1;
        }
    }
}

/// The heads-up text for a score.
pub open spec fn hud_text_of(score: Score) -> Seq<char> {
    "Bounces: "@ + decimal(score.bounces as nat) + "\n[S] save  [L] load  [R] reset"@
}

/// Builds the heads-up text for a score.
pub fn update_hud(score: &Score) -> (s: String)
    ensures
        s@ == hud_text_of(*score),
{
    let mut s = String::from_str("Bounces: ");
    push_decimal(&mut s, score.bounces as u64);
    s.append("\n[S] save  [L] load  [R] reset");
    s
}

/// What a frame asks to do with the game state.
#[derive(Clone, Copy, Debug, PartialEq, Eq, Structural)]
pub enum StateAction {
    Save,
    Load,
    Reset,
}

/// The actions asked for by the keys just pressed, in the order they are
/// carried out: S saves, then L loads, then R resets.
pub open spec fn state_actions_of(keys: Set<Key>) -> Seq<StateAction> {
    (if keys.contains(Key::KeyS) {
        seq![StateAction::Save]
    } else {
        Seq::empty()
    }) + (if keys.contains(Key::KeyL) {
        seq![StateAction::Load]
    } else {
        Seq::empty()
    }) + (if keys.contains(Key::KeyR) {
        seq![StateAction::Reset]
    } else {
        Seq::empty()
    })
}

/// The position of an action in the order they are carried out.
pub open spec fn action_rank(a: StateAction) -> int {
    match a {
        StateAction::Save => 0,
        StateAction::Load => 1,
        StateAction::Reset => 2,
    }
}

/// Each key asks for its own action: Save is asked for exactly when S was
/// just pressed, Load exactly when L, Reset exactly when R; each at most
/// once, saving before loading before resetting.
pub proof fn lemma_state_actions_follow_keys(keys: Set<Key>)
    ensures
        state_actions_of(keys).contains(StateAction::Save) <==> keys.contains(Key::KeyS),
        state_actions_of(keys).contains(StateAction::Load) <==> keys.contains(Key::KeyL),
        state_actions_of(keys).contains(StateAction::Reset) <==> keys.contains(Key::KeyR),
        forall|i: int, k: int|
            0 <= i < k < state_actions_of(keys).len() ==> action_rank(
                #[trigger] state_actions_of(keys)[i],
            ) < action_rank(#[trigger] state_actions_of(keys)[k]),
{
    let r = state_actions_of(keys);
    let s1: Seq<StateAction> = if keys.contains(Key::KeyS) {
        seq![StateAction::Save]
    } else {
        Seq::empty()
    };
    let s2: Seq<StateAction> = if keys.contains(Key::KeyL) {
        seq![StateAction::Load]
    } else {
        Seq::empty()
    };
    let s3: Seq<StateAction> = if keys.contains(Key::KeyR) {
        seq![StateAction::Reset]
    } else {
        Seq::empty()
    };
    assert(r == s1 + s2 + s3);
    if keys.contains(Key::KeyS) {
        assert(r[0] == StateAction::Save);
    }
    if keys.contains(Key::KeyL) {
        assert(r[s1.len() as int] == StateAction::Load);
    }
    if keys.contains(Key::KeyR) {
        assert(r[(s1.len() + s2.len()) as int] == StateAction::Reset);
    }
    assert forall|i: int| 0 <= i < r.len() implies action_rank(#[trigger] r[i]) == if i < s1.len() {
        0int
    } else if i < s1.len() + s2.len() {
        1
    } else {
        2
    } by {
        if i < s1.len() {
            assert(r[i] == s1[i]);
        } else if i < s1.len() + s2.len() {
            assert(r[i] == s2[i - s1.len()]);
        } else {
            assert(r[i] == s3[i - s1.len() - s2.len()]);
        }
    }
}

/// Decides which of save, load and reset to carry out this frame.
pub fn handle_save_load_reset(just_pressed: &KeySet) -> (actions: Vec<StateAction>)
    ensures
        actions@ == state_actions_of(just_pressed@),
        actions@.contains(StateAction::Save) <==> just_pressed@.contains(Key::KeyS),
        actions@.contains(StateAction::Load) <==> just_pressed@.contains(Key::KeyL),
        actions@.contains(StateAction::Reset) <==> just_pressed@.contains(Key::KeyR),
        forall|i: int, k: int|
            0 <= i < k < actions@.len() ==> action_rank(#[trigger] actions@[i]) < action_rank(
                #[trigger] actions@[k],
            ),
{
    proof {
        lemma_state_actions_follow_keys(just_pressed@);
    }
    let mut actions: Vec<StateAction> = Vec::new();
    if just_pressed.contains(Key::KeyS) {
        actions.push(StateAction::Save);
    }
    if just_pressed.contains(Key::KeyL) {
        actions.push(StateAction::Load);
    }
    if just_pressed.contains(Key::KeyR) {
        actions.push(StateAction::Reset);
    }
    assert(actions@ =~= state_actions_of(just_pressed@));
    actions
}

} // verus!
