//! Game phases: title, story, levels, game over, the end, high scores,
//! with an options overlay that opens above any phase.
use vstd::prelude::*;
use crate::input::{Key, KeySet};
use crate::text::{decimal, push_decimal};

verus! {

/// The phase the game is in.
#[derive(Clone, Copy, Debug, PartialEq, Eq, Structural)]
pub enum Phase {
    Title,
    Story,
    Playing,
    GameOver,
    EndStory,
    HighScore,
}

impl Default for Phase {
    /// The game starts on the title screen.
    fn default() -> (p: Phase)
        ensures
            p == Phase::Title,
    {
        Phase::Title
    }
}

/// Whether the options overlay is shown, independently of the phase.
#[derive(Clone, Copy, Debug, PartialEq, Eq, Structural)]
pub enum Overlay {
    Hidden,
    Options,
}

impl Default for Overlay {
    /// The overlay starts hidden.
    fn default() -> (o: Overlay)
        ensures
            o == Overlay::Hidden,
    {
        Overlay::Hidden
    }
}

/// The number of the level being played (meaningful while playing).
pub struct Level(pub u32);

/// The number of levels.
pub const MAX_LEVEL: u32 = 3;

/// A level number in range: from 1 to `MAX_LEVEL`.
pub open spec fn valid_level(level: u32) -> bool {
    1 <= level <= MAX_LEVEL
}

/// The transition that the navigation of `phase` asks for when `keys` were
/// just pressed, with the level it leaves: `None` keeps the phase.
pub open spec fn next_phase(phase: Phase, keys: Set<Key>, level: u32) -> (Option<Phase>, u32) {
    match phase {
        Phase::Title => if keys.contains(Key::Space) {
            (Some(Phase::Story), level)
        } else {
            (None, level)
        },
        Phase::Story => if keys.contains(Key::Space) {
            (Some(Phase::Playing), 1)
        } else {
            (None, level)
        },
        Phase::Playing => if keys.contains(Key::KeyF) {
            (Some(Phase::GameOver), level)
        } else if keys.contains(Key::Space) {
            if level >= MAX_LEVEL {
                (Some(Phase::EndStory), level)
            } else {
                (Some(Phase::Playing), (level + 1) as u32)
            }
        } else {
            (None, level)
        },
        Phase::GameOver => if keys.contains(Key::Space) {
            (Some(Phase::HighScore), level)
        } else {
            (None, level)
        },
        Phase::EndStory => if keys.contains(Key::Space) {
            (Some(Phase::HighScore), level)
        } else {
            (None, level)
        },
        Phase::HighScore => if keys.contains(Key::Space) {
            (Some(Phase::Title), level)
        } else {
            (None, level)
        },
    }
}

/// Outside play only Space moves on: title to story, story to the first
/// level, game over and the end to the high scores, high scores to the
/// title; no other key changes the phase or the level.
pub proof fn lemma_screens_follow_space(keys: Set<Key>, level: u32)
    ensures
        next_phase(Phase::Title, keys, level) == if keys.contains(Key::Space) {
            (Some(Phase::Story), level)
        } else {
            (None, level)
        },
        next_phase(Phase::Story, keys, level) == if keys.contains(Key::Space) {
            (Some(Phase::Playing), 1u32)
        } else {
            (None, level)
        },
        next_phase(Phase::GameOver, keys, level) == if keys.contains(Key::Space) {
            (Some(Phase::HighScore), level)
        } else {
            (None, level)
        },
        next_phase(Phase::EndStory, keys, level) == if keys.contains(Key::Space) {
            (Some(Phase::HighScore), level)
        } else {
            (None, level)
        },
        next_phase(Phase::HighScore, keys, level) == if keys.contains(Key::Space) {
            (Some(Phase::Title), level)
        } else {
            (None, level)
        },
{
}

/// Title screen: Space opens the story.
pub fn nav_title(just_pressed: &KeySet) -> (next: Option<Phase>)
    ensures
        next == next_phase(Phase::Title, just_pressed@, 0).0,
        next == if just_pressed@.contains(Key::Space) {
            Some(Phase::Story)
        } else {
            None
        },
{
    if just_pressed.contains(Key::Space) {
        Some(Phase::Story)
    } else {
        None
    }
}

/// Story: Space starts playing from level 1.
pub fn nav_story(just_pressed: &KeySet, level: &mut Level) -> (next: Option<Phase>)
    ensures
        (next, final(level).0) == next_phase(Phase::Story, just_pressed@, old(level).0),
        just_pressed@.contains(Key::Space) ==> next == Some(Phase::Playing) && final(level).0 == 1,
        !just_pressed@.contains(Key::Space) ==> next is None && final(level).0 == old(level).0,
{
    if just_pressed.contains(Key::Space) {
        level.0 = 1;
        Some(Phase::Playing)
    } else {
        None
    }
}

/// While playing, F fails the game whatever else was pressed, keeping the
/// level; otherwise Space completes the level: the next level is played,
/// or after the last level the end is shown; with neither key nothing
/// happens.
pub proof fn lemma_playing_navigation(keys: Set<Key>, level: u32)
    ensures
        keys.contains(Key::KeyF) ==> next_phase(Phase::Playing, keys, level) == (
            Some(Phase::GameOver),
            level,
        ),
        !keys.contains(Key::KeyF) && keys.contains(Key::Space) && level < MAX_LEVEL
            ==> next_phase(Phase::Playing, keys, level).0 == Some(Phase::Playing) && next_phase(
            Phase::Playing,
            keys,
            level,
        ).1 == level + 1,
        !keys.contains(Key::KeyF) && keys.contains(Key::Space) && level >= MAX_LEVEL
            ==> next_phase(Phase::Playing, keys, level) == (Some(Phase::EndStory), level),
        !keys.contains(Key::KeyF) && !keys.contains(Key::Space) ==> next_phase(
            Phase::Playing,
            keys,
            level,
        ) == (None::<Phase>, level),
{
}

/// Playing: F fails the game; otherwise Space completes the level, which
/// moves on to the next level, or to the end after the last one.
pub fn nav_playing(just_pressed: &KeySet, level: &mut Level) -> (next: Option<Phase>)
    ensures
        (next, final(level).0) == next_phase(Phase::Playing, just_pressed@, old(level).0),
        just_pressed@.contains(Key::KeyF) ==> next == Some(Phase::GameOver) && final(level).0
            == old(level).0,
        !just_pressed@.contains(Key::KeyF) && just_pressed@.contains(Key::Space) && old(level).0
            < MAX_LEVEL ==> next == Some(Phase::Playing) && final(level).0 == old(level).0 + 1,
        !just_pressed@.contains(Key::KeyF) && just_pressed@.contains(Key::Space) && old(level).0
            >= MAX_LEVEL ==> next == Some(Phase::EndStory) && final(level).0 == old(level).0,
        !just_pressed@.contains(Key::KeyF) && !just_pressed@.contains(Key::Space) ==> next is None
            && final(level).0 == old(level).0,
{
    proof {
        lemma_playing_navigation(just_pressed@, level.0);
    }
    if just_pressed.contains(Key::KeyF) {
        Some(Phase::GameOver)
    } else if just_pressed.contains(Key::Space) {
        if level.0 >= MAX_LEVEL {
            Some(Phase::EndStory)
        } else {
            level.0 = level.0 + 1;
            Some(Phase::Playing)
        }
    } else {
        None
    }
}

/// Game over: Space shows the high scores.
pub fn nav_gameover(just_pressed: &KeySet) -> (next: Option<Phase>)
    ensures
        next == next_phase(Phase::GameOver, just_pressed@, 0).0,
        next == if just_pressed@.contains(Key::Space) {
            Some(Phase::HighScore)
        } else {
            None
        },
{
    if just_pressed.contains(Key::Space) {
        Some(Phase::HighScore)
    } else {
        None
    }
}

/// The end: Space shows the high scores.
pub fn nav_endstory(just_pressed: &KeySet) -> (next: Option<Phase>)
    ensures
        next == next_phase(Phase::EndStory, just_pressed@, 0).0,
        next == if just_pressed@.contains(Key::Space) {
            Some(Phase::HighScore)
        } else {
            None
        },
{
    if just_pressed.contains(Key::Space) {
        Some(Phase::HighScore)
    } else {
        None
    }
}

/// High scores: Space returns to the title.
pub fn nav_highscore(just_pressed: &KeySet) -> (next: Option<Phase>)
    ensures
        next == next_phase(Phase::HighScore, just_pressed@, 0).0,
        next == if just_pressed@.contains(Key::Space) {
            Some(Phase::Title)
        } else {
            None
        },
{
    if just_pressed.contains(Key::Space) {
        Some(Phase::Title)
    } else {
        None
    }
}

/// Runs the navigation of the current phase.
pub fn navigate(phase: Phase, just_pressed: &KeySet, level: &mut Level) -> (next: Option<Phase>)
    ensures
        (next, final(level).0) == next_phase(phase, just_pressed@, old(level).0),
        valid_level(old(level).0) ==> valid_level(final(level).0),
{
    match phase {
        Phase::Title => nav_title(just_pressed),
        Phase::Story => nav_story(just_pressed, level),
        Phase::Playing => nav_playing(just_pressed, level),
        Phase::GameOver => nav_gameover(just_pressed),
        Phase::EndStory => nav_endstory(just_pressed),
        Phase::HighScore => nav_highscore(just_pressed),
    }
}

/// The overlay that Escape switches to: open when hidden, hidden when open.
pub open spec fn flipped(overlay: Overlay) -> Overlay {
    match overlay {
        Overlay::Hidden => Overlay::Options,
        Overlay::Options => Overlay::Hidden,
    }
}

/// Escape opens the options overlay, or closes it when it is open.
pub fn toggle_options(just_pressed: &KeySet, overlay: Overlay) -> (next: Option<Overlay>)
    ensures
        next == if just_pressed@.contains(Key::Escape) {
            Some(flipped(overlay))
        } else {
            None
        },
{
    if just_pressed.contains(Key::Escape) {
        match overlay {
            Overlay::Hidden => Some(Overlay::Options),
            Overlay::Options => Some(Overlay::Hidden),
        }
    } else {
        None
    }
}

/// Escape pressed twice restores the overlay.
pub proof fn lemma_toggle_options_twice(overlay: Overlay)
    ensures
        flipped(flipped(overlay)) == overlay,
{
}

/// A navigation step in which only Space was pressed.
pub open spec fn space_step(phase: Phase, level: u32) -> (Phase, u32) {
    let (next, l) = next_phase(phase, set![Key::Space], level);
    match next {
        Some(p) => (p, l),
        None => (phase, l),
    }
}

/// The phase and level after `n` navigation steps with only Space pressed.
pub open spec fn after_spaces(phase: Phase, level: u32, n: nat) -> (Phase, u32)
    decreases n,
{
    if n == 0 {
        (phase, level)
    } else {
        let (p, l) = space_step(phase, level);
        after_spaces(p, l, (n - 1) as nat)
    }
}

/// How many Space presses lead from `phase` at `level` back to the title.
pub open spec fn presses_to_title(phase: Phase, level: u32) -> nat {
    match phase {
        Phase::Title => 0,
        Phase::Story => (MAX_LEVEL + 3) as nat,
        Phase::Playing => (MAX_LEVEL - level + 3) as nat,
        Phase::GameOver => 2,
        Phase::EndStory => 2,
        Phase::HighScore => 1,
    }
}

proof fn lemma_playing_spaces(level: u32)
    requires
        valid_level(level),
    ensures
        after_spaces(Phase::Playing, level, presses_to_title(Phase::Playing, level)).0
            == Phase::Title,
    decreases MAX_LEVEL - level,
{
    assert(set![Key::Space].contains(Key::Space));
    assert(!set![Key::Space].contains(Key::KeyF));
    if level >= MAX_LEVEL {
        assert(space_step(Phase::Playing, level) == (Phase::EndStory, level));
        assert(space_step(Phase::EndStory, level) == (Phase::HighScore, level));
        assert(space_step(Phase::HighScore, level) == (Phase::Title, level));
        assert(after_spaces(Phase::Title, level, 0).0 == Phase::Title);
        assert(after_spaces(Phase::HighScore, level, 1).0 == Phase::Title);
        assert(after_spaces(Phase::EndStory, level, 2).0 == Phase::Title);
    } else {
        lemma_playing_spaces((level + 1) as u32);
        assert(space_step(Phase::Playing, level) == (Phase::Playing, (level + 1) as u32));
    }
}

/// Pressing Space, and nothing else, always leads back to the title: from
/// any phase at a valid level, after `presses_to_title` presses.
pub proof fn lemma_space_returns_to_title(phase: Phase, level: u32)
    requires
        valid_level(level),
    ensures
        after_spaces(phase, level, presses_to_title(phase, level)).0 == Phase::Title,
{
    assert(set![Key::Space].contains(Key::Space));
    assert(!set![Key::Space].contains(Key::KeyF));
    assert(space_step(Phase::HighScore, level) == (Phase::Title, level));
    assert(after_spaces(Phase::Title, level, 0).0 == Phase::Title);
    assert(after_spaces(Phase::HighScore, level, 1).0 == Phase::Title);
    match phase {
        Phase::Title => {},
        Phase::Story => {
            lemma_playing_spaces(1);
            assert(space_step(Phase::Story, level) == (Phase::Playing, 1u32));
        },
        Phase::Playing => {
            lemma_playing_spaces(level);
        },
        Phase::GameOver => {
            assert(space_step(Phase::GameOver, level) == (Phase::HighScore, level));
        },
        Phase::EndStory => {
            assert(space_step(Phase::EndStory, level) == (Phase::HighScore, level));
        },
        Phase::HighScore => {},
    }
}

/// The text shown on entering `phase` (the level matters while playing).
pub open spec fn screen_text_of(phase: Phase, level: u32) -> Seq<char> {
    match phase {
        Phase::Title => "=== TITLE SCREEN ===\n\nPress SPACE to start"@,
        Phase::Story => "=== STORY ===\n\nThe kingdom is in peril!\n\nPress SPACE to continue"@,
        Phase::Playing => level_text_of(level),
        Phase::GameOver => "=== GAME OVER ===\n\nYou failed!\n\nPress SPACE for High Scores"@,
        Phase::EndStory => "=== THE END ===\n\nYou saved the kingdom!\n\nPress SPACE for High Scores"@,
        Phase::HighScore =>
            "=== HIGH SCORES ===\n\n1. AAA  9999\n2. BBB  7777\n3. CCC  5555\n\nPress SPACE to return to Title"@,
    }
}

/// The text of the playing screen at `level`.
pub open spec fn level_text_of(level: u32) -> Seq<char> {
    "=== LEVEL "@ + decimal(level as nat) + " of "@ + decimal(MAX_LEVEL as nat)
        + " ===\n\nSPACE  = complete level\nF      = fail (Game Over)\nEscape = Options"@
}

/// Builds the text of the playing screen at `level`.
pub fn show_level(level: &Level) -> (s: String)
    ensures
        s@ == level_text_of(level.0),
{
    let mut s = String::from_str("=== LEVEL ");
    push_decimal(&mut s, level.0 as u64);
    s.append(" of ");
    push_decimal(&mut s, MAX_LEVEL as u64);
    s.append(" ===\n\nSPACE  = complete level\nF      = fail (Game Over)\nEscape = Options");
    s
}

/// Builds the text shown on entering `phase`.
pub fn show(phase: Phase, level: &Level) -> (s: String)
    ensures
        s@ == screen_text_of(phase, level.0),
{
    match phase {
        Phase::Title => String::from_str("=== TITLE SCREEN ===\n\nPress SPACE to start"),
        Phase::Story => String::from_str(
            "=== STORY ===\n\nThe kingdom is in peril!\n\nPress SPACE to continue",
        ),
        Phase::Playing => show_level(level),
        Phase::GameOver => String::from_str(
            "=== GAME OVER ===\n\nYou failed!\n\nPress SPACE for High Scores",
        ),
        Phase::EndStory => String::from_str(
            "=== THE END ===\n\nYou saved the kingdom!\n\nPress SPACE for High Scores",
        ),
        Phase::HighScore => String::from_str(
            "=== HIGH SCORES ===\n\n1. AAA  9999\n2. BBB  7777\n3. CCC  5555\n\nPress SPACE to return to Title",
        ),
    }
}

/// The text of the options overlay.
pub open spec fn options_text_of() -> Seq<char> {
    "OPTIONS\n\nSound: ON\nMusic: ON\nDifficulty: HARD\n\nPress Escape to close"@
}

/// Builds the text of the options overlay.
pub fn show_options() -> (s: String)
    ensures
        s@ == options_text_of(),
{
    String::from_str("OPTIONS\n\nSound: ON\nMusic: ON\nDifficulty: HARD\n\nPress Escape to close")
}

} // verus!
