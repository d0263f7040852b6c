use workshop::input::{Key, KeySet};
use workshop::phases::{
    nav_endstory, nav_gameover, nav_highscore, nav_playing, nav_story, nav_title, navigate, show,
    show_level, show_options, toggle_options, Level, Overlay, Phase, MAX_LEVEL,
};

fn keys(k: &[Key]) -> KeySet {
    KeySet::new(k.to_vec())
}

#[test]
fn starts_on_title_with_overlay_hidden() {
    assert_eq!(Phase::default(), Phase::Title);
    assert_eq!(Overlay::default(), Overlay::Hidden);
}

#[test]
fn space_moves_through_the_screens() {
    let space = keys(&[Key::Space]);
    let mut level = Level(2);
    assert_eq!(nav_title(&space), Some(Phase::Story));
    assert_eq!(nav_story(&space, &mut level), Some(Phase::Playing));
    assert_eq!(level.0, 1);
    assert_eq!(nav_gameover(&space), Some(Phase::HighScore));
    assert_eq!(nav_endstory(&space), Some(Phase::HighScore));
    assert_eq!(nav_highscore(&space), Some(Phase::Title));
}

#[test]
fn no_key_no_transition() {
    let none = keys(&[]);
    let mut level = Level(2);
    assert_eq!(nav_title(&none), None);
    assert_eq!(nav_story(&none, &mut level), None);
    assert_eq!(level.0, 2);
    assert_eq!(nav_playing(&none, &mut level), None);
    assert_eq!(level.0, 2);
    assert_eq!(nav_gameover(&none), None);
    assert_eq!(nav_endstory(&none), None);
    assert_eq!(nav_highscore(&none), None);
}

#[test]
fn playing_completes_levels_then_ends() {
    let space = keys(&[Key::Space]);
    let mut level = Level(1);
    assert_eq!(nav_playing(&space, &mut level), Some(Phase::Playing));
    assert_eq!(level.0, 2);
    assert_eq!(nav_playing(&space, &mut level), Some(Phase::Playing));
    assert_eq!(level.0, 3);
    assert_eq!(nav_playing(&space, &mut level), Some(Phase::EndStory));
    assert_eq!(level.0, MAX_LEVEL);
}

#[test]
fn fail_key_wins_over_space() {
    let mut level = Level(2);
    assert_eq!(nav_playing(&keys(&[Key::Space, Key::KeyF]), &mut level), Some(Phase::GameOver));
    assert_eq!(level.0, 2);
}

#[test]
fn space_returns_to_title() {
    let space = keys(&[Key::Space]);
    let mut phase = Phase::Story;
    let mut level = Level(1);
    let mut presses = 0;
    loop {
        if let Some(next) = navigate(phase, &space, &mut level) {
            phase = next;
        }
        presses += 1;
        assert!(1 <= level.0 && level.0 <= MAX_LEVEL);
        if phase == Phase::Title {
            break;
        }
    }
    assert_eq!(presses, MAX_LEVEL + 3);
}

#[test]
fn escape_toggles_overlay() {
    let esc = keys(&[Key::Escape]);
    assert_eq!(toggle_options(&esc, Overlay::Hidden), Some(Overlay::Options));
    assert_eq!(toggle_options(&esc, Overlay::Options), Some(Overlay::Hidden));
    assert_eq!(toggle_options(&keys(&[Key::Space]), Overlay::Options), None);
}

#[test]
fn screen_texts() {
    let level = Level(1);
    assert_eq!(show(Phase::Title, &level), "=== TITLE SCREEN ===\n\nPress SPACE to start");
    assert_eq!(
        show(Phase::Story, &level),
        "=== STORY ===\n\nThe kingdom is in peril!\n\nPress SPACE to continue"
    );
    assert_eq!(
        show(Phase::GameOver, &level),
        "=== GAME OVER ===\n\nYou failed!\n\nPress SPACE for High Scores"
    );
    assert_eq!(
        show(Phase::EndStory, &level),
        "=== THE END ===\n\nYou saved the kingdom!\n\nPress SPACE for High Scores"
    );
    assert_eq!(
        show(Phase::HighScore, &level),
        "=== HIGH SCORES ===\n\n1. AAA  9999\n2. BBB  7777\n3. CCC  5555\n\nPress SPACE to return to Title"
    );
    assert_eq!(show(Phase::Playing, &Level(2)), show_level(&Level(2)));
}

#[test]
fn level_text() {
    assert_eq!(
        show_level(&Level(2)),
        "=== LEVEL 2 of 3 ===\n\nSPACE  = complete level\nF      = fail (Game Over)\nEscape = Options"
    );
}

#[test]
fn options_text() {
    assert_eq!(
        show_options(),
        "OPTIONS\n\nSound: ON\nMusic: ON\nDifficulty: HARD\n\nPress Escape to close"
    );
}
