use workshop::breakout::move_paddle as breakout_paddle;
use workshop::controls::{dpad_dx, keyboard_dx, update_title, InputToggles};
use workshop::input::{Heading, Key, KeySet};
use workshop::mover::move_player;
use workshop::persistence::{handle_save_load_reset, update_hud, Score, StateAction};
use workshop::sprites::move_ship;

fn keys(k: &[Key]) -> KeySet {
    KeySet::new(k.to_vec())
}

#[test]
fn mover_heading() {
    assert_eq!(move_player(&keys(&[Key::ArrowLeft, Key::ArrowUp])), Heading { dx: -1, dy: 1 });
    assert_eq!(move_player(&keys(&[Key::ArrowLeft, Key::ArrowRight])), Heading { dx: 0, dy: 0 });
    assert_eq!(move_player(&keys(&[Key::ArrowDown, Key::KeyA])), Heading { dx: 0, dy: -1 });
}

#[test]
fn ship_heading_arrows_and_wasd() {
    assert_eq!(move_ship(&keys(&[Key::KeyW, Key::KeyD])), Heading { dx: 1, dy: 1 });
    assert_eq!(move_ship(&keys(&[Key::ArrowUp, Key::KeyW])), Heading { dx: 0, dy: 1 });
    assert_eq!(move_ship(&keys(&[Key::ArrowUp, Key::KeyS])), Heading { dx: 0, dy: 0 });
    assert_eq!(move_ship(&keys(&[])), Heading { dx: 0, dy: 0 });
}

#[test]
fn breakout_paddle_arrows_only() {
    assert_eq!(breakout_paddle(&keys(&[Key::ArrowRight])), 1);
    assert_eq!(breakout_paddle(&keys(&[Key::ArrowLeft])), -1);
    assert_eq!(breakout_paddle(&keys(&[Key::KeyD])), 0);
}

#[test]
fn toggles_flip_on_number_keys() {
    let mut t = InputToggles::default();
    t.toggle_inputs(&keys(&[Key::Digit1, Key::Digit3]));
    assert_eq!(t, InputToggles { cursor_keys: true, wasd: false, mouse_touch: true, gamepad: false });
    t.toggle_inputs(&keys(&[Key::Digit1, Key::Digit2, Key::Digit4]));
    assert_eq!(t, InputToggles { cursor_keys: false, wasd: true, mouse_touch: true, gamepad: true });
}

#[test]
fn toggles_twice_restore() {
    let start = InputToggles { cursor_keys: true, wasd: false, mouse_touch: false, gamepad: true };
    let mut t = start;
    let k = keys(&[Key::Digit2, Key::Digit4]);
    t.toggle_inputs(&k);
    t.toggle_inputs(&k);
    assert_eq!(t, start);
}

#[test]
fn keyboard_share_respects_toggles() {
    let off = InputToggles::default();
    let held = keys(&[Key::ArrowLeft, Key::KeyA]);
    assert_eq!(keyboard_dx(&off, &held), 0);
    let cursor = InputToggles { cursor_keys: true, wasd: false, mouse_touch: false, gamepad: false };
    assert_eq!(keyboard_dx(&cursor, &held), -1);
    let both = InputToggles { cursor_keys: true, wasd: true, mouse_touch: false, gamepad: false };
    assert_eq!(keyboard_dx(&both, &held), -2);
    assert_eq!(keyboard_dx(&both, &keys(&[Key::ArrowRight, Key::KeyA])), 0);
}

#[test]
fn dpad_share() {
    let on = InputToggles { cursor_keys: false, wasd: false, mouse_touch: false, gamepad: true };
    assert_eq!(dpad_dx(&on, true, false), -1);
    assert_eq!(dpad_dx(&on, false, true), 1);
    assert_eq!(dpad_dx(&on, true, true), 0);
    assert_eq!(dpad_dx(&InputToggles::default(), true, false), 0);
}

#[test]
fn title_shows_toggles() {
    let t = InputToggles { cursor_keys: true, wasd: false, mouse_touch: true, gamepad: false };
    assert_eq!(update_title(&t), "1:Cursor[ON]  2:WASD[OFF]  3:Mouse/Touch[ON]  4:Gamepad[OFF]");
}

#[test]
fn score_counts_bounces() {
    let mut s = Score::default();
    assert_eq!(s.bounces, 0);
    s.count_bounce(true);
    s.count_bounce(false);
    s.count_bounce(true);
    assert_eq!(s.bounces, 2);
}

#[test]
fn hud_text() {
    assert_eq!(update_hud(&Score { bounces: 12 }), "Bounces: 12\n[S] save  [L] load  [R] reset");
}

#[test]
fn save_load_reset_order() {
    assert_eq!(
        handle_save_load_reset(&keys(&[Key::KeyR, Key::KeyL, Key::KeyS])),
        vec![StateAction::Save, StateAction::Load, StateAction::Reset]
    );
    assert_eq!(handle_save_load_reset(&keys(&[Key::KeyL])), vec![StateAction::Load]);
    assert_eq!(handle_save_load_reset(&keys(&[Key::Space])), vec![]);
}
