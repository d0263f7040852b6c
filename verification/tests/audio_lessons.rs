use workshop::audio::{key_label, music_key, music_path, sfx_key, sfx_path, MusicAction};
use workshop::input::{Key, KeySet};
use workshop::mixer::{
    enforce_voice_limit, handle_music as toggle_music, handle_sfx as start_sfx, legend as mixer_legend,
    update_status, MaxChannels, SfxVoice, VoiceCounter,
};
use workshop::sounds::{handle_music as switch_music, handle_sfx, legend};

fn keys(k: &[Key]) -> KeySet {
    KeySet::new(k.to_vec())
}

#[test]
fn key_labels() {
    assert_eq!(key_label(Key::KeyA), "A");
    assert_eq!(key_label(Key::KeyS), "S");
    assert_eq!(key_label(Key::KeyD), "D");
    assert_eq!(key_label(Key::KeyQ), "Q");
    assert_eq!(key_label(Key::KeyW), "W");
    assert_eq!(key_label(Key::KeyE), "E");
    assert_eq!(key_label(Key::KeyR), "R");
    assert_eq!(key_label(Key::KeyT), "T");
    assert_eq!(key_label(Key::KeyY), "Y");
    assert_eq!(key_label(Key::KeyU), "U");
    assert_eq!(key_label(Key::Space), "?");
    assert_eq!(key_label(Key::Digit1), "?");
}

#[test]
fn catalogue() {
    assert_eq!(music_key(0), Key::KeyA);
    assert_eq!(music_path(1), "music/level-x.ogg");
    assert_eq!(music_key(2), Key::KeyD);
    assert_eq!(sfx_key(0), Key::KeyQ);
    assert_eq!(sfx_path(6), "sfx/win.ogg");
    assert_eq!(sfx_key(5), Key::KeyY);
}

const SOUNDS_LEGEND: &str = "MUSIC (toggle):\n  A  music/intro.ogg\n  S  music/level-x.ogg\n  D  music/outro.ogg\n\nSFX (one-shot):\n  Q  sfx/laser-single-a.ogg\n  W  sfx/brick-c6.ogg\n  E  sfx/emp.ogg\n  R  sfx/siren.ogg\n  T  sfx/slide-open.ogg\n  Y  sfx/trampoline-hi.ogg\n  U  sfx/win.ogg\n";

#[test]
fn sounds_legend_text() {
    assert_eq!(legend(), SOUNDS_LEGEND);
}

#[test]
fn mixer_legend_text() {
    let expected = SOUNDS_LEGEND.replace("MUSIC (toggle):", "MUSIC (toggle on/off):")
        + "\nSFX channels:\n  0 = unlimited\n  1..9 = max simultaneous sfx\n";
    assert_eq!(mixer_legend(), expected);
}

#[test]
fn sfx_in_catalogue_order() {
    assert_eq!(handle_sfx(&keys(&[Key::KeyU, Key::KeyQ, Key::KeyA])), vec![0, 6]);
    assert_eq!(handle_sfx(&keys(&[])), Vec::<usize>::new());
    assert_eq!(handle_sfx(&keys(&[Key::KeyW, Key::KeyE, Key::KeyR, Key::KeyT])), vec![1, 2, 3, 4]);
}

#[test]
fn switch_music_starts_when_nothing_plays() {
    assert_eq!(switch_music(&keys(&[Key::KeyS]), &vec![]), vec![MusicAction::Start(1)]);
}

#[test]
fn switch_music_replaces_other_track() {
    assert_eq!(
        switch_music(&keys(&[Key::KeyD]), &vec![Key::KeyA]),
        vec![MusicAction::Stop(0), MusicAction::Start(2)]
    );
}

#[test]
fn switch_music_same_key_stops() {
    assert_eq!(switch_music(&keys(&[Key::KeyA]), &vec![Key::KeyA]), vec![MusicAction::Stop(0)]);
}

#[test]
fn switch_music_only_first_pressed_counts() {
    assert_eq!(
        switch_music(&keys(&[Key::KeyD, Key::KeyS]), &vec![Key::KeyS]),
        vec![MusicAction::Stop(0)]
    );
    assert_eq!(switch_music(&keys(&[Key::KeyQ]), &vec![Key::KeyS]), vec![]);
}

#[test]
fn toggle_music_is_per_track() {
    assert_eq!(
        toggle_music(&keys(&[Key::KeyA, Key::KeyD]), &vec![Key::KeyS, Key::KeyD]),
        vec![MusicAction::Start(0), MusicAction::Stop(1)]
    );
    assert_eq!(toggle_music(&keys(&[]), &vec![Key::KeyS]), vec![]);
}

#[test]
fn toggle_music_stops_first_entity_of_track() {
    assert_eq!(
        toggle_music(&keys(&[Key::KeyS]), &vec![Key::KeyA, Key::KeyS, Key::KeyS]),
        vec![MusicAction::Stop(1)]
    );
}

#[test]
fn toggle_twice_restores() {
    let mut playing = vec![Key::KeyD];
    let first = toggle_music(&keys(&[Key::KeyA]), &playing);
    assert_eq!(first, vec![MusicAction::Start(0)]);
    playing.push(Key::KeyA);
    let second = toggle_music(&keys(&[Key::KeyA]), &playing);
    assert_eq!(second, vec![MusicAction::Stop(1)]);
    playing.remove(1);
    assert_eq!(playing, vec![Key::KeyD]);
}

#[test]
fn voice_counter_hands_out_increasing_ords() {
    let mut c = VoiceCounter::default();
    assert_eq!(c.next(), 0);
    assert_eq!(c.next(), 1);
    assert_eq!(c.0, 2);
}

#[test]
fn voice_counter_wraps() {
    let mut c = VoiceCounter(u64::MAX);
    assert_eq!(c.next(), u64::MAX);
    assert_eq!(c.0, 0);
}

#[test]
fn max_channels_default_unlimited() {
    assert_eq!(MaxChannels::default().0, 0);
}

#[test]
fn max_channels_from_digits() {
    let mut m = MaxChannels::default();
    m.handle_max_channels(&keys(&[Key::Digit3]));
    assert_eq!(m.0, 3);
    m.handle_max_channels(&keys(&[Key::KeyA]));
    assert_eq!(m.0, 3);
    m.handle_max_channels(&keys(&[Key::Digit7, Key::Digit2]));
    assert_eq!(m.0, 7);
    m.handle_max_channels(&keys(&[Key::Digit0]));
    assert_eq!(m.0, 0);
}

#[test]
fn voice_limit_unlimited_or_not_exceeded() {
    assert_eq!(enforce_voice_limit(&vec![5, 3, 9], 0), Vec::<usize>::new());
    assert_eq!(enforce_voice_limit(&vec![5, 3, 9], 3), Vec::<usize>::new());
    assert_eq!(enforce_voice_limit(&vec![5, 3, 9], 4), Vec::<usize>::new());
    assert_eq!(enforce_voice_limit(&vec![], 1), Vec::<usize>::new());
}

#[test]
fn voice_limit_cuts_oldest_first() {
    assert_eq!(enforce_voice_limit(&vec![5, 3, 9, 1], 2), vec![3, 1]);
    assert_eq!(enforce_voice_limit(&vec![5, 3, 9, 1], 1), vec![3, 1, 0]);
    assert_eq!(enforce_voice_limit(&vec![10, 11, 12], 1), vec![0, 1]);
}

#[test]
fn voice_limit_ties_by_position() {
    assert_eq!(enforce_voice_limit(&vec![4, 2, 4, 2], 1), vec![1, 3, 0]);
}

#[test]
fn sfx_voices_get_consecutive_ords() {
    let mut c = VoiceCounter(41);
    let v = start_sfx(&keys(&[Key::KeyE, Key::KeyQ]), &mut c);
    assert_eq!(v, vec![SfxVoice { sample: 0, ord: 41 }, SfxVoice { sample: 2, ord: 42 }]);
    assert_eq!(c.0, 43);
    let none = start_sfx(&keys(&[Key::KeyA]), &mut c);
    assert!(none.is_empty());
    assert_eq!(c.0, 43);
}

#[test]
fn status_line() {
    assert_eq!(update_status(2, 0), "sfx voices: 2   max: unlimited");
    assert_eq!(update_status(0, 5), "sfx voices: 0   max: 5");
}
