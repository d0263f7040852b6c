//! The audio lesson: music keys switch between tracks (one track at a
//! time), sound-effect keys fire one-shot samples.
use vstd::prelude::*;
use crate::input::{Key, KeySet};
use crate::audio::{
    lemma_pressed_samples, music_key, music_key_of, music_lines, pressed_samples, push_music_lines, push_sfx_lines,
    sfx_key, sfx_key_of, sfx_lines, MusicAction, MUSIC_TRACK_COUNT, SFX_SAMPLE_COUNT,
};

verus! {

/// The on-screen legend of this lesson.
pub open spec fn legend_text() -> Seq<char> {
    "MUSIC (toggle):\n"@ + music_lines(MUSIC_TRACK_COUNT as nat) + "\nSFX (one-shot):\n"@
        + sfx_lines(SFX_SAMPLE_COUNT as nat)
}

/// Builds the on-screen legend: one line per music track, then one line
/// per sound-effect sample.
pub fn legend() -> (s: String)
    ensures
        s@ == legend_text(),
{
    let mut s = String::from_str("MUSIC (toggle):\n");
    push_music_lines(&mut s);
    s.append("\nSFX (one-shot):\n");
    push_sfx_lines(&mut s);
    s
}

/// The samples to play for the keys just pressed: one per pressed sample
/// key, in catalogue order.
pub fn handle_sfx(just_pressed: &KeySet) -> (samples: Vec<usize>)
    ensures
        samples@ == pressed_samples(just_pressed@, SFX_SAMPLE_COUNT as nat),
        forall|i: int|
            0 <= i < samples@.len() ==> (#[trigger] samples@[i]) < SFX_SAMPLE_COUNT
                && just_pressed@.contains(sfx_key_of(samples@[i] as int)),
        forall|i: int, k: int| 0 <= i < k < samples@.len() ==> #[trigger] samples@[i] < #[trigger] samples@[k],
        forall|t: int|
            0 <= t < SFX_SAMPLE_COUNT && #[trigger] just_pressed@.contains(sfx_key_of(t))
                ==> samples@.contains(t as usize),
{
    proof {
        lemma_pressed_samples(just_pressed@, SFX_SAMPLE_COUNT as nat);
    }
    let mut samples: Vec<usize> = Vec::new();
    let mut t: usize = 0;
    while t < SFX_SAMPLE_COUNT
        invariant
            t <= SFX_SAMPLE_COUNT,
            samples@ == pressed_samples(just_pressed@, t as nat),
        decreases SFX_SAMPLE_COUNT - t,
    {
        if just_pressed.contains(sfx_key(t)) {
            samples.push(t);
        }
        t = t + 1;
    }
    samples
}

/// The first music track at or after `t` whose key is in `keys`.
pub open spec fn first_pressed_track(keys: Set<Key>, t: int) -> Option<int>
    decreases MUSIC_TRACK_COUNT - t,
{
    if t < 0 || t >= MUSIC_TRACK_COUNT {
        None
    } else if keys.contains(music_key_of(t)) {
        Some(t)
    } else {
        first_pressed_track(keys, t + 1)
    }
}

/// The first pressed track is the pressed music key earliest in the
/// catalogue; there is none when no music key was pressed.
pub proof fn lemma_first_pressed_track(keys: Set<Key>, t: int)
    requires
        0 <= t,
    ensures
        first_pressed_track(keys, t) matches Some(u) ==> t <= u < MUSIC_TRACK_COUNT
            && keys.contains(music_key_of(u)) && forall|v: int|
            t <= v < u ==> !#[trigger] keys.contains(music_key_of(v)),
        first_pressed_track(keys, t) is None ==> forall|v: int|
            t <= v < MUSIC_TRACK_COUNT ==> !#[trigger] keys.contains(music_key_of(v)),
    decreases MUSIC_TRACK_COUNT - t,
{
    if t < MUSIC_TRACK_COUNT {
        lemma_first_pressed_track(keys, t + 1);
    }
}

/// What the music keys ask for, given the keys just pressed and the keys of
/// the tracks playing: only the first pressed track in catalogue order
/// counts; every playing track stops, and the pressed track starts unless
/// it was one of them.
pub open spec fn switch_actions(keys: Set<Key>, playing: Seq<Key>) -> Seq<MusicAction> {
    match first_pressed_track(keys, 0) {
        None => Seq::empty(),
        Some(t) => Seq::new(playing.len(), |j: int| MusicAction::Stop(j as usize)) + if playing.contains(
            music_key_of(t),
        ) {
            Seq::empty()
        } else {
            seq![MusicAction::Start(t as usize)]
        },
    }
}

/// One track at a time: when a music key is pressed, every playing track
/// is stopped, and at most one track starts: the pressed one, exactly when
/// it was not playing already.
pub proof fn lemma_one_track_at_a_time(keys: Set<Key>, playing: Seq<Key>, t: int)
    requires
        first_pressed_track(keys, 0) == Some(t),
    ensures
        forall|j: int|
            0 <= j < playing.len() ==> #[trigger] switch_actions(keys, playing)[j]
                == MusicAction::Stop(j as usize),
        forall|i: int|
            0 <= i < switch_actions(keys, playing).len() && (#[trigger] switch_actions(
                keys,
                playing,
            )[i] is Start) ==> i == playing.len() && switch_actions(keys, playing)[i]
                == MusicAction::Start(t as usize),
        switch_actions(keys, playing).contains(MusicAction::Start(t as usize)) <==> !playing.contains(
            music_key_of(t),
        ),
{
    let a = switch_actions(keys, playing);
    if !playing.contains(music_key_of(t)) {
        assert(a[playing.len() as int] == MusicAction::Start(t as usize));
    }
    if a.contains(MusicAction::Start(t as usize)) {
        let i: int = choose|i: int| 0 <= i < a.len() && a[i] == MusicAction::Start(t as usize);
        assert(i >= playing.len());
    }
}

/// Decides the music actions for the keys just pressed, given the keys of
/// the tracks playing, in the order the entities are listed.
pub fn handle_music(just_pressed: &KeySet, playing: &Vec<Key>) -> (actions: Vec<MusicAction>)
    ensures
        actions@ == switch_actions(just_pressed@, playing@),
        (forall|t: int| 0 <= t < MUSIC_TRACK_COUNT ==> !#[trigger] just_pressed@.contains(
            music_key_of(t),
        )) ==> actions@.len() == 0,
        forall|t: int|
            0 <= t < MUSIC_TRACK_COUNT && #[trigger] just_pressed@.contains(music_key_of(t))
                && (forall|u: int| 0 <= u < t ==> !#[trigger] just_pressed@.contains(music_key_of(u)))
                ==> {
                &&& forall|j: int| 0 <= j < playing@.len() ==> #[trigger] actions@[j] == MusicAction::Stop(j as usize)
                &&& playing@.contains(music_key_of(t)) ==> actions@.len() == playing@.len()
                &&& !playing@.contains(music_key_of(t)) ==> actions@.len() == playing@.len() + 1
                    && actions@[playing@.len() as int] == MusicAction::Start(t as usize)
            },
{
    proof {
        lemma_first_pressed_track(just_pressed@, 0);
        assert forall|t: int|
            0 <= t < MUSIC_TRACK_COUNT && #[trigger] just_pressed@.contains(music_key_of(t))
                && (forall|u: int| 0 <= u < t ==> !#[trigger] just_pressed@.contains(music_key_of(u)))
                implies first_pressed_track(just_pressed@, 0) == Some(t) by {
            if let Some(u) = first_pressed_track(just_pressed@, 0) {
                if u < t {
                    assert(!just_pressed@.contains(music_key_of(u)));
                }
            }
        }
    }
    let mut actions: Vec<MusicAction> = Vec::new();
    let mut t: usize = 0;
    let mut chosen: Option<usize> = None;
    while t < MUSIC_TRACK_COUNT && chosen.is_none()
        invariant
            t <= MUSIC_TRACK_COUNT,
            chosen matches Some(c) ==> c == t && c < MUSIC_TRACK_COUNT && first_pressed_track(
                just_pressed@,
                0,
            ) == Some(c as int),
            chosen is None ==> first_pressed_track(just_pressed@, 0) == first_pressed_track(
                just_pressed@,
                t as int,
            ),
        decreases MUSIC_TRACK_COUNT - t + if chosen is None { 1int } else { 0int },
    {
        if just_pressed.contains(music_key(t)) {
            chosen = Some(t);
        } else {
            t = t + 1;
        }
    }
    match chosen {
        None => {
            assert(first_pressed_track(just_pressed@, 0) is None);
            assert(actions@ =~= switch_actions(just_pressed@, playing@));
            actions
        },
        Some(c) => {
            let key = music_key(c);
            let mut was_playing = false;
            let mut j: usize = 0;
            while j < playing.len()
                invariant
                    j <= playing@.len(),
                    actions@ == Seq::new(j as nat, |i: int| MusicAction::Stop(i as usize)),
                    was_playing <==> exists|i: int| 0 <= i < j && playing@[i] == key,
                decreases playing@.len() - j,
            {
                if playing[j] == key {
                    was_playing = true;
                }
                actions.push(MusicAction::Stop(j));
                assert(actions@ =~= Seq::new((j + 1) as nat, |i: int| MusicAction::Stop(i as usize)));
                j = j + 1;
            }
            if !was_playing {
                actions.push(MusicAction::Start(c));
                assert(!playing@.contains(key));
            } else {
                assert(playing@.contains(key));
            }
            assert(actions@ =~= switch_actions(just_pressed@, playing@));
            actions
        },
    }
}

} // verus!
