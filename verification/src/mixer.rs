//! The polyphony-limited audio mixer: music toggles, one-shot sound
//! effects that count as voices, and a cap on simultaneous voices that cuts
//! the oldest ones first.
use vstd::prelude::*;
use crate::input::{Key, KeySet};
use crate::audio::{
    first_match, music_key, music_key_of, music_lines, pressed_samples, push_music_lines,
    push_sfx_lines, sfx_key_of, sfx_lines, find_key, MusicAction, MUSIC_TRACK_COUNT, SFX_SAMPLE_COUNT,
};
use crate::text::{decimal, push_decimal};

verus! {

/// Hands out monotonically increasing voice ordinals (wrapping at the end
/// of the `u64` range).
pub struct VoiceCounter(pub u64);

impl Default for VoiceCounter {
    /// A counter that hands out 0 first.
    fn default() -> (c: VoiceCounter)
        ensures
            c.0 == 0,
    {
        VoiceCounter(0)
    }
}

impl VoiceCounter {
    /// Returns the current ordinal and advances the counter by one,
    /// wrapping from `u64::MAX` to 0.
    pub fn next(&mut self) -> (n: u64)
        ensures
            n == old(self).0,
            final(self).0 == wrapping_next(old(self).0),
    {
        let n: u64 = self.0;
        self.0 = self.0.wrapping_add(1);
        n
    }
}

/// The successor of `n` in wrapping `u64` arithmetic.
pub open spec fn wrapping_next(n: u64) -> u64 {
    if n == u64::MAX {
        0
    } else {
        (n + 1) as u64
    }
}

/// The cap on simultaneous sound-effect voices; `0` means unlimited.
pub struct MaxChannels(pub usize);

impl Default for MaxChannels {
    /// The default cap: unlimited.
    fn default() -> (m: MaxChannels)
        ensures
            m.0 == 0,
    {
        MaxChannels(0)
    }
}

/// Voice `i` is older than voice `j`: it has the smaller ordinal, or the
/// same ordinal and an earlier position.
pub open spec fn older(ords: Seq<u64>, i: int, j: int) -> bool {
    ords[i] < ords[j] || (ords[i] == ords[j] && i < j)
}

/// The number of `true` entries in `s`.
pub open spec fn count_true(s: Seq<bool>) -> nat
    decreases s.len(),
{
    if s.len() == 0 {
        0
    } else {
        count_true(s.drop_last()) + if s.last() { 1nat } else { 0nat }
    }
}

proof fn lemma_count_true_bound(s: Seq<bool>)
    ensures
        count_true(s) <= s.len(),
        (forall|i: int| 0 <= i < s.len() ==> s[i]) ==> count_true(s) == s.len(),
    decreases s.len(),
{
    if s.len() > 0 {
        lemma_count_true_bound(s.drop_last());
    }
}

proof fn lemma_count_false(s: Seq<bool>)
    requires
        forall|i: int| 0 <= i < s.len() ==> !s[i],
    ensures
        count_true(s) == 0,
    decreases s.len(),
{
    if s.len() > 0 {
        lemma_count_false(s.drop_last());
    }
}

proof fn lemma_count_true_set(s: Seq<bool>, i: int)
    requires
        0 <= i < s.len(),
        !s[i],
    ensures
        count_true(s.update(i, true)) == count_true(s) + 1,
    decreases s.len(),
{
    if i < s.len() - 1 {
        lemma_count_true_set(s.drop_last(), i);
        assert(s.update(i, true).drop_last() =~= s.drop_last().update(i, true));
    } else {
        assert(s.update(i, true).drop_last() =~= s.drop_last());
    }
}

/// The positions of the voices that a cap of `max` cuts from voices with
/// ordinals `ords`: none when the cap is unlimited or not exceeded; else
/// the `ords.len() - max` oldest ones, oldest first.
pub open spec fn is_cut_plan(ords: Seq<u64>, max: nat, cut: Seq<usize>) -> bool {
    if max == 0 || ords.len() <= max {
        cut.len() == 0
    } else {
        &&& cut.len() == ords.len() - max
        &&& forall|k: int| 0 <= k < cut.len() ==> cut[k] < ords.len()
        &&& forall|k: int, l: int|
            0 <= k < l < cut.len() ==> older(ords, cut[k] as int, cut[l] as int)
        &&& forall|k: int, j: int|
            0 <= k < cut.len() && 0 <= j < ords.len() && !cut.contains(j as usize)
                ==> older(ords, cut[k] as int, j)
    }
}

/// Picks the voices to cut so that at most `max` remain (`0` = no cap):
/// the oldest voices, smallest ordinal first, ties by position.
pub fn enforce_voice_limit(ords: &Vec<u64>, max: usize) -> (cut: Vec<usize>)
    ensures
        is_cut_plan(ords@, max as nat, cut@),
{
    let n: usize = ords.len();
    if max == 0 || n <= max {
        return Vec::new();
    }
    let to_drop: usize = n - max;
    let mut taken: Vec<bool> = vec![false; n];
    let mut cut: Vec<usize> = Vec::new();
    proof {
        assert(count_true(taken@) == 0) by {
            lemma_count_false(taken@);
        }
    }
    while cut.len() < to_drop
        invariant
            n == ords@.len(),
            to_drop < n,
            taken@.len() == n,
            cut@.len() <= to_drop,
            count_true(taken@) == cut@.len(),
            forall|k: int| 0 <= k < cut@.len() ==> cut@[k] < n,
            forall|j: int| 0 <= j < n ==> (taken@[j] <==> cut@.contains(j as usize)),
            forall|k: int, l: int|
                0 <= k < l < cut@.len() ==> older(ords@, cut@[k] as int, cut@[l] as int),
            forall|k: int, j: int|
                0 <= k < cut@.len() && 0 <= j < n && !taken@[j] ==> older(ords@, cut@[k] as int, j),
        decreases to_drop - cut@.len(),
    {
        // the oldest voice not taken yet (`n` while none is found)
        let mut best: usize = n;
        let mut j: usize = 0;
        while j < n
            invariant
                n == ords@.len(),
                taken@.len() == n,
                j <= n,
                best == n || (best < j && !taken@[best as int]),
                best == n ==> forall|i: int| 0 <= i < j ==> taken@[i],
                best < n ==> forall|i: int|
                    0 <= i < j && !taken@[i] && i != best ==> older(ords@, best as int, i),
            decreases n - j,
        {
            if !taken[j] {
                if best == n || ords[j] < ords[best] {
                    best = j;
                }
            }
            j = j + 1;
        }
        proof {
            if best == n {
                lemma_count_true_bound(taken@);
            }
        }
        let ghost prev_taken = taken@;
        let ghost prev_cut = cut@;
        proof {
            lemma_count_true_set(taken@, best as int);
        }
        taken.set(best, true);
        cut.push(best);
        proof {
            assert(taken@ == prev_taken.update(best as int, true));
            assert forall|j: int| 0 <= j < n implies (taken@[j] <==> cut@.contains(j as usize)) by {
                if j == best as int {
                    assert(cut@[cut@.len() - 1] == best);
                } else {
                    if prev_cut.contains(j as usize) {
                        let k: int = choose|k: int| 0 <= k < prev_cut.len() && prev_cut[k] == j as usize;
                        assert(cut@[k] == j as usize);
                    }
                    if cut@.contains(j as usize) {
                        let k: int = choose|k: int| 0 <= k < cut@.len() && cut@[k] == j as usize;
                        assert(k < prev_cut.len());
                        assert(prev_cut[k] == j as usize);
                    }
                }
            }
        }
    }
    proof {
        assert forall|k: int, j: int|
            0 <= k < cut@.len() && 0 <= j < n && !cut@.contains(j as usize)
            implies older(ords@, cut@[k] as int, j) by {
            assert(!taken@[j]);
        }
    }
    cut
}


/// The on-screen legend of the mixer.
pub open spec fn legend_text() -> Seq<char> {
    "MUSIC (toggle on/off):\n"@ + music_lines(MUSIC_TRACK_COUNT as nat) + "\nSFX (one-shot):\n"@
        + sfx_lines(SFX_SAMPLE_COUNT as nat)
        + "\nSFX channels:\n  0 = unlimited\n  1..9 = max simultaneous sfx\n"@
}

/// Builds the on-screen legend: the music tracks, the sound-effect samples
/// and the meaning of the number keys.
pub fn legend() -> (s: String)
    ensures
        s@ == legend_text(),
{
    let mut s = String::from_str("MUSIC (toggle on/off):\n");
    push_music_lines(&mut s);
    s.append("\nSFX (one-shot):\n");
    push_sfx_lines(&mut s);
    s.append("\nSFX channels:\n  0 = unlimited\n  1..9 = max simultaneous sfx\n");
    s
}

/// The number key for digit `d`.
pub open spec fn digit_key_of(d: int) -> Key {
    if d == 0 {
        Key::Digit0
    } else if d == 1 {
        Key::Digit1
    } else if d == 2 {
        Key::Digit2
    } else if d == 3 {
        Key::Digit3
    } else if d == 4 {
        Key::Digit4
    } else if d == 5 {
        Key::Digit5
    } else if d == 6 {
        Key::Digit6
    } else if d == 7 {
        Key::Digit7
    } else if d == 8 {
        Key::Digit8
    } else {
        Key::Digit9
    }
}

fn digit_key(d: usize) -> (k: Key)
    requires
        d < 10,
    ensures
        k == digit_key_of(d as int),
{
    if d == 0 {
        Key::Digit0
    } else if d == 1 {
        Key::Digit1
    } else if d == 2 {
        Key::Digit2
    } else if d == 3 {
        Key::Digit3
    } else if d == 4 {
        Key::Digit4
    } else if d == 5 {
        Key::Digit5
    } else if d == 6 {
        Key::Digit6
    } else if d == 7 {
        Key::Digit7
    } else if d == 8 {
        Key::Digit8
    } else {
        Key::Digit9
    }
}

/// The cap after the number keys among digits `0..n` are read in order:
/// each pressed digit sets the cap to itself, so the largest pressed one
/// wins; with none pressed the cap stays `cap`.
pub open spec fn cap_after_digits(keys: Set<Key>, cap: nat, n: nat) -> nat
    decreases n,
{
    if n == 0 {
        cap
    } else if keys.contains(digit_key_of(n - 1)) {
        (n - 1) as nat
    } else {
        cap_after_digits(keys, cap, (n - 1) as nat)
    }
}

/// The cap follows the largest digit whose key was just pressed among
/// digits `0..n`, and stays as it was when none of them was pressed.
pub proof fn lemma_cap_is_largest_pressed_digit(keys: Set<Key>, cap: nat, n: nat)
    ensures
        (exists|d: int| 0 <= d < n && #[trigger] keys.contains(digit_key_of(d))) ==> {
            let r = cap_after_digits(keys, cap, n);
            &&& r < n
            &&& keys.contains(digit_key_of(r as int))
            &&& forall|e: int| r < e < n ==> !#[trigger] keys.contains(digit_key_of(e))
        },
        (forall|d: int| 0 <= d < n ==> !#[trigger] keys.contains(digit_key_of(d)))
            ==> cap_after_digits(keys, cap, n) == cap,
    decreases n,
{
    if n > 0 {
        lemma_cap_is_largest_pressed_digit(keys, cap, (n - 1) as nat);
        if !keys.contains(digit_key_of(n - 1)) {
            if exists|d: int| 0 <= d < n && #[trigger] keys.contains(digit_key_of(d)) {
                let d = choose|d: int| 0 <= d < n && #[trigger] keys.contains(digit_key_of(d));
                assert(d < n - 1);
            }
        }
    }
}

impl MaxChannels {
    /// Reads the number keys just pressed: digit `d` sets the cap to `d`
    /// (`0` = unlimited); the digits are read from 0 to 9.
    pub fn handle_max_channels(&mut self, just_pressed: &KeySet)
        ensures
            final(self).0 == cap_after_digits(just_pressed@, old(self).0 as nat, 10),
            (exists|d: int| 0 <= d < 10 && #[trigger] just_pressed@.contains(digit_key_of(d))) ==> {
                &&& final(self).0 < 10
                &&& just_pressed@.contains(digit_key_of(final(self).0 as int))
                &&& forall|e: int|
                    final(self).0 < e < 10 ==> !#[trigger] just_pressed@.contains(digit_key_of(e))
            },
            (forall|d: int| 0 <= d < 10 ==> !#[trigger] just_pressed@.contains(digit_key_of(d)))
                ==> final(self).0 == old(self).0,
    {
        proof {
            lemma_cap_is_largest_pressed_digit(just_pressed@, self.0 as nat, 10);
        }
        let ghost start = self.0 as nat;
        let mut d: usize = 0;
        while d < 10
            invariant
                d <= 10,
                start == old(self).0 as nat,
                self.0 as nat == cap_after_digits(just_pressed@, start, d as nat),
            decreases 10 - d,
        {
            if just_pressed.contains(digit_key(d)) {
                self.0 = d;
            }
            d = d + 1;
        }
    }
}

/// What pressing music track `t`'s key does: stop the first entity that
/// plays that track, or start the track when none plays it.
pub open spec fn toggle_action(playing: Seq<Key>, t: int) -> MusicAction {
    match first_match(playing, music_key_of(t), 0) {
        Some(j) => MusicAction::Stop(j as usize),
        None => MusicAction::Start(t as usize),
    }
}

/// The actions for the pressed keys among the first `n` music tracks, one
/// per pressed track, in catalogue order.
pub open spec fn toggle_actions(keys: Set<Key>, playing: Seq<Key>, n: nat) -> Seq<MusicAction>
    decreases n,
{
    if n == 0 {
        Seq::empty()
    } else if keys.contains(music_key_of(n - 1)) {
        toggle_actions(keys, playing, (n - 1) as nat).push(toggle_action(playing, n - 1))
    } else {
        toggle_actions(keys, playing, (n - 1) as nat)
    }
}

/// The music track that key `k` toggles, or -1 for keys that toggle none.
pub open spec fn track_of_key(k: Key) -> int {
    if k == Key::KeyA {
        0
    } else if k == Key::KeyS {
        1
    } else if k == Key::KeyD {
        2
    } else {
        -1
    }
}

/// The track that a music action is about: the started track, or the
/// track played by the stopped entity.
pub open spec fn answered_track(playing: Seq<Key>, a: MusicAction) -> int {
    match a {
        MusicAction::Start(u) => u as int,
        MusicAction::Stop(j) => track_of_key(playing[j as int]),
    }
}

/// `a` is the right answer to pressing track `t`'s key: stop the first
/// entity (from position 0 on) that plays track `t`, or start track `t`
/// when no entity plays it.
pub open spec fn answers_press(playing: Seq<Key>, a: MusicAction, t: int) -> bool {
    match a {
        MusicAction::Start(u) => u == t && forall|i: int|
            0 <= i < playing.len() ==> playing[i] != music_key_of(t),
        MusicAction::Stop(j) => {
            &&& j < playing.len()
            &&& playing[j as int] == music_key_of(t)
            &&& forall|i: int| 0 <= i < j ==> playing[i] != music_key_of(t)
        },
    }
}

/// What the music keys do, stated on its own terms: there is one action for
/// each pressed music key among the first `n` tracks, in catalogue order,
/// and each action is the right answer for its track.
pub proof fn lemma_toggle_actions_answer_presses(keys: Set<Key>, playing: Seq<Key>, n: nat)
    requires
        n <= MUSIC_TRACK_COUNT,
        playing.len() <= usize::MAX,
    ensures
        ({
            let r = toggle_actions(keys, playing, n);
            &&& forall|i: int|
                0 <= i < r.len() ==> {
                    let t = #[trigger] answered_track(playing, r[i]);
                    &&& 0 <= t < n
                    &&& keys.contains(music_key_of(t))
                    &&& answers_press(playing, r[i], t)
                }
            &&& forall|i: int, k: int|
                0 <= i < k < r.len() ==> #[trigger] answered_track(playing, r[i])
                    < #[trigger] answered_track(playing, r[k])
            &&& forall|t: int|
                0 <= t < n && #[trigger] keys.contains(music_key_of(t)) ==> exists|i: int|
                    0 <= i < r.len() && #[trigger] answered_track(playing, r[i]) == t
        }),
    decreases n,
{
    if n > 0 {
        let m = (n - 1) as nat;
        lemma_toggle_actions_answer_presses(keys, playing, m);
        let prev = toggle_actions(keys, playing, m);
        let t = m as int;
        if keys.contains(music_key_of(t)) {
            let a = toggle_action(playing, t);
            let r = prev.push(a);
            crate::audio::lemma_first_match_plays(playing, music_key_of(t));
            lemma_first_match_is_first(playing, music_key_of(t), 0);
            assert(answered_track(playing, a) == t);
            assert(answers_press(playing, a, t));
            assert(r[prev.len() as int] == a);
            assert forall|i: int| 0 <= i < r.len() implies {
                let u = #[trigger] answered_track(playing, r[i]);
                &&& 0 <= u < n
                &&& keys.contains(music_key_of(u))
                &&& answers_press(playing, r[i], u)
            } by {
                if i < prev.len() {
                    assert(r[i] == prev[i]);
                }
            }
            assert forall|i: int, k: int| 0 <= i < k < r.len() implies #[trigger] answered_track(
                playing,
                r[i],
            ) < #[trigger] answered_track(playing, r[k]) by {
                assert(r[i] == prev[i]);
                assert(answered_track(playing, prev[i]) < m);
                if k < prev.len() {
                    assert(r[k] == prev[k]);
                }
            }
            assert forall|u: int| 0 <= u < n && #[trigger] keys.contains(music_key_of(u)) implies exists|i: int|
                0 <= i < r.len() && #[trigger] answered_track(playing, r[i]) == u by {
                if u == t {
                    assert(answered_track(playing, r[prev.len() as int]) == u);
                } else {
                    let i = choose|i: int|
                        0 <= i < prev.len() && #[trigger] answered_track(playing, prev[i]) == u;
                    assert(r[i] == prev[i]);
                }
            }
        }
    }
}

proof fn lemma_first_match_is_first(s: Seq<Key>, k: Key, i: int)
    requires
        0 <= i,
    ensures
        first_match(s, k, i) matches Some(j) ==> forall|l: int| i <= l < j ==> s[l] != k,
    decreases s.len() - i,
{
    if i < s.len() {
        lemma_first_match_is_first(s, k, i + 1);
    }
}

/// Decides the music actions for the keys just pressed, given the keys of
/// the tracks playing: every track toggles on its own, and music never
/// counts as a voice.
pub fn handle_music(just_pressed: &KeySet, playing: &Vec<Key>) -> (actions: Vec<MusicAction>)
    ensures
        actions@ == toggle_actions(just_pressed@, playing@, MUSIC_TRACK_COUNT as nat),
        forall|i: int|
            0 <= i < actions@.len() ==> {
                let t = #[trigger] answered_track(playing@, actions@[i]);
                &&& 0 <= t < MUSIC_TRACK_COUNT
                &&& just_pressed@.contains(music_key_of(t))
                &&& answers_press(playing@, actions@[i], t)
            },
        forall|i: int, k: int|
            0 <= i < k < actions@.len() ==> #[trigger] answered_track(playing@, actions@[i])
                < #[trigger] answered_track(playing@, actions@[k]),
        forall|t: int|
            0 <= t < MUSIC_TRACK_COUNT && #[trigger] just_pressed@.contains(music_key_of(t))
                ==> exists|i: int|
                0 <= i < actions@.len() && #[trigger] answered_track(playing@, actions@[i]) == t,
{
    let playing_len: usize = playing.len();
    proof {
        assert(playing@.len() == playing_len);
        lemma_toggle_actions_answer_presses(
            just_pressed@,
            playing@,
            MUSIC_TRACK_COUNT as nat,
        );
    }
    let mut actions: Vec<MusicAction> = Vec::new();
    let mut t: usize = 0;
    while t < MUSIC_TRACK_COUNT
        invariant
            t <= MUSIC_TRACK_COUNT,
            actions@ == toggle_actions(just_pressed@, playing@, t as nat),
        decreases MUSIC_TRACK_COUNT - t,
    {
        let key = music_key(t);
        if just_pressed.contains(key) {
            match find_key(playing, key) {
                Some(j) => actions.push(MusicAction::Stop(j)),
                None => actions.push(MusicAction::Start(t)),
            }
        }
        t = t + 1;
    }
    actions
}

/// The keys of the tracks playing after one toggle action is carried out:
/// a stopped entity leaves the list, a started track joins at its end.
pub open spec fn after_action(playing: Seq<Key>, action: MusicAction) -> Seq<Key> {
    match action {
        MusicAction::Stop(j) => playing.remove(j as int),
        MusicAction::Start(t) => playing.push(music_key_of(t as int)),
    }
}

/// Toggling a track that is not playing, then toggling it again, leaves the
/// same tracks playing as before: the second press stops exactly the entity
/// that the first one started.
pub proof fn lemma_toggle_twice_restores(playing: Seq<Key>, t: int)
    requires
        0 <= t < MUSIC_TRACK_COUNT,
        playing.len() < usize::MAX,
        !crate::audio::plays(playing, music_key_of(t)),
    ensures
        ({
            let once = after_action(playing, toggle_action(playing, t));
            after_action(once, toggle_action(once, t)) == playing
        }),
{
    crate::audio::lemma_first_match_plays(playing, music_key_of(t));
    let once = playing.push(music_key_of(t));
    assert(toggle_action(playing, t) == MusicAction::Start(t as usize));
    assert(after_action(playing, toggle_action(playing, t)) == once);
    crate::audio::lemma_first_match_plays(once, music_key_of(t));
    assert(once[playing.len() as int] == music_key_of(t));
    let j: int = first_match(once, music_key_of(t), 0)->0;
    assert(j == playing.len()) by {
        if j < playing.len() {
            assert(playing[j] == music_key_of(t));
        }
    }
    assert(toggle_action(once, t) == MusicAction::Stop(playing.len() as usize));
    assert(once.remove(playing.len() as int) =~= playing);
    assert(after_action(once, toggle_action(once, t)) == playing);
}

/// A sound effect to start: the sample and the ordinal of its voice.
#[derive(Clone, Copy, Debug, PartialEq, Eq, Structural)]
pub struct SfxVoice {
    pub sample: usize,
    pub ord: u64,
}

/// The counter value after `k` ordinals are handed out from `c`.
pub open spec fn ord_after(c: u64, k: nat) -> u64
    decreases k,
{
    if k == 0 {
        c
    } else {
        wrapping_next(ord_after(c, (k - 1) as nat))
    }
}

/// Handing out `k` ordinals from `c` advances the counter by `k` modulo
/// 2^64.
pub proof fn lemma_ord_after_wraps(c: u64, k: nat)
    ensures
        ord_after(c, k) as int == (c as int + k) % 0x1_0000_0000_0000_0000,
    decreases k,
{
    if k == 0 {
        vstd::arithmetic::div_mod::lemma_small_mod(c as nat, 0x1_0000_0000_0000_0000);
    } else {
        lemma_ord_after_wraps(c, (k - 1) as nat);
        let p = ord_after(c, (k - 1) as nat);
        vstd::arithmetic::div_mod::lemma_add_mod_noop(c as int + k - 1, 1, 0x1_0000_0000_0000_0000);
        vstd::arithmetic::div_mod::lemma_small_mod(1, 0x1_0000_0000_0000_0000);
        if p == u64::MAX {
            vstd::arithmetic::div_mod::lemma_mod_self_0(0x1_0000_0000_0000_0000);
        } else {
            vstd::arithmetic::div_mod::lemma_small_mod((p + 1) as nat, 0x1_0000_0000_0000_0000);
        }
    }
}

/// Starts one voice per sample key just pressed, in catalogue order, each
/// with the next ordinal of `counter`.
pub fn handle_sfx(just_pressed: &KeySet, counter: &mut VoiceCounter) -> (voices: Vec<SfxVoice>)
    ensures
        voices@.len() == pressed_samples(just_pressed@, SFX_SAMPLE_COUNT as nat).len(),
        forall|i: int|
            0 <= i < voices@.len() ==> #[trigger] voices@[i] == (SfxVoice {
                sample: pressed_samples(just_pressed@, SFX_SAMPLE_COUNT as nat)[i],
                ord: ord_after(old(counter).0, i as nat),
            }),
        final(counter).0 == ord_after(old(counter).0, voices@.len()),
        forall|i: int|
            0 <= i < voices@.len() ==> (#[trigger] voices@[i]).sample < SFX_SAMPLE_COUNT
                && just_pressed@.contains(sfx_key_of(voices@[i].sample as int)) && voices@[i].ord as int
                == (old(counter).0 as int + i) % 0x1_0000_0000_0000_0000,
        forall|i: int, k: int|
            0 <= i < k < voices@.len() ==> (#[trigger] voices@[i]).sample < (
            #[trigger] voices@[k]).sample,
        forall|t: int|
            0 <= t < SFX_SAMPLE_COUNT && #[trigger] just_pressed@.contains(sfx_key_of(t))
                ==> exists|i: int| 0 <= i < voices@.len() && #[trigger] voices@[i].sample == t,
        final(counter).0 as int == (old(counter).0 as int + voices@.len())
            % 0x1_0000_0000_0000_0000,
{
    let samples = crate::sounds::handle_sfx(just_pressed);
    let ghost start = counter.0;
    let mut voices: Vec<SfxVoice> = Vec::new();
    let mut i: usize = 0;
    while i < samples.len()
        invariant
            i <= samples@.len(),
            start == old(counter).0,
            voices@.len() == i,
            counter.0 == ord_after(start, i as nat),
            forall|k: int|
                0 <= k < i ==> #[trigger] voices@[k] == (SfxVoice {
                    sample: samples@[k],
                    ord: ord_after(start, k as nat),
                }),
        decreases samples@.len() - i,
    {
        let ord: u64 = counter.next();
        voices.push(SfxVoice { sample: samples[i], ord });
        i = i + 1;
    }
    proof {
        crate::audio::lemma_pressed_samples(just_pressed@, SFX_SAMPLE_COUNT as nat);
        lemma_ord_after_wraps(start, voices@.len());
        assert forall|i: int| 0 <= i < voices@.len() implies (#[trigger] voices@[i]).sample
            < SFX_SAMPLE_COUNT && just_pressed@.contains(sfx_key_of(voices@[i].sample as int))
            && voices@[i].ord as int == (start as int + i) % 0x1_0000_0000_0000_0000 by {
            lemma_ord_after_wraps(start, i as nat);
        }
        assert forall|t: int|
            0 <= t < SFX_SAMPLE_COUNT && #[trigger] just_pressed@.contains(sfx_key_of(t))
            implies exists|i: int| 0 <= i < voices@.len() && #[trigger] voices@[i].sample == t by {
            let i = choose|i: int| 0 <= i < samples@.len() && samples@[i] == t as usize;
            assert(voices@[i].sample == t);
        }
    }
    voices
}

/// The status line: the number of sound-effect voices and the cap.
pub open spec fn status_text_of(active: nat, max: nat) -> Seq<char> {
    "sfx voices: "@ + decimal(active) + "   max: "@ + if max == 0 {
        "unlimited"@
    } else {
        decimal(max)
    }
}

/// Builds the status line for `active` sound-effect voices under cap `max`.
pub fn update_status(active: usize, max: usize) -> (s: String)
    ensures
        s@ == status_text_of(active as nat, max as nat),
{
    let mut s = String::from_str("sfx voices: ");
    push_decimal(&mut s, active as u64);
    s.append("   max: ");
    if max == 0 {
        s.append("unlimited");
    } else {
        push_decimal(&mut s, max as u64);
    }
    s
}

} // verus!
