//! The audio catalogue shared by the sound lessons: the music tracks and
//! sound-effect samples with the keys that play them, key labels, the
//! legend lines, and the actions that the music keys ask for.
use vstd::prelude::*;
use crate::input::Key;

verus! {

/// How many music tracks there are.
pub const MUSIC_TRACK_COUNT: usize = 3;

/// How many sound-effect samples there are.
pub const SFX_SAMPLE_COUNT: usize = 7;

/// The key of music track `t`.
pub open spec fn music_key_of(t: int) -> Key {
    if t == 0 {
        Key::KeyA
    } else if t == 1 {
        Key::KeyS
    } else {
        Key::KeyD
    }
}

/// The asset path of music track `t`.
pub open spec fn music_path_of(t: int) -> Seq<char> {
    if t == 0 {
        "music/intro.ogg"@
    } else if t == 1 {
        "music/level-x.ogg"@
    } else {
        "music/outro.ogg"@
    }
}

/// The key of sound-effect sample `t`.
pub open spec fn sfx_key_of(t: int) -> Key {
    if t == 0 {
        Key::KeyQ
    } else if t == 1 {
        Key::KeyW
    } else if t == 2 {
        Key::KeyE
    } else if t == 3 {
        Key::KeyR
    } else if t == 4 {
        Key::KeyT
    } else if t == 5 {
        Key::KeyY
    } else {
        Key::KeyU
    }
}

/// The asset path of sound-effect sample `t`.
pub open spec fn sfx_path_of(t: int) -> Seq<char> {
    if t == 0 {
        "sfx/laser-single-a.ogg"@
    } else if t == 1 {
        "sfx/brick-c6.ogg"@
    } else if t == 2 {
        "sfx/emp.ogg"@
    } else if t == 3 {
        "sfx/siren.ogg"@
    } else if t == 4 {
        "sfx/slide-open.ogg"@
    } else if t == 5 {
        "sfx/trampoline-hi.ogg"@
    } else {
        "sfx/win.ogg"@
    }
}

/// The key of music track `t`.
pub fn music_key(t: usize) -> (k: Key)
    requires
        t < MUSIC_TRACK_COUNT,
    ensures
        k == music_key_of(t as int),
{
    if t == 0 {
        Key::KeyA
    } else if t == 1 {
        Key::KeyS
    } else {
        Key::KeyD
    }
}

/// The asset path of music track `t`.
pub fn music_path(t: usize) -> (p: &'static str)
    requires
        t < MUSIC_TRACK_COUNT,
    ensures
        p@ == music_path_of(t as int),
{
    if t == 0 {
        "music/intro.ogg"
    } else if t == 1 {
        "music/level-x.ogg"
    } else {
        "music/outro.ogg"
    }
}

/// The key of sound-effect sample `t`.
pub fn sfx_key(t: usize) -> (k: Key)
    requires
        t < SFX_SAMPLE_COUNT,
    ensures
        k == sfx_key_of(t as int),
{
    if t == 0 {
        Key::KeyQ
    } else if t == 1 {
        Key::KeyW
    } else if t == 2 {
        Key::KeyE
    } else if t == 3 {
        Key::KeyR
    } else if t == 4 {
        Key::KeyT
    } else if t == 5 {
        Key::KeyY
    } else {
        Key::KeyU
    }
}

/// The asset path of sound-effect sample `t`.
pub fn sfx_path(t: usize) -> (p: &'static str)
    requires
        t < SFX_SAMPLE_COUNT,
    ensures
        p@ == sfx_path_of(t as int),
{
    if t == 0 {
        "sfx/laser-single-a.ogg"
    } else if t == 1 {
        "sfx/brick-c6.ogg"
    } else if t == 2 {
        "sfx/emp.ogg"
    } else if t == 3 {
        "sfx/siren.ogg"
    } else if t == 4 {
        "sfx/slide-open.ogg"
    } else if t == 5 {
        "sfx/trampoline-hi.ogg"
    } else {
        "sfx/win.ogg"
    }
}

/// The label shown for a key in the legend: its letter, `?` for keys that
/// play nothing.
pub open spec fn key_label_of(key: Key) -> Seq<char> {
    match key {
        Key::KeyA => "A"@,
        Key::KeyS => "S"@,
        Key::KeyD => "D"@,
        Key::KeyQ => "Q"@,
        Key::KeyW => "W"@,
        Key::KeyE => "E"@,
        Key::KeyR => "R"@,
        Key::KeyT => "T"@,
        Key::KeyY => "Y"@,
        Key::KeyU => "U"@,
        _ => "?"@,
    }
}

/// The label shown for a key in the legend.
pub fn key_label(key: Key) -> (s: &'static str)
    ensures
        s@ == key_label_of(key),
{
    match key {
        Key::KeyA => "A",
        Key::KeyS => "S",
        Key::KeyD => "D",
        Key::KeyQ => "Q",
        Key::KeyW => "W",
        Key::KeyE => "E",
        Key::KeyR => "R",
        Key::KeyT => "T",
        Key::KeyY => "Y",
        Key::KeyU => "U",
        _ => "?",
    }
}

/// One legend line: two spaces, the key's label, two spaces, the path.
pub open spec fn legend_line(key: Key, path: Seq<char>) -> Seq<char> {
    "  "@ + key_label_of(key) + "  "@ + path + "\n"@
}

/// The legend lines of the first `n` music tracks.
pub open spec fn music_lines(n: nat) -> Seq<char>
    decreases n,
{
    if n == 0 {
        Seq::empty()
    } else {
        music_lines((n - 1) as nat) + legend_line(
            music_key_of(n - 1),
            music_path_of(n - 1),
        )
    }
}

/// The legend lines of the first `n` sound-effect samples.
pub open spec fn sfx_lines(n: nat) -> Seq<char>
    decreases n,
{
    if n == 0 {
        Seq::empty()
    } else {
        sfx_lines((n - 1) as nat) + legend_line(sfx_key_of(n - 1), sfx_path_of(n - 1))
    }
}

fn push_legend_line(s: &mut String, key: Key, path: &str)
    ensures
        final(s)@ == old(s)@ + legend_line(key, path@),
{
    s.append("  ");
    s.append(key_label(key));
    s.append("  ");
    s.append(path);
    s.append("\n");
    assert(final(s)@ =~= old(s)@ + legend_line(key, path@));
}

/// Appends the legend lines of all music tracks to `s`.
pub fn push_music_lines(s: &mut String)
    ensures
        final(s)@ == old(s)@ + music_lines(MUSIC_TRACK_COUNT as nat),
{
    let ghost start = s@;
    let mut t: usize = 0;
    while t < MUSIC_TRACK_COUNT
        invariant
            t <= MUSIC_TRACK_COUNT,
            s@ == start + music_lines(t as nat),
        decreases MUSIC_TRACK_COUNT - t,
    {
        push_legend_line(s, music_key(t), music_path(t));
        assert(s@ =~= start + music_lines((t + 1) as nat));
        t = t + 1;
    }
}

/// Appends the legend lines of all sound-effect samples to `s`.
pub fn push_sfx_lines(s: &mut String)
    ensures
        final(s)@ == old(s)@ + sfx_lines(SFX_SAMPLE_COUNT as nat),
{
    let ghost start = s@;
    let mut t: usize = 0;
    while t < SFX_SAMPLE_COUNT
        invariant
            t <= SFX_SAMPLE_COUNT,
            s@ == start + sfx_lines(t as nat),
        decreases SFX_SAMPLE_COUNT - t,
    {
        push_legend_line(s, sfx_key(t), sfx_path(t));
        assert(s@ =~= start + sfx_lines((t + 1) as nat));
        t = t + 1;
    }
}

/// The indices, in catalogue order, of the samples among the first `n`
/// whose key is in `keys`.
pub open spec fn pressed_samples(keys: Set<Key>, n: nat) -> Seq<usize>
    decreases n,
{
    if n == 0 {
        Seq::empty()
    } else if keys.contains(sfx_key_of(n - 1)) {
        pressed_samples(keys, (n - 1) as nat).push((n - 1) as usize)
    } else {
        pressed_samples(keys, (n - 1) as nat)
    }
}

/// The samples to play are exactly the pressed ones among the first `n`,
/// each once, in catalogue order.
pub proof fn lemma_pressed_samples(keys: Set<Key>, n: nat)
    requires
        n <= SFX_SAMPLE_COUNT,
    ensures
        forall|i: int|
            0 <= i < pressed_samples(keys, n).len() ==> (#[trigger] pressed_samples(keys, n)[i])
                < n && keys.contains(sfx_key_of(pressed_samples(keys, n)[i] as int)),
        forall|i: int, k: int|
            0 <= i < k < pressed_samples(keys, n).len() ==> #[trigger] pressed_samples(keys, n)[i]
                < #[trigger] pressed_samples(keys, n)[k],
        forall|t: int|
            0 <= t < n && #[trigger] keys.contains(sfx_key_of(t)) ==> pressed_samples(
                keys,
                n,
            ).contains(t as usize),
    decreases n,
{
    if n > 0 {
        let m = (n - 1) as nat;
        lemma_pressed_samples(keys, m);
        let p = pressed_samples(keys, m);
        if keys.contains(sfx_key_of(m as int)) {
            let r = p.push(m as usize);
            assert(r[p.len() as int] == m as usize);
            assert forall|t: int| 0 <= t < n && #[trigger] keys.contains(sfx_key_of(t)) implies r.contains(
                t as usize,
            ) by {
                if t < m {
                    let i = choose|i: int| 0 <= i < p.len() && p[i] == t as usize;
                    assert(r[i] == t as usize);
                }
            }
            assert forall|i: int, k: int| 0 <= i < k < r.len() implies #[trigger] r[i]
                < #[trigger] r[k] by {
                assert(r[i] == p[i]);
                assert(p[i] < m);
                if k < p.len() {
                    assert(r[k] == p[k]);
                }
            }
        }
    }
}

/// What a music key asks for: stop the entity at a position of the list of
/// playing tracks, or start a music track.
#[derive(Clone, Copy, Debug, PartialEq, Eq, Structural)]
pub enum MusicAction {
    Stop(usize),
    Start(usize),
}

/// The position of the first entry of `s` at or after `i` that equals `k`.
pub open spec fn first_match(s: Seq<Key>, k: Key, i: int) -> Option<int>
    decreases s.len() - i,
{
    if i < 0 || i >= s.len() {
        None
    } else if s[i] == k {
        Some(i)
    } else {
        first_match(s, k, i + 1)
    }
}

/// The position of the first entry of `s` equal to `k`, if any.
pub fn find_key(s: &Vec<Key>, k: Key) -> (r: Option<usize>)
    ensures
        r == (match first_match(s@, k, 0) {
            Some(i) => Some(i as usize),
            None => None,
        }),
        r matches Some(j) ==> j < s@.len() && s@[j as int] == k && forall|i: int|
            0 <= i < j ==> s@[i] != k,
        r is None ==> forall|i: int| 0 <= i < s@.len() ==> s@[i] != k,
{
    let mut i: usize = 0;
    while i < s.len()
        invariant
            i <= s@.len(),
            first_match(s@, k, 0) == first_match(s@, k, i as int),
            forall|l: int| 0 <= l < i ==> s@[l] != k,
        decreases s@.len() - i,
    {
        if s[i] == k {
            return Some(i);
        }
        i = i + 1;
    }
    None
}

proof fn lemma_first_match(s: Seq<Key>, k: Key, i: int)
    requires
        0 <= i,
    ensures
        first_match(s, k, i) is Some <==> exists|j: int| i <= j < s.len() && s[j] == k,
        first_match(s, k, i) matches Some(j) ==> i <= j < s.len() && s[j] == k,
    decreases s.len() - i,
{
    if i < s.len() {
        lemma_first_match(s, k, i + 1);
    }
}

/// Whether some entry of `s` equals `k`.
pub open spec fn plays(s: Seq<Key>, k: Key) -> bool {
    exists|j: int| 0 <= j < s.len() && s[j] == k
}

/// Proves that `first_match` from 0 finds an entry exactly when one exists.
pub proof fn lemma_first_match_plays(s: Seq<Key>, k: Key)
    ensures
        first_match(s, k, 0) is Some <==> plays(s, k),
        first_match(s, k, 0) matches Some(j) ==> 0 <= j < s.len() && s[j] == k,
{
    lemma_first_match(s, k, 0);
}

} // verus!
