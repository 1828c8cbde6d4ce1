//! Mapping of MIDI pitches onto the game's keyboard layout.
//!
//! The game's Free Play mode exposes a tiered QWERTY grid: three octave rows
//! (bass/alto/treble = low/mid/high), each holding the seven natural note
//! positions (Do–Ti). The 21-key layout covers just those natural notes; the
//! 36-key layout additionally unlocks the accidentals of each octave as
//! Shift/Ctrl modifier chords.
use vstd::prelude::*;

use crate::text::char_to_string;

verus! {

/// A keyboard chord: an optional modifier plus a base key character.
#[derive(Debug, Clone, Copy, PartialEq, Eq, Hash, Structural)]
pub enum KeyChord {
    /// Plain key, e.g. `z`.
    Key(char),
    /// `Shift` + key, e.g. `Shift+z`.
    Shift(char),
    /// `Ctrl` + key, e.g. `Ctrl+c`.
    Ctrl(char),
}

/// Which physical keyboard layout the game is using (F1 toggles this in-game).
#[derive(Debug, Clone, Copy, PartialEq, Eq, Structural)]
pub enum KeyMode {
    /// 21 natural notes (7 per octave x 3 octaves), no modifiers.
    TwentyOne,
    /// Full 36-note chromatic layout: accidentals via Shift/Ctrl chords.
    ThirtySix,
}

/// Note-to-key calculation modes.
#[derive(Debug, Clone, Copy, PartialEq, Eq, Structural)]
pub enum NoteMode {
    /// Snap to the nearest available note.
    Closest,
    /// Direct 1:1 (`note % layout_size`) mapping, no transpose.
    Raw,
}

impl Default for KeyMode {
    fn default() -> (m: KeyMode)
        ensures
            m == KeyMode::TwentyOne,
    {
        KeyMode::TwentyOne
    }
}

impl Default for NoteMode {
    fn default() -> (m: NoteMode)
        ensures
            m == NoteMode::Closest,
    {
        NoteMode::Closest
    }
}

/// The text of a chord as the user sees it: `z`, `shift+z` or `ctrl+z`.
pub open spec fn chord_label(chord: KeyChord) -> Seq<char> {
    match chord {
        KeyChord::Key(k) => seq![k],
        KeyChord::Shift(k) => seq!['s', 'h', 'i', 'f', 't', '+', k],
        KeyChord::Ctrl(k) => seq!['c', 't', 'r', 'l', '+', k],
    }
}

impl KeyChord {
    /// The base key of the chord, whatever its modifier.
    pub open spec fn base(self) -> char {
        match self {
            KeyChord::Key(k) => k,
            KeyChord::Shift(k) => k,
            KeyChord::Ctrl(k) => k,
        }
    }

    /// Display text of the chord: `z`, `shift+a`, `ctrl+c`.
    pub fn to_string(&self) -> (s: String)
        ensures
            s@ == chord_label(*self),
    {
        match self {
            KeyChord::Key(k) => char_to_string(*k),
            KeyChord::Shift(k) => {
                let mut s = String::from_str("shift+");
                proof {
                    reveal_strlit("shift+");
                }
                let key = char_to_string(*k);
                s.append(key.as_str());
                s
            },
            KeyChord::Ctrl(k) => {
                let mut s = String::from_str("ctrl+");
                proof {
                    reveal_strlit("ctrl+");
                }
                let key = char_to_string(*k);
                s.append(key.as_str());
                s
            },
        }
    }
}

/// Natural key of octave row `row` (0 low, 1 mid, 2 high) and scale degree
/// `degree` (0 Do .. 6 Ti).
pub open spec fn natural_key(row: int, degree: int) -> char {
    if row == 0 {
        if degree == 0 { 'z' } else if degree == 1 { 'x' } else if degree == 2 { 'c' }
        else if degree == 3 { 'v' } else if degree == 4 { 'b' } else if degree == 5 { 'n' }
        else { 'm' }
    } else if row == 1 {
        if degree == 0 { 'a' } else if degree == 1 { 's' } else if degree == 2 { 'd' }
        else if degree == 3 { 'f' } else if degree == 4 { 'g' } else if degree == 5 { 'h' }
        else { 'j' }
    } else {
        if degree == 0 { 'q' } else if degree == 1 { 'w' } else if degree == 2 { 'e' }
        else if degree == 3 { 'r' } else if degree == 4 { 't' } else if degree == 5 { 'y' }
        else { 'u' }
    }
}

/// Semitone offset of scale degree `degree` above the octave's C.
pub open spec fn natural_offset(degree: int) -> int {
    if degree == 0 { 0 } else if degree == 1 { 2 } else if degree == 2 { 4 }
    else if degree == 3 { 5 } else if degree == 4 { 7 } else if degree == 5 { 9 }
    else { 11 }
}

/// The natural note with index `i` (`octave * 7 + degree`) of the playable
/// range C3..B5: index 0 is C3 (48), index 20 is B5 (83).
pub open spec fn diatonic_note(i: int) -> int {
    48 + 12 * (i / 7) + natural_offset(i % 7)
}

/// Lowest pitch of the instrument (C3).
pub open spec fn range_low() -> int {
    48
}

/// Highest pitch of the instrument (B5).
pub open spec fn range_high() -> int {
    83
}

/// Fold a pitch into [C3, B5] by whole octaves: pitches below C3 land in the
/// low octave, pitches above B5 in the high octave, the others stay.
pub open spec fn normalized(note: int) -> int {
    if note < 48 {
        48 + (note - 48) % 12
    } else if note > 83 {
        72 + (note - 72) % 12
    } else {
        note
    }
}

/// Index of the natural key at or just below a pitch class (0..11); an
/// accidental lies halfway between two naturals and takes the lower one.
pub open spec fn floor_degree(pitch_class: int) -> int {
    if pitch_class < 2 { 0 } else if pitch_class < 4 { 1 } else if pitch_class < 5 { 2 }
    else if pitch_class < 7 { 3 } else if pitch_class < 9 { 4 } else if pitch_class < 11 { 5 }
    else { 6 }
}

/// For a pitch in [C3, B5]: the index of the natural note nearest to it, the
/// lower one when two are equally near.
pub open spec fn nearest_natural_index(target: int) -> int {
    7 * ((target - 48) / 12) + floor_degree((target - 48) % 12)
}

/// Distance in semitones between natural note `i` and `target`.
pub open spec fn natural_distance(i: int, target: int) -> int {
    let d = diatonic_note(i) - target;
    if d < 0 { -d } else { d }
}

/// Octave row of an absolute pitch: C4 (60) starts the mid row, C5 (72) the
/// high row.
pub open spec fn octave_row(target: int) -> int {
    if target < 60 { 0 } else if target < 72 { 1 } else { 2 }
}

/// Chord of pitch class `semitone` on octave row `row`: naturals are plain
/// keys, C#/F#/G# take Shift, D#/A# take Ctrl, each on its natural key.
pub open spec fn semitone_chord(semitone: int, row: int) -> KeyChord {
    if semitone == 0 { KeyChord::Key(natural_key(row, 0)) }
    else if semitone == 1 { KeyChord::Shift(natural_key(row, 0)) }
    else if semitone == 2 { KeyChord::Key(natural_key(row, 1)) }
    else if semitone == 3 { KeyChord::Ctrl(natural_key(row, 2)) }
    else if semitone == 4 { KeyChord::Key(natural_key(row, 2)) }
    else if semitone == 5 { KeyChord::Key(natural_key(row, 3)) }
    else if semitone == 6 { KeyChord::Shift(natural_key(row, 3)) }
    else if semitone == 7 { KeyChord::Key(natural_key(row, 4)) }
    else if semitone == 8 { KeyChord::Shift(natural_key(row, 4)) }
    else if semitone == 9 { KeyChord::Key(natural_key(row, 5)) }
    else if semitone == 10 { KeyChord::Ctrl(natural_key(row, 6)) }
    else { KeyChord::Key(natural_key(row, 6)) }
}

/// Plain key of natural note `i` (`octave * 7 + degree`).
pub open spec fn diatonic_key(i: int) -> KeyChord {
    KeyChord::Key(natural_key(i / 7, i % 7))
}

/// 21-key closest mode: fold into range, snap to the nearest natural.
pub open spec fn key_21(note: int, transpose: int) -> KeyChord {
    diatonic_key(nearest_natural_index(normalized(note + transpose)))
}

/// 21-key raw mode: `note mod 21` indexes the natural-note grid.
pub open spec fn key_21_raw(note: int) -> KeyChord {
    diatonic_key(note % 21)
}

/// 36-key closest mode: the pitch class on the octave row of the pitch.
pub open spec fn key_36(note: int, transpose: int) -> KeyChord {
    semitone_chord((note + transpose) % 12, octave_row(note + transpose))
}

/// 36-key raw mode: `note mod 36` indexes the 36 chromatic slots.
pub open spec fn key_36_raw(note: int) -> KeyChord {
    semitone_chord((note % 36) % 12, (note % 36) / 12)
}

/// The chord of a note in the given layout and mode.
pub open spec fn mapped_key(key_mode: KeyMode, note_mode: NoteMode, note: int, transpose: int) -> KeyChord {
    match (key_mode, note_mode) {
        (KeyMode::TwentyOne, NoteMode::Closest) => key_21(note, transpose),
        (KeyMode::TwentyOne, NoteMode::Raw) => key_21_raw(note),
        (KeyMode::ThirtySix, NoteMode::Closest) => key_36(note, transpose),
        (KeyMode::ThirtySix, NoteMode::Raw) => key_36_raw(note),
    }
}

/// Octave row (0 low, 1 mid, 2 high) of a natural key character.
pub open spec fn key_row(k: char) -> int {
    if k == 'z' || k == 'x' || k == 'c' || k == 'v' || k == 'b' || k == 'n' || k == 'm' {
        0
    } else if k == 'a' || k == 's' || k == 'd' || k == 'f' || k == 'g' || k == 'h' || k == 'j' {
        1
    } else {
        2
    }
}

/// Scale degree (0 Do .. 6 Ti) of a natural key character.
pub open spec fn key_degree(k: char) -> int {
    if k == 'z' || k == 'a' || k == 'q' { 0 }
    else if k == 'x' || k == 's' || k == 'w' { 1 }
    else if k == 'c' || k == 'd' || k == 'e' { 2 }
    else if k == 'v' || k == 'f' || k == 'r' { 3 }
    else if k == 'b' || k == 'g' || k == 't' { 4 }
    else if k == 'n' || k == 'h' || k == 'y' { 5 }
    else { 6 }
}

/// The pitch the game sounds for a chord: the natural note of its key, a
/// semitone up with Shift, a semitone down with Ctrl.
pub open spec fn chord_pitch(chord: KeyChord) -> int {
    let k = chord.base();
    let natural = 48 + 12 * key_row(k) + natural_offset(key_degree(k));
    match chord {
        KeyChord::Key(_) => natural,
        KeyChord::Shift(_) => natural + 1,
        KeyChord::Ctrl(_) => natural - 1,
    }
}

/// In the 36-key closest mode every pitch of the playable range C3..B5 gets a
/// chord that sounds exactly that pitch, so no two pitches share a chord.
pub proof fn lemma_key_36_exact(note: int, transpose: int)
    requires
        48 <= note + transpose <= 83,
    ensures
        chord_pitch(key_36(note, transpose)) == note + transpose,
{
    let p = note + transpose;
    let s = p % 12;
    let r = octave_row(p);
    assert(p == 48 + 12 * r + s);
}

/// In the 21-key closest mode a pitch sounds as the nearest natural note of its
/// folded pitch, never more than a semitone away, and always as a plain key.
pub proof fn lemma_key_21_nearest(note: int, transpose: int)
    ensures
        key_21(note, transpose) is Key,
        chord_pitch(key_21(note, transpose)) == diatonic_note(
            nearest_natural_index(normalized(note + transpose)),
        ),
        normalized(note + transpose) - 1 <= chord_pitch(key_21(note, transpose)) <= normalized(
            note + transpose,
        ),
{
    let t = normalized(note + transpose);
    assert(48 <= t <= 83);
    lemma_nearest_natural(t);
    let i = nearest_natural_index(t);
    assert(0 <= i < 21);
    assert(i / 7 == 0 || i / 7 == 1 || i / 7 == 2);
    assert(0 <= i % 7 < 7);
}

/// The raw modes depend on the note only modulo the layout size: 21 in the
/// 21-key layout, 36 in the 36-key layout.
pub proof fn lemma_raw_periodic(note: int)
    ensures
        key_21_raw(note + 21) == key_21_raw(note),
        key_36_raw(note + 36) == key_36_raw(note),
{
    vstd::arithmetic::div_mod::lemma_mod_add_multiples_vanish(note, 21);
    vstd::arithmetic::div_mod::lemma_mod_add_multiples_vanish(note, 36);
    assert(21 + note == note + 21);
    assert(36 + note == note + 36);
}

fn natural_key_of(row: usize, degree: usize) -> (c: char)
    requires
        row < 3,
        degree < 7,
    ensures
        c == natural_key(row as int, degree as int),
{
    if row == 0 {
        if degree == 0 { 'z' } else if degree == 1 { 'x' } else if degree == 2 { 'c' }
        else if degree == 3 { 'v' } else if degree == 4 { 'b' } else if degree == 5 { 'n' }
        else { 'm' }
    } else if row == 1 {
        if degree == 0 { 'a' } else if degree == 1 { 's' } else if degree == 2 { 'd' }
        else if degree == 3 { 'f' } else if degree == 4 { 'g' } else if degree == 5 { 'h' }
        else { 'j' }
    } else {
        if degree == 0 { 'q' } else if degree == 1 { 'w' } else if degree == 2 { 'e' }
        else if degree == 3 { 'r' } else if degree == 4 { 't' } else if degree == 5 { 'y' }
        else { 'u' }
    }
}

fn diatonic_note_of(i: usize) -> (n: i32)
    requires
        i < 21,
    ensures
        n == diatonic_note(i as int),
{
    let degree = i % 7;
    let offset: i32 = if degree == 0 { 0 } else if degree == 1 { 2 } else if degree == 2 { 4 }
        else if degree == 3 { 5 } else if degree == 4 { 7 } else if degree == 5 { 9 }
        else { 11 };
    let octave = (i / 7) as i32;
    48 + 12 * octave + offset
}

/// Fold a pitch into the instrument range [C3, B5] by whole octaves, preserving
/// its pitch class.
pub fn normalize_into_range(note: i32) -> (r: i32)
    ensures
        r == normalized(note as int),
        48 <= r <= 83,
        (r - note) % 12 == 0,
{
    let mut result = note;
    let ghost mut k: int = 0;
    if result < 48 {
        while result < 48
            invariant
                result == note + 12 * k,
                k >= 0,
                note < 48,
                result < 60,
            decreases 60 - result,
        {
            result = result + 12;
            proof {
                k = k + 1;
            }
        }
    } else if result > 83 {
        while result > 83
            invariant
                result == note + 12 * k,
                k <= 0,
                note > 83,
                result >= 72,
            decreases result - 72,
        {
            result = result - 12;
            proof {
                k = k - 1;
            }
        }
    }
    proof {
        if note < 48 {
            assert((note - 48) % 12 == result - 48);
        } else if note > 83 {
            assert((note - 72) % 12 == result - 72);
        }
        assert((result - note) % 12 == 0);
    }
    result
}

/// Chord of a pitch class (0..11) on an octave row (0..2).
///
/// Accidentals follow the game's layout: C#/F#/G# use `Shift`, and D#/A#
/// use `Ctrl`, on their respective natural keys.
fn semitone_to_key(semitone: i32, octave: usize) -> (c: KeyChord)
    requires
        0 <= semitone < 12,
        octave < 3,
    ensures
        c == semitone_chord(semitone as int, octave as int),
{
    if semitone == 0 { KeyChord::Key(natural_key_of(octave, 0)) }
    else if semitone == 1 { KeyChord::Shift(natural_key_of(octave, 0)) }
    else if semitone == 2 { KeyChord::Key(natural_key_of(octave, 1)) }
    else if semitone == 3 { KeyChord::Ctrl(natural_key_of(octave, 2)) }
    else if semitone == 4 { KeyChord::Key(natural_key_of(octave, 2)) }
    else if semitone == 5 { KeyChord::Key(natural_key_of(octave, 3)) }
    else if semitone == 6 { KeyChord::Shift(natural_key_of(octave, 3)) }
    else if semitone == 7 { KeyChord::Key(natural_key_of(octave, 4)) }
    else if semitone == 8 { KeyChord::Shift(natural_key_of(octave, 4)) }
    else if semitone == 9 { KeyChord::Key(natural_key_of(octave, 5)) }
    else if semitone == 10 { KeyChord::Ctrl(natural_key_of(octave, 6)) }
    else { KeyChord::Key(natural_key_of(octave, 6)) }
}

/// Octave row for an absolute (post-transpose) pitch.
fn octave_of(target: i32) -> (row: usize)
    ensures
        row == octave_row(target as int),
{
    if target < 60 {
        0
    } else if target < 72 {
        1
    } else {
        2
    }
}

/// Plain key of natural note `index` (`octave * 7 + degree`).
fn diatonic_index_to_key(index: usize) -> (c: KeyChord)
    requires
        index < 21,
    ensures
        c == diatonic_key(index as int),
{
    let octave = index / 7;
    let degree = index % 7;
    KeyChord::Key(natural_key_of(octave, degree))
}

/// Natural notes are strictly ascending with their index.
proof fn lemma_diatonic_ascending(i: int, j: int)
    requires
        0 <= i < j < 21,
    ensures
        diatonic_note(i) < diatonic_note(j),
    decreases j - i,
{
    if j > i + 1 {
        lemma_diatonic_ascending(i, j - 1);
    }
}

/// The closed form `nearest_natural_index` is the nearest natural note of a
/// pitch in range, and no lower-indexed natural is as near.
pub proof fn lemma_nearest_natural(target: int)
    requires
        48 <= target <= 83,
    ensures
        0 <= nearest_natural_index(target) < 21,
        forall|j: int|
            0 <= j < 21 ==> natural_distance(nearest_natural_index(target), target)
                <= #[trigger] natural_distance(j, target),
        forall|j: int|
            0 <= j < nearest_natural_index(target) ==> natural_distance(
                nearest_natural_index(target),
                target,
            ) < #[trigger] natural_distance(j, target),
{
    let r = nearest_natural_index(target);
    let n = diatonic_note(r);
    assert(0 <= r < 21);
    assert(n == target || n + 1 == target);
    assert(n + 1 == target ==> r < 20 && diatonic_note(r + 1) == n + 2);
    assert forall|j: int| 0 <= j < 21 implies natural_distance(r, target) <= #[trigger] natural_distance(
        j,
        target,
    ) && (j < r ==> natural_distance(r, target) < natural_distance(j, target)) by {
        if j < r {
            lemma_diatonic_ascending(j, r);
        } else if j > r {
            lemma_diatonic_ascending(r, j);
            if j > r + 1 {
                lemma_diatonic_ascending(r + 1, j);
            }
        }
    }
}

/// Index (0..20) of the natural note closest to `target`.
fn nearest_diatonic_index(target: i32) -> (best: usize)
    requires
        48 <= target <= 83,
    ensures
        best == nearest_natural_index(target as int),
{
    let mut best: usize = 0;
    let first = diatonic_note_of(0);
    let mut best_dist: i32 = if first - target < 0 { target - first } else { first - target };
    let mut i: usize = 0;
    while i < 21
        invariant
            48 <= target <= 83,
            i <= 21,
            best < 21,
            i > 0 ==> best < i,
            i == 0 ==> best == 0,
            best_dist == natural_distance(best as int, target as int),
            forall|j: int| 0 <= j < i ==> best_dist <= #[trigger] natural_distance(j, target as int),
            forall|j: int| 0 <= j < best ==> best_dist < #[trigger] natural_distance(j, target as int),
        decreases 21 - i,
    {
        let n = diatonic_note_of(i);
        let dist: i32 = if n - target < 0 { target - n } else { n - target };
        if dist < best_dist {
            best_dist = dist;
            best = i;
        }
        i = i + 1;
    }
    proof {
        let c = nearest_natural_index(target as int);
        lemma_nearest_natural(target as int);
        assert(natural_distance(c, target as int) <= natural_distance(best as int, target as int));
        if (best as int) < c {
            assert(natural_distance(c, target as int) < natural_distance(best as int, target as int));
        }
        if c < best as int {
            assert(best_dist < natural_distance(c, target as int));
        }
    }
    best
}

/// 21-key "closest": fold into range, then snap to the nearest natural note.
pub fn note_to_key_21(note: i32, transpose: i32) -> (c: KeyChord)
    requires
        i32::MIN <= note + transpose <= i32::MAX,
    ensures
        c == key_21(note as int, transpose as int),
        c is Key,
{
    let target = normalize_into_range(note + transpose);
    let index = nearest_diatonic_index(target);
    diatonic_index_to_key(index)
}

/// 21-key "raw": `note mod 21` directly indexes the natural-note grid.
pub fn note_to_key_21_raw(note: i32) -> (c: KeyChord)
    ensures
        c == key_21_raw(note as int),
        c is Key,
{
    let index = match note.checked_rem_euclid(21) {
        Some(r) => r,
        None => 0,
    };
    diatonic_index_to_key(index as usize)
}

/// 36-key "closest": resolve to the nearest chromatic pitch class.
pub fn note_to_key_36(note: i32, transpose: i32) -> (c: KeyChord)
    requires
        i32::MIN <= note + transpose <= i32::MAX,
    ensures
        c == key_36(note as int, transpose as int),
{
    let target = note + transpose;
    let semitone = match target.checked_rem_euclid(12) {
        Some(r) => r,
        None => 0,
    };
    semitone_to_key(semitone, octave_of(target))
}

/// 36-key "raw": direct 1:1 mapping across all 36 chromatic slots, no transpose.
pub fn note_to_key_36_raw(note: i32) -> (c: KeyChord)
    ensures
        c == key_36_raw(note as int),
{
    let key_idx = match note.checked_rem_euclid(36) {
        Some(r) => r,
        None => 0,
    };
    let octave = (key_idx / 12) as usize;
    let semitone = key_idx % 12;
    semitone_to_key(semitone, octave)
}

/// Dispatch a MIDI note through the requested key layout and note mode.
pub fn map_note(key_mode: KeyMode, note_mode: NoteMode, note: u8, transpose: i32) -> (c: KeyChord)
    requires
        note_mode == NoteMode::Closest ==> note + transpose <= i32::MAX,
    ensures
        c == mapped_key(key_mode, note_mode, note as int, transpose as int),
{
    match (key_mode, note_mode) {
        (KeyMode::TwentyOne, NoteMode::Closest) => note_to_key_21(note as i32, transpose),
        (KeyMode::TwentyOne, NoteMode::Raw) => note_to_key_21_raw(note as i32),
        (KeyMode::ThirtySix, NoteMode::Closest) => note_to_key_36(note as i32, transpose),
        (KeyMode::ThirtySix, NoteMode::Raw) => note_to_key_36_raw(note as i32),
    }
}

} // verus!
