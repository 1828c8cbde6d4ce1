//! The translation behind the command-line `inspect`: which events of a song
//! are listed, and the chord each note maps to.
use vstd::prelude::*;

use crate::mapping::{map_note, mapped_key, KeyChord, KeyMode, NoteMode};
use crate::midi::{note_on_count, NoteEvent, NoteKind, Song};
use crate::player::{effective_transpose, transpose_fits};

verus! {

/// One listed event with the chord its note maps to.
#[derive(Debug, Clone, Copy, PartialEq, Eq, Structural)]
pub struct TranslatedEvent {
    pub event: NoteEvent,
    pub chord: KeyChord,
}

/// The events listed: all of them, or only the note-ons.
pub open spec fn listed_events(events: Seq<NoteEvent>, notes_only: bool) -> Seq<NoteEvent>
    decreases events.len(),
{
    if events.len() == 0 {
        Seq::empty()
    } else {
        let rest = listed_events(events.drop_last(), notes_only);
        if !notes_only || events.last().kind == NoteKind::NoteOn {
            rest.push(events.last())
        } else {
            rest
        }
    }
}

/// Beats per minute of a tempo in microseconds per quarter note.
pub open spec fn bpm_of(tempo_us_per_qn: int) -> int {
    60_000_000int / tempo_us_per_qn
}

impl Song {
    /// Initial tempo in beats per minute (rounded down).
    pub fn bpm(&self) -> (bpm: u32)
        requires
            self.tempo_us_per_qn > 0,
        ensures
            bpm == bpm_of(self.tempo_us_per_qn as int),
    {
        60_000_000 / self.tempo_us_per_qn
    }

    /// Number of note-on events.
    pub fn note_count(&self) -> (n: usize)
        ensures
            n == note_on_count(self.events@),
    {
        let mut notes: usize = 0;
        let mut i: usize = 0;
        proof {
            assert(self.events@.take(0) =~= Seq::<NoteEvent>::empty());
        }
        while i < self.events.len()
            invariant
                i <= self.events.len(),
                notes == note_on_count(self.events@.take(i as int)),
                notes <= i,
            decreases self.events.len() - i,
        {
            proof {
                assert(self.events@.take(i + 1).drop_last() =~= self.events@.take(i as int));
            }
            if self.events[i].kind == NoteKind::NoteOn {
                notes = notes + 1;
            }
            i = i + 1;
        }
        proof {
            assert(self.events@.take(self.events.len() as int) =~= self.events@);
        }
        notes
    }
}

/// The song's notes can be translated: in a closest mode the transpose (the
/// override, or the detected transpose plus the octave fold) added to any
/// note byte stays within `i32`.
pub fn can_translate(song: &Song, note_mode: NoteMode, transpose_override: Option<i32>) -> (r: bool)
    ensures
        r == (note_mode == NoteMode::Closest ==> transpose_fits(
            effective_transpose(*song, transpose_override),
        )),
{
    match note_mode {
        NoteMode::Raw => true,
        NoteMode::Closest => {
            let t: i64 = match transpose_override {
                Some(t) => t as i64,
                None => song.transpose as i64 + song.octave_shift as i64,
            };
            t >= i32::MIN as i64 && t + 255 <= i32::MAX as i64
        },
    }
}

/// Translate a song's events for listing: keep every event (or only the
/// note-ons), stop after `limit` of them, and map each note through the key
/// layout and mode with the transpose override (or the song's detected
/// transpose and octave fold).
pub fn translate_events(
    song: &Song,
    key_mode: KeyMode,
    note_mode: NoteMode,
    transpose_override: Option<i32>,
    notes_only: bool,
    limit: Option<usize>,
) -> (lines: Vec<TranslatedEvent>)
    requires
        note_mode == NoteMode::Closest ==> transpose_fits(effective_transpose(*song, transpose_override)),
    ensures
        ({
            let listed = listed_events(song.events@, notes_only);
            let n = match limit {
                Some(l) => if l < listed.len() {
                    l as int
                } else {
                    listed.len() as int
                },
                None => listed.len() as int,
            };
            &&& lines@.len() == n
            &&& forall|i: int|
                0 <= i < n ==> #[trigger] lines@[i] == (TranslatedEvent {
                    event: listed[i],
                    chord: mapped_key(
                        key_mode,
                        note_mode,
                        listed[i].note as int,
                        effective_transpose(*song, transpose_override),
                    ),
                })
        }),
{
    let transpose: i32 = match note_mode {
        NoteMode::Raw => 0,
        NoteMode::Closest => match transpose_override {
            Some(t) => t,
            None => (song.transpose as i64 + song.octave_shift as i64) as i32,
        },
    };
    let ghost t = effective_transpose(*song, transpose_override);
    let mut lines: Vec<TranslatedEvent> = Vec::new();
    let mut i: usize = 0;
    proof {
        assert(song.events@.take(0) =~= Seq::<NoteEvent>::empty());
    }
    while i < song.events.len()
        invariant
            note_mode == NoteMode::Closest ==> transpose == t && transpose_fits(t),
            note_mode == NoteMode::Raw ==> transpose == 0,
            i <= song.events.len(),
            lines@.len() <= listed_events(song.events@.take(i as int), notes_only).len(),
            limit matches Some(l) ==> lines@.len() <= l,
            lines@.len() < listed_events(song.events@.take(i as int), notes_only).len() ==> (limit matches Some(l) && lines@.len() == l),
            forall|k: int|
                0 <= k < lines@.len() ==> #[trigger] lines@[k] == (TranslatedEvent {
                    event: listed_events(song.events@.take(i as int), notes_only)[k],
                    chord: mapped_key(
                        key_mode,
                        note_mode,
                        listed_events(song.events@.take(i as int), notes_only)[k].note as int,
                        t,
                    ),
                }),
        decreases song.events.len() - i,
    {
        let ghost before = listed_events(song.events@.take(i as int), notes_only);
        proof {
            assert(song.events@.take(i + 1).drop_last() =~= song.events@.take(i as int));
            assert(song.events@.take(i + 1).last() == song.events@[i as int]);
        }
        let event = song.events[i];
        let full = match limit {
            Some(l) => lines.len() >= l,
            None => false,
        };
        if !full && (!notes_only || event.kind == NoteKind::NoteOn) {
            proof {
                assert(lines@.len() == before.len());
            }
            let chord = map_note(key_mode, note_mode, event.note, transpose);
            lines.push(TranslatedEvent { event, chord });
        }
        i = i + 1;
    }
    proof {
        assert(song.events@.take(song.events.len() as int) =~= song.events@);
    }
    lines
}

} // verus!
