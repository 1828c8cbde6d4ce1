//! MIDI file parsing: reads an SMF (Standard MIDI File), resolves tempo changes,
//! and produces a flat, time-ordered stream of note events in milliseconds.
use vstd::prelude::*;

use crate::mapping::{
    lemma_nearest_natural, natural_distance, nearest_natural_index, normalize_into_range, normalized,
    diatonic_note,
};
use crate::order::{
    dedup_consecutive, key_sorted, lemma_dedup_sorted, lemma_stable_sorted_exists,
    no_adjacent_repeats, stable_sort, stable_sorted, SortKey,
};
use crate::smf::{
    has_midi_signature, smf_contents, smf_event, smf_parse, smf_parsed, smf_ticks_per_quarter,
    smf_track_count, smf_track_len, SmfEvent, SmfEventKind, SmfView,
};
use crate::tempo::{default_tempo, tick_ms, ticks_to_ms, TempoChange};

verus! {

/// Whether a [`NoteEvent`] begins or ends a note.
#[derive(Debug, Clone, Copy, PartialEq, Eq, Structural)]
pub enum NoteKind {
    NoteOn,
    NoteOff,
}

/// A single note event resolved to wall-clock milliseconds.
#[derive(Debug, Clone, Copy, PartialEq, Eq, Structural)]
pub struct NoteEvent {
    /// Absolute time relative to the song start, in milliseconds.
    pub time_ms: u64,
    pub kind: NoteKind,
    /// MIDI note number (0..127).
    pub note: u8,
    /// Index of the MIDI track this event came from.
    pub track_id: usize,
}

impl SortKey for NoteEvent {
    open spec fn sort_key(&self) -> int {
        self.time_ms as int
    }

    fn key(&self) -> (k: u128) {
        self.time_ms as u128
    }
}

/// A parsed song, ready for playback.
#[derive(Debug, Clone)]
pub struct Song {
    /// Note events, ascending by `time_ms`.
    pub events: Vec<NoteEvent>,
    /// Duration: the time of the last event, in milliseconds.
    pub duration_ms: u64,
    /// Detected best transpose, in semitones.
    pub transpose: i32,
    /// Whole-octave fold (a multiple of 12) that keeps the most notes inside
    /// the playable window, applied on top of the detected transpose.
    pub octave_shift: i32,
    /// Initial tempo in microseconds per quarter note.
    pub tempo_us_per_qn: u32,
    /// Ticks per quarter note (resolution of the delta-times).
    pub ticks_per_quarter: u16,
}

/// Errors that can occur while loading or parsing a MIDI file.
#[derive(Debug)]
pub enum MidiError {
    /// The file could not be read; the text of the I/O error.
    Io(String),
    /// The bytes are not a MIDI file midly accepts; the text of its error.
    Parse(String),
}

/// Display text of a MIDI error.
pub open spec fn midi_error_text(e: MidiError) -> Seq<char> {
    match e {
        MidiError::Io(m) => "failed to read file: "@ + m@,
        MidiError::Parse(m) => "failed to parse MIDI: "@ + m@,
    }
}

impl MidiError {
    /// Display text: `failed to read file: ...` or `failed to parse MIDI: ...`.
    pub fn to_string(&self) -> (s: String)
        ensures
            s@ == midi_error_text(*self),
    {
        match self {
            MidiError::Io(m) => {
                let mut s = String::from_str("failed to read file: ");
                s.append(m.as_str());
                s
            },
            MidiError::Parse(m) => {
                let mut s = String::from_str("failed to parse MIDI: ");
                s.append(m.as_str());
                s
            },
        }
    }
}

/// A parsed file held as plain values.
pub struct SmfData {
    /// `Some(ticks per quarter note)` for metrical timing, `None` for timecode.
    pub ticks_per_quarter: Option<u16>,
    /// Each track's events in file order.
    pub tracks: Vec<Vec<SmfEvent>>,
}

impl View for SmfData {
    type V = SmfView;

    open spec fn view(&self) -> SmfView {
        SmfView {
            ticks_per_quarter: self.ticks_per_quarter,
            tracks: self.tracks@.map_values(|t: Vec<SmfEvent>| t@),
        }
    }
}

/// Resolution used for timing: the metrical ticks per quarter note, or 480
/// for SMPTE timecode files.
pub open spec fn resolution(ticks_per_quarter: Option<u16>) -> int {
    match ticks_per_quarter {
        Some(t) => t as int,
        None => 480,
    }
}

/// Absolute tick of the last event of `track` (the sum of its deltas).
pub open spec fn track_ticks(track: Seq<SmfEvent>) -> int
    decreases track.len(),
{
    if track.len() == 0 {
        0
    } else {
        track_ticks(track.drop_last()) + track.last().delta
    }
}

/// The tempo changes of a track, in order, at their absolute ticks.
pub open spec fn track_tempo_changes(track: Seq<SmfEvent>) -> Seq<TempoChange>
    decreases track.len(),
{
    if track.len() == 0 {
        Seq::empty()
    } else {
        let rest = track_tempo_changes(track.drop_last());
        match track.last().kind {
            SmfEventKind::Tempo(us) => rest.push(
                TempoChange { tick: track_ticks(track) as u128, us_per_qn: us },
            ),
            _ => rest,
        }
    }
}

/// The tempo changes of all tracks: track by track, each in order.
pub open spec fn all_tempo_changes(tracks: Seq<Seq<SmfEvent>>) -> Seq<TempoChange>
    decreases tracks.len(),
{
    if tracks.len() == 0 {
        Seq::empty()
    } else {
        all_tempo_changes(tracks.drop_last()) + track_tempo_changes(tracks.last())
    }
}

/// The note events of track number `track_id`, in order, timed by the tempo
/// map `tempo_map`: a note-on with velocity 0 counts as a note-off.
pub open spec fn track_note_events(
    track: Seq<SmfEvent>,
    track_id: int,
    tempo_map: Seq<TempoChange>,
    ticks_per_quarter: int,
) -> Seq<NoteEvent>
    decreases track.len(),
{
    if track.len() == 0 {
        Seq::empty()
    } else {
        let rest = track_note_events(track.drop_last(), track_id, tempo_map, ticks_per_quarter);
        let time = ticks_to_ms(tempo_map, ticks_per_quarter, track_ticks(track)) as u64;
        match track.last().kind {
            SmfEventKind::NoteOn { key, vel } => rest.push(
                NoteEvent {
                    time_ms: time,
                    kind: if vel > 0 {
                        NoteKind::NoteOn
                    } else {
                        NoteKind::NoteOff
                    },
                    note: key,
                    track_id: track_id as usize,
                },
            ),
            SmfEventKind::NoteOff { key } => rest.push(
                NoteEvent { time_ms: time, kind: NoteKind::NoteOff, note: key, track_id: track_id as usize },
            ),
            _ => rest,
        }
    }
}

/// The note events of all tracks: track by track, each in order.
pub open spec fn all_note_events(
    tracks: Seq<Seq<SmfEvent>>,
    tempo_map: Seq<TempoChange>,
    ticks_per_quarter: int,
) -> Seq<NoteEvent>
    decreases tracks.len(),
{
    if tracks.len() == 0 {
        Seq::empty()
    } else {
        all_note_events(tracks.drop_last(), tempo_map, ticks_per_quarter) + track_note_events(
            tracks.last(),
            tracks.len() - 1,
            tempo_map,
            ticks_per_quarter,
        )
    }
}

/// The tempo map of a file: its tempo changes stably ordered by tick.
pub open spec fn file_tempo_map(file: SmfView) -> Seq<TempoChange> {
    stable_sorted(all_tempo_changes(file.tracks))
}

/// The note events of a file: stably ordered by time, with consecutive
/// duplicates removed.
pub open spec fn file_note_events(file: SmfView) -> Seq<NoteEvent> {
    dedup_consecutive(
        stable_sorted(
            all_note_events(file.tracks, file_tempo_map(file), resolution(file.ticks_per_quarter)),
        ),
    )
}

/// Distance from a pitch, folded into the playable range, to the nearest
/// natural note of the instrument.
pub open spec fn scale_distance(pitch: int) -> int {
    natural_distance(nearest_natural_index(normalized(pitch)), normalized(pitch))
}

/// Total distance of the note-ons of `events`, shifted by `transpose`, to the
/// instrument's scale.
pub open spec fn transpose_score(events: Seq<NoteEvent>, transpose: int) -> int
    decreases events.len(),
{
    if events.len() == 0 {
        0
    } else {
        transpose_score(events.drop_last(), transpose) + if events.last().kind == NoteKind::NoteOn {
            scale_distance(events.last().note + transpose)
        } else {
            0
        }
    }
}

pub open spec fn abs(x: int) -> int {
    if x < 0 {
        -x
    } else {
        x
    }
}

/// Candidate `a` is at least as good as `b` for a score function: a lower
/// score, then a smaller magnitude, then the lower value.
pub open spec fn preferred(score_a: int, a: int, score_b: int, b: int) -> bool {
    score_a < score_b || (score_a == score_b && (abs(a) < abs(b) || (abs(a) == abs(b) && a <= b)))
}

/// `r` is the best transpose in -12..=12: no other candidate scores lower,
/// ties going to the transpose closest to zero (the negative one first).
pub open spec fn is_best_transpose(events: Seq<NoteEvent>, r: int) -> bool {
    &&& -12 <= r <= 12
    &&& forall|t: int|
        -12 <= t <= 12 ==> preferred(
            transpose_score(events, r),
            r,
            #[trigger] transpose_score(events, t),
            t,
        )
}

/// The best transpose of `events` (see `is_best_transpose`).
pub open spec fn best_transpose(events: Seq<NoteEvent>) -> int {
    choose|r: int| is_best_transpose(events, r)
}

/// The note-ons of `events` whose pitch, moved by `offset` semitones, falls
/// outside the playable window C3..B5.
pub open spec fn collapsed_notes(events: Seq<NoteEvent>, offset: int) -> int
    decreases events.len(),
{
    if events.len() == 0 {
        0
    } else {
        collapsed_notes(events.drop_last(), offset) + if events.last().kind == NoteKind::NoteOn && (
        events.last().note + offset < 48 || events.last().note + offset > 83) {
            1int
        } else {
            0int
        }
    }
}

/// `r` is the best octave fold for `events` under `transpose`: a multiple of
/// 12 in -48..=48 leaving the fewest notes outside the window, ties going to
/// the smallest fold (the negative one first).
pub open spec fn is_best_octave_shift(events: Seq<NoteEvent>, transpose: int, r: int) -> bool {
    &&& -48 <= r <= 48
    &&& r % 12 == 0
    &&& forall|s: int|
        -48 <= s <= 48 && s % 12 == 0 ==> preferred(
            collapsed_notes(events, transpose + r),
            r,
            #[trigger] collapsed_notes(events, transpose + s),
            s,
        )
}

/// The best octave fold (see `is_best_octave_shift`).
pub open spec fn best_octave_shift(events: Seq<NoteEvent>, transpose: int) -> int {
    choose|r: int| is_best_octave_shift(events, transpose, r)
}

/// `song` is what a file with contents `file` parses to.
pub open spec fn song_of_file(song: Song, file: SmfView) -> bool {
    let events = file_note_events(file);
    let map = file_tempo_map(file);
    &&& song.events@ == events
    &&& song.duration_ms == if events.len() == 0 {
        0
    } else {
        events.last().time_ms
    }
    &&& song.transpose == best_transpose(events)
    &&& song.octave_shift == best_octave_shift(events, best_transpose(events))
    &&& song.tempo_us_per_qn == if map.len() == 0 {
        default_tempo()
    } else {
        map[0].us_per_qn as int
    }
    &&& song.ticks_per_quarter == resolution(file.ticks_per_quarter)
}

/// The events of a parsed file come out ordered by time, and no event equals
/// the one right after it.
pub proof fn lemma_file_events_ordered(file: SmfView)
    ensures
        key_sorted(file_note_events(file)),
        no_adjacent_repeats(file_note_events(file)),
{
    let raw = all_note_events(file.tracks, file_tempo_map(file), resolution(file.ticks_per_quarter));
    lemma_stable_sorted_exists(raw);
    lemma_dedup_sorted(stable_sorted(raw));
}

/// The tempo map of a file is ordered by tick.
pub proof fn lemma_tempo_map_ordered(file: SmfView)
    ensures
        key_sorted(file_tempo_map(file)),
{
    lemma_stable_sorted_exists(all_tempo_changes(file.tracks));
}

/// Number of note-on events in `events`.
pub open spec fn note_on_count(events: Seq<NoteEvent>) -> int
    decreases events.len(),
{
    if events.len() == 0 {
        0
    } else {
        note_on_count(events.drop_last()) + if events.last().kind == NoteKind::NoteOn {
            1int
        } else {
            0int
        }
    }
}

proof fn lemma_tick_step(tick: int, j: int, delta: int)
    by (nonlinear_arith)
    requires
        0 <= tick <= j * 0xffff_ffff,
        0 <= delta <= 0xffff_ffff,
        0 <= j < 0x1_0000_0000_0000_0000,
    ensures
        tick + delta <= (j + 1) * 0xffff_ffff,
        (j + 1) * 0xffff_ffff < 0x1_0000_0000_0000_0000_0000_0000,
{
}

/// Tempo changes of every track, in file order, at their absolute ticks.
fn collect_tempo_changes(tracks: &Vec<Vec<SmfEvent>>) -> (out: Vec<TempoChange>)
    ensures
        out@ == all_tempo_changes(tracks@.map_values(|t: Vec<SmfEvent>| t@)),
{
    let ghost view = tracks@.map_values(|t: Vec<SmfEvent>| t@);
    let mut out: Vec<TempoChange> = Vec::new();
    let mut i: usize = 0;
    proof {
        assert(view.take(0) =~= Seq::<Seq<SmfEvent>>::empty());
    }
    while i < tracks.len()
        invariant
            i <= tracks.len(),
            view == tracks@.map_values(|t: Vec<SmfEvent>| t@),
            out@ == all_tempo_changes(view.take(i as int)),
        decreases tracks.len() - i,
    {
        let track = &tracks[i];
        let ghost before = out@;
        let mut tick: u128 = 0;
        let mut j: usize = 0;
        proof {
            assert(track@.take(0) =~= Seq::<SmfEvent>::empty());
            assert(before + Seq::<TempoChange>::empty() =~= before);
        }
        while j < track.len()
            invariant
                j <= track.len(),
                tick == track_ticks(track@.take(j as int)),
                tick <= j * 0xffff_ffff,
                out@ == before + track_tempo_changes(track@.take(j as int)),
            decreases track.len() - j,
        {
            let e = track[j];
            proof {
                lemma_tick_step(tick as int, j as int, e.delta as int);
                assert(track@.take(j + 1).drop_last() =~= track@.take(j as int));
            }
            tick = tick + e.delta as u128;
            match e.kind {
                SmfEventKind::Tempo(us) => {
                    out.push(TempoChange { tick, us_per_qn: us });
                    proof {
                        assert(before + track_tempo_changes(track@.take(j + 1)) =~= (before
                            + track_tempo_changes(track@.take(j as int))).push(
                            TempoChange { tick, us_per_qn: us },
                        ));
                    }
                },
                _ => {},
            }
            j = j + 1;
        }
        proof {
            assert(track@.take(track.len() as int) =~= track@);
            assert(view.take(i + 1).drop_last() =~= view.take(i as int));
            assert(view.take(i + 1).last() == track@);
        }
        i = i + 1;
    }
    proof {
        assert(view.take(tracks.len() as int) =~= view);
    }
    out
}

/// Note events of every track, in file order, timed by the tempo map.
fn collect_note_events(tracks: &Vec<Vec<SmfEvent>>, tempo_map: &Vec<TempoChange>, ticks_per_quarter: u16) -> (out: Vec<NoteEvent>)
    requires
        key_sorted(tempo_map@),
    ensures
        out@ == all_note_events(
            tracks@.map_values(|t: Vec<SmfEvent>| t@),
            tempo_map@,
            ticks_per_quarter as int,
        ),
{
    let ghost view = tracks@.map_values(|t: Vec<SmfEvent>| t@);
    let ghost tpq = ticks_per_quarter as int;
    let mut out: Vec<NoteEvent> = Vec::new();
    let mut i: usize = 0;
    proof {
        assert(view.take(0) =~= Seq::<Seq<SmfEvent>>::empty());
    }
    while i < tracks.len()
        invariant
            i <= tracks.len(),
            key_sorted(tempo_map@),
            tpq == ticks_per_quarter as int,
            view == tracks@.map_values(|t: Vec<SmfEvent>| t@),
            out@ == all_note_events(view.take(i as int), tempo_map@, tpq),
        decreases tracks.len() - i,
    {
        let track = &tracks[i];
        let ghost before = out@;
        let mut tick: u128 = 0;
        let mut j: usize = 0;
        proof {
            assert(track@.take(0) =~= Seq::<SmfEvent>::empty());
            assert(before + Seq::<NoteEvent>::empty() =~= before);
        }
        while j < track.len()
            invariant
                j <= track.len(),
                i < tracks.len(),
                key_sorted(tempo_map@),
                tpq == ticks_per_quarter as int,
                tick == track_ticks(track@.take(j as int)),
                tick <= j * 0xffff_ffff,
                out@ == before + track_note_events(track@.take(j as int), i as int, tempo_map@, tpq),
            decreases track.len() - j,
        {
            let e = track[j];
            proof {
                lemma_tick_step(tick as int, j as int, e.delta as int);
                assert(track@.take(j + 1).drop_last() =~= track@.take(j as int));
            }
            tick = tick + e.delta as u128;
            let ghost rest = track_note_events(track@.take(j as int), i as int, tempo_map@, tpq);
            match e.kind {
                SmfEventKind::NoteOn { key, vel } => {
                    let time_ms = tick_ms(tempo_map, ticks_per_quarter, tick);
                    let kind = if vel > 0 {
                        NoteKind::NoteOn
                    } else {
                        NoteKind::NoteOff
                    };
                    let ev = NoteEvent { time_ms, kind, note: key, track_id: i };
                    out.push(ev);
                    proof {
                        assert(before + rest.push(ev) =~= (before + rest).push(ev));
                    }
                },
                SmfEventKind::NoteOff { key } => {
                    let time_ms = tick_ms(tempo_map, ticks_per_quarter, tick);
                    let ev = NoteEvent { time_ms, kind: NoteKind::NoteOff, note: key, track_id: i };
                    out.push(ev);
                    proof {
                        assert(before + rest.push(ev) =~= (before + rest).push(ev));
                    }
                },
                _ => {},
            }
            j = j + 1;
        }
        proof {
            assert(track@.take(track.len() as int) =~= track@);
            assert(view.take(i + 1).drop_last() =~= view.take(i as int));
            assert(view.take(i + 1).last() == track@);
        }
        i = i + 1;
    }
    proof {
        assert(view.take(tracks.len() as int) =~= view);
    }
    out
}

/// Drop every event equal to the one just before it.
fn dedup_events(items: &Vec<NoteEvent>) -> (out: Vec<NoteEvent>)
    ensures
        out@ == dedup_consecutive(items@),
{
    let mut out: Vec<NoteEvent> = Vec::new();
    let mut i: usize = 0;
    proof {
        assert(items@.take(0) =~= Seq::<NoteEvent>::empty());
    }
    while i < items.len()
        invariant
            i <= items.len(),
            out@ == dedup_consecutive(items@.take(i as int)),
            i > 0 ==> out.len() > 0 && out@.last() == items@[i - 1],
            i == 0 ==> out.len() == 0,
        decreases items.len() - i,
    {
        let e = items[i];
        proof {
            let s = items@.take(i + 1);
            assert(s.drop_last() =~= items@.take(i as int));
            if i > 0 {
                assert(s[s.len() - 2] == items@[i - 1]);
            }
        }
        if out.len() == 0 || out[out.len() - 1] != e {
            out.push(e);
        }
        i = i + 1;
    }
    proof {
        assert(items@.take(items.len() as int) =~= items@);
    }
    out
}

/// Distance from `pitch` (folded into range) to the nearest instrument note.
fn scale_distance_of(pitch: i32) -> (d: u128)
    ensures
        d == scale_distance(pitch as int),
        d <= 35,
{
    let normalized_pitch = normalize_into_range(pitch);
    let ghost m = normalized_pitch as int;
    let mut best: i32 = 35;
    let mut i: usize = 0;
    let ghost mut witness: int = 0;
    proof {
        assert(natural_distance(0, m) == m - 48);
    }
    let first = if 48 - normalized_pitch < 0 { normalized_pitch - 48 } else { 48 - normalized_pitch };
    best = first;
    while i < 21
        invariant
            48 <= m <= 83,
            m == normalized_pitch,
            i <= 21,
            0 <= witness < 21,
            best == natural_distance(witness, m),
            0 <= best <= 35,
            forall|j: int| 0 <= j < i ==> best <= #[trigger] natural_distance(j, m),
        decreases 21 - i,
    {
        let octave = (i / 7) as i32;
        let degree = i % 7;
        let offset: i32 = if degree == 0 { 0 } else if degree == 1 { 2 } else if degree == 2 { 4 }
            else if degree == 3 { 5 } else if degree == 4 { 7 } else if degree == 5 { 9 }
            else { 11 };
        let n = 48 + 12 * octave + offset;
        proof {
            assert(n == diatonic_note(i as int));
        }
        let dist = if n - normalized_pitch < 0 { normalized_pitch - n } else { n - normalized_pitch };
        if dist < best {
            best = dist;
            proof {
                witness = i as int;
            }
        }
        i = i + 1;
    }
    proof {
        lemma_nearest_natural(m);
        let r = nearest_natural_index(m);
        assert(best <= natural_distance(r, m));
        assert(natural_distance(r, m) <= natural_distance(witness, m));
    }
    best as u128
}

/// Score of one transpose: the summed distance of every note-on to the scale.
fn score_of(events: &Vec<NoteEvent>, transpose: i32) -> (score: u128)
    requires
        -12 <= transpose <= 12,
    ensures
        score == transpose_score(events@, transpose as int),
{
    let mut score: u128 = 0;
    let mut i: usize = 0;
    proof {
        assert(events@.take(0) =~= Seq::<NoteEvent>::empty());
    }
    while i < events.len()
        invariant
            -12 <= transpose <= 12,
            i <= events.len(),
            score == transpose_score(events@.take(i as int), transpose as int),
            score <= 35 * i,
        decreases events.len() - i,
    {
        let e = events[i];
        proof {
            assert(events@.take(i + 1).drop_last() =~= events@.take(i as int));
        }
        if e.kind == NoteKind::NoteOn {
            let d = scale_distance_of(e.note as i32 + transpose);
            score = score + d;
        }
        i = i + 1;
    }
    proof {
        assert(events@.take(events.len() as int) =~= events@);
    }
    score
}

/// The best transpose is unique.
proof fn lemma_best_transpose_unique(events: Seq<NoteEvent>, r1: int, r2: int)
    requires
        is_best_transpose(events, r1),
        is_best_transpose(events, r2),
    ensures
        r1 == r2,
{
    assert(preferred(transpose_score(events, r1), r1, transpose_score(events, r2), r2));
    assert(preferred(transpose_score(events, r2), r2, transpose_score(events, r1), r1));
}

/// A pitch, folded into the playable range, is one of the instrument's
/// natural notes.
pub open spec fn on_scale(pitch: int) -> bool {
    exists|i: int| 0 <= i < 21 && #[trigger] diatonic_note(i) == normalized(pitch)
}

/// Every note-on of `events`, moved up by `transpose` semitones, lands on the
/// instrument's scale.
pub open spec fn all_on_scale(events: Seq<NoteEvent>, transpose: int) -> bool {
    forall|i: int|
        0 <= i < events.len() && events[i].kind == NoteKind::NoteOn ==> on_scale(
            #[trigger] events[i].note + transpose,
        )
}

proof fn lemma_scale_distance_zero(pitch: int)
    ensures
        scale_distance(pitch) >= 0,
        scale_distance(pitch) == 0 <==> on_scale(pitch),
{
    let m = normalized(pitch);
    assert(48 <= m <= 83);
    lemma_nearest_natural(m);
    let r = nearest_natural_index(m);
    if on_scale(pitch) {
        let i = choose|i: int| 0 <= i < 21 && #[trigger] diatonic_note(i) == m;
        assert(natural_distance(i, m) == 0);
        assert(natural_distance(r, m) <= natural_distance(i, m));
    }
    if scale_distance(pitch) == 0 {
        assert(diatonic_note(r) == m);
    }
}

proof fn lemma_score_zero(events: Seq<NoteEvent>, transpose: int)
    ensures
        transpose_score(events, transpose) >= 0,
        transpose_score(events, transpose) == 0 <==> all_on_scale(events, transpose),
    decreases events.len(),
{
    if events.len() > 0 {
        let init = events.drop_last();
        let e = events.last();
        lemma_score_zero(init, transpose);
        lemma_scale_distance_zero(e.note + transpose);
        if all_on_scale(events, transpose) {
            assert forall|i: int|
                0 <= i < init.len() && init[i].kind == NoteKind::NoteOn implies on_scale(
                #[trigger] init[i].note + transpose,
            ) by {
                assert(init[i] == events[i]);
                assert(on_scale(events[i].note + transpose));
            }
            if e.kind == NoteKind::NoteOn {
                assert(on_scale(events[events.len() - 1].note + transpose));
            }
        }
        if transpose_score(events, transpose) == 0 {
            assert forall|i: int|
                0 <= i < events.len() && events[i].kind == NoteKind::NoteOn implies on_scale(
                #[trigger] events[i].note + transpose,
            ) by {
                if i < init.len() {
                    assert(init[i] == events[i]);
                    assert(on_scale(init[i].note + transpose));
                }
            }
        }
    }
}

/// The detected transpose moves the notes up by its value: when moving every
/// note-on up by `t` puts all of them on the instrument's scale, and no
/// transpose that ranks before `t` (a smaller magnitude, or the same one
/// below it) does, the best transpose is `t`.
pub proof fn lemma_scale_aligning_transpose_is_best(events: Seq<NoteEvent>, t: int)
    requires
        -12 <= t <= 12,
        all_on_scale(events, t),
        forall|s: int|
            -12 <= s <= 12 && (abs(s) < abs(t) || (abs(s) == abs(t) && s < t)) ==> !all_on_scale(
                events,
                s,
            ),
    ensures
        best_transpose(events) == t,
{
    lemma_score_zero(events, t);
    assert forall|s: int| -12 <= s <= 12 implies preferred(
        transpose_score(events, t),
        t,
        #[trigger] transpose_score(events, s),
        s,
    ) by {
        lemma_score_zero(events, s);
    }
    assert(is_best_transpose(events, t));
    lemma_best_transpose_unique(events, t, best_transpose(events));
}

/// Heuristic: pick the transpose (-12..=12) that best aligns the song's notes
/// with the instrument scale, minimizing total distance to the nearest scale
/// note; on ties, prefer the transpose closest to zero.
pub fn detect_best_transpose(events: &Vec<NoteEvent>) -> (best: i32)
    ensures
        is_best_transpose(events@, best as int),
        best == best_transpose(events@),
{
    let mut chosen: i32 = -12;
    let mut best_score = score_of(events, -12);
    let mut t: i32 = -11;
    while t <= 12
        invariant
            -11 <= t <= 13,
            -12 <= chosen < t,
            best_score == transpose_score(events@, chosen as int),
            forall|s: int|
                -12 <= s < t ==> preferred(
                    best_score as int,
                    chosen as int,
                    #[trigger] transpose_score(events@, s),
                    s,
                ),
        decreases 13 - t,
    {
        let score = score_of(events, t);
        let abs_t = if t < 0 { -t } else { t };
        let abs_best = if chosen < 0 { -chosen } else { chosen };
        if score < best_score || (score == best_score && abs_t < abs_best) {
            best_score = score;
            chosen = t;
        }
        t = t + 1;
    }
    proof {
        assert(is_best_transpose(events@, chosen as int));
        lemma_best_transpose_unique(events@, chosen as int, best_transpose(events@));
    }
    chosen
}

/// Number of note-ons that the offset `offset` puts outside C3..B5.
fn collapsed_count(events: &Vec<NoteEvent>, offset: i64) -> (count: u64)
    requires
        -100 <= offset <= 100,
    ensures
        count == collapsed_notes(events@, offset as int),
{
    let mut count: u64 = 0;
    let mut i: usize = 0;
    proof {
        assert(events@.take(0) =~= Seq::<NoteEvent>::empty());
    }
    while i < events.len()
        invariant
            -100 <= offset <= 100,
            i <= events.len(),
            count == collapsed_notes(events@.take(i as int), offset as int),
            count <= i,
        decreases events.len() - i,
    {
        let e = events[i];
        proof {
            assert(events@.take(i + 1).drop_last() =~= events@.take(i as int));
        }
        let pitch = e.note as i64 + offset;
        if e.kind == NoteKind::NoteOn && (pitch < 48 || pitch > 83) {
            count = count + 1;
        }
        i = i + 1;
    }
    proof {
        assert(events@.take(events.len() as int) =~= events@);
    }
    count
}

proof fn lemma_best_octave_shift_unique(events: Seq<NoteEvent>, transpose: int, r1: int, r2: int)
    requires
        is_best_octave_shift(events, transpose, r1),
        is_best_octave_shift(events, transpose, r2),
    ensures
        r1 == r2,
{
    assert(preferred(collapsed_notes(events, transpose + r1), r1, collapsed_notes(events, transpose + r2), r2));
    assert(preferred(collapsed_notes(events, transpose + r2), r2, collapsed_notes(events, transpose + r1), r1));
}

/// Per-song octave fold: the whole-octave shift (-48..=48 semitones) that
/// leaves the fewest of the song's notes outside the playable C3..B5 window
/// once `transpose` is applied; ties prefer the smallest shift, so songs that
/// already fit are left unshifted.
pub fn detect_octave_shift(events: &Vec<NoteEvent>, transpose: i32) -> (best: i32)
    requires
        -12 <= transpose <= 12,
    ensures
        is_best_octave_shift(events@, transpose as int, best as int),
        best == best_octave_shift(events@, transpose as int),
{
    let mut best_shift: i32 = -48;
    let mut best_count = collapsed_count(events, transpose as i64 - 48);
    let mut k: i32 = -3;
    while k <= 4
        invariant
            -12 <= transpose <= 12,
            -3 <= k <= 5,
            -48 <= best_shift < 12 * k,
            best_shift % 12 == 0,
            best_count == collapsed_notes(events@, transpose + best_shift),
            forall|s: int|
                -48 <= s < 12 * k && s % 12 == 0 ==> preferred(
                    best_count as int,
                    best_shift as int,
                    #[trigger] collapsed_notes(events@, transpose + s),
                    s,
                ),
        decreases 5 - k,
    {
        let shift = 12 * k;
        let count = collapsed_count(events, transpose as i64 + shift as i64);
        let abs_shift = if shift < 0 { -shift } else { shift };
        let abs_best = if best_shift < 0 { -best_shift } else { best_shift };
        if count < best_count || (count == best_count && abs_shift < abs_best) {
            best_count = count;
            best_shift = shift;
        }
        proof {
            assert forall|s: int|
                -48 <= s < 12 * (k + 1) && s % 12 == 0 implies preferred(
                best_count as int,
                best_shift as int,
                #[trigger] collapsed_notes(events@, transpose + s),
                s,
            ) by {
                if s < 12 * k {
                } else {
                    assert(s == shift);
                }
            }
        }
        k = k + 1;
    }
    proof {
        assert forall|s: int| -48 <= s <= 48 && s % 12 == 0 implies preferred(
            collapsed_notes(events@, transpose + best_shift),
            best_shift as int,
            #[trigger] collapsed_notes(events@, transpose + s),
            s,
        ) by {}
        lemma_best_octave_shift_unique(
            events@,
            transpose as int,
            best_shift as int,
            best_octave_shift(events@, transpose as int),
        );
    }
    best_shift
}

/// Build the song of a parsed file: collect the tempo changes and note events
/// of every track, order both stably by time, drop repeated events, and detect
/// the transpose and octave fold.
pub fn song_from_smf(file: &SmfData) -> (song: Song)
    ensures
        song_of_file(song, file@),
{
    let ticks_per_quarter: u16 = match file.ticks_per_quarter {
        Some(t) => t,
        None => 480,
    };
    let raw_changes = collect_tempo_changes(&file.tracks);
    let tempo_map = stable_sort(&raw_changes);
    let raw_events = collect_note_events(&file.tracks, &tempo_map, ticks_per_quarter);
    let sorted = stable_sort(&raw_events);
    let events = dedup_events(&sorted);
    let duration_ms = if events.len() == 0 {
        0
    } else {
        events[events.len() - 1].time_ms
    };
    let transpose = detect_best_transpose(&events);
    let octave_shift = detect_octave_shift(&events, transpose);
    let tempo_us_per_qn = if tempo_map.len() > 0 {
        tempo_map[0].us_per_qn
    } else {
        500_000
    };
    Song { events, duration_ms, transpose, octave_shift, tempo_us_per_qn, ticks_per_quarter }
}

/// Read a parsed midly file into plain values.
fn read_smf(smf: &midly::Smf) -> (file: SmfData)
    ensures
        file@ == smf_contents(*smf),
{
    let ghost contents = smf_contents(*smf);
    let ticks_per_quarter = smf_ticks_per_quarter(smf);
    let count = smf_track_count(smf);
    let mut tracks: Vec<Vec<SmfEvent>> = Vec::new();
    let mut i: usize = 0;
    while i < count
        invariant
            count == contents.tracks.len(),
            contents == smf_contents(*smf),
            i <= count,
            tracks.len() == i,
            forall|k: int| 0 <= k < i ==> #[trigger] tracks@[k]@ == contents.tracks[k],
        decreases count - i,
    {
        let len = smf_track_len(smf, i);
        let mut track: Vec<SmfEvent> = Vec::new();
        let mut j: usize = 0;
        while j < len
            invariant
                count == contents.tracks.len(),
                contents == smf_contents(*smf),
                i < count,
                len == contents.tracks[i as int].len(),
                j <= len,
                track@ == contents.tracks[i as int].take(j as int),
            decreases len - j,
        {
            let e = smf_event(smf, i, j);
            track.push(e);
            proof {
                assert(contents.tracks[i as int].take(j + 1) =~= contents.tracks[i as int].take(
                    j as int,
                ).push(e));
            }
            j = j + 1;
        }
        proof {
            assert(track@ =~= contents.tracks[i as int]);
        }
        tracks.push(track);
        i = i + 1;
    }
    let file = SmfData { ticks_per_quarter, tracks };
    proof {
        assert(file@.tracks =~= contents.tracks);
    }
    file
}

/// Parse raw MIDI bytes into a [`Song`].
pub fn parse(data: &[u8]) -> (r: Result<Song, MidiError>)
    ensures
        r is Ok <==> smf_parsed(data@) is Ok,
        r matches Ok(song) ==> song_of_file(song, smf_parsed(data@)->Ok_0),
        r matches Err(e) ==> (e matches MidiError::Parse(text) && text@ == smf_parsed(data@)->Err_0),
        !has_midi_signature(data@) ==> r is Err,
{
    match smf_parse(data) {
        Ok(smf) => {
            let file = read_smf(&smf);
            Ok(song_from_smf(&file))
        },
        Err(text) => Err(MidiError::Parse(text)),
    }
}

} // verus!
