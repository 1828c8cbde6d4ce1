use wwm_midi_player::mapping::normalize_into_range;
use wwm_midi_player::midi::{
    detect_best_transpose, detect_octave_shift, parse, song_from_smf, MidiError, NoteEvent,
    NoteKind, SmfData,
};
use wwm_midi_player::smf::{SmfEvent, SmfEventKind};
use wwm_midi_player::tempo::{tick_ms, TempoChange};

fn note_on(time_ms: u64, note: u8) -> NoteEvent {
    NoteEvent {
        time_ms,
        kind: NoteKind::NoteOn,
        note,
        track_id: 0,
    }
}

#[test]
fn transpose_of_empty_events_is_zero() {
    assert_eq!(detect_best_transpose(&vec![]), 0);
}

#[test]
fn transpose_aligns_major_scale() {
    // A C-major scale already sits perfectly on the instrument notes.
    let events: Vec<NoteEvent> = [60, 62, 64, 65, 67, 69, 71]
        .into_iter()
        .enumerate()
        .map(|(i, n)| note_on(i as u64, n))
        .collect();
    assert_eq!(detect_best_transpose(&events), 0);
}

#[test]
fn midi_normalize_into_range_wraps_octaves() {
    assert_eq!(normalize_into_range(36), 48); // C2 -> C3
    assert_eq!(normalize_into_range(95), 83); // B6 -> B5
    assert_eq!(normalize_into_range(60), 60); // C4 unchanged
}

#[test]
fn transpose_shifts_accidentals_onto_the_scale() {
    // F#, G#, A# (and C#, D#) are a whole scale of accidentals: one semitone
    // down puts them all on naturals; one up does too, but -1 wins the tie.
    let events: Vec<NoteEvent> = [61, 63, 66, 68, 70]
        .into_iter()
        .enumerate()
        .map(|(i, n)| note_on(i as u64, n))
        .collect();
    assert_eq!(detect_best_transpose(&events), -1);
}

#[test]
fn transpose_ignores_note_offs() {
    let events = vec![NoteEvent {
        time_ms: 0,
        kind: NoteKind::NoteOff,
        note: 61,
        track_id: 0,
    }];
    assert_eq!(detect_best_transpose(&events), 0);
}

#[test]
fn octave_shift_moves_low_songs_into_the_window() {
    let low: Vec<NoteEvent> = (24..36).map(|n| note_on(0, n)).collect();
    assert_eq!(detect_octave_shift(&low, 0), 24);
    let high: Vec<NoteEvent> = (96..108).map(|n| note_on(0, n)).collect();
    assert_eq!(detect_octave_shift(&high, 0), -24);
    let fits: Vec<NoteEvent> = (48..84).map(|n| note_on(0, n)).collect();
    assert_eq!(detect_octave_shift(&fits, 0), 0);
    assert_eq!(detect_octave_shift(&vec![], 5), 0);
}

fn smf(format: u8, division: [u8; 2], tracks: &[&[u8]]) -> Vec<u8> {
    let mut out = b"MThd".to_vec();
    out.extend_from_slice(&[0, 0, 0, 6, 0, format, 0, tracks.len() as u8]);
    out.extend_from_slice(&division);
    for track in tracks {
        out.extend_from_slice(b"MTrk");
        out.extend_from_slice(&(track.len() as u32).to_be_bytes());
        out.extend_from_slice(track);
    }
    out
}

#[test]
fn parses_a_single_track_file() {
    let track: &[u8] = &[
        0x00, 0xFF, 0x51, 0x03, 0x07, 0xA1, 0x20, // tempo 500000
        0x00, 0x90, 0x3C, 0x64, // note on C4
        0x83, 0x60, 0x80, 0x3C, 0x40, // 480 ticks later: note off C4
        0x00, 0xFF, 0x2F, 0x00, // end of track
    ];
    let song = parse(&smf(0, [0x01, 0xE0], &[track])).unwrap();
    assert_eq!(
        song.events,
        vec![
            NoteEvent { time_ms: 0, kind: NoteKind::NoteOn, note: 60, track_id: 0 },
            NoteEvent { time_ms: 500, kind: NoteKind::NoteOff, note: 60, track_id: 0 },
        ]
    );
    assert_eq!(song.duration_ms, 500);
    assert_eq!(song.tempo_us_per_qn, 500_000);
    assert_eq!(song.ticks_per_quarter, 480);
    assert_eq!(song.transpose, 0);
    assert_eq!(song.octave_shift, 0);
    assert_eq!(song.bpm(), 120);
}

#[test]
fn tempo_changes_apply_across_tracks() {
    // Track 0 halves the quarter-note length at tick 480.
    let tempo: &[u8] = &[0x83, 0x60, 0xFF, 0x51, 0x03, 0x03, 0xD0, 0x90, 0x00, 0xFF, 0x2F, 0x00];
    // Track 1 plays D4 and E4 at ticks 0 and 960, plus a zero-velocity note-on.
    let notes: &[u8] = &[
        0x00, 0x90, 0x3E, 0x64, //
        0x87, 0x40, 0x90, 0x40, 0x64, //
        0x00, 0x90, 0x3E, 0x00, //
        0x00, 0xFF, 0x2F, 0x00,
    ];
    let song = parse(&smf(1, [0x01, 0xE0], &[tempo, notes])).unwrap();
    assert_eq!(
        song.events,
        vec![
            NoteEvent { time_ms: 0, kind: NoteKind::NoteOn, note: 62, track_id: 1 },
            // 480 ticks at 500 ms + 480 ticks at 250 ms.
            NoteEvent { time_ms: 750, kind: NoteKind::NoteOn, note: 64, track_id: 1 },
            NoteEvent { time_ms: 750, kind: NoteKind::NoteOff, note: 62, track_id: 1 },
        ]
    );
    assert_eq!(song.tempo_us_per_qn, 250_000);
    assert_eq!(song.duration_ms, 750);
}

#[test]
fn timecode_files_use_480_ticks_per_quarter() {
    let track: &[u8] = &[0x83, 0x60, 0x90, 0x3C, 0x64, 0x00, 0xFF, 0x2F, 0x00];
    let song = parse(&smf(0, [0xE7, 0x28], &[track])).unwrap();
    assert_eq!(song.ticks_per_quarter, 480);
    assert_eq!(song.events[0].time_ms, 500);
}

#[test]
fn rejects_bytes_that_are_not_midi() {
    match parse(b"hello world") {
        Err(MidiError::Parse(message)) => assert!(!message.is_empty()),
        other => panic!("expected a parse error, got {:?}", other.map(|s| s.events)),
    }
    assert!(matches!(parse(&[]), Err(MidiError::Parse(_))));
}

#[test]
fn midi_errors_display_their_kind() {
    assert_eq!(MidiError::Parse("bad".into()).to_string(), "failed to parse MIDI: bad");
    assert_eq!(MidiError::Io("gone".into()).to_string(), "failed to read file: gone");
}

fn ev(delta: u32, kind: SmfEventKind) -> SmfEvent {
    SmfEvent { delta, kind }
}

#[test]
fn events_sort_stably_and_drop_repeats() {
    let file = SmfData {
        ticks_per_quarter: Some(480),
        tracks: vec![
            vec![
                ev(0, SmfEventKind::NoteOn { key: 60, vel: 100 }),
                ev(0, SmfEventKind::NoteOn { key: 60, vel: 100 }),
                ev(96, SmfEventKind::NoteOff { key: 60 }),
            ],
            vec![
                ev(0, SmfEventKind::Other),
                ev(0, SmfEventKind::NoteOn { key: 64, vel: 90 }),
                ev(48, SmfEventKind::NoteOn { key: 67, vel: 90 }),
            ],
        ],
    };
    let song = song_from_smf(&file);
    assert_eq!(
        song.events,
        vec![
            NoteEvent { time_ms: 0, kind: NoteKind::NoteOn, note: 60, track_id: 0 },
            NoteEvent { time_ms: 0, kind: NoteKind::NoteOn, note: 64, track_id: 1 },
            NoteEvent { time_ms: 50, kind: NoteKind::NoteOn, note: 67, track_id: 1 },
            NoteEvent { time_ms: 100, kind: NoteKind::NoteOff, note: 60, track_id: 0 },
        ]
    );
    assert_eq!(song.duration_ms, 100);
    assert_eq!(song.tempo_us_per_qn, 500_000);
}

#[test]
fn zero_resolution_times_follow_float_division() {
    // With 0 ticks per quarter note every non-empty segment is infinite and an
    // empty one undefined: tick 0 gives 0, a later tick the largest time.
    let file = SmfData {
        ticks_per_quarter: Some(0),
        tracks: vec![vec![
            ev(0, SmfEventKind::NoteOn { key: 60, vel: 1 }),
            ev(5, SmfEventKind::NoteOn { key: 62, vel: 1 }),
        ]],
    };
    let song = song_from_smf(&file);
    assert_eq!(song.events[0].time_ms, 0);
    assert_eq!(song.events[1].time_ms, u64::MAX);
}

#[test]
fn later_ticks_never_come_earlier() {
    let map = vec![
        TempoChange { tick: 480, us_per_qn: 250_000 },
        TempoChange { tick: 960, us_per_qn: 1_000_000 },
    ];
    let times: Vec<u64> = (0..2000u128).step_by(7).map(|t| tick_ms(&map, 480, t)).collect();
    assert!(times.windows(2).all(|w| w[0] <= w[1]));
    assert_eq!(tick_ms(&map, 480, 480), 500);
    assert_eq!(tick_ms(&map, 480, 960), 750);
    assert_eq!(tick_ms(&map, 480, 1440), 1750);
}

#[test]
fn empty_bytes_are_a_parse_error() {
    assert!(matches!(parse(&[]), Err(MidiError::Parse(_))));
    assert!(matches!(parse(b"MTh"), Err(MidiError::Parse(_))));
}
