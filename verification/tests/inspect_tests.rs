use wwm_midi_player::hotkeys::{player_command, TransportCommand};
use wwm_midi_player::inspect::translate_events;
use wwm_midi_player::mapping::{KeyChord, KeyMode, NoteMode};
use wwm_midi_player::midi::{NoteEvent, NoteKind, Song};
use wwm_midi_player::player::Command;

fn song() -> Song {
    let ev = |time_ms, kind, note| NoteEvent { time_ms, kind, note, track_id: 0 };
    Song {
        events: vec![
            ev(0, NoteKind::NoteOn, 60),
            ev(100, NoteKind::NoteOff, 60),
            ev(200, NoteKind::NoteOn, 61),
            ev(300, NoteKind::NoteOn, 62),
        ],
        duration_ms: 300,
        transpose: 0,
        octave_shift: 12,
        tempo_us_per_qn: 500_000,
        ticks_per_quarter: 480,
    }
}

#[test]
fn listing_keeps_note_ons_and_stops_at_the_limit() {
    let s = song();
    let lines = translate_events(&s, KeyMode::ThirtySix, NoteMode::Closest, Some(0), true, Some(2));
    assert_eq!(lines.len(), 2);
    assert_eq!(lines[0].event.note, 60);
    assert_eq!(lines[0].chord, KeyChord::Key('a'));
    assert_eq!(lines[1].event.note, 61);
    assert_eq!(lines[1].chord, KeyChord::Shift('a'));
    let all = translate_events(&s, KeyMode::TwentyOne, NoteMode::Closest, Some(0), false, None);
    assert_eq!(all.len(), 4);
    assert_eq!(all[1].event.kind, NoteKind::NoteOff);
}

#[test]
fn listing_applies_the_detected_transpose_and_octave_fold() {
    // Without an override the song's transpose plus its octave fold apply.
    let lines = translate_events(&song(), KeyMode::ThirtySix, NoteMode::Closest, None, true, Some(1));
    assert_eq!(lines[0].chord, KeyChord::Key('q'));
}

#[test]
fn shortcuts_drive_the_transport() {
    assert!(matches!(player_command(TransportCommand::PlayPause), Command::TogglePlayPause));
    assert!(matches!(player_command(TransportCommand::Stop), Command::Stop));
}

#[test]
fn translation_needs_a_transpose_that_fits_only_in_closest_mode() {
    use_can_translate();
}

fn use_can_translate() {
    let s = song();
    assert!(wwm_midi_player::inspect::can_translate(&s, NoteMode::Closest, Some(5)));
    assert!(!wwm_midi_player::inspect::can_translate(&s, NoteMode::Closest, Some(i32::MAX)));
    assert!(wwm_midi_player::inspect::can_translate(&s, NoteMode::Raw, Some(i32::MAX)));
    let raw = translate_events(&s, KeyMode::ThirtySix, NoteMode::Raw, Some(i32::MAX), true, Some(1));
    // 36-key raw: note 60 is slot 24, the high row's C.
    assert_eq!(raw[0].chord, KeyChord::Key('q'));
}
