use wwm_midi_player::mapping::{KeyChord, NoteMode};
use wwm_midi_player::midi::{NoteEvent, NoteKind, Song};
use wwm_midi_player::player::{Command, Effect, PlayerEvent, Transport};
use wwm_midi_player::preview::Instrument;

fn test_song(note_times: &[u64]) -> Song {
    Song {
        events: note_times
            .iter()
            .map(|&t| NoteEvent {
                time_ms: t,
                kind: NoteKind::NoteOn,
                note: 60,
                track_id: 0,
            })
            .collect(),
        duration_ms: note_times.last().copied().unwrap_or(0),
        transpose: 0,
        octave_shift: 0,
        tempo_us_per_qn: 500_000,
        ticks_per_quarter: 480,
    }
}

fn loaded(song: Song) -> Transport {
    let mut t = Transport::new();
    let (running, _) = t.handle(Command::Load(Box::new(song)), 0);
    assert!(running);
    t
}

fn notes(effects: &[Effect]) -> usize {
    effects
        .iter()
        .filter(|e| matches!(e, Effect::Emit(PlayerEvent::Note { .. })))
        .count()
}

#[test]
fn loading_reports_duration_and_note_count() {
    let mut t = Transport::new();
    let (_, effects) = t.handle(Command::Load(Box::new(test_song(&[0, 100, 200]))), 0);
    let loaded = effects.iter().find_map(|e| match e {
        Effect::Emit(PlayerEvent::Loaded { duration_ms, notes }) => Some((*duration_ms, *notes)),
        _ => None,
    });
    assert_eq!(loaded, Some((200, 3)));
}

#[test]
fn playback_fires_notes_and_finishes() {
    let mut t = loaded(test_song(&[0, 50, 100]));
    t.handle(Command::Play, 0);
    let out = t.tick(500_000, false);
    assert_eq!(notes(&out.effects), 3);
    assert!(out.effects.iter().any(|e| matches!(e, Effect::Emit(PlayerEvent::Finished))));
    assert!(!t.state.is_playing());
}

#[test]
fn not_live_by_default() {
    let t = Transport::new();
    assert!(!t.state.is_live());
}

#[test]
fn stop_resets_position() {
    let mut t = loaded(test_song(&[0, 5_000]));
    t.handle(Command::Play, 0);
    t.tick(80_000, false);
    assert_eq!(t.state.position_ms, 80);
    t.handle(Command::Stop, 80_000);
    assert!(!t.state.is_playing());
    assert_eq!(t.state.position_ms, 0);
}

#[test]
fn pause_halts_progress() {
    let mut t = loaded(test_song(&[0, 10_000]));
    t.handle(Command::Play, 0);
    t.tick(100_000, false);
    t.handle(Command::Pause, 120_000);
    let first = t.state.position_ms;
    // While paused the transport is not ticked; a speed change re-anchors at
    // the frozen position.
    t.handle(Command::SetSpeed(2000), 400_000);
    let second = t.state.position_ms;
    assert!(t.state.is_paused());
    assert_eq!(first, 120);
    assert_eq!(first, second, "position advanced while paused");
    assert_eq!(t.anchor_song_ms, 120);
}

#[test]
fn ticks_fire_only_due_events_and_wait_for_the_next() {
    let mut t = loaded(test_song(&[0, 10, 1_000]));
    t.handle(Command::Play, 0);
    let out = t.tick(15_000, true);
    assert_eq!(notes(&out.effects), 2);
    assert_eq!(t.index, 2);
    assert_eq!(out.sleep_us, 2000);
    assert!(out
        .effects
        .iter()
        .any(|e| matches!(e, Effect::Emit(PlayerEvent::Position(15)))));
    let out = t.tick(15_500, false);
    assert_eq!(notes(&out.effects), 0);
    assert_eq!(t.state.position_ms, 15);
}

#[test]
fn playing_without_a_song_reports_an_error() {
    let mut t = Transport::new();
    let (_, effects) = t.handle(Command::Play, 0);
    assert!(matches!(&effects[..], [Effect::Emit(PlayerEvent::Error(m))] if m == "no song loaded"));
    assert!(!t.state.playing);
}

#[test]
fn going_live_creates_the_keyboard_once() {
    let mut t = loaded(test_song(&[0]));
    t.handle(Command::SetHold(30), 0);
    let (_, effects) = t.handle(Command::SetLive(true), 0);
    assert!(matches!(effects[..], [Effect::CreateKeyboard]));
    assert!(!t.state.live);
    let effects = t.keyboard_created(Ok(()));
    assert!(matches!(
        effects[..],
        [Effect::SetKeyboardHold(30), Effect::Emit(PlayerEvent::Live(true))]
    ));
    assert!(t.state.live);
    t.handle(Command::Play, 0);
    let out = t.tick(0, false);
    assert!(out
        .effects
        .iter()
        .any(|e| matches!(e, Effect::Tap(KeyChord::Key('a')))));
    let (_, effects) = t.handle(Command::SetLive(false), 0);
    assert!(matches!(effects[..], [Effect::ReleaseKeys, Effect::Emit(PlayerEvent::Live(false))]));
    let (_, effects) = t.handle(Command::SetLive(true), 0);
    assert!(matches!(effects[..], [Effect::Emit(PlayerEvent::Live(true))]));
}

#[test]
fn failing_to_create_the_keyboard_stays_offline() {
    let mut t = Transport::new();
    t.handle(Command::SetLive(true), 0);
    let effects = t.keyboard_created(Err("permission denied".into()));
    assert!(matches!(
        &effects[..],
        [Effect::Emit(PlayerEvent::Error(m)), Effect::Emit(PlayerEvent::Live(false))] if m == "permission denied"
    ));
    assert!(!t.state.live);
    assert!(!t.keyboard_ready);
}

#[test]
fn toggle_cycles_play_pause_resume() {
    let mut t = loaded(test_song(&[0, 10_000]));
    t.handle(Command::TogglePlayPause, 0);
    assert!(t.state.playing && !t.state.paused);
    t.handle(Command::TogglePlayPause, 2_000_000);
    assert!(t.state.paused);
    assert_eq!(t.state.position_ms, 2_000);
    let (_, effects) = t.handle(Command::TogglePlayPause, 0);
    assert!(matches!(effects[..], [Effect::ResetClock, Effect::Emit(PlayerEvent::Resumed)]));
    assert_eq!(t.anchor_song_ms, 2_000);
}

#[test]
fn seek_moves_to_the_first_event_not_before_the_target() {
    let mut t = loaded(test_song(&[0, 100, 200, 300]));
    t.handle(Command::Seek(150), 0);
    assert_eq!(t.index, 2);
    assert_eq!(t.state.position_ms, 150);
    t.handle(Command::Seek(200), 0);
    assert_eq!(t.index, 2);
    t.handle(Command::Seek(1_000), 0);
    assert_eq!(t.index, 4);
}

#[test]
fn speed_is_clamped_and_scales_the_clock() {
    let mut t = loaded(test_song(&[0, 100_000]));
    t.handle(Command::SetSpeed(100_000), 0);
    assert_eq!(t.speed_milli, 16_000);
    t.handle(Command::SetSpeed(1), 0);
    assert_eq!(t.speed_milli, 50);
    t.handle(Command::SetSpeed(2_000), 0);
    t.handle(Command::Play, 0);
    t.tick(1_000_000, false);
    assert_eq!(t.state.position_ms, 2_000);
}

#[test]
fn preview_sounds_notes_only_when_enabled() {
    let mut t = loaded(test_song(&[0]));
    let (_, effects) = t.handle(Command::SetPreview(true), 0);
    assert!(matches!(effects[..], [Effect::Emit(PlayerEvent::Preview(true))]));
    t.handle(Command::Play, 0);
    let out = t.tick(0, false);
    assert!(out.effects.iter().any(|e| matches!(e, Effect::PreviewNoteOn(60))));
    let (_, effects) = t.handle(Command::SetInstrument(Instrument::Erhu), 0);
    assert!(matches!(
        effects[..],
        [Effect::PreviewInstrument(Instrument::Erhu), Effect::Emit(PlayerEvent::Instrument(Instrument::Erhu))]
    ));
    let (running, effects) = t.handle(Command::Shutdown, 0);
    assert!(!running && effects.is_empty());
}

#[test]
fn transpose_override_and_octave_fold_shape_the_chords() {
    let mut song = test_song(&[0]);
    song.octave_shift = 12;
    let mut t = loaded(song);
    t.handle(Command::Play, 0);
    let out = t.tick(0, false);
    assert!(out.effects.iter().any(|e| matches!(
        e,
        Effect::Emit(PlayerEvent::Note { chord: KeyChord::Key('q'), .. })
    )));
    t.handle(Command::SetTranspose(Some(-12)), 0);
    t.handle(Command::Play, 0);
    let out = t.tick(0, false);
    assert!(out.effects.iter().any(|e| matches!(
        e,
        Effect::Emit(PlayerEvent::Note { chord: KeyChord::Key('z'), .. })
    )));
}

#[test]
fn any_transpose_is_accepted_and_raw_modes_ignore_it() {
    let mut t = loaded(test_song(&[0]));
    t.handle(Command::SetTranspose(Some(i32::MAX)), 0);
    assert_eq!(t.transpose_override, Some(i32::MAX));
    // A closest mode would overflow adding it to a note.
    assert!(!t.transpose_usable_now());
    t.handle(Command::SetMode(NoteMode::Raw), 0);
    assert!(t.transpose_usable_now());
    t.handle(Command::Play, 0);
    let out = t.tick(0, false);
    // 21-key raw: note 60 is slot 60 mod 21 = 18, the high row's Sol.
    assert!(out.effects.iter().any(|e| matches!(
        e,
        Effect::Emit(PlayerEvent::Note { chord: KeyChord::Key('t'), .. })
    )));
}

#[test]
fn a_paused_transport_keeps_its_position() {
    let mut t = loaded(test_song(&[0, 1000]));
    t.handle(Command::Play, 0);
    t.handle(Command::Pause, 300_000);
    let frozen = t.state.position_ms;
    assert_eq!(frozen, 300);
    t.handle(Command::SetSpeed(2000), 900_000);
    t.handle(Command::SetPreview(true), 900_000);
    t.handle(Command::SetTranspose(Some(3)), 900_000);
    assert!(t.state.paused);
    assert_eq!(t.state.position_ms, frozen);
}

#[test]
fn pause_freezes_the_clock_position_and_releases_keys() {
    let mut t = loaded(test_song(&[0, 10_000]));
    t.handle(Command::Play, 0);
    let mut effects = Vec::new();
    t.pause(250_000, &mut effects);
    assert!(t.state.is_paused());
    assert_eq!(t.state.position_ms, 250);
    assert!(matches!(
        effects[..],
        [Effect::ReleaseKeys, Effect::PreviewAllNotesOff, Effect::Emit(PlayerEvent::Paused)]
    ));
    // Pausing again changes nothing.
    let mut again = Vec::new();
    t.pause(900_000, &mut again);
    assert!(again.is_empty());
    assert_eq!(t.state.position_ms, 250);
}

#[test]
fn keyboard_outcome_without_a_request_changes_nothing() {
    let mut t = Transport::new();
    let effects = t.keyboard_created(Ok(()));
    assert!(effects.is_empty());
    assert!(!t.state.live);
    assert!(!t.keyboard_ready);
    // Going off-line before the keyboard exists withdraws the request.
    t.handle(Command::SetLive(true), 0);
    t.handle(Command::SetLive(false), 0);
    assert!(t.keyboard_created(Ok(())).is_empty());
    assert!(!t.state.live);
}
