use wwm_midi_player::bridge::{
    detect_game_in, live_button_color, live_button_enabled, process_is_ours, strip_file_url,
    LiveColor, PlayerBridge, ProcEntry,
};
use wwm_midi_player::mapping::KeyChord;
use wwm_midi_player::midi::{MidiError, NoteEvent, NoteKind, Song};
use wwm_midi_player::player::{Command, PlayerEvent, PlayerState};

#[test]
fn live_button_color_is_gray_without_game() {
    assert_eq!(live_button_color(false, false), LiveColor::Gray);
    assert_eq!(live_button_color(false, true), LiveColor::Gray);
}

#[test]
fn live_button_color_reflects_state_when_game_running() {
    assert_eq!(live_button_color(true, false), LiveColor::Green);
    assert_eq!(live_button_color(true, true), LiveColor::Red);
}

#[test]
fn live_button_enabled_only_when_game_running() {
    assert!(!live_button_enabled(false));
    assert!(live_button_enabled(true));
}

#[test]
fn strips_file_url_scheme() {
    assert_eq!(strip_file_url("file:///home/x/a.mid"), "/home/x/a.mid");
    assert_eq!(strip_file_url("/home/x/a.mid"), "/home/x/a.mid");
}

#[test]
fn our_own_processes_are_excluded_from_game_detection() {
    assert!(process_is_ours(
        "/home/x/wwm-midi-player-linux/target/debug/wwm-gui"
    ));
    assert!(process_is_ours("wwm-cli play song.mid"));
    assert!(!process_is_ours(
        "/games/steamapps/common/Where Winds Meet/wwm.exe"
    ));
}

fn entry(name: &str, cmdline: &str) -> ProcEntry {
    ProcEntry { name: name.to_string(), cmdline: cmdline.as_bytes().to_vec() }
}

#[test]
fn fake_proc_detects_game_and_ignores_ours() {
    let ours = entry("100", "/home/x/wwm-midi-player-linux/target/debug/wwm-gui");
    assert!(!detect_game_in(&vec![ours]));
    let ours = entry("100", "/home/x/wwm-midi-player-linux/target/debug/wwm-gui");
    let game = entry("200", "Z:\\Where Winds Meet\\wwm.exe");
    assert!(detect_game_in(&vec![ours, game]));
    // Only numeric /proc entries are processes.
    assert!(!detect_game_in(&vec![entry("self", "where winds meet")]));
    // The executable alone is enough.
    assert!(detect_game_in(&vec![entry("7", "C:\\Games\\WWM.EXE")]));
    assert!(!detect_game_in(&vec![]));
    // Invalid UTF-8 is decoded lossily before matching.
    let odd = ProcEntry { name: "9".into(), cmdline: b"\xffWinds Meet".to_vec() };
    assert!(detect_game_in(&vec![odd]));
}

#[test]
fn strip_file_url_keeps_other_schemes() {
    assert_eq!(strip_file_url("file://"), "");
    assert_eq!(strip_file_url("http://x/a.mid"), "http://x/a.mid");
    assert_eq!(strip_file_url("file:/a.mid"), "file:/a.mid");
}

fn bridge() -> PlayerBridge {
    PlayerBridge::new(
        vec!["a".into(), "b".into(), "c".into()],
        vec!["/m/a.mid".into(), "/m/b.mid".into(), "/m/c.mid".into()],
    )
}

#[test]
fn bridge_selects_and_removes_songs() {
    let mut b = bridge();
    assert_eq!(b.status, "No file loaded");
    assert_eq!(b.select_song(5), None);
    assert_eq!(b.current_index, -1);
    assert_eq!(b.select_song(1), Some("/m/b.mid".to_string()));
    assert_eq!(b.current_index, 1);
    b.remove_song(0);
    assert_eq!(b.songs, vec!["b".to_string(), "c".to_string()]);
    assert_eq!(b.current_index, 0);
    b.remove_song(0);
    assert_eq!(b.song_paths, vec!["/m/c.mid".to_string()]);
    assert_eq!(b.current_index, -1);
    // With nothing highlighted, removing a row keeps it that way.
    b.remove_song(0);
    assert!(b.song_paths.is_empty());
    assert_eq!(b.current_index, -1);
    b.remove_song(-1);
    assert_eq!(b.current_index, -1);
}

#[test]
fn bridge_status_follows_player_events() {
    let mut b = bridge();
    assert_eq!(b.apply_event(&PlayerEvent::Started), None);
    assert_eq!(b.status, "Playing");
    b.apply_event(&PlayerEvent::Live(true));
    assert_eq!(b.status, "LIVE - sending input to the game");
    b.apply_event(&PlayerEvent::Live(false));
    assert_eq!(b.status, "Not live - MIDI player only");
    b.apply_event(&PlayerEvent::Error("boom".into()));
    assert_eq!(b.status, "Error: boom");
    let fired = b.apply_event(&PlayerEvent::Note { note: 61, chord: KeyChord::Shift('a'), time_ms: 5 });
    assert_eq!(fired, Some((61, "shift+a".to_string())));
    b.apply_event(&PlayerEvent::Position(10));
    assert_eq!(b.status, "Error: boom");
}

#[test]
fn bridge_drops_live_when_the_game_goes_away() {
    let mut b = bridge();
    let state = PlayerState {
        playing: true,
        paused: false,
        live: true,
        preview: false,
        position_ms: 1200,
        duration_ms: 5000,
    };
    let commands = b.mirror(&state, false);
    assert!(matches!(commands[..], [Command::SetLive(false), Command::SetPreview(true)]));
    assert_eq!(b.position_ms, 1200);
    assert!(b.live && b.playing && !b.game_running);
    assert!(b.mirror(&state, true).is_empty());
    let go = b.go_live(true);
    assert!(matches!(go[..], [Command::SetLive(true), Command::SetPreview(false)]));
}

#[test]
fn bridge_reports_loaded_songs_and_errors() {
    let mut b = bridge();
    let note = |time_ms, kind| NoteEvent { time_ms, kind, note: 60, track_id: 0 };
    let song = Song {
        events: vec![
            note(0, NoteKind::NoteOn),
            note(10, NoteKind::NoteOff),
            note(20, NoteKind::NoteOn),
        ],
        duration_ms: 2500,
        transpose: -3,
        octave_shift: 0,
        tempo_us_per_qn: 400_000,
        ticks_per_quarter: 480,
    };
    b.song_loaded("/music/Song One.mid", &song);
    assert_eq!(b.file_name, "Song One.mid");
    assert_eq!(b.bpm, 150);
    assert_eq!(b.note_count, 2);
    assert_eq!(b.transpose, -3);
    assert!(b.loaded);
    assert_eq!(b.status, "Ready");
    b.load_failed(&MidiError::Io("No such file".into()));
    assert!(!b.loaded);
    assert_eq!(b.status, "Error: failed to read file: No such file");
}

#[test]
fn add_folder_appends_new_songs_only() {
    let mut b = PlayerBridge::new(vec!["a".into()], vec!["/m/a.mid".into()]);
    b.current_index = 0;
    b.add_folder(
        vec!["a".into(), "b".into(), "".into()],
        vec!["/m/a.mid".into(), "/m/b.mid".into(), "".into()],
    );
    assert_eq!(b.songs, vec!["a".to_string(), "b".to_string()]);
    assert_eq!(b.song_paths, vec!["/m/a.mid".to_string(), "/m/b.mid".to_string()]);
    assert_eq!(b.current_index, 0);
    // The same folder again changes nothing.
    b.add_folder(vec!["a".into(), "b".into()], vec!["/m/a.mid".into(), "/m/b.mid".into()]);
    assert_eq!(b.song_paths.len(), 2);
}

#[test]
fn moving_rows_keeps_the_highlight_on_its_song() {
    let names: Vec<String> = ["a", "b", "c", "d"].iter().map(|s| s.to_string()).collect();
    let paths: Vec<String> = names.iter().map(|n| format!("/m/{n}.mid")).collect();
    let mut b = PlayerBridge::new(names, paths);
    b.current_index = 1;
    b.move_song(1, 3);
    assert_eq!(b.songs, vec!["a", "c", "d", "b"]);
    assert_eq!(b.current_index, 3);
    b.move_song(0, 2);
    assert_eq!(b.song_paths, vec!["/m/c.mid", "/m/d.mid", "/m/a.mid", "/m/b.mid"]);
    assert_eq!(b.current_index, 3);
    b.move_song(3, 0);
    assert_eq!(b.current_index, 0);
    assert_eq!(b.song_paths[0], "/m/b.mid");
    b.move_song(2, 9);
    assert_eq!(b.current_index, 0);
}

#[test]
fn add_files_names_songs_by_their_stems() {
    let mut b = PlayerBridge::new(vec![], vec![]);
    b.add_files(vec!["/m/One.mid".into(), "/m/two.midi".into(), "/m/One.mid".into()]);
    assert_eq!(b.songs, vec!["One", "two"]);
    assert_eq!(b.song_paths, vec!["/m/One.mid", "/m/two.midi"]);
}
