use wwm_midi_player::hotkeys::{command_for, TransportCommand, PLAY_PAUSE_ID, STOP_ID};

#[test]
fn maps_known_shortcut_ids() {
    assert_eq!(
        command_for(PLAY_PAUSE_ID),
        Some(TransportCommand::PlayPause)
    );
    assert_eq!(command_for(STOP_ID), Some(TransportCommand::Stop));
}

#[test]
fn unknown_id_maps_to_none() {
    assert_eq!(command_for("next_track"), None);
    assert_eq!(command_for(""), None);
}

#[test]
fn commands_display_readably() {
    assert_eq!(TransportCommand::PlayPause.to_string(), "play/pause");
    assert_eq!(TransportCommand::Stop.to_string(), "stop");
}

#[test]
fn shortcut_ids_match_exactly() {
    assert_eq!(command_for("play_pause"), Some(TransportCommand::PlayPause));
    assert_eq!(command_for("stop "), None);
    assert_eq!(command_for("Stop"), None);
    assert_eq!(command_for("play_paus"), None);
}
