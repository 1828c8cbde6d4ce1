//! Global hotkeys: the transport controls that the desktop portal's shortcut
//! activations stand for.
//!
//! The portal session (XDG Desktop Portal `GlobalShortcuts`) runs around this
//! module; here a shortcut id is turned into the command it triggers.
use vstd::prelude::*;

use crate::player::Command;
use crate::text::text_eq;

verus! {

/// Application-provided shortcut id for Play/Pause.
pub const PLAY_PAUSE_ID: &'static str = "play_pause";
/// Application-provided shortcut id for Stop.
pub const STOP_ID: &'static str = "stop";
/// Preferred trigger for the Play/Pause shortcut (XKB keysym notation).
pub const PLAY_PAUSE_TRIGGER: &'static str = "CTRL+ALT+P";
/// Preferred trigger for the Stop shortcut (XKB keysym notation).
pub const STOP_TRIGGER: &'static str = "CTRL+ALT+S";

/// A transport control produced by a global shortcut.
#[derive(Debug, Clone, Copy, PartialEq, Eq, Structural)]
pub enum TransportCommand {
    PlayPause,
    Stop,
}

/// Errors from the global-shortcut layer, with the underlying error text.
#[derive(Debug)]
pub enum HotkeyError {
    /// The desktop portal is not available.
    Portal(String),
    /// Binding the shortcuts failed.
    Bind(String),
    /// Receiving shortcut activations failed.
    Signals(String),
}

/// The characters of the Play/Pause shortcut id, `play_pause`.
pub open spec fn play_pause_id() -> Seq<char> {
    seq!['p', 'l', 'a', 'y', '_', 'p', 'a', 'u', 's', 'e']
}

/// The characters of the Stop shortcut id, `stop`.
pub open spec fn stop_id() -> Seq<char> {
    seq!['s', 't', 'o', 'p']
}

/// The command a shortcut id stands for.
pub open spec fn command_of(id: Seq<char>) -> Option<TransportCommand> {
    if id == play_pause_id() {
        Some(TransportCommand::PlayPause)
    } else if id == stop_id() {
        Some(TransportCommand::Stop)
    } else {
        None
    }
}

/// Readable text of a transport command.
pub open spec fn command_label(command: TransportCommand) -> Seq<char> {
    match command {
        TransportCommand::PlayPause => seq!['p', 'l', 'a', 'y', '/', 'p', 'a', 'u', 's', 'e'],
        TransportCommand::Stop => stop_id(),
    }
}

impl TransportCommand {
    /// Display text: `play/pause` or `stop`.
    pub fn to_string(&self) -> (s: String)
        ensures
            s@ == command_label(*self),
    {
        match self {
            TransportCommand::PlayPause => {
                proof {
                    reveal_strlit("play/pause");
                    assert("play/pause"@ =~= command_label(*self));
                }
                String::from_str("play/pause")
            },
            TransportCommand::Stop => {
                proof {
                    reveal_strlit("stop");
                    assert("stop"@ =~= command_label(*self));
                }
                String::from_str("stop")
            },
        }
    }
}

/// Map a shortcut id to its transport command.
pub fn command_for(id: &str) -> (c: Option<TransportCommand>)
    ensures
        c == command_of(id@),
{
    proof {
        reveal_strlit("play_pause");
        reveal_strlit("stop");
        assert(PLAY_PAUSE_ID@ =~= play_pause_id());
        assert(STOP_ID@ =~= stop_id());
    }
    if text_eq(id, PLAY_PAUSE_ID) {
        Some(TransportCommand::PlayPause)
    } else if text_eq(id, STOP_ID) {
        Some(TransportCommand::Stop)
    } else {
        None
    }
}

/// The player command a shortcut triggers: Play/Pause toggles playback,
/// Stop stops it.
pub fn player_command(command: TransportCommand) -> (c: Command)
    ensures
        command == TransportCommand::PlayPause ==> c is TogglePlayPause,
        command == TransportCommand::Stop ==> c is Stop,
{
    match command {
        TransportCommand::PlayPause => Command::TogglePlayPause,
        TransportCommand::Stop => Command::Stop,
    }
}

} // verus!
