//! Verified core of a Linux MIDI player for *Where Winds Meet*: MIDI parsing,
//! note-to-key mapping, the playlist model, the playback transport and the
//! small decisions of the front-ends.
use vstd::prelude::*;

pub mod bridge;
pub mod hotkeys;
pub mod input;
pub mod inspect;
pub mod listing;
pub mod mapping;
pub mod midi;
pub mod order;
pub mod paths;
pub mod player;
pub mod playlist;
pub mod preview;
pub mod queue;
pub mod sf2;
pub mod smf;
pub mod tempo;
pub mod text;

verus! {
} // verus!
