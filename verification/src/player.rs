//! The playback transport: the decisions of the timing thread.
//!
//! A front-end drives the player with [`Command`]s and observes
//! [`PlayerEvent`]s. The thread that owns the clock, the virtual keyboard and
//! the audio preview runs around this module: it hands each command, or the
//! wall-clock time elapsed since the last clock reset, to a [`Transport`], and
//! performs the [`Effect`]s it returns in order.
//!
//! The player is always usable as a MIDI player. Input injection is gated
//! behind an explicit "Go Live" command, and the virtual keyboard is only
//! created the first time the user goes live.
use vstd::prelude::*;

use crate::mapping::{map_note, mapped_key, KeyChord, KeyMode, NoteMode};
use crate::midi::{note_on_count, NoteEvent, NoteKind, Song};
use crate::preview::Instrument;

verus! {

/// Snapshot of the player's state, safe to poll from a UI.
#[derive(Debug, Clone, Copy, PartialEq, Eq, Structural)]
pub struct PlayerState {
    pub playing: bool,
    pub paused: bool,
    pub live: bool,
    pub preview: bool,
    pub position_ms: u64,
    pub duration_ms: u64,
}

impl PlayerState {
    /// Playback is active (may still be paused).
    pub fn is_playing(&self) -> (r: bool)
        ensures
            r == self.playing,
    {
        self.playing
    }

    /// Playback is paused.
    pub fn is_paused(&self) -> (r: bool)
        ensures
            r == self.paused,
    {
        self.paused
    }

    /// Input injection to the game is enabled.
    pub fn is_live(&self) -> (r: bool)
        ensures
            r == self.live,
    {
        self.live
    }

    /// Local audio preview is enabled.
    pub fn is_preview(&self) -> (r: bool)
        ensures
            r == self.preview,
    {
        self.preview
    }
}

/// Commands accepted by the playback thread.
pub enum Command {
    /// Replace the loaded song (stops any current playback).
    Load(Box<Song>),
    Play,
    Pause,
    Resume,
    /// Play if stopped, pause if playing, resume if paused.
    TogglePlayPause,
    Stop,
    /// Seek to an absolute position, in milliseconds.
    Seek(u64),
    /// Playback speed in thousandths (1000 = normal speed).
    SetSpeed(u32),
    SetMode(NoteMode),
    SetKeyMode(KeyMode),
    /// Override the auto-detected transpose; `None` restores auto.
    SetTranspose(Option<i32>),
    /// Key hold duration per note, in milliseconds.
    SetHold(u64),
    /// Enable/disable input injection ("Go Live").
    SetLive(bool),
    /// Enable/disable local audio preview.
    SetPreview(bool),
    /// Switch the preview instrument.
    SetInstrument(Instrument),
    Shutdown,
}

/// Notifications emitted by the playback thread.
#[derive(Debug, Clone)]
pub enum PlayerEvent {
    Loaded { duration_ms: u64, notes: usize },
    Started,
    Paused,
    Resumed,
    Stopped,
    Finished,
    /// A note fired; carries the mapped chord for visualization.
    Note { note: u8, chord: KeyChord, time_ms: u64 },
    /// Playback position, in milliseconds.
    Position(u64),
    /// "Go Live" state changed.
    Live(bool),
    /// Audio preview state changed.
    Preview(bool),
    /// Preview instrument changed.
    Instrument(Instrument),
    /// Non-fatal error (e.g. uinput unavailable when going live).
    Error(String),
}

/// What the thread around the transport must do, in order.
#[derive(Debug, Clone)]
pub enum Effect {
    /// Send an event to the front-end.
    Emit(PlayerEvent),
    /// Release every key the virtual keyboard holds (if it exists).
    ReleaseKeys,
    /// Silence every sounding preview note.
    PreviewAllNotesOff,
    /// Start a preview note.
    PreviewNoteOn(u8),
    /// Stop a preview note.
    PreviewNoteOff(u8),
    /// Switch the preview instrument.
    PreviewInstrument(Instrument),
    /// Press and release a chord on the virtual keyboard, keeping any error.
    Tap(KeyChord),
    /// Send the errors of the taps since the last flush as `Error` events.
    FlushTapErrors,
    /// Create the virtual keyboard, then report the outcome to
    /// [`Transport::keyboard_created`].
    CreateKeyboard,
    /// Set the virtual keyboard's hold time, in milliseconds.
    SetKeyboardHold(u64),
    /// Restart the wall clock that `elapsed_us` is measured from.
    ResetClock,
}

/// The transport's state.
pub struct Transport {
    pub song: Option<Song>,
    /// Index of the next event to fire.
    pub index: usize,
    pub state: PlayerState,
    /// Song position at the last clock reset, in milliseconds.
    pub anchor_song_ms: u64,
    /// Playback speed in thousandths, within 50..=16000.
    pub speed_milli: u32,
    pub note_mode: NoteMode,
    pub key_mode: KeyMode,
    pub transpose_override: Option<i32>,
    pub hold_ms: u64,
    pub instrument: Instrument,
    /// The virtual keyboard has been created.
    pub keyboard_ready: bool,
    /// A `CreateKeyboard` effect is out and its outcome not yet reported.
    pub keyboard_requested: bool,
}

/// A transpose that every MIDI note byte can be shifted by within `i32`.
pub open spec fn transpose_fits(t: int) -> bool {
    i32::MIN <= t && t + 255 <= i32::MAX
}

/// The transpose applied to a song's notes: the override, or else the
/// song's detected transpose plus its octave fold.
pub open spec fn effective_transpose(song: Song, transpose_override: Option<i32>) -> int {
    match transpose_override {
        Some(t) => t as int,
        None => song.transpose + song.octave_shift,
    }
}

/// The transport can map its song's notes: in a closest mode the transpose
/// is added to every note byte, which must stay within `i32` (the raw modes
/// ignore the transpose).
pub open spec fn transpose_usable(t: Transport) -> bool {
    t.note_mode == NoteMode::Raw || match t.song {
        Some(song) => transpose_fits(effective_transpose(song, t.transpose_override)),
        None => true,
    }
}

/// Song position `elapsed_us` of wall time after the last clock reset, at the
/// given speed: rounded down to milliseconds, capped at `u64::MAX`.
pub open spec fn song_clock(anchor_ms: int, elapsed_us: int, speed_milli: int) -> int {
    let ms = anchor_ms + elapsed_us * speed_milli / 1_000_000;
    if ms > u64::MAX {
        u64::MAX as int
    } else {
        ms
    }
}

/// Number of events in the loaded song (0 without one).
pub open spec fn song_len(song: Option<Song>) -> int {
    match song {
        Some(s) => s.events.len() as int,
        None => 0,
    }
}

/// The first index from `from` on whose event lies after `now` (the length
/// when there is none): the events in between fire at `now`.
pub open spec fn next_pending(events: Seq<NoteEvent>, from: int, now: int) -> int
    decreases events.len() - from,
{
    if from < 0 || from >= events.len() || events[from].time_ms > now {
        from
    } else {
        next_pending(events, from + 1, now)
    }
}

/// The first index whose event is not before `target` (0 without a song).
pub open spec fn seek_index(events: Seq<NoteEvent>, target: int) -> int {
    next_pending_before(events, 0, target)
}

/// The first index from `from` on whose event is at or after `target`.
pub open spec fn next_pending_before(events: Seq<NoteEvent>, from: int, target: int) -> int
    decreases events.len() - from,
{
    if from < 0 || from >= events.len() || events[from].time_ms >= target {
        from
    } else {
        next_pending_before(events, from + 1, target)
    }
}

/// The effects of firing one event: the preview note (when previewing), and
/// for a note-on the tap (when live) and the `Note` event with its chord.
pub open spec fn note_effects(
    event: NoteEvent,
    key_mode: KeyMode,
    note_mode: NoteMode,
    transpose: int,
    live: bool,
    preview: bool,
) -> Seq<Effect> {
    let sound = if preview {
        seq![
            if event.kind == NoteKind::NoteOn {
                Effect::PreviewNoteOn(event.note)
            } else {
                Effect::PreviewNoteOff(event.note)
            },
        ]
    } else {
        Seq::empty()
    };
    if event.kind == NoteKind::NoteOn {
        let chord = mapped_key(key_mode, note_mode, event.note as int, transpose);
        sound + (if live {
            seq![Effect::Tap(chord)]
        } else {
            Seq::empty()
        }) + seq![
            Effect::Emit(PlayerEvent::Note { note: event.note, chord, time_ms: event.time_ms }),
        ]
    } else {
        sound
    }
}

/// The effects of firing `events[from..to]` in order.
pub open spec fn fired_effects(
    events: Seq<NoteEvent>,
    from: int,
    to: int,
    key_mode: KeyMode,
    note_mode: NoteMode,
    transpose: int,
    live: bool,
    preview: bool,
) -> Seq<Effect>
    decreases to - from,
{
    if to <= from {
        Seq::empty()
    } else {
        fired_effects(events, from, to - 1, key_mode, note_mode, transpose, live, preview)
            + note_effects(events[to - 1], key_mode, note_mode, transpose, live, preview)
    }
}

/// `effects` are exactly the events given, each sent to the front-end.
pub open spec fn emits(effects: Seq<Effect>, first: PlayerEvent) -> bool {
    effects.len() == 1 && effects[0] == Effect::Emit(first)
}

/// The effects of a stop: release keys, silence the preview, and report
/// `Stopped` when asked to and playback was running.
pub open spec fn stop_effects(notify: bool, was_playing: bool) -> Seq<Effect> {
    seq![Effect::ReleaseKeys, Effect::PreviewAllNotesOff] + if notify && was_playing {
        seq![Effect::Emit(PlayerEvent::Stopped)]
    } else {
        Seq::empty()
    }
}

/// The wait (in microseconds) until event time `next_ms` from song position
/// `now_ms` at the given speed, capped at 2 ms so commands stay responsive.
pub open spec fn wait_us(next_ms: int, now_ms: int, speed_milli: int) -> int {
    let wait = (next_ms - now_ms) * 1_000_000 / speed_milli;
    if wait > 2000 {
        2000
    } else {
        wait
    }
}

/// `effect` reports an error with text `text`.
pub open spec fn is_error(effect: Effect, text: Seq<char>) -> bool {
    match effect {
        Effect::Emit(PlayerEvent::Error(m)) => m@ == text,
        _ => false,
    }
}

proof fn lemma_clock_product_fits(elapsed_us: int, speed_milli: int)
    by (nonlinear_arith)
    requires
        0 <= elapsed_us <= u64::MAX,
        0 <= speed_milli <= u32::MAX,
    ensures
        0 <= elapsed_us * speed_milli <= u128::MAX,
{
}

/// Fire the events of `song` from `start` on that are due at `now`; returns
/// the index of the first event still pending and the effects of the fired
/// ones.
fn fire_due(
    song: &Song,
    start: usize,
    now: u64,
    key_mode: KeyMode,
    note_mode: NoteMode,
    transpose: i32,
    live: bool,
    preview: bool,
) -> (r: (usize, Vec<Effect>))
    requires
        start <= song.events.len(),
        note_mode == NoteMode::Closest ==> transpose_fits(transpose as int),
    ensures
        r.0 == next_pending(song.events@, start as int, now as int),
        start <= r.0 <= song.events.len(),
        r.0 < song.events.len() ==> song.events@[r.0 as int].time_ms > now,
        r.1@ == fired_effects(
            song.events@,
            start as int,
            r.0 as int,
            key_mode,
            note_mode,
            transpose as int,
            live,
            preview,
        ),
{
    let mut effects: Vec<Effect> = Vec::new();
    let len = song.events.len();
    let mut i = start;
    while i < len && song.events[i].time_ms <= now
        invariant
            len == song.events@.len(),
            start <= i <= len,
            note_mode == NoteMode::Closest ==> transpose_fits(transpose as int),
            next_pending(song.events@, i as int, now as int) == next_pending(
                song.events@,
                start as int,
                now as int,
            ),
            effects@ == fired_effects(
                song.events@,
                start as int,
                i as int,
                key_mode,
                note_mode,
                transpose as int,
                live,
                preview,
            ),
        decreases len - i,
    {
        let event = song.events[i];
        let ghost before = effects@;
        if preview {
            if event.kind == NoteKind::NoteOn {
                effects.push(Effect::PreviewNoteOn(event.note));
            } else {
                effects.push(Effect::PreviewNoteOff(event.note));
            }
        }
        if event.kind == NoteKind::NoteOn {
            let chord = map_note(key_mode, note_mode, event.note, transpose);
            if live {
                effects.push(Effect::Tap(chord));
            }
            effects.push(
                Effect::Emit(PlayerEvent::Note { note: event.note, chord, time_ms: event.time_ms }),
            );
        }
        proof {
            assert(effects@ =~= before + note_effects(
                event,
                key_mode,
                note_mode,
                transpose as int,
                live,
                preview,
            ));
        }
        i = i + 1;
    }
    (i, effects)
}

/// In a raw mode the effects of firing events do not depend on the
/// transpose.
proof fn lemma_raw_ignores_transpose(
    events: Seq<NoteEvent>,
    from: int,
    to: int,
    key_mode: KeyMode,
    a: int,
    b: int,
    live: bool,
    preview: bool,
)
    ensures
        fired_effects(events, from, to, key_mode, NoteMode::Raw, a, live, preview) == fired_effects(
            events,
            from,
            to,
            key_mode,
            NoteMode::Raw,
            b,
            live,
            preview,
        ),
    decreases to - from,
{
    if to > from {
        lemma_raw_ignores_transpose(events, from, to - 1, key_mode, a, b, live, preview);
    }
}

/// The transport after a stop: back at the first event, position zero,
/// neither playing nor paused.
pub open spec fn stopped(t: Transport) -> Transport {
    Transport {
        index: 0,
        state: PlayerState { playing: false, paused: false, position_ms: 0, ..t.state },
        ..t
    }
}

/// The transport after starting a loaded song: playing from the stored
/// position, or from the beginning when every event has fired.
pub open spec fn started(t: Transport) -> Transport {
    let restart = t.index >= song_len(t.song);
    let position = if restart {
        0
    } else {
        t.state.position_ms
    };
    Transport {
        index: if restart {
            0
        } else {
            t.index
        },
        state: PlayerState { playing: true, paused: false, position_ms: position, ..t.state },
        anchor_song_ms: position,
        ..t
    }
}

/// The transport paused `elapsed_us` after its clock reset: the position is
/// frozen where the clock stood.
pub open spec fn paused_at(t: Transport, elapsed_us: int) -> Transport {
    Transport {
        state: PlayerState { paused: true, position_ms: t.song_position(elapsed_us) as u64, ..t.state },
        ..t
    }
}

/// The transport resumed: the clock runs again from the frozen position.
pub open spec fn resumed(t: Transport) -> Transport {
    Transport {
        state: PlayerState { paused: false, ..t.state },
        anchor_song_ms: t.state.position_ms,
        ..t
    }
}

/// The transport with the preview switched on or off.
pub open spec fn preview_set(t: Transport, preview: bool) -> Transport {
    Transport { state: PlayerState { preview, ..t.state }, ..t }
}

/// The transport with input injection switched on (once the virtual keyboard
/// exists) or off.
pub open spec fn live_set(t: Transport, live: bool) -> Transport {
    Transport { state: PlayerState { live, ..t.state }, ..t }
}

/// What a tick returns.
pub struct TickOutcome {
    pub effects: Vec<Effect>,
    /// How long the thread may sleep before the next tick.
    pub sleep_us: u64,
}

impl Transport {
    /// The transport's invariant.
    pub open spec fn wf(&self) -> bool {
        &&& self.index <= song_len(self.song)
        &&& 50 <= self.speed_milli <= 16000
        &&& self.state.paused ==> self.state.playing
        &&& self.state.live ==> self.keyboard_ready
        &&& self.keyboard_requested ==> !self.keyboard_ready
    }

    /// Song position now, for a clock reset `elapsed_us` ago: the stored
    /// position when stopped or paused, else the running clock.
    pub open spec fn song_position(&self, elapsed_us: int) -> int {
        if self.state.paused || !self.state.playing {
            self.state.position_ms as int
        } else {
            song_clock(self.anchor_song_ms as int, elapsed_us, self.speed_milli as int)
        }
    }

    /// A stopped transport with no song: not live, no preview, normal speed,
    /// closest-note mapping on the 21-key layout, Guqin preview.
    pub fn new() -> (t: Transport)
        ensures
            t.wf(),
            t.song is None,
            t.index == 0,
            t.state == (PlayerState {
                playing: false,
                paused: false,
                live: false,
                preview: false,
                position_ms: 0,
                duration_ms: 0,
            }),
            t.anchor_song_ms == 0,
            t.speed_milli == 1000,
            t.note_mode == NoteMode::Closest,
            t.key_mode == KeyMode::TwentyOne,
            t.transpose_override is None,
            t.hold_ms == 0,
            t.instrument == Instrument::Guqin,
            !t.keyboard_ready,
            !t.keyboard_requested,
    {
        Transport {
            song: None,
            index: 0,
            state: PlayerState {
                playing: false,
                paused: false,
                live: false,
                preview: false,
                position_ms: 0,
                duration_ms: 0,
            },
            anchor_song_ms: 0,
            speed_milli: 1000,
            note_mode: NoteMode::Closest,
            key_mode: KeyMode::TwentyOne,
            transpose_override: None,
            hold_ms: 0,
            instrument: Instrument::Guqin,
            keyboard_ready: false,
            keyboard_requested: false,
        }
    }

    /// Whether the transport can map its song's notes now (see
    /// [`transpose_usable`]), for a caller about to tick.
    pub fn transpose_usable_now(&self) -> (r: bool)
        ensures
            r == transpose_usable(*self),
    {
        match self.note_mode {
            NoteMode::Raw => true,
            NoteMode::Closest => match &self.song {
                None => true,
                Some(song) => {
                    let t: i64 = match self.transpose_override {
                        Some(t) => t as i64,
                        None => song.transpose as i64 + song.octave_shift as i64,
                    };
                    t >= i32::MIN as i64 && t + 255 <= i32::MAX as i64
                },
            },
        }
    }

    /// The transport plays: it is playing and not paused.
    pub fn is_active(&self) -> (r: bool)
        ensures
            r == (self.state.playing && !self.state.paused),
    {
        self.state.playing && !self.state.paused
    }

    fn clock_ms(&self, elapsed_us: u64) -> (ms: u64)
        ensures
            ms == song_clock(self.anchor_song_ms as int, elapsed_us as int, self.speed_milli as int),
    {
        proof {
            lemma_clock_product_fits(elapsed_us as int, self.speed_milli as int);
        }
        let advanced = elapsed_us as u128 * self.speed_milli as u128 / 1_000_000;
        let ms = self.anchor_song_ms as u128 + advanced;
        if ms > u64::MAX as u128 {
            u64::MAX
        } else {
            ms as u64
        }
    }

    /// Song position implied by the wall clock since the last reset.
    fn current_song_ms(&self, elapsed_us: u64) -> (ms: u64)
        ensures
            ms == self.song_position(elapsed_us as int),
    {
        if self.state.paused || !self.state.playing {
            return self.state.position_ms;
        }
        self.clock_ms(elapsed_us)
    }

    fn start(&mut self, effects: &mut Vec<Effect>)
        requires
            old(self).wf(),
        ensures
            final(self).wf(),
            old(self).song is None ==> *final(self) == *old(self) && final(effects)@.len() == old(
                effects,
            )@.len() + 1 && final(effects)@.subrange(0, old(effects)@.len() as int) == old(
                effects,
            )@ && is_error(final(effects)@.last(), "no song loaded"@),
            old(self).song is Some ==> {
                let restart = old(self).index >= song_len(old(self).song);
                let position = if restart {
                    0
                } else {
                    old(self).state.position_ms
                };
                &&& *final(self) == (Transport {
                    index: if restart {
                        0
                    } else {
                        old(self).index
                    },
                    state: PlayerState {
                        playing: true,
                        paused: false,
                        position_ms: position,
                        ..old(self).state
                    },
                    anchor_song_ms: position,
                    ..*old(self)
                })
                &&& final(effects)@ == old(effects)@ + seq![
                    Effect::ResetClock,
                    Effect::Emit(PlayerEvent::Started),
                ]
            },
    {
        let len = match &self.song {
            None => {
                let message = String::from_str("no song loaded");
                effects.push(Effect::Emit(PlayerEvent::Error(message)));
                return ;
            },
            Some(song) => song.events.len(),
        };
        if self.index >= len {
            self.index = 0;
            self.state.position_ms = 0;
        }
        self.anchor_song_ms = self.state.position_ms;
        effects.push(Effect::ResetClock);
        self.state.playing = true;
        self.state.paused = false;
        effects.push(Effect::Emit(PlayerEvent::Started));
    }

    /// Pause a running transport, `elapsed_us` after its last clock reset:
    /// the position freezes where the clock stands, held keys and preview
    /// notes are released, and `Paused` is reported. A stopped or already
    /// paused transport is left as it is.
    pub fn pause(&mut self, elapsed_us: u64, effects: &mut Vec<Effect>)
        requires
            old(self).wf(),
        ensures
            final(self).wf(),
            !old(self).state.playing || old(self).state.paused ==> *final(self) == *old(self)
                && final(effects)@ == old(effects)@,
            old(self).state.playing && !old(self).state.paused ==> {
                &&& *final(self) == paused_at(*old(self), elapsed_us as int)
                &&& final(effects)@ == old(effects)@ + seq![
                    Effect::ReleaseKeys,
                    Effect::PreviewAllNotesOff,
                    Effect::Emit(PlayerEvent::Paused),
                ]
            },
    {
        if !self.state.playing || self.state.paused {
            return ;
        }
        let position = self.current_song_ms(elapsed_us);
        self.state.position_ms = position;
        self.state.paused = true;
        effects.push(Effect::ReleaseKeys);
        effects.push(Effect::PreviewAllNotesOff);
        effects.push(Effect::Emit(PlayerEvent::Paused));
    }

    fn resume(&mut self, effects: &mut Vec<Effect>)
        requires
            old(self).wf(),
        ensures
            final(self).wf(),
            !old(self).state.playing || !old(self).state.paused ==> *final(self) == *old(self)
                && final(effects)@ == old(effects)@,
            old(self).state.playing && old(self).state.paused ==> {
                &&& *final(self) == (Transport {
                    state: PlayerState { paused: false, ..old(self).state },
                    anchor_song_ms: old(self).state.position_ms,
                    ..*old(self)
                })
                &&& final(effects)@ == old(effects)@ + seq![
                    Effect::ResetClock,
                    Effect::Emit(PlayerEvent::Resumed),
                ]
            },
    {
        if !self.state.playing || !self.state.paused {
            return ;
        }
        self.anchor_song_ms = self.state.position_ms;
        effects.push(Effect::ResetClock);
        self.state.paused = false;
        effects.push(Effect::Emit(PlayerEvent::Resumed));
    }

    fn stop_playback(&mut self, notify: bool, effects: &mut Vec<Effect>)
        requires
            old(self).wf(),
        ensures
            final(self).wf(),
            *final(self) == (Transport {
                index: 0,
                state: PlayerState {
                    playing: false,
                    paused: false,
                    position_ms: 0,
                    ..old(self).state
                },
                ..*old(self)
            }),
            final(effects)@ == old(effects)@ + stop_effects(notify, old(self).state.playing),
    {
        let was_playing = self.state.playing;
        self.state.playing = false;
        self.state.paused = false;
        self.state.position_ms = 0;
        self.index = 0;
        effects.push(Effect::ReleaseKeys);
        effects.push(Effect::PreviewAllNotesOff);
        if notify && was_playing {
            effects.push(Effect::Emit(PlayerEvent::Stopped));
        }
        proof {
            assert(final(effects)@ =~= old(effects)@ + stop_effects(notify, was_playing));
        }
    }

    fn seek(&mut self, target_ms: u64, effects: &mut Vec<Effect>)
        requires
            old(self).wf(),
        ensures
            final(self).wf(),
            *final(self) == (Transport {
                index: match old(self).song {
                    Some(song) => seek_index(song.events@, target_ms as int) as usize,
                    None => 0,
                },
                state: PlayerState { position_ms: target_ms, ..old(self).state },
                anchor_song_ms: target_ms,
                ..*old(self)
            }),
            final(effects)@ == old(effects)@ + seq![
                Effect::ResetClock,
                Effect::ReleaseKeys,
                Effect::PreviewAllNotesOff,
            ],
    {
        let index = match &self.song {
            Some(song) => {
                let mut i: usize = 0;
                while i < song.events.len() && song.events[i].time_ms < target_ms
                    invariant
                        i <= song.events.len(),
                        next_pending_before(song.events@, i as int, target_ms as int)
                            == next_pending_before(song.events@, 0, target_ms as int),
                    decreases song.events.len() - i,
                {
                    i = i + 1;
                }
                i
            },
            None => 0,
        };
        self.index = index;
        self.state.position_ms = target_ms;
        self.anchor_song_ms = target_ms;
        effects.push(Effect::ResetClock);
        effects.push(Effect::ReleaseKeys);
        effects.push(Effect::PreviewAllNotesOff);
    }

    fn set_live(&mut self, live: bool, effects: &mut Vec<Effect>)
        requires
            old(self).wf(),
        ensures
            final(self).wf(),
            !live ==> *final(self) == (Transport {
                state: PlayerState { live: false, ..old(self).state },
                keyboard_requested: false,
                ..*old(self)
            }) && final(effects)@ == old(effects)@ + seq![
                Effect::ReleaseKeys,
                Effect::Emit(PlayerEvent::Live(false)),
            ],
            live && old(self).keyboard_ready ==> *final(self) == (Transport {
                state: PlayerState { live: true, ..old(self).state },
                ..*old(self)
            }) && final(effects)@ == old(effects)@ + seq![Effect::Emit(PlayerEvent::Live(true))],
            live && !old(self).keyboard_ready ==> *final(self) == (Transport {
                keyboard_requested: true,
                ..*old(self)
            }) && final(effects)@ == old(effects)@ + seq![Effect::CreateKeyboard],
    {
        if !live {
            self.state.live = false;
            self.keyboard_requested = false;
            effects.push(Effect::ReleaseKeys);
            effects.push(Effect::Emit(PlayerEvent::Live(false)));
            return ;
        }
        if !self.keyboard_ready {
            self.keyboard_requested = true;
            effects.push(Effect::CreateKeyboard);
            return ;
        }
        self.state.live = true;
        effects.push(Effect::Emit(PlayerEvent::Live(true)));
    }

    /// Report the outcome of creating the virtual keyboard asked for by a
    /// `CreateKeyboard` effect: on success the keyboard takes the hold time
    /// and the player goes live; on failure it stays off-line and the error is
    /// reported. With no such request outstanding (none was made, or going
    /// off-line withdrew it) nothing changes.
    pub fn keyboard_created(&mut self, result: Result<(), String>) -> (effects: Vec<Effect>)
        requires
            old(self).wf(),
        ensures
            final(self).wf(),
            !old(self).keyboard_requested ==> *final(self) == *old(self) && effects@.len() == 0,
            old(self).keyboard_requested && result is Ok ==> *final(self) == (Transport {
                keyboard_ready: true,
                keyboard_requested: false,
                state: PlayerState { live: true, ..old(self).state },
                ..*old(self)
            }) && effects@ == seq![
                Effect::SetKeyboardHold(old(self).hold_ms),
                Effect::Emit(PlayerEvent::Live(true)),
            ],
            old(self).keyboard_requested ==> (result matches Err(message) ==> *final(self) == (Transport {
                state: PlayerState { live: false, ..old(self).state },
                keyboard_requested: false,
                ..*old(self)
            }) && effects@.len() == 2 && is_error(effects@[0], message@) && effects@[1]
                == Effect::Emit(PlayerEvent::Live(false))),
    {
        let mut effects: Vec<Effect> = Vec::new();
        if !self.keyboard_requested {
            return effects;
        }
        self.keyboard_requested = false;
        match result {
            Ok(()) => {
                self.keyboard_ready = true;
                effects.push(Effect::SetKeyboardHold(self.hold_ms));
                self.state.live = true;
                effects.push(Effect::Emit(PlayerEvent::Live(true)));
            },
            Err(message) => {
                self.state.live = false;
                effects.push(Effect::Emit(PlayerEvent::Error(message)));
                effects.push(Effect::Emit(PlayerEvent::Live(false)));
            },
        }
        effects
    }

    fn load(&mut self, song: Song, effects: &mut Vec<Effect>)
        requires
            old(self).wf(),
        ensures
            final(self).wf(),
            *final(self) == (Transport {
                song: Some(song),
                index: 0,
                state: PlayerState {
                    playing: false,
                    paused: false,
                    position_ms: 0,
                    duration_ms: song.duration_ms,
                    ..old(self).state
                },
                ..*old(self)
            }),
            final(effects)@ == old(effects)@ + stop_effects(false, old(self).state.playing) + seq![
                Effect::Emit(
                    PlayerEvent::Loaded {
                        duration_ms: song.duration_ms,
                        notes: note_on_count(song.events@) as usize,
                    },
                ),
            ],
    {
        self.stop_playback(false, effects);
        let notes = song.note_count();
        let duration_ms = song.duration_ms;
        self.state.duration_ms = duration_ms;
        self.state.position_ms = 0;
        self.song = Some(song);
        self.index = 0;
        effects.push(Effect::Emit(PlayerEvent::Loaded { duration_ms, notes }));
    }

    /// Apply a command. Returns `false` when the thread should shut down, and
    /// the effects to perform in order.
    #[verifier::rlimit(40)]
    pub fn handle(&mut self, command: Command, elapsed_us: u64) -> (r: (bool, Vec<Effect>))
        requires
            old(self).wf(),
        ensures
            final(self).wf(),
            r.0 == !(command is Shutdown),
            !(command is SetLive) ==> final(self).state.live == old(self).state.live,
            final(self).state.live && !old(self).state.live ==> (command matches Command::SetLive(l)
                && l && old(self).keyboard_ready),
            old(self).state.paused && !(command is Resume || command is Play
                || command is TogglePlayPause || command is Seek || command is Stop
                || command is Load) ==> final(self).state.paused && final(self).state.position_ms
                == old(self).state.position_ms,
            match command {
                Command::Load(song) => *final(self) == (Transport {
                    song: Some(*song),
                    index: 0,
                    state: PlayerState {
                        playing: false,
                        paused: false,
                        position_ms: 0,
                        duration_ms: song.duration_ms,
                        ..old(self).state
                    },
                    ..*old(self)
                }) && r.1@ == stop_effects(false, old(self).state.playing) + seq![
                    Effect::Emit(
                        PlayerEvent::Loaded {
                            duration_ms: song.duration_ms,
                            notes: note_on_count(song.events@) as usize,
                        },
                    ),
                ],
                Command::Stop => *final(self) == stopped(*old(self)) && r.1@ == stop_effects(
                    true,
                    old(self).state.playing,
                ),
                Command::Seek(target_ms) => *final(self) == (Transport {
                    index: match old(self).song {
                        Some(song) => seek_index(song.events@, target_ms as int) as usize,
                        None => 0,
                    },
                    state: PlayerState { position_ms: target_ms, ..old(self).state },
                    anchor_song_ms: target_ms,
                    ..*old(self)
                }) && r.1@ == seq![
                    Effect::ResetClock,
                    Effect::ReleaseKeys,
                    Effect::PreviewAllNotesOff,
                ],
                Command::SetSpeed(speed) => *final(self) == (Transport {
                    anchor_song_ms: old(self).song_position(elapsed_us as int) as u64,
                    speed_milli: if speed < 50 {
                        50
                    } else if speed > 16000 {
                        16000
                    } else {
                        speed
                    },
                    ..*old(self)
                }) && r.1@ == seq![Effect::ResetClock],
                Command::SetMode(mode) => *final(self) == (Transport {
                    note_mode: mode,
                    ..*old(self)
                }) && r.1@.len() == 0,
                Command::SetKeyMode(mode) => *final(self) == (Transport {
                    key_mode: mode,
                    ..*old(self)
                }) && r.1@.len() == 0,
                Command::SetTranspose(t) => *final(self) == (Transport {
                    transpose_override: t,
                    ..*old(self)
                }) && r.1@.len() == 0,
                Command::SetHold(hold) => *final(self) == (Transport { hold_ms: hold, ..*old(self) })
                    && r.1@ == if old(self).keyboard_ready {
                    seq![Effect::SetKeyboardHold(hold)]
                } else {
                    Seq::empty()
                },
                Command::SetPreview(preview) => *final(self) == preview_set(*old(self), preview) && r.1@ == (if preview {
                    Seq::empty()
                } else {
                    seq![Effect::PreviewAllNotesOff]
                }) + seq![Effect::Emit(PlayerEvent::Preview(preview))],
                Command::SetInstrument(instrument) => *final(self) == (Transport {
                    instrument,
                    ..*old(self)
                }) && r.1@ == seq![
                    Effect::PreviewInstrument(instrument),
                    Effect::Emit(PlayerEvent::Instrument(instrument)),
                ],
                Command::SetLive(live) => {
                    &&& !live ==> *final(self) == (Transport {
                        keyboard_requested: false,
                        ..live_set(*old(self), false)
                    }) && r.1@ == seq![Effect::ReleaseKeys, Effect::Emit(PlayerEvent::Live(false))]
                    &&& live && old(self).keyboard_ready ==> *final(self) == live_set(*old(self), true)
                        && r.1@ == seq![Effect::Emit(PlayerEvent::Live(true))]
                    &&& live && !old(self).keyboard_ready ==> *final(self) == (Transport {
                        keyboard_requested: true,
                        ..*old(self)
                    }) && r.1@ == seq![Effect::CreateKeyboard]
                },
                Command::Shutdown => *final(self) == *old(self) && r.1@.len() == 0,
                _ => true,
            },
            command is Play || (command is TogglePlayPause && !old(self).state.playing) ==> {
                &&& old(self).song is None ==> *final(self) == *old(self) && r.1@.len() == 1
                    && is_error(r.1@[0], "no song loaded"@)
                &&& old(self).song is Some ==> *final(self) == started(*old(self)) && r.1@ == seq![
                    Effect::ResetClock,
                    Effect::Emit(PlayerEvent::Started),
                ]
            },
            command is Pause || (command is TogglePlayPause && old(self).state.playing
                && !old(self).state.paused) ==> {
                &&& !old(self).state.playing || old(self).state.paused ==> *final(self) == *old(self)
                    && r.1@.len() == 0
                &&& old(self).state.playing && !old(self).state.paused ==> {
                    &&& *final(self) == paused_at(*old(self), elapsed_us as int)
                    &&& r.1@ == seq![
                        Effect::ReleaseKeys,
                        Effect::PreviewAllNotesOff,
                        Effect::Emit(PlayerEvent::Paused),
                    ]
                }
            },
            command is Resume || (command is TogglePlayPause && old(self).state.playing
                && old(self).state.paused) ==> {
                &&& !old(self).state.playing || !old(self).state.paused ==> *final(self) == *old(
                    self,
                ) && r.1@.len() == 0
                &&& old(self).state.playing && old(self).state.paused ==> {
                    &&& *final(self) == resumed(*old(self))
                    &&& r.1@ == seq![Effect::ResetClock, Effect::Emit(PlayerEvent::Resumed)]
                }
            },
    {
        let mut effects: Vec<Effect> = Vec::new();
        match command {
            Command::Load(song) => self.load(*song, &mut effects),
            Command::Play => self.start(&mut effects),
            Command::Pause => self.pause(elapsed_us, &mut effects),
            Command::Resume => self.resume(&mut effects),
            Command::TogglePlayPause => {
                if !self.state.playing {
                    self.start(&mut effects);
                } else if self.state.paused {
                    self.resume(&mut effects);
                } else {
                    self.pause(elapsed_us, &mut effects);
                }
            },
            Command::Stop => self.stop_playback(true, &mut effects),
            Command::Seek(target_ms) => self.seek(target_ms, &mut effects),
            Command::SetSpeed(speed) => {
                let anchor = self.current_song_ms(elapsed_us);
                self.anchor_song_ms = anchor;
                effects.push(Effect::ResetClock);
                self.speed_milli = if speed < 50 {
                    50
                } else if speed > 16000 {
                    16000
                } else {
                    speed
                };
            },
            Command::SetMode(mode) => self.note_mode = mode,
            Command::SetKeyMode(mode) => self.key_mode = mode,
            Command::SetTranspose(transpose) => self.transpose_override = transpose,
            Command::SetHold(hold) => {
                self.hold_ms = hold;
                if self.keyboard_ready {
                    effects.push(Effect::SetKeyboardHold(hold));
                }
            },
            Command::SetLive(live) => self.set_live(live, &mut effects),
            Command::SetPreview(preview) => {
                self.state.preview = preview;
                if !preview {
                    effects.push(Effect::PreviewAllNotesOff);
                }
                effects.push(Effect::Emit(PlayerEvent::Preview(preview)));
                proof {
                    assert(effects@ =~= (if preview {
                        Seq::empty()
                    } else {
                        seq![Effect::PreviewAllNotesOff]
                    }) + seq![Effect::Emit(PlayerEvent::Preview(preview))]);
                }
            },
            Command::SetInstrument(instrument) => {
                self.instrument = instrument;
                effects.push(Effect::PreviewInstrument(instrument));
                effects.push(Effect::Emit(PlayerEvent::Instrument(instrument)));
            },
            Command::Shutdown => {
                return (false, effects);
            },
        }
        (true, effects)
    }

    /// The transpose applied now: the override, or the song's detected
    /// transpose plus its octave fold.
    fn effective_transpose_of(&self, song: &Song) -> (t: i32)
        requires
            self.song == Some(*song),
            transpose_fits(effective_transpose(*song, self.transpose_override)),
        ensures
            t == effective_transpose(*song, self.transpose_override),
            transpose_fits(t as int),
    {
        match self.transpose_override {
            Some(t) => t,
            None => (song.transpose as i64 + song.octave_shift as i64) as i32,
        }
    }

    /// Advance playback to the wall clock: fire every event due by now (the
    /// preview note, the tap when live, the `Note` event), record the
    /// position, report it when `position_due`, and finish when the last event
    /// has fired. Without a song, playback stops.
    #[verifier::rlimit(40)]
    pub fn tick(&mut self, elapsed_us: u64, position_due: bool) -> (out: TickOutcome)
        requires
            old(self).wf(),
            old(self).state.playing,
            !old(self).state.paused,
            transpose_usable(*old(self)),
        ensures
            final(self).wf(),
            final(self).state.live == old(self).state.live,
            match old(self).song {
                None => *final(self) == (Transport {
                    state: PlayerState { playing: false, ..old(self).state },
                    ..*old(self)
                }) && out.effects@.len() == 0 && out.sleep_us == 0,
                Some(song) => {
                    let now = song_clock(
                        old(self).anchor_song_ms as int,
                        elapsed_us as int,
                        old(self).speed_milli as int,
                    );
                    let next = next_pending(song.events@, old(self).index as int, now);
                    let finished = next >= song.events.len();
                    let transpose = effective_transpose(song, old(self).transpose_override);
                    &&& out.effects@ == fired_effects(
                        song.events@,
                        old(self).index as int,
                        next,
                        old(self).key_mode,
                        old(self).note_mode,
                        transpose,
                        old(self).state.live,
                        old(self).state.preview,
                    ) + seq![Effect::FlushTapErrors] + (if position_due {
                        seq![Effect::Emit(PlayerEvent::Position(now as u64))]
                    } else {
                        Seq::empty()
                    }) + (if finished {
                        seq![
                            Effect::ReleaseKeys,
                            Effect::PreviewAllNotesOff,
                            Effect::Emit(PlayerEvent::Finished),
                        ]
                    } else {
                        Seq::empty()
                    })
                    &&& finished ==> *final(self) == (Transport {
                        index: 0,
                        state: PlayerState {
                            playing: false,
                            paused: false,
                            position_ms: now as u64,
                            ..old(self).state
                        },
                        ..*old(self)
                    }) && out.sleep_us == 0
                    &&& !finished ==> *final(self) == (Transport {
                        index: next as usize,
                        state: PlayerState { position_ms: now as u64, ..old(self).state },
                        ..*old(self)
                    }) && out.sleep_us == wait_us(
                        song.events@[next].time_ms as int,
                        now,
                        old(self).speed_milli as int,
                    )
                },
            },
    {
        let now = self.clock_ms(elapsed_us);
        let key_mode = self.key_mode;
        let note_mode = self.note_mode;
        let live = self.state.live;
        let preview = self.state.preview;
        let start = self.index;
        let mut effects: Vec<Effect> = Vec::new();
        let (next, len, next_time) = match &self.song {
            None => {
                self.state.playing = false;
                return TickOutcome { effects, sleep_us: 0 };
            },
            Some(song) => {
                let transpose = match note_mode {
                    NoteMode::Closest => self.effective_transpose_of(song),
                    NoteMode::Raw => 0,
                };
                let (i, fired) = fire_due(song, start, now, key_mode, note_mode, transpose, live, preview);
                proof {
                    if note_mode == NoteMode::Raw {
                        lemma_raw_ignores_transpose(
                            song.events@,
                            start as int,
                            i as int,
                            key_mode,
                            transpose as int,
                            effective_transpose(*song, self.transpose_override),
                            live,
                            preview,
                        );
                    }
                }
                effects = fired;
                let len = song.events.len();
                let next_time = if i < len {
                    song.events[i].time_ms
                } else {
                    0
                };
                (i, len, next_time)
            },
        };
        effects.push(Effect::FlushTapErrors);
        self.state.position_ms = now;
        if position_due {
            effects.push(Effect::Emit(PlayerEvent::Position(now)));
        }
        if next >= len {
            self.state.playing = false;
            self.state.paused = false;
            self.index = 0;
            effects.push(Effect::ReleaseKeys);
            effects.push(Effect::PreviewAllNotesOff);
            effects.push(Effect::Emit(PlayerEvent::Finished));
            return TickOutcome { effects, sleep_us: 0 };
        }
        self.index = next;
        let wait = (next_time - now) as u128 * 1_000_000 / self.speed_milli as u128;
        let sleep_us: u64 = if wait > 2000 {
            2000
        } else {
            wait as u64
        };
        TickOutcome { effects, sleep_us }
    }
}

/// Without "Go Live" no keystroke is sent: firing events while not live
/// yields no tap.
pub proof fn lemma_no_tap_unless_live(
    events: Seq<NoteEvent>,
    from: int,
    to: int,
    key_mode: KeyMode,
    note_mode: NoteMode,
    transpose: int,
    preview: bool,
)
    ensures
        forall|i: int|
            0 <= i < fired_effects(events, from, to, key_mode, note_mode, transpose, false, preview).len()
                ==> !(#[trigger] fired_effects(
                events,
                from,
                to,
                key_mode,
                note_mode,
                transpose,
                false,
                preview,
            )[i] is Tap),
    decreases to - from,
{
    if to > from {
        lemma_no_tap_unless_live(events, from, to - 1, key_mode, note_mode, transpose, preview);
        let a = fired_effects(events, from, to - 1, key_mode, note_mode, transpose, false, preview);
        let b = note_effects(events[to - 1], key_mode, note_mode, transpose, false, preview);
        assert forall|i: int| 0 <= i < (a + b).len() implies !((a + b)[i] is Tap) by {
            if i >= a.len() {
                assert((a + b)[i] == b[i - a.len()]);
            } else {
                assert((a + b)[i] == a[i]);
            }
        }
    }
}

/// Without preview no note is sounded locally: firing events with the
/// preview off yields no preview note.
pub proof fn lemma_no_sound_unless_preview(
    events: Seq<NoteEvent>,
    from: int,
    to: int,
    key_mode: KeyMode,
    note_mode: NoteMode,
    transpose: int,
    live: bool,
)
    ensures
        forall|i: int|
            0 <= i < fired_effects(events, from, to, key_mode, note_mode, transpose, live, false).len()
                ==> !(#[trigger] fired_effects(
                events,
                from,
                to,
                key_mode,
                note_mode,
                transpose,
                live,
                false,
            )[i] is PreviewNoteOn) && !(fired_effects(
                events,
                from,
                to,
                key_mode,
                note_mode,
                transpose,
                live,
                false,
            )[i] is PreviewNoteOff),
    decreases to - from,
{
    if to > from {
        lemma_no_sound_unless_preview(events, from, to - 1, key_mode, note_mode, transpose, live);
        let a = fired_effects(events, from, to - 1, key_mode, note_mode, transpose, live, false);
        let b = note_effects(events[to - 1], key_mode, note_mode, transpose, live, false);
        assert forall|i: int| 0 <= i < (a + b).len() implies !((a + b)[i] is PreviewNoteOn) && !((a
            + b)[i] is PreviewNoteOff) by {
            if i >= a.len() {
                assert((a + b)[i] == b[i - a.len()]);
            } else {
                assert((a + b)[i] == a[i]);
            }
        }
    }
}

/// Keeps the effects that start or stop a preview note.
pub open spec fn preview_filter() -> spec_fn(Effect) -> bool {
    |e: Effect| e is PreviewNoteOn || e is PreviewNoteOff
}

/// The preview effect an event calls for: its note starts on a note-on and
/// stops on a note-off.
pub open spec fn preview_effect_for(event: NoteEvent) -> Effect {
    match event.kind {
        NoteKind::NoteOn => Effect::PreviewNoteOn(event.note),
        NoteKind::NoteOff => Effect::PreviewNoteOff(event.note),
    }
}

proof fn lemma_filter_one(x: Effect)
    ensures
        seq![x].filter(preview_filter()) == if (preview_filter())(x) {
            seq![x]
        } else {
            Seq::<Effect>::empty()
        },
{
    reveal(Seq::filter);
    assert(seq![x].drop_last() =~= Seq::<Effect>::empty());
    assert(Seq::<Effect>::empty().filter(preview_filter()) =~= Seq::<Effect>::empty());
    assert(seq![x].last() == x);
}

proof fn lemma_filter_none()
    ensures
        Seq::<Effect>::empty().filter(preview_filter()) == Seq::<Effect>::empty(),
{
    reveal(Seq::filter);
}

/// With the preview on, firing one event gives exactly one preview effect,
/// the one its kind calls for.
proof fn lemma_event_preview(
    event: NoteEvent,
    key_mode: KeyMode,
    note_mode: NoteMode,
    transpose: int,
    live: bool,
)
    ensures
        note_effects(event, key_mode, note_mode, transpose, live, true).filter(preview_filter())
            == seq![preview_effect_for(event)],
{
    let p = preview_filter();
    let sound = seq![preview_effect_for(event)];
    lemma_filter_one(preview_effect_for(event));
    lemma_filter_none();
    if event.kind == NoteKind::NoteOn {
        let chord = mapped_key(key_mode, note_mode, event.note as int, transpose);
        let taps = if live {
            seq![Effect::Tap(chord)]
        } else {
            Seq::<Effect>::empty()
        };
        let emit = seq![
            Effect::Emit(PlayerEvent::Note { note: event.note, chord, time_ms: event.time_ms }),
        ];
        assert(note_effects(event, key_mode, note_mode, transpose, live, true) == sound + taps
            + emit);
        Seq::filter_distributes_over_add(sound + taps, emit, p);
        Seq::filter_distributes_over_add(sound, taps, p);
        lemma_filter_one(Effect::Tap(chord));
        lemma_filter_one(emit[0]);
        assert(emit =~= seq![emit[0]]);
        assert(sound.filter(p) + taps.filter(p) + emit.filter(p) =~= sound);
    } else {
        assert(note_effects(event, key_mode, note_mode, transpose, live, true) == sound);
    }
}

/// With the preview on, the preview effects of a run of fired events are, in
/// order, one per event: a note-on starts its note and a note-off stops it.
/// So every previewed note that the run ends also stops sounding.
#[verifier::spinoff_prover]
#[verifier::rlimit(40)]
pub proof fn lemma_preview_follows_events(
    events: Seq<NoteEvent>,
    from: int,
    to: int,
    key_mode: KeyMode,
    note_mode: NoteMode,
    transpose: int,
    live: bool,
)
    requires
        0 <= from <= to <= events.len(),
    ensures
        fired_effects(events, from, to, key_mode, note_mode, transpose, live, true).filter(
            preview_filter(),
        ).len() == to - from,
        forall|i: int|
            0 <= i < to - from ==> #[trigger] fired_effects(
                events,
                from,
                to,
                key_mode,
                note_mode,
                transpose,
                live,
                true,
            ).filter(preview_filter())[i] == preview_effect_for(events[from + i]),
    decreases to - from,
{
    let p = preview_filter();
    if to == from {
        lemma_filter_none();
    } else {
        lemma_preview_follows_events(events, from, to - 1, key_mode, note_mode, transpose, live);
        let a = fired_effects(events, from, to - 1, key_mode, note_mode, transpose, live, true);
        let b = note_effects(events[to - 1], key_mode, note_mode, transpose, live, true);
        Seq::filter_distributes_over_add(a, b, p);
        lemma_event_preview(events[to - 1], key_mode, note_mode, transpose, live);
        assert(fired_effects(events, from, to, key_mode, note_mode, transpose, live, true) == a
            + b);
        let f = a.filter(p) + b.filter(p);
        assert(fired_effects(events, from, to, key_mode, note_mode, transpose, live, true).filter(p)
            == f);
        assert(f.len() == to - from);
        assert forall|i: int| 0 <= i < to - from implies #[trigger] f[i] == preview_effect_for(
            events[from + i],
        ) by {
            if i < to - 1 - from {
                assert(f[i] == a.filter(p)[i]);
            } else {
                assert(f[i] == b.filter(p)[0]);
            }
        }
    }
}

/// While paused (or stopped) the song position does not move with the wall
/// clock.
pub proof fn lemma_position_frozen_unless_playing(t: Transport, elapsed_a: int, elapsed_b: int)
    requires
        t.state.paused || !t.state.playing,
    ensures
        t.song_position(elapsed_a) == t.song_position(elapsed_b),
        t.song_position(elapsed_a) == t.state.position_ms,
{
}

/// Pausing freezes the position where the clock stood, and resuming runs
/// the clock again from exactly that position, at the same event.
pub proof fn lemma_resume_continues_from_pause(t: Transport, elapsed_us: int, later_us: int)
    requires
        t.wf(),
        t.state.playing,
        !t.state.paused,
        elapsed_us >= 0,
        later_us >= 0,
    ensures
        paused_at(t, elapsed_us).song_position(later_us) == paused_at(t, elapsed_us).state.position_ms,
        resumed(paused_at(t, elapsed_us)).song_position(0) == paused_at(t, elapsed_us).state.position_ms,
        resumed(paused_at(t, elapsed_us)).index == t.index,
        resumed(paused_at(t, elapsed_us)).state.playing,
        !resumed(paused_at(t, elapsed_us)).state.paused,
{
}

/// Pausing a running transport freezes the song position where the clock
/// stood: the paused transport reports that position however much time
/// passes. (`handle` keeps it paused at that position for every command but
/// resume, play, toggle, seek, stop and load, and `tick` needs a running
/// clock.)
pub proof fn lemma_pause_freezes_position(t: Transport, elapsed_us: int, later_us: int)
    requires
        t.wf(),
        t.state.playing,
        !t.state.paused,
        elapsed_us >= 0,
    ensures
        paused_at(t, elapsed_us).wf(),
        paused_at(t, elapsed_us).state.paused,
        paused_at(t, elapsed_us).state.position_ms == t.song_position(elapsed_us),
        paused_at(t, elapsed_us).song_position(later_us) == t.song_position(elapsed_us),
{
    assert(elapsed_us * t.speed_milli >= 0) by (nonlinear_arith)
        requires
            elapsed_us >= 0,
            t.speed_milli >= 0,
    ;
    assert(elapsed_us * t.speed_milli / 1_000_000 >= 0) by (nonlinear_arith)
        requires
            elapsed_us * t.speed_milli >= 0,
    ;
}

/// Playing after a stop starts the song over: first event, position zero.
pub proof fn lemma_play_after_stop_starts_over(t: Transport)
    requires
        t.wf(),
        t.song is Some,
    ensures
        started(stopped(t)).index == 0,
        started(stopped(t)).state.position_ms == 0,
        started(stopped(t)).anchor_song_ms == 0,
        started(stopped(t)).state.playing,
        !started(stopped(t)).state.paused,
{
}

/// "Go Live" switches the preview the other way: after its two commands
/// (live on or off, then the preview off or on), the preview is on exactly
/// when the player is not live, provided the virtual keyboard exists when
/// going live.
pub proof fn lemma_go_live_switches_preview(t: Transport, on: bool)
    requires
        t.wf(),
        on ==> t.keyboard_ready,
    ensures
        preview_set(live_set(t, on), !on).state.live == on,
        preview_set(live_set(t, on), !on).state.preview == !preview_set(live_set(t, on), !on).state.live,
{
}

/// A tick fires only events that are due, in song order: every event it
/// passes lies at or before the new position and the next pending event
/// after it.
pub proof fn lemma_tick_fires_due_events(events: Seq<NoteEvent>, from: int, now: int)
    requires
        0 <= from <= events.len(),
    ensures
        from <= next_pending(events, from, now) <= events.len(),
        forall|i: int| from <= i < next_pending(events, from, now) ==> #[trigger] events[i].time_ms <= now,
        next_pending(events, from, now) < events.len() ==> events[next_pending(events, from, now)].time_ms
            > now,
    decreases events.len() - from,
{
    if from < events.len() && events[from].time_ms <= now {
        lemma_tick_fires_due_events(events, from + 1, now);
    }
}

} // verus!
