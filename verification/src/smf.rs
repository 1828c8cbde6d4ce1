//! The Standard MIDI File as midly parses it, read into plain values.
//!
//! midly does the byte-level decoding (chunks, variable-length quantities,
//! running status). What this library reads of its result is the header's
//! timing and, per track, each event's delta time and whether it is a tempo
//! change, a note-on, a note-off or something else.
use vstd::prelude::*;

verus! {

/// What an event of a track carries, as far as playback needs it.
#[derive(Debug, Clone, Copy, PartialEq, Eq, Structural)]
pub enum SmfEventKind {
    /// Meta tempo event: microseconds per quarter note.
    Tempo(u32),
    /// Channel note-on with its key and velocity.
    NoteOn { key: u8, vel: u8 },
    /// Channel note-off with its key.
    NoteOff { key: u8 },
    /// Any other event (controllers, SysEx, other meta events, ...).
    Other,
}

/// A track event: delta ticks since the previous event of the track, and
/// what it carries.
#[derive(Debug, Clone, Copy, PartialEq, Eq, Structural)]
pub struct SmfEvent {
    pub delta: u32,
    pub kind: SmfEventKind,
}

/// A parsed file as plain values: `Some(ticks per quarter note)` for metrical
/// timing (`None` for SMPTE timecode), and the tracks' events.
pub struct SmfView {
    pub ticks_per_quarter: Option<u16>,
    pub tracks: Seq<Seq<SmfEvent>>,
}

/// Events within the ranges midly's integer types allow: 28-bit deltas,
/// 24-bit tempos, 7-bit keys and velocities.
pub open spec fn smf_event_in_range(e: SmfEvent) -> bool {
    &&& e.delta < 0x1000_0000
    &&& match e.kind {
        SmfEventKind::Tempo(us) => us < 0x100_0000,
        SmfEventKind::NoteOn { key, vel } => key < 128 && vel < 128,
        SmfEventKind::NoteOff { key } => key < 128,
        SmfEventKind::Other => true,
    }
}

#[verifier::external_type_specification]
#[verifier::external_body]
pub struct ExSmf<'a>(midly::Smf<'a>);

/// What `midly::Smf::parse` makes of `data`: the file read as plain values,
/// or the `Display` text of the error it rejects the bytes with.
pub uninterp spec fn smf_parsed(data: Seq<u8>) -> Result<SmfView, Seq<char>>;

/// What a parsed `midly::Smf` holds, read as plain values.
pub uninterp spec fn smf_contents(smf: midly::Smf) -> SmfView;

/// `data` starts with one of the two signatures midly accepts: `MThd` (a bare
/// SMF) or `RIFF` (an RMID wrapper).
pub open spec fn has_midi_signature(data: Seq<u8>) -> bool {
    data.len() >= 4 && ((data[0] == 0x4d && data[1] == 0x54 && data[2] == 0x68 && data[3] == 0x64)
        || (data[0] == 0x52 && data[1] == 0x49 && data[2] == 0x46 && data[3] == 0x46))
}

/// Calls `midly::Smf::parse`, and turns a rejection into its error's
/// `Display` text. The contract claims that the outcome is `smf_parsed(data)`
/// (the parsed file holds what that name gives, a rejection's text is the
/// text it gives), and, from midly's `smf::parse`, that bytes without an
/// `MThd`/`RIFF` signature are rejected.
#[verifier::external_body]
pub(crate) fn smf_parse<'a>(data: &'a [u8]) -> (r: Result<midly::Smf<'a>, String>)
    ensures
        r is Ok <==> smf_parsed(data@) is Ok,
        r matches Ok(smf) ==> smf_parsed(data@)->Ok_0 == smf_contents(smf),
        r matches Err(text) ==> smf_parsed(data@)->Err_0 == text@,
        !has_midi_signature(data@) ==> r is Err,
{
    match midly::Smf::parse(data) {
        Ok(smf) => Ok(smf),
        Err(e) => Err(e.to_string()),
    }
}

/// Reads `smf.header.timing`: `Some(ticks per beat)` for `Timing::Metrical`,
/// `None` for `Timing::Timecode`. The value is a `u15`, so below 2^15.
#[verifier::external_body]
pub(crate) fn smf_ticks_per_quarter(smf: &midly::Smf) -> (r: Option<u16>)
    ensures
        r == smf_contents(*smf).ticks_per_quarter,
        r matches Some(t) ==> t < 0x8000,
{
    match smf.header.timing {
        midly::Timing::Metrical(tpq) => Some(tpq.as_int()),
        midly::Timing::Timecode(..) => None,
    }
}

/// Reads `smf.tracks.len()`.
#[verifier::external_body]
pub(crate) fn smf_track_count(smf: &midly::Smf) -> (r: usize)
    ensures
        r == smf_contents(*smf).tracks.len(),
{
    smf.tracks.len()
}

/// Reads `smf.tracks[track].len()`.
#[verifier::external_body]
pub(crate) fn smf_track_len(smf: &midly::Smf, track: usize) -> (r: usize)
    requires
        track < smf_contents(*smf).tracks.len(),
    ensures
        r == smf_contents(*smf).tracks[track as int].len(),
{
    smf.tracks[track].len()
}

/// Reads event `index` of track `track`: its `delta` (a `u28`) and its kind,
/// telling apart `Meta(Tempo)` (a `u24`), `Midi { NoteOn }`, `Midi { NoteOff }`
/// (7-bit keys and velocities) and everything else.
#[verifier::external_body]
pub(crate) fn smf_event(smf: &midly::Smf, track: usize, index: usize) -> (r: SmfEvent)
    requires
        track < smf_contents(*smf).tracks.len(),
        index < smf_contents(*smf).tracks[track as int].len(),
    ensures
        r == smf_contents(*smf).tracks[track as int][index as int],
        smf_event_in_range(r),
{
    let event = &smf.tracks[track][index];
    let kind = match event.kind {
        midly::TrackEventKind::Meta(midly::MetaMessage::Tempo(us)) => SmfEventKind::Tempo(us.as_int()),
        midly::TrackEventKind::Midi { message: midly::MidiMessage::NoteOn { key, vel }, .. } =>
            SmfEventKind::NoteOn { key: key.as_int(), vel: vel.as_int() },
        midly::TrackEventKind::Midi { message: midly::MidiMessage::NoteOff { key, .. }, .. } =>
            SmfEventKind::NoteOff { key: key.as_int() },
        _ => SmfEventKind::Other,
    };
    SmfEvent { delta: event.delta.as_int(), kind }
}

} // verus!
