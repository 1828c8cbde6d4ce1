//! In-app audio preview: the five instruments and the choice of SoundFont.
//!
//! Synthesis and audio output run on a background thread around this module;
//! here each instrument gets its names and General MIDI fallback program, the
//! SoundFont to load is chosen from the files that are present, and its bytes
//! become a synthesizer with the instrument's preset selected.
use vstd::prelude::*;

use crate::paths::{join_path, joined};
use crate::sf2::{check_layout, layout_safe};

verus! {

/// The five instruments available in Where Winds Meet.
#[derive(Debug, Clone, Copy, PartialEq, Eq, Hash, Structural)]
pub enum Instrument {
    Guqin,
    Pipa,
    Erhu,
    Konghou,
    Fangxiang,
}

/// Errors surfaced by the preview system.
#[derive(Debug)]
pub enum PreviewError {
    /// No audio output device; the underlying error text.
    NoOutput(String),
    /// No SoundFont for the instrument in the directory `dir`.
    NoSoundFont { dir: String },
    /// A SoundFont file could not be loaded.
    SoundFontLoad { path: String, detail: String },
}

/// Display name of an instrument, with its Chinese characters.
pub open spec fn instrument_label(instrument: Instrument) -> Seq<char> {
    match instrument {
        Instrument::Guqin => "Guqin (古琴)"@,
        Instrument::Pipa => "Pipa (琵琶)"@,
        Instrument::Erhu => "Erhu (二胡)"@,
        Instrument::Konghou => "Konghou (箜篌)"@,
        Instrument::Fangxiang => "Fangxiang (方響)"@,
    }
}

/// Instrument-specific SoundFont file name.
pub open spec fn instrument_sf2(instrument: Instrument) -> Seq<char> {
    match instrument {
        Instrument::Guqin => "guqin.sf2"@,
        Instrument::Pipa => "pipa.sf2"@,
        Instrument::Erhu => "erhu.sf2"@,
        Instrument::Konghou => "konghou.sf2"@,
        Instrument::Fangxiang => "fangxiang.sf2"@,
    }
}

/// General MIDI program approximating each instrument: Koto, Sitar, Violin,
/// Orchestral Harp, Glockenspiel.
pub open spec fn instrument_program(instrument: Instrument) -> int {
    match instrument {
        Instrument::Guqin => 107,
        Instrument::Pipa => 105,
        Instrument::Erhu => 40,
        Instrument::Konghou => 46,
        Instrument::Fangxiang => 9,
    }
}

/// The SoundFont shipped for an instrument in the bundled `soundfonts/`
/// directory.
pub open spec fn shipped_font(instrument: Instrument) -> Seq<char> {
    match instrument {
        Instrument::Guqin => "OLPC_Guzheng.sf2"@,
        Instrument::Pipa => "MFA_Pipa.sf2"@,
        Instrument::Erhu => "FS_Erhu_v2.sf2"@,
        Instrument::Konghou => "ConcertHarp.sf2"@,
        Instrument::Fangxiang => "Xylophone.sf2"@,
    }
}

/// The SoundFont files tried for an instrument, in order: the font shipped
/// for it, its own `<instrument>.sf2`, then the General MIDI banks
/// `FluidR3_GM.sf2` and `FluidR3_GS.sf2`.
pub open spec fn soundfont_candidates_of(instrument: Instrument) -> Seq<Seq<char>> {
    seq![shipped_font(instrument), instrument_sf2(instrument), "FluidR3_GM.sf2"@, "FluidR3_GS.sf2"@]
}

impl Instrument {
    /// All instruments in a stable UI order.
    pub fn all() -> (all: [Instrument; 5])
        ensures
            all@ == seq![
                Instrument::Guqin,
                Instrument::Pipa,
                Instrument::Erhu,
                Instrument::Konghou,
                Instrument::Fangxiang,
            ],
    {
        let all = [
            Instrument::Guqin,
            Instrument::Pipa,
            Instrument::Erhu,
            Instrument::Konghou,
            Instrument::Fangxiang,
        ];
        proof {
            assert(all@ =~= seq![
                Instrument::Guqin,
                Instrument::Pipa,
                Instrument::Erhu,
                Instrument::Konghou,
                Instrument::Fangxiang,
            ]);
        }
        all
    }

    /// Display name (with Chinese characters).
    pub fn display_name(self) -> (name: &'static str)
        ensures
            name@ == instrument_label(self),
    {
        match self {
            Instrument::Guqin => "Guqin (古琴)",
            Instrument::Pipa => "Pipa (琵琶)",
            Instrument::Erhu => "Erhu (二胡)",
            Instrument::Konghou => "Konghou (箜篌)",
            Instrument::Fangxiang => "Fangxiang (方響)",
        }
    }

    /// The instrument-specific SoundFont file name to try first.
    pub fn sf2_name(self) -> (name: &'static str)
        ensures
            name@ == instrument_sf2(self),
    {
        match self {
            Instrument::Guqin => "guqin.sf2",
            Instrument::Pipa => "pipa.sf2",
            Instrument::Erhu => "erhu.sf2",
            Instrument::Konghou => "konghou.sf2",
            Instrument::Fangxiang => "fangxiang.sf2",
        }
    }

    /// General MIDI program number used when falling back to a GM SoundFont.
    pub fn gm_program(self) -> (program: i32)
        ensures
            program == instrument_program(self),
            0 <= program < 128,
    {
        match self {
            Instrument::Guqin => 107,
            Instrument::Pipa => 105,
            Instrument::Erhu => 40,
            Instrument::Konghou => 46,
            Instrument::Fangxiang => 9,
        }
    }
}

/// The SoundFont files to look for, in order of preference.
pub fn soundfont_candidates(instrument: Instrument) -> (names: Vec<&'static str>)
    ensures
        names@.len() == 4,
        forall|i: int| 0 <= i < 4 ==> #[trigger] names@[i]@ == soundfont_candidates_of(instrument)[i],
{
    let shipped = match instrument {
        Instrument::Guqin => "OLPC_Guzheng.sf2",
        Instrument::Pipa => "MFA_Pipa.sf2",
        Instrument::Erhu => "FS_Erhu_v2.sf2",
        Instrument::Konghou => "ConcertHarp.sf2",
        Instrument::Fangxiang => "Xylophone.sf2",
    };
    let mut names: Vec<&'static str> = Vec::new();
    names.push(shipped);
    names.push(instrument.sf2_name());
    names.push("FluidR3_GM.sf2");
    names.push("FluidR3_GS.sf2");
    names
}

/// The SoundFont to load for an instrument and the preset to select in it.
#[derive(Debug)]
pub struct SoundFontChoice {
    /// File name of the SoundFont.
    pub file: String,
    /// Full path: the file in the directory it was found in.
    pub path: String,
    /// Bank of the preset.
    pub bank: i32,
    /// Program (patch) of the preset.
    pub patch: i32,
}

/// Bank of the preset selected in candidate `i` of an instrument's
/// SoundFonts: the shipped fonts' documented banks (Guzheng 1, Pipa 32, Erhu
/// 8, harp and xylophone 0), 0 otherwise.
pub open spec fn candidate_bank(instrument: Instrument, i: int) -> int {
    if i == 0 {
        match instrument {
            Instrument::Guqin => 1,
            Instrument::Pipa => 32,
            Instrument::Erhu => 8,
            Instrument::Konghou => 0,
            Instrument::Fangxiang => 0,
        }
    } else {
        0
    }
}

/// Program selected in candidate `i` of an instrument's SoundFonts: the
/// shipped fonts' documented programs (Guzheng 107, Pipa 105, Erhu 110, harp
/// and xylophone 0), the first preset of the instrument's own file, the
/// instrument's General MIDI program in a GM bank.
pub open spec fn candidate_patch(instrument: Instrument, i: int) -> int {
    if i == 0 {
        match instrument {
            Instrument::Guqin => 107,
            Instrument::Pipa => 105,
            Instrument::Erhu => 110,
            Instrument::Konghou => 0,
            Instrument::Fangxiang => 0,
        }
    } else if i == 1 {
        0
    } else {
        instrument_program(instrument)
    }
}

/// Index of the first directory whose flags mark candidate `i` present.
pub open spec fn first_dir(present: Seq<Seq<bool>>, i: int) -> Option<int>
    decreases present.len(),
{
    if present.len() == 0 {
        None
    } else if present[0][i] {
        Some(0)
    } else {
        match first_dir(present.drop_first(), i) {
            Some(d) => Some(d + 1),
            None => None,
        }
    }
}

/// The SoundFont resolved from candidate `i` on: `(candidate, directory)` of
/// the first candidate present in some directory, in the first directory
/// holding it.
pub open spec fn resolution_from(present: Seq<Seq<bool>>, i: int) -> Option<(int, int)>
    decreases 4 - i,
{
    if i >= 4 {
        None
    } else {
        match first_dir(present, i) {
            Some(d) => Some((i, d)),
            None => resolution_from(present, i + 1),
        }
    }
}

/// The directories searched, as listed in an error: separated by `, `.
pub open spec fn dirs_text(dirs: Seq<Seq<char>>) -> Seq<char>
    decreases dirs.len(),
{
    if dirs.len() == 0 {
        Seq::empty()
    } else if dirs.len() == 1 {
        dirs[0]
    } else {
        dirs_text(dirs.drop_last()) + ", "@ + dirs.last()
    }
}

/// Directory `d`'s flags, as plain bools.
pub open spec fn flags_of(present: Seq<Vec<bool>>) -> Seq<Seq<bool>> {
    present.map_values(|v: Vec<bool>| v@)
}

/// The first directory (of `dirs`, in order) holding candidate `i`.
fn find_dir(present: &Vec<Vec<bool>>, i: usize) -> (r: Option<usize>)
    requires
        i < 4,
        forall|d: int| 0 <= d < present.len() ==> #[trigger] present@[d]@.len() == 4,
    ensures
        r matches Some(d) ==> d < present.len() && first_dir(flags_of(present@), i as int) == Some(
            d as int,
        ),
        r is None ==> first_dir(flags_of(present@), i as int) is None,
{
    let ghost flags = flags_of(present@);
    let mut d: usize = 0;
    proof {
        assert(flags.skip(0) =~= flags);
    }
    while d < present.len()
        invariant
            i < 4,
            flags == flags_of(present@),
            forall|k: int| 0 <= k < present.len() ==> #[trigger] present@[k]@.len() == 4,
            d <= present.len(),
            first_dir(flags, i as int) == match first_dir(flags.skip(d as int), i as int) {
                Some(k) => Some(k + d),
                None => None,
            },
        decreases present.len() - d,
    {
        proof {
            assert(flags.skip(d as int).drop_first() =~= flags.skip(d + 1));
            assert(flags.skip(d as int)[0] == present@[d as int]@);
        }
        if present[d][i] {
            return Some(d);
        }
        d = d + 1;
    }
    proof {
        assert(flags.skip(present.len() as int) =~= Seq::<Seq<bool>>::empty());
    }
    None
}

/// The directories joined for an error message.
fn dirs_message(dirs: &Vec<String>) -> (text: String)
    ensures
        text@ == dirs_text(dirs@.map_values(|s: String| s@)),
{
    let ghost texts = dirs@.map_values(|s: String| s@);
    let mut text = String::new();
    let mut k: usize = 0;
    proof {
        reveal_strlit(", ");
        assert(texts.take(0) =~= Seq::<Seq<char>>::empty());
    }
    while k < dirs.len()
        invariant
            texts == dirs@.map_values(|s: String| s@),
            k <= dirs.len(),
            text@ == dirs_text(texts.take(k as int)),
        decreases dirs.len() - k,
    {
        proof {
            assert(texts.take(k + 1).drop_last() =~= texts.take(k as int));
            assert(texts.take(k + 1).last() == dirs@[k as int]@);
        }
        if k > 0 {
            text.append(", ");
        }
        text.append(dirs[k].as_str());
        proof {
            if k == 0 {
                assert(texts.take(1) =~= seq![dirs@[0]@]);
                assert(text@ =~= dirs@[0]@);
            } else {
                assert(text@ =~= dirs_text(texts.take(k as int)) + ", "@ + dirs@[k as int]@);
            }
        }
        k = k + 1;
    }
    proof {
        assert(texts.take(dirs.len() as int) =~= texts);
    }
    text
}

/// Resolve the SoundFont for an instrument, per the preview's hierarchy: the
/// font shipped for it, then its own `.sf2`, then a General MIDI SoundFont.
/// The candidates are tried in that order, and each is looked for in every
/// directory of `dirs` (the bundled `soundfonts/` first, then the user's)
/// before the next candidate: a shipped font in the user's directory wins
/// over a General MIDI font in the bundled one. `present[d][i]` tells whether candidate `i` of
/// [`soundfont_candidates`] is a file in `dirs[d]`.
pub fn resolve_soundfont(instrument: Instrument, dirs: &Vec<String>, present: &Vec<Vec<bool>>) -> (r: Result<SoundFontChoice, PreviewError>)
    requires
        present.len() == dirs.len(),
        forall|d: int| 0 <= d < present.len() ==> #[trigger] present@[d]@.len() == 4,
    ensures
        match resolution_from(flags_of(present@), 0) {
            Some((i, d)) => r matches Ok(c) && c.file@ == soundfont_candidates_of(instrument)[i]
                && c.path@ == joined(dirs@[d]@, soundfont_candidates_of(instrument)[i]) && c.bank
                == candidate_bank(instrument, i) && c.patch == candidate_patch(instrument, i),
            None => r matches Err(PreviewError::NoSoundFont { dir: text }) && text@ == dirs_text(
                dirs@.map_values(|s: String| s@),
            ),
        },
{
    let names = soundfont_candidates(instrument);
    let ghost flags = flags_of(present@);
    let mut i: usize = 0;
    while i < 4
        invariant
            present.len() == dirs.len(),
            forall|d: int| 0 <= d < present.len() ==> #[trigger] present@[d]@.len() == 4,
            flags == flags_of(present@),
            names@.len() == 4,
            forall|k: int| 0 <= k < 4 ==> #[trigger] names@[k]@ == soundfont_candidates_of(instrument)[k],
            i <= 4,
            resolution_from(flags, 0) == resolution_from(flags, i as int),
        decreases 4 - i,
    {
        match find_dir(present, i) {
            Some(d) => {
                let (bank, patch) = match instrument {
                    Instrument::Guqin => (1, 107),
                    Instrument::Pipa => (32, 105),
                    Instrument::Erhu => (8, 110),
                    Instrument::Konghou => (0, 0),
                    Instrument::Fangxiang => (0, 0),
                };
                let (bank, patch) = if i == 0 {
                    (bank, patch)
                } else if i == 1 {
                    (0, 0)
                } else {
                    (0, instrument.gm_program())
                };
                let path = join_path(dirs[d].as_str(), names[i]);
                return Ok(SoundFontChoice { file: String::from_str(names[i]), path, bank, patch });
            },
            None => {},
        }
        i = i + 1;
    }
    Err(PreviewError::NoSoundFont { dir: dirs_message(dirs) })
}

/// The MIDI channel all preview notes play on.
pub const PREVIEW_CHANNEL: i32 = 0;

/// The controller and program-change messages that select a choice's preset:
/// bank select (controller 32) with the bank, then program change with the
/// patch.
pub fn preset_messages(choice: &SoundFontChoice) -> (m: [(i32, i32, i32); 2])
    ensures
        m[0] == (0xB0i32, 32i32, choice.bank),
        m[1] == (0xC0i32, choice.patch, 0i32),
{
    [(0xB0, 32, choice.bank), (0xC0, choice.patch, 0)]
}

#[verifier::external_type_specification]
#[verifier::external_body]
pub struct ExSoundFont(rustysynth::SoundFont);

#[verifier::external_type_specification]
#[verifier::external_body]
pub struct ExSynthesizer(rustysynth::Synthesizer);

#[verifier::external_type_specification]
#[verifier::external_body]
pub struct ExSynthesizerError(rustysynth::SynthesizerError);

#[verifier::external_type_specification]
#[verifier::external_body]
pub struct ExSoundFontError(rustysynth::SoundFontError);

/// The SoundFont rustysynth loads from these bytes, or `None` where it
/// refuses them.
pub uninterp spec fn soundfont_loaded(bytes: Seq<u8>) -> Option<rustysynth::SoundFont>;

/// Calls `rustysynth::SoundFont::new` with the bytes as its reader. What it
/// gives depends on the bytes alone, and is named `soundfont_loaded`; the
/// rules it checks are not stated. rustysynth indexes its generator and
/// zone lists with indices read from the file without checking them, and
/// adds zone offsets to sample positions in 32-bit arithmetic; `requires`
/// admits only files on which these stay in range (`sf2::layout_safe`).
#[verifier::external_body]
fn soundfont_from_bytes(bytes: &[u8]) -> (r: Result<rustysynth::SoundFont, rustysynth::SoundFontError>)
    requires
        layout_safe(bytes@),
    ensures
        r is Ok <==> soundfont_loaded(bytes@) is Some,
        r matches Ok(font) ==> font == soundfont_loaded(bytes@)->Some_0,
{
    let mut reader = bytes;
    rustysynth::SoundFont::new(&mut reader)
}

/// The `Debug` text of a `rustysynth::SoundFontError`; the text is not
/// stated.
#[verifier::external_body]
fn soundfont_error_text(e: &rustysynth::SoundFontError) -> (text: String) {
    format!("{e:?}")
}

/// The program (patch) selected on channel `channel` of a synthesizer.
pub uninterp spec fn synth_patch(synth: rustysynth::Synthesizer, channel: int) -> int;

/// A synthesizer's sample rate (`Synthesizer::get_sample_rate`).
pub uninterp spec fn synth_sample_rate(synth: rustysynth::Synthesizer) -> int;

/// A synthesizer's rendering block size (`Synthesizer::get_block_size`).
pub uninterp spec fn synth_block_size(synth: rustysynth::Synthesizer) -> int;

/// A synthesizer's voice limit (`Synthesizer::get_maximum_polyphony`).
pub uninterp spec fn synth_polyphony(synth: rustysynth::Synthesizer) -> int;

/// Whether a synthesizer renders reverb and chorus
/// (`Synthesizer::get_enable_reverb_and_chorus`).
pub uninterp spec fn synth_effects(synth: rustysynth::Synthesizer) -> bool;

/// The SoundFont a synthesizer plays (`Synthesizer::get_sound_font`).
pub uninterp spec fn synth_font(synth: rustysynth::Synthesizer) -> rustysynth::SoundFont;

/// The settings and SoundFont of a synthesizer are those given.
pub open spec fn synth_built(
    synth: rustysynth::Synthesizer,
    font: rustysynth::SoundFont,
    sample_rate: int,
    block_size: int,
    polyphony: int,
    effects: bool,
) -> bool {
    &&& synth_sample_rate(synth) == sample_rate
    &&& synth_block_size(synth) == block_size
    &&& synth_polyphony(synth) == polyphony
    &&& synth_effects(synth) == effects
    &&& synth_font(synth) == font
}

/// Calls `rustysynth::Synthesizer::new` with settings of the given sample
/// rate, block size, polyphony and effects. Its source fails exactly when
/// the settings are out of range (sample rate 16000..=192000, block size
/// 8..=1024, polyphony 8..=256). The new synthesizer keeps the four settings
/// (its getters return them) and shares `font`; its 16 channels are reset,
/// which selects program 0 on each. What else it holds is not stated.
#[verifier::external_body]
fn synthesizer_new(
    font: &std::sync::Arc<rustysynth::SoundFont>,
    sample_rate: i32,
    block_size: usize,
    polyphony: usize,
    effects: bool,
) -> (r: Result<rustysynth::Synthesizer, rustysynth::SynthesizerError>)
    ensures
        r is Ok <==> (16000 <= sample_rate <= 192000 && 8 <= block_size <= 1024 && 8 <= polyphony
            <= 256),
        r matches Ok(s) ==> forall|ch: int| 0 <= ch < 16 ==> synth_patch(s, ch) == 0,
        r matches Ok(s) ==> synth_built(
            s,
            **font,
            sample_rate as int,
            block_size as int,
            polyphony as int,
            effects,
        ),
{
    let mut settings = rustysynth::SynthesizerSettings::new(sample_rate);
    settings.block_size = block_size;
    settings.maximum_polyphony = polyphony;
    settings.enable_reverb_and_chorus = effects;
    rustysynth::Synthesizer::new(font, &settings)
}

/// Calls `rustysynth::Synthesizer::process_midi_message`, for the two
/// messages that select a preset: controller 32 (which rustysynth ignores)
/// and program change. A program change on one of the 16 channels sets that
/// channel's program to `data1`; no other channel's program changes. The
/// message leaves the settings and the SoundFont as they were (it touches
/// only channels and voices). The rest of the synthesizer's state is not
/// stated.
#[verifier::external_body]
fn synth_message(synth: &mut rustysynth::Synthesizer, channel: i32, command: i32, data1: i32, data2: i32)
    requires
        (command == 0xB0 && data1 == 32) || command == 0xC0,
    ensures
        command == 0xC0 && 0 <= channel < 16 ==> synth_patch(*final(synth), channel as int) == data1,
        forall|ch: int|
            0 <= ch < 16 && !(command == 0xC0 && ch == channel) ==> #[trigger] synth_patch(
                *final(synth),
                ch,
            ) == synth_patch(*old(synth), ch),
        synth_sample_rate(*final(synth)) == synth_sample_rate(*old(synth)),
        synth_block_size(*final(synth)) == synth_block_size(*old(synth)),
        synth_polyphony(*final(synth)) == synth_polyphony(*old(synth)),
        synth_effects(*final(synth)) == synth_effects(*old(synth)),
        synth_font(*final(synth)) == synth_font(*old(synth)),
{
    synth.process_midi_message(channel, command, data1, data2)
}

/// The `Debug` text of a `rustysynth::SynthesizerError`; the text is not
/// stated.
#[verifier::external_body]
fn synthesizer_error_text(e: &rustysynth::SynthesizerError) -> (text: String) {
    format!("{e:?}")
}

/// A synthesizer for the preview over a loaded SoundFont: 44.1 kHz, blocks of
/// 64 samples, 64 voices, reverb and chorus on, with the choice's preset
/// selected on the preview channel: bank select (controller 32), then the
/// program. These settings are valid, so this succeeds, and the preview
/// channel plays the choice's program.
pub fn preview_synthesizer(
    font: &std::sync::Arc<rustysynth::SoundFont>,
    choice: &SoundFontChoice,
    path: &str,
) -> (r: Result<rustysynth::Synthesizer, PreviewError>)
    ensures
        r is Ok,
        r matches Ok(s) ==> synth_patch(s, PREVIEW_CHANNEL as int) == choice.patch,
        r matches Ok(s) ==> synth_built(s, **font, 44100, 64, 64, true),
{
    match synthesizer_new(font, 44100, 64, 64, true) {
        Ok(mut synth) => {
            let messages = preset_messages(choice);
            let (command, data1, data2) = messages[0];
            synth_message(&mut synth, PREVIEW_CHANNEL, command, data1, data2);
            let (command, data1, data2) = messages[1];
            synth_message(&mut synth, PREVIEW_CHANNEL, command, data1, data2);
            Ok(synth)
        },
        Err(e) => Err(
            PreviewError::SoundFontLoad {
                path: String::from_str(path),
                detail: synthesizer_error_text(&e),
            },
        ),
    }
}

/// The preview synthesizer for the SoundFont file `path`, whose bytes are
/// `bytes`: the bytes are checked for a layout rustysynth can load without
/// going out of range, loaded, and the choice's preset selected on the
/// preview channel. A file laid out otherwise, or one rustysynth refuses,
/// gives `SoundFontLoad` for `path`.
pub fn preview_from_bytes(bytes: &[u8], choice: &SoundFontChoice, path: &str) -> (r: Result<
    rustysynth::Synthesizer,
    PreviewError,
>)
    ensures
        r is Ok <==> (layout_safe(bytes@) && soundfont_loaded(bytes@) is Some),
        r matches Ok(s) ==> synth_patch(s, PREVIEW_CHANNEL as int) == choice.patch,
        r matches Ok(s) ==> synth_built(s, soundfont_loaded(bytes@)->Some_0, 44100, 64, 64, true),
        r matches Err(e) ==> (e matches PreviewError::SoundFontLoad { path: p, .. } && p@ == path@),
{
    if !check_layout(bytes) {
        return Err(
            PreviewError::SoundFontLoad {
                path: String::from_str(path),
                detail: String::from_str("an index in its preset data is out of range"),
            },
        );
    }
    match soundfont_from_bytes(bytes) {
        Ok(font) => {
            let font = std::sync::Arc::new(font);
            preview_synthesizer(&font, choice, path)
        },
        Err(e) => Err(
            PreviewError::SoundFontLoad {
                path: String::from_str(path),
                detail: soundfont_error_text(&e),
            },
        ),
    }
}

/// The five instruments have five different display names, and every
/// instrument-specific SoundFont name ends in `.sf2`.
pub proof fn lemma_instrument_names(a: Instrument, b: Instrument)
    ensures
        a != b ==> instrument_label(a) != instrument_label(b),
        instrument_sf2(a).len() >= 4,
        instrument_sf2(a).subrange(instrument_sf2(a).len() - 4, instrument_sf2(a).len() as int)
            == seq!['.', 's', 'f', '2'],
{
    reveal_strlit("Guqin (古琴)");
    reveal_strlit("Pipa (琵琶)");
    reveal_strlit("Erhu (二胡)");
    reveal_strlit("Konghou (箜篌)");
    reveal_strlit("Fangxiang (方響)");
    reveal_strlit("guqin.sf2");
    reveal_strlit("pipa.sf2");
    reveal_strlit("erhu.sf2");
    reveal_strlit("konghou.sf2");
    reveal_strlit("fangxiang.sf2");
    if a != b {
        assert(instrument_label(a)[0] != instrument_label(b)[0]);
    }
    let s = instrument_sf2(a);
    assert(s.subrange(s.len() - 4, s.len() as int) =~= seq!['.', 's', 'f', '2']);
}

} // verus!
