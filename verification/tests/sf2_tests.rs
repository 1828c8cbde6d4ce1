use wwm_midi_player::preview::{preview_from_bytes, PreviewError, SoundFontChoice};
use wwm_midi_player::sf2::check_layout;

fn chunk(id: &[u8; 4], data: &[u8]) -> Vec<u8> {
    let mut out = id.to_vec();
    out.extend_from_slice(&(data.len() as u32).to_le_bytes());
    out.extend_from_slice(data);
    out
}

fn list(kind: &[u8; 4], subs: &[Vec<u8>]) -> Vec<u8> {
    let mut body = kind.to_vec();
    for s in subs {
        body.extend_from_slice(s);
    }
    chunk(b"LIST", &body)
}

fn name(text: &str) -> Vec<u8> {
    let mut out = text.as_bytes().to_vec();
    out.resize(20, 0);
    out
}

fn u16s(values: &[u16]) -> Vec<u8> {
    values.iter().flat_map(|v| v.to_le_bytes()).collect()
}

fn preset(label: &str, zone_start: u16) -> Vec<u8> {
    let mut out = name(label);
    out.extend(u16s(&[0, 0, zone_start]));
    out.extend([0u8; 12]);
    out
}

fn instrument(label: &str, zone_start: u16) -> Vec<u8> {
    let mut out = name(label);
    out.extend(u16s(&[zone_start]));
    out
}

fn sample(label: &str, start: i32, end: i32, loop_start: i32, loop_end: i32) -> Vec<u8> {
    let mut out = name(label);
    for v in [start, end, loop_start, loop_end, 44100] {
        out.extend(v.to_le_bytes());
    }
    out.extend([60u8, 0]);
    out.extend(u16s(&[0, 1]));
    out
}

/// A one-preset, one-instrument, one-sample SoundFont. `pbag_end` is the
/// generator index in the terminal preset bag entry, `sample_start` the
/// first sample's start.
fn font(pbag_end: u16, sample_start: i32) -> Vec<u8> {
    font_with_version(&u16s(&[2, 1]), pbag_end, sample_start)
}

fn font_with_version(version: &[u8], pbag_end: u16, sample_start: i32) -> Vec<u8> {
    let info = list(b"INFO", &[chunk(b"ifil", version), chunk(b"INAM", b"test\0\0")]);
    let sdta = list(b"sdta", &[chunk(b"smpl", &[0u8; 200])]);
    let phdr = [preset("p0", 0), preset("EOP", 1)].concat();
    let inst = [instrument("i0", 0), instrument("EOI", 1)].concat();
    let shdr = [sample("s0", sample_start, 50, 10, 40), sample("EOS", 0, 0, 0, 0)].concat();
    let pdta = list(
        b"pdta",
        &[
            chunk(b"phdr", &phdr),
            chunk(b"pbag", &u16s(&[0, 0, pbag_end, 0])),
            chunk(b"pmod", &[0u8; 10]),
            chunk(b"pgen", &u16s(&[41, 0, 0, 0])),
            chunk(b"inst", &inst),
            chunk(b"ibag", &u16s(&[0, 0, 1, 0])),
            chunk(b"imod", &[0u8; 10]),
            chunk(b"igen", &u16s(&[53, 0, 0, 0])),
            chunk(b"shdr", &shdr),
        ],
    );
    let mut body = b"sfbk".to_vec();
    body.extend(info);
    body.extend(sdta);
    body.extend(pdta);
    chunk(b"RIFF", &body)
}

fn choice() -> SoundFontChoice {
    SoundFontChoice { file: "test.sf2".into(), path: "/sf/test.sf2".into(), bank: 0, patch: 0 }
}

#[test]
fn well_formed_font_passes_the_layout_check() {
    assert!(check_layout(&font(1, 0)));
}

#[test]
fn well_formed_font_loads_into_a_synthesizer() {
    let synth = preview_from_bytes(&font(1, 0), &choice(), "/sf/test.sf2").unwrap();
    assert_eq!(synth.get_sample_rate(), 44100);
    assert_eq!(synth.get_block_size(), 64);
    assert_eq!(synth.get_maximum_polyphony(), 64);
    assert!(synth.get_enable_reverb_and_chorus());
    assert_eq!(synth.get_sound_font().get_presets().len(), 1);
}

#[test]
fn generator_index_past_the_list_is_refused() {
    // The preset zone claims generators 0..2 of a list holding one.
    let bytes = font(2, 0);
    assert!(!check_layout(&bytes));
    match preview_from_bytes(&bytes, &choice(), "/sf/test.sf2") {
        Err(PreviewError::SoundFontLoad { path, .. }) => assert_eq!(path, "/sf/test.sf2"),
        other => panic!("expected SoundFontLoad, got {:?}", other.map(|_| ())),
    }
}

#[test]
fn sample_position_near_the_32_bit_limit_is_refused() {
    assert!(!check_layout(&font(1, 0x4000_0001)));
    assert!(check_layout(&font(1, 0x4000_0000)));
}

#[test]
fn version_chunk_of_another_size_is_refused() {
    // rustysynth reads four bytes of a version chunk whatever its size says.
    assert!(!check_layout(&font_with_version(&u16s(&[2, 1, 0]), 1, 0)));
    assert!(check_layout(&font_with_version(&u16s(&[2, 1]), 1, 0)));
}

#[test]
fn garbage_is_no_soundfont() {
    assert!(!check_layout(b"not a soundfont at all"));
    assert!(!check_layout(&[]));
    match preview_from_bytes(b"RIFF", &choice(), "/x.sf2") {
        Err(PreviewError::SoundFontLoad { path, .. }) => assert_eq!(path, "/x.sf2"),
        other => panic!("expected SoundFontLoad, got {:?}", other.map(|_| ())),
    }
}

#[test]
fn font_rustysynth_refuses_gives_its_error() {
    // Sample end beyond the sample data: rustysynth's own check refuses it.
    let mut bytes = font(1, 0);
    let at = bytes.len() - 2 * 46 + 24;
    bytes[at..at + 4].copy_from_slice(&500i32.to_le_bytes());
    assert!(check_layout(&bytes));
    match preview_from_bytes(&bytes, &choice(), "/sf/test.sf2") {
        Err(PreviewError::SoundFontLoad { detail, .. }) => assert!(detail.contains("Sanity")),
        other => panic!("expected SoundFontLoad, got {:?}", other.map(|_| ())),
    }
}
