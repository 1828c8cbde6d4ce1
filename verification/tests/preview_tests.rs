use wwm_midi_player::preview::{
    preset_messages, resolve_soundfont, soundfont_candidates, Instrument, PreviewError,
    SoundFontChoice,
};

#[test]
fn gm_programs_are_in_gm_range() {
    for inst in Instrument::all() {
        let p = inst.gm_program();
        assert!((0..128).contains(&p));
    }
}

#[test]
fn every_instrument_has_unique_display_name_and_sf2() {
    let mut names = std::collections::HashSet::new();
    for inst in Instrument::all() {
        assert!(names.insert(inst.display_name()));
        assert!(inst.sf2_name().ends_with(".sf2"));
    }
}

#[test]
fn instrument_names_and_programs() {
    assert_eq!(Instrument::Guqin.display_name(), "Guqin (古琴)");
    assert_eq!(Instrument::Fangxiang.sf2_name(), "fangxiang.sf2");
    assert_eq!(Instrument::Erhu.gm_program(), 40);
    assert_eq!(Instrument::Konghou.gm_program(), 46);
}

fn dirs() -> Vec<String> {
    vec!["/app/soundfonts".to_string(), "/home/u/sf".to_string()]
}

#[test]
fn resolve_prefers_instrument_specific() {
    assert_eq!(
        soundfont_candidates(Instrument::Pipa),
        vec!["MFA_Pipa.sf2", "pipa.sf2", "FluidR3_GM.sf2", "FluidR3_GS.sf2"]
    );
    // Specific file wins.
    let none = vec![false; 4];
    let own = resolve_soundfont(
        Instrument::Guqin,
        &dirs(),
        &vec![none.clone(), vec![false, true, true, false]],
    )
    .unwrap();
    assert_eq!((own.file.as_str(), own.path.as_str(), own.bank, own.patch), ("guqin.sf2", "/home/u/sf/guqin.sf2", 0, 0));
    // Others fall back to GM, with the instrument's GM program.
    let gm = resolve_soundfont(
        Instrument::Pipa,
        &dirs(),
        &vec![none.clone(), vec![false, false, true, false]],
    )
    .unwrap();
    assert_eq!((gm.file.as_str(), gm.bank, gm.patch), ("FluidR3_GM.sf2", 0, 105));
    let gs = resolve_soundfont(
        Instrument::Konghou,
        &dirs(),
        &vec![none.clone(), vec![false, false, false, true]],
    )
    .unwrap();
    assert_eq!((gs.file.as_str(), gs.bank, gs.patch), ("FluidR3_GS.sf2", 0, 46));
}

#[test]
fn bundled_fonts_come_first() {
    // The bundled directory is searched first, even with the user's own files.
    let erhu = resolve_soundfont(
        Instrument::Erhu,
        &dirs(),
        &vec![vec![true, false, false, false], vec![true, true, true, true]],
    )
    .unwrap();
    assert_eq!(
        (erhu.file.as_str(), erhu.path.as_str(), erhu.bank, erhu.patch),
        ("FS_Erhu_v2.sf2", "/app/soundfonts/FS_Erhu_v2.sf2", 8, 110)
    );
    // A shipped font missing from the bundle is still found in the user's directory.
    let pipa = resolve_soundfont(
        Instrument::Pipa,
        &dirs(),
        &vec![vec![false, true, true, true], vec![true, false, false, false]],
    )
    .unwrap();
    assert_eq!((pipa.path.as_str(), pipa.bank, pipa.patch), ("/home/u/sf/MFA_Pipa.sf2", 32, 105));
}

#[test]
fn resolve_errors_when_nothing_present() {
    match resolve_soundfont(Instrument::Erhu, &dirs(), &vec![vec![false; 4], vec![false; 4]]) {
        Err(PreviewError::NoSoundFont { dir }) => assert_eq!(dir, "/app/soundfonts, /home/u/sf"),
        other => panic!("expected NoSoundFont, got {:?}", other),
    }
}

#[test]
fn preset_is_selected_by_bank_then_program() {
    let choice = SoundFontChoice {
        file: "FluidR3_GM.sf2".into(),
        path: "/sf/FluidR3_GM.sf2".into(),
        bank: 0,
        patch: 107,
    };
    assert_eq!(preset_messages(&choice), [(0xB0, 32, 0), (0xC0, 107, 0)]);
}
