use wwm_midi_player::mapping::{
    map_note, normalize_into_range, note_to_key_21, note_to_key_21_raw, note_to_key_36,
    note_to_key_36_raw, KeyChord, KeyMode, NoteMode,
};

#[test]
fn naturals_map_to_plain_keys() {
    // Middle row, C4 = a (mid octave).
    assert_eq!(note_to_key_36(60, 0), KeyChord::Key('a'));
    assert_eq!(note_to_key_36(62, 0), KeyChord::Key('s'));
    assert_eq!(note_to_key_36(64, 0), KeyChord::Key('d'));
    assert_eq!(note_to_key_36(65, 0), KeyChord::Key('f'));
    assert_eq!(note_to_key_36(67, 0), KeyChord::Key('g'));
    assert_eq!(note_to_key_36(69, 0), KeyChord::Key('h'));
    assert_eq!(note_to_key_36(71, 0), KeyChord::Key('j'));
}

#[test]
fn accidentals_map_to_shift_and_ctrl() {
    assert_eq!(note_to_key_36(61, 0), KeyChord::Shift('a')); // C#4
    assert_eq!(note_to_key_36(63, 0), KeyChord::Ctrl('d')); // D#4
    assert_eq!(note_to_key_36(66, 0), KeyChord::Shift('f')); // F#4
    assert_eq!(note_to_key_36(70, 0), KeyChord::Ctrl('j')); // A#4
}

#[test]
fn octave_rows_use_expected_keys() {
    assert_eq!(note_to_key_36(48, 0), KeyChord::Key('z')); // C3 low = z
    assert_eq!(note_to_key_36(72, 0), KeyChord::Key('q')); // C5 high = q
    assert_eq!(note_to_key_36(83, 0), KeyChord::Key('u')); // B5 high = u
}

#[test]
fn raw_mode_is_deterministic() {
    assert_eq!(note_to_key_36_raw(60), KeyChord::Key('q'));
    assert_eq!(note_to_key_36_raw(0), KeyChord::Key('z'));
    assert_eq!(note_to_key_36_raw(36), KeyChord::Key('z'));
}

#[test]
fn twent_one_key_maps_natural_notes_across_rows() {
    // C3/C4/C5 land on low/mid/high C keys.
    assert_eq!(note_to_key_21(48, 0), KeyChord::Key('z'));
    assert_eq!(note_to_key_21(60, 0), KeyChord::Key('a'));
    assert_eq!(note_to_key_21(72, 0), KeyChord::Key('q'));
    // Ti (B) = 7th degree.
    assert_eq!(note_to_key_21(71, 0), KeyChord::Key('j'));
}

#[test]
fn twenty_one_key_quantizes_accidentals_to_nearest_natural() {
    // C#4 (61) is equidistant from C4/D4; ties resolve to the lower natural.
    assert_eq!(note_to_key_21(61, 0), KeyChord::Key('a')); // C#4 -> C4
    // A#4 (70) is nearer A4 (69) than B4 (71).
    assert_eq!(note_to_key_21(70, 0), KeyChord::Key('h')); // A#4 -> A4
}

#[test]
fn twenty_one_key_never_uses_modifiers() {
    for note in 0..=127 {
        let key = note_to_key_21(note, 0);
        assert!(matches!(key, KeyChord::Key(_)), "note {note} produced {}", key.to_string());
    }
}

#[test]
fn twenty_one_key_raw_wraps_modulo_21() {
    assert_eq!(note_to_key_21_raw(0), KeyChord::Key('z'));
    assert_eq!(note_to_key_21_raw(21), KeyChord::Key('z'));
    assert_eq!(note_to_key_21_raw(7), KeyChord::Key('a')); // second octave Do
}

#[test]
fn mapping_normalize_into_range_wraps_octaves() {
    assert_eq!(normalize_into_range(36), 48); // C2 -> C3
    assert_eq!(normalize_into_range(95), 83); // B6 -> B5
    assert_eq!(normalize_into_range(60), 60); // C4 unchanged
}

#[test]
fn display_formats_chords() {
    assert_eq!(KeyChord::Key('z').to_string(), "z");
    assert_eq!(KeyChord::Shift('a').to_string(), "shift+a");
    assert_eq!(KeyChord::Ctrl('c').to_string(), "ctrl+c");
}

#[test]
fn normalize_folds_far_pitches_into_the_window() {
    assert_eq!(normalize_into_range(0), 48);
    assert_eq!(normalize_into_range(47), 59);
    assert_eq!(normalize_into_range(84), 72);
    assert_eq!(normalize_into_range(127), 79);
    assert_eq!(normalize_into_range(-1), 59);
    assert_eq!(normalize_into_range(i32::MIN), 52);
    assert_eq!(normalize_into_range(i32::MAX), 79);
}

#[test]
fn twenty_one_key_folds_out_of_range_notes_by_octaves() {
    // C1 (24) folds to C3; D7 (98) folds to D5.
    assert_eq!(note_to_key_21(24, 0), KeyChord::Key('z'));
    assert_eq!(note_to_key_21(98, 0), KeyChord::Key('w'));
    // The transpose applies before folding: 59 + 1 = C4.
    assert_eq!(note_to_key_21(59, 1), KeyChord::Key('a'));
    // B5 stays on the top key.
    assert_eq!(note_to_key_21(83, 0), KeyChord::Key('u'));
}

#[test]
fn thirty_six_key_clamps_rows_and_keeps_pitch_class() {
    // Below C3 stays on the low row, above B5 on the high row.
    assert_eq!(note_to_key_36(24, 0), KeyChord::Key('z'));
    assert_eq!(note_to_key_36(97, 0), KeyChord::Shift('q'));
    // The transpose applies first: 58 + 2 = C4.
    assert_eq!(note_to_key_36(58, 2), KeyChord::Key('a'));
}

#[test]
fn raw_layouts_wrap_negative_notes() {
    assert_eq!(note_to_key_21_raw(-1), KeyChord::Key('u'));
    assert_eq!(note_to_key_36_raw(-1), KeyChord::Key('u'));
    assert_eq!(note_to_key_36_raw(37), KeyChord::Shift('z'));
}

#[test]
fn map_note_dispatches_on_layout_and_mode() {
    assert_eq!(map_note(KeyMode::TwentyOne, NoteMode::Closest, 61, 0), KeyChord::Key('a'));
    assert_eq!(map_note(KeyMode::TwentyOne, NoteMode::Raw, 7, 5), KeyChord::Key('a'));
    assert_eq!(map_note(KeyMode::ThirtySix, NoteMode::Closest, 61, 0), KeyChord::Shift('a'));
    assert_eq!(map_note(KeyMode::ThirtySix, NoteMode::Raw, 60, 5), KeyChord::Key('q'));
    assert_eq!(map_note(KeyMode::ThirtySix, NoteMode::Closest, 60, 12), KeyChord::Key('q'));
}

#[test]
fn layouts_default_to_twenty_one_closest() {
    assert_eq!(KeyMode::default(), KeyMode::TwentyOne);
    assert_eq!(NoteMode::default(), NoteMode::Closest);
}

#[test]
fn thirty_six_key_gives_every_pitch_of_the_range_its_own_chord() {
    let chords: Vec<KeyChord> = (48..=83).map(|n| note_to_key_36(n, 0)).collect();
    for (i, a) in chords.iter().enumerate() {
        for b in &chords[i + 1..] {
            assert_ne!(a, b);
        }
    }
    // The transpose shifts the pitch before the chord is chosen.
    assert_eq!(note_to_key_36(58, 2), note_to_key_36(60, 0));
}

#[test]
fn raw_layouts_repeat_every_layout_size() {
    for n in -50..100 {
        assert_eq!(note_to_key_21_raw(n + 21), note_to_key_21_raw(n));
        assert_eq!(note_to_key_36_raw(n + 36), note_to_key_36_raw(n));
    }
}
