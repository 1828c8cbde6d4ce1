use evdev::KeyCode;
use wwm_midi_player::input::{all_supported_keys, key_for_char, resolve, InputError, KeyEvent, KeyTracker};
use wwm_midi_player::mapping::KeyChord;

fn code(c: char) -> Option<KeyCode> {
    key_for_char(c).map(KeyCode::new)
}

#[test]
fn letters_map_to_correct_linux_keycodes() {
    // Linux keycodes are scan-code based, not alphabetical.
    assert_eq!(code('a'), Some(KeyCode::KEY_A));
    assert_eq!(code('b'), Some(KeyCode::KEY_B));
    assert_eq!(code('z'), Some(KeyCode::KEY_Z));
    assert_eq!(code('q'), Some(KeyCode::KEY_Q));
}

#[test]
fn letters_do_not_follow_alphabetical_order() {
    assert_ne!(KeyCode::KEY_B.code(), KeyCode::KEY_A.code() + 1);
    assert_eq!(KeyCode::KEY_S.code(), KeyCode::KEY_A.code() + 1); // A=30, S=31 on QWERTY
}

#[test]
fn digits_map_to_keypad_row() {
    assert_eq!(code('0'), Some(KeyCode::KEY_0));
    assert_eq!(code('7'), Some(KeyCode::KEY_7));
}

#[test]
fn resolve_applies_modifiers() {
    let as_codes = |r: Option<(Option<u16>, u16)>| {
        r.map(|(m, b)| (m.map(KeyCode::new), KeyCode::new(b)))
    };
    assert_eq!(as_codes(resolve(KeyChord::Key('a'))), Some((None, KeyCode::KEY_A)));
    assert_eq!(
        as_codes(resolve(KeyChord::Shift('a'))),
        Some((Some(KeyCode::KEY_LEFTSHIFT), KeyCode::KEY_A))
    );
    assert_eq!(
        as_codes(resolve(KeyChord::Ctrl('j'))),
        Some((Some(KeyCode::KEY_LEFTCTRL), KeyCode::KEY_J))
    );
}

#[test]
fn unknown_key_resolves_to_none() {
    assert_eq!(key_for_char('!'), None);
    assert_eq!(resolve(KeyChord::Key('!')), None);
}

#[test]
fn every_table_entry_matches_evdev() {
    let expected = [
        ('a', KeyCode::KEY_A), ('b', KeyCode::KEY_B), ('c', KeyCode::KEY_C), ('d', KeyCode::KEY_D),
        ('e', KeyCode::KEY_E), ('f', KeyCode::KEY_F), ('g', KeyCode::KEY_G), ('h', KeyCode::KEY_H),
        ('i', KeyCode::KEY_I), ('j', KeyCode::KEY_J), ('k', KeyCode::KEY_K), ('l', KeyCode::KEY_L),
        ('m', KeyCode::KEY_M), ('n', KeyCode::KEY_N), ('o', KeyCode::KEY_O), ('p', KeyCode::KEY_P),
        ('q', KeyCode::KEY_Q), ('r', KeyCode::KEY_R), ('s', KeyCode::KEY_S), ('t', KeyCode::KEY_T),
        ('u', KeyCode::KEY_U), ('v', KeyCode::KEY_V), ('w', KeyCode::KEY_W), ('x', KeyCode::KEY_X),
        ('y', KeyCode::KEY_Y), ('z', KeyCode::KEY_Z), ('0', KeyCode::KEY_0), ('1', KeyCode::KEY_1),
        ('2', KeyCode::KEY_2), ('3', KeyCode::KEY_3), ('4', KeyCode::KEY_4), ('5', KeyCode::KEY_5),
        ('6', KeyCode::KEY_6), ('7', KeyCode::KEY_7), ('8', KeyCode::KEY_8), ('9', KeyCode::KEY_9),
        (';', KeyCode::KEY_SEMICOLON), (',', KeyCode::KEY_COMMA), ('.', KeyCode::KEY_DOT),
        ('/', KeyCode::KEY_SLASH),
    ];
    for (c, k) in expected {
        assert_eq!(code(c), Some(k), "char {c:?}");
        assert_eq!(code(c.to_ascii_uppercase()), Some(k), "char {c:?} upper");
    }
    let keys: Vec<KeyCode> = all_supported_keys().into_iter().map(KeyCode::new).collect();
    assert_eq!(keys.len(), 46);
    assert_eq!(
        keys[40..],
        [
            KeyCode::KEY_LEFTSHIFT,
            KeyCode::KEY_RIGHTSHIFT,
            KeyCode::KEY_LEFTCTRL,
            KeyCode::KEY_RIGHTCTRL,
            KeyCode::KEY_LEFTALT,
            KeyCode::KEY_RIGHTALT
        ]
    );
}

#[test]
fn tracker_presses_releases_and_releases_all() {
    let mut t = KeyTracker::new();
    let down = t.press(KeyChord::Shift('a')).unwrap();
    assert_eq!(down, vec![KeyEvent::Down(42), KeyEvent::Down(30), KeyEvent::Sync]);
    let up = t.release(KeyChord::Shift('a')).unwrap();
    assert_eq!(up, vec![KeyEvent::Up(30), KeyEvent::Up(42), KeyEvent::Sync]);
    assert!(t.release_all().is_empty());
    t.press(KeyChord::Ctrl('j')).unwrap();
    t.press(KeyChord::Key('q')).unwrap();
    let all = t.release_all();
    assert_eq!(all, vec![KeyEvent::Up(29), KeyEvent::Up(36), KeyEvent::Up(16), KeyEvent::Sync]);
    assert!(t.release_all().is_empty());
    assert!(matches!(t.press(KeyChord::Key('!')), Err(InputError::UnknownKey(KeyChord::Key('!')))));
}
