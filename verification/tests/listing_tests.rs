use wwm_midi_player::listing::{is_midi, midi_listing};

fn strings(items: &[&str]) -> Vec<String> {
    items.iter().map(|s| s.to_string()).collect()
}

#[test]
fn only_mid_and_midi_files_are_listed() {
    assert!(is_midi("/m/song.mid"));
    assert!(is_midi("/m/Song.MIDI"));
    assert!(is_midi("/m/a.b.Mid"));
    assert!(!is_midi("/m/notes.txt"));
    assert!(!is_midi("/m/mid"));
    assert!(!is_midi("/m/.mid"));
    assert!(!is_midi("/m/song.midx"));
    assert!(!is_midi("/m/song.mi"));
    assert!(!is_midi("/m/dir.mid/.."));
}

#[test]
fn listing_is_sorted_by_name_ignoring_case() {
    let entries = strings(&[
        "/m/zeta.mid",
        "/m/readme.txt",
        "/m/Alpha.MID",
        "/m/beta.midi",
        "/n/alpha.mid",
    ]);
    let (names, paths) = midi_listing(&entries);
    assert_eq!(names, strings(&["Alpha", "alpha", "beta", "zeta"]));
    assert_eq!(
        paths,
        strings(&["/m/Alpha.MID", "/n/alpha.mid", "/m/beta.midi", "/m/zeta.mid"])
    );
}

#[test]
fn empty_scan_lists_nothing() {
    let (names, paths) = midi_listing(&Vec::new());
    assert!(names.is_empty());
    assert!(paths.is_empty());
}

#[test]
fn case_is_ignored_when_ordering() {
    let entries = strings(&["/m/Beta.mid", "/m/alpha.mid", "/m/GAMMA.midi"]);
    let (names, _) = midi_listing(&entries);
    assert_eq!(names, strings(&["alpha", "Beta", "GAMMA"]));
}

#[test]
fn equal_names_keep_the_scan_order() {
    let entries = strings(&["/n/alpha.mid", "/m/b.mid", "/m/Alpha.MID"]);
    let (names, paths) = midi_listing(&entries);
    assert_eq!(names, strings(&["alpha", "Alpha", "b"]));
    assert_eq!(paths, strings(&["/n/alpha.mid", "/m/Alpha.MID", "/m/b.mid"]));
}
