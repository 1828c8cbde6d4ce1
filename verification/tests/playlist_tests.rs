use wwm_midi_player::playlist::Playlist;

#[test]
fn move_entry_reorders() {
    let mut p = Playlist::default();
    for s in ["a.mid", "b.mid", "c.mid"] {
        p.add(format!("/m/{s}"));
    }
    p.move_entry(0, 2);
    assert_eq!(p.entries, vec!["/m/b.mid", "/m/c.mid", "/m/a.mid"]);
    p.move_entry(2, 1);
    assert_eq!(p.entries, vec!["/m/b.mid", "/m/a.mid", "/m/c.mid"]);
}

#[test]
fn remove_is_optional_and_bounded() {
    let mut p = Playlist::default();
    p.add("/m/a.mid".into());
    assert_eq!(p.remove(5), None);
    assert_eq!(p.remove(0), Some("/m/a.mid".into()));
    assert!(p.entries.is_empty());
}

#[test]
fn name_is_the_file_stem() {
    assert_eq!(Playlist::name_of("/music/foo.mid"), "foo");
    assert_eq!(Playlist::name_of("/weird"), "weird");
}

#[test]
fn add_ignores_duplicates_and_empty_paths() {
    let mut p = Playlist::default();
    p.add("/music/a.mid".into());
    p.add("/music/b.mid".into());
    p.add("/music/a.mid".into());
    p.add(String::new());
    assert_eq!(p.entries, vec!["/music/a.mid", "/music/b.mid"]);
}

#[test]
fn move_entry_out_of_range_is_a_no_op() {
    let mut p = Playlist::default();
    p.add("/m/a.mid".into());
    p.add("/m/b.mid".into());
    p.move_entry(0, 2);
    p.move_entry(3, 0);
    p.move_entry(1, 1);
    assert_eq!(p.entries, vec!["/m/a.mid", "/m/b.mid"]);
    p.move_entry(1, 0);
    p.move_entry(0, 1);
    assert_eq!(p.entries, vec!["/m/a.mid", "/m/b.mid"]);
}

#[test]
fn names_follow_std_file_stems() {
    let cases = [
        "/music/foo.mid",
        "/weird",
        "a.tar.gz",
        ".hidden",
        ".a.b",
        "a.",
        "/music/dir/",
        "/music/./song.midi",
        "song.mid/.",
        "/music/..",
        "..",
        ".",
        "/",
        "",
        "//x//y.mid//",
        "/音乐/古琴.mid",
    ];
    for case in cases {
        let expected = std::path::Path::new(case)
            .file_stem()
            .map(|s| s.to_string_lossy().into_owned())
            .unwrap_or_else(|| case.to_string());
        assert_eq!(Playlist::name_of(case), expected, "path {case:?}");
    }
}

#[test]
fn names_are_listed_in_order() {
    let mut p = Playlist::default();
    p.add("/m/one.mid".into());
    p.add("/m/two.midi".into());
    assert_eq!(p.names(), vec!["one".to_string(), "two".to_string()]);
    assert!(p.contains(&"/m/one.mid".to_string()));
    assert!(!p.contains(&"/m/three.mid".to_string()));
}

#[test]
fn moving_an_entry_back_restores_the_list() {
    let mut p = Playlist::default();
    for s in ["a.mid", "b.mid", "c.mid", "d.mid"] {
        p.add(format!("/m/{s}"));
    }
    let before = p.entries.clone();
    p.move_entry(3, 1);
    assert_eq!(p.entries, vec!["/m/a.mid", "/m/d.mid", "/m/b.mid", "/m/c.mid"]);
    p.move_entry(1, 3);
    assert_eq!(p.entries, before);
}
