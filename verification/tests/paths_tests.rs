use wwm_midi_player::paths::{
    default_playlist_path, default_scan_dirs, display_name, expand_home, file_name, join_path,
    soundfont_dirs,
    soundfonts_dir,
};

#[test]
fn display_names_follow_std_file_stems() {
    assert_eq!(display_name("/music/foo.mid"), "foo");
    assert_eq!(display_name("/music/a.b.mid"), "a.b");
    assert_eq!(display_name("/music/.hidden"), ".hidden");
    assert_eq!(display_name("/music/dir/"), "dir");
    assert_eq!(display_name("/music/.."), "/music/..");
    assert_eq!(file_name("/music/x.mid/."), Some("x.mid".to_string()));
    assert_eq!(file_name("/"), None);
}

#[test]
fn join_inserts_one_separator() {
    assert_eq!(join_path("/home/u", "a/b"), "/home/u/a/b");
    assert_eq!(join_path("/home/u/", "a"), "/home/u/a");
    assert_eq!(join_path("", "a"), "a");
}

#[test]
fn home_is_expanded_only_for_tilde_slash() {
    assert_eq!(expand_home("~/Music", Some("/home/u")), "/home/u/Music");
    assert_eq!(expand_home("~/Music", None), "~/Music");
    assert_eq!(expand_home("/abs/~/x", Some("/home/u")), "/abs/~/x");
    assert_eq!(expand_home("~user/x", Some("/home/u")), "~user/x");
    assert_eq!(
        default_scan_dirs(Some("/home/u")),
        vec!["/home/u/Projects/test-midi-files".to_string(), "/home/u/Music".to_string()]
    );
}

#[test]
fn default_path_honors_xdg_config_home() {
    let p = default_playlist_path(None, Some("/home/u"));
    assert!(std::path::Path::new(&p).ends_with("where-winds-meet-player/playlist.json"));
    assert_eq!(
        default_playlist_path(Some("/tmp/xdg"), Some("/home/u")),
        "/tmp/xdg/where-winds-meet-player/playlist.json"
    );
    assert_eq!(
        default_playlist_path(None, Some("/home/u")),
        "/home/u/.config/where-winds-meet-player/playlist.json"
    );
    assert_eq!(default_playlist_path(None, None), "./where-winds-meet-player/playlist.json");
}

#[test]
fn soundfonts_live_under_local_share() {
    assert_eq!(
        soundfonts_dir(Some("/home/u")),
        "/home/u/.local/share/where-winds-meet-player/soundfonts"
    );
    assert_eq!(soundfonts_dir(None), ".local/share/where-winds-meet-player/soundfonts");
}

#[test]
fn bundled_soundfonts_are_searched_before_the_users() {
    assert_eq!(
        soundfont_dirs("/opt/wwm", Some("/home/u")),
        vec![
            "/opt/wwm/soundfonts".to_string(),
            "/home/u/.local/share/where-winds-meet-player/soundfonts".to_string()
        ]
    );
}
