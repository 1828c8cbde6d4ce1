use wwm_midi_player::bridge::PlayerBridge;
use wwm_midi_player::queue::{PlayQueue, Selection};

fn paths(names: &[&str]) -> Vec<String> {
    names.iter().map(|n| format!("/m/{n}.mid")).collect()
}

#[test]
fn selection_is_keyed_by_path() {
    let mut s = Selection::new();
    assert!(!s.contains("/m/a.mid"));
    s.set("/m/a.mid", true);
    s.set("/m/a.mid", true);
    assert!(s.contains("/m/a.mid"));
    s.set("/m/b.mid", true);
    s.set("/m/a.mid", false);
    assert!(!s.contains("/m/a.mid"));
    assert!(s.contains("/m/b.mid"));
}

#[test]
fn queue_takes_selected_tracks_in_playlist_order() {
    let playlist = paths(&["a", "b", "c", "d"]);
    let mut s = Selection::new();
    s.set("/m/d.mid", true);
    s.set("/m/b.mid", true);
    s.set("/m/x.mid", true); // not in the playlist
    let mut q = PlayQueue::new();
    assert_eq!(q.start(&playlist, &s), Some("/m/b.mid".to_string()));
    assert_eq!(q.len(), 2);
    assert_eq!(q.current(), Some("/m/b.mid".to_string()));
    assert_eq!(q.advance(), Some("/m/d.mid".to_string()));
    // Not looping: the queue ends after its last track.
    assert_eq!(q.advance(), None);
    assert_eq!(q.len(), 0);
    assert_eq!(q.current(), None);
    assert_eq!(q.advance(), None);
}

#[test]
fn looping_queue_wraps_to_the_start() {
    let playlist = paths(&["a", "b", "c"]);
    let mut s = Selection::new();
    for p in &playlist {
        s.set(p, true);
    }
    let mut q = PlayQueue::new();
    q.set_looping(true);
    assert!(q.is_looping());
    assert_eq!(q.start(&playlist, &s), Some("/m/a.mid".to_string()));
    assert_eq!(q.advance(), Some("/m/b.mid".to_string()));
    assert_eq!(q.advance(), Some("/m/c.mid".to_string()));
    // Three tracks later the queue is back where it started.
    assert_eq!(q.advance(), Some("/m/a.mid".to_string()));
    assert_eq!(q.len(), 3);
}

#[test]
fn empty_selection_queues_nothing() {
    let playlist = paths(&["a"]);
    let mut q = PlayQueue::new();
    assert_eq!(q.start(&playlist, &Selection::new()), None);
    assert_eq!(q.len(), 0);
    assert_eq!(q.advance(), None);
}

#[test]
fn clear_keeps_the_loop_setting() {
    let playlist = paths(&["a", "b"]);
    let mut s = Selection::new();
    s.set("/m/a.mid", true);
    let mut q = PlayQueue::new();
    q.set_looping(true);
    q.start(&playlist, &s);
    q.clear();
    assert_eq!(q.len(), 0);
    assert!(q.is_looping());
}

#[test]
fn bridge_plays_selected_and_follows_the_queue() {
    let names = vec!["a".to_string(), "b".to_string(), "c".to_string()];
    let mut b = PlayerBridge::new(names, paths(&["a", "b", "c"]));
    b.set_selected("/m/c.mid", true);
    b.set_selected("/m/a.mid", true);
    assert_eq!(b.play_selected(), Some("/m/a.mid".to_string()));
    assert_eq!(b.current_index, 0);
    assert_eq!(b.advance_queue(), Some("/m/c.mid".to_string()));
    assert_eq!(b.current_index, 2);
    assert_eq!(b.advance_queue(), None);
    assert_eq!(b.current_index, 2);
}

#[test]
fn bridge_loop_and_manual_selection() {
    let names = vec!["a".to_string(), "b".to_string()];
    let mut b = PlayerBridge::new(names, paths(&["a", "b"]));
    b.set_selected("/m/a.mid", true);
    b.set_selected("/m/b.mid", true);
    b.set_loop_queue(true);
    assert_eq!(b.play_selected(), Some("/m/a.mid".to_string()));
    assert_eq!(b.advance_queue(), Some("/m/b.mid".to_string()));
    assert_eq!(b.advance_queue(), Some("/m/a.mid".to_string()));
    assert_eq!(b.current_index, 0);
    // Choosing a song by hand ends queued playback.
    assert_eq!(b.select_song(1), Some("/m/b.mid".to_string()));
    assert_eq!(b.queue.len(), 0);
    assert_eq!(b.advance_queue(), None);
    assert_eq!(b.current_index, 1);
    // Unticking removes a track from the next queue.
    b.set_selected("/m/a.mid", false);
    assert_eq!(b.play_selected(), Some("/m/b.mid".to_string()));
    assert_eq!(b.queue.len(), 1);
}
