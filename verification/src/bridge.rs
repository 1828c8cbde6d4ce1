//! The front-end's decisions: the "Go Live" button, game detection, and the
//! state the Qt bridge mirrors from the player.
//!
//! The Qt/QML object, the `/proc` scan and the timers run around this
//! module. The bridge model here holds the properties QML binds to, turns user
//! actions into player commands, and turns player events into status text.
use vstd::prelude::*;

use crate::mapping::chord_label;
use crate::midi::{midi_error_text, note_on_count, MidiError, Song};
use crate::paths::{display_name, display_name_of, file_name, file_name_of};
use crate::player::{Command, PlayerEvent, PlayerState};
use crate::playlist::{added, lemma_add_keeps_no_duplicates, moved, no_duplicates};
use crate::queue::{path_texts, selected_in_order, PlayQueue, QueueView, Selection, advanced};
use crate::text::{contains_text, has_infix, has_prefix, lowercase_of, starts_with, to_lowercase};

verus! {

/// The Go Live button's three visual states.
#[derive(Debug, Clone, Copy, PartialEq, Eq, Structural)]
pub enum LiveColor {
    Gray,
    Green,
    Red,
}

/// Color of the Go Live button given game-detection and live state: gray
/// without the game, red while live, green when it can go live.
pub fn live_button_color(game_running: bool, live: bool) -> (c: LiveColor)
    ensures
        !game_running ==> c == LiveColor::Gray,
        game_running && live ==> c == LiveColor::Red,
        game_running && !live ==> c == LiveColor::Green,
{
    if !game_running {
        LiveColor::Gray
    } else if live {
        LiveColor::Red
    } else {
        LiveColor::Green
    }
}

/// The Go Live button is only interactive while the game is running.
pub fn live_button_enabled(game_running: bool) -> (enabled: bool)
    ensures
        enabled == game_running,
{
    game_running
}

/// The characters of the `file://` URL scheme prefix.
pub open spec fn file_scheme() -> Seq<char> {
    seq!['f', 'i', 'l', 'e', ':', '/', '/']
}

/// A path with a leading `file://` removed.
pub open spec fn stripped_url(path: Seq<char>) -> Seq<char> {
    if has_prefix(path, file_scheme()) {
        path.skip(7)
    } else {
        path
    }
}

/// Remove a leading `file://` URL scheme, returning a plain path.
pub fn strip_file_url(path: &str) -> (r: &str)
    ensures
        r@ == stripped_url(path@),
{
    proof {
        reveal_strlit("file://");
        assert("file://"@ =~= file_scheme());
    }
    if starts_with(path, "file://") {
        let len = path.unicode_len();
        let r = path.substring_char(7, len);
        proof {
            assert(r@ =~= path@.skip(7));
        }
        r
    } else {
        path
    }
}

/// The cmdline belongs to one of this player's own binaries.
pub open spec fn is_own_process(cmdline: Seq<char>) -> bool {
    has_infix(cmdline, "wwm-midi-player"@) || has_infix(cmdline, "wwm-gui"@) || has_infix(
        cmdline,
        "wwm-cli"@,
    )
}

/// A lower-cased cmdline names the game: the game's executable or title, and
/// not one of this player's own binaries (whose names also hold "wwm").
pub open spec fn names_game(cmdline: Seq<char>) -> bool {
    !is_own_process(cmdline) && (has_infix(cmdline, "wwm.exe"@) || has_infix(
        cmdline,
        "where winds meet"@,
    ) || has_infix(cmdline, "winds meet"@))
}

/// True when a cmdline belongs to one of our own binaries.
pub fn process_is_ours(cmdline: &str) -> (r: bool)
    ensures
        r == is_own_process(cmdline@),
{
    contains_text(cmdline, "wwm-midi-player") || contains_text(cmdline, "wwm-gui") || contains_text(
        cmdline,
        "wwm-cli",
    )
}

/// A cmdline, already in lower case, names the game.
pub fn cmdline_names_game(cmdline: &str) -> (r: bool)
    ensures
        r == names_game(cmdline@),
{
    if process_is_ours(cmdline) {
        return false;
    }
    contains_text(cmdline, "wwm.exe") || contains_text(cmdline, "where winds meet") || contains_text(
        cmdline,
        "winds meet",
    )
}

/// What std's `String::from_utf8_lossy` makes of the bytes.
pub uninterp spec fn utf8_lossy_of(bytes: Seq<u8>) -> Seq<char>;

/// Calls `String::from_utf8_lossy`. The contract names its result, a
/// function of the bytes, and states (from std's documentation) that valid
/// UTF-8 decodes unchanged.
#[verifier::external_body]
pub(crate) fn utf8_lossy(bytes: &[u8]) -> (s: String)
    ensures
        s@ == utf8_lossy_of(bytes@),
        vstd::utf8::valid_utf8(bytes@) ==> s@ == vstd::utf8::decode_utf8(bytes@),
{
    String::from_utf8_lossy(bytes).into_owned()
}

/// A `/proc` entry: its directory name and the bytes of its `cmdline` file.
pub struct ProcEntry {
    pub name: String,
    pub cmdline: Vec<u8>,
}

/// Every character is an ASCII digit.
pub open spec fn all_digits(s: Seq<char>) -> bool {
    forall|i: int| 0 <= i < s.len() ==> '0' <= #[trigger] s[i] <= '9'
}

/// A `/proc` entry is a process of the game: a numeric directory whose
/// cmdline, decoded and lower-cased, names the game.
pub open spec fn entry_is_game(entry: ProcEntry) -> bool {
    all_digits(entry.name@) && names_game(lowercase_of(utf8_lossy_of(entry.cmdline@)))
}

/// The name is all ASCII digits (a process directory of `/proc`).
pub fn is_process_dir(name: &str) -> (r: bool)
    ensures
        r == all_digits(name@),
{
    let len = name.unicode_len();
    let mut i: usize = 0;
    while i < len
        invariant
            len == name@.len(),
            i <= len,
            forall|k: int| 0 <= k < i ==> '0' <= #[trigger] name@[k] <= '9',
        decreases len - i,
    {
        let c = name.get_char(i);
        if !('0' <= c && c <= '9') {
            return false;
        }
        i = i + 1;
    }
    true
}

/// Game detection over the readable entries of `/proc`: some process is the
/// game.
pub fn detect_game_in(entries: &Vec<ProcEntry>) -> (found: bool)
    ensures
        found == exists|i: int| 0 <= i < entries.len() && #[trigger] entry_is_game(entries@[i]),
{
    let mut i: usize = 0;
    while i < entries.len()
        invariant
            i <= entries.len(),
            forall|k: int| 0 <= k < i ==> !#[trigger] entry_is_game(entries@[k]),
        decreases entries.len() - i,
    {
        let entry = &entries[i];
        if is_process_dir(entry.name.as_str()) {
            let text = utf8_lossy(entry.cmdline.as_slice());
            let lower = to_lowercase(text.as_str());
            if cmdline_names_game(lower.as_str()) {
                proof {
                    assert(entry_is_game(entries@[i as int]));
                }
                return true;
            }
        }
        i = i + 1;
    }
    false
}

/// Status text shown for a player event, if the event changes it.
pub open spec fn status_for(event: PlayerEvent) -> Option<Seq<char>> {
    match event {
        PlayerEvent::Started => Some("Playing"@),
        PlayerEvent::Resumed => Some("Playing"@),
        PlayerEvent::Paused => Some("Paused"@),
        PlayerEvent::Stopped => Some("Stopped"@),
        PlayerEvent::Finished => Some("Finished"@),
        PlayerEvent::Live(on) => Some(
            if on {
                "LIVE - sending input to the game"@
            } else {
                "Not live - MIDI player only"@
            },
        ),
        PlayerEvent::Error(e) => Some("Error: "@ + e@),
        _ => None,
    }
}

/// The properties the QML front-end binds to, without Qt.
pub struct PlayerBridge {
    pub file_name: String,
    pub status: String,
    pub duration_ms: u64,
    pub position_ms: u64,
    pub playing: bool,
    pub paused: bool,
    pub live: bool,
    pub game_running: bool,
    /// Display names of the listed songs.
    pub songs: Vec<String>,
    /// Paths of the listed songs, parallel to `songs`.
    pub song_paths: Vec<String>,
    /// Row of the song being played, or -1.
    pub current_index: i32,
    pub note_count: i32,
    pub transpose: i32,
    pub bpm: i32,
    pub loaded: bool,
    /// Ticked tracks, by path.
    pub selection: Selection,
    /// Queued playback of the ticked tracks.
    pub queue: PlayQueue,
}

/// The listed paths after appending `new` one by one, skipping empty paths
/// and paths already listed.
pub open spec fn appended_paths(paths: Seq<Seq<char>>, new: Seq<Seq<char>>) -> Seq<Seq<char>>
    decreases new.len(),
{
    if new.len() == 0 {
        paths
    } else {
        added(appended_paths(paths, new.drop_last()), new.last())
    }
}

/// The listed names after appending the songs `new_paths` / `new_names`: the
/// name of each path that `appended_paths` takes.
pub open spec fn appended_names(
    paths: Seq<Seq<char>>,
    names: Seq<Seq<char>>,
    new_paths: Seq<Seq<char>>,
    new_names: Seq<Seq<char>>,
) -> Seq<Seq<char>>
    decreases new_paths.len(),
{
    if new_paths.len() == 0 || new_names.len() == 0 {
        names
    } else {
        let before = appended_paths(paths, new_paths.drop_last());
        let rest = appended_names(paths, names, new_paths.drop_last(), new_names.drop_last());
        if new_paths.last().len() > 0 && !before.contains(new_paths.last()) {
            rest.push(new_names.last())
        } else {
            rest
        }
    }
}

/// Appending keeps every listed path and lists every non-empty new path.
proof fn lemma_appended_contains(paths: Seq<Seq<char>>, new: Seq<Seq<char>>)
    ensures
        forall|x: Seq<char>| paths.contains(x) ==> #[trigger] appended_paths(paths, new).contains(x),
        forall|i: int|
            0 <= i < new.len() && new[i].len() > 0 ==> appended_paths(paths, new).contains(
                #[trigger] new[i],
            ),
    decreases new.len(),
{
    if new.len() > 0 {
        let front = new.drop_last();
        lemma_appended_contains(paths, front);
        let before = appended_paths(paths, front);
        let after = appended_paths(paths, new);
        assert forall|x: Seq<char>| before.contains(x) implies after.contains(x) by {
            if !(new.last().len() > 0 && !before.contains(new.last())) {
            } else {
                let i = choose|i: int| 0 <= i < before.len() && before[i] == x;
                assert(after[i] == x);
            }
        }
        assert forall|i: int| 0 <= i < new.len() && new[i].len() > 0 implies after.contains(
            #[trigger] new[i],
        ) by {
            if i < front.len() {
                assert(front[i] == new[i]);
                assert(before.contains(front[i]));
            } else {
                if !before.contains(new.last()) {
                    assert(after[after.len() - 1] == new.last());
                }
            }
        }
    }
}

/// Appending paths that are all listed already changes nothing.
proof fn lemma_appended_noop(paths: Seq<Seq<char>>, new: Seq<Seq<char>>)
    requires
        forall|i: int| 0 <= i < new.len() && new[i].len() > 0 ==> paths.contains(#[trigger] new[i]),
    ensures
        appended_paths(paths, new) == paths,
    decreases new.len(),
{
    if new.len() > 0 {
        let front = new.drop_last();
        assert forall|i: int| 0 <= i < front.len() && front[i].len() > 0 implies paths.contains(
            #[trigger] front[i],
        ) by {
            assert(front[i] == new[i]);
        }
        lemma_appended_noop(paths, front);
        assert(new.last() == new[new.len() - 1]);
    }
}

/// Starting and resuming both show "Playing", whatever the status was: a
/// resume after a pause brings the status back from "Paused", exactly as a
/// start does.
pub proof fn lemma_resume_shows_playing(event: PlayerEvent)
    requires
        event is Started || event is Resumed,
    ensures
        status_for(event) == Some("Playing"@),
        status_for(event) == status_for(PlayerEvent::Started),
        status_for(event) != status_for(PlayerEvent::Paused),
{
    reveal_strlit("Playing");
    reveal_strlit("Paused");
    assert("Playing"@[1] != "Paused"@[1]);
}

/// Adding a folder keeps a list free of repeated paths.
pub proof fn lemma_add_folder_no_duplicates(paths: Seq<Seq<char>>, new: Seq<Seq<char>>)
    requires
        no_duplicates(paths),
    ensures
        no_duplicates(appended_paths(paths, new)),
    decreases new.len(),
{
    if new.len() > 0 {
        lemma_add_folder_no_duplicates(paths, new.drop_last());
        lemma_add_keeps_no_duplicates(appended_paths(paths, new.drop_last()), new.last());
    }
}

/// Adding the same folder a second time changes nothing.
pub proof fn lemma_add_folder_idempotent(paths: Seq<Seq<char>>, new: Seq<Seq<char>>)
    ensures
        appended_paths(appended_paths(paths, new), new) == appended_paths(paths, new),
{
    lemma_appended_contains(paths, new);
    lemma_appended_noop(appended_paths(paths, new), new);
}

/// The row of a highlight at row `c` after moving row `from` to row `to` in a
/// list of `n` rows: the moved row goes to `to`, the rows between shift by
/// one toward `from`; nothing moves when a row does not exist or the rows are
/// the same.
pub open spec fn moved_row(c: int, from: int, to: int, n: int) -> int {
    if from < 0 || to < 0 || from >= n || to >= n || from == to {
        c
    } else if c == from {
        to
    } else if from < c <= to {
        c - 1
    } else if to <= c < from {
        c + 1
    } else {
        c
    }
}

/// Row of the first entry of `paths` equal to `path`, or -1.
pub open spec fn row_of(paths: Seq<Seq<char>>, path: Seq<char>) -> int {
    if exists|i: int| 0 <= i < paths.len() && paths[i] == path {
        let i = choose|i: int|
            0 <= i < paths.len() && paths[i] == path && forall|j: int| 0 <= j < i ==> paths[j] != path;
        i
    } else {
        -1
    }
}

/// Row of `path` in `paths`, or -1 when it is not listed.
fn find_row(paths: &Vec<String>, path: &String) -> (row: i32)
    requires
        paths.len() <= i32::MAX,
    ensures
        row == row_of(path_texts(paths@), path@),
{
    let ghost texts = path_texts(paths@);
    let mut i: usize = 0;
    while i < paths.len()
        invariant
            i <= paths.len() <= i32::MAX,
            texts == path_texts(paths@),
            forall|j: int| 0 <= j < i ==> texts[j] != path@,
        decreases paths.len() - i,
    {
        if paths[i] == *path {
            proof {
                assert(texts[i as int] == path@);
                let c = choose|c: int|
                    0 <= c < texts.len() && texts[c] == path@ && forall|j: int| 0 <= j < c ==> texts[j] != path@;
                assert(c == i) by {
                    if c < i {
                        assert(texts[c] != path@);
                    }
                    if c > i {
                        assert(texts[i as int] != path@);
                    }
                }
            }
            return i as i32;
        }
        i = i + 1;
    }
    -1
}

impl PlayerBridge {
    /// The song list and path list stay parallel.
    pub open spec fn wf(&self) -> bool {
        self.songs.len() == self.song_paths.len()
    }

    /// The song list and its highlighted row are those of `other`.
    pub open spec fn same_list(&self, other: PlayerBridge) -> bool {
        &&& self.songs == other.songs
        &&& self.song_paths == other.song_paths
        &&& self.current_index == other.current_index
    }

    /// The ticked tracks and the queue are those of `other`.
    pub open spec fn same_queue(&self, other: PlayerBridge) -> bool {
        &&& self.selection@ == other.selection@
        &&& self.queue@ == other.queue@
    }

    /// The playback state mirrored from the player is that of `other`.
    pub open spec fn same_playback(&self, other: PlayerBridge) -> bool {
        &&& self.position_ms == other.position_ms
        &&& self.playing == other.playing
        &&& self.paused == other.paused
        &&& self.live == other.live
        &&& self.game_running == other.game_running
    }

    /// What is shown of the loaded song is that of `other`.
    pub open spec fn same_song(&self, other: PlayerBridge) -> bool {
        &&& self.file_name == other.file_name
        &&& self.duration_ms == other.duration_ms
        &&& self.note_count == other.note_count
        &&& self.transpose == other.transpose
        &&& self.bpm == other.bpm
        &&& self.loaded == other.loaded
    }

    /// Everything but the list, the queue and the selection is that of
    /// `other`.
    pub open spec fn same_display(&self, other: PlayerBridge) -> bool {
        &&& self.same_playback(other)
        &&& self.same_song(other)
        &&& self.status == other.status
    }

    /// A bridge over the scanned songs, with nothing loaded.
    pub fn new(songs: Vec<String>, song_paths: Vec<String>) -> (b: PlayerBridge)
        requires
            songs.len() == song_paths.len(),
        ensures
            b.wf(),
            b.songs == songs,
            b.song_paths == song_paths,
            b.current_index == -1,
            b.status@ == "No file loaded"@,
            b.file_name@.len() == 0,
            !b.loaded && !b.playing && !b.paused && !b.live && !b.game_running,
            b.duration_ms == 0 && b.position_ms == 0,
            b.note_count == 0 && b.transpose == 0 && b.bpm == 0,
            b.selection@ == Set::<Seq<char>>::empty(),
            b.queue@.tracks.len() == 0 && !b.queue@.looping,
    {
        PlayerBridge {
            file_name: String::new(),
            status: String::from_str("No file loaded"),
            duration_ms: 0,
            position_ms: 0,
            playing: false,
            paused: false,
            live: false,
            game_running: false,
            songs,
            song_paths,
            current_index: -1,
            note_count: 0,
            transpose: 0,
            bpm: 0,
            loaded: false,
            selection: Selection::new(),
            queue: PlayQueue::new(),
        }
    }

    /// Start playback.
    pub fn play(&self) -> (c: Command)
        ensures
            c is Play,
    {
        Command::Play
    }

    /// Pause playback.
    pub fn pause(&self) -> (c: Command)
        ensures
            c is Pause,
    {
        Command::Pause
    }

    /// Stop playback.
    pub fn stop(&self) -> (c: Command)
        ensures
            c is Stop,
    {
        Command::Stop
    }

    /// Play if stopped, pause if playing, resume if paused.
    pub fn toggle_play_pause(&self) -> (c: Command)
        ensures
            c is TogglePlayPause,
    {
        Command::TogglePlayPause
    }

    /// Toggle input injection into the game; the local audio preview is on
    /// exactly when not live.
    pub fn go_live(&self, on: bool) -> (commands: Vec<Command>)
        ensures
            commands.len() == 2,
            (commands@[0] matches Command::SetLive(l) && l == on),
            (commands@[1] matches Command::SetPreview(p) && p == !on),
    {
        let mut commands: Vec<Command> = Vec::new();
        commands.push(Command::SetLive(on));
        commands.push(Command::SetPreview(!on));
        commands
    }

    /// Choose the song at row `index` of the list by hand: the path to load,
    /// after marking the row as current and dropping any queued playback;
    /// nothing for a row that does not exist.
    pub fn select_song(&mut self, index: i32) -> (path: Option<String>)
        requires
            old(self).wf(),
        ensures
            final(self).wf(),
            0 <= index < old(self).song_paths.len() ==> (path matches Some(p) && p@
                == old(self).song_paths@[index as int]@),
            0 <= index < old(self).song_paths.len() ==> final(self).current_index == index
                && final(self).songs == old(self).songs && final(self).song_paths == old(self).song_paths
                && final(self).queue@.tracks.len() == 0
                && final(self).queue@.looping == old(self).queue@.looping
                && final(self).same_display(*old(self))
                && final(self).selection@ == old(self).selection@,
            !(0 <= index < old(self).song_paths.len()) ==> path is None && *final(self) == *old(self),
    {
        if index < 0 || index as usize >= self.song_paths.len() {
            return None;
        }
        let path = self.song_paths[index as usize].clone();
        self.current_index = index;
        self.queue.clear();
        Some(path)
    }

    /// Tick (`on`) or untick the track at `path`.
    pub fn set_selected(&mut self, path: &str, on: bool)
        ensures
            final(self).selection@ == if on {
                old(self).selection@.insert(path@)
            } else {
                old(self).selection@.remove(path@)
            },
            final(self).songs == old(self).songs,
            final(self).song_paths == old(self).song_paths,
            final(self).current_index == old(self).current_index,
            final(self).queue@ == old(self).queue@,
            final(self).same_display(*old(self)),
    {
        self.selection.set(path, on);
    }

    /// Turn wrapping of the queue around on or off.
    pub fn set_loop_queue(&mut self, on: bool)
        ensures
            final(self).queue@ == (QueueView { looping: on, ..old(self).queue@ }),
            final(self).songs == old(self).songs,
            final(self).song_paths == old(self).song_paths,
            final(self).current_index == old(self).current_index,
            final(self).selection@ == old(self).selection@,
            final(self).same_display(*old(self)),
    {
        self.queue.set_looping(on);
    }

    /// Play the ticked tracks in list order: queue them and return the first
    /// one to load, highlighting its row; nothing when no listed track is
    /// ticked.
    pub fn play_selected(&mut self) -> (first: Option<String>)
        requires
            old(self).wf(),
            old(self).song_paths.len() <= i32::MAX,
        ensures
            final(self).wf(),
            final(self).queue@.tracks == selected_in_order(
                path_texts(old(self).song_paths@),
                old(self).selection@,
            ),
            final(self).queue@.position == 0,
            final(self).queue@.looping == old(self).queue@.looping,
            final(self).queue@.tracks.len() == 0 ==> first is None && final(self).current_index
                == old(self).current_index,
            final(self).queue@.tracks.len() > 0 ==> (first matches Some(p) && p@
                == final(self).queue@.tracks[0] && final(self).current_index == row_of(
                path_texts(old(self).song_paths@),
                p@,
            )),
            final(self).songs == old(self).songs,
            final(self).song_paths == old(self).song_paths,
            final(self).selection@ == old(self).selection@,
            final(self).same_display(*old(self)),
    {
        let first = self.queue.start(&self.song_paths, &self.selection);
        match first {
            Some(p) => {
                self.current_index = find_row(&self.song_paths, &p);
                Some(p)
            },
            None => None,
        }
    }

    /// The playing track finished: move the queue on and return the next
    /// track to load, highlighting its row; nothing when the queue is empty
    /// or has run out.
    pub fn advance_queue(&mut self) -> (next: Option<String>)
        requires
            old(self).wf(),
            old(self).song_paths.len() <= i32::MAX,
        ensures
            final(self).wf(),
            final(self).queue@ == advanced(old(self).queue@),
            final(self).queue@.tracks.len() == 0 ==> next is None && final(self).current_index
                == old(self).current_index,
            final(self).queue@.tracks.len() > 0 ==> (next matches Some(p) && p@
                == final(self).queue@.tracks[final(self).queue@.position]
                && final(self).current_index == row_of(path_texts(old(self).song_paths@), p@)),
            final(self).songs == old(self).songs,
            final(self).song_paths == old(self).song_paths,
            final(self).selection@ == old(self).selection@,
            final(self).same_display(*old(self)),
    {
        let next = self.queue.advance();
        match next {
            Some(p) => {
                self.current_index = find_row(&self.song_paths, &p);
                Some(p)
            },
            None => None,
        }
    }

    /// Remove the song at row `index` (nothing when there is no such row),
    /// keeping the "now playing" highlight on the same song: it moves up a
    /// row when a row above it goes, is cleared when its own row goes, and
    /// stays cleared when nothing is highlighted.
    pub fn remove_song(&mut self, index: i32)
        requires
            old(self).wf(),
        ensures
            final(self).wf(),
            0 <= index < old(self).songs.len() ==> final(self).songs@ == old(self).songs@.remove(
                index as int,
            ) && final(self).song_paths@ == old(self).song_paths@.remove(index as int),
            !(0 <= index < old(self).songs.len()) ==> final(self).songs == old(self).songs
                && final(self).song_paths == old(self).song_paths,
            final(self).current_index == if index == old(self).current_index {
                -1
            } else if 0 <= index < old(self).current_index {
                old(self).current_index - 1
            } else {
                old(self).current_index as int
            },
            old(self).current_index == -1 ==> final(self).current_index == -1,
            final(self).same_display(*old(self)),
            final(self).same_queue(*old(self)),
    {
        if 0 <= index && (index as usize) < self.songs.len() {
            self.songs.remove(index as usize);
            self.song_paths.remove(index as usize);
        }
        let current = self.current_index;
        if index == current {
            self.current_index = -1;
        } else if 0 <= index && index < current {
            self.current_index = current - 1;
        }
    }


    /// Append a scanned folder's songs to the list, skipping paths already
    /// listed (and empty ones); the highlighted row stays where it is.
    pub fn add_folder(&mut self, songs: Vec<String>, song_paths: Vec<String>)
        requires
            old(self).wf(),
            songs.len() == song_paths.len(),
        ensures
            final(self).wf(),
            path_texts(final(self).song_paths@) == appended_paths(
                path_texts(old(self).song_paths@),
                path_texts(song_paths@),
            ),
            path_texts(final(self).songs@) == appended_names(
                path_texts(old(self).song_paths@),
                path_texts(old(self).songs@),
                path_texts(song_paths@),
                path_texts(songs@),
            ),
            final(self).current_index == old(self).current_index,
            final(self).selection@ == old(self).selection@,
            final(self).queue@ == old(self).queue@,
            final(self).same_display(*old(self)),
    {
        let ghost paths0 = path_texts(self.song_paths@);
        let ghost names0 = path_texts(self.songs@);
        let ghost new_paths = path_texts(song_paths@);
        let ghost new_names = path_texts(songs@);
        let mut j: usize = 0;
        proof {
            assert(new_paths.take(0) =~= Seq::<Seq<char>>::empty());
            assert(new_names.take(0) =~= Seq::<Seq<char>>::empty());
        }
        while j < song_paths.len()
            invariant
                songs.len() == song_paths.len(),
                j <= song_paths.len(),
                self.songs.len() == self.song_paths.len(),
                new_paths == path_texts(song_paths@),
                new_names == path_texts(songs@),
                path_texts(self.song_paths@) == appended_paths(paths0, new_paths.take(j as int)),
                path_texts(self.songs@) == appended_names(
                    paths0,
                    names0,
                    new_paths.take(j as int),
                    new_names.take(j as int),
                ),
                self.current_index == old(self).current_index,
                self.selection@ == old(self).selection@,
                self.queue@ == old(self).queue@,
                self.same_display(*old(self)),
            decreases song_paths.len() - j,
        {
            let path = &song_paths[j];
            proof {
                assert(new_paths.take(j + 1).drop_last() =~= new_paths.take(j as int));
                assert(new_names.take(j + 1).drop_last() =~= new_names.take(j as int));
                assert(new_paths.take(j + 1).last() == path@);
                assert(new_names.take(j + 1).last() == songs@[j as int]@);
            }
            let listed = self.lists_path(path);
            if !path.as_str().is_empty() && !listed {
                let ghost p0 = self.song_paths@;
                let ghost n0 = self.songs@;
                self.song_paths.push(path.clone());
                self.songs.push(songs[j].clone());
                proof {
                    assert(path_texts(self.song_paths@) =~= path_texts(p0).push(path@));
                    assert(path_texts(self.songs@) =~= path_texts(n0).push(songs@[j as int]@));
                }
            }
            j = j + 1;
        }
        proof {
            assert(new_paths.take(song_paths.len() as int) =~= new_paths);
            assert(new_names.take(song_paths.len() as int) =~= new_names);
        }
    }

    /// Append files chosen by hand, named by their file stems, skipping paths
    /// already listed (and empty ones); the highlighted row stays where it is.
    pub fn add_files(&mut self, paths: Vec<String>)
        requires
            old(self).wf(),
        ensures
            final(self).wf(),
            path_texts(final(self).song_paths@) == appended_paths(
                path_texts(old(self).song_paths@),
                path_texts(paths@),
            ),
            path_texts(final(self).songs@) == appended_names(
                path_texts(old(self).song_paths@),
                path_texts(old(self).songs@),
                path_texts(paths@),
                path_texts(paths@).map_values(|p: Seq<char>| display_name_of(p)),
            ),
            final(self).current_index == old(self).current_index,
            final(self).selection@ == old(self).selection@,
            final(self).queue@ == old(self).queue@,
            final(self).same_display(*old(self)),
    {
        let mut names: Vec<String> = Vec::new();
        let mut i: usize = 0;
        while i < paths.len()
            invariant
                i <= paths.len(),
                names.len() == i,
                forall|k: int| 0 <= k < i ==> #[trigger] names@[k]@ == display_name_of(paths@[k]@),
            decreases paths.len() - i,
        {
            names.push(display_name(paths[i].as_str()));
            i = i + 1;
        }
        proof {
            assert(path_texts(names@) =~= path_texts(paths@).map_values(
                |p: Seq<char>| display_name_of(p),
            ));
        }
        self.add_folder(names, paths);
    }

    /// Move the song at row `from` to row `to`, the rows between shifting by
    /// one; nothing when either row does not exist or they are the same. The
    /// highlight follows its song.
    #[verifier::rlimit(40)]
    #[verifier::spinoff_prover]
    pub fn move_song(&mut self, from: i32, to: i32)
        requires
            old(self).wf(),
        ensures
            final(self).wf(),
            path_texts(final(self).song_paths@) == moved(
                path_texts(old(self).song_paths@),
                from as int,
                to as int,
            ),
            path_texts(final(self).songs@) == moved(path_texts(old(self).songs@), from as int, to as int),
            final(self).current_index == moved_row(
                old(self).current_index as int,
                from as int,
                to as int,
                old(self).songs.len() as int,
            ),
            0 <= old(self).current_index < old(self).songs.len() ==> 0 <= final(self).current_index
                < final(self).songs.len() && final(self).song_paths@[final(self).current_index as int]
                == old(self).song_paths@[old(self).current_index as int],
            final(self).same_display(*old(self)),
            final(self).same_queue(*old(self)),
    {
        let n = self.songs.len();
        if from < 0 || to < 0 || from as usize >= n || to as usize >= n || from == to {
            proof {
                assert(path_texts(self.song_paths@) =~= moved(
                    path_texts(old(self).song_paths@),
                    from as int,
                    to as int,
                ));
                assert(path_texts(self.songs@) =~= moved(path_texts(old(self).songs@), from as int, to as int));
            }
            return;
        }
        let (f, t) = (from as usize, to as usize);
        let song = self.songs.remove(f);
        self.songs.insert(t, song);
        let path = self.song_paths.remove(f);
        self.song_paths.insert(t, path);
        let c = self.current_index;
        if c == from {
            self.current_index = to;
        } else if from < c && c <= to {
            self.current_index = c - 1;
        } else if to <= c && c < from {
            self.current_index = c + 1;
        }
        proof {
            assert(path_texts(self.song_paths@) =~= moved(
                path_texts(old(self).song_paths@),
                from as int,
                to as int,
            ));
            assert(path_texts(self.songs@) =~= moved(path_texts(old(self).songs@), from as int, to as int));
        }
    }

    /// `path` is one of the listed paths.
    fn lists_path(&self, path: &String) -> (r: bool)
        ensures
            r == path_texts(self.song_paths@).contains(path@),
    {
        let ghost texts = path_texts(self.song_paths@);
        let mut i: usize = 0;
        while i < self.song_paths.len()
            invariant
                i <= self.song_paths.len(),
                texts == path_texts(self.song_paths@),
                forall|k: int| 0 <= k < i ==> texts[k] != path@,
            decreases self.song_paths.len() - i,
        {
            if self.song_paths[i] == *path {
                proof {
                    assert(texts[i as int] == path@);
                }
                return true;
            }
            i = i + 1;
        }
        false
    }

    /// A song was loaded from `path` and handed to the player: show its name
    /// (the path's file name, or the path), note-on count, tempo, transpose
    /// and duration, at position zero.
    pub fn song_loaded(&mut self, path: &str, song: &Song)
        requires
            song.tempo_us_per_qn > 0,
        ensures
            final(self).file_name@ == match file_name_of(path@) {
                Some(n) => n,
                None => path@,
            },
            final(self).note_count == note_on_count(song.events@) as i32,
            final(self).bpm == 60_000_000int / (song.tempo_us_per_qn as int),
            final(self).transpose == song.transpose,
            final(self).duration_ms == song.duration_ms,
            final(self).position_ms == 0,
            final(self).loaded,
            final(self).status@ == "Ready"@,
            final(self).songs == old(self).songs,
            final(self).song_paths == old(self).song_paths,
            final(self).current_index == old(self).current_index,
            final(self).playing == old(self).playing,
            final(self).paused == old(self).paused,
            final(self).live == old(self).live,
            final(self).game_running == old(self).game_running,
            final(self).same_queue(*old(self)),
    {
        self.file_name = match file_name(path) {
            Some(n) => n,
            None => String::from_str(path),
        };
        self.note_count = song.note_count() as i32;
        self.bpm = (60_000_000 / song.tempo_us_per_qn) as i32;
        self.transpose = song.transpose;
        self.duration_ms = song.duration_ms;
        self.position_ms = 0;
        self.loaded = true;
        self.status = String::from_str("Ready");
    }

    /// Loading failed: nothing is loaded and the status shows the error.
    pub fn load_failed(&mut self, error: &MidiError)
        ensures
            !final(self).loaded,
            final(self).status@ == "Error: "@ + midi_error_text(*error),
            final(self).songs == old(self).songs,
            final(self).song_paths == old(self).song_paths,
            final(self).current_index == old(self).current_index,
            final(self).same_playback(*old(self)),
            final(self).file_name == old(self).file_name,
            final(self).duration_ms == old(self).duration_ms,
            final(self).note_count == old(self).note_count,
            final(self).transpose == old(self).transpose,
            final(self).bpm == old(self).bpm,
            final(self).same_queue(*old(self)),
    {
        self.loaded = false;
        let mut status = String::from_str("Error: ");
        let text = error.to_string();
        status.append(text.as_str());
        self.status = status;
    }

    /// Mirror a player event: update the status text, and for a fired note
    /// return the note and chord text to signal for visualization.
    pub fn apply_event(&mut self, event: &PlayerEvent) -> (note: Option<(i32, String)>)
        ensures
            match status_for(*event) {
                Some(text) => final(self).status@ == text,
                None => final(self).status == old(self).status,
            },
            (*event is Started || *event is Resumed) ==> final(self).status@ == "Playing"@,
            match *event {
                PlayerEvent::Note { note: n, chord, .. } => (note matches Some((v, t)) && v == n && t@
                    == chord_label(chord)),
                _ => note is None,
            },
            final(self).same_list(*old(self)),
            final(self).same_playback(*old(self)),
            final(self).same_song(*old(self)),
            final(self).same_queue(*old(self)),
    {
        match event {
            PlayerEvent::Note { note, chord, .. } => {
                return Some((*note as i32, chord.to_string()));
            },
            PlayerEvent::Started | PlayerEvent::Resumed => {
                self.status = String::from_str("Playing");
            },
            PlayerEvent::Paused => {
                self.status = String::from_str("Paused");
            },
            PlayerEvent::Stopped => {
                self.status = String::from_str("Stopped");
            },
            PlayerEvent::Finished => {
                self.status = String::from_str("Finished");
            },
            PlayerEvent::Live(on) => {
                self.status = if *on {
                    String::from_str("LIVE - sending input to the game")
                } else {
                    String::from_str("Not live - MIDI player only")
                };
            },
            PlayerEvent::Error(e) => {
                let mut status = String::from_str("Error: ");
                status.append(e.as_str());
                self.status = status;
            },
            _ => {},
        }
        None
    }

    /// Mirror the player's state and the game-detection flag. The player
    /// cannot inject into a game that is not running: if the game went away
    /// while live, the bridge drops live (and the preview comes back on).
    pub fn mirror(&mut self, state: &PlayerState, game_detected: bool) -> (commands: Vec<Command>)
        ensures
            final(self).position_ms == state.position_ms,
            final(self).playing == state.playing,
            final(self).paused == state.paused,
            final(self).live == state.live,
            final(self).game_running == game_detected,
            !game_detected && state.live ==> commands.len() == 2,
            !game_detected && state.live ==> (commands@[0] matches Command::SetLive(l) && !l),
            !game_detected && state.live ==> (commands@[1] matches Command::SetPreview(p) && p),
            game_detected || !state.live ==> commands.len() == 0,
            final(self).same_list(*old(self)),
            final(self).same_song(*old(self)),
            final(self).status == old(self).status,
            final(self).same_queue(*old(self)),
    {
        self.position_ms = state.position_ms;
        self.playing = state.playing;
        self.paused = state.paused;
        self.live = state.live;
        self.game_running = game_detected;
        let mut commands: Vec<Command> = Vec::new();
        if !game_detected && state.live {
            commands.push(Command::SetLive(false));
            commands.push(Command::SetPreview(true));
        }
        commands
    }
}

} // verus!
