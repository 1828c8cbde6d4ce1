//! The playlist model: an ordered, editable list of MIDI file paths.
//!
//! Persistence (JSON under the XDG config directory) happens around this
//! model; here the list is edited: appending without duplicates, removing,
//! and moving entries.
use vstd::prelude::*;

use crate::paths::{display_name, display_name_of};

verus! {

/// An ordered, editable list of MIDI file paths.
#[derive(Debug)]
pub struct Playlist {
    /// Absolute paths, in playlist order.
    pub entries: Vec<String>,
}

impl View for Playlist {
    type V = Seq<Seq<char>>;

    open spec fn view(&self) -> Seq<Seq<char>> {
        self.entries@.map_values(|e: String| e@)
    }
}

/// `s` holds no path twice.
pub open spec fn no_duplicates(s: Seq<Seq<char>>) -> bool {
    forall|i: int, j: int| 0 <= i < j < s.len() ==> s[i] != s[j]
}

/// The list after appending `path`: unchanged when `path` is empty or
/// already listed.
pub open spec fn added(s: Seq<Seq<char>>, path: Seq<char>) -> Seq<Seq<char>> {
    if path.len() > 0 && !s.contains(path) {
        s.push(path)
    } else {
        s
    }
}

/// The list after moving entry `from` to position `to`, the entries between
/// shifting by one; unchanged when either index is out of range or they are
/// equal.
pub open spec fn moved(s: Seq<Seq<char>>, from: int, to: int) -> Seq<Seq<char>> {
    if from < 0 || from >= s.len() || to < 0 || to >= s.len() || from == to {
        s
    } else {
        s.remove(from).insert(to, s[from])
    }
}

impl Default for Playlist {
    fn default() -> (p: Playlist)
        ensures
            p@ == Seq::<Seq<char>>::empty(),
    {
        Playlist { entries: Vec::new() }
    }
}

impl Playlist {
    /// `path` is one of the entries.
    pub fn contains(&self, path: &String) -> (r: bool)
        ensures
            r == self@.contains(path@),
    {
        let mut i: usize = 0;
        while i < self.entries.len()
            invariant
                i <= self.entries.len(),
                forall|k: int| 0 <= k < i ==> self@[k] != path@,
            decreases self.entries.len() - i,
        {
            if self.entries[i] == *path {
                proof {
                    assert(self@[i as int] == path@);
                }
                return true;
            }
            i = i + 1;
        }
        false
    }

    /// Append a path, ignoring empty paths and duplicates.
    pub fn add(&mut self, path: String)
        ensures
            final(self)@ == added(old(self)@, path@),
    {
        if !path.as_str().is_empty() && !self.contains(&path) {
            self.entries.push(path);
            proof {
                assert(self@ =~= added(old(self)@, path@));
            }
        }
    }

    /// Remove the entry at `index` (no-op if out of range).
    pub fn remove(&mut self, index: usize) -> (r: Option<String>)
        ensures
            index < old(self)@.len() ==> (r matches Some(e) && e@ == old(self)@[index as int]
                && final(self)@ == old(self)@.remove(index as int)),
            index >= old(self)@.len() ==> r is None && final(self)@ == old(self)@,
    {
        if index < self.entries.len() {
            let e = self.entries.remove(index);
            proof {
                assert(self@ =~= old(self)@.remove(index as int));
            }
            Some(e)
        } else {
            None
        }
    }

    /// Move the entry at `from` to `to`, shifting the others along.
    pub fn move_entry(&mut self, from: usize, to: usize)
        ensures
            final(self)@ == moved(old(self)@, from as int, to as int),
    {
        if from >= self.entries.len() || to >= self.entries.len() || from == to {
            return;
        }
        let item = self.entries.remove(from);
        self.entries.insert(to, item);
        proof {
            assert(self@ =~= old(self)@.remove(from as int).insert(to as int, old(self)@[from as int]));
        }
    }

    /// Display name for a path: the file stem, or the whole path as a fallback.
    pub fn name_of(path: &str) -> (name: String)
        ensures
            name@ == display_name_of(path@),
    {
        display_name(path)
    }

    /// Display names, in playlist order.
    pub fn names(&self) -> (names: Vec<String>)
        ensures
            names.len() == self@.len(),
            forall|i: int| 0 <= i < names.len() ==> #[trigger] names@[i]@ == display_name_of(self@[i]),
    {
        let mut names: Vec<String> = Vec::new();
        let mut i: usize = 0;
        while i < self.entries.len()
            invariant
                i <= self.entries.len(),
                names.len() == i,
                forall|k: int| 0 <= k < i ==> #[trigger] names@[k]@ == display_name_of(self@[k]),
            decreases self.entries.len() - i,
        {
            let name = Playlist::name_of(self.entries[i].as_str());
            names.push(name);
            i = i + 1;
        }
        names
    }
}

/// Adding keeps a playlist free of duplicates.
pub proof fn lemma_add_keeps_no_duplicates(s: Seq<Seq<char>>, path: Seq<char>)
    requires
        no_duplicates(s),
    ensures
        no_duplicates(added(s, path)),
        added(s, path).contains(path) || path.len() == 0,
{
    if path.len() > 0 && !s.contains(path) {
        let r = s.push(path);
        assert forall|i: int, j: int| 0 <= i < j < r.len() implies r[i] != r[j] by {
            if j == s.len() {
                assert(r[i] == s[i]);
                assert(s.contains(s[i]));
            }
        }
        assert(r[s.len() as int] == path);
    }
}

/// Adding a path that is already listed changes nothing.
pub proof fn lemma_add_idempotent(s: Seq<Seq<char>>, path: Seq<char>)
    ensures
        added(added(s, path), path) == added(s, path),
{
    if path.len() > 0 && !s.contains(path) {
        assert(s.push(path)[s.len() as int] == path);
        assert(s.push(path).contains(path));
    }
}

/// Moving an entry back undoes a move.
pub proof fn lemma_move_back_restores(s: Seq<Seq<char>>, from: int, to: int)
    ensures
        moved(moved(s, from, to), to, from) == s,
{
    if !(from < 0 || from >= s.len() || to < 0 || to >= s.len() || from == to) {
        let m = s.remove(from).insert(to, s[from]);
        assert(m.len() == s.len());
        assert(m[to] == s[from]);
        assert(m.remove(to) =~= s.remove(from));
        assert(s.remove(from).insert(from, s[from]) =~= s);
    }
}

/// A move only reorders: the same entries, each as often.
pub proof fn lemma_move_is_permutation(s: Seq<Seq<char>>, from: int, to: int)
    ensures
        moved(s, from, to).to_multiset() == s.to_multiset(),
        moved(s, from, to).len() == s.len(),
{
    broadcast use vstd::seq_lib::group_to_multiset_ensures;

    if !(from < 0 || from >= s.len() || to < 0 || to >= s.len() || from == to) {
        let r = s.remove(from);
        assert(s.to_multiset() == r.to_multiset().insert(s[from]));
        assert(r.insert(to, s[from]).to_multiset() == r.to_multiset().insert(s[from]));
    }
}

} // verus!
