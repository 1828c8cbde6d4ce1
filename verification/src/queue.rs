//! Queued playback of the selected playlist tracks.
//!
//! The user ticks tracks of the playlist (the selection is keyed by path, so
//! it survives reordering). "Play selected" takes the ticked tracks in
//! playlist order into a queue and plays its first track; each time a track
//! finishes the queue moves on to the next one, wrapping to the start when
//! looping is on and ending after the last track otherwise.
use vstd::prelude::*;

use crate::text::text_eq;

verus! {

/// The text of each path of `paths`.
pub open spec fn path_texts(paths: Seq<String>) -> Seq<Seq<char>> {
    paths.map_values(|p: String| p@)
}

/// The tracks of `playlist` that are in `selected`, in playlist order.
pub open spec fn selected_in_order(playlist: Seq<Seq<char>>, selected: Set<Seq<char>>) -> Seq<Seq<char>>
    decreases playlist.len(),
{
    if playlist.len() == 0 {
        playlist
    } else {
        let rest = selected_in_order(playlist.drop_last(), selected);
        if selected.contains(playlist.last()) {
            rest.push(playlist.last())
        } else {
            rest
        }
    }
}

/// Some path of `paths` has the text `p`.
pub open spec fn lists(paths: Seq<String>, p: Seq<char>) -> bool {
    exists|j: int| 0 <= j < paths.len() && #[trigger] paths[j]@ == p
}

/// A set of selected track paths.
pub struct Selection {
    paths: Vec<String>,
}

impl View for Selection {
    type V = Set<Seq<char>>;

    closed spec fn view(&self) -> Set<Seq<char>> {
        Set::new(|p: Seq<char>| lists(self.paths@, p))
    }
}

impl Selection {
    /// Nothing selected.
    pub fn new() -> (s: Selection)
        ensures
            s@ == Set::<Seq<char>>::empty(),
    {
        let s = Selection { paths: Vec::new() };
        proof {
            assert(s@ =~= Set::<Seq<char>>::empty());
        }
        s
    }

    /// `path` is selected.
    pub fn contains(&self, path: &str) -> (r: bool)
        ensures
            r == self@.contains(path@),
    {
        let mut i: usize = 0;
        while i < self.paths.len()
            invariant
                i <= self.paths.len(),
                forall|k: int| 0 <= k < i ==> self.paths@[k]@ != path@,
            decreases self.paths.len() - i,
        {
            if text_eq(self.paths[i].as_str(), path) {
                proof {
                    assert(self.paths@[i as int]@ == path@);
                }
                return true;
            }
            i = i + 1;
        }
        false
    }

    /// Tick (`on`) or untick a track.
    pub fn set(&mut self, path: &str, on: bool)
        ensures
            final(self)@ == if on {
                old(self)@.insert(path@)
            } else {
                old(self)@.remove(path@)
            },
    {
        if on {
            if !self.contains(path) {
                self.paths.push(path.to_string());
                proof {
                    assert forall|p: Seq<char>| #[trigger] self@.contains(p) == old(self)@.insert(
                        path@,
                    ).contains(p) by {
                        if lists(old(self).paths@, p) {
                            let i = choose|i: int| 0 <= i < old(self).paths.len() && #[trigger] old(self).paths@[i]@ == p;
                            assert(self.paths@[i]@ == p);
                        }
                        if p == path@ {
                            assert(self.paths@[self.paths.len() - 1]@ == p);
                        }
                        if lists(self.paths@, p) {
                            let i = choose|i: int| 0 <= i < self.paths.len() && #[trigger] self.paths@[i]@ == p;
                            if i < old(self).paths.len() {
                                assert(old(self).paths@[i]@ == p);
                            }
                        }
                    }
                    assert(self@ =~= old(self)@.insert(path@));
                }
            } else {
                proof {
                    assert(self@ =~= old(self)@.insert(path@));
                }
            }
        } else {
            let mut kept: Vec<String> = Vec::new();
            let mut i: usize = 0;
            while i < self.paths.len()
                invariant
                    i <= self.paths.len(),
                    self.paths == old(self).paths,
                    forall|k: int| 0 <= k < kept.len() ==> #[trigger] kept@[k]@ != path@,
                    forall|k: int| 0 <= k < kept.len() ==> lists(self.paths@, #[trigger] kept@[k]@),
                    forall|j: int| 0 <= j < i && #[trigger] self.paths@[j]@ != path@ ==> lists(
                        kept@,
                        self.paths@[j]@,
                    ),
                decreases self.paths.len() - i,
            {
                if !text_eq(self.paths[i].as_str(), path) {
                    let ghost before = kept@;
                    let p = self.paths[i].clone();
                    kept.push(p);
                    proof {
                        assert(kept@[kept.len() - 1]@ == self.paths@[i as int]@);
                        assert forall|k: int| 0 <= k < kept.len() implies lists(
                            self.paths@,
                            #[trigger] kept@[k]@,
                        ) by {
                            if k < before.len() {
                                assert(kept@[k] == before[k]);
                            } else {
                                assert(self.paths@[i as int]@ == kept@[k]@);
                            }
                        }
                        assert forall|j: int| 0 <= j <= i && #[trigger] self.paths@[j]@ != path@ implies lists(
                            kept@,
                            self.paths@[j]@,
                        ) by {
                            if j < i {
                                let k = choose|k: int| 0 <= k < before.len() && #[trigger] before[k]@ == self.paths@[j]@;
                                assert(kept@[k] == before[k]);
                            } else {
                                assert(kept@[kept.len() - 1]@ == self.paths@[j]@);
                            }
                        }
                    }
                }
                i = i + 1;
            }
            self.paths = kept;
            proof {
                assert forall|p: Seq<char>| #[trigger] self@.contains(p) == old(self)@.remove(
                    path@,
                ).contains(p) by {
                    if lists(self.paths@, p) {
                        let k = choose|k: int| 0 <= k < self.paths.len() && #[trigger] self.paths@[k]@ == p;
                        assert(lists(old(self).paths@, self.paths@[k]@));
                    }
                    if lists(old(self).paths@, p) && p != path@ {
                        let j = choose|j: int| 0 <= j < old(self).paths.len() && #[trigger] old(self).paths@[j]@ == p;
                        assert(old(self).paths@[j]@ != path@);
                    }
                }
                assert(self@ =~= old(self)@.remove(path@));
            }
        }
    }
}

/// What a queue holds: its tracks, the position of the track playing, and
/// whether it wraps around.
pub struct QueueView {
    pub tracks: Seq<Seq<char>>,
    pub position: int,
    pub looping: bool,
}

/// The queue after the playing track finished: the next track, the first one
/// again after the last when looping, or an empty queue when done.
pub open spec fn advanced(q: QueueView) -> QueueView {
    if q.tracks.len() == 0 {
        q
    } else if q.position + 1 < q.tracks.len() {
        QueueView { position: q.position + 1, ..q }
    } else if q.looping {
        QueueView { position: 0, ..q }
    } else {
        QueueView { tracks: Seq::empty(), position: 0, looping: q.looping }
    }
}

/// The queue after `k` tracks finished.
pub open spec fn advanced_times(q: QueueView, k: nat) -> QueueView
    decreases k,
{
    if k == 0 {
        q
    } else {
        advanced(advanced_times(q, (k - 1) as nat))
    }
}

/// Queued playback: the tracks to play in turn, the one playing, and whether
/// the queue wraps around.
pub struct PlayQueue {
    tracks: Vec<String>,
    position: usize,
    looping: bool,
}

impl View for PlayQueue {
    type V = QueueView;

    closed spec fn view(&self) -> QueueView {
        QueueView {
            tracks: path_texts(self.tracks@),
            position: self.position as int,
            looping: self.looping,
        }
    }
}

impl PlayQueue {
    /// The position is that of a track, or zero in an empty queue.
    #[verifier::type_invariant]
    spec fn well_formed(self) -> bool {
        if self.tracks.len() == 0 {
            self.position == 0
        } else {
            self.position < self.tracks.len()
        }
    }

    /// An empty queue, not looping.
    pub fn new() -> (q: PlayQueue)
        ensures
            q@.tracks == Seq::<Seq<char>>::empty(),
            q@.position == 0,
            !q@.looping,
    {
        let q = PlayQueue { tracks: Vec::new(), position: 0, looping: false };
        proof {
            assert(q@.tracks =~= Seq::<Seq<char>>::empty());
        }
        q
    }

    /// Turn wrapping around on or off.
    pub fn set_looping(&mut self, on: bool)
        ensures
            final(self)@ == (QueueView { looping: on, ..old(self)@ }),
    {
        proof {
            use_type_invariant(&*self);
        }
        self.looping = on;
    }

    /// Whether the queue wraps around.
    pub fn is_looping(&self) -> (r: bool)
        ensures
            r == self@.looping,
    {
        self.looping
    }

    /// Number of queued tracks.
    pub fn len(&self) -> (n: usize)
        ensures
            n == self@.tracks.len(),
    {
        self.tracks.len()
    }

    /// The track playing, if any.
    pub fn current(&self) -> (r: Option<String>)
        ensures
            self@.tracks.len() == 0 ==> r is None,
            self@.tracks.len() > 0 ==> (r matches Some(p) && p@ == self@.tracks[self@.position]),
            self@.tracks.len() > 0 ==> 0 <= self@.position < self@.tracks.len(),
    {
        proof {
            use_type_invariant(self);
        }
        if self.tracks.len() == 0 {
            None
        } else {
            Some(self.tracks[self.position].clone())
        }
    }

    /// Drop every queued track (a track was chosen by hand).
    pub fn clear(&mut self)
        ensures
            final(self)@ == (QueueView { tracks: Seq::empty(), position: 0, looping: old(self)@.looping }),
    {
        self.position = 0;
        self.tracks = Vec::new();
        proof {
            assert(self@.tracks =~= Seq::<Seq<char>>::empty());
        }
    }

    /// Queue the selected tracks of `playlist`, in playlist order, and return
    /// the first one to play (none when nothing of the playlist is selected).
    pub fn start(&mut self, playlist: &Vec<String>, selection: &Selection) -> (first: Option<String>)
        ensures
            final(self)@.tracks == selected_in_order(path_texts(playlist@), selection@),
            final(self)@.position == 0,
            final(self)@.looping == old(self)@.looping,
            final(self)@.tracks.len() == 0 ==> first is None,
            final(self)@.tracks.len() > 0 ==> (first matches Some(p) && p@ == final(self)@.tracks[0]),
    {
        let mut tracks: Vec<String> = Vec::new();
        let mut i: usize = 0;
        let ghost all = path_texts(playlist@);
        proof {
            assert(all.take(0) =~= Seq::<Seq<char>>::empty());
            assert(path_texts(tracks@) =~= Seq::<Seq<char>>::empty());
        }
        while i < playlist.len()
            invariant
                i <= playlist.len(),
                all == path_texts(playlist@),
                path_texts(tracks@) == selected_in_order(all.take(i as int), selection@),
            decreases playlist.len() - i,
        {
            let p = &playlist[i];
            proof {
                assert(all.take(i + 1).drop_last() =~= all.take(i as int));
                assert(all.take(i + 1).last() == p@);
            }
            if selection.contains(p.as_str()) {
                let ghost before = tracks@;
                let c = p.clone();
                tracks.push(c);
                proof {
                    assert(path_texts(tracks@) =~= path_texts(before).push(p@));
                }
            }
            i = i + 1;
        }
        proof {
            assert(all.take(playlist.len() as int) =~= all);
        }
        let looping = self.looping;
        let first = if tracks.len() > 0 {
            Some(tracks[0].clone())
        } else {
            None
        };
        *self = PlayQueue { tracks, position: 0, looping };
        first
    }

    /// The playing track finished: move to the next track and return it, or
    /// end the queue after its last track unless looping.
    pub fn advance(&mut self) -> (next: Option<String>)
        ensures
            final(self)@ == advanced(old(self)@),
            final(self)@.tracks.len() == 0 ==> next is None,
            final(self)@.tracks.len() > 0 ==> (next matches Some(p) && p@
                == final(self)@.tracks[final(self)@.position]),
    {
        proof {
            use_type_invariant(&*self);
        }
        if self.tracks.len() == 0 {
            return None;
        }
        let position = self.position;
        if position + 1 < self.tracks.len() {
            let next = self.tracks[position + 1].clone();
            self.position = position + 1;
            Some(next)
        } else if self.looping {
            let next = self.tracks[0].clone();
            self.position = 0;
            Some(next)
        } else {
            self.position = 0;
            self.tracks = Vec::new();
            proof {
                assert(self@.tracks =~= Seq::<Seq<char>>::empty());
            }
            None
        }
    }
}

/// A looping queue keeps its tracks, and after `k` finished tracks it stands
/// `k` tracks further on, wrapping around: after as many tracks as it holds
/// it is back at the track it started from.
pub proof fn lemma_loop_cycles(q: QueueView, k: nat)
    requires
        q.looping,
        q.tracks.len() > 0,
        0 <= q.position < q.tracks.len(),
    ensures
        advanced_times(q, k).tracks == q.tracks,
        advanced_times(q, k).looping,
        advanced_times(q, k).position == (q.position + k) % (q.tracks.len() as int),
    decreases k,
{
    let n = q.tracks.len() as int;
    if k == 0 {
        vstd::arithmetic::div_mod::lemma_small_mod(q.position as nat, n as nat);
    } else {
        lemma_loop_cycles(q, (k - 1) as nat);
        let a = q.position + k - 1;
        let prev = a % n;
        let qa = a / n;
        vstd::arithmetic::div_mod::lemma_fundamental_div_mod(a, n);
        vstd::arithmetic::div_mod::lemma_mod_pos_bound(a, n);
        if prev + 1 < n {
            assert(a + 1 == qa * n + (prev + 1)) by (nonlinear_arith)
                requires
                    a == n * qa + prev,
            ;
            vstd::arithmetic::div_mod::lemma_fundamental_div_mod_converse(a + 1, n, qa, prev + 1);
        } else {
            assert(a + 1 == (qa + 1) * n + 0) by (nonlinear_arith)
                requires
                    a == n * qa + prev,
                    prev + 1 == n,
            ;
            vstd::arithmetic::div_mod::lemma_fundamental_div_mod_converse(a + 1, n, qa + 1, 0);
        }
    }
}

/// Without looping, a queue plays the tracks from its position to the end,
/// one per finished track, and is empty once the last one finished.
pub proof fn lemma_queue_runs_out(q: QueueView, k: nat)
    requires
        !q.looping,
        q.tracks.len() > 0,
        0 <= q.position < q.tracks.len(),
        k <= q.tracks.len() - q.position,
    ensures
        advanced_times(q, k).looping == q.looping,
        k < q.tracks.len() - q.position ==> advanced_times(q, k).tracks == q.tracks
            && advanced_times(q, k).position == q.position + k,
        k == q.tracks.len() - q.position ==> advanced_times(q, k).tracks.len() == 0,
    decreases k,
{
    if k > 0 {
        lemma_queue_runs_out(q, (k - 1) as nat);
    }
}

} // verus!
