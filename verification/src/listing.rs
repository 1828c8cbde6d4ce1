//! The song list of scanned folders: the MIDI files among the entries found,
//! named by their file stem and ordered by that name, case-insensitively.
//!
//! Reading the directories happens around this module; here the paths found
//! are filtered (extension `.mid` or `.midi`, in any ASCII case) and ordered
//! by the lower-cased name, keeping the scan order among equal names.
use vstd::prelude::*;

use crate::input::ascii_lowercase;
use crate::order::{
    is_stable_sort, lemma_stable_sort_keeps_order, lemma_stable_sort_members,
    lemma_stable_sorted_exists, stable_sort, stable_sorted, with_key, SortKey,
};
use crate::paths::{display_name, display_name_of, file_name, file_name_of, find_last, last_index_of};
use crate::queue::path_texts;
use crate::text::{lemma_text_order, lowercase_of, text_less, text_lt, to_lowercase};

verus! {

/// The extension of a file name: what follows its last `.`, unless it has no
/// dot or its only dot leads the name.
pub open spec fn extension_of(name: Seq<char>) -> Option<Seq<char>> {
    match last_index_of(name, '.') {
        Some(d) => if d == 0 {
            None
        } else {
            Some(name.subrange(d + 1, name.len() as int))
        },
        None => None,
    }
}

/// `ext` is `mid` or `midi` in any ASCII case.
pub open spec fn is_midi_extension(ext: Seq<char>) -> bool {
    let lower = ext.map_values(|c: char| ascii_lowercase(c));
    lower == seq!['m', 'i', 'd'] || lower == seq!['m', 'i', 'd', 'i']
}

/// `path` names a MIDI file: its file name has a MIDI extension.
pub open spec fn is_midi_path(path: Seq<char>) -> bool {
    match file_name_of(path) {
        Some(name) => match extension_of(name) {
            Some(ext) => is_midi_extension(ext),
            None => false,
        },
        None => false,
    }
}

/// The MIDI paths of `paths`, in their order.
pub open spec fn midi_paths(paths: Seq<Seq<char>>) -> Seq<Seq<char>>
    decreases paths.len(),
{
    if paths.len() == 0 {
        paths
    } else {
        let rest = midi_paths(paths.drop_last());
        if is_midi_path(paths.last()) {
            rest.push(paths.last())
        } else {
            rest
        }
    }
}

/// The key each MIDI path is ordered by: its name in lower case.
pub open spec fn sort_keys(midi: Seq<Seq<char>>) -> Seq<Seq<char>> {
    midi.map_values(|p: Seq<char>| lowercase_of(display_name_of(p)))
}

/// Number of keys of `keys` that sort before `k`.
pub open spec fn count_below(keys: Seq<Seq<char>>, k: Seq<char>) -> nat
    decreases keys.len(),
{
    if keys.len() == 0 {
        0
    } else {
        count_below(keys.drop_last(), k) + if text_lt(keys.last(), k) {
            1nat
        } else {
            0nat
        }
    }
}

/// Entry `index` of a list, ranked by how many keys sort before its own.
#[derive(Clone, Copy)]
pub struct Ranked {
    pub rank: u64,
    pub index: usize,
}

impl SortKey for Ranked {
    open spec fn sort_key(&self) -> int {
        self.rank as int
    }

    fn key(&self) -> (k: u128) {
        self.rank as u128
    }
}

/// Every key ranked by the number of keys before it.
pub open spec fn ranked(keys: Seq<Seq<char>>) -> Seq<Ranked> {
    Seq::new(
        keys.len(),
        |i: int| Ranked { rank: count_below(keys, keys[i]) as u64, index: i as usize },
    )
}

/// Some entry of `order` is entry `i` of the list.
pub open spec fn lists_index(order: Seq<Ranked>, i: int) -> bool {
    exists|k: int| 0 <= k < order.len() && #[trigger] order[k].index == i
}

/// The order of the listing: the MIDI paths of `paths` by rank, the scan
/// order kept among equal names.
pub open spec fn listing_order(paths: Seq<Seq<char>>) -> Seq<Ranked> {
    stable_sorted(ranked(sort_keys(midi_paths(paths))))
}

proof fn lemma_count_below_bound(keys: Seq<Seq<char>>, k: Seq<char>)
    ensures
        count_below(keys, k) <= keys.len(),
    decreases keys.len(),
{
    if keys.len() > 0 {
        lemma_count_below_bound(keys.drop_last(), k);
    }
}

/// Fewer keys sort before a key than before a greater one, strictly fewer
/// when the smaller key is among them.
proof fn lemma_count_below_monotonic(keys: Seq<Seq<char>>, a: Seq<char>, b: Seq<char>)
    requires
        text_lt(a, b),
    ensures
        count_below(keys, a) <= count_below(keys, b),
        keys.contains(a) ==> count_below(keys, a) < count_below(keys, b),
    decreases keys.len(),
{
    if keys.len() > 0 {
        let p = keys.drop_last();
        lemma_count_below_monotonic(p, a, b);
        lemma_text_order(keys.last(), a, b);
        lemma_text_order(a, a, a);
        if keys.contains(a) && !p.contains(a) {
            let i = choose|i: int| 0 <= i < keys.len() && keys[i] == a;
            if i < p.len() {
                assert(p[i] == a);
            }
            assert(keys.last() == a);
        }
    }
}

proof fn lemma_lowered_to(c: char, t: char, u: char)
    requires
        'a' <= t <= 'z',
        u as int == t as int - 32,
    ensures
        ascii_lowercase(c) == t <==> (c == t || c == u),
{
    assert(c as int == u as int ==> c == u);
    if 'A' <= c <= 'Z' {
        assert(((c as u32) + 32) as int == c as int + 32);
    }
}

proof fn lemma_midi_paths_len(paths: Seq<Seq<char>>)
    ensures
        midi_paths(paths).len() <= paths.len(),
    decreases paths.len(),
{
    if paths.len() > 0 {
        lemma_midi_paths_len(paths.drop_last());
    }
}

/// Whether `ext` is `mid` or `midi`, ignoring ASCII case.
fn midi_extension(ext: &str) -> (r: bool)
    ensures
        r == is_midi_extension(ext@),
{
    let n = ext.unicode_len();
    let ghost lower = ext@.map_values(|c: char| ascii_lowercase(c));
    if n != 3 && n != 4 {
        proof {
            assert(lower.len() != 3 && lower.len() != 4);
            assert(lower != seq!['m', 'i', 'd']);
            assert(lower != seq!['m', 'i', 'd', 'i']);
        }
        return false;
    }
    let c0 = ext.get_char(0);
    let c1 = ext.get_char(1);
    let c2 = ext.get_char(2);
    let stem_ok = (c0 == 'm' || c0 == 'M') && (c1 == 'i' || c1 == 'I') && (c2 == 'd' || c2 == 'D');
    let r = if n == 3 {
        stem_ok
    } else {
        let c3 = ext.get_char(3);
        stem_ok && (c3 == 'i' || c3 == 'I')
    };
    proof {
        lemma_lowered_to(c0, 'm', 'M');
        lemma_lowered_to(c1, 'i', 'I');
        lemma_lowered_to(c2, 'd', 'D');
        assert(lower[0] == ascii_lowercase(c0));
        assert(lower[1] == ascii_lowercase(c1));
        assert(lower[2] == ascii_lowercase(c2));
        if n == 4 {
            lemma_lowered_to(ext@[3], 'i', 'I');
            assert(lower[3] == ascii_lowercase(ext@[3]));
        }
        if r {
            if n == 3 {
                assert(lower =~= seq!['m', 'i', 'd']);
            } else {
                assert(lower =~= seq!['m', 'i', 'd', 'i']);
            }
        } else {
            let mid = seq!['m', 'i', 'd'];
            let midi = seq!['m', 'i', 'd', 'i'];
            assert(mid.len() == 3 && mid[0] == 'm' && mid[1] == 'i' && mid[2] == 'd');
            assert(midi.len() == 4 && midi[0] == 'm' && midi[1] == 'i' && midi[2] == 'd' && midi[3] == 'i');
            assert(lower.len() == n);
            if !stem_ok {
                assert(lower[0] != 'm' || lower[1] != 'i' || lower[2] != 'd');
            }
            assert(lower != mid);
            assert(lower != midi);
        }
    }
    r
}

/// Whether `path` names a MIDI file (`.mid` or `.midi`, any ASCII case).
pub fn is_midi(path: &str) -> (r: bool)
    ensures
        r == is_midi_path(path@),
{
    match file_name(path) {
        None => false,
        Some(name) => {
            let len = name.unicode_len();
            proof {
                assert(name@.subrange(0, len as int) =~= name@);
            }
            match find_last(name.as_str(), len, '.') {
                None => false,
                Some(d) => {
                    if d == 0 {
                        false
                    } else {
                        let ext = name.as_str().substring_char(d + 1, len);
                        midi_extension(ext)
                    }
                },
            }
        },
    }
}

/// The song list of the scanned `entries`: the names (file stems) and paths
/// of the MIDI files among them, ordered by name case-insensitively, the scan
/// order kept among equal names.
pub fn midi_listing(entries: &Vec<String>) -> (r: (Vec<String>, Vec<String>))
    ensures
        ({
            let midi = midi_paths(path_texts(entries@));
            let order = listing_order(path_texts(entries@));
            &&& r.0.len() == midi.len()
            &&& r.1.len() == midi.len()
            &&& forall|k: int| 0 <= k < midi.len() ==> order[k].index < midi.len()
            &&& forall|k: int| 0 <= k < midi.len() ==> #[trigger] r.1@[k]@ == midi[order[k].index as int]
            &&& forall|k: int| 0 <= k < midi.len() ==> #[trigger] r.0@[k]@ == display_name_of(
                midi[order[k].index as int],
            )
        }),
{
    let ghost all = path_texts(entries@);
    let mut midi: Vec<String> = Vec::new();
    let mut i: usize = 0;
    proof {
        assert(all.take(0) =~= Seq::<Seq<char>>::empty());
        assert(path_texts(midi@) =~= Seq::<Seq<char>>::empty());
    }
    while i < entries.len()
        invariant
            i <= entries.len(),
            all == path_texts(entries@),
            path_texts(midi@) == midi_paths(all.take(i as int)),
        decreases entries.len() - i,
    {
        let p = &entries[i];
        proof {
            assert(all.take(i + 1).drop_last() =~= all.take(i as int));
            assert(all.take(i + 1).last() == p@);
        }
        if is_midi(p.as_str()) {
            let ghost before = midi@;
            midi.push(p.clone());
            proof {
                assert(path_texts(midi@) =~= path_texts(before).push(p@));
            }
        }
        i = i + 1;
    }
    proof {
        assert(all.take(entries.len() as int) =~= all);
    }
    let ghost paths = path_texts(midi@);
    let ghost keys = sort_keys(paths);
    let n = midi.len();
    let mut names: Vec<String> = Vec::new();
    let mut lowered: Vec<String> = Vec::new();
    let mut j: usize = 0;
    while j < n
        invariant
            n == midi.len(),
            paths == path_texts(midi@),
            keys == sort_keys(paths),
            j <= n,
            names.len() == j,
            lowered.len() == j,
            forall|k: int| 0 <= k < j ==> #[trigger] names@[k]@ == display_name_of(paths[k]),
            forall|k: int| 0 <= k < j ==> #[trigger] lowered@[k]@ == keys[k],
        decreases n - j,
    {
        let name = display_name(midi[j].as_str());
        let key = to_lowercase(name.as_str());
        names.push(name);
        lowered.push(key);
        j = j + 1;
    }
    let mut ranks: Vec<Ranked> = Vec::new();
    let mut a: usize = 0;
    while a < n
        invariant
            n == midi.len(),
            keys.len() == n,
            lowered.len() == n,
            forall|k: int| 0 <= k < n ==> #[trigger] lowered@[k]@ == keys[k],
            a <= n,
            ranks.len() == a,
            forall|k: int| 0 <= k < a ==> #[trigger] ranks@[k] == ranked(keys)[k],
        decreases n - a,
    {
        let mut count: u64 = 0;
        let mut b: usize = 0;
        proof {
            assert(keys.take(0) =~= Seq::<Seq<char>>::empty());
        }
        while b < n
            invariant
                n == midi.len(),
                keys.len() == n,
                lowered.len() == n,
                forall|k: int| 0 <= k < n ==> #[trigger] lowered@[k]@ == keys[k],
                a < n,
                b <= n,
                count == count_below(keys.take(b as int), keys[a as int]),
            decreases n - b,
        {
            proof {
                assert(keys.take(b + 1).drop_last() =~= keys.take(b as int));
                lemma_count_below_bound(keys.take(b as int), keys[a as int]);
            }
            if text_less(lowered[b].as_str(), lowered[a].as_str()) {
                count = count + 1;
            }
            b = b + 1;
        }
        proof {
            assert(keys.take(n as int) =~= keys);
        }
        ranks.push(Ranked { rank: count, index: a });
        a = a + 1;
    }
    proof {
        assert(ranks@ =~= ranked(keys));
    }
    let order = stable_sort(&ranks);
    let mut out_names: Vec<String> = Vec::new();
    let mut out_paths: Vec<String> = Vec::new();
    let mut k: usize = 0;
    while k < n
        invariant
            n == midi.len(),
            n == names.len(),
            paths == path_texts(midi@),
            forall|m: int| 0 <= m < n ==> #[trigger] names@[m]@ == display_name_of(paths[m]),
            order.len() == n,
            order@ == stable_sorted(ranked(keys)),
            is_stable_sort(ranked(keys), order@),
            keys == sort_keys(paths),
            k <= n,
            out_names.len() == k,
            out_paths.len() == k,
            forall|m: int| 0 <= m < k ==> order@[m].index < n,
            forall|m: int| 0 <= m < k ==> #[trigger] out_paths@[m]@ == paths[order@[m].index as int],
            forall|m: int| 0 <= m < k ==> #[trigger] out_names@[m]@ == display_name_of(
                paths[order@[m].index as int],
            ),
        decreases n - k,
    {
        let item = order[k];
        proof {
            assert(order@.contains(item));
            lemma_stable_sort_members(ranked(keys), order@, item);
            let w = choose|w: int| 0 <= w < ranked(keys).len() && ranked(keys)[w] == item;
            assert(item.index == w);
        }
        let idx = item.index;
        out_paths.push(midi[idx].clone());
        out_names.push(names[idx].clone());
        k = k + 1;
    }
    (out_names, out_paths)
}

/// The listing holds as many entries as the scan found MIDI files, every one
/// of them among them, ordered by lower-cased name.
pub proof fn lemma_listing_sorted(paths: Seq<Seq<char>>)
    requires
        paths.len() <= usize::MAX,
    ensures
        ({
            let midi = midi_paths(paths);
            let keys = sort_keys(midi);
            let order = listing_order(paths);
            &&& order.len() == midi.len()
            &&& forall|k: int| 0 <= k < order.len() ==> #[trigger] order[k].index < midi.len()
            &&& forall|i: int| 0 <= i < midi.len() ==> #[trigger] lists_index(order, i)
            &&& forall|k1: int, k2: int|
                0 <= k1 < k2 < order.len() ==> !text_lt(
                    #[trigger] keys[order[k2].index as int],
                    #[trigger] keys[order[k1].index as int],
                )
        }),
{
    let midi = midi_paths(paths);
    let keys = sort_keys(midi);
    let input = ranked(keys);
    let order = listing_order(paths);
    lemma_midi_paths_len(paths);
    lemma_stable_sorted_exists(input);
    assert forall|k: int| 0 <= k < order.len() implies #[trigger] order[k].index < midi.len() && input[order[k].index as int] == order[k] by {
        lemma_stable_sort_members(input, order, order[k]);
        assert(order.contains(order[k]));
        let w = choose|w: int| 0 <= w < input.len() && input[w] == order[k];
        assert(order[k].index == w);
    }
    assert forall|i: int| 0 <= i < midi.len() implies #[trigger] lists_index(order, i) by {
        lemma_stable_sort_members(input, order, input[i]);
        assert(input.contains(input[i]));
        let k = choose|k: int| 0 <= k < order.len() && order[k] == input[i];
        assert(order[k].index == i);
    }
    assert forall|k1: int, k2: int| 0 <= k1 < k2 < order.len() implies !text_lt(
        #[trigger] keys[order[k2].index as int],
        #[trigger] keys[order[k1].index as int],
    ) by {
        let x = keys[order[k1].index as int];
        let y = keys[order[k2].index as int];
        assert(order[k1].sort_key() <= order[k2].sort_key());
        if text_lt(y, x) {
            assert(keys.contains(y)) by {
                assert(keys[order[k2].index as int] == y);
            }
            lemma_count_below_monotonic(keys, y, x);
            lemma_count_below_bound(keys, x);
            lemma_count_below_bound(keys, y);
            assert(input[order[k1].index as int] == order[k1]);
            assert(input[order[k2].index as int] == order[k2]);
        }
    }
}

/// Among ranked items with increasing indices, those of one rank keep
/// increasing indices, and each of them is one of the items.
proof fn lemma_rank_group_increasing(s: Seq<Ranked>, r: int)
    requires
        forall|i: int, j: int| 0 <= i < j < s.len() ==> s[i].index < s[j].index,
    ensures
        forall|a: int, b: int|
            0 <= a < b < with_key(s, r).len() ==> with_key(s, r)[a].index < with_key(s, r)[b].index,
        forall|a: int| 0 <= a < with_key(s, r).len() ==> s.contains(#[trigger] with_key(s, r)[a]),
    decreases s.len(),
{
    if s.len() > 0 {
        let p = s.drop_last();
        lemma_rank_group_increasing(p, r);
        let w = with_key(s, r);
        let wp = with_key(p, r);
        assert forall|a: int| 0 <= a < w.len() implies s.contains(#[trigger] w[a]) by {
            if a < wp.len() {
                assert(w[a] == wp[a]);
                let i = choose|i: int| 0 <= i < p.len() && p[i] == wp[a];
                assert(s[i] == w[a]);
            } else {
                assert(w[a] == s.last());
                assert(s[s.len() - 1] == w[a]);
            }
        }
        assert forall|a: int, b: int| 0 <= a < b < w.len() implies w[a].index < w[b].index by {
            if b < wp.len() {
                assert(w[a] == wp[a] && w[b] == wp[b]);
            } else {
                assert(w[a] == wp[a]);
                assert(p.contains(wp[a]));
                let i = choose|i: int| 0 <= i < p.len() && p[i] == wp[a];
                assert(s[i] == p[i]);
                assert(w[b] == s[s.len() - 1]);
            }
        }
    }
}

/// Entries with the same name keep the scan order in the listing.
pub proof fn lemma_listing_stable(paths: Seq<Seq<char>>)
    requires
        paths.len() <= usize::MAX,
    ensures
        ({
            let keys = sort_keys(midi_paths(paths));
            let order = listing_order(paths);
            forall|k1: int, k2: int|
                0 <= k1 < k2 < order.len() && #[trigger] keys[order[k1].index as int]
                    == #[trigger] keys[order[k2].index as int] ==> order[k1].index < order[k2].index
        }),
{
    let midi = midi_paths(paths);
    let keys = sort_keys(midi);
    let input = ranked(keys);
    let order = listing_order(paths);
    lemma_midi_paths_len(paths);
    lemma_stable_sorted_exists(input);
    assert forall|k1: int, k2: int|
        0 <= k1 < k2 < order.len() && #[trigger] keys[order[k1].index as int]
            == #[trigger] keys[order[k2].index as int] implies order[k1].index < order[k2].index by {
        lemma_stable_sort_members(input, order, order[k1]);
        lemma_stable_sort_members(input, order, order[k2]);
        assert(order.contains(order[k1]) && order.contains(order[k2]));
        let w1 = choose|w: int| 0 <= w < input.len() && input[w] == order[k1];
        let w2 = choose|w: int| 0 <= w < input.len() && input[w] == order[k2];
        assert(order[k1].index == w1 && order[k2].index == w2);
        assert(order[k1].sort_key() == order[k2].sort_key());
        let (a, b) = lemma_stable_sort_keeps_order(input, order, k1, k2);
        assert forall|i: int, j: int| 0 <= i < j < input.len() implies input[i].index < input[j].index by {}
        lemma_rank_group_increasing(input, order[k1].sort_key());
    }
}

} // verus!
