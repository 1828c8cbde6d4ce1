//! The chunk layout of a SoundFont 2 file, as far as the instrument preview
//! needs it before the bytes go to rustysynth.
//!
//! A SoundFont is a RIFF form `sfbk` holding three lists in turn: `INFO`,
//! `sdta` (the samples) and `pdta` (presets, instruments and their zones).
//! rustysynth reads the lists in that order, each sub-chunk as an id, a
//! 32-bit little-endian size and then its data. It indexes the generator
//! lists by the indices in the zone bags, and the zone bags by the indices
//! in the instrument and preset headers, without checking them; and it adds
//! the address offsets of a zone to the sample positions in 32-bit
//! arithmetic. `layout_safe` states what keeps all of these in range, and
//! `check_layout` decides it.
use vstd::prelude::*;

verus! {

/// The 16-bit little-endian value at `i`.
pub open spec fn u16_le(b: Seq<u8>, i: int) -> int {
    b[i] + 256 * b[i + 1]
}

/// The 32-bit little-endian unsigned value at `i`.
pub open spec fn u32_le(b: Seq<u8>, i: int) -> int {
    b[i] + 256 * b[i + 1] + 65536 * b[i + 2] + 16777216 * b[i + 3]
}

/// The four bytes at `i`.
pub open spec fn id_at(b: Seq<u8>, i: int) -> Seq<u8> {
    b.subrange(i, i + 4)
}

pub open spec fn riff_id() -> Seq<u8> {
    seq![0x52u8, 0x49u8, 0x46u8, 0x46u8]
}

pub open spec fn sfbk_id() -> Seq<u8> {
    seq![0x73u8, 0x66u8, 0x62u8, 0x6bu8]
}

pub open spec fn list_id() -> Seq<u8> {
    seq![0x4cu8, 0x49u8, 0x53u8, 0x54u8]
}

pub open spec fn info_id() -> Seq<u8> {
    seq![0x49u8, 0x4eu8, 0x46u8, 0x4fu8]
}

pub open spec fn sdta_id() -> Seq<u8> {
    seq![0x73u8, 0x64u8, 0x74u8, 0x61u8]
}

pub open spec fn pdta_id() -> Seq<u8> {
    seq![0x70u8, 0x64u8, 0x74u8, 0x61u8]
}

pub open spec fn ifil_id() -> Seq<u8> {
    seq![0x69u8, 0x66u8, 0x69u8, 0x6cu8]
}

pub open spec fn iver_id() -> Seq<u8> {
    seq![0x69u8, 0x76u8, 0x65u8, 0x72u8]
}

pub open spec fn phdr_id() -> Seq<u8> {
    seq![0x70u8, 0x68u8, 0x64u8, 0x72u8]
}

pub open spec fn pbag_id() -> Seq<u8> {
    seq![0x70u8, 0x62u8, 0x61u8, 0x67u8]
}

pub open spec fn pgen_id() -> Seq<u8> {
    seq![0x70u8, 0x67u8, 0x65u8, 0x6eu8]
}

pub open spec fn inst_id() -> Seq<u8> {
    seq![0x69u8, 0x6eu8, 0x73u8, 0x74u8]
}

pub open spec fn ibag_id() -> Seq<u8> {
    seq![0x69u8, 0x62u8, 0x61u8, 0x67u8]
}

pub open spec fn igen_id() -> Seq<u8> {
    seq![0x69u8, 0x67u8, 0x65u8, 0x6eu8]
}

pub open spec fn shdr_id() -> Seq<u8> {
    seq![0x73u8, 0x68u8, 0x64u8, 0x72u8]
}

/// The sub-chunks of a list whose type field starts at `q`, read from offset
/// `c` (counted from `q`) for as long as `c < end`: each an id, a 32-bit
/// size and `size` bytes of data. Gives where each sub-chunk's header
/// starts, and where reading stops; `None` where a sub-chunk does not fit in
/// `b`.
pub open spec fn walk(b: Seq<u8>, q: int, end: int, c: int) -> Option<(Seq<int>, int)>
    decreases b.len() - (q + c),
{
    if c >= end {
        Some((Seq::empty(), q + c))
    } else if q + c + 8 > b.len() {
        None
    } else {
        let next = c + 8 + u32_le(b, q + c + 4);
        if q + next > b.len() {
            None
        } else {
            match walk(b, q, end, next) {
                Some((hs, after)) => Some((seq![q + c].add(hs), after)),
                None => None,
            }
        }
    }
}

/// The list of type `ty` whose header starts at `p`: its sub-chunk headers
/// and where reading stops (`walk` over its contents).
pub open spec fn list_at(b: Seq<u8>, p: int, ty: Seq<u8>) -> Option<(Seq<int>, int)> {
    if p < 0 || p + 12 > b.len() || id_at(b, p) != list_id() || id_at(b, p + 8) != ty {
        None
    } else {
        walk(b, p + 8, u32_le(b, p + 4), 4)
    }
}

/// rustysynth reads a version sub-chunk (`ifil`, `iver`) as four bytes,
/// whatever its size; with size 4 it reads the file as `walk` does.
pub open spec fn versions_sized(b: Seq<u8>, hs: Seq<int>) -> bool {
    forall|k: int|
        0 <= k < hs.len() && (id_at(b, #[trigger] hs[k]) == ifil_id() || id_at(b, hs[k])
            == iver_id()) ==> u32_le(b, hs[k] + 4) == 4
}

/// The index in `hs` of the last sub-chunk with id `t`, or -1 (rustysynth
/// keeps the last one it reads).
pub open spec fn last_with(b: Seq<u8>, hs: Seq<int>, t: Seq<u8>) -> int
    decreases hs.len(),
{
    if hs.len() == 0 {
        -1
    } else if id_at(b, hs.last()) == t {
        hs.len() - 1
    } else {
        last_with(b, hs.drop_last(), t)
    }
}

/// The 16-bit index at offset `off` of record `k` in a table of
/// `stride`-byte records starting at `base`.
pub open spec fn index_at(b: Seq<u8>, base: int, stride: int, off: int, k: int) -> int {
    u16_le(b, base + stride * k + off)
}

/// Record `k` of `n` (the last one ends the table) owns the indices from its
/// own index up to the next record's; every record that owns any owns only
/// indices below `limit`.
pub open spec fn runs_within(
    b: Seq<u8>,
    base: int,
    stride: int,
    off: int,
    n: int,
    limit: int,
) -> bool {
    forall|j: int|
        1 <= j < n ==> #[trigger] index_at(b, base, stride, off, j) <= index_at(
            b,
            base,
            stride,
            off,
            j - 1,
        ) || index_at(b, base, stride, off, j) <= limit
}

/// Field `f` (start, end, loop start, loop end) of sample header `k` in the
/// table at `base`, read unsigned.
pub open spec fn sample_field(b: Seq<u8>, base: int, k: int, f: int) -> int {
    u32_le(b, base + 46 * k + 20 + 4 * f)
}

/// The positions of the first `n` sample headers lie in 0..=2^30, so that a
/// zone's address offsets (at most 2^30 + 2^15 either way) added to them
/// stay within 32 bits.
pub open spec fn samples_small(b: Seq<u8>, base: int, n: int) -> bool {
    forall|k: int, f: int|
        0 <= k < n && 0 <= f < 4 ==> #[trigger] sample_field(b, base, k, f) <= 0x4000_0000
}

/// Where the data of sub-chunk `i` of `hs` starts, and its size.
pub open spec fn data_of(hs: Seq<int>, i: int) -> int {
    hs[i] + 8
}

pub open spec fn size_of(b: Seq<u8>, hs: Seq<int>, i: int) -> int {
    u32_le(b, hs[i] + 4)
}

/// The `pdta` list holds each of its seven tables, each a whole number of
/// records, and the indices between them are in range.
pub open spec fn pdta_safe(b: Seq<u8>, hs: Seq<int>) -> bool {
    let ph = last_with(b, hs, phdr_id());
    let pb = last_with(b, hs, pbag_id());
    let pg = last_with(b, hs, pgen_id());
    let ins = last_with(b, hs, inst_id());
    let ib = last_with(b, hs, ibag_id());
    let ig = last_with(b, hs, igen_id());
    let sh = last_with(b, hs, shdr_id());
    &&& ph >= 0 && pb >= 0 && pg >= 0 && ins >= 0 && ib >= 0 && ig >= 0 && sh >= 0
    &&& size_of(b, hs, ph) > 0 && size_of(b, hs, ph) % 38 == 0
    &&& size_of(b, hs, pb) > 0 && size_of(b, hs, pb) % 4 == 0
    &&& size_of(b, hs, pg) > 0 && size_of(b, hs, pg) % 4 == 0
    &&& size_of(b, hs, ins) > 0 && size_of(b, hs, ins) % 22 == 0
    &&& size_of(b, hs, ib) > 0 && size_of(b, hs, ib) % 4 == 0
    &&& size_of(b, hs, ig) > 0 && size_of(b, hs, ig) % 4 == 0
    &&& size_of(b, hs, sh) > 0 && size_of(b, hs, sh) % 46 == 0
    &&& runs_within(
        b,
        data_of(hs, ib),
        4,
        0,
        size_of(b, hs, ib) / 4,
        size_of(b, hs, ig) / 4 - 1,
    )
    &&& runs_within(
        b,
        data_of(hs, pb),
        4,
        0,
        size_of(b, hs, pb) / 4,
        size_of(b, hs, pg) / 4 - 1,
    )
    &&& runs_within(
        b,
        data_of(hs, ins),
        22,
        20,
        size_of(b, hs, ins) / 22,
        size_of(b, hs, ib) / 4 - 1,
    )
    &&& runs_within(
        b,
        data_of(hs, ph),
        38,
        24,
        size_of(b, hs, ph) / 38,
        size_of(b, hs, pb) / 4 - 1,
    )
    &&& samples_small(b, data_of(hs, sh), size_of(b, hs, sh) / 46 - 1)
}

/// A RIFF form `sfbk` whose `INFO`, `sdta` and `pdta` lists follow one
/// another, whose version sub-chunks are four bytes long, and whose `pdta`
/// list is safe to load.
pub open spec fn layout_safe(b: Seq<u8>) -> bool {
    &&& b.len() >= 12
    &&& id_at(b, 0) == riff_id()
    &&& id_at(b, 8) == sfbk_id()
    &&& list_at(b, 12, info_id()) matches Some((info, p1))
    &&& versions_sized(b, info)
    &&& list_at(b, p1, sdta_id()) matches Some((samples, p2))
    &&& list_at(b, p2, pdta_id()) matches Some((pdta, p3))
    &&& pdta_safe(b, pdta)
}

/// Header positions as integers.
pub open spec fn ints(v: Seq<usize>) -> Seq<int> {
    v.map_values(|x: usize| x as int)
}

/// A walked list as plain values.
pub open spec fn walked(r: Option<(Vec<usize>, usize)>) -> Option<(Seq<int>, int)> {
    match r {
        Some((v, a)) => Some((ints(v@), a as int)),
        None => None,
    }
}

/// Every header in `v` and the data after it lie within `b`.
pub open spec fn headers_fit(b: Seq<u8>, v: Seq<usize>) -> bool {
    forall|k: int|
        0 <= k < v.len() ==> #[trigger] v[k] + 8 + u32_le(b, v[k] + 4) <= b.len()
}

fn read_u16(b: &[u8], i: usize) -> (v: usize)
    requires
        i + 2 <= b@.len(),
    ensures
        v == u16_le(b@, i as int),
{
    b[i] as usize + 256 * (b[i + 1] as usize)
}

fn read_u32(b: &[u8], i: usize) -> (v: u64)
    requires
        i + 4 <= b@.len(),
    ensures
        v == u32_le(b@, i as int),
{
    b[i] as u64 + 256 * (b[i + 1] as u64) + 65536 * (b[i + 2] as u64) + 16777216 * (
    b[i + 3] as u64)
}

fn id_is(b: &[u8], i: usize, t0: u8, t1: u8, t2: u8, t3: u8) -> (r: bool)
    requires
        i + 4 <= b@.len(),
    ensures
        r == (id_at(b@, i as int) == seq![t0, t1, t2, t3]),
{
    let r = b[i] == t0 && b[i + 1] == t1 && b[i + 2] == t2 && b[i + 3] == t3;
    proof {
        let s = id_at(b@, i as int);
        if r {
            assert(s =~= seq![t0, t1, t2, t3]);
        } else if s == seq![t0, t1, t2, t3] {
            assert(s[0] == t0 && s[1] == t1 && s[2] == t2 && s[3] == t3);
        }
    }
    r
}

/// Walks the list whose type field starts at `q` and whose size field says
/// `end`, as `walk` does.
fn walk_list(b: &[u8], q: usize, end: u64) -> (r: Option<(Vec<usize>, usize)>)
    requires
        q + 4 <= b@.len(),
    ensures
        walked(r) == walk(b@, q as int, end as int, 4),
        r matches Some((v, a)) ==> headers_fit(b@, v@) && a <= b@.len(),
{
    let mut c: usize = 4;
    let mut hs: Vec<usize> = Vec::new();
    proof {
        match walk(b@, q as int, end as int, 4) {
            Some((rest, after)) => {
                assert(ints(hs@).add(rest) =~= rest);
            },
            None => {},
        }
    }
    while (c as u64) < end
        invariant
            q + c <= b@.len(),
            headers_fit(b@, hs@),
            walk(b@, q as int, end as int, 4) == match walk(b@, q as int, end as int, c as int) {
                Some((rest, after)) => Some((ints(hs@).add(rest), after)),
                None => None,
            },
        decreases b@.len() - (q + c),
    {
        if b.len() - (q + c) < 8 {
            return None;
        }
        let size = read_u32(b, q + c + 4);
        if ((b.len() - (q + c + 8)) as u64) < size {
            return None;
        }
        let next = c + 8 + size as usize;
        let ghost old_hs = hs@;
        let ghost here = (q + c) as usize;
        hs.push(q + c);
        proof {
            assert(ints(hs@) =~= ints(old_hs).push(here as int));
            match walk(b@, q as int, end as int, next as int) {
                Some((rest, after)) => {
                    assert(ints(hs@).add(rest) =~= ints(old_hs).add(seq![here as int].add(rest)));
                },
                None => {},
            }
            assert forall|k: int| 0 <= k < hs@.len() implies #[trigger] hs@[k] + 8 + u32_le(
                b@,
                hs@[k] + 4,
            ) <= b@.len() by {
                if k < old_hs.len() {
                    assert(hs@[k] == old_hs[k]);
                }
            }
        }
        c = next;
    }
    proof {
        assert(ints(hs@).add(Seq::empty()) =~= ints(hs@));
    }
    let len = b.len();
    assert(q + c <= len);
    Some((hs, q + c))
}

/// Reads the list of type `t0 t1 t2 t3` whose header starts at `p`.
fn read_list(b: &[u8], p: usize, t0: u8, t1: u8, t2: u8, t3: u8) -> (r: Option<
    (Vec<usize>, usize),
>)
    ensures
        walked(r) == list_at(b@, p as int, seq![t0, t1, t2, t3]),
        r matches Some((v, a)) ==> headers_fit(b@, v@) && a <= b@.len(),
{
    if p > b.len() || b.len() - p < 12 {
        return None;
    }
    if !id_is(b, p, 0x4c, 0x49, 0x53, 0x54) || !id_is(b, p + 8, t0, t1, t2, t3) {
        return None;
    }
    let end = read_u32(b, p + 4);
    walk_list(b, p + 8, end)
}

/// The index in `hs` of the last sub-chunk with id `t0 t1 t2 t3`.
fn find_last(b: &[u8], hs: &Vec<usize>, t0: u8, t1: u8, t2: u8, t3: u8) -> (r: Option<usize>)
    requires
        headers_fit(b@, hs@),
    ensures
        match r {
            Some(i) => i < hs@.len() && last_with(b@, ints(hs@), seq![t0, t1, t2, t3]) == i,
            None => last_with(b@, ints(hs@), seq![t0, t1, t2, t3]) == -1,
        },
{
    let ghost t = seq![t0, t1, t2, t3];
    let mut found: Option<usize> = None;
    let mut i: usize = 0;
    proof {
        assert(ints(hs@).take(0) =~= Seq::<int>::empty());
    }
    while i < hs.len()
        invariant
            i <= hs@.len(),
            headers_fit(b@, hs@),
            t == seq![t0, t1, t2, t3],
            match found {
                Some(j) => j < i && last_with(b@, ints(hs@).take(i as int), t) == j,
                None => last_with(b@, ints(hs@).take(i as int), t) == -1,
            },
        decreases hs@.len() - i,
    {
        let h = hs[i];
        assert(h + 8 + u32_le(b@, h + 4) <= b@.len());
        let here = id_is(b, h, t0, t1, t2, t3);
        proof {
            let s = ints(hs@).take(i + 1);
            assert(s.drop_last() =~= ints(hs@).take(i as int));
            assert(s.last() == h as int);
        }
        if here {
            found = Some(i);
        }
        i = i + 1;
    }
    proof {
        assert(ints(hs@).take(hs@.len() as int) =~= ints(hs@));
    }
    found
}

/// Decides `runs_within` for a table of `n` records.
fn runs_ok(b: &[u8], base: usize, stride: usize, off: usize, n: usize, limit: usize) -> (r: bool)
    requires
        base + stride * n <= b@.len(),
        off + 2 <= stride,
    ensures
        r == runs_within(b@, base as int, stride as int, off as int, n as int, limit as int),
{
    if n == 0 {
        return true;
    }
    let len = b.len();
    proof {
        assert(stride * 0 == 0);
        assert(stride <= stride * n) by (nonlinear_arith)
            requires
                n >= 1,
        ;
    }
    let mut prev = read_u16(b, base + off);
    let mut j: usize = 1;
    while j < n
        invariant
            1 <= j <= n,
            len == b@.len(),
            base + stride * n <= b@.len(),
            off + 2 <= stride,
            prev == index_at(b@, base as int, stride as int, off as int, j - 1),
            forall|i: int|
                1 <= i < j ==> #[trigger] index_at(b@, base as int, stride as int, off as int, i)
                    <= index_at(b@, base as int, stride as int, off as int, i - 1) || index_at(
                    b@,
                    base as int,
                    stride as int,
                    off as int,
                    i,
                ) <= limit,
        decreases n - j,
    {
        proof {
            assert(stride * j + stride <= stride * n) by (nonlinear_arith)
                requires
                    j + 1 <= n,
            ;
        }
        let pos = base + stride * j + off;
        let cur = read_u16(b, pos);
        assert(cur == index_at(b@, base as int, stride as int, off as int, j as int));
        if cur > prev && cur > limit {
            return false;
        }
        prev = cur;
        j = j + 1;
    }
    true
}

/// Decides `samples_small` for a table of `n` sample headers.
fn samples_ok(b: &[u8], base: usize, n: usize) -> (r: bool)
    requires
        base + 46 * n <= b@.len(),
    ensures
        r == samples_small(b@, base as int, n as int),
{
    let len = b.len();
    let mut k: usize = 0;
    while k < n
        invariant
            k <= n,
            len == b@.len(),
            base + 46 * n <= b@.len(),
            forall|i: int, f: int|
                0 <= i < k && 0 <= f < 4 ==> #[trigger] sample_field(b@, base as int, i, f)
                    <= 0x4000_0000,
        decreases n - k,
    {
        let pos = base + 46 * k + 20;
        let start = read_u32(b, pos);
        let end = read_u32(b, pos + 4);
        let loop_start = read_u32(b, pos + 8);
        let loop_end = read_u32(b, pos + 12);
        assert(sample_field(b@, base as int, k as int, 0) == start);
        assert(sample_field(b@, base as int, k as int, 1) == end);
        assert(sample_field(b@, base as int, k as int, 2) == loop_start);
        assert(sample_field(b@, base as int, k as int, 3) == loop_end);
        if start > 0x4000_0000 || end > 0x4000_0000 || loop_start > 0x4000_0000 || loop_end
            > 0x4000_0000 {
            return false;
        }
        proof {
            assert forall|i: int, f: int| 0 <= i < k + 1 && 0 <= f < 4 implies #[trigger] sample_field(
                b@,
                base as int,
                i,
                f,
            ) <= 0x4000_0000 by {
                if i == k {
                    if f == 0 {
                    } else if f == 1 {
                    } else if f == 2 {
                    } else {
                    }
                }
            }
        }
        k = k + 1;
    }
    true
}

/// Decides `versions_sized` for the headers of the `INFO` list.
fn versions_ok(b: &[u8], hs: &Vec<usize>) -> (r: bool)
    requires
        headers_fit(b@, hs@),
    ensures
        r == versions_sized(b@, ints(hs@)),
{
    let len = b.len();
    let mut k: usize = 0;
    while k < hs.len()
        invariant
            k <= hs@.len(),
            len == b@.len(),
            headers_fit(b@, hs@),
            forall|i: int|
                0 <= i < k && (id_at(b@, #[trigger] ints(hs@)[i]) == ifil_id() || id_at(
                    b@,
                    ints(hs@)[i],
                ) == iver_id()) ==> u32_le(b@, ints(hs@)[i] + 4) == 4,
        decreases hs@.len() - k,
    {
        let h = hs[k];
        assert(h + 8 + u32_le(b@, h + 4) <= b@.len());
        assert(ints(hs@)[k as int] == h as int);
        let version = id_is(b, h, 0x69, 0x66, 0x69, 0x6c) || id_is(b, h, 0x69, 0x76, 0x65, 0x72);
        if version && read_u32(b, h + 4) != 4 {
            return false;
        }
        k = k + 1;
    }
    true
}

/// Decides `pdta_safe` for the headers of the `pdta` list.
fn pdta_ok(b: &[u8], hs: &Vec<usize>) -> (r: bool)
    requires
        headers_fit(b@, hs@),
    ensures
        r == pdta_safe(b@, ints(hs@)),
{
    let len = b.len();
    let ghost v = ints(hs@);
    let ph = match find_last(b, hs, 0x70, 0x68, 0x64, 0x72) {
        Some(i) => i,
        None => return false,
    };
    let pb = match find_last(b, hs, 0x70, 0x62, 0x61, 0x67) {
        Some(i) => i,
        None => return false,
    };
    let pg = match find_last(b, hs, 0x70, 0x67, 0x65, 0x6e) {
        Some(i) => i,
        None => return false,
    };
    let ins = match find_last(b, hs, 0x69, 0x6e, 0x73, 0x74) {
        Some(i) => i,
        None => return false,
    };
    let ib = match find_last(b, hs, 0x69, 0x62, 0x61, 0x67) {
        Some(i) => i,
        None => return false,
    };
    let ig = match find_last(b, hs, 0x69, 0x67, 0x65, 0x6e) {
        Some(i) => i,
        None => return false,
    };
    let sh = match find_last(b, hs, 0x73, 0x68, 0x64, 0x72) {
        Some(i) => i,
        None => return false,
    };
    assert(hs@[ph as int] + 8 + u32_le(b@, hs@[ph as int] + 4) <= b@.len());
    assert(hs@[pb as int] + 8 + u32_le(b@, hs@[pb as int] + 4) <= b@.len());
    assert(hs@[pg as int] + 8 + u32_le(b@, hs@[pg as int] + 4) <= b@.len());
    assert(hs@[ins as int] + 8 + u32_le(b@, hs@[ins as int] + 4) <= b@.len());
    assert(hs@[ib as int] + 8 + u32_le(b@, hs@[ib as int] + 4) <= b@.len());
    assert(hs@[ig as int] + 8 + u32_le(b@, hs@[ig as int] + 4) <= b@.len());
    assert(hs@[sh as int] + 8 + u32_le(b@, hs@[sh as int] + 4) <= b@.len());
    let ph_size = read_u32(b, hs[ph] + 4) as usize;
    let pb_size = read_u32(b, hs[pb] + 4) as usize;
    let pg_size = read_u32(b, hs[pg] + 4) as usize;
    let ins_size = read_u32(b, hs[ins] + 4) as usize;
    let ib_size = read_u32(b, hs[ib] + 4) as usize;
    let ig_size = read_u32(b, hs[ig] + 4) as usize;
    let sh_size = read_u32(b, hs[sh] + 4) as usize;
    assert(v[ph as int] == hs@[ph as int] as int);
    assert(v[pb as int] == hs@[pb as int] as int);
    assert(v[pg as int] == hs@[pg as int] as int);
    assert(v[ins as int] == hs@[ins as int] as int);
    assert(v[ib as int] == hs@[ib as int] as int);
    assert(v[ig as int] == hs@[ig as int] as int);
    assert(v[sh as int] == hs@[sh as int] as int);
    if !(ph_size > 0 && ph_size % 38 == 0 && pb_size > 0 && pb_size % 4 == 0 && pg_size > 0
        && pg_size % 4 == 0 && ins_size > 0 && ins_size % 22 == 0 && ib_size > 0 && ib_size % 4
        == 0 && ig_size > 0 && ig_size % 4 == 0 && sh_size > 0 && sh_size % 46 == 0) {
        return false;
    }
    let ib_pos = hs[ib] + 8;
    let pb_pos = hs[pb] + 8;
    let ins_pos = hs[ins] + 8;
    let ph_pos = hs[ph] + 8;
    let sh_pos = hs[sh] + 8;
    assert(4 * (ib_size / 4) == ib_size);
    assert(4 * (pb_size / 4) == pb_size);
    assert(22 * (ins_size / 22) == ins_size);
    assert(38 * (ph_size / 38) == ph_size);
    assert(46 * (sh_size / 46 - 1) < sh_size);
    runs_ok(b, ib_pos, 4, 0, ib_size / 4, ig_size / 4 - 1) && runs_ok(
        b,
        pb_pos,
        4,
        0,
        pb_size / 4,
        pg_size / 4 - 1,
    ) && runs_ok(b, ins_pos, 22, 20, ins_size / 22, ib_size / 4 - 1) && runs_ok(
        b,
        ph_pos,
        38,
        24,
        ph_size / 38,
        pb_size / 4 - 1,
    ) && samples_ok(b, sh_pos, sh_size / 46 - 1)
}

/// Whether `b` is laid out as `layout_safe` asks.
pub fn check_layout(b: &[u8]) -> (r: bool)
    ensures
        r == layout_safe(b@),
{
    if b.len() < 12 {
        return false;
    }
    if !id_is(b, 0, 0x52, 0x49, 0x46, 0x46) || !id_is(b, 8, 0x73, 0x66, 0x62, 0x6b) {
        return false;
    }
    let (info, p1) = match read_list(b, 12, 0x49, 0x4e, 0x46, 0x4f) {
        Some(x) => x,
        None => return false,
    };
    if !versions_ok(b, &info) {
        return false;
    }
    let (_samples, p2) = match read_list(b, p1, 0x73, 0x64, 0x74, 0x61) {
        Some(x) => x,
        None => return false,
    };
    let (pdta, _p3) = match read_list(b, p2, 0x70, 0x64, 0x74, 0x61) {
        Some(x) => x,
        None => return false,
    };
    pdta_ok(b, &pdta)
}

} // verus!
