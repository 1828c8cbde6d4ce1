//! Tempo map: converting absolute MIDI ticks to wall-clock milliseconds.
//!
//! A tempo change at tick `c` sets the microseconds per quarter note for every
//! tick from `c` on, until the next change; before the first change the MIDI
//! default of 500 000 us (120 BPM) holds. The time of tick `t` is the area
//! under that piecewise-constant tempo from 0 to `t`, divided by the
//! resolution (ticks per quarter note) and by 1000 to get milliseconds.
use vstd::prelude::*;

use crate::order::{key_sorted, SortKey};

verus! {

/// A tempo change at an absolute tick position (us per quarter note).
#[derive(Debug, Clone, Copy, PartialEq, Eq, Structural)]
pub struct TempoChange {
    pub tick: u128,
    pub us_per_qn: u32,
}

impl SortKey for TempoChange {
    open spec fn sort_key(&self) -> int {
        self.tick as int
    }

    fn key(&self) -> (k: u128) {
        self.tick
    }
}

/// The MIDI default tempo: 500 000 us per quarter note (120 BPM).
pub open spec fn default_tempo() -> int {
    500_000
}

/// Tick-microseconds (ticks x us per quarter note) accumulated from tick `last`,
/// where tempo `tempo` holds, up to tick `ticks`, passing the tempo changes of
/// `changes` (in order) that come before `ticks`.
pub open spec fn tempo_area(changes: Seq<TempoChange>, ticks: int, last: int, tempo: int) -> int
    decreases changes.len(),
{
    if changes.len() == 0 || changes[0].tick >= ticks {
        (ticks - last) * tempo
    } else {
        (changes[0].tick - last) * tempo + tempo_area(
            changes.drop_first(),
            ticks,
            changes[0].tick as int,
            changes[0].us_per_qn as int,
        )
    }
}

/// With a resolution of zero ticks per quarter note each segment of the tempo
/// map divides by zero: an empty segment, or one at tempo zero, gives
/// not-a-number, which makes the whole time not-a-number; otherwise every
/// segment is infinite.
pub open spec fn zero_resolution_undefined(
    changes: Seq<TempoChange>,
    ticks: int,
    last: int,
    tempo: int,
) -> bool
    decreases changes.len(),
{
    if changes.len() == 0 || changes[0].tick >= ticks {
        ticks - last == 0 || tempo == 0
    } else {
        changes[0].tick - last == 0 || tempo == 0 || zero_resolution_undefined(
            changes.drop_first(),
            ticks,
            changes[0].tick as int,
            changes[0].us_per_qn as int,
        )
    }
}

/// Milliseconds of absolute tick `ticks` under the (tick-ordered) tempo map
/// `changes` at resolution `ticks_per_quarter`, rounded down and capped at
/// `u64::MAX`. A zero resolution gives 0 when the time is undefined
/// (not-a-number) and `u64::MAX` when it is infinite.
pub open spec fn ticks_to_ms(changes: Seq<TempoChange>, ticks_per_quarter: int, ticks: int) -> int {
    if ticks_per_quarter == 0 {
        if zero_resolution_undefined(changes, ticks, 0, default_tempo()) {
            0
        } else {
            u64::MAX as int
        }
    } else {
        let ms = tempo_area(changes, ticks, 0, default_tempo()) / (ticks_per_quarter * 1000);
        if ms > u64::MAX {
            u64::MAX as int
        } else {
            ms
        }
    }
}

proof fn lemma_area_step_bound(acc: int, last: int, next: int, tempo: int)
    by (nonlinear_arith)
    requires
        0 <= acc <= last * 0xffff_ffff,
        0 <= last <= next,
        0 <= tempo <= 0xffff_ffff,
    ensures
        0 <= acc + (next - last) * tempo <= next * 0xffff_ffff,
{
}

proof fn lemma_area_fits(next: int)
    by (nonlinear_arith)
    requires
        0 <= next < 0x1_0000_0000_0000_0000_0000_0000,
    ensures
        next * 0xffff_ffff < 0x1_0000_0000_0000_0000_0000_0000_0000_0000,
{
}

/// Convert an absolute tick position to milliseconds.
pub fn tick_ms(changes: &Vec<TempoChange>, ticks_per_quarter: u16, ticks: u128) -> (ms: u64)
    requires
        key_sorted(changes@),
        ticks < 0x1_0000_0000_0000_0000_0000_0000,
    ensures
        ms == ticks_to_ms(changes@, ticks_per_quarter as int, ticks as int),
{
    let mut i: usize = 0;
    let mut last: u128 = 0;
    let mut tempo: u128 = 500_000;
    if ticks_per_quarter == 0 {
        let mut undefined = false;
        proof {
            assert(changes@.skip(0) =~= changes@);
        }
        while i < changes.len() && changes[i].tick < ticks
            invariant
                i <= changes.len(),
                key_sorted(changes@),
                last <= ticks,
                i > 0 ==> last == changes@[i - 1].tick,
                i == 0 ==> last == 0,
                (undefined || zero_resolution_undefined(changes@.skip(i as int), ticks as int, last as int, tempo as int))
                    == zero_resolution_undefined(changes@, ticks as int, 0, 500_000),
            decreases changes.len() - i,
        {
            let c = changes[i];
            proof {
                assert(changes@.skip(i as int).drop_first() =~= changes@.skip(i + 1));
                assert(c == changes@[i as int]);
                if i > 0 {
                    assert(changes@[i - 1].sort_key() <= changes@[i as int].sort_key());
                    assert(changes@[i - 1].tick <= changes@[i as int].tick);
                }
                assert(last <= c.tick);
            }
            if c.tick - last == 0 || tempo == 0 {
                undefined = true;
            }
            last = c.tick;
            tempo = c.us_per_qn as u128;
            i = i + 1;
        }
        if ticks - last == 0 || tempo == 0 {
            undefined = true;
        }
        if undefined {
            0
        } else {
            u64::MAX
        }
    } else {
        let mut acc: u128 = 0;
        proof {
            assert(changes@.skip(0) =~= changes@);
        }
        while i < changes.len() && changes[i].tick < ticks
            invariant
                i <= changes.len(),
                key_sorted(changes@),
                ticks < 0x1_0000_0000_0000_0000_0000_0000,
                last <= ticks,
                tempo <= 0xffff_ffff,
                acc <= last * 0xffff_ffff,
                i > 0 ==> last == changes@[i - 1].tick,
                i == 0 ==> last == 0,
                acc + tempo_area(changes@.skip(i as int), ticks as int, last as int, tempo as int)
                    == tempo_area(changes@, ticks as int, 0, 500_000),
            decreases changes.len() - i,
        {
            let c = changes[i];
            proof {
                assert(changes@.skip(i as int).drop_first() =~= changes@.skip(i + 1));
                assert(c == changes@[i as int]);
                if i > 0 {
                    assert(changes@[i - 1].sort_key() <= changes@[i as int].sort_key());
                    assert(changes@[i - 1].tick <= changes@[i as int].tick);
                }
                assert(last <= c.tick);
                lemma_area_step_bound(acc as int, last as int, c.tick as int, tempo as int);
                lemma_area_fits(c.tick as int);
            }
            acc = acc + (c.tick - last) * tempo;
            last = c.tick;
            tempo = c.us_per_qn as u128;
            i = i + 1;
        }
        proof {
            lemma_area_step_bound(acc as int, last as int, ticks as int, tempo as int);
            lemma_area_fits(ticks as int);
        }
        acc = acc + (ticks - last) * tempo;
        let ms = acc / (ticks_per_quarter as u128 * 1000);
        if ms > u64::MAX as u128 {
            u64::MAX
        } else {
            ms as u64
        }
    }
}

proof fn lemma_sorted_tail(changes: Seq<TempoChange>)
    requires
        key_sorted(changes),
        changes.len() > 0,
    ensures
        key_sorted(changes.drop_first()),
        changes.len() > 1 ==> changes[0].tick <= changes[1].tick,
{
    let t = changes.drop_first();
    assert forall|i: int, j: int| 0 <= i <= j < t.len() implies t[i].sort_key() <= t[j].sort_key() by {
        assert(t[i] == changes[i + 1] && t[j] == changes[j + 1]);
    }
    if changes.len() > 1 {
        assert(changes[0].sort_key() <= changes[1].sort_key());
    }
}

proof fn lemma_segment_ordered(a: int, b: int, tempo: int)
    by (nonlinear_arith)
    requires
        a <= b,
        tempo >= 0,
    ensures
        a * tempo <= b * tempo,
{
}

/// The area from `last` to a later tick is never negative.
proof fn lemma_area_nonnegative(changes: Seq<TempoChange>, ticks: int, last: int, tempo: int)
    requires
        key_sorted(changes),
        last <= ticks,
        tempo >= 0,
        changes.len() > 0 ==> last <= changes[0].tick,
    ensures
        tempo_area(changes, ticks, last, tempo) >= 0,
    decreases changes.len(),
{
    if changes.len() == 0 || changes[0].tick >= ticks {
        lemma_segment_ordered(0, ticks - last, tempo);
    } else {
        lemma_sorted_tail(changes);
        lemma_segment_ordered(0, changes[0].tick - last, tempo);
        lemma_area_nonnegative(
            changes.drop_first(),
            ticks,
            changes[0].tick as int,
            changes[0].us_per_qn as int,
        );
    }
}

/// The area up to a tick grows with the tick.
proof fn lemma_area_monotonic(changes: Seq<TempoChange>, a: int, b: int, last: int, tempo: int)
    requires
        key_sorted(changes),
        last <= a <= b,
        tempo >= 0,
        changes.len() > 0 ==> last <= changes[0].tick,
    ensures
        tempo_area(changes, a, last, tempo) <= tempo_area(changes, b, last, tempo),
    decreases changes.len(),
{
    if changes.len() == 0 || changes[0].tick >= b {
        lemma_segment_ordered(a - last, b - last, tempo);
    } else {
        let c = changes[0];
        lemma_sorted_tail(changes);
        if c.tick >= a {
            lemma_segment_ordered(a - last, c.tick - last, tempo);
            lemma_area_nonnegative(changes.drop_first(), b, c.tick as int, c.us_per_qn as int);
        } else {
            lemma_area_monotonic(changes.drop_first(), a, b, c.tick as int, c.us_per_qn as int);
        }
    }
}

/// A later tick never comes at an earlier time: with a positive resolution
/// the time of a tick grows with the tick.
pub proof fn lemma_ticks_to_ms_monotonic(changes: Seq<TempoChange>, ticks_per_quarter: int, a: int, b: int)
    requires
        key_sorted(changes),
        ticks_per_quarter > 0,
        0 <= a <= b,
    ensures
        ticks_to_ms(changes, ticks_per_quarter, a) <= ticks_to_ms(changes, ticks_per_quarter, b),
{
    lemma_area_monotonic(changes, a, b, 0, default_tempo());
    let d = ticks_per_quarter * 1000;
    vstd::arithmetic::div_mod::lemma_div_is_ordered(
        tempo_area(changes, a, 0, default_tempo()),
        tempo_area(changes, b, 0, default_tempo()),
        d,
    );
}

/// Past a run of changes all at tick `c`, time runs at the last one's tempo.
proof fn lemma_area_after_run(changes: Seq<TempoChange>, ticks: int, c: int, tempo: int)
    requires
        changes.len() > 0,
        forall|i: int| 0 <= i < changes.len() ==> #[trigger] changes[i].tick == c,
        c < ticks,
    ensures
        tempo_area(changes, ticks, c, tempo) == (ticks - c) * changes.last().us_per_qn,
    decreases changes.len(),
{
    let rest = changes.drop_first();
    let us0 = changes[0].us_per_qn as int;
    assert(changes[0].tick == c);
    assert((changes[0].tick - c) * tempo == 0) by (nonlinear_arith)
        requires
            changes[0].tick == c,
    ;
    assert(tempo_area(changes, ticks, c, tempo) == tempo_area(rest, ticks, c, us0));
    if rest.len() == 0 {
        assert(changes.last() == changes[0]);
        assert(tempo_area(rest, ticks, c, us0) == (ticks - c) * us0);
    } else {
        assert forall|i: int| 0 <= i < rest.len() implies #[trigger] rest[i].tick == c by {
            assert(rest[i] == changes[i + 1]);
        }
        assert(rest.last() == changes.last());
        lemma_area_after_run(rest, ticks, c, changes[0].us_per_qn as int);
    }
}

proof fn lemma_area_past_last(changes: Seq<TempoChange>, ticks: int, last: int, tempo: int)
    requires
        key_sorted(changes),
        changes.len() > 0,
        last <= changes[0].tick,
        changes.last().tick < ticks,
    ensures
        tempo_area(changes, ticks, last, tempo) == tempo_area(
            changes,
            changes.last().tick as int,
            last,
            tempo,
        ) + (ticks - changes.last().tick) * changes.last().us_per_qn,
    decreases changes.len(),
{
    let c = changes.last().tick as int;
    let c0 = changes[0].tick as int;
    let rest = changes.drop_first();
    assert(changes[0].sort_key() <= changes[changes.len() - 1].sort_key());
    lemma_sorted_tail(changes);
    if c0 >= c {
        let us0 = changes[0].us_per_qn as int;
        assert(c0 == c);
        assert(tempo_area(changes, c, last, tempo) == (c - last) * tempo);
        assert(tempo_area(changes, ticks, last, tempo) == (c0 - last) * tempo + tempo_area(
            rest,
            ticks,
            c,
            us0,
        ));
        if rest.len() == 0 {
            assert(changes.last() == changes[0]);
            assert(tempo_area(rest, ticks, c, us0) == (ticks - c) * us0);
        } else {
            assert forall|i: int| 0 <= i < rest.len() implies #[trigger] rest[i].tick == c by {
                assert(rest[i] == changes[i + 1]);
                assert(changes[0].sort_key() <= changes[i + 1].sort_key());
                assert(changes[i + 1].sort_key() <= changes[changes.len() - 1].sort_key());
            }
            assert(rest.last() == changes.last());
            lemma_area_after_run(rest, ticks, c, changes[0].us_per_qn as int);
        }
    } else {
        assert(rest.len() > 0);
        assert(rest.last() == changes.last());
        assert(changes.last() == changes[changes.len() - 1]);
        assert(c0 < c && c < ticks);
        lemma_area_past_last(rest, ticks, c0, changes[0].us_per_qn as int);
    }
}

/// Past the last tempo change, time runs at that change's tempo: the
/// tick-microseconds up to a tick after the last change are those up to the
/// change plus the ticks since it at its tempo, whatever changes came before
/// it (one at tick 0, or several at the same tick, included).
pub proof fn lemma_last_change_governs(changes: Seq<TempoChange>, ticks: int)
    requires
        key_sorted(changes),
        changes.len() > 0,
        changes.last().tick < ticks,
    ensures
        tempo_area(changes, ticks, 0, default_tempo()) == tempo_area(
            changes,
            changes.last().tick as int,
            0,
            default_tempo(),
        ) + (ticks - changes.last().tick) * changes.last().us_per_qn,
{
    lemma_area_past_last(changes, ticks, 0, default_tempo());
}

/// A tempo set at tick 0 governs the whole song: under the map of that one
/// change at resolution `q`, tick `t` comes at `t * T / (1000 * q)`
/// milliseconds, rounded down and capped at `u64::MAX`; the default tempo
/// plays no part.
pub proof fn lemma_tempo_from_start(us_per_qn: u32, q: int, t: int)
    requires
        q > 0,
        t >= 0,
    ensures
        ticks_to_ms(seq![TempoChange { tick: 0, us_per_qn }], q, t) == if t * us_per_qn / (q * 1000)
            > u64::MAX {
            u64::MAX as int
        } else {
            t * us_per_qn / (q * 1000)
        },
{
    let changes = seq![TempoChange { tick: 0, us_per_qn }];
    assert(changes.drop_first() =~= Seq::<TempoChange>::empty());
    if t == 0 {
        assert(t * us_per_qn == 0);
        assert(t * default_tempo() == 0);
    } else {
        assert(changes[0] == TempoChange { tick: 0, us_per_qn });
        assert((changes[0].tick - 0) * default_tempo() == 0);
        assert(tempo_area(changes.drop_first(), t, 0, us_per_qn as int) == (t - 0) * us_per_qn);
        assert(tempo_area(changes, t, 0, default_tempo()) == t * us_per_qn);
    }
}

} // verus!
