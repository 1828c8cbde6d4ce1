//! Stable ordering of timed items and removal of consecutive duplicates.
//!
//! A stable sort by key is specified by what it keeps: the output is ordered
//! by key, and for every key the items carrying it appear in the same order as
//! in the input. That pins the output down uniquely.
use vstd::prelude::*;

verus! {

/// Items ordered by an integer key.
pub trait SortKey {
    spec fn sort_key(&self) -> int;

    fn key(&self) -> (k: u128)
        ensures
            k == self.sort_key(),
    ;
}

/// `s` is ordered by key (ties allowed).
pub open spec fn key_sorted<T: SortKey>(s: Seq<T>) -> bool {
    forall|i: int, j: int| 0 <= i <= j < s.len() ==> s[i].sort_key() <= s[j].sort_key()
}

/// The items of `s` whose key is `k`, in their order in `s`.
pub open spec fn with_key<T: SortKey>(s: Seq<T>, k: int) -> Seq<T>
    decreases s.len(),
{
    if s.len() == 0 {
        s
    } else {
        let rest = with_key(s.drop_last(), k);
        if s.last().sort_key() == k {
            rest.push(s.last())
        } else {
            rest
        }
    }
}

/// `output` is the stable sort of `input` by key.
pub open spec fn is_stable_sort<T: SortKey>(input: Seq<T>, output: Seq<T>) -> bool {
    &&& key_sorted(output)
    &&& forall|k: int| #[trigger] with_key(output, k) == with_key(input, k)
}

/// The stable sort of `input` by key.
pub open spec fn stable_sorted<T: SortKey>(input: Seq<T>) -> Seq<T> {
    choose|o: Seq<T>| is_stable_sort(input, o)
}

/// `s` with every run of equal consecutive items shortened to one item.
pub open spec fn dedup_consecutive<T>(s: Seq<T>) -> Seq<T>
    decreases s.len(),
{
    if s.len() <= 1 {
        s
    } else {
        let rest = dedup_consecutive(s.drop_last());
        if s.last() == s[s.len() - 2] {
            rest
        } else {
            rest.push(s.last())
        }
    }
}

proof fn lemma_with_key_push<T: SortKey>(s: Seq<T>, e: T, k: int)
    ensures
        with_key(s.push(e), k) == if e.sort_key() == k {
            with_key(s, k).push(e)
        } else {
            with_key(s, k)
        },
{
    assert(s.push(e).drop_last() =~= s);
}

proof fn lemma_with_key_add<T: SortKey>(a: Seq<T>, b: Seq<T>, k: int)
    ensures
        with_key(a + b, k) == with_key(a, k) + with_key(b, k),
    decreases b.len(),
{
    if b.len() == 0 {
        assert(a + b =~= a);
        assert(with_key(a, k) + with_key(b, k) =~= with_key(a, k));
    } else {
        lemma_with_key_add(a, b.drop_last(), k);
        assert((a + b).drop_last() =~= a + b.drop_last());
        assert((a + b).last() == b.last());
        if b.last().sort_key() == k {
            assert(with_key(a, k) + with_key(b.drop_last(), k).push(b.last()) =~= (with_key(a, k)
                + with_key(b.drop_last(), k)).push(b.last()));
        }
    }
}

proof fn lemma_with_key_absent<T: SortKey>(s: Seq<T>, k: int)
    requires
        forall|i: int| 0 <= i < s.len() ==> s[i].sort_key() != k,
    ensures
        with_key(s, k) == Seq::<T>::empty(),
    decreases s.len(),
{
    if s.len() > 0 {
        lemma_with_key_absent(s.drop_last(), k);
    }
}

proof fn lemma_with_key_member<T: SortKey>(s: Seq<T>, k: int)
    requires
        with_key(s, k).len() > 0,
    ensures
        exists|i: int| 0 <= i < s.len() && s[i].sort_key() == k,
    decreases s.len(),
{
    if s.len() > 0 {
        if s.last().sort_key() != k {
            lemma_with_key_member(s.drop_last(), k);
            let i = choose|i: int| 0 <= i < s.drop_last().len() && s.drop_last()[i].sort_key() == k;
            assert(s[i] == s.drop_last()[i]);
        } else {
            assert(s[s.len() - 1].sort_key() == k);
        }
    }
}

proof fn lemma_with_key_present<T: SortKey>(s: Seq<T>, i: int)
    requires
        0 <= i < s.len(),
    ensures
        with_key(s, s[i].sort_key()).len() > 0,
    decreases s.len(),
{
    if i < s.len() - 1 {
        lemma_with_key_present(s.drop_last(), i);
        assert(s.drop_last()[i] == s[i]);
    }
}

/// Two stable sorts of the same input are equal: the characterization
/// determines the output.
pub proof fn lemma_stable_sort_unique<T: SortKey>(input: Seq<T>, o1: Seq<T>, o2: Seq<T>)
    requires
        is_stable_sort(input, o1),
        is_stable_sort(input, o2),
    ensures
        o1 == o2,
{
    lemma_same_keys_equal(o1, o2);
}

proof fn lemma_same_keys_equal<T: SortKey>(o1: Seq<T>, o2: Seq<T>)
    requires
        key_sorted(o1),
        key_sorted(o2),
        forall|k: int| #[trigger] with_key(o1, k) == with_key(o2, k),
    ensures
        o1 == o2,
    decreases o1.len() + o2.len(),
{
    if o1.len() == 0 {
        if o2.len() > 0 {
            lemma_with_key_present(o2, 0);
            assert(with_key(o1, o2[0].sort_key()) == with_key(o2, o2[0].sort_key()));
        }
        assert(o1 =~= o2);
    } else if o2.len() == 0 {
        lemma_with_key_present(o1, 0);
        assert(with_key(o1, o1[0].sort_key()) == with_key(o2, o1[0].sort_key()));
    } else {
        let a = o1.last();
        let b = o2.last();
        let ka = a.sort_key();
        let kb = b.sort_key();
        lemma_with_key_present(o1, o1.len() - 1);
        assert(with_key(o1, ka) == with_key(o2, ka));
        lemma_with_key_member(o2, ka);
        lemma_with_key_present(o2, o2.len() - 1);
        assert(with_key(o1, kb) == with_key(o2, kb));
        lemma_with_key_member(o1, kb);
        assert(ka == kb);
        let p1 = o1.drop_last();
        let p2 = o2.drop_last();
        assert(o1 =~= p1.push(a));
        assert(o2 =~= p2.push(b));
        lemma_with_key_push(p1, a, ka);
        lemma_with_key_push(p2, b, ka);
        let w1 = with_key(p1, ka).push(a);
        let w2 = with_key(p2, ka).push(b);
        assert(with_key(o1, ka) == w1);
        assert(with_key(o2, ka) == w2);
        assert(w1[w1.len() - 1] == w2[w2.len() - 1]);
        assert(a == b);
        assert forall|k: int| #[trigger] with_key(p1, k) == with_key(p2, k) by {
            lemma_with_key_push(p1, a, k);
            lemma_with_key_push(p2, b, k);
            assert(with_key(o1, k) == with_key(o2, k));
            if k == ka {
                assert(with_key(p1, k) =~= with_key(o1, k).drop_last());
                assert(with_key(p2, k) =~= with_key(o2, k).drop_last());
            }
        }
        lemma_same_keys_equal(p1, p2);
    }
}

/// A stable sort that is known to exist is the one `stable_sorted` names.
pub proof fn lemma_stable_sorted_is<T: SortKey>(input: Seq<T>, output: Seq<T>)
    requires
        is_stable_sort(input, output),
    ensures
        stable_sorted(input) == output,
{
    let o = stable_sorted(input);
    assert(is_stable_sort(input, o));
    lemma_stable_sort_unique(input, o, output);
}

/// Insertion keeps a stable sort: putting `e` after every item whose key is at
/// most its own.
proof fn lemma_insert_keeps_stable_sort<T: SortKey>(input: Seq<T>, out: Seq<T>, e: T, p: int)
    requires
        is_stable_sort(input, out),
        0 <= p <= out.len(),
        forall|i: int| 0 <= i < p ==> out[i].sort_key() <= e.sort_key(),
        forall|i: int| p <= i < out.len() ==> out[i].sort_key() > e.sort_key(),
    ensures
        is_stable_sort(input.push(e), out.insert(p, e)),
{
    let res = out.insert(p, e);
    let left = out.subrange(0, p);
    let right = out.subrange(p, out.len() as int);
    assert(out =~= left + right);
    assert(res =~= left.push(e) + right);
    assert(key_sorted(res)) by {
        assert forall|i: int, j: int| 0 <= i <= j < res.len() implies res[i].sort_key()
            <= res[j].sort_key() by {
            if j < p {
                assert(res[i] == out[i] && res[j] == out[j]);
            } else if j == p {
                assert(res[j] == e);
                if i < p {
                    assert(res[i] == out[i]);
                }
            } else {
                assert(res[j] == out[j - 1]);
                if i < p {
                    assert(res[i] == out[i]);
                } else if i == p {
                    assert(res[i] == e);
                } else {
                    assert(res[i] == out[i - 1]);
                }
            }
        }
    }
    assert forall|k: int| #[trigger] with_key(res, k) == with_key(input.push(e), k) by {
        lemma_with_key_add(left, right, k);
        lemma_with_key_add(left.push(e), right, k);
        lemma_with_key_push(left, e, k);
        lemma_with_key_push(input, e, k);
        if k == e.sort_key() {
            assert forall|i: int| 0 <= i < right.len() implies right[i].sort_key() != k by {
                assert(right[i] == out[p + i]);
            }
            lemma_with_key_absent(right, k);
            assert(with_key(left, k) + Seq::<T>::empty() =~= with_key(left, k));
            assert(with_key(left, k).push(e) + Seq::<T>::empty() =~= with_key(left, k).push(e));
        }
    }
}

/// In a sequence ordered by key, the items with key at most `k` form a prefix.
proof fn lemma_split_point<T: SortKey>(s: Seq<T>, k: int) -> (p: int)
    requires
        key_sorted(s),
    ensures
        0 <= p <= s.len(),
        forall|i: int| 0 <= i < p ==> s[i].sort_key() <= k,
        forall|i: int| p <= i < s.len() ==> s[i].sort_key() > k,
    decreases s.len(),
{
    if s.len() == 0 {
        0
    } else if s.last().sort_key() <= k {
        assert forall|i: int| 0 <= i < s.len() implies s[i].sort_key() <= k by {
            assert(s[i].sort_key() <= s[s.len() - 1].sort_key());
        }
        s.len() as int
    } else {
        let q = s.drop_last();
        assert(key_sorted(q)) by {
            assert forall|i: int, j: int| 0 <= i <= j < q.len() implies q[i].sort_key()
                <= q[j].sort_key() by {
                assert(q[i] == s[i] && q[j] == s[j]);
            }
        }
        let p = lemma_split_point(q, k);
        assert forall|i: int| 0 <= i < p implies s[i].sort_key() <= k by {
            assert(s[i] == q[i]);
        }
        assert forall|i: int| p <= i < s.len() implies s[i].sort_key() > k by {
            if i < q.len() {
                assert(s[i] == q[i]);
            }
        }
        p
    }
}

proof fn lemma_with_key_contains<T: SortKey>(s: Seq<T>, e: T)
    ensures
        s.contains(e) <==> with_key(s, e.sort_key()).contains(e),
    decreases s.len(),
{
    if s.len() > 0 {
        let p = s.drop_last();
        lemma_with_key_contains(p, e);
        let k = e.sort_key();
        if s.contains(e) && !p.contains(e) {
            assert(s.last() == e) by {
                let i = choose|i: int| 0 <= i < s.len() && s[i] == e;
                if i < p.len() {
                    assert(p[i] == e);
                }
            }
            assert(with_key(s, k).last() == e);
        }
        if p.contains(e) {
            let i = choose|i: int| 0 <= i < p.len() && p[i] == e;
            assert(s[i] == e);
        }
        if with_key(s, k).contains(e) && !with_key(p, k).contains(e) {
            assert(s.last() == e) by {
                let j = choose|j: int| 0 <= j < with_key(s, k).len() && with_key(s, k)[j] == e;
                if s.last().sort_key() == k {
                    if j < with_key(p, k).len() {
                        assert(with_key(p, k)[j] == e);
                    }
                }
                else {
                    assert(with_key(p, k)[j] == e);
                }
            }
            assert(s[s.len() - 1] == e);
        }
        if with_key(p, k).contains(e) {
            let j = choose|j: int| 0 <= j < with_key(p, k).len() && with_key(p, k)[j] == e;
            if s.last().sort_key() == k {
                assert(with_key(s, k)[j] == e);
            }
        }
    }
}

/// A stable sort holds exactly the items of its input.
pub proof fn lemma_stable_sort_members<T: SortKey>(input: Seq<T>, output: Seq<T>, e: T)
    requires
        is_stable_sort(input, output),
    ensures
        output.contains(e) <==> input.contains(e),
{
    lemma_with_key_contains(input, e);
    lemma_with_key_contains(output, e);
    assert(with_key(output, e.sort_key()) == with_key(input, e.sort_key()));
}

/// Item `i` of `s` sits in `with_key(s, k)` (for its key `k`) at the number
/// of earlier items with that key.
proof fn lemma_with_key_position<T: SortKey>(s: Seq<T>, i: int)
    requires
        0 <= i < s.len(),
    ensures
        with_key(s.take(i), s[i].sort_key()).len() < with_key(s, s[i].sort_key()).len(),
        with_key(s, s[i].sort_key())[with_key(s.take(i), s[i].sort_key()).len() as int] == s[i],
{
    let k = s[i].sort_key();
    assert(s.take(i + 1) =~= s.take(i).push(s[i]));
    lemma_with_key_push(s.take(i), s[i], k);
    assert(s =~= s.take(i + 1) + s.skip(i + 1));
    lemma_with_key_add(s.take(i + 1), s.skip(i + 1), k);
}

/// Items with the same key keep their relative order under a stable sort:
/// two of them in the output sit at increasing positions of the input's items
/// with that key.
pub proof fn lemma_stable_sort_keeps_order<T: SortKey>(input: Seq<T>, output: Seq<T>, i: int, j: int) -> (p: (int, int))
    requires
        is_stable_sort(input, output),
        0 <= i < j < output.len(),
        output[i].sort_key() == output[j].sort_key(),
    ensures
        0 <= p.0 < p.1 < with_key(input, output[i].sort_key()).len(),
        with_key(input, output[i].sort_key())[p.0] == output[i],
        with_key(input, output[i].sort_key())[p.1] == output[j],
{
    let k = output[i].sort_key();
    lemma_with_key_position(output, i);
    lemma_with_key_position(output, j);
    let a = with_key(output.take(i), k).len() as int;
    let b = with_key(output.take(j), k).len() as int;
    assert(output.take(j) =~= output.take(i + 1) + output.subrange(i + 1, j));
    lemma_with_key_add(output.take(i + 1), output.subrange(i + 1, j), k);
    assert(output.take(i + 1) =~= output.take(i).push(output[i]));
    lemma_with_key_push(output.take(i), output[i], k);
    assert(with_key(output, k) == with_key(input, k));
    (a, b)
}

/// Every sequence has a stable sort by key, and `stable_sorted` is it.
pub proof fn lemma_stable_sorted_exists<T: SortKey>(input: Seq<T>)
    ensures
        is_stable_sort(input, stable_sorted(input)),
        stable_sorted(input).len() == input.len(),
    decreases input.len(),
{
    if input.len() == 0 {
        assert(is_stable_sort(input, input)) by {
            assert forall|k: int| #[trigger] with_key(input, k) == with_key(input, k) by {}
        }
        lemma_stable_sorted_is(input, input);
    } else {
        let front = input.drop_last();
        let e = input.last();
        lemma_stable_sorted_exists(front);
        let out = stable_sorted(front);
        let p = lemma_split_point(out, e.sort_key());
        lemma_insert_keeps_stable_sort(front, out, e, p);
        assert(front.push(e) =~= input);
        lemma_stable_sorted_is(input, out.insert(p, e));
    }
}

/// Sort items by key, keeping the input order among items with equal keys.
pub fn stable_sort<T: SortKey + Copy>(items: &Vec<T>) -> (out: Vec<T>)
    ensures
        is_stable_sort(items@, out@),
        out@ == stable_sorted(items@),
        out.len() == items.len(),
{
    let mut out: Vec<T> = Vec::new();
    let mut i: usize = 0;
    proof {
        assert(items@.take(0) =~= Seq::<T>::empty());
        assert(out@ =~= Seq::<T>::empty());
    }
    while i < items.len()
        invariant
            i <= items.len(),
            out.len() == i,
            is_stable_sort(items@.take(i as int), out@),
        decreases items.len() - i,
    {
        let e = items[i];
        let ke = e.key();
        let mut p = out.len();
        while p > 0 && out[p - 1].key() > ke
            invariant
                p <= out.len(),
                out.len() == i,
                is_stable_sort(items@.take(i as int), out@),
                ke == e.sort_key(),
                forall|j: int| p <= j < out.len() ==> out@[j].sort_key() > ke,
            decreases p,
        {
            p = p - 1;
        }
        proof {
            if p > 0 {
                assert(out@[p - 1].sort_key() <= ke);
                assert forall|j: int| 0 <= j < p implies out@[j].sort_key() <= ke by {
                    assert(out@[j].sort_key() <= out@[p - 1].sort_key());
                }
            }
            assert(items@.take(i + 1) =~= items@.take(i as int).push(e));
            lemma_insert_keeps_stable_sort(items@.take(i as int), out@, e, p as int);
        }
        out.insert(p, e);
        i = i + 1;
    }
    proof {
        assert(items@.take(items.len() as int) =~= items@);
        lemma_stable_sorted_is(items@, out@);
    }
    out
}

/// No item of `s` equals the one right after it.
pub open spec fn no_adjacent_repeats<T>(s: Seq<T>) -> bool {
    forall|i: int| 0 <= i < s.len() - 1 ==> #[trigger] s[i] != s[i + 1]
}

proof fn lemma_dedup_last<T>(s: Seq<T>)
    requires
        s.len() > 0,
    ensures
        dedup_consecutive(s).len() > 0,
        dedup_consecutive(s).last() == s.last(),
    decreases s.len(),
{
    if s.len() > 1 {
        lemma_dedup_last(s.drop_last());
    }
}

proof fn lemma_dedup_subset<T>(s: Seq<T>)
    ensures
        forall|i: int| 0 <= i < dedup_consecutive(s).len() ==> s.contains(#[trigger] dedup_consecutive(s)[i]),
        dedup_consecutive(s).len() <= s.len(),
    decreases s.len(),
{
    if s.len() > 1 {
        let p = s.drop_last();
        lemma_dedup_subset(p);
        assert forall|i: int| 0 <= i < dedup_consecutive(s).len() implies s.contains(
            #[trigger] dedup_consecutive(s)[i],
        ) by {
            let d = dedup_consecutive(s);
            if i < dedup_consecutive(p).len() {
                assert(d[i] == dedup_consecutive(p)[i]);
                assert(p.contains(d[i]));
                let k = choose|k: int| 0 <= k < p.len() && p[k] == d[i];
                assert(s[k] == d[i]);
            } else {
                assert(d[i] == s.last());
                assert(s[s.len() - 1] == d[i]);
            }
        }
    } else if s.len() == 1 {
        assert(dedup_consecutive(s) == s);
        assert forall|i: int| 0 <= i < dedup_consecutive(s).len() implies s.contains(
            #[trigger] dedup_consecutive(s)[i],
        ) by {
            assert(s[i] == dedup_consecutive(s)[i]);
        }
    }
}

/// Removing repeats keeps a sequence ordered by key and leaves no item equal
/// to its successor.
pub proof fn lemma_dedup_sorted<T: SortKey>(s: Seq<T>)
    requires
        key_sorted(s),
    ensures
        key_sorted(dedup_consecutive(s)),
        no_adjacent_repeats(dedup_consecutive(s)),
    decreases s.len(),
{
    if s.len() > 1 {
        let p = s.drop_last();
        assert(key_sorted(p)) by {
            assert forall|i: int, j: int| 0 <= i <= j < p.len() implies p[i].sort_key() <= p[j].sort_key() by {
                assert(p[i] == s[i] && p[j] == s[j]);
            }
        }
        lemma_dedup_sorted(p);
        lemma_dedup_subset(p);
        lemma_dedup_last(p);
        let dp = dedup_consecutive(p);
        let d = dedup_consecutive(s);
        if s.last() != s[s.len() - 2] {
            assert(d == dp.push(s.last()));
            assert forall|i: int| 0 <= i < dp.len() implies #[trigger] dp[i].sort_key() <= s.last().sort_key() by {
                let k = choose|k: int| 0 <= k < p.len() && p[k] == dp[i];
                assert(s[k] == dp[i]);
            }
            assert(key_sorted(d)) by {
                assert forall|i: int, j: int| 0 <= i <= j < d.len() implies d[i].sort_key() <= d[j].sort_key() by {
                    if j == d.len() - 1 {
                        if i < j {
                            assert(d[i] == dp[i]);
                        }
                    } else {
                        assert(d[i] == dp[i] && d[j] == dp[j]);
                    }
                }
            }
            assert(no_adjacent_repeats(d)) by {
                assert forall|i: int| 0 <= i < d.len() - 1 implies #[trigger] d[i] != d[i + 1] by {
                    if i + 1 == d.len() - 1 {
                        assert(d[i] == dp.last());
                        assert(dp.last() == p.last());
                        assert(p.last() == s[s.len() - 2]);
                    } else {
                        assert(d[i] == dp[i] && d[i + 1] == dp[i + 1]);
                    }
                }
            }
        }
    }
}

} // verus!
