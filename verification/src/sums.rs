//! Sums of counters and of durations, and the checked loops that compute them.

use vstd::prelude::*;
use crate::time::{duration_in_range, Duration};

verus! {

/// The sum of a sequence of counters.
pub open spec fn sum_u64(s: Seq<u64>) -> int
    decreases s.len(),
{
    if s.len() == 0 {
        0
    } else {
        sum_u64(s.drop_last()) + s.last()
    }
}

/// The sum of `f` over the elements of a sequence.
pub open spec fn sum_of<A>(s: Seq<A>, f: spec_fn(A) -> int) -> int
    decreases s.len(),
{
    if s.len() == 0 {
        0
    } else {
        sum_of(s.drop_last(), f) + f(s.last())
    }
}

/// Adding up the durations from the first to the last, stopping with `None`
/// as soon as a partial sum leaves the representable range.
pub open spec fn fold_durations(s: Seq<Duration>) -> Option<int>
    decreases s.len(),
{
    if s.len() == 0 {
        Some(0)
    } else {
        match fold_durations(s.drop_last()) {
            Some(t) => if duration_in_range(t + s.last().nanos) {
                Some(t + s.last().nanos)
            } else {
                None
            },
            None => None,
        }
    }
}

/// Every duration of the sequence is well formed.
pub open spec fn all_wf(s: Seq<Duration>) -> bool {
    forall|i: int| 0 <= i < s.len() ==> #[trigger] s[i].wf()
}

pub proof fn lemma_sum_u64_nonneg(s: Seq<u64>)
    ensures
        sum_u64(s) >= 0,
    decreases s.len(),
{
    if s.len() > 0 {
        lemma_sum_u64_nonneg(s.drop_last());
    }
}

/// The sum of a prefix of counters is at most the sum of all of them.
pub proof fn lemma_sum_u64_prefix(s: Seq<u64>, i: int)
    requires
        0 <= i <= s.len(),
    ensures
        sum_u64(s.take(i)) <= sum_u64(s),
    decreases s.len() - i,
{
    if i < s.len() {
        lemma_sum_u64_prefix(s, i + 1);
        assert(s.take(i + 1).drop_last() =~= s.take(i));
    } else {
        assert(s.take(i) =~= s);
    }
}

/// Changing one counter changes the sum by the difference.
pub proof fn lemma_sum_u64_update(s: Seq<u64>, i: int, v: u64)
    requires
        0 <= i < s.len(),
    ensures
        sum_u64(s.update(i, v)) == sum_u64(s) - s[i] + v,
    decreases s.len(),
{
    if i == s.len() - 1 {
        assert(s.update(i, v).drop_last() =~= s.drop_last());
    } else {
        lemma_sum_u64_update(s.drop_last(), i, v);
        assert(s.update(i, v).drop_last() =~= s.drop_last().update(i, v));
    }
}

/// Counters that are all zero add up to zero.
pub proof fn lemma_sum_u64_zeros(s: Seq<u64>)
    requires
        forall|i: int| 0 <= i < s.len() ==> s[i] == 0,
    ensures
        sum_u64(s) == 0,
    decreases s.len(),
{
    if s.len() > 0 {
        lemma_sum_u64_zeros(s.drop_last());
    }
}

/// With `f` never negative, the sum over a prefix is at most the sum over all.
pub proof fn lemma_sum_of_prefix<A>(s: Seq<A>, f: spec_fn(A) -> int, i: int)
    requires
        0 <= i <= s.len(),
        forall|a: A| #[trigger] f(a) >= 0,
    ensures
        sum_of(s.take(i), f) <= sum_of(s, f),
        sum_of(s.take(i), f) >= 0,
    decreases s.len() - i,
{
    if i < s.len() {
        lemma_sum_of_prefix(s, f, i + 1);
        assert(s.take(i + 1).drop_last() =~= s.take(i));
        lemma_sum_of_nonneg(s.take(i), f);
    } else {
        assert(s.take(i) =~= s);
        lemma_sum_of_nonneg(s, f);
    }
}

/// A sum is never negative when `f` is never negative on the elements summed.
pub proof fn lemma_sum_of_within_nonneg<A>(s: Seq<A>, f: spec_fn(A) -> int)
    requires
        forall|j: int| 0 <= j < s.len() ==> #[trigger] f(s[j]) >= 0,
    ensures
        sum_of(s, f) >= 0,
    decreases s.len(),
{
    if s.len() > 0 {
        assert forall|j: int| 0 <= j < s.drop_last().len() implies #[trigger] f(s.drop_last()[j]) >= 0 by {
            assert(s.drop_last()[j] == s[j]);
        }
        lemma_sum_of_within_nonneg(s.drop_last(), f);
        assert(f(s[s.len() - 1]) >= 0);
    }
}

/// A prefix sum lies between zero and the whole sum when `f` is never
/// negative on the elements summed.
pub proof fn lemma_sum_of_prefix_within<A>(s: Seq<A>, f: spec_fn(A) -> int, i: int)
    requires
        0 <= i <= s.len(),
        forall|j: int| 0 <= j < s.len() ==> #[trigger] f(s[j]) >= 0,
    ensures
        0 <= sum_of(s.take(i), f) <= sum_of(s, f),
    decreases s.len() - i,
{
    assert forall|j: int| 0 <= j < s.take(i).len() implies #[trigger] f(s.take(i)[j]) >= 0 by {
        assert(s.take(i)[j] == s[j]);
    }
    lemma_sum_of_within_nonneg(s.take(i), f);
    if i < s.len() {
        lemma_sum_of_prefix_within(s, f, i + 1);
        assert(s.take(i + 1).drop_last() =~= s.take(i));
        assert(f(s[i]) >= 0);
    } else {
        assert(s.take(i) =~= s);
    }
}

pub proof fn lemma_sum_of_nonneg<A>(s: Seq<A>, f: spec_fn(A) -> int)
    requires
        forall|a: A| #[trigger] f(a) >= 0,
    ensures
        sum_of(s, f) >= 0,
    decreases s.len(),
{
    if s.len() > 0 {
        lemma_sum_of_nonneg(s.drop_last(), f);
    }
}

/// The sum over a sequence with one more element at its end.
pub proof fn lemma_sum_of_push<A>(s: Seq<A>, f: spec_fn(A) -> int, a: A)
    ensures
        sum_of(s.push(a), f) == sum_of(s, f) + f(a),
{
    assert(s.push(a).drop_last() =~= s);
}

/// Sums over two sequences that agree pointwise under `f` and `g` are equal.
pub proof fn lemma_sum_of_pointwise<A, B>(s: Seq<A>, f: spec_fn(A) -> int, t: Seq<B>, g: spec_fn(B) -> int)
    requires
        s.len() == t.len(),
        forall|i: int| 0 <= i < s.len() ==> f(#[trigger] s[i]) == g(t[i]),
    ensures
        sum_of(s, f) == sum_of(t, g),
    decreases s.len(),
{
    if s.len() > 0 {
        lemma_sum_of_pointwise(s.drop_last(), f, t.drop_last(), g);
        assert(f(s[s.len() - 1]) == g(t[t.len() - 1]));
    }
}

/// The sum of the counters, when it does not overflow.
pub fn sum_counters(v: &Vec<u64>) -> (total: u64)
    requires
        sum_u64(v@) <= u64::MAX,
    ensures
        total == sum_u64(v@),
{
    let mut total: u64 = 0;
    let mut i: usize = 0;
    while i < v.len()
        invariant
            i <= v@.len(),
            total == sum_u64(v@.take(i as int)),
            sum_u64(v@) <= u64::MAX,
        decreases v@.len() - i,
    {
        proof {
            lemma_sum_u64_prefix(v@, i as int + 1);
            assert(v@.take(i as int + 1).drop_last() =~= v@.take(i as int));
        }
        total = total + v[i];
        i = i + 1;
    }
    assert(v@.take(v@.len() as int) =~= v@);
    total
}

/// Adds up the durations from the first to the last, when no partial sum leaves the range.
pub fn sum_durations(v: &Vec<Duration>) -> (total: Duration)
    requires
        all_wf(v@),
        fold_durations(v@) is Some,
    ensures
        total.wf(),
        total.nanos == fold_durations(v@).unwrap(),
{
    let mut total = Duration::zero();
    let mut i: usize = 0;
    while i < v.len()
        invariant
            i <= v@.len(),
            all_wf(v@),
            fold_durations(v@) is Some,
            fold_durations(v@.take(i as int)) == Some(total.nanos as int),
            total.wf(),
        decreases v@.len() - i,
    {
        proof {
            lemma_fold_prefix_some(v@, i as int + 1);
            assert(v@.take(i as int + 1).drop_last() =~= v@.take(i as int));
        }
        total = total.plus(&v[i]);
        i = i + 1;
    }
    assert(v@.take(v@.len() as int) =~= v@);
    total
}

/// When the fold succeeds, so does the fold of every prefix.
pub proof fn lemma_fold_prefix_some(s: Seq<Duration>, i: int)
    requires
        0 <= i <= s.len(),
        fold_durations(s) is Some,
    ensures
        fold_durations(s.take(i)) is Some,
    decreases s.len() - i,
{
    if i < s.len() {
        lemma_fold_prefix_some(s, i + 1);
        assert(s.take(i + 1).drop_last() =~= s.take(i));
    } else {
        assert(s.take(i) =~= s);
    }
}

/// Zero durations fold to zero.
pub proof fn lemma_fold_zeros(s: Seq<Duration>)
    requires
        forall|i: int| 0 <= i < s.len() ==> s[i].nanos == 0,
    ensures
        fold_durations(s) == Some(0int),
    decreases s.len(),
{
    if s.len() > 0 {
        lemma_fold_zeros(s.drop_last());
    }
}

/// Changing one element changes the sum by the difference of `f` at it.
pub proof fn lemma_sum_of_update<A>(s: Seq<A>, f: spec_fn(A) -> int, i: int, a: A)
    requires
        0 <= i < s.len(),
    ensures
        sum_of(s.update(i, a), f) == sum_of(s, f) - f(s[i]) + f(a),
    decreases s.len(),
{
    if i == s.len() - 1 {
        assert(s.update(i, a).drop_last() =~= s.drop_last());
    } else {
        lemma_sum_of_update(s.drop_last(), f, i, a);
        assert(s.update(i, a).drop_last() =~= s.drop_last().update(i, a));
    }
}

/// A sum of zeros is zero.
pub proof fn lemma_sum_of_zero<A>(s: Seq<A>)
    ensures
        sum_of(s, |a: A| 0int) == 0,
    decreases s.len(),
{
    if s.len() > 0 {
        lemma_sum_of_zero(s.drop_last());
    }
}

/// The sum of two functions is the sum of their sums.
pub proof fn lemma_sum_of_add<A>(s: Seq<A>, f: spec_fn(A) -> int, h: spec_fn(A) -> int)
    ensures
        sum_of(s, |a: A| f(a) + h(a)) == sum_of(s, f) + sum_of(s, h),
    decreases s.len(),
{
    if s.len() > 0 {
        lemma_sum_of_add(s.drop_last(), f, h);
    }
}

/// Adding up a table row by row gives what adding it up column by column gives.
pub proof fn lemma_sum_exchange<A, B>(rows: Seq<A>, columns: Seq<B>, g: spec_fn(A, B) -> int)
    ensures
        sum_of(rows, |r: A| sum_of(columns, |c: B| g(r, c)))
            == sum_of(columns, |c: B| sum_of(rows, |r: A| g(r, c))),
    decreases rows.len(),
{
    if rows.len() == 0 {
        lemma_sum_of_zero(columns);
        lemma_sum_of_pointwise(
            columns,
            |c: B| sum_of(rows, |r: A| g(r, c)),
            columns,
            |c: B| 0int,
        );
    } else {
        let fewer = rows.drop_last();
        let x = rows.last();
        lemma_sum_exchange(fewer, columns, g);
        let f = |c: B| sum_of(fewer, |r: A| g(r, c));
        let h = |c: B| g(x, c);
        lemma_sum_of_add(columns, f, h);
        lemma_sum_of_pointwise(
            columns,
            |c: B| sum_of(rows, |r: A| g(r, c)),
            columns,
            |c: B| f(c) + h(c),
        );
    }
}

/// The sum of a sequence of counters is the sum, over its positions, of the
/// counter at each position.
pub proof fn lemma_sum_u64_by_position(s: Seq<u64>)
    ensures
        sum_u64(s) == sum_of(
            Seq::new(s.len(), |i: int| i),
            |z: int| if 0 <= z < s.len() { s[z] as int } else { 0 },
        ),
    decreases s.len(),
{
    let n = s.len();
    let positions = Seq::new(n, |i: int| i);
    let f = |z: int| if 0 <= z < s.len() { s[z] as int } else { 0 };
    if n > 0 {
        let t = s.drop_last();
        let fewer = Seq::new(t.len(), |i: int| i);
        let g = |z: int| if 0 <= z < t.len() { t[z] as int } else { 0 };
        lemma_sum_u64_by_position(t);
        assert(positions.drop_last() =~= fewer);
        lemma_sum_of_pointwise(fewer, g, fewer, f);
        assert(positions.last() == n - 1);
    } else {
        assert(positions =~= Seq::<int>::empty());
    }
}

} // verus!
