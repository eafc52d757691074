//! Fixed-boundary bucket histograms.
//!
//! A histogram owns an ascending sequence of bucket boundaries fixed at
//! creation time, one cumulative counter per boundary, a total
//! observation count (which doubles as the implicit `+Inf` bucket) and a
//! running sum of observed values. Boundaries, observation values and
//! the sum are fixed-point numbers in thousandths of a unit.

use vstd::prelude::*;
use vstd::arithmetic::div_mod::lemma_div_is_ordered;
use vstd::arithmetic::div_mod::lemma_div_by_multiple;
use vstd::arithmetic::mul::lemma_mul_inequality;
use crate::text::SCALE;

verus! {

/// Whether the entries of `s` are strictly increasing.
pub open spec fn strictly_ascending(s: Seq<u64>) -> bool {
    forall|i: int, j: int| 0 <= i < j < s.len() ==> s[i] < s[j]
}

/// Mathematical model of a bucket histogram.
#[verifier::ext_equal]
pub ghost struct HistogramModel {
    /// Ascending bucket boundaries, in thousandths of a unit.
    pub boundaries: Seq<u64>,
    /// One cumulative counter per boundary: entry `i` counts every
    /// observation whose value was at most `boundaries[i]`.
    pub buckets: Seq<u64>,
    /// Total number of observations; also the implicit `+Inf` bucket.
    pub count: u64,
    /// Running sum of observed values, in thousandths of a unit.
    pub sum: u64,
}

impl HistogramModel {
    /// Well-formedness: one counter per boundary, strictly ascending
    /// boundaries, and cumulative counters that never decrease across
    /// increasing boundaries nor exceed the total count.
    pub open spec fn wf(self) -> bool {
        &&& self.buckets.len() == self.boundaries.len()
        &&& strictly_ascending(self.boundaries)
        &&& forall|i: int, j: int|
            0 <= i <= j < self.buckets.len() ==> self.buckets[i] <= self.buckets[j]
        &&& forall|i: int| 0 <= i < self.buckets.len() ==> self.buckets[i] <= self.count
    }

    /// Whether recording `value` stays within the counters' range.
    pub open spec fn can_observe(self, value: u64) -> bool {
        &&& self.count < u64::MAX
        &&& self.sum + value <= u64::MAX
    }

    /// The state after recording `value`: every counter whose boundary
    /// is at least `value` grows by one, as do the total count and (by
    /// `value`) the running sum.
    pub open spec fn observed(self, value: u64) -> HistogramModel {
        HistogramModel {
            boundaries: self.boundaries,
            buckets: Seq::new(
                self.buckets.len(),
                |i: int|
                    if value <= self.boundaries[i] {
                        (self.buckets[i] + 1) as u64
                    } else {
                        self.buckets[i]
                    },
            ),
            count: (self.count + 1) as u64,
            sum: (self.sum + value) as u64,
        }
    }
}

/// A bucket histogram with fixed boundaries and cumulative counters.
pub struct Histogram {
    boundaries: Vec<u64>,
    buckets: Vec<u64>,
    count: u64,
    sum: u64,
}

impl View for Histogram {
    type V = HistogramModel;

    closed spec fn view(&self) -> HistogramModel {
        HistogramModel {
            boundaries: self.boundaries@,
            buckets: self.buckets@,
            count: self.count,
            sum: self.sum,
        }
    }
}

impl Histogram {
    /// An empty histogram over the given ascending boundaries.
    pub fn new(boundaries: Vec<u64>) -> (h: Histogram)
        requires
            strictly_ascending(boundaries@),
        ensures
            h@.wf(),
            h@.boundaries == boundaries@,
            h@.buckets.len() == boundaries@.len(),
            forall|i: int| 0 <= i < h@.buckets.len() ==> h@.buckets[i] == 0,
            h@.count == 0,
            h@.sum == 0,
    {
        let n = boundaries.len();
        let mut buckets: Vec<u64> = Vec::new();
        while buckets.len() < n
            invariant
                buckets@.len() <= n,
                forall|i: int| 0 <= i < buckets@.len() ==> buckets@[i] == 0,
            decreases n - buckets@.len(),
        {
            buckets.push(0);
        }
        Histogram { boundaries, buckets, count: 0, sum: 0 }
    }

    /// Records one observation of `value`.
    pub fn observe(&mut self, value: u64)
        requires
            old(self)@.wf(),
            old(self)@.can_observe(value),
        ensures
            final(self)@.wf(),
            final(self)@ == old(self)@.observed(value),
    {
        let n = self.buckets.len();
        let mut i: usize = 0;
        while i < n
            invariant
                old(self)@.wf(),
                old(self)@.can_observe(value),
                n == self.buckets@.len(),
                i <= n,
                self.boundaries@ == old(self)@.boundaries,
                self.count == old(self)@.count,
                self.sum == old(self)@.sum,
                self.buckets@.len() == old(self)@.buckets.len(),
                forall|k: int|
                    0 <= k < i ==> self.buckets@[k] == old(self)@.observed(value).buckets[k],
                forall|k: int| i <= k < n ==> self.buckets@[k] == old(self)@.buckets[k],
            decreases n - i,
        {
            if value <= self.boundaries[i] {
                let b = self.buckets[i];
                assert(b <= old(self)@.count);
                self.buckets[i] = b + 1;
            }
            i = i + 1;
        }
        self.count = self.count + 1;
        self.sum = self.sum + value;
        assert(self@.buckets =~= old(self)@.observed(value).buckets);
        assert(self@ == old(self)@.observed(value));
        proof {
            lemma_observed_wf(old(self)@, value);
        }
    }

    /// Whether recording `value` stays within the counters' range.
    pub fn can_observe(&self, value: u64) -> (r: bool)
        ensures
            r == self@.can_observe(value),
    {
        self.count < u64::MAX && value <= u64::MAX - self.sum
    }

    /// The total number of observations recorded so far.
    pub fn count(&self) -> (c: u64)
        ensures
            c == self@.count,
    {
        self.count
    }

    /// The running sum of observed values, in thousandths of a unit.
    pub fn sum(&self) -> (s: u64)
        ensures
            s == self@.sum,
    {
        self.sum
    }

    /// The number of finite bucket boundaries.
    pub fn num_buckets(&self) -> (n: usize)
        ensures
            n == self@.buckets.len(),
    {
        self.buckets.len()
    }

    /// The cumulative counter of bucket `i`.
    pub fn bucket(&self, i: usize) -> (c: u64)
        requires
            i < self@.buckets.len(),
        ensures
            c == self@.buckets[i as int],
    {
        self.buckets[i]
    }

    /// The cumulative counters, one per boundary.
    pub fn buckets(&self) -> (r: &Vec<u64>)
        ensures
            r@ == self@.buckets,
    {
        &self.buckets
    }

    /// The boundary of bucket `i`, in thousandths of a unit.
    pub fn boundary(&self, i: usize) -> (b: u64)
        requires
            i < self@.boundaries.len(),
        ensures
            b == self@.boundaries[i as int],
    {
        self.boundaries[i]
    }
}

/// One exponential step: the previous boundary times the fixed-point
/// `factor`, floor-divided by the scale.
pub open spec fn expo_step(b: int, factor: int) -> int {
    b * factor / (SCALE as int)
}

/// The `k`-th exponential boundary: the fixed-point `start` with the
/// fixed-point `factor` applied `k` times.
pub open spec fn expo_at(start: int, factor: int, k: nat) -> int
    decreases k,
{
    if k == 0 {
        start
    } else {
        expo_step(expo_at(start, factor, (k - 1) as nat), factor)
    }
}

/// Whether exponential boundary generation succeeds: at least one
/// boundary is asked for, the start is positive, the factor exceeds one,
/// every boundary fits in a counter, and adjacent boundaries strictly
/// increase.
pub open spec fn expo_ok(start: int, factor: int, count: nat) -> bool {
    &&& count >= 1
    &&& start >= 1
    &&& factor > SCALE as int
    &&& forall|k: int| 0 <= k < count ==> #[trigger] expo_at(start, factor, k as nat) <= u64::MAX
    &&& forall|k: int|
        0 <= k < count - 1 ==> #[trigger] expo_at(start, factor, k as nat) < expo_at(
            start,
            factor,
            (k + 1) as nat,
        )
}

/// In a sequence whose adjacent entries strictly increase, any earlier
/// entry is smaller than any later one.
proof fn lemma_adjacent_ascending(s: Seq<u64>, i: int, j: int)
    requires
        forall|k: int| 0 <= k < s.len() - 1 ==> #[trigger] s[k] < s[k + 1],
        0 <= i < j < s.len(),
    ensures
        s[i] < s[j],
    decreases j - i,
{
    if i + 1 < j {
        lemma_adjacent_ascending(s, i, j - 1);
    }
}

/// Exponential bucket boundaries: `count` values starting at `start` and
/// growing by `factor` each step, all fixed-point in thousandths.
/// Returns `None` exactly when the parameters are invalid, a boundary
/// would overflow, or rounding would keep a step from strictly
/// increasing.
pub fn exponential_buckets(start: u64, factor: u64, count: usize) -> (r: Option<Vec<u64>>)
    ensures
        match r {
            Some(v) => {
                &&& expo_ok(start as int, factor as int, count as nat)
                &&& v@.len() == count
                &&& forall|k: int|
                    0 <= k < count ==> v@[k] == expo_at(start as int, factor as int, k as nat)
                &&& strictly_ascending(v@)
            },
            None => !expo_ok(start as int, factor as int, count as nat),
        },
{
    if count == 0 || start == 0 || factor <= SCALE {
        return None;
    }
    let mut v: Vec<u64> = Vec::new();
    let mut cur: u64 = start;
    v.push(cur);
    while v.len() < count
        invariant
            1 <= v@.len() <= count,
            start >= 1,
            factor > SCALE,
            cur == expo_at(start as int, factor as int, (v@.len() - 1) as nat),
            forall|k: int|
                0 <= k < v@.len() ==> v@[k] == expo_at(start as int, factor as int, k as nat),
            forall|k: int| 0 <= k < v@.len() - 1 ==> #[trigger] v@[k] < v@[k + 1],
        decreases count - v@.len(),
    {
        proof {
            assert((cur as int) * (factor as int) <= (u64::MAX as int) * (u64::MAX as int))
                by (nonlinear_arith)
                requires
                    0 <= cur as int <= u64::MAX as int,
                    0 <= factor as int <= u64::MAX as int,
            ;
            assert((u64::MAX as int) * (u64::MAX as int) < u128::MAX as int);
        }
        let wide: u128 = (cur as u128) * (factor as u128);
        let next_wide: u128 = wide / (SCALE as u128);
        let ghost len = v@.len() as int;
        assert(next_wide as int == expo_at(start as int, factor as int, len as nat));
        if next_wide > u64::MAX as u128 {
            assert(!expo_ok(start as int, factor as int, count as nat)) by {
                assert(expo_at(start as int, factor as int, len as nat) > u64::MAX);
            }
            return None;
        }
        let next = next_wide as u64;
        if next <= cur {
            assert(!expo_ok(start as int, factor as int, count as nat)) by {
                assert(expo_at(start as int, factor as int, len as nat) <= expo_at(
                    start as int,
                    factor as int,
                    (len - 1) as nat,
                ));
            }
            return None;
        }
        v.push(next);
        cur = next;
    }
    proof {
        assert forall|i: int, j: int| 0 <= i < j < v@.len() implies v@[i] < v@[j] by {
            lemma_adjacent_ascending(v@, i, j);
        }
        assert forall|k: int|
            0 <= k < count implies #[trigger] expo_at(start as int, factor as int, k as nat)
                <= u64::MAX by {
            assert(v@[k] == expo_at(start as int, factor as int, k as nat));
        }
        assert forall|k: int|
            0 <= k < count - 1 implies #[trigger] expo_at(start as int, factor as int, k as nat)
                < expo_at(start as int, factor as int, (k + 1) as nat) by {
            assert(v@[k] == expo_at(start as int, factor as int, k as nat));
            assert(v@[k + 1] == expo_at(start as int, factor as int, (k + 1) as nat));
            assert(v@[k] < v@[k + 1]);
        }
    }
    Some(v)
}

/// One exponential step at least doubles a positive boundary when the
/// factor is at least two.
proof fn lemma_expo_step_doubles(b: int, factor: int)
    requires
        b >= 1,
        factor >= 2 * (SCALE as int),
    ensures
        expo_step(b, factor) >= 2 * b,
{
    let s = SCALE as int;
    assert(b * (2 * s) <= b * factor) by {
        lemma_mul_inequality(2 * s, factor, b);
        assert((2 * s) * b == b * (2 * s)) by (nonlinear_arith);
        assert(factor * b == b * factor) by (nonlinear_arith);
    }
    assert(b * (2 * s) == (2 * b) * s) by (nonlinear_arith);
    lemma_div_is_ordered((2 * b) * s, b * factor, s);
    lemma_div_by_multiple(2 * b, s);
}

/// Law: with a positive start and a growth factor of at least two, every
/// exponential boundary is at least the start value and each boundary at
/// least doubles its predecessor, so the boundaries strictly increase.
pub proof fn lemma_expo_strictly_increasing(start: int, factor: int, k: nat)
    requires
        start >= 1,
        factor >= 2 * (SCALE as int),
    ensures
        expo_at(start, factor, k) >= start,
        expo_at(start, factor, (k + 1) as nat) >= 2 * expo_at(start, factor, k),
    decreases k,
{
    if k == 0 {
        lemma_expo_step_doubles(start, factor);
    } else {
        lemma_expo_strictly_increasing(start, factor, (k - 1) as nat);
        lemma_expo_step_doubles(expo_at(start, factor, k), factor);
    }
}

/// Recording an observation preserves well-formedness.
pub proof fn lemma_observed_wf(h: HistogramModel, value: u64)
    requires
        h.wf(),
        h.can_observe(value),
    ensures
        h.observed(value).wf(),
{
    let ob = h.observed(value);
    assert forall|p: int, q: int|
        0 <= p <= q < ob.buckets.len() implies ob.buckets[p] <= ob.buckets[q] by {
        assert(h.buckets[p] <= h.buckets[q]);
        assert(h.buckets[q] <= h.count);
        if p < q {
            assert(h.boundaries[p] < h.boundaries[q]);
        }
    }
    assert forall|p: int| 0 <= p < ob.buckets.len() implies ob.buckets[p] <= ob.count by {
        assert(h.buckets[p] <= h.count);
    }
}

/// The state after recording each value of `vs` in order.
pub open spec fn observed_seq(h: HistogramModel, vs: Seq<u64>) -> HistogramModel
    decreases vs.len(),
{
    if vs.len() == 0 {
        h
    } else {
        observed_seq(h.observed(vs[0]), vs.drop_first())
    }
}

/// The mathematical sum of the entries of `vs`.
pub open spec fn sum_of(vs: Seq<u64>) -> int
    decreases vs.len(),
{
    if vs.len() == 0 {
        0
    } else {
        vs[0] + sum_of(vs.drop_first())
    }
}

/// Every entry of a sum of unsigned values contributes non-negatively.
pub proof fn lemma_sum_of_nonneg(vs: Seq<u64>)
    ensures
        sum_of(vs) >= 0,
    decreases vs.len(),
{
    if vs.len() > 0 {
        lemma_sum_of_nonneg(vs.drop_first());
    }
}

/// Law: after any sequence of observations into one histogram, the total
/// count has grown by the number of observations and the running sum by
/// the sum of the observed values.
pub proof fn lemma_count_and_sum(h: HistogramModel, vs: Seq<u64>)
    requires
        h.count + vs.len() <= u64::MAX,
        h.sum + sum_of(vs) <= u64::MAX,
    ensures
        observed_seq(h, vs).count == h.count + vs.len(),
        observed_seq(h, vs).sum == h.sum + sum_of(vs),
    decreases vs.len(),
{
    if vs.len() > 0 {
        lemma_sum_of_nonneg(vs.drop_first());
        lemma_count_and_sum(h.observed(vs[0]), vs.drop_first());
    }
}

/// Law: in a well-formed histogram the cumulative bucket counters never
/// decrease across ascending boundaries, and none exceeds the total
/// count, which is the implicit `+Inf` bucket.
pub proof fn lemma_buckets_cumulative(h: HistogramModel, i: int, j: int)
    requires
        h.wf(),
        0 <= i <= j < h.buckets.len(),
    ensures
        h.buckets[i] <= h.buckets[j],
        h.buckets[j] <= h.count,
{
}

} // verus!
