//! Label-keyed metric families.
//!
//! A family owns a metric name, a help string, declared label names and
//! one bucket histogram per distinct label tuple, created on the first
//! observation with that tuple and never removed. All children share the
//! family's bucket boundaries. Tuples are kept in first-created order,
//! which fixes the order of the text exposition.

use vstd::prelude::*;
use crate::histogram::Histogram;
use crate::histogram::HistogramModel;
use crate::histogram::strictly_ascending;
use crate::MetricsError;

verus! {

/// The view of a label tuple: its label values as character sequences.
pub open spec fn tuple_view(t: Seq<String>) -> Seq<Seq<char>> {
    t.map_values(|s: String| s@)
}

/// The first index at which `ts` holds `t`, or `-1` when it does not.
pub open spec fn index_of_tuple(ts: Seq<Seq<Seq<char>>>, t: Seq<Seq<char>>) -> int
    decreases ts.len(),
{
    if ts.len() == 0 {
        -1
    } else if ts[0] == t {
        0
    } else {
        let r = index_of_tuple(ts.drop_first(), t);
        if r == -1 {
            -1
        } else {
            r + 1
        }
    }
}

/// `index_of_tuple` returns a valid index holding `t`, or `-1` exactly
/// when `t` occurs nowhere.
pub proof fn lemma_index_of_tuple(ts: Seq<Seq<Seq<char>>>, t: Seq<Seq<char>>)
    ensures
        -1 <= index_of_tuple(ts, t) < ts.len(),
        index_of_tuple(ts, t) >= 0 ==> ts[index_of_tuple(ts, t)] == t,
        index_of_tuple(ts, t) == -1 ==> forall|i: int| 0 <= i < ts.len() ==> ts[i] != t,
    decreases ts.len(),
{
    if ts.len() > 0 {
        lemma_index_of_tuple(ts.drop_first(), t);
        if index_of_tuple(ts, t) == -1 {
            assert forall|i: int| 0 <= i < ts.len() implies ts[i] != t by {
                if i > 0 {
                    assert(ts.drop_first()[i - 1] == ts[i]);
                }
            }
        }
    }
}

/// When `t` first occurs at `i`, `index_of_tuple` returns `i`.
pub proof fn lemma_index_of_first_match(ts: Seq<Seq<Seq<char>>>, t: Seq<Seq<char>>, i: int)
    requires
        0 <= i < ts.len(),
        ts[i] == t,
        forall|k: int| 0 <= k < i ==> ts[k] != t,
    ensures
        index_of_tuple(ts, t) == i,
    decreases i,
{
    if i > 0 {
        assert forall|k: int| 0 <= k < i - 1 implies ts.drop_first()[k] != t by {
            assert(ts.drop_first()[k] == ts[k + 1]);
        }
        assert(ts.drop_first()[i - 1] == ts[i]);
        lemma_index_of_first_match(ts.drop_first(), t, i - 1);
    }
}

/// Appending an absent tuple places it at the old length.
pub proof fn lemma_index_of_push(ts: Seq<Seq<Seq<char>>>, t: Seq<Seq<char>>)
    requires
        index_of_tuple(ts, t) == -1,
    ensures
        index_of_tuple(ts.push(t), t) == ts.len(),
    decreases ts.len(),
{
    if ts.len() == 0 {
        assert(ts.push(t)[0] == t);
    } else {
        assert(ts.push(t)[0] == ts[0]);
        assert(ts.push(t).drop_first() =~= ts.drop_first().push(t));
        lemma_index_of_tuple(ts.drop_first(), t);
        lemma_index_of_push(ts.drop_first(), t);
    }
}

/// An empty histogram over `boundaries`.
pub open spec fn empty_hist(boundaries: Seq<u64>) -> HistogramModel {
    HistogramModel {
        boundaries,
        buckets: Seq::new(boundaries.len(), |i: int| 0u64),
        count: 0,
        sum: 0,
    }
}

/// Mathematical model of a metric family.
#[verifier::ext_equal]
pub ghost struct FamilyModel {
    /// The metric name.
    pub name: Seq<char>,
    /// The help text emitted with the family.
    pub help: Seq<char>,
    /// The declared label names; every tuple has one value per name.
    pub label_names: Seq<Seq<char>>,
    /// The bucket boundaries shared by every child histogram.
    pub boundaries: Seq<u64>,
    /// The distinct label tuples, in first-created order.
    pub tuples: Seq<Seq<Seq<char>>>,
    /// One histogram per tuple, parallel to `tuples`.
    pub children: Seq<HistogramModel>,
}

impl FamilyModel {
    /// Well-formedness: ascending boundaries, one well-formed child per
    /// tuple over the family's boundaries, every tuple of the declared
    /// arity, and no tuple twice.
    pub open spec fn wf(self) -> bool {
        &&& strictly_ascending(self.boundaries)
        &&& self.children.len() == self.tuples.len()
        &&& forall|i: int| 0 <= i < self.children.len() ==> (#[trigger] self.children[i]).wf()
        &&& forall|i: int|
            0 <= i < self.children.len() ==> (#[trigger] self.children[i]).boundaries
                == self.boundaries
        &&& forall|i: int|
            0 <= i < self.tuples.len() ==> (#[trigger] self.tuples[i]).len()
                == self.label_names.len()
        &&& forall|i: int, j: int| 0 <= i < j < self.tuples.len() ==> self.tuples[i] != self.tuples[j]
    }

    /// The index of the child keyed by `t`, or `-1` when none exists.
    pub open spec fn tuple_index(self, t: Seq<Seq<char>>) -> int {
        index_of_tuple(self.tuples, t)
    }

    /// Whether recording `value` under `t` stays within the counters'
    /// range of the child the observation would reach.
    pub open spec fn can_observe(self, t: Seq<Seq<char>>, value: u64) -> bool {
        if self.tuple_index(t) >= 0 {
            self.children[self.tuple_index(t)].can_observe(value)
        } else {
            true
        }
    }

    /// The state after recording `value` under `t`: the existing child
    /// for `t` absorbs the observation, or a fresh child is appended
    /// holding just this observation.
    pub open spec fn observed(self, t: Seq<Seq<char>>, value: u64) -> FamilyModel {
        let i = self.tuple_index(t);
        if i >= 0 {
            FamilyModel {
                children: self.children.update(i, self.children[i].observed(value)),
                ..self
            }
        } else {
            FamilyModel {
                tuples: self.tuples.push(t),
                children: self.children.push(empty_hist(self.boundaries).observed(value)),
                ..self
            }
        }
    }
}

/// A metric family: named histograms keyed by label tuples.
pub struct MetricFamily {
    name: String,
    help: String,
    label_names: Vec<String>,
    boundaries: Vec<u64>,
    tuples: Vec<Vec<String>>,
    children: Vec<Histogram>,
}

impl View for MetricFamily {
    type V = FamilyModel;

    closed spec fn view(&self) -> FamilyModel {
        FamilyModel {
            name: self.name@,
            help: self.help@,
            label_names: tuple_view(self.label_names@),
            boundaries: self.boundaries@,
            tuples: self.tuples@.map_values(|t: Vec<String>| tuple_view(t@)),
            children: self.children@.map_values(|h: Histogram| h@),
        }
    }
}

/// Whether two label tuples hold the same values.
fn tuples_equal(a: &Vec<String>, b: &Vec<String>) -> (r: bool)
    ensures
        r == (tuple_view(a@) == tuple_view(b@)),
{
    if a.len() != b.len() {
        assert(tuple_view(a@).len() != tuple_view(b@).len());
        return false;
    }
    let n = a.len();
    let mut i: usize = 0;
    while i < n
        invariant
            n == a@.len() == b@.len(),
            i <= n,
            forall|k: int| 0 <= k < i ==> (#[trigger] a@[k])@ == b@[k]@,
        decreases n - i,
    {
        if !(a[i] == b[i]) {
            assert(tuple_view(a@)[i as int] != tuple_view(b@)[i as int]);
            return false;
        }
        i = i + 1;
    }
    assert(tuple_view(a@) =~= tuple_view(b@));
    true
}

impl MetricFamily {
    /// A family with no series yet, over ascending bucket boundaries.
    pub fn new(name: String, help: String, label_names: Vec<String>, boundaries: Vec<u64>) -> (f:
        MetricFamily)
        requires
            strictly_ascending(boundaries@),
        ensures
            f@.wf(),
            f@ == (FamilyModel {
                name: name@,
                help: help@,
                label_names: tuple_view(label_names@),
                boundaries: boundaries@,
                tuples: Seq::empty(),
                children: Seq::empty(),
            }),
    {
        let f = MetricFamily {
            name,
            help,
            label_names,
            boundaries,
            tuples: Vec::new(),
            children: Vec::new(),
        };
        proof {
            assert(f@.tuples =~= Seq::<Seq<Seq<char>>>::empty());
            assert(f@.children =~= Seq::<HistogramModel>::empty());
        }
        f
    }

    /// The index of the series keyed by `label_values`, if it exists.
    fn find_tuple(&self, label_values: &Vec<String>) -> (r: Option<usize>)
        ensures
            match r {
                Some(i) => i < self@.tuples.len() && i == self@.tuple_index(
                    tuple_view(label_values@),
                ),
                None => self@.tuple_index(tuple_view(label_values@)) == -1,
            },
    {
        let ghost t = tuple_view(label_values@);
        let n = self.tuples.len();
        let mut i: usize = 0;
        while i < n
            invariant
                n == self.tuples@.len(),
                i <= n,
                t == tuple_view(label_values@),
                self@.tuples.len() == n,
                forall|k: int| 0 <= k < n ==> self@.tuples[k] == tuple_view((#[trigger] self.tuples@[k])@),
                forall|k: int| 0 <= k < i ==> self@.tuples[k] != t,
            decreases n - i,
        {
            if tuples_equal(&self.tuples[i], label_values) {
                proof {
                    lemma_index_of_first_match(self@.tuples, t, i as int);
                }
                return Some(i);
            }
            i = i + 1;
        }
        proof {
            lemma_index_of_tuple(self@.tuples, t);
            if self@.tuple_index(t) >= 0 {
                assert(self@.tuples[self@.tuple_index(t)] == t);
            }
        }
        None
    }

    /// Records `value` under the tuple `label_values`.
    ///
    /// Fails with `LabelCardinalityMismatch`, leaving every series
    /// untouched, exactly when the tuple's arity differs from the
    /// declared label names; otherwise the tuple's series (created here
    /// on first use) absorbs the observation.
    pub fn observe(&mut self, label_values: &Vec<String>, value: u64) -> (r: Result<
        (),
        MetricsError,
    >)
        requires
            old(self)@.wf(),
            old(self)@.can_observe(tuple_view(label_values@), value),
        ensures
            final(self)@.wf(),
            r is Err <==> label_values@.len() != old(self)@.label_names.len(),
            r is Err ==> r == Err::<(), MetricsError>(MetricsError::LabelCardinalityMismatch)
                && final(self)@ == old(self)@,
            r is Ok ==> final(self)@ == old(self)@.observed(tuple_view(label_values@), value),
    {
        if label_values.len() != self.label_names.len() {
            assert(tuple_view(label_values@).len() == label_values@.len());
            return Err(MetricsError::LabelCardinalityMismatch);
        }
        let ghost t = tuple_view(label_values@);
        let ghost oldm = self@;
        match self.find_tuple(label_values) {
            Some(i) => {
                proof {
                    lemma_index_of_tuple(oldm.tuples, t);
                }
                let mut child = self.children.remove(i);
                child.observe(value);
                self.children.insert(i, child);
                proof {
                    assert(self@.children =~= oldm.children.update(
                        i as int,
                        oldm.children[i as int].observed(value),
                    ));
                    assert(self@.tuples =~= oldm.tuples);
                    assert(self@ == oldm.observed(t, value));
                    crate::histogram::lemma_observed_wf(oldm.children[i as int], value);
                }
            },
            None => {
                proof {
                    lemma_index_of_tuple(oldm.tuples, t);
                }
                let boundaries = copy_u64_vec(&self.boundaries);
                let mut child = Histogram::new(boundaries);
                assert(child@ =~= empty_hist(oldm.boundaries));
                child.observe(value);
                let mut tuple: Vec<String> = Vec::new();
                let mut j: usize = 0;
                let n = label_values.len();
                while j < n
                    invariant
                        n == label_values@.len(),
                        j <= n,
                        tuple@.len() == j,
                        forall|k: int| 0 <= k < j ==> (#[trigger] tuple@[k])@ == label_values@[k]@,
                    decreases n - j,
                {
                    tuple.push(label_values[j].clone());
                    j = j + 1;
                }
                assert(tuple_view(tuple@) =~= t);
                self.tuples.push(tuple);
                self.children.push(child);
                proof {
                    assert(self@.tuples =~= oldm.tuples.push(t));
                    assert(self@.children =~= oldm.children.push(
                        empty_hist(oldm.boundaries).observed(value),
                    ));
                    assert(self@ == oldm.observed(t, value));
                    lemma_observe_new_tuple_wf(oldm, t, value);
                }
            },
        }
        Ok(())
    }

    /// Whether recording `value` under `label_values` stays within the
    /// counters' range of the series it would reach.
    pub fn can_observe(&self, label_values: &Vec<String>, value: u64) -> (r: bool)
        requires
            self@.wf(),
        ensures
            r == self@.can_observe(tuple_view(label_values@), value),
    {
        match self.find_tuple(label_values) {
            Some(i) => self.children[i].can_observe(value),
            None => true,
        }
    }

    /// The metric name.
    pub fn name(&self) -> (r: &String)
        ensures
            r@ == self@.name,
    {
        &self.name
    }

    /// The help text.
    pub fn help(&self) -> (r: &String)
        ensures
            r@ == self@.help,
    {
        &self.help
    }

    /// The declared label names.
    pub fn label_names(&self) -> (r: &Vec<String>)
        ensures
            tuple_view(r@) == self@.label_names,
    {
        &self.label_names
    }

    /// The shared bucket boundaries, in thousandths of a unit.
    pub fn boundaries(&self) -> (r: &Vec<u64>)
        ensures
            r@ == self@.boundaries,
    {
        &self.boundaries
    }

    /// The number of series (distinct label tuples) so far.
    pub fn num_series(&self) -> (n: usize)
        ensures
            n == self@.tuples.len(),
    {
        self.tuples.len()
    }

    /// The label tuple of series `i`, in first-created order.
    pub fn series_labels(&self, i: usize) -> (r: &Vec<String>)
        requires
            i < self@.tuples.len(),
        ensures
            tuple_view(r@) == self@.tuples[i as int],
    {
        &self.tuples[i]
    }

    /// The histogram of series `i`.
    pub fn series(&self, i: usize) -> (r: &Histogram)
        requires
            i < self@.children.len(),
        ensures
            r@ == self@.children[i as int],
    {
        &self.children[i]
    }
}

/// A fresh copy of a vector of strings, equal value for value.
pub fn copy_string_vec(v: &Vec<String>) -> (r: Vec<String>)
    ensures
        r@.len() == v@.len(),
        forall|k: int| 0 <= k < v@.len() ==> (#[trigger] r@[k])@ == v@[k]@,
        tuple_view(r@) == tuple_view(v@),
{
    let mut r: Vec<String> = Vec::new();
    let n = v.len();
    let mut i: usize = 0;
    while i < n
        invariant
            n == v@.len(),
            i <= n,
            r@.len() == i,
            forall|k: int| 0 <= k < i ==> (#[trigger] r@[k])@ == v@[k]@,
        decreases n - i,
    {
        r.push(v[i].clone());
        i = i + 1;
    }
    assert(tuple_view(r@) =~= tuple_view(v@));
    r
}

/// A fresh copy of a vector of counters or boundaries.
pub fn copy_u64_vec(v: &Vec<u64>) -> (r: Vec<u64>)
    ensures
        r@ == v@,
{
    let mut r: Vec<u64> = Vec::new();
    let n = v.len();
    let mut i: usize = 0;
    while i < n
        invariant
            n == v@.len(),
            i <= n,
            r@ =~= v@.subrange(0, i as int),
        decreases n - i,
    {
        r.push(v[i]);
        i = i + 1;
    }
    assert(r@ =~= v@);
    r
}

/// Observing a fresh tuple preserves well-formedness: the new child is
/// well-formed over the family's boundaries and the new tuple is unlike
/// every older one.
proof fn lemma_observe_new_tuple_wf(f: FamilyModel, t: Seq<Seq<char>>, value: u64)
    requires
        f.wf(),
        f.tuple_index(t) == -1,
        t.len() == f.label_names.len(),
    ensures
        f.observed(t, value).wf(),
{
    lemma_index_of_tuple(f.tuples, t);
    let e = empty_hist(f.boundaries);
    assert(e.wf());
    crate::histogram::lemma_observed_wf(e, value);
    let fo = f.observed(t, value);
    assert(fo.tuples == f.tuples.push(t));
    assert forall|i: int, j: int| 0 <= i < j < fo.tuples.len() implies fo.tuples[i] != fo.tuples[j] by {
        if j == fo.tuples.len() - 1 {
            assert(fo.tuples[i] == f.tuples[i]);
            assert(fo.tuples[j] == t);
        } else {
            assert(fo.tuples[i] == f.tuples[i]);
            assert(fo.tuples[j] == f.tuples[j]);
        }
    }
}

/// The family state after recording each value of `vs` in order, all
/// under the tuple `t`.
pub open spec fn family_observed_seq(f: FamilyModel, t: Seq<Seq<char>>, vs: Seq<u64>) -> FamilyModel
    decreases vs.len(),
{
    if vs.len() == 0 {
        f
    } else {
        family_observed_seq(f.observed(t, vs[0]), t, vs.drop_first())
    }
}

/// Observations under a tuple that already has a child fold into that
/// child alone: the tuples and every other child stay as they were.
proof fn lemma_family_seq_existing(f: FamilyModel, t: Seq<Seq<char>>, vs: Seq<u64>)
    requires
        0 <= f.tuple_index(t) < f.children.len(),
    ensures
        family_observed_seq(f, t, vs).tuples == f.tuples,
        family_observed_seq(f, t, vs).children.len() == f.children.len(),
        family_observed_seq(f, t, vs).children[f.tuple_index(t)] == crate::histogram::observed_seq(
            f.children[f.tuple_index(t)],
            vs,
        ),
        forall|j: int|
            0 <= j < f.children.len() && j != f.tuple_index(t) ==> family_observed_seq(
                f,
                t,
                vs,
            ).children[j] == f.children[j],
    decreases vs.len(),
{
    if vs.len() > 0 {
        let i = f.tuple_index(t);
        let f1 = f.observed(t, vs[0]);
        assert(f1.tuples == f.tuples);
        assert(f1.tuple_index(t) == i);
        assert(f1.children[i] == f.children[i].observed(vs[0]));
        lemma_family_seq_existing(f1, t, vs.drop_first());
        assert(family_observed_seq(f, t, vs) == family_observed_seq(f1, t, vs.drop_first()));
        assert forall|j: int|
            0 <= j < f.children.len() && j != i implies family_observed_seq(f, t, vs).children[j]
            == f.children[j] by {
            assert(f1.children[j] == f.children[j]);
            assert(family_observed_seq(f1, t, vs.drop_first()).children[j] == f1.children[j]);
        }
    }
}

/// Law: all observations under one previously unseen label tuple land
/// in a single fresh child, whose total count is the number of
/// observations and whose running sum is their sum; no other series is
/// touched.
pub proof fn lemma_family_count_and_sum(f: FamilyModel, t: Seq<Seq<char>>, vs: Seq<u64>)
    requires
        f.wf(),
        f.tuple_index(t) == -1,
        vs.len() >= 1,
        vs.len() <= u64::MAX,
        crate::histogram::sum_of(vs) <= u64::MAX,
    ensures
        family_observed_seq(f, t, vs).tuples == f.tuples.push(t),
        family_observed_seq(f, t, vs).children.len() == f.children.len() + 1,
        family_observed_seq(f, t, vs).children[f.children.len() as int].count == vs.len(),
        family_observed_seq(f, t, vs).children[f.children.len() as int].sum
            == crate::histogram::sum_of(vs),
        forall|j: int|
            0 <= j < f.children.len() ==> family_observed_seq(f, t, vs).children[j]
                == f.children[j],
{
    let n = f.children.len() as int;
    let e = empty_hist(f.boundaries);
    let f1 = f.observed(t, vs[0]);
    lemma_index_of_push(f.tuples, t);
    assert(f1.tuples == f.tuples.push(t));
    assert(f1.tuple_index(t) == n);
    assert(f1.children[n] == e.observed(vs[0]));
    lemma_family_seq_existing(f1, t, vs.drop_first());
    assert(family_observed_seq(f, t, vs) == family_observed_seq(f1, t, vs.drop_first()));
    assert(family_observed_seq(f, t, vs).children[n] == crate::histogram::observed_seq(
        e.observed(vs[0]),
        vs.drop_first(),
    ));
    assert(crate::histogram::observed_seq(e, vs) == crate::histogram::observed_seq(
        e.observed(vs[0]),
        vs.drop_first(),
    ));
    crate::histogram::lemma_count_and_sum(e, vs);
    assert forall|j: int| 0 <= j < n implies family_observed_seq(f, t, vs).children[j]
        == f.children[j] by {
        assert(f1.children[j] == f.children[j]);
    }
}

/// Law: a label tuple owns at most one histogram. Once a tuple has been
/// observed, every further observation with it reaches that same child:
/// the set of tuples is unchanged and no new child is created.
pub proof fn lemma_one_child_per_tuple(f: FamilyModel, t: Seq<Seq<char>>, v1: u64, v2: u64)
    requires
        f.wf(),
        f.tuple_index(t) == -1,
        t.len() == f.label_names.len(),
    ensures
        f.observed(t, v1).tuple_index(t) == f.tuples.len(),
        f.observed(t, v1).observed(t, v2).tuples == f.observed(t, v1).tuples,
        f.observed(t, v1).children.len() == f.children.len() + 1,
        f.observed(t, v1).observed(t, v2).children.len() == f.children.len() + 1,
{
    lemma_index_of_push(f.tuples, t);
}

} // verus!
