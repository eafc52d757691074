//! The metric registry.
//!
//! A registry owns uniquely named metric families in registration
//! order. Registration of a duplicate name fails and changes nothing;
//! observations are directed at a family by its registration index.

use vstd::prelude::*;
use crate::family::FamilyModel;
use crate::family::MetricFamily;
use crate::family::tuple_view;
use crate::MetricsError;

verus! {

/// Mathematical model of a registry: its families in registration
/// order.
#[verifier::ext_equal]
pub ghost struct RegistryModel {
    /// The registered families, in registration order.
    pub families: Seq<FamilyModel>,
}

impl RegistryModel {
    /// Well-formedness: every family is well-formed and no metric name
    /// repeats.
    pub open spec fn wf(self) -> bool {
        &&& forall|i: int| 0 <= i < self.families.len() ==> (#[trigger] self.families[i]).wf()
        &&& forall|i: int, j: int|
            0 <= i < j < self.families.len() ==> self.families[i].name != self.families[j].name
    }

    /// Whether some family is registered under `name`.
    pub open spec fn has_name(self, name: Seq<char>) -> bool {
        exists|i: int|
            0 <= i < self.families.len() && (#[trigger] self.families[i]).name == name
    }
}

/// A collection of uniquely named metric families.
pub struct Registry {
    families: Vec<MetricFamily>,
}

impl View for Registry {
    type V = RegistryModel;

    closed spec fn view(&self) -> RegistryModel {
        RegistryModel { families: self.families@.map_values(|f: MetricFamily| f@) }
    }
}

impl Registry {
    /// An empty registry.
    pub fn new() -> (r: Registry)
        ensures
            r@.wf(),
            r@.families == Seq::<FamilyModel>::empty(),
    {
        let r = Registry { families: Vec::new() };
        proof {
            assert(r@.families =~= Seq::<FamilyModel>::empty());
        }
        r
    }

    /// The number of registered families.
    pub fn num_families(&self) -> (n: usize)
        ensures
            n == self@.families.len(),
    {
        self.families.len()
    }

    /// The family at index `i`, in registration order.
    pub fn family(&self, i: usize) -> (f: &MetricFamily)
        requires
            i < self@.families.len(),
        ensures
            f@ == self@.families[i as int],
    {
        &self.families[i]
    }

    /// Registers `family`.
    ///
    /// Fails with `DuplicateMetricName`, leaving the registry unchanged,
    /// exactly when a family with the same name is already registered;
    /// otherwise the family is appended in registration order.
    pub fn register(&mut self, family: MetricFamily) -> (r: Result<(), MetricsError>)
        requires
            old(self)@.wf(),
            family@.wf(),
        ensures
            final(self)@.wf(),
            r is Err <==> old(self)@.has_name(family@.name),
            r is Err ==> r == Err::<(), MetricsError>(MetricsError::DuplicateMetricName)
                && final(self)@ == old(self)@,
            r is Ok ==> final(self)@.families == old(self)@.families.push(family@),
    {
        let n = self.families.len();
        let mut i: usize = 0;
        while i < n
            invariant
                old(self)@.wf(),
                self@ == old(self)@,
                n == self.families@.len(),
                i <= n,
                self@.families.len() == n,
                forall|k: int|
                    0 <= k < n ==> self@.families[k] == (#[trigger] self.families@[k])@,
                forall|k: int| 0 <= k < i ==> self@.families[k].name != family@.name,
            decreases n - i,
        {
            if self.families[i].name().eq(family.name()) {
                assert(old(self)@.has_name(family@.name));
                return Err(MetricsError::DuplicateMetricName);
            }
            i = i + 1;
        }
        self.families.push(family);
        proof {
            assert(self@.families =~= old(self)@.families.push(family@));
            assert forall|p: int, q: int|
                0 <= p < q < self@.families.len() implies self@.families[p].name
                != self@.families[q].name by {
                if q == self@.families.len() - 1 {
                    assert(self@.families[p] == old(self)@.families[p]);
                }
            }
        }
        Ok(())
    }

    /// The registration index of the family named `name`, if any.
    pub fn find_family(&self, name: &String) -> (r: Option<usize>)
        ensures
            match r {
                Some(i) => i < self@.families.len() && self@.families[i as int].name == name@,
                None => !self@.has_name(name@),
            },
    {
        let n = self.families.len();
        let mut i: usize = 0;
        while i < n
            invariant
                n == self.families@.len(),
                i <= n,
                self@.families.len() == n,
                forall|k: int|
                    0 <= k < n ==> self@.families[k] == (#[trigger] self.families@[k])@,
                forall|k: int| 0 <= k < i ==> self@.families[k].name != name@,
            decreases n - i,
        {
            if self.families[i].name().eq(name) {
                return Some(i);
            }
            i = i + 1;
        }
        None
    }

    /// Records `value` under `label_values` into the family at
    /// `family_index`.
    ///
    /// Fails with `LabelCardinalityMismatch`, changing nothing, exactly
    /// when the tuple's arity differs from that family's declared label
    /// names; otherwise only that family absorbs the observation.
    pub fn observe(&mut self, family_index: usize, label_values: &Vec<String>, value: u64) -> (r:
        Result<(), MetricsError>)
        requires
            old(self)@.wf(),
            family_index < old(self)@.families.len(),
            old(self)@.families[family_index as int].can_observe(tuple_view(label_values@), value),
        ensures
            final(self)@.wf(),
            r is Err <==> label_values@.len() != old(self)@.families[
                family_index as int
            ].label_names.len(),
            r is Err ==> r == Err::<(), MetricsError>(MetricsError::LabelCardinalityMismatch)
                && final(self)@ == old(self)@,
            r is Ok ==> final(self)@.families == old(self)@.families.update(
                family_index as int,
                old(self)@.families[family_index as int].observed(tuple_view(label_values@), value),
            ),
    {
        let ghost oldm = self@;
        let mut fam = self.families.remove(family_index);
        let r = fam.observe(label_values, value);
        self.families.insert(family_index, fam);
        proof {
            let i = family_index as int;
            if r is Err {
                assert(self@.families =~= oldm.families);
                assert(self@ =~= oldm);
            } else {
                assert(self@.families =~= oldm.families.update(
                    i,
                    oldm.families[i].observed(tuple_view(label_values@), value),
                ));
                assert forall|p: int, q: int|
                    0 <= p < q < self@.families.len() implies self@.families[p].name
                    != self@.families[q].name by {
                    assert(oldm.families[p].name != oldm.families[q].name);
                    assert(self@.families[p].name == oldm.families[p].name);
                    assert(self@.families[q].name == oldm.families[q].name);
                }
            }
        }
        r
    }

    /// Whether recording `value` under `label_values` into the family at
    /// `family_index` stays within the counters' range.
    pub fn can_observe(&self, family_index: usize, label_values: &Vec<String>, value: u64) -> (r:
        bool)
        requires
            self@.wf(),
            family_index < self@.families.len(),
        ensures
            r == self@.families[family_index as int].can_observe(tuple_view(label_values@), value),
    {
        proof {
            assert(self@.families[family_index as int] == self.families@[family_index as int]@);
            assert(self@.families[family_index as int].wf());
        }
        self.families[family_index].can_observe(label_values, value)
    }
}

} // verus!
