//! The construction object: the dynamic enforcement of the protocol.
//!
//! The object starts in the all-absent state; supplying a field sets its
//! presence bit and stores its value (resupplying overwrites the value and
//! keeps the bit set), and finalize succeeds exactly from the valid presence
//! states, composing the result per field from the supplied value, the
//! default, or the absence sentinel.

use vstd::prelude::*;
use crate::schema::{Field, Requirement};
use crate::validity::{nth_bit, mask_valid, field_ok, first_violation, lemma_or_bit, lemma_zero_mask};

verus! {

/// Which constraint a finalize call from an invalid state found violated.
#[derive(Debug, PartialEq, Eq)]
pub enum ViolationKind {
    /// An `Always` field is missing.
    AlwaysMissing,
    /// A `Conditional` field is missing while its condition is true.
    ConditionalMissing,
    /// An `OptionalIf` field is missing while its condition is false.
    OptionalIfMissing,
}

/// The error of a finalize call from an invalid presence state: the
/// lowest-indexed violated field, by index and name, and the kind of its
/// unsatisfied constraint.
#[derive(Debug, PartialEq, Eq)]
pub struct ConstructionError {
    pub field_index: usize,
    pub field_name: Vec<u8>,
    pub kind: ViolationKind,
}

/// The kind of constraint whose violation a missing value of a field with
/// this requirement causes.
pub open spec fn violation_kind_of(r: Requirement) -> ViolationKind {
    match r {
        Requirement::Always => ViolationKind::AlwaysMissing,
        Requirement::Conditional(_) => ViolationKind::ConditionalMissing,
        _ => ViolationKind::OptionalIfMissing,
    }
}

/// The mathematical state of a construction object.
pub struct BuilderView<V> {
    pub fields: Seq<Field<V>>,
    pub values: Seq<Option<V>>,
    pub mask: u64,
}

/// A construction object: the schema, the values supplied so far, and the
/// presence mask.
pub struct Builder<V> {
    fields: Vec<Field<V>>,
    values: Vec<Option<V>>,
    mask: u64,
}

/// The value finalize yields for field `i`: the supplied value if present;
/// else the default for a `Default` field; else the absence sentinel.
pub open spec fn finalized_value<V>(fields: Seq<Field<V>>, values: Seq<Option<V>>, i: int) -> Option<
    V,
>
    recommends
        0 <= i < fields.len(),
        fields.len() == values.len(),
{
    if values[i] is Some {
        values[i]
    } else {
        match fields[i].requirement {
            Requirement::Default => fields[i].default,
            _ => None,
        }
    }
}

impl<V> View for Builder<V> {
    type V = BuilderView<V>;

    closed spec fn view(&self) -> BuilderView<V> {
        BuilderView { fields: self.fields@, values: self.values@, mask: self.mask }
    }
}

impl<V> Builder<V> {
    /// Well-formedness: one value slot per field, and the mask mirrors which
    /// slots are filled; bits beyond the field count are clear.
    pub open spec fn wf(&self) -> bool {
        &&& self@.values.len() == self@.fields.len()
        &&& self@.fields.len() <= 64
        &&& forall|i: int|
            0 <= i < self@.fields.len() ==> nth_bit(self@.mask, i as u64) == (self@.values[i]
                is Some)
        &&& forall|i: u64| self@.fields.len() <= i < 64 ==> !nth_bit(self@.mask, i)
    }

    /// A fresh construction object over a schema: the all-absent state.
    pub fn new(fields: Vec<Field<V>>) -> (b: Builder<V>)
        requires
            fields@.len() <= 64,
        ensures
            b.wf(),
            b@.fields == fields@,
            b@.mask == 0u64,
            b@.values.len() == fields@.len(),
            forall|i: int| 0 <= i < fields@.len() ==> b@.values[i] is None,
    {
        let mut values: Vec<Option<V>> = Vec::new();
        let mut i: usize = 0;
        let n = fields.len();
        while i < n
            invariant
                i <= n,
                values@.len() == i,
                forall|k: int| 0 <= k < i ==> values@[k] is None,
            decreases n - i,
        {
            values.push(None);
            i += 1;
        }
        proof {
            assert forall|k: u64| k < 64 implies !nth_bit(0u64, k) by {
                lemma_zero_mask(k);
            }
        }
        Builder { fields, values, mask: 0 }
    }

    /// The number of fields of the schema.
    pub fn field_count(&self) -> (n: usize)
        ensures
            n == self@.fields.len(),
    {
        self.fields.len()
    }

    /// The current presence mask.
    pub fn mask(&self) -> (m: u64)
        ensures
            m == self@.mask,
    {
        self.mask
    }

    /// The supply transition of field `index`: available from every state,
    /// in any order; it stores the value (overwriting any earlier one) and
    /// sets the field's presence bit.
    pub fn supply(&mut self, index: usize, value: V)
        requires
            old(self).wf(),
            index < old(self)@.fields.len(),
        ensures
            final(self).wf(),
            final(self)@.fields == old(self)@.fields,
            final(self)@.mask == old(self)@.mask | (1u64 << index as u64),
            final(self)@.values == old(self)@.values.update(index as int, Some(value)),
    {
        self.values.set(index, Some(value));
        let ghost m0: u64 = self.mask;
        self.mask = self.mask | (1u64 << (index as u64));
        proof {
            let idx: u64 = index as u64;
            let m1: u64 = self.mask;
            let n = self@.fields.len() as int;
            assert forall|i: int| 0 <= i < n implies nth_bit(m1, i as u64) == (self@.values[i]
                is Some) by {
                lemma_or_bit(m0, idx, i as u64);
            }
            assert forall|i: u64| n <= i < 64 implies !nth_bit(m1, i) by {
                assert(!nth_bit(old(self)@.mask, i));
                lemma_or_bit(m0, idx, i);
            }
        }
    }

    /// Whether finalize is available from the current state.
    pub fn is_finalizable(&self) -> (r: bool)
        requires
            self.wf(),
        ensures
            r == mask_valid(self@.fields, self@.mask),
    {
        match first_violation(&self.fields, self.mask) {
            None => true,
            Some(_) => false,
        }
    }

    /// The finalize operation. From a valid presence state it yields, per
    /// field, the supplied value if present, else the default for a
    /// `Default` field, else the absence sentinel. From an invalid state it
    /// fails, naming the lowest-indexed violated field and its unsatisfied
    /// constraint.
    pub fn finalize(self) -> (r: Result<Vec<Option<V>>, ConstructionError>)
        requires
            self.wf(),
        ensures
            match r {
                Ok(out) => {
                    &&& mask_valid(self@.fields, self@.mask)
                    &&& out@.len() == self@.fields.len()
                    &&& forall|i: int|
                        0 <= i < out@.len() ==> out@[i] == finalized_value(
                            self@.fields,
                            self@.values,
                            i,
                        )
                },
                Err(e) => {
                    &&& !mask_valid(self@.fields, self@.mask)
                    &&& 0 <= e.field_index < self@.fields.len()
                    &&& !field_ok(self@.fields, self@.mask, e.field_index as int)
                    &&& forall|j: int|
                        0 <= j < e.field_index ==> field_ok(self@.fields, self@.mask, j)
                    &&& e.field_name@ == self@.fields[e.field_index as int].name@
                    &&& e.kind == violation_kind_of(
                        self@.fields[e.field_index as int].requirement,
                    )
                },
            },
    {
        let ghost fields0 = self.fields@;
        let ghost values0 = self.values@;
        match first_violation(&self.fields, self.mask) {
            Some(i) => {
                let name = crate::condition::copy_bytes(&self.fields[i].name);
                let kind = match &self.fields[i].requirement {
                    Requirement::Always => ViolationKind::AlwaysMissing,
                    Requirement::Conditional(_) => ViolationKind::ConditionalMissing,
                    _ => ViolationKind::OptionalIfMissing,
                };
                proof {
                    assert(!field_ok(fields0, self.mask, i as int));
                }
                Err(ConstructionError { field_index: i, field_name: name, kind })
            }
            None => {
                let mut fields = self.fields;
                let mut values = self.values;
                let mut out: Vec<Option<V>> = Vec::new();
                let n = fields.len();
                let mut i: usize = 0;
                proof {
                    assert(fields@ =~= fields0.subrange(0, n as int));
                    assert(values@ =~= values0.subrange(0, n as int));
                }
                while i < n
                    invariant
                        i <= n,
                        fields0.len() == n,
                        values0.len() == n,
                        fields@ == fields0.subrange(i as int, n as int),
                        values@ == values0.subrange(i as int, n as int),
                        out@.len() == i,
                        forall|k: int|
                            0 <= k < i ==> out@[k] == finalized_value(fields0, values0, k),
                    decreases n - i,
                {
                    let f = fields.remove(0);
                    let v = values.remove(0);
                    let next = match v {
                        Some(x) => Some(x),
                        None => {
                            match f.requirement {
                                Requirement::Default => f.default,
                                _ => None,
                            }
                        }
                    };
                    proof {
                        assert(fields0.subrange(i as int, n as int)[0] == fields0[i as int]);
                        assert(values0.subrange(i as int, n as int)[0] == values0[i as int]);
                    }
                    out.push(next);
                    i += 1;
                    proof {
                        assert(fields@ =~= fields0.subrange(i as int, n as int));
                        assert(values@ =~= values0.subrange(i as int, n as int));
                    }
                }
                Ok(out)
            }
        }
    }
}

} // verus!
