//! The construction-protocol generator.
//!
//! From a validated schema it derives the observable construction protocol:
//! one state per presence mask, one setter per field available from every
//! state, and a finalize operation available exactly from the valid masks,
//! together with the per-field composition rule applied there (supplied,
//! defaulted, or absent).

use vstd::prelude::*;
use crate::condition::copy_bytes;
use crate::schema::{Field, Requirement, SchemaError, schema_ok, schema_fault_from, validate_schema};
use crate::validity::{nth_bit, bit_test, valid_masks_below, enumerate_valid_masks};

verus! {

/// How finalize composes one field of the result in a given valid state.
#[derive(Debug, PartialEq, Eq, Clone, Copy)]
pub enum Composition {
    /// The field was supplied; its stored value is used.
    Supplied,
    /// The field is a `Default` field left absent; its default is used.
    Defaulted,
    /// The field is of an optional-capable kind and was left absent; the
    /// absence sentinel is used.
    Absent,
}

/// The shape of one field's setter: the field it fills, whether it converts
/// its argument into the field's value type, and whether its argument is the
/// value type unwrapped from its absence-capable container.
#[derive(Debug, PartialEq, Eq)]
pub struct SetterShape {
    pub field_name: Vec<u8>,
    pub accepts_into: bool,
    pub unwraps_optional: bool,
}

/// The mathematical model of a [`SetterShape`].
pub struct SetterShapeView {
    pub field_name: Seq<u8>,
    pub accepts_into: bool,
    pub unwraps_optional: bool,
}

impl View for SetterShape {
    type V = SetterShapeView;

    open spec fn view(&self) -> SetterShapeView {
        SetterShapeView {
            field_name: self.field_name@,
            accepts_into: self.accepts_into,
            unwraps_optional: self.unwraps_optional,
        }
    }
}

/// The observable construction protocol of a schema: the setter shapes, the
/// validity table (all valid masks, ascending), and per valid mask the
/// per-field composition rule of its finalize operation.
#[derive(Debug, PartialEq, Eq)]
pub struct Protocol {
    pub setters: Vec<SetterShape>,
    pub valid_masks: Vec<u64>,
    pub compositions: Vec<Vec<Composition>>,
}

/// The mathematical model of a [`Protocol`].
pub struct ProtocolView {
    pub setters: Seq<SetterShapeView>,
    pub valid_masks: Seq<u64>,
    pub compositions: Seq<Seq<Composition>>,
}

impl View for Protocol {
    type V = ProtocolView;

    open spec fn view(&self) -> ProtocolView {
        ProtocolView {
            setters: self.setters@.map_values(|s: SetterShape| s@),
            valid_masks: self.valid_masks@,
            compositions: self.compositions@.map_values(|row: Vec<Composition>| row@),
        }
    }
}

/// How finalize from state `mask` composes field `i`.
pub open spec fn composition_of<V>(fields: Seq<Field<V>>, mask: u64, i: int) -> Composition
    recommends
        0 <= i < fields.len(),
{
    if nth_bit(mask, i as u64) {
        Composition::Supplied
    } else if fields[i].requirement is Default {
        Composition::Defaulted
    } else {
        Composition::Absent
    }
}

/// What it means for a protocol to be the one a schema describes.
pub open spec fn protocol_matches<V>(fields: Seq<Field<V>>, p: ProtocolView) -> bool {
    &&& p.setters.len() == fields.len()
    &&& forall|i: int|
        0 <= i < fields.len() ==> {
            &&& (#[trigger] p.setters[i]).field_name == fields[i].name@
            &&& p.setters[i].accepts_into == fields[i].into_setter
            &&& p.setters[i].unwraps_optional == fields[i].requirement.spec_optional_capable()
        }
    &&& p.valid_masks == valid_masks_below(fields, (1u64 << fields.len() as u64) as int)
    &&& p.compositions.len() == p.valid_masks.len()
    &&& forall|k: int|
        0 <= k < p.valid_masks.len() ==> (#[trigger] p.compositions[k]).len() == fields.len()
    &&& forall|k: int, i: int|
        0 <= k < p.valid_masks.len() && 0 <= i < fields.len() ==> #[trigger] p.compositions[k][i]
            == composition_of(fields, p.valid_masks[k], i)
}

/// One generation pass: validates the schema and, when it is fault-free,
/// derives the construction protocol. A schema fault aborts generation
/// entirely; no partial protocol is emitted.
pub fn generate_protocol<V>(fields: &Vec<Field<V>>) -> (r: Result<Protocol, SchemaError>)
    requires
        fields@.len() < 64,
    ensures
        match r {
            Ok(p) => schema_ok(fields@) && protocol_matches(fields@, p@),
            Err(e) => !schema_ok(fields@) && schema_fault_from(fields@, 0) == Some(e@),
        },
{
    match validate_schema(fields) {
        Err(e) => {
            return Err(e);
        }
        Ok(()) => {}
    }
    let n = fields.len();

    let mut setters: Vec<SetterShape> = Vec::new();
    let mut i: usize = 0;
    while i < n
        invariant
            i <= n,
            n == fields@.len(),
            setters@.len() == i,
            forall|j: int|
                0 <= j < i ==> {
                    &&& (#[trigger] setters@[j])@.field_name == fields@[j].name@
                    &&& setters@[j]@.accepts_into == fields@[j].into_setter
                    &&& setters@[j]@.unwraps_optional
                        == fields@[j].requirement.spec_optional_capable()
                },
        decreases n - i,
    {
        setters.push(
            SetterShape {
                field_name: copy_bytes(&fields[i].name),
                accepts_into: fields[i].into_setter,
                unwraps_optional: fields[i].requirement.optional_capable(),
            },
        );
        i += 1;
    }

    let valid_masks = enumerate_valid_masks(fields);

    let mut compositions: Vec<Vec<Composition>> = Vec::new();
    let mut k: usize = 0;
    while k < valid_masks.len()
        invariant
            k <= valid_masks@.len(),
            n == fields@.len(),
            n < 64,
            compositions@.len() == k,
            forall|q: int| 0 <= q < k ==> (#[trigger] compositions@[q])@.len() == fields@.len(),
            forall|q: int, j: int|
                0 <= q < k && 0 <= j < fields@.len() ==> #[trigger] compositions@[q]@[j]
                    == composition_of(fields@, valid_masks@[q], j),
        decreases valid_masks@.len() - k,
    {
        let mask = valid_masks[k];
        let mut row: Vec<Composition> = Vec::new();
        let mut j: usize = 0;
        while j < n
            invariant
                j <= n,
                n == fields@.len(),
                n < 64,
                row@.len() == j,
                forall|q: int| 0 <= q < j ==> row@[q] == composition_of(fields@, mask, q),
            decreases n - j,
        {
            let c = if bit_test(mask, j as u64) {
                Composition::Supplied
            } else {
                match &fields[j].requirement {
                    Requirement::Default => Composition::Defaulted,
                    _ => Composition::Absent,
                }
            };
            row.push(c);
            j += 1;
        }
        compositions.push(row);
        k += 1;
    }

    let p = Protocol { setters, valid_masks, compositions };
    proof {
        assert(p@.setters.len() == fields@.len());
        assert(p@.compositions.len() == p@.valid_masks.len());
    }
    Ok(p)
}

/// Generation is deterministic: a schema describes exactly one protocol, so
/// repeated generation passes over an identical schema yield an identical
/// validity table and protocol description.
pub proof fn lemma_generation_deterministic<V>(
    fields: Seq<Field<V>>,
    p1: ProtocolView,
    p2: ProtocolView,
)
    requires
        protocol_matches(fields, p1),
        protocol_matches(fields, p2),
    ensures
        p1 == p2,
{
    assert(p1.setters =~= p2.setters);
    assert(p1.compositions =~~= p2.compositions);
}

} // verus!
