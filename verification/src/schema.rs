//! The field schema: names, presence requirements and schema-time errors.

use vstd::prelude::*;
use crate::condition::{Condition, CondView, bytes_eq, copy_bytes};

verus! {

/// The rule governing whether and when a field must be supplied before
/// finalize.
#[derive(Debug, PartialEq, Eq)]
pub enum Requirement {
    /// Must be supplied before finalize.
    Always,
    /// May or may not be supplied; absent means the "no value" sentinel.
    Optional,
    /// May be supplied; if absent, finalize substitutes the field's default.
    Default,
    /// Must be supplied iff the condition is true over the other fields'
    /// presence (the field's own presence is excluded from the context).
    Conditional(Condition),
    /// May be absent iff the condition is true over the other fields'
    /// presence; otherwise must be supplied.
    OptionalIf(Condition),
}

impl Requirement {
    /// Whether a field with this requirement can legally end up without a
    /// value, so its declared value type must be able to represent absence.
    pub open spec fn spec_optional_capable(self) -> bool {
        match self {
            Requirement::Optional => true,
            Requirement::Conditional(_) => true,
            Requirement::OptionalIf(_) => true,
            Requirement::Always => false,
            Requirement::Default => false,
        }
    }

    /// Executable twin of [`Requirement::spec_optional_capable`].
    pub fn optional_capable(&self) -> (r: bool)
        ensures
            r == self.spec_optional_capable(),
    {
        match self {
            Requirement::Optional => true,
            Requirement::Conditional(_) => true,
            Requirement::OptionalIf(_) => true,
            Requirement::Always => false,
            Requirement::Default => false,
        }
    }
}

/// One construction attribute of a schema: a unique name, the requirement,
/// the value (of the generic value type `V`) substituted at finalize when a
/// `Default` field was left absent, whether the setter converts its argument
/// into the field's value type, and whether the declared value type can
/// represent absence.
#[derive(Debug)]
pub struct Field<V> {
    pub name: Vec<u8>,
    pub requirement: Requirement,
    pub default: Option<V>,
    pub into_setter: bool,
    pub optional_value_type: bool,
}

/// An error detected at schema-normalization time; any of these aborts
/// generation before state-space work begins.
#[derive(Debug, PartialEq, Eq)]
pub enum SchemaError {
    /// A condition mentions a name that no declared field carries.
    UnknownFieldReference(Vec<u8>),
    /// A field's own condition mentions the field itself.
    SelfReference(Vec<u8>),
    /// More than one requirement kind was declared on one field.
    MultipleRequirements,
    /// No requirement kind was declared on a field.
    MissingRequirement,
    /// An optional-capable requirement sits on a field whose value type
    /// cannot represent absence.
    NonOptionalType(Vec<u8>),
    /// A condition string is not in the boolean-expression surface syntax.
    MalformedCondition,
}

/// The mathematical model of a [`SchemaError`].
pub enum SchemaErrorView {
    UnknownFieldReference(Seq<u8>),
    SelfReference(Seq<u8>),
    MultipleRequirements,
    MissingRequirement,
    NonOptionalType(Seq<u8>),
    MalformedCondition,
}

impl View for SchemaError {
    type V = SchemaErrorView;

    open spec fn view(&self) -> SchemaErrorView {
        match self {
            SchemaError::UnknownFieldReference(n) => SchemaErrorView::UnknownFieldReference(n@),
            SchemaError::SelfReference(n) => SchemaErrorView::SelfReference(n@),
            SchemaError::MultipleRequirements => SchemaErrorView::MultipleRequirements,
            SchemaError::MissingRequirement => SchemaErrorView::MissingRequirement,
            SchemaError::NonOptionalType(n) => SchemaErrorView::NonOptionalType(n@),
            SchemaError::MalformedCondition => SchemaErrorView::MalformedCondition,
        }
    }
}

/// The requirement-kind declarations found on one field, before
/// normalization: the two plain flags, the two condition strings in the
/// surface syntax, and whether a default was declared.
#[derive(Debug)]
pub struct FieldDeclaration {
    pub required: bool,
    pub optional: bool,
    pub required_if: Option<Vec<u8>>,
    pub optional_if: Option<Vec<u8>>,
    pub has_default: bool,
}

impl FieldDeclaration {
    /// How many requirement kinds the declaration carries.
    pub open spec fn declared_count(self) -> int {
        (if self.required {
            1int
        } else {
            0int
        }) + (if self.optional {
            1int
        } else {
            0int
        }) + (if self.required_if is Some {
            1int
        } else {
            0int
        }) + (if self.optional_if is Some {
            1int
        } else {
            0int
        }) + (if self.has_default {
            1int
        } else {
            0int
        })
    }

    /// Normalizes the declaration into the one requirement it carries.
    /// More than one declared kind, or none, is a schema error; a condition
    /// string not in the surface syntax is a schema error too.
    pub fn requirement(&self) -> (r: Result<Requirement, SchemaError>)
        ensures
            self.declared_count() > 1 ==> r matches Err(SchemaError::MultipleRequirements),
            self.declared_count() == 0 ==> r matches Err(SchemaError::MissingRequirement),
            self.declared_count() == 1 && self.has_default ==> r matches Ok(Requirement::Default),
            self.declared_count() == 1 ==> (self.optional_if matches Some(src)
                ==> match crate::parse::spec_parse_condition(src@) {
                Some(cv) => r matches Ok(Requirement::OptionalIf(c)) && c@ == cv,
                None => r matches Err(SchemaError::MalformedCondition),
            }),
            self.declared_count() == 1 ==> (self.required_if matches Some(src)
                ==> match crate::parse::spec_parse_condition(src@) {
                Some(cv) => r matches Ok(Requirement::Conditional(c)) && c@ == cv,
                None => r matches Err(SchemaError::MalformedCondition),
            }),
            self.declared_count() == 1 && self.required ==> r matches Ok(Requirement::Always),
            self.declared_count() == 1 && self.optional ==> r matches Ok(Requirement::Optional),
    {
        let mut count: u8 = 0;
        if self.required {
            count += 1;
        }
        if self.optional {
            count += 1;
        }
        if self.required_if.is_some() {
            count += 1;
        }
        if self.optional_if.is_some() {
            count += 1;
        }
        if self.has_default {
            count += 1;
        }
        if count > 1 {
            return Err(SchemaError::MultipleRequirements);
        }
        if self.has_default {
            Ok(Requirement::Default)
        } else if let Some(src) = &self.optional_if {
            match crate::parse::parse_condition(src) {
                Ok(c) => Ok(Requirement::OptionalIf(c)),
                Err(e) => Err(e),
            }
        } else if let Some(src) = &self.required_if {
            match crate::parse::parse_condition(src) {
                Ok(c) => Ok(Requirement::Conditional(c)),
                Err(e) => Err(e),
            }
        } else if self.required {
            Ok(Requirement::Always)
        } else if self.optional {
            Ok(Requirement::Optional)
        } else {
            Err(SchemaError::MissingRequirement)
        }
    }
}

/// The set of names declared by a schema.
pub open spec fn names_set<V>(fields: Seq<Field<V>>) -> Set<Seq<u8>> {
    Set::new(|n: Seq<u8>| exists|j: int| 0 <= j < fields.len() && fields[j].name@ == n)
}

/// The first fault, depth-first and left-to-right, among the atoms of the
/// condition of the field named `own`: the field naming itself, or a name no
/// declared field carries.
pub open spec fn first_atom_fault(c: CondView, own: Seq<u8>, known: Set<Seq<u8>>) -> Option<
    SchemaErrorView,
>
    decreases c,
{
    match c {
        CondView::Atom(name) => if name == own {
            Some(SchemaErrorView::SelfReference(name))
        } else if !known.contains(name) {
            Some(SchemaErrorView::UnknownFieldReference(name))
        } else {
            None
        },
        CondView::Not(e) => first_atom_fault(*e, own, known),
        CondView::And(a, b) => if first_atom_fault(*a, own, known) is Some {
            first_atom_fault(*a, own, known)
        } else {
            first_atom_fault(*b, own, known)
        },
        CondView::Or(a, b) => if first_atom_fault(*a, own, known) is Some {
            first_atom_fault(*a, own, known)
        } else {
            first_atom_fault(*b, own, known)
        },
    }
}

/// The schema-level fault of field `i`, if any: first the atoms of its
/// condition, in condition order, then the requirement/value-type
/// consistency rule.
pub open spec fn field_schema_fault<V>(fields: Seq<Field<V>>, i: int) -> Option<SchemaErrorView>
    recommends
        0 <= i < fields.len(),
{
    let f = fields[i];
    let cond_fault = match f.requirement {
        Requirement::Conditional(c) => first_atom_fault(c@, f.name@, names_set(fields)),
        Requirement::OptionalIf(c) => first_atom_fault(c@, f.name@, names_set(fields)),
        _ => None,
    };
    if cond_fault is Some {
        cond_fault
    } else if f.requirement.spec_optional_capable() && !f.optional_value_type {
        Some(SchemaErrorView::NonOptionalType(f.name@))
    } else {
        None
    }
}

/// The first schema fault at or after field `i`, in field order.
pub open spec fn schema_fault_from<V>(fields: Seq<Field<V>>, i: int) -> Option<SchemaErrorView>
    decreases fields.len() - i,
{
    if i < 0 || i >= fields.len() {
        None
    } else if field_schema_fault(fields, i) is Some {
        field_schema_fault(fields, i)
    } else {
        schema_fault_from(fields, i + 1)
    }
}

/// Whether a schema is free of schema-time faults.
pub open spec fn schema_ok<V>(fields: Seq<Field<V>>) -> bool {
    schema_fault_from(fields, 0) is None
}

/// Whether some declared field carries this name.
pub fn field_name_exists<V>(fields: &Vec<Field<V>>, name: &Vec<u8>) -> (r: bool)
    ensures
        r == names_set(fields@).contains(name@),
{
    let mut j: usize = 0;
    while j < fields.len()
        invariant
            j <= fields@.len(),
            forall|k: int| 0 <= k < j ==> fields@[k].name@ != name@,
        decreases fields@.len() - j,
    {
        if bytes_eq(&fields[j].name, name) {
            return true;
        }
        j += 1;
    }
    false
}

/// Walks a condition of the field named `own`, depth-first and
/// left-to-right, and fails on the first atom that names the field itself or
/// a field that does not exist.
fn check_condition_atoms<V>(condition: &Condition, own: &Vec<u8>, fields: &Vec<Field<V>>) -> (r:
    Result<(), SchemaError>)
    ensures
        match r {
            Ok(()) => first_atom_fault(condition@, own@, names_set(fields@)) is None,
            Err(e) => first_atom_fault(condition@, own@, names_set(fields@)) == Some(e@),
        },
    decreases *condition,
{
    match condition {
        Condition::Atom(name) => {
            if bytes_eq(name, own) {
                Err(SchemaError::SelfReference(copy_bytes(name)))
            } else if !field_name_exists(fields, name) {
                Err(SchemaError::UnknownFieldReference(copy_bytes(name)))
            } else {
                Ok(())
            }
        }
        Condition::Not(e) => check_condition_atoms(&*e, own, fields),
        Condition::And(a, b) => {
            let ra = check_condition_atoms(&*a, own, fields);
            match ra {
                Err(e) => Err(e),
                Ok(()) => check_condition_atoms(&*b, own, fields),
            }
        }
        Condition::Or(a, b) => {
            let ra = check_condition_atoms(&*a, own, fields);
            match ra {
                Err(e) => Err(e),
                Ok(()) => check_condition_atoms(&*b, own, fields),
            }
        }
    }
}

/// Validates a schema: every condition atom must name another declared
/// field, and every field whose requirement can leave it without a value
/// must have a value type that can represent absence. Fails with the first
/// fault in field order; detected before any state-space work, and any fault
/// aborts generation entirely.
pub fn validate_schema<V>(fields: &Vec<Field<V>>) -> (r: Result<(), SchemaError>)
    ensures
        match r {
            Ok(()) => schema_ok(fields@),
            Err(e) => schema_fault_from(fields@, 0) == Some(e@),
        },
{
    let mut i: usize = 0;
    while i < fields.len()
        invariant
            i <= fields@.len(),
            schema_fault_from(fields@, 0) == schema_fault_from(fields@, i as int),
        decreases fields@.len() - i,
    {
        let r = match &fields[i].requirement {
            Requirement::Conditional(c) => check_condition_atoms(c, &fields[i].name, fields),
            Requirement::OptionalIf(c) => check_condition_atoms(c, &fields[i].name, fields),
            _ => Ok(()),
        };
        match r {
            Err(e) => {
                return Err(e);
            }
            Ok(()) => {}
        }
        if fields[i].requirement.optional_capable() && !fields[i].optional_value_type {
            return Err(SchemaError::NonOptionalType(copy_bytes(&fields[i].name)));
        }
        i += 1;
    }
    Ok(())
}

} // verus!
