//! Boolean conditions over field-presence variables.
//!
//! A condition is an expression tree whose atoms are field names; it is
//! evaluated against the set of names of the fields that have been supplied.
//! An atom whose name is not in that set evaluates to false, so a condition
//! can be evaluated over a partial context without error.

use vstd::prelude::*;

verus! {

/// A boolean expression over field-presence atoms: a field name, negation,
/// conjunction or disjunction. No other connectives exist.
#[derive(Debug, PartialEq, Eq)]
pub enum Condition {
    Atom(Vec<u8>),
    Not(Box<Condition>),
    And(Box<Condition>, Box<Condition>),
    Or(Box<Condition>, Box<Condition>),
}

/// The mathematical model of a condition: the same tree with atom names as
/// byte sequences.
pub enum CondView {
    Atom(Seq<u8>),
    Not(Box<CondView>),
    And(Box<CondView>, Box<CondView>),
    Or(Box<CondView>, Box<CondView>),
}

/// The model a condition denotes.
pub open spec fn cond_view(c: Condition) -> CondView
    decreases c,
{
    match c {
        Condition::Atom(name) => CondView::Atom(name@),
        Condition::Not(e) => CondView::Not(Box::new(cond_view(*e))),
        Condition::And(a, b) => CondView::And(Box::new(cond_view(*a)), Box::new(cond_view(*b))),
        Condition::Or(a, b) => CondView::Or(Box::new(cond_view(*a)), Box::new(cond_view(*b))),
    }
}

impl View for Condition {
    type V = CondView;

    open spec fn view(&self) -> CondView {
        cond_view(*self)
    }
}

/// Truth value of a condition over the set of names of the supplied fields:
/// an atom holds exactly when its name is in the set.
pub open spec fn holds(c: CondView, present: Set<Seq<u8>>) -> bool
    decreases c,
{
    match c {
        CondView::Atom(name) => present.contains(name),
        CondView::Not(e) => !holds(*e, present),
        CondView::And(a, b) => holds(*a, present) && holds(*b, present),
        CondView::Or(a, b) => holds(*a, present) || holds(*b, present),
    }
}

/// The set of field names a condition mentions.
pub open spec fn atoms(c: CondView) -> Set<Seq<u8>>
    decreases c,
{
    match c {
        CondView::Atom(name) => set![name],
        CondView::Not(e) => atoms(*e),
        CondView::And(a, b) => atoms(*a).union(atoms(*b)),
        CondView::Or(a, b) => atoms(*a).union(atoms(*b)),
    }
}

/// The truth value of a condition depends only on the atoms it mentions.
pub proof fn lemma_holds_depends_on_atoms(c: CondView, s1: Set<Seq<u8>>, s2: Set<Seq<u8>>)
    requires
        forall|n: Seq<u8>| atoms(c).contains(n) ==> s1.contains(n) == s2.contains(n),
    ensures
        holds(c, s1) == holds(c, s2),
    decreases c,
{
    match c {
        CondView::Atom(name) => {
            assert(atoms(c).contains(name));
        }
        CondView::Not(e) => {
            lemma_holds_depends_on_atoms(*e, s1, s2);
        }
        CondView::And(a, b) => {
            assert(forall|n: Seq<u8>| atoms(*a).contains(n) ==> atoms(c).contains(n));
            assert(forall|n: Seq<u8>| atoms(*b).contains(n) ==> atoms(c).contains(n));
            lemma_holds_depends_on_atoms(*a, s1, s2);
            lemma_holds_depends_on_atoms(*b, s1, s2);
        }
        CondView::Or(a, b) => {
            assert(forall|n: Seq<u8>| atoms(*a).contains(n) ==> atoms(c).contains(n));
            assert(forall|n: Seq<u8>| atoms(*b).contains(n) ==> atoms(c).contains(n));
            lemma_holds_depends_on_atoms(*a, s1, s2);
            lemma_holds_depends_on_atoms(*b, s1, s2);
        }
    }
}

/// The first atom, depth-first and left-to-right, whose name is not in
/// `known`; `None` when every atom is known.
pub open spec fn first_unknown_atom(c: CondView, known: Set<Seq<u8>>) -> Option<Seq<u8>>
    decreases c,
{
    match c {
        CondView::Atom(name) => if !known.contains(name) {
            Some(name)
        } else {
            None
        },
        CondView::Not(e) => first_unknown_atom(*e, known),
        CondView::And(a, b) => if first_unknown_atom(*a, known) is Some {
            first_unknown_atom(*a, known)
        } else {
            first_unknown_atom(*b, known)
        },
        CondView::Or(a, b) => if first_unknown_atom(*a, known) is Some {
            first_unknown_atom(*a, known)
        } else {
            first_unknown_atom(*b, known)
        },
    }
}

/// Checks that every atom of a condition names a declared field. Fails with
/// the first unknown reference found depth-first, left-to-right; collects no
/// further errors. Side-effect-free.
pub fn validate_condition_fields(condition: &Condition, known_fields: &Vec<Vec<u8>>) -> (r: Result<
    (),
    crate::schema::SchemaError,
>)
    ensures
        match r {
            Ok(()) => {
                &&& first_unknown_atom(condition@, set_of_names(known_fields@)) is None
                &&& forall|n: Seq<u8>|
                    atoms(condition@).contains(n) ==> set_of_names(known_fields@).contains(n)
            },
            Err(e) => {
                &&& e@ matches crate::schema::SchemaErrorView::UnknownFieldReference(n)
                    && first_unknown_atom(condition@, set_of_names(known_fields@)) == Some(n)
            },
        },
    decreases *condition,
{
    match condition {
        Condition::Atom(name) => {
            if contains_name(known_fields, name) {
                Ok(())
            } else {
                Err(crate::schema::SchemaError::UnknownFieldReference(copy_bytes(name)))
            }
        }
        Condition::Not(e) => validate_condition_fields(&*e, known_fields),
        Condition::And(a, b) => {
            let ra = validate_condition_fields(&*a, known_fields);
            match ra {
                Err(e) => Err(e),
                Ok(()) => validate_condition_fields(&*b, known_fields),
            }
        }
        Condition::Or(a, b) => {
            let ra = validate_condition_fields(&*a, known_fields);
            match ra {
                Err(e) => Err(e),
                Ok(()) => validate_condition_fields(&*b, known_fields),
            }
        }
    }
}

/// The set of names a list of names denotes.
pub open spec fn set_of_names(names: Seq<Vec<u8>>) -> Set<Seq<u8>> {
    Set::new(|n: Seq<u8>| exists|j: int| 0 <= j < names.len() && names[j]@ == n)
}

/// Whether a name occurs in a list of names.
pub fn contains_name(names: &Vec<Vec<u8>>, target: &Vec<u8>) -> (r: bool)
    ensures
        r == set_of_names(names@).contains(target@),
{
    let mut j: usize = 0;
    while j < names.len()
        invariant
            j <= names.len(),
            forall|k: int| 0 <= k < j ==> names@[k]@ != target@,
        decreases names.len() - j,
    {
        if bytes_eq(&names[j], target) {
            return true;
        }
        j += 1;
    }
    false
}

/// Evaluates a condition against a presence context given as the list of
/// names of the supplied fields. An atom missing from the context is false,
/// not an error; both operands of a connective are always evaluated, and the
/// result is deterministic and total over any condition and any context.
pub fn eval_condition(condition: &Condition, present: &Vec<Vec<u8>>) -> (r: bool)
    ensures
        r == holds(condition@, set_of_names(present@)),
    decreases *condition,
{
    match condition {
        Condition::Atom(name) => contains_name(present, name),
        Condition::Not(e) => !eval_condition(&*e, present),
        Condition::And(a, b) => {
            let l = eval_condition(&*a, present);
            let rgt = eval_condition(&*b, present);
            l && rgt
        }
        Condition::Or(a, b) => {
            let l = eval_condition(&*a, present);
            let rgt = eval_condition(&*b, present);
            l || rgt
        }
    }
}

/// Byte-wise equality of two names.
pub fn bytes_eq(a: &Vec<u8>, b: &Vec<u8>) -> (r: bool)
    ensures
        r == (a@ == b@),
{
    if a.len() != b.len() {
        return false;
    }
    let mut i: usize = 0;
    while i < a.len()
        invariant
            i <= a.len(),
            a@.len() == b@.len(),
            forall|k: int| 0 <= k < i ==> a@[k] == b@[k],
        decreases a.len() - i,
    {
        if a[i] != b[i] {
            return false;
        }
        i += 1;
    }
    proof {
        assert(a@ =~= b@);
    }
    true
}

/// A copy of a name.
pub fn copy_bytes(a: &Vec<u8>) -> (r: Vec<u8>)
    ensures
        r@ == a@,
{
    let mut r: Vec<u8> = Vec::new();
    let mut i: usize = 0;
    while i < a.len()
        invariant
            i <= a.len(),
            r@ == a@.subrange(0, i as int),
        decreases a.len() - i,
    {
        r.push(a[i]);
        i += 1;
        proof {
            assert(r@ =~= a@.subrange(0, i as int));
        }
    }
    proof {
        assert(r@ =~= a@);
    }
    r
}

} // verus!
