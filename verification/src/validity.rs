//! The state-space validator: classification of every presence mask as a
//! valid or invalid finalize state.
//!
//! A mask is a bit vector over the schema's fields, bit `i` set meaning
//! field `i` has been supplied. A mask is valid when no field's requirement
//! is violated: an `Always` field must have its bit set; a `Conditional`
//! field must have its bit set when its condition is true over the other
//! fields' presence; an `OptionalIf` field must have its bit set when its
//! condition is false over the other fields' presence. A field's own
//! presence bit is always excluded from the context its condition sees.

use vstd::prelude::*;
use crate::condition::{
    Condition,
    CondView,
    cond_view,
    holds,
    atoms,
    bytes_eq,
    lemma_holds_depends_on_atoms,
};
use crate::schema::{Field, Requirement};

verus! {

/// Whether bit `i` of `mask` is set.
pub open spec fn nth_bit(mask: u64, i: u64) -> bool {
    mask & (1u64 << i) != 0
}

/// Executable twin of [`nth_bit`].
pub fn bit_test(mask: u64, i: u64) -> (b: bool)
    requires
        i < 64,
    ensures
        b == nth_bit(mask, i),
{
    mask & (1u64 << i) != 0
}

/// Setting bit `i` leaves every other bit as it was.
pub proof fn lemma_or_bit(m: u64, i: u64, j: u64)
    requires
        i < 64,
        j < 64,
    ensures
        nth_bit(m | (1u64 << i), j) == (j == i || nth_bit(m, j)),
{
    assert(((m | (1u64 << i)) & (1u64 << j) != 0) == (j == i || m & (1u64 << j) != 0))
        by (bit_vector)
        requires
            i < 64,
            j < 64,
    ;
}

/// No bit of the zero mask is set.
pub proof fn lemma_zero_mask(j: u64)
    ensures
        !nth_bit(0u64, j),
{
    assert(0u64 & (1u64 << j) == 0) by (bit_vector);
}

/// The presence context a condition of field `excl` is evaluated in: the
/// names of the fields whose bit is set, the field `excl` itself excluded.
pub open spec fn present_names<V>(fields: Seq<Field<V>>, mask: u64, excl: int) -> Set<Seq<u8>> {
    Set::new(
        |n: Seq<u8>|
            exists|j: int|
                0 <= j < fields.len() && j != excl && fields[j].name@ == n && nth_bit(
                    mask,
                    j as u64,
                ),
    )
}

/// Whether field `i`'s requirement is met by `mask`.
pub open spec fn field_ok<V>(fields: Seq<Field<V>>, mask: u64, i: int) -> bool
    recommends
        0 <= i < fields.len(),
{
    match fields[i].requirement {
        Requirement::Always => nth_bit(mask, i as u64),
        Requirement::Optional => true,
        Requirement::Default => true,
        Requirement::Conditional(c) => holds(c@, present_names(fields, mask, i)) ==> nth_bit(
            mask,
            i as u64,
        ),
        Requirement::OptionalIf(c) => !holds(c@, present_names(fields, mask, i)) ==> nth_bit(
            mask,
            i as u64,
        ),
    }
}

/// Whether `mask` is a valid finalize state: no field is violated.
pub open spec fn mask_valid<V>(fields: Seq<Field<V>>, mask: u64) -> bool {
    forall|i: int| 0 <= i < fields.len() ==> field_ok(fields, mask, i)
}

/// Evaluates the condition of field `excl` against `mask`, the field's own
/// presence excluded from the context.
fn eval_for_field<V>(condition: &Condition, fields: &Vec<Field<V>>, mask: u64, excl: usize) -> (r:
    bool)
    requires
        fields@.len() <= 64,
    ensures
        r == holds(condition@, present_names(fields@, mask, excl as int)),
    decreases *condition,
{
    match condition {
        Condition::Atom(name) => {
            let mut j: usize = 0;
            while j < fields.len()
                invariant
                    cond_view(*condition) == CondView::Atom(name@),
                    j <= fields@.len(),
                    fields@.len() <= 64,
                    forall|k: int|
                        0 <= k < j ==> !(k != excl as int && fields@[k].name@ == name@ && nth_bit(
                            mask,
                            k as u64,
                        )),
                decreases fields@.len() - j,
            {
                if j != excl && bit_test(mask, j as u64) && bytes_eq(&fields[j].name, name) {
                    assert(present_names(fields@, mask, excl as int).contains(name@));
                    return true;
                }
                j += 1;
            }
            assert(!present_names(fields@, mask, excl as int).contains(name@));
            false
        }
        Condition::Not(e) => !eval_for_field(&*e, fields, mask, excl),
        Condition::And(a, b) => {
            let l = eval_for_field(&*a, fields, mask, excl);
            let rgt = eval_for_field(&*b, fields, mask, excl);
            l && rgt
        }
        Condition::Or(a, b) => {
            let l = eval_for_field(&*a, fields, mask, excl);
            let rgt = eval_for_field(&*b, fields, mask, excl);
            l || rgt
        }
    }
}

/// Whether field `i`'s requirement is met by `mask`; executable twin of
/// [`field_ok`].
pub fn check_field<V>(fields: &Vec<Field<V>>, mask: u64, i: usize) -> (ok: bool)
    requires
        fields@.len() <= 64,
        i < fields@.len(),
    ensures
        ok == field_ok(fields@, mask, i as int),
{
    match &fields[i].requirement {
        Requirement::Always => bit_test(mask, i as u64),
        Requirement::Optional => true,
        Requirement::Default => true,
        Requirement::Conditional(c) => {
            let needed = eval_for_field(c, fields, mask, i);
            !needed || bit_test(mask, i as u64)
        }
        Requirement::OptionalIf(c) => {
            let exempt = eval_for_field(c, fields, mask, i);
            exempt || bit_test(mask, i as u64)
        }
    }
}

/// The lowest-indexed field whose requirement `mask` violates, or `None`
/// when `mask` is valid.
pub fn first_violation<V>(fields: &Vec<Field<V>>, mask: u64) -> (r: Option<usize>)
    requires
        fields@.len() <= 64,
    ensures
        match r {
            None => mask_valid(fields@, mask),
            Some(i) => {
                &&& 0 <= i < fields@.len()
                &&& !field_ok(fields@, mask, i as int)
                &&& forall|j: int| 0 <= j < i ==> field_ok(fields@, mask, j)
            },
        },
{
    let mut i: usize = 0;
    while i < fields.len()
        invariant
            i <= fields@.len(),
            fields@.len() <= 64,
            forall|j: int| 0 <= j < i ==> field_ok(fields@, mask, j),
        decreases fields@.len() - i,
    {
        if !check_field(fields, mask, i) {
            return Some(i);
        }
        i += 1;
    }
    None
}

/// Whether `mask` is a valid finalize state; executable twin of
/// [`mask_valid`].
pub fn is_mask_valid<V>(fields: &Vec<Field<V>>, mask: u64) -> (valid: bool)
    requires
        fields@.len() <= 64,
    ensures
        valid == mask_valid(fields@, mask),
{
    match first_violation(fields, mask) {
        None => true,
        Some(_) => false,
    }
}

/// The condition payload of a `Conditional` or `OptionalIf` requirement.
pub open spec fn condition_of(r: Requirement) -> Condition
    recommends
        r is Conditional || r is OptionalIf,
{
    match r {
        Requirement::Conditional(c) => c,
        Requirement::OptionalIf(c) => c,
        _ => arbitrary(),
    }
}

/// Whether a requirement carries a condition that mentions `name`.
pub open spec fn requirement_mentions(r: Requirement, name: Seq<u8>) -> bool {
    match r {
        Requirement::Conditional(c) => atoms(c@).contains(name),
        Requirement::OptionalIf(c) => atoms(c@).contains(name),
        _ => false,
    }
}

/// Whether two masks agree on every bit but possibly bit `i`.
pub open spec fn masks_agree_except(m1: u64, m2: u64, i: int) -> bool {
    forall|j: u64| j < 64 && j as int != i ==> nth_bit(m1, j) == nth_bit(m2, j)
}

/// Whether every field but field `i` has its requirement met by `mask`.
pub open spec fn others_ok<V>(fields: Seq<Field<V>>, mask: u64, i: int) -> bool {
    forall|j: int| 0 <= j < fields.len() && j != i ==> field_ok(fields, mask, j)
}

/// Always-field necessity: every valid mask has bit `i` set for every field
/// `i` whose requirement is `Always`.
pub proof fn lemma_always_field_required<V>(fields: Seq<Field<V>>, mask: u64, i: int)
    requires
        0 <= i < fields.len(),
        fields[i].requirement is Always,
        mask_valid(fields, mask),
    ensures
        nth_bit(mask, i as u64),
{
    assert(field_ok(fields, mask, i));
}

/// Self-reference exclusion: the context a condition of field `i` is
/// evaluated in never contains field `i`'s own presence bit, so it is the
/// same for any two masks that differ only in bit `i`.
pub proof fn lemma_own_presence_excluded<V>(fields: Seq<Field<V>>, m1: u64, m2: u64, i: int)
    requires
        fields.len() <= 64,
        masks_agree_except(m1, m2, i),
    ensures
        present_names(fields, m1, i) == present_names(fields, m2, i),
{
    assert forall|n: Seq<u8>| present_names(fields, m1, i).contains(n) implies present_names(
        fields,
        m2,
        i,
    ).contains(n) by {
        let j = choose|j: int|
            0 <= j < fields.len() && j != i && fields[j].name@ == n && nth_bit(m1, j as u64);
        assert(nth_bit(m2, j as u64) == nth_bit(m1, j as u64));
        assert(0 <= j < fields.len() && j != i && fields[j].name@ == n && nth_bit(m2, j as u64));
    }
    assert forall|n: Seq<u8>| present_names(fields, m2, i).contains(n) implies present_names(
        fields,
        m1,
        i,
    ).contains(n) by {
        let j = choose|j: int|
            0 <= j < fields.len() && j != i && fields[j].name@ == n && nth_bit(m2, j as u64);
        assert(nth_bit(m1, j as u64) == nth_bit(m2, j as u64));
        assert(0 <= j < fields.len() && j != i && fields[j].name@ == n && nth_bit(m1, j as u64));
    }
    assert(present_names(fields, m1, i) =~= present_names(fields, m2, i));
}

/// For a name other than field `i`'s, membership in any field's context is
/// unchanged by toggling bit `i`.
proof fn lemma_present_agree_off_name<V>(
    fields: Seq<Field<V>>,
    m1: u64,
    m2: u64,
    i: int,
    excl: int,
    n: Seq<u8>,
)
    requires
        fields.len() <= 64,
        masks_agree_except(m1, m2, i),
        0 <= i < fields.len(),
        n != fields[i].name@,
    ensures
        present_names(fields, m1, excl).contains(n) == present_names(fields, m2, excl).contains(n),
{
    if present_names(fields, m1, excl).contains(n) {
        let j = choose|j: int|
            0 <= j < fields.len() && j != excl && fields[j].name@ == n && nth_bit(m1, j as u64);
        assert(j != i);
        assert(nth_bit(m2, j as u64) == nth_bit(m1, j as u64));
        assert(present_names(fields, m2, excl).contains(n));
    }
    if present_names(fields, m2, excl).contains(n) {
        let j = choose|j: int|
            0 <= j < fields.len() && j != excl && fields[j].name@ == n && nth_bit(m2, j as u64);
        assert(j != i);
        assert(nth_bit(m1, j as u64) == nth_bit(m2, j as u64));
        assert(present_names(fields, m1, excl).contains(n));
    }
}

/// A condition that does not mention field `i`'s name keeps its truth value
/// when bit `i` is toggled, whatever field it belongs to; a condition of
/// field `i` itself keeps it in any case, its own bit being excluded.
proof fn lemma_holds_toggle<V>(
    fields: Seq<Field<V>>,
    m1: u64,
    m2: u64,
    i: int,
    excl: int,
    c: CondView,
)
    requires
        fields.len() <= 64,
        masks_agree_except(m1, m2, i),
        0 <= i < fields.len(),
        excl == i || !atoms(c).contains(fields[i].name@),
    ensures
        holds(c, present_names(fields, m1, excl)) == holds(c, present_names(fields, m2, excl)),
{
    if excl == i {
        lemma_own_presence_excluded(fields, m1, m2, i);
    } else {
        let s1 = present_names(fields, m1, excl);
        let s2 = present_names(fields, m2, excl);
        assert forall|n: Seq<u8>| atoms(c).contains(n) implies s1.contains(n) == s2.contains(
            n,
        ) by {
            lemma_present_agree_off_name(fields, m1, m2, i, excl, n);
        }
        lemma_holds_depends_on_atoms(c, s1, s2);
    }
}

/// Toggling bit `i` does not change whether the other fields' requirements
/// are met, provided no other field's condition mentions field `i`'s name.
pub proof fn lemma_others_ok_toggle<V>(fields: Seq<Field<V>>, m1: u64, m2: u64, i: int)
    requires
        fields.len() <= 64,
        0 <= i < fields.len(),
        masks_agree_except(m1, m2, i),
        forall|j: int|
            0 <= j < fields.len() && j != i ==> !requirement_mentions(
                #[trigger] fields[j].requirement,
                fields[i].name@,
            ),
    ensures
        others_ok(fields, m1, i) == others_ok(fields, m2, i),
{
    assert forall|j: int| 0 <= j < fields.len() && j != i implies field_ok(fields, m1, j)
        == field_ok(fields, m2, j) by {
        assert(j < 64);
        assert(nth_bit(m1, j as u64) == nth_bit(m2, j as u64));
        match fields[j].requirement {
            Requirement::Conditional(c) => {
                lemma_holds_toggle(fields, m1, m2, i, j, c@);
            }
            Requirement::OptionalIf(c) => {
                lemma_holds_toggle(fields, m1, m2, i, j, c@);
            }
            _ => {}
        }
    }
}

/// Optional/Default permissiveness: toggling the presence bit of an
/// `Optional` or `Default` field never changes a mask's validity, provided
/// no field's condition mentions that field's name.
pub proof fn lemma_toggle_optional_or_default<V>(fields: Seq<Field<V>>, m1: u64, m2: u64, i: int)
    requires
        fields.len() <= 64,
        0 <= i < fields.len(),
        fields[i].requirement is Optional || fields[i].requirement is Default,
        masks_agree_except(m1, m2, i),
        forall|j: int|
            0 <= j < fields.len() ==> !requirement_mentions(
                #[trigger] fields[j].requirement,
                fields[i].name@,
            ),
    ensures
        mask_valid(fields, m1) == mask_valid(fields, m2),
{
    lemma_others_ok_toggle(fields, m1, m2, i);
    assert(field_ok(fields, m1, i));
    assert(field_ok(fields, m2, i));
    if others_ok(fields, m1, i) {
        assert forall|j: int| 0 <= j < fields.len() implies field_ok(fields, m1, j) by {
            if j != i {
                assert(field_ok(fields, m1, j));
            }
        }
    }
    if others_ok(fields, m2, i) {
        assert forall|j: int| 0 <= j < fields.len() implies field_ok(fields, m2, j) by {
            if j != i {
                assert(field_ok(fields, m2, j));
            }
        }
    }
}

/// Conditional necessity: a mask with bit `i` clear is invalid when field
/// `i` is `Conditional` and its condition is true over the mask with bit `i`
/// excluded.
pub proof fn lemma_conditional_missing_invalid<V>(fields: Seq<Field<V>>, mask: u64, i: int)
    requires
        0 <= i < fields.len(),
        fields[i].requirement is Conditional,
        holds(condition_of(fields[i].requirement)@, present_names(fields, mask, i)),
        !nth_bit(mask, i as u64),
    ensures
        !mask_valid(fields, mask),
{
    assert(!field_ok(fields, mask, i));
}

/// Beyond that rule, a mask's validity is the validity of the other fields:
/// for a `Conditional` field `i`, a mask is valid exactly when every other
/// field is satisfied and bit `i` is set if the condition (bit `i`
/// excluded) is true.
pub proof fn lemma_conditional_decomposition<V>(fields: Seq<Field<V>>, mask: u64, i: int)
    requires
        0 <= i < fields.len(),
        fields[i].requirement is Conditional,
    ensures
        mask_valid(fields, mask) == (others_ok(fields, mask, i) && (holds(
            condition_of(fields[i].requirement)@,
            present_names(fields, mask, i),
        ) ==> nth_bit(mask, i as u64))),
{
    if mask_valid(fields, mask) {
        assert(field_ok(fields, mask, i));
    }
    if others_ok(fields, mask, i) && (holds(
        condition_of(fields[i].requirement)@,
        present_names(fields, mask, i),
    ) ==> nth_bit(mask, i as u64)) {
        assert forall|j: int| 0 <= j < fields.len() implies field_ok(fields, mask, j) by {
            if j != i {
                assert(field_ok(fields, mask, j));
            } else {
                assert(field_ok(fields, mask, i));
            }
        }
    }
}

/// When a `Conditional` field's condition is false (bit `i` excluded), bit
/// `i`'s own value does not affect validity at all, provided no other
/// field's condition mentions field `i`'s name.
pub proof fn lemma_conditional_bit_free_when_unrequired<V>(
    fields: Seq<Field<V>>,
    m1: u64,
    m2: u64,
    i: int,
)
    requires
        fields.len() <= 64,
        0 <= i < fields.len(),
        fields[i].requirement is Conditional,
        masks_agree_except(m1, m2, i),
        !holds(condition_of(fields[i].requirement)@, present_names(fields, m1, i)),
        forall|j: int|
            0 <= j < fields.len() && j != i ==> !requirement_mentions(
                #[trigger] fields[j].requirement,
                fields[i].name@,
            ),
    ensures
        mask_valid(fields, m1) == mask_valid(fields, m2),
{
    lemma_own_presence_excluded(fields, m1, m2, i);
    lemma_conditional_decomposition(fields, m1, i);
    lemma_conditional_decomposition(fields, m2, i);
    lemma_others_ok_toggle(fields, m1, m2, i);
}

/// When an `OptionalIf` field's condition is true (bit `i` excluded), the
/// field is exempted and bit `i`'s own value does not affect validity at
/// all, provided no other field's condition mentions field `i`'s name.
pub proof fn lemma_optional_if_bit_free_when_exempt<V>(
    fields: Seq<Field<V>>,
    m1: u64,
    m2: u64,
    i: int,
)
    requires
        fields.len() <= 64,
        0 <= i < fields.len(),
        fields[i].requirement is OptionalIf,
        masks_agree_except(m1, m2, i),
        holds(condition_of(fields[i].requirement)@, present_names(fields, m1, i)),
        forall|j: int|
            0 <= j < fields.len() && j != i ==> !requirement_mentions(
                #[trigger] fields[j].requirement,
                fields[i].name@,
            ),
    ensures
        mask_valid(fields, m1) == mask_valid(fields, m2),
{
    lemma_own_presence_excluded(fields, m1, m2, i);
    lemma_optional_if_decomposition(fields, m1, i);
    lemma_optional_if_decomposition(fields, m2, i);
    lemma_others_ok_toggle(fields, m1, m2, i);
}

/// OptionalIf necessity: a mask with bit `i` clear is invalid when field `i`
/// is `OptionalIf` and its condition is false over the mask with bit `i`
/// excluded.
pub proof fn lemma_optional_if_missing_invalid<V>(fields: Seq<Field<V>>, mask: u64, i: int)
    requires
        0 <= i < fields.len(),
        fields[i].requirement is OptionalIf,
        !holds(condition_of(fields[i].requirement)@, present_names(fields, mask, i)),
        !nth_bit(mask, i as u64),
    ensures
        !mask_valid(fields, mask),
{
    assert(!field_ok(fields, mask, i));
}

/// Beyond that rule, a mask's validity is the validity of the other fields:
/// for an `OptionalIf` field `i`, a mask is valid exactly when every other
/// field is satisfied and bit `i` is set if the condition (bit `i`
/// excluded) is false.
pub proof fn lemma_optional_if_decomposition<V>(fields: Seq<Field<V>>, mask: u64, i: int)
    requires
        0 <= i < fields.len(),
        fields[i].requirement is OptionalIf,
    ensures
        mask_valid(fields, mask) == (others_ok(fields, mask, i) && (!holds(
            condition_of(fields[i].requirement)@,
            present_names(fields, mask, i),
        ) ==> nth_bit(mask, i as u64))),
{
    if mask_valid(fields, mask) {
        assert(field_ok(fields, mask, i));
    }
    if others_ok(fields, mask, i) && (!holds(
        condition_of(fields[i].requirement)@,
        present_names(fields, mask, i),
    ) ==> nth_bit(mask, i as u64)) {
        assert forall|j: int| 0 <= j < fields.len() implies field_ok(fields, mask, j) by {
            if j != i {
                assert(field_ok(fields, mask, j));
            } else {
                assert(field_ok(fields, mask, i));
            }
        }
    }
}

/// The valid masks below `k`, in ascending order.
pub open spec fn valid_masks_below<V>(fields: Seq<Field<V>>, k: int) -> Seq<u64>
    decreases k,
{
    if k <= 0 {
        Seq::empty()
    } else if mask_valid(fields, (k - 1) as u64) {
        valid_masks_below(fields, k - 1).push((k - 1) as u64)
    } else {
        valid_masks_below(fields, k - 1)
    }
}

/// The validity table of a schema of `n` fields: the list of all valid
/// masks among the `2^n` presence subsets, in ascending order.
pub fn enumerate_valid_masks<V>(fields: &Vec<Field<V>>) -> (table: Vec<u64>)
    requires
        fields@.len() < 64,
    ensures
        table@ == valid_masks_below(fields@, (1u64 << fields@.len() as u64) as int),
{
    let limit: u64 = 1u64 << (fields.len() as u64);
    let mut table: Vec<u64> = Vec::new();
    let mut m: u64 = 0;
    while m < limit
        invariant
            m <= limit,
            fields@.len() < 64,
            limit == 1u64 << fields@.len() as u64,
            table@ == valid_masks_below(fields@, m as int),
        decreases limit - m,
    {
        if is_mask_valid(fields, m) {
            table.push(m);
        }
        m += 1;
    }
    table
}

} // verus!
