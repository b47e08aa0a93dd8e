//! The boolean-expression surface syntax of conditions.
//!
//! A condition string is made of identifiers, `!`, `&&`, `||` and
//! parentheses, with the usual precedence (`!` binds tightest, then `&&`,
//! then `||`; the binary connectives associate to the left) and whitespace
//! allowed between tokens. Any other form fails parsing with a syntax
//! error that is surfaced to the caller, not recovered.
//!
//! The specification is a definitional parser over byte sequences; each
//! executable function returns exactly what its specification twin denotes.

use vstd::prelude::*;
use crate::condition::{Condition, CondView, cond_view};
use crate::schema::SchemaError;

verus! {

/// Whitespace between tokens.
pub open spec fn is_space(b: u8) -> bool {
    b == 32u8 || b == 9u8 || b == 10u8 || b == 13u8
}

/// A byte that can start an identifier: a letter or an underscore.
pub open spec fn is_ident_start(b: u8) -> bool {
    (65u8 <= b && b <= 90u8) || (97u8 <= b && b <= 122u8) || b == 95u8
}

/// A byte that can continue an identifier: a letter, a digit or an
/// underscore.
pub open spec fn is_ident_byte(b: u8) -> bool {
    is_ident_start(b) || (48u8 <= b && b <= 57u8)
}

/// The number of whitespace bytes at `pos`.
pub open spec fn ws_count(s: Seq<u8>, pos: int) -> nat
    decreases s.len() - pos,
{
    if pos < s.len() && 0 <= pos && is_space(s[pos]) {
        1 + ws_count(s, pos + 1)
    } else {
        0
    }
}

/// The number of identifier bytes at `pos`.
pub open spec fn ident_len(s: Seq<u8>, pos: int) -> nat
    decreases s.len() - pos,
{
    if pos < s.len() && 0 <= pos && is_ident_byte(s[pos]) {
        1 + ident_len(s, pos + 1)
    } else {
        0
    }
}

/// Parses an atom or a parenthesized condition at `pos`: the parsed
/// condition and the position after it, or `None` on a syntax error.
pub open spec fn spec_parse_primary(s: Seq<u8>, pos: int) -> Option<(CondView, int)>
    decreases s.len() - pos, 1int,
{
    let q = pos + ws_count(s, pos);
    if pos < 0 || q >= s.len() {
        None
    } else if is_ident_start(s[q]) {
        let e = q + ident_len(s, q);
        Some((CondView::Atom(s.subrange(q, e)), e))
    } else if s[q] == 40u8 {
        match spec_parse_or(s, q + 1) {
            None => None,
            Some((c, p)) => {
                let r = p + ws_count(s, p);
                if 0 <= p && r < s.len() && s[r] == 41u8 {
                    Some((c, r + 1))
                } else {
                    None
                }
            },
        }
    } else {
        None
    }
}

/// Parses a possibly negated primary at `pos`.
pub open spec fn spec_parse_unary(s: Seq<u8>, pos: int) -> Option<(CondView, int)>
    decreases s.len() - pos, 2int,
{
    let q = pos + ws_count(s, pos);
    if 0 <= pos && q < s.len() && s[q] == 33u8 {
        match spec_parse_unary(s, q + 1) {
            None => None,
            Some((c, p)) => Some((CondView::Not(Box::new(c)), p)),
        }
    } else {
        spec_parse_primary(s, pos)
    }
}

/// Parses a conjunction at `pos`: a unary followed by any number of
/// `&&`-joined unaries, associated to the left.
pub open spec fn spec_parse_and(s: Seq<u8>, pos: int) -> Option<(CondView, int)>
    decreases s.len() - pos, 3int,
{
    match spec_parse_unary(s, pos) {
        None => None,
        Some((c, p)) => if pos < p <= s.len() {
            spec_parse_and_rest(s, p, c)
        } else {
            None
        },
    }
}

/// Parses the `&&`-joined continuations of a conjunction whose left operand
/// so far is `acc`.
pub open spec fn spec_parse_and_rest(s: Seq<u8>, pos: int, acc: CondView) -> Option<
    (CondView, int),
>
    decreases s.len() - pos, 4int,
{
    let q = pos + ws_count(s, pos);
    if 0 <= pos && q + 1 < s.len() && s[q] == 38u8 && s[q + 1] == 38u8 {
        match spec_parse_unary(s, q + 2) {
            None => None,
            Some((c, p)) => if pos < p <= s.len() {
                spec_parse_and_rest(s, p, CondView::And(Box::new(acc), Box::new(c)))
            } else {
                None
            },
        }
    } else {
        Some((acc, pos))
    }
}

/// Parses a disjunction at `pos`: a conjunction followed by any number of
/// `||`-joined conjunctions, associated to the left.
pub open spec fn spec_parse_or(s: Seq<u8>, pos: int) -> Option<(CondView, int)>
    decreases s.len() - pos, 5int,
{
    match spec_parse_and(s, pos) {
        None => None,
        Some((c, p)) => if pos < p <= s.len() {
            spec_parse_or_rest(s, p, c)
        } else {
            None
        },
    }
}

/// Parses the `||`-joined continuations of a disjunction whose left operand
/// so far is `acc`.
pub open spec fn spec_parse_or_rest(s: Seq<u8>, pos: int, acc: CondView) -> Option<(CondView, int)>
    decreases s.len() - pos, 6int,
{
    let q = pos + ws_count(s, pos);
    if 0 <= pos && q + 1 < s.len() && s[q] == 124u8 && s[q + 1] == 124u8 {
        match spec_parse_and(s, q + 2) {
            None => None,
            Some((c, p)) => if pos < p <= s.len() {
                spec_parse_or_rest(s, p, CondView::Or(Box::new(acc), Box::new(c)))
            } else {
                None
            },
        }
    } else {
        Some((acc, pos))
    }
}

/// The condition a whole byte string denotes, or `None` when it is not in
/// the surface syntax.
pub open spec fn spec_parse_condition(s: Seq<u8>) -> Option<CondView> {
    match spec_parse_or(s, 0) {
        None => None,
        Some((c, p)) => if p + ws_count(s, p) == s.len() {
            Some(c)
        } else {
            None
        },
    }
}

/// Executable twin of [`is_space`].
fn is_space_b(b: u8) -> (r: bool)
    ensures
        r == is_space(b),
{
    b == 32 || b == 9 || b == 10 || b == 13
}

/// Executable twin of [`is_ident_start`].
fn is_ident_start_b(b: u8) -> (r: bool)
    ensures
        r == is_ident_start(b),
{
    (65 <= b && b <= 90) || (97 <= b && b <= 122) || b == 95
}

/// Executable twin of [`is_ident_byte`].
fn is_ident_byte_b(b: u8) -> (r: bool)
    ensures
        r == is_ident_byte(b),
{
    is_ident_start_b(b) || (48 <= b && b <= 57)
}

/// The position after the whitespace at `pos`.
fn skip_ws(s: &Vec<u8>, pos: usize) -> (q: usize)
    requires
        pos <= s@.len(),
    ensures
        q as int == pos + ws_count(s@, pos as int),
        pos <= q <= s@.len(),
    decreases s@.len() - pos,
{
    if pos < s.len() && is_space_b(s[pos]) {
        skip_ws(s, pos + 1)
    } else {
        pos
    }
}

/// The position after the identifier bytes at `pos`.
fn scan_ident(s: &Vec<u8>, pos: usize) -> (e: usize)
    requires
        pos <= s@.len(),
    ensures
        e as int == pos + ident_len(s@, pos as int),
        pos <= e <= s@.len(),
    decreases s@.len() - pos,
{
    if pos < s.len() && is_ident_byte_b(s[pos]) {
        scan_ident(s, pos + 1)
    } else {
        pos
    }
}

/// The bytes of `s` from `from` to `to`.
fn copy_range(s: &Vec<u8>, from: usize, to: usize) -> (r: Vec<u8>)
    requires
        from <= to <= s@.len(),
    ensures
        r@ == s@.subrange(from as int, to as int),
{
    let mut r: Vec<u8> = Vec::new();
    let mut i: usize = from;
    while i < to
        invariant
            from <= i <= to <= s@.len(),
            r@ == s@.subrange(from as int, i as int),
        decreases to - i,
    {
        r.push(s[i]);
        i += 1;
        proof {
            assert(r@ =~= s@.subrange(from as int, i as int));
        }
    }
    proof {
        assert(r@ =~= s@.subrange(from as int, to as int));
    }
    r
}

/// Executable twin of [`spec_parse_primary`].
fn parse_primary(s: &Vec<u8>, pos: usize) -> (r: Option<(Condition, usize)>)
    requires
        pos <= s@.len(),
    ensures
        match r {
            None => spec_parse_primary(s@, pos as int) is None,
            Some((c, p)) => spec_parse_primary(s@, pos as int) == Some((c@, p as int)) && p
                <= s@.len(),
        },
    decreases s@.len() - pos, 1int,
{
    let q = skip_ws(s, pos);
    if q >= s.len() {
        None
    } else if is_ident_start_b(s[q]) {
        let e = scan_ident(s, q);
        Some((Condition::Atom(copy_range(s, q, e)), e))
    } else if s[q] == 40 {
        match parse_or(s, q + 1) {
            None => None,
            Some((c, p)) => {
                let r2 = skip_ws(s, p);
                if r2 < s.len() && s[r2] == 41 {
                    Some((c, r2 + 1))
                } else {
                    None
                }
            }
        }
    } else {
        None
    }
}

/// Executable twin of [`spec_parse_unary`].
fn parse_unary(s: &Vec<u8>, pos: usize) -> (r: Option<(Condition, usize)>)
    requires
        pos <= s@.len(),
    ensures
        match r {
            None => spec_parse_unary(s@, pos as int) is None,
            Some((c, p)) => spec_parse_unary(s@, pos as int) == Some((c@, p as int)) && p
                <= s@.len(),
        },
    decreases s@.len() - pos, 2int,
{
    let q = skip_ws(s, pos);
    if q < s.len() && s[q] == 33 {
        match parse_unary(s, q + 1) {
            None => None,
            Some((c, p)) => Some((Condition::Not(Box::new(c)), p)),
        }
    } else {
        parse_primary(s, pos)
    }
}

/// Executable twin of [`spec_parse_and`].
fn parse_and(s: &Vec<u8>, pos: usize) -> (r: Option<(Condition, usize)>)
    requires
        pos <= s@.len(),
    ensures
        match r {
            None => spec_parse_and(s@, pos as int) is None,
            Some((c, p)) => spec_parse_and(s@, pos as int) == Some((c@, p as int)) && p
                <= s@.len(),
        },
    decreases s@.len() - pos, 3int,
{
    match parse_unary(s, pos) {
        None => None,
        Some((c, p)) => {
            if pos < p {
                parse_and_rest(s, p, c)
            } else {
                None
            }
        }
    }
}

/// Executable twin of [`spec_parse_and_rest`].
fn parse_and_rest(s: &Vec<u8>, pos: usize, acc: Condition) -> (r: Option<(Condition, usize)>)
    requires
        pos <= s@.len(),
    ensures
        match r {
            None => spec_parse_and_rest(s@, pos as int, acc@) is None,
            Some((c, p)) => spec_parse_and_rest(s@, pos as int, acc@) == Some((c@, p as int)) && p
                <= s@.len(),
        },
    decreases s@.len() - pos, 4int,
{
    let q = skip_ws(s, pos);
    if q < s.len() && q + 1 < s.len() && s[q] == 38 && s[q + 1] == 38 {
        match parse_unary(s, q + 2) {
            None => None,
            Some((c, p)) => {
                if pos < p {
                    parse_and_rest(s, p, Condition::And(Box::new(acc), Box::new(c)))
                } else {
                    None
                }
            }
        }
    } else {
        Some((acc, pos))
    }
}

/// Executable twin of [`spec_parse_or`].
fn parse_or(s: &Vec<u8>, pos: usize) -> (r: Option<(Condition, usize)>)
    requires
        pos <= s@.len(),
    ensures
        match r {
            None => spec_parse_or(s@, pos as int) is None,
            Some((c, p)) => spec_parse_or(s@, pos as int) == Some((c@, p as int)) && p <= s@.len(),
        },
    decreases s@.len() - pos, 5int,
{
    match parse_and(s, pos) {
        None => None,
        Some((c, p)) => {
            if pos < p {
                parse_or_rest(s, p, c)
            } else {
                None
            }
        }
    }
}

/// Executable twin of [`spec_parse_or_rest`].
fn parse_or_rest(s: &Vec<u8>, pos: usize, acc: Condition) -> (r: Option<(Condition, usize)>)
    requires
        pos <= s@.len(),
    ensures
        match r {
            None => spec_parse_or_rest(s@, pos as int, acc@) is None,
            Some((c, p)) => spec_parse_or_rest(s@, pos as int, acc@) == Some((c@, p as int)) && p
                <= s@.len(),
        },
    decreases s@.len() - pos, 6int,
{
    let q = skip_ws(s, pos);
    if q < s.len() && q + 1 < s.len() && s[q] == 124 && s[q + 1] == 124 {
        match parse_and(s, q + 2) {
            None => None,
            Some((c, p)) => {
                if pos < p {
                    parse_or_rest(s, p, Condition::Or(Box::new(acc), Box::new(c)))
                } else {
                    None
                }
            }
        }
    } else {
        Some((acc, pos))
    }
}

/// Parses a whole condition string. Returns the condition it denotes, or
/// the malformed-condition schema error when the string is not in the
/// surface syntax.
pub fn parse_condition(src: &Vec<u8>) -> (r: Result<Condition, SchemaError>)
    ensures
        match r {
            Ok(c) => spec_parse_condition(src@) == Some(c@),
            Err(e) => e is MalformedCondition && spec_parse_condition(src@) is None,
        },
{
    match parse_or(src, 0) {
        None => Err(SchemaError::MalformedCondition),
        Some((c, p)) => {
            let q = skip_ws(src, p);
            if q == src.len() {
                Ok(c)
            } else {
                Err(SchemaError::MalformedCondition)
            }
        }
    }
}

} // verus!
