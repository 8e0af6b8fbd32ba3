//! The reference grammar of the expression language, stated as recognisers on
//! bytes: each says, for a text and a position, which tree stands there and how
//! many bytes it takes. Alternatives are ordered and repetitions are greedy.
//!
//! Weakest to strongest: `||`, `&&`, `|`, `^`, `&`, equality, comparison,
//! shifts, additive, multiplicative, `**` (which groups to the right), the
//! prefix operators, the suffixes (call, bracket index, `.name`) and the atoms.

use crate::expr::{ExprV, PatternV, Span};
use crate::operator::{BinaryOp, UnaryOp};
use crate::text::{byte_at, digits_value, is_letter, run_at, spaces_at, ByteClass};
use vstd::prelude::*;

verus! {

/// Number of bytes from `pos` to the end of `s`.
pub open spec fn left(s: Seq<u8>, pos: int) -> nat {
    if pos <= s.len() {
        (s.len() - pos) as nat
    } else {
        0
    }
}

/// The source range of the bytes `from..to` of a text that starts at offset `base`.
pub open spec fn span_at(base: int, from: int, to: int) -> Span {
    Some(((base + from) as usize, (base + to) as usize))
}

/// Length of the identifier at `pos`: a letter or `_`, then letters, digits and `_`.
pub open spec fn ident_at(s: Seq<u8>, pos: int) -> Option<nat> {
    if 0 <= pos < s.len() && (is_letter(s[pos]) || s[pos] == 95) {
        Some(run_at(s, pos, ByteClass::Word))
    } else {
        None
    }
}

/// Value and length of the number at `pos`: decimal digits that fit a 64-bit integer.
pub open spec fn number_at(s: Seq<u8>, pos: int) -> Option<(int, nat)> {
    let n = run_at(s, pos, ByteClass::Digit);
    if n > 0 && digits_value(s, pos, pos + n) <= i64::MAX {
        Some((digits_value(s, pos, pos + n) as int, n))
    } else {
        None
    }
}

/// The byte that `\` followed by `b` stands for.
pub open spec fn unescape(b: u8) -> u8 {
    if b == 110 {
        10
    } else if b == 114 {
        13
    } else if b == 116 {
        9
    } else {
        b
    }
}

/// The rest of a string literal from `pos` up to the closing `quote`, appended
/// to `acc`, and the position after the quote.
pub open spec fn string_body(s: Seq<u8>, pos: int, quote: u8, acc: Seq<u8>) -> Option<
    (Seq<u8>, int),
>
    decreases left(s, pos),
{
    if pos < 0 || pos >= s.len() {
        None
    } else if s[pos] == quote {
        Some((acc, pos + 1))
    } else if s[pos] == 92 {
        if pos + 1 < s.len() {
            string_body(s, pos + 2, quote, acc.push(unescape(s[pos + 1])))
        } else {
            None
        }
    } else {
        string_body(s, pos + 1, quote, acc.push(s[pos]))
    }
}

/// Content and length of the string literal at `pos`, in single or double quotes.
pub open spec fn string_at(s: Seq<u8>, pos: int) -> Option<(Seq<u8>, nat)> {
    if byte_at(s, pos, 34) || byte_at(s, pos, 39) {
        match string_body(s, pos + 1, s[pos], Seq::empty()) {
            Some((t, end)) => if end > pos {
                Some((t, (end - pos) as nat))
            } else {
                None
            },
            None => None,
        }
    } else {
        None
    }
}

/// The prefix operator at `pos`.
pub open spec fn unary_op_at(s: Seq<u8>, pos: int) -> Option<UnaryOp> {
    if byte_at(s, pos, 33) {
        Some(UnaryOp::Not)
    } else if byte_at(s, pos, 43) {
        Some(UnaryOp::Pos)
    } else if byte_at(s, pos, 45) {
        Some(UnaryOp::Neg)
    } else {
        None
    }
}

/// The bytes `a` and `b` stand at `pos` and after it.
pub open spec fn two_at(s: Seq<u8>, pos: int, a: u8, b: u8) -> bool {
    byte_at(s, pos, a) && byte_at(s, pos + 1, b)
}

/// Number of precedence levels of infix operators below the prefix operators.
pub open spec fn top_level() -> nat {
    10
}

/// The infix operator of precedence `level` at `pos`, and its length.
pub open spec fn op_at(s: Seq<u8>, pos: int, level: nat) -> Option<(BinaryOp, nat)> {
    if level == 0 {
        if two_at(s, pos, 124, 124) {
            Some((BinaryOp::Or, 2))
        } else {
            None
        }
    } else if level == 1 {
        if two_at(s, pos, 38, 38) {
            Some((BinaryOp::And, 2))
        } else {
            None
        }
    } else if level == 2 {
        if byte_at(s, pos, 124) {
            Some((BinaryOp::BitOr, 1))
        } else {
            None
        }
    } else if level == 3 {
        if byte_at(s, pos, 94) {
            Some((BinaryOp::BitXor, 1))
        } else {
            None
        }
    } else if level == 4 {
        if byte_at(s, pos, 38) {
            Some((BinaryOp::BitAnd, 1))
        } else {
            None
        }
    } else if level == 5 {
        if two_at(s, pos, 61, 61) {
            Some((BinaryOp::Eq, 2))
        } else if two_at(s, pos, 33, 61) {
            Some((BinaryOp::Ne, 2))
        } else {
            None
        }
    } else if level == 6 {
        if two_at(s, pos, 60, 61) {
            Some((BinaryOp::Le, 2))
        } else if two_at(s, pos, 62, 61) {
            Some((BinaryOp::Ge, 2))
        } else if byte_at(s, pos, 60) {
            Some((BinaryOp::Lt, 1))
        } else if byte_at(s, pos, 62) {
            Some((BinaryOp::Gt, 1))
        } else {
            None
        }
    } else if level == 7 {
        if two_at(s, pos, 60, 60) {
            Some((BinaryOp::Shl, 2))
        } else if two_at(s, pos, 62, 62) {
            Some((BinaryOp::Shr, 2))
        } else {
            None
        }
    } else if level == 8 {
        if byte_at(s, pos, 43) {
            Some((BinaryOp::Add, 1))
        } else if byte_at(s, pos, 45) {
            Some((BinaryOp::Sub, 1))
        } else {
            None
        }
    } else if level == 9 {
        if byte_at(s, pos, 42) {
            Some((BinaryOp::Mul, 1))
        } else if byte_at(s, pos, 47) {
            Some((BinaryOp::Div, 1))
        } else if byte_at(s, pos, 37) {
            Some((BinaryOp::Mod, 1))
        } else {
            None
        }
    } else if level == 10 {
        if two_at(s, pos, 42, 42) {
            Some((BinaryOp::Pow, 2))
        } else {
            None
        }
    } else {
        None
    }
}

/// A result whose length is counted from `d` bytes further back.
pub open spec fn shift<T>(r: Option<(T, nat)>, d: nat) -> Option<(T, nat)> {
    match r {
        Some((t, n)) => Some((t, n + d)),
        None => None,
    }
}

/// The expression at `pos`, after optional whitespace, and its length from `pos`.
#[verifier::opaque]
pub open spec fn expr_at(s: Seq<u8>, pos: int, base: int) -> Option<(ExprV, nat)>
    decreases left(s, pos), 40nat,
{
    binary_at(s, pos, base, 0)
}

/// An operand of precedence `level`: operands of the next level joined by the
/// operators of this one.
#[verifier::opaque]
pub open spec fn binary_at(s: Seq<u8>, pos: int, base: int, level: nat) -> Option<(ExprV, nat)>
    decreases left(s, pos), 30 - (if level < top_level() {
        level
    } else {
        top_level()
    }),
{
    if level >= top_level() {
        match unary_at(s, pos, base) {
            None => None,
            Some((lhs, n)) => {
                let p = pos + n + spaces_at(s, pos + n);
                match op_at(s, p, top_level()) {
                    None => Some((lhs, n)),
                    Some((op, k)) => match binary_at(s, p + k, base, top_level()) {
                        None => Some((lhs, n)),
                        Some((rhs, m)) => Some(
                            (
                                ExprV::Binary(
                                    Box::new(lhs),
                                    op,
                                    Box::new(rhs),
                                    span_at(base, p, p + k),
                                ),
                                (p + k + m - pos) as nat,
                            ),
                        ),
                    },
                }
            },
        }
    } else {
        match binary_at(s, pos, base, level + 1) {
            None => None,
            Some((lhs, n)) => shift(Some(binary_rest(s, pos + n, base, level, lhs)), n),
        }
    }
}

/// `lhs` joined, to the left, with the operators of `level` and the operands
/// that follow at `pos`; the length is counted from `pos`.
#[verifier::opaque]
pub open spec fn binary_rest(s: Seq<u8>, pos: int, base: int, level: nat, lhs: ExprV) -> (ExprV, nat)
    decreases left(s, pos), 5nat,
{
    let p = pos + spaces_at(s, pos);
    match op_at(s, p, level) {
        None => (lhs, 0),
        Some((op, k)) => match binary_at(s, p + k, base, level + 1) {
            None => (lhs, 0),
            Some((rhs, n)) => {
                let e = ExprV::Binary(Box::new(lhs), op, Box::new(rhs), span_at(base, p, p + k));
                let (r, m) = binary_rest(s, p + k + n, base, level, e);
                (r, (p + k + n + m - pos) as nat)
            },
        },
    }
}

/// Prefix operators, then an atom with its suffixes.
#[verifier::opaque]
pub open spec fn unary_at(s: Seq<u8>, pos: int, base: int) -> Option<(ExprV, nat)>
    decreases left(s, pos), 10nat,
{
    let p = pos + spaces_at(s, pos);
    match unary_op_at(s, p) {
        Some(op) => match unary_at(s, p + 1, base) {
            Some((e, n)) => Some(
                (ExprV::Unary(op, Box::new(e), span_at(base, p, p + 1)), (p + 1 + n - pos) as nat),
            ),
            None => None,
        },
        None => match atom_at(s, p, base) {
            Some((a, n)) => {
                let (e, m) = suffix_rest(s, p + n, base, a);
                Some((e, (p + n + m - pos) as nat))
            },
            None => None,
        },
    }
}

/// `lhs` with the suffixes that follow at `pos`: a call `(..)`, an index
/// `[..]`, or `.name`, which stands for an index by the string `name`.
#[verifier::opaque]
pub open spec fn suffix_rest(s: Seq<u8>, pos: int, base: int, lhs: ExprV) -> (ExprV, nat)
    decreases left(s, pos), 5nat,
{
    let p = pos + spaces_at(s, pos);
    if byte_at(s, p, 40) {
        match list_at(s, p + 1, base, 41) {
            Some((args, n)) => {
                let e = ExprV::Apply(Box::new(lhs), args, span_at(base, p, p + 1 + n));
                let (r, m) = suffix_rest(s, p + 1 + n, base, e);
                (r, (p + 1 + n + m - pos) as nat)
            },
            None => (lhs, 0),
        }
    } else if byte_at(s, p, 91) {
        match expr_at(s, p + 1, base) {
            Some((key, n)) => {
                let q = p + 1 + n + spaces_at(s, p + 1 + n);
                if byte_at(s, q, 93) {
                    let e = ExprV::Index(Box::new(lhs), Box::new(key), true, span_at(base, p, q + 1));
                    let (r, m) = suffix_rest(s, q + 1, base, e);
                    (r, (q + 1 + m - pos) as nat)
                } else {
                    (lhs, 0)
                }
            },
            None => (lhs, 0),
        }
    } else if byte_at(s, p, 46) {
        let q = p + 1 + spaces_at(s, p + 1);
        match ident_at(s, q) {
            Some(n) => {
                let key = ExprV::String(s.subrange(q, q + n), span_at(base, q, q + n));
                let e = ExprV::Index(Box::new(lhs), Box::new(key), false, span_at(base, p, q + n));
                let (r, m) = suffix_rest(s, q + n, base, e);
                (r, (q + n + m - pos) as nat)
            },
            None => (lhs, 0),
        }
    } else {
        (lhs, 0)
    }
}

/// The atom that starts exactly at `pos`: a number, a string, an identifier,
/// an array or object literal, or an expression in parentheses.
#[verifier::opaque]
pub open spec fn atom_at(s: Seq<u8>, pos: int, base: int) -> Option<(ExprV, nat)>
    decreases left(s, pos), 8nat,
{
    if number_at(s, pos) is Some {
        let (v, n) = number_at(s, pos).unwrap();
        Some((ExprV::Number(v, span_at(base, pos, pos + n)), n))
    } else if string_at(s, pos) is Some {
        let (t, n) = string_at(s, pos).unwrap();
        Some((ExprV::String(t, span_at(base, pos, pos + n)), n))
    } else if ident_at(s, pos) is Some {
        let n = ident_at(s, pos).unwrap();
        Some((ExprV::Ident(s.subrange(pos, pos + n), span_at(base, pos, pos + n)), n))
    } else if byte_at(s, pos, 91) {
        match list_at(s, pos + 1, base, 93) {
            Some((items, n)) => Some((ExprV::Array(items, span_at(base, pos, pos + 1 + n)), n + 1)),
            None => None,
        }
    } else if byte_at(s, pos, 123) {
        match entries_at(s, pos + 1, base) {
            Some((entries, n)) => Some(
                (ExprV::Object(entries, span_at(base, pos, pos + 1 + n)), n + 1),
            ),
            None => None,
        }
    } else if byte_at(s, pos, 40) {
        match expr_at(s, pos + 1, base) {
            Some((e, n)) => {
                let q = pos + 1 + n + spaces_at(s, pos + 1 + n);
                if byte_at(s, q, 41) {
                    Some((e, (q + 1 - pos) as nat))
                } else {
                    None
                }
            },
            None => None,
        }
    } else {
        None
    }
}

/// Expressions separated by commas up to the byte `close`; the length takes in `close`.
#[verifier::opaque]
pub open spec fn list_at(s: Seq<u8>, pos: int, base: int, close: u8) -> Option<(Seq<ExprV>, nat)>
    decreases left(s, pos), 51nat,
{
    let p = pos + spaces_at(s, pos);
    if byte_at(s, p, close) {
        Some((Seq::empty(), (p + 1 - pos) as nat))
    } else {
        items_at(s, pos, base, close, Seq::empty())
    }
}

/// One expression and the rest of the list, appended to `acc`.
#[verifier::opaque]
pub open spec fn items_at(s: Seq<u8>, pos: int, base: int, close: u8, acc: Seq<ExprV>) -> Option<
    (Seq<ExprV>, nat),
>
    decreases left(s, pos), 50nat,
{
    match expr_at(s, pos, base) {
        None => None,
        Some((e, n)) => {
            let q = pos + n + spaces_at(s, pos + n);
            if byte_at(s, q, close) {
                Some((acc.push(e), (q + 1 - pos) as nat))
            } else if byte_at(s, q, 44) {
                shift(items_at(s, q + 1, base, close, acc.push(e)), (q + 1 - pos) as nat)
            } else {
                None
            }
        },
    }
}

/// An entry of an object literal: a key, then optionally `:` and a value.
#[verifier::opaque]
pub open spec fn entry_at(s: Seq<u8>, pos: int, base: int) -> Option<
    ((ExprV, Option<ExprV>), nat),
>
    decreases left(s, pos), 49nat,
{
    let p = pos + spaces_at(s, pos);
    match atom_at(s, p, base) {
        None => None,
        Some((key, n)) => {
            let q = p + n + spaces_at(s, p + n);
            if byte_at(s, q, 58) {
                match expr_at(s, q + 1, base) {
                    Some((v, m)) => Some(((key, Some(v)), (q + 1 + m - pos) as nat)),
                    None => Some(((key, None), (p + n - pos) as nat)),
                }
            } else {
                Some(((key, None), (p + n - pos) as nat))
            }
        },
    }
}

/// Entries separated by commas up to `}`; the length takes in the `}`.
#[verifier::opaque]
pub open spec fn entries_at(s: Seq<u8>, pos: int, base: int) -> Option<
    (Seq<(ExprV, Option<ExprV>)>, nat),
>
    decreases left(s, pos), 51nat,
{
    let p = pos + spaces_at(s, pos);
    if byte_at(s, p, 125) {
        Some((Seq::empty(), (p + 1 - pos) as nat))
    } else {
        entry_items_at(s, pos, base, Seq::empty())
    }
}

/// One entry and the rest of the entries, appended to `acc`.
#[verifier::opaque]
pub open spec fn entry_items_at(
    s: Seq<u8>,
    pos: int,
    base: int,
    acc: Seq<(ExprV, Option<ExprV>)>,
) -> Option<(Seq<(ExprV, Option<ExprV>)>, nat)>
    decreases left(s, pos), 50nat,
{
    match entry_at(s, pos, base) {
        None => None,
        Some((e, n)) => {
            let q = pos + n + spaces_at(s, pos + n);
            if byte_at(s, q, 125) {
                Some((acc.push(e), (q + 1 - pos) as nat))
            } else if byte_at(s, q, 44) {
                shift(entry_items_at(s, q + 1, base, acc.push(e)), (q + 1 - pos) as nat)
            } else {
                None
            }
        },
    }
}

/// The pattern at `pos`, after optional whitespace: an identifier, patterns in
/// brackets, or entries in braces.
#[verifier::opaque]
pub open spec fn pattern_at(s: Seq<u8>, pos: int, base: int) -> Option<(PatternV, nat)>
    decreases left(s, pos), 40nat,
{
    let p = pos + spaces_at(s, pos);
    if ident_at(s, p) is Some {
        let n = ident_at(s, p).unwrap();
        Some((PatternV::Ident(s.subrange(p, p + n), span_at(base, p, p + n)), (p + n - pos) as nat))
    } else if byte_at(s, p, 91) {
        match pattern_list_at(s, p + 1, base) {
            Some((items, n)) => Some(
                (PatternV::Array(items, span_at(base, p, p + 1 + n)), (p + 1 + n - pos) as nat),
            ),
            None => None,
        }
    } else if byte_at(s, p, 123) {
        match pattern_entries_at(s, p + 1, base) {
            Some((entries, n)) => Some(
                (PatternV::Object(entries, span_at(base, p, p + 1 + n)), (p + 1 + n - pos) as nat),
            ),
            None => None,
        }
    } else {
        None
    }
}

/// Patterns separated by commas up to `]`; the length takes in the `]`.
#[verifier::opaque]
pub open spec fn pattern_list_at(s: Seq<u8>, pos: int, base: int) -> Option<(Seq<PatternV>, nat)>
    decreases left(s, pos), 51nat,
{
    let p = pos + spaces_at(s, pos);
    if byte_at(s, p, 93) {
        Some((Seq::empty(), (p + 1 - pos) as nat))
    } else {
        pattern_items_at(s, pos, base, Seq::empty())
    }
}

/// One pattern and the rest of the list, appended to `acc`.
#[verifier::opaque]
pub open spec fn pattern_items_at(s: Seq<u8>, pos: int, base: int, acc: Seq<PatternV>) -> Option<
    (Seq<PatternV>, nat),
>
    decreases left(s, pos), 50nat,
{
    match pattern_at(s, pos, base) {
        None => None,
        Some((e, n)) => {
            let q = pos + n + spaces_at(s, pos + n);
            if byte_at(s, q, 93) {
                Some((acc.push(e), (q + 1 - pos) as nat))
            } else if byte_at(s, q, 44) {
                shift(pattern_items_at(s, q + 1, base, acc.push(e)), (q + 1 - pos) as nat)
            } else {
                None
            }
        },
    }
}

/// An entry of an object pattern: a key, then optionally `:` and a pattern.
#[verifier::opaque]
pub open spec fn pattern_entry_at(s: Seq<u8>, pos: int, base: int) -> Option<
    ((ExprV, Option<PatternV>), nat),
>
    decreases left(s, pos), 49nat,
{
    let p = pos + spaces_at(s, pos);
    match atom_at(s, p, base) {
        None => None,
        Some((key, n)) => {
            let q = p + n + spaces_at(s, p + n);
            if byte_at(s, q, 58) {
                match pattern_at(s, q + 1, base) {
                    Some((v, m)) => Some(((key, Some(v)), (q + 1 + m - pos) as nat)),
                    None => Some(((key, None), (p + n - pos) as nat)),
                }
            } else {
                Some(((key, None), (p + n - pos) as nat))
            }
        },
    }
}

/// Pattern entries separated by commas up to `}`; the length takes in the `}`.
#[verifier::opaque]
pub open spec fn pattern_entries_at(s: Seq<u8>, pos: int, base: int) -> Option<
    (Seq<(ExprV, Option<PatternV>)>, nat),
>
    decreases left(s, pos), 51nat,
{
    let p = pos + spaces_at(s, pos);
    if byte_at(s, p, 125) {
        Some((Seq::empty(), (p + 1 - pos) as nat))
    } else {
        pattern_entry_items_at(s, pos, base, Seq::empty())
    }
}

/// One pattern entry and the rest of the entries, appended to `acc`.
#[verifier::opaque]
pub open spec fn pattern_entry_items_at(
    s: Seq<u8>,
    pos: int,
    base: int,
    acc: Seq<(ExprV, Option<PatternV>)>,
) -> Option<(Seq<(ExprV, Option<PatternV>)>, nat)>
    decreases left(s, pos), 50nat,
{
    match pattern_entry_at(s, pos, base) {
        None => None,
        Some((e, n)) => {
            let q = pos + n + spaces_at(s, pos + n);
            if byte_at(s, q, 125) {
                Some((acc.push(e), (q + 1 - pos) as nat))
            } else if byte_at(s, q, 44) {
                shift(pattern_entry_items_at(s, q + 1, base, acc.push(e)), (q + 1 - pos) as nat)
            } else {
                None
            }
        },
    }
}

} // verus!
