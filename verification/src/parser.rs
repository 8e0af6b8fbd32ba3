//! The parser of the expression language: executable recognisers that return
//! exactly what the grammar states.

use crate::error::{syntax_error, SyntaxError, SyntaxErrorV};
use crate::expr::{
    entries_model, exprs_model, option_model, option_pattern_model, pattern_entries_model,
    patterns_model, Expr, ExprV, Pattern, PatternV, Span,
};
use crate::grammar::{
    atom_at, binary_at, binary_rest, entries_at, entry_at, entry_items_at, expr_at, ident_at,
    items_at, left, list_at, number_at, op_at, pattern_at, pattern_entries_at, pattern_entry_at,
    pattern_entry_items_at, pattern_items_at, pattern_list_at, shift, span_at, string_at,
    string_body, suffix_rest, unary_at, unary_op_at, };
use crate::operator::{BinaryOp, UnaryOp};
use crate::text::{
    byte_at, copy_range, is_byte_at, lemma_run_bound, lit, read_digits, scan_run, skip_spaces,
    ByteClass,
};
use vstd::prelude::*;

verus! {

/// A pair with `d` added to its length.
pub open spec fn add_len<T>(r: (T, nat), d: nat) -> (T, nat) {
    (r.0, r.1 + d)
}

/// `r`, which ends at an absolute position, is what the grammar gives from `pos`.
pub open spec fn expr_parsed(r: Option<(Expr, usize)>, pos: usize, want: Option<(ExprV, nat)>) -> bool {
    match r {
        Some((e, end)) => pos <= end && want == Some((e@, (end - pos) as nat)),
        None => want is None,
    }
}

/// `r`, which ends at an absolute position, is what the grammar gives from `pos`.
pub open spec fn pattern_parsed(
    r: Option<(Pattern, usize)>,
    pos: usize,
    want: Option<(PatternV, nat)>,
) -> bool {
    match r {
        Some((e, end)) => pos <= end && want == Some((e@, (end - pos) as nat)),
        None => want is None,
    }
}

/// The model of a list with one more expression.
pub proof fn lemma_exprs_push(v: Seq<Expr>, e: Expr)
    ensures
        exprs_model(v.push(e)) == exprs_model(v).push(e.model()),
{
    assert(exprs_model(v.push(e)) =~= exprs_model(v).push(e.model()));
}

/// The model of a list with one more object entry.
pub proof fn lemma_entries_push(v: Seq<(Expr, Option<Expr>)>, e: (Expr, Option<Expr>))
    ensures
        entries_model(v.push(e)) == entries_model(v).push((e.0.model(), option_model(e.1))),
{
    assert(entries_model(v.push(e)) =~= entries_model(v).push((e.0.model(), option_model(e.1))));
}

/// The model of a list with one more pattern.
pub proof fn lemma_patterns_push(v: Seq<Pattern>, e: Pattern)
    ensures
        patterns_model(v.push(e)) == patterns_model(v).push(e.model()),
{
    assert(patterns_model(v.push(e)) =~= patterns_model(v).push(e.model()));
}

/// The model of a list with one more pattern entry.
pub proof fn lemma_pattern_entries_push(
    v: Seq<(Expr, Option<Pattern>)>,
    e: (Expr, Option<Pattern>),
)
    ensures
        pattern_entries_model(v.push(e)) == pattern_entries_model(v).push(
            (e.0.model(), option_pattern_model(e.1)),
        ),
{
    assert(pattern_entries_model(v.push(e)) =~= pattern_entries_model(v).push(
        (e.0.model(), option_pattern_model(e.1)),
    ));
}

fn span(base: usize, from: usize, to: usize) -> (r: Span)
    requires
        base + to <= usize::MAX,
        from <= to,
    ensures
        r == span_at(base as int, from as int, to as int),
{
    Some((base + from, base + to))
}

/// End of the identifier at `pos`.
pub fn read_ident(s: &[u8], pos: usize) -> (r: Option<usize>)
    requires
        pos <= s@.len(),
    ensures
        match r {
            Some(end) => pos < end <= s@.len() && ident_at(s@, pos as int) == Some(
                (end - pos) as nat,
            ),
            None => ident_at(s@, pos as int) is None,
        },
{
    if pos < s.len() {
        let b = s[pos];
        if (65 <= b && b <= 90) || (97 <= b && b <= 122) || b == 95 {
            let end = scan_run(s, pos, ByteClass::Word);
            return Some(end);
        }
    }
    None
}

/// Value and end of the number at `pos`.
pub fn read_number(s: &[u8], pos: usize) -> (r: Option<(i64, usize)>)
    requires
        pos <= s@.len(),
    ensures
        match r {
            Some((v, end)) => pos < end <= s@.len() && number_at(s@, pos as int) == Some(
                (v as int, (end - pos) as nat),
            ),
            None => number_at(s@, pos as int) is None,
        },
{
    let end = scan_run(s, pos, ByteClass::Digit);
    if end == pos {
        return None;
    }
    proof {
        lemma_run_bound(s@, pos as int, ByteClass::Digit);
    }
    match read_digits(s, pos, end) {
        Some(v) => Some((v, end)),
        None => None,
    }
}

/// Content and end of the string literal at `pos`.
pub fn read_string(s: &[u8], pos: usize) -> (r: Option<(Vec<u8>, usize)>)
    requires
        pos <= s@.len(),
    ensures
        match r {
            Some((t, end)) => pos < end <= s@.len() && string_at(s@, pos as int) == Some(
                (t@, (end - pos) as nat),
            ),
            None => string_at(s@, pos as int) is None,
        },
{
    if !(is_byte_at(s, pos, 34) || is_byte_at(s, pos, 39)) {
        return None;
    }
    let quote = s[pos];
    let mut out: Vec<u8> = Vec::new();
    let mut i: usize = pos + 1;
    loop
        invariant
            pos < i <= s@.len(),
            byte_at(s@, pos as int, 34) || byte_at(s@, pos as int, 39),
            quote == s@[pos as int],
            string_body(s@, pos + 1, quote, Seq::empty()) == string_body(s@, i as int, quote, out@),
        decreases s@.len() - i,
    {
        if i >= s.len() {
            return None;
        }
        let b = s[i];
        if b == quote {
            return Some((out, i + 1));
        } else if b == 92 {
            if i + 1 < s.len() {
                let c = s[i + 1];
                let u: u8 = if c == 110 {
                    10
                } else if c == 114 {
                    13
                } else if c == 116 {
                    9
                } else {
                    c
                };
                out.push(u);
                i += 2;
            } else {
                return None;
            }
        } else {
            out.push(b);
            i += 1;
        }
    }
}

/// The prefix operator at `pos`.
pub fn read_unary_op(s: &[u8], pos: usize) -> (r: Option<UnaryOp>)
    ensures
        r == unary_op_at(s@, pos as int),
        r is Some ==> pos < s@.len(),
{
    if is_byte_at(s, pos, 33) {
        Some(UnaryOp::Not)
    } else if is_byte_at(s, pos, 43) {
        Some(UnaryOp::Pos)
    } else if is_byte_at(s, pos, 45) {
        Some(UnaryOp::Neg)
    } else {
        None
    }
}

fn is_two_at(s: &[u8], pos: usize, a: u8, b: u8) -> (r: bool)
    ensures
        r == crate::grammar::two_at(s@, pos as int, a, b),
        r ==> pos + 2 <= s@.len(),
{
    pos < s.len() && s[pos] == a && pos + 1 < s.len() && s[pos + 1] == b
}

/// The infix operator of precedence `level` at `pos`, and its length.
pub fn read_op(s: &[u8], pos: usize, level: u8) -> (r: Option<(BinaryOp, usize)>)
    ensures
        match r {
            Some((op, k)) => op_at(s@, pos as int, level as nat) == Some((op, k as nat)) && 1 <= k
                <= 2 && pos + k <= s@.len(),
            None => op_at(s@, pos as int, level as nat) is None,
        },
{
    if level == 0 {
        if is_two_at(s, pos, 124, 124) {
            Some((BinaryOp::Or, 2))
        } else {
            None
        }
    } else if level == 1 {
        if is_two_at(s, pos, 38, 38) {
            Some((BinaryOp::And, 2))
        } else {
            None
        }
    } else if level == 2 {
        if is_byte_at(s, pos, 124) {
            Some((BinaryOp::BitOr, 1))
        } else {
            None
        }
    } else if level == 3 {
        if is_byte_at(s, pos, 94) {
            Some((BinaryOp::BitXor, 1))
        } else {
            None
        }
    } else if level == 4 {
        if is_byte_at(s, pos, 38) {
            Some((BinaryOp::BitAnd, 1))
        } else {
            None
        }
    } else if level == 5 {
        if is_two_at(s, pos, 61, 61) {
            Some((BinaryOp::Eq, 2))
        } else if is_two_at(s, pos, 33, 61) {
            Some((BinaryOp::Ne, 2))
        } else {
            None
        }
    } else if level == 6 {
        if is_two_at(s, pos, 60, 61) {
            Some((BinaryOp::Le, 2))
        } else if is_two_at(s, pos, 62, 61) {
            Some((BinaryOp::Ge, 2))
        } else if is_byte_at(s, pos, 60) {
            Some((BinaryOp::Lt, 1))
        } else if is_byte_at(s, pos, 62) {
            Some((BinaryOp::Gt, 1))
        } else {
            None
        }
    } else if level == 7 {
        if is_two_at(s, pos, 60, 60) {
            Some((BinaryOp::Shl, 2))
        } else if is_two_at(s, pos, 62, 62) {
            Some((BinaryOp::Shr, 2))
        } else {
            None
        }
    } else if level == 8 {
        if is_byte_at(s, pos, 43) {
            Some((BinaryOp::Add, 1))
        } else if is_byte_at(s, pos, 45) {
            Some((BinaryOp::Sub, 1))
        } else {
            None
        }
    } else if level == 9 {
        if is_byte_at(s, pos, 42) {
            Some((BinaryOp::Mul, 1))
        } else if is_byte_at(s, pos, 47) {
            Some((BinaryOp::Div, 1))
        } else if is_byte_at(s, pos, 37) {
            Some((BinaryOp::Mod, 1))
        } else {
            None
        }
    } else if level == 10 {
        if is_two_at(s, pos, 42, 42) {
            Some((BinaryOp::Pow, 2))
        } else {
            None
        }
    } else {
        None
    }
}

/// The expression at `pos` of `s`, with ranges counted from `base`, and where it ends.
#[verifier::spinoff_prover]
pub fn parse_expr_at(s: &[u8], pos: usize, base: usize) -> (r: Option<(Expr, usize)>)
    requires
        pos <= s@.len(),
        base + s@.len() <= usize::MAX,
    ensures
        expr_parsed(r, pos, expr_at(s@, pos as int, base as int)),
        r matches Some((_, end)) ==> end <= s@.len(),
    decreases left(s@, pos as int), 40nat,
{
    reveal(expr_at);
    reveal(binary_at);
    parse_binary(s, pos, base, 0)
}

/// An operand of precedence `level` at `pos`, and where it ends.
#[verifier::spinoff_prover]
pub fn parse_binary(s: &[u8], pos: usize, base: usize, level: u8) -> (r: Option<(Expr, usize)>)
    requires
        pos <= s@.len(),
        base + s@.len() <= usize::MAX,
        level <= 10,
    ensures
        expr_parsed(r, pos, binary_at(s@, pos as int, base as int, level as nat)),
        r matches Some((_, end)) ==> end <= s@.len(),
    decreases left(s@, pos as int), 30 - level,
{
    reveal(binary_at);
    reveal(binary_rest);
    reveal(unary_at);
    if level >= 10 {
        match parse_unary(s, pos, base) {
            None => None,
            Some((lhs, end)) => {
                let p = skip_spaces(s, end);
                match read_op(s, p, 10) {
                    None => Some((lhs, end)),
                    Some((op, k)) => match parse_binary(s, p + k, base, 10) {
                        None => Some((lhs, end)),
                        Some((rhs, end2)) => Some(
                            (
                                Expr::Binary(Box::new(lhs), op, Box::new(rhs), span(base, p, p + k)),
                                end2,
                            ),
                        ),
                    },
                }
            },
        }
    } else {
        match parse_binary(s, pos, base, level + 1) {
            None => None,
            Some((first, end)) => {
                let ghost first_model = first@;
                let mut lhs = first;
                let mut cur: usize = end;
                loop
                    invariant
                        pos <= end <= cur <= s@.len(),
                        base + s@.len() <= usize::MAX,
                        level < 10,
                        binary_at(s@, pos as int, base as int, level as nat) == Some(
                            add_len(
                                binary_rest(s@, cur as int, base as int, level as nat, lhs@),
                                (cur - pos) as nat,
                            ),
                        ),
                    decreases s@.len() - cur,
                {
                    reveal(binary_at);
                    reveal(binary_rest);
                    reveal(unary_at);
                    let p = skip_spaces(s, cur);
                    match read_op(s, p, level) {
                        None => {
                            return Some((lhs, cur));
                        },
                        Some((op, k)) => match parse_binary(s, p + k, base, level + 1) {
                            None => {
                                return Some((lhs, cur));
                            },
                            Some((rhs, end2)) => {
                                lhs =
                                Expr::Binary(Box::new(lhs), op, Box::new(rhs), span(base, p, p + k));
                                cur = end2;
                            },
                        },
                    }
                }
            },
        }
    }
}

/// Prefix operators and the operand they apply to at `pos`, and where it ends.
#[verifier::spinoff_prover]
pub fn parse_unary(s: &[u8], pos: usize, base: usize) -> (r: Option<(Expr, usize)>)
    requires
        pos <= s@.len(),
        base + s@.len() <= usize::MAX,
    ensures
        expr_parsed(r, pos, unary_at(s@, pos as int, base as int)),
        r matches Some((_, end)) ==> end <= s@.len(),
    decreases left(s@, pos as int), 10nat,
{
    reveal(unary_at);
    reveal(atom_at);
    reveal(suffix_rest);
    let p = skip_spaces(s, pos);
    match read_unary_op(s, p) {
        Some(op) => match parse_unary(s, p + 1, base) {
            Some((e, end)) => Some((Expr::Unary(op, Box::new(e), span(base, p, p + 1)), end)),
            None => None,
        },
        None => match parse_atom(s, p, base) {
            Some((a, end)) => {
                let (e, end2) = parse_suffixes(s, end, base, a);
                Some((e, end2))
            },
            None => None,
        },
    }
}

/// `first` with the suffixes that follow at `pos`, and where they end.
#[verifier::spinoff_prover]
pub fn parse_suffixes(s: &[u8], pos: usize, base: usize, first: Expr) -> (r: (Expr, usize))
    requires
        pos <= s@.len(),
        base + s@.len() <= usize::MAX,
    ensures
        pos <= r.1 <= s@.len(),
        suffix_rest(s@, pos as int, base as int, first@) == (r.0@, (r.1 - pos) as nat),
    decreases left(s@, pos as int), 5nat,
{
    reveal(suffix_rest);
    reveal(list_at);
    reveal(expr_at);
    let ghost first_model = first@;
    let mut lhs = first;
    let mut cur: usize = pos;
    loop
        invariant
            pos <= cur <= s@.len(),
            base + s@.len() <= usize::MAX,
            first_model == first@,
            suffix_rest(s@, pos as int, base as int, first_model) == add_len(
                suffix_rest(s@, cur as int, base as int, lhs@),
                (cur - pos) as nat,
            ),
        decreases s@.len() - cur,
    {
        reveal(suffix_rest);
        reveal(list_at);
        reveal(expr_at);
        let p = skip_spaces(s, cur);
        if is_byte_at(s, p, 40) {
            match parse_list(s, p + 1, base, 41) {
                Some((args, end)) => {
                    assert(suffix_rest(s@, cur as int, base as int, lhs@) == add_len(
                        suffix_rest(
                            s@,
                            end as int,
                            base as int,
                            ExprV::Apply(
                                Box::new(lhs@),
                                exprs_model(args@),
                                span_at(base as int, p as int, end as int),
                            ),
                        ),
                        (end - cur) as nat,
                    ));
                    lhs = Expr::Apply(Box::new(lhs), args, span(base, p, end));
                    cur = end;
                },
                None => {
                    return (lhs, cur);
                },
            }
        } else if is_byte_at(s, p, 91) {
            match parse_expr_at(s, p + 1, base) {
                Some((key, end)) => {
                    let q = skip_spaces(s, end);
                    if is_byte_at(s, q, 93) {
                        assert(suffix_rest(s@, cur as int, base as int, lhs@) == add_len(
                            suffix_rest(
                                s@,
                                q + 1,
                                base as int,
                                ExprV::Index(
                                    Box::new(lhs@),
                                    Box::new(key@),
                                    true,
                                    span_at(base as int, p as int, q + 1),
                                ),
                            ),
                            (q + 1 - cur) as nat,
                        ));
                        lhs = Expr::Index(Box::new(lhs), Box::new(key), true, span(base, p, q + 1));
                        cur = q + 1;
                    } else {
                        return (lhs, cur);
                    }
                },
                None => {
                    return (lhs, cur);
                },
            }
        } else if is_byte_at(s, p, 46) {
            let q = skip_spaces(s, p + 1);
            match read_ident(s, q) {
                Some(end) => {
                    let key = Expr::String(copy_range(s, q, end), span(base, q, end));
                    assert(suffix_rest(s@, cur as int, base as int, lhs@) == add_len(
                        suffix_rest(
                            s@,
                            end as int,
                            base as int,
                            ExprV::Index(
                                Box::new(lhs@),
                                Box::new(key@),
                                false,
                                span_at(base as int, p as int, end as int),
                            ),
                        ),
                        (end - cur) as nat,
                    ));
                    lhs = Expr::Index(Box::new(lhs), Box::new(key), false, span(base, p, end));
                    cur = end;
                },
                None => {
                    return (lhs, cur);
                },
            }
        } else {
            return (lhs, cur);
        }
    }
}

/// The atom that starts at `pos`, and where it ends.
#[verifier::spinoff_prover]
pub fn parse_atom(s: &[u8], pos: usize, base: usize) -> (r: Option<(Expr, usize)>)
    requires
        pos <= s@.len(),
        base + s@.len() <= usize::MAX,
    ensures
        expr_parsed(r, pos, atom_at(s@, pos as int, base as int)),
        r matches Some((_, end)) ==> end <= s@.len(),
    decreases left(s@, pos as int), 8nat,
{
    reveal(atom_at);
    reveal(list_at);
    reveal(entries_at);
    reveal(expr_at);
    if let Some((v, end)) = read_number(s, pos) {
        return Some((Expr::Number(v, span(base, pos, end)), end));
    }
    if let Some((t, end)) = read_string(s, pos) {
        return Some((Expr::String(t, span(base, pos, end)), end));
    }
    if let Some(end) = read_ident(s, pos) {
        return Some((Expr::Ident(copy_range(s, pos, end), span(base, pos, end)), end));
    }
    if is_byte_at(s, pos, 91) {
        match parse_list(s, pos + 1, base, 93) {
            Some((items, end)) => Some((Expr::Array(items, span(base, pos, end)), end)),
            None => None,
        }
    } else if is_byte_at(s, pos, 123) {
        match parse_entries(s, pos + 1, base) {
            Some((entries, end)) => Some((Expr::Object(entries, span(base, pos, end)), end)),
            None => None,
        }
    } else if is_byte_at(s, pos, 40) {
        match parse_expr_at(s, pos + 1, base) {
            Some((e, end)) => {
                let q = skip_spaces(s, end);
                if is_byte_at(s, q, 41) {
                    Some((e, q + 1))
                } else {
                    None
                }
            },
            None => None,
        }
    } else {
        None
    }
}

/// The expressions up to the byte `close`, and the position after it.
#[verifier::spinoff_prover]
pub fn parse_list(s: &[u8], pos: usize, base: usize, close: u8) -> (r: Option<(Vec<Expr>, usize)>)
    requires
        pos <= s@.len(),
        base + s@.len() <= usize::MAX,
    ensures
        match r {
            Some((v, end)) => pos < end <= s@.len() && list_at(
                s@,
                pos as int,
                base as int,
                close,
            ) == Some((exprs_model(v@), (end - pos) as nat)),
            None => list_at(s@, pos as int, base as int, close) is None,
        },
    decreases left(s@, pos as int), 51nat,
{
    reveal(list_at);
    reveal(items_at);
    reveal(expr_at);
    let p = skip_spaces(s, pos);
    if is_byte_at(s, p, close) {
        let v: Vec<Expr> = Vec::new();
        assert(exprs_model(v@) =~= Seq::empty());
        return Some((v, p + 1));
    }
    let mut items: Vec<Expr> = Vec::new();
    let mut cur: usize = pos;
    assert(exprs_model(items@) =~= Seq::empty());
    loop
        invariant
            pos <= cur <= s@.len(),
            base + s@.len() <= usize::MAX,
            list_at(s@, pos as int, base as int, close) == shift(
                items_at(s@, cur as int, base as int, close, exprs_model(items@)),
                (cur - pos) as nat,
            ),
        decreases s@.len() - cur,
    {
        reveal(list_at);
        reveal(items_at);
        reveal(expr_at);
        match parse_expr_at(s, cur, base) {
            None => {
                return None;
            },
            Some((e, end)) => {
                let q = skip_spaces(s, end);
                proof {
                    lemma_exprs_push(items@, e);
                }
                if is_byte_at(s, q, close) {
                    items.push(e);
                    return Some((items, q + 1));
                } else if is_byte_at(s, q, 44) {
                    items.push(e);
                    cur = q + 1;
                } else {
                    return None;
                }
            },
        }
    }
}

/// One entry of an object literal at `pos`, and where it ends.
#[verifier::spinoff_prover]
pub fn parse_entry(s: &[u8], pos: usize, base: usize) -> (r: Option<((Expr, Option<Expr>), usize)>)
    requires
        pos <= s@.len(),
        base + s@.len() <= usize::MAX,
    ensures
        match r {
            Some((e, end)) => pos <= end <= s@.len() && entry_at(s@, pos as int, base as int)
                == Some(((e.0@, option_model(e.1)), (end - pos) as nat)),
            None => entry_at(s@, pos as int, base as int) is None,
        },
    decreases left(s@, pos as int), 49nat,
{
    reveal(entry_at);
    reveal(atom_at);
    reveal(expr_at);
    let p = skip_spaces(s, pos);

    match parse_atom(s, p, base) {
        None => None,
        Some((key, end)) => {
            let q = skip_spaces(s, end);
            if is_byte_at(s, q, 58) {
                match parse_expr_at(s, q + 1, base) {
                    Some((v, end2)) => Some(((key, Some(v)), end2)),
                    None => Some(((key, None), end)),
                }
            } else {
                Some(((key, None), end))
            }
        },
    }
}

/// The entries of an object literal up to `}`, and the position after it.
#[verifier::spinoff_prover]
pub fn parse_entries(s: &[u8], pos: usize, base: usize) -> (r: Option<
    (Vec<(Expr, Option<Expr>)>, usize),
>)
    requires
        pos <= s@.len(),
        base + s@.len() <= usize::MAX,
    ensures
        match r {
            Some((v, end)) => pos < end <= s@.len() && entries_at(s@, pos as int, base as int)
                == Some((entries_model(v@), (end - pos) as nat)),
            None => entries_at(s@, pos as int, base as int) is None,
        },
    decreases left(s@, pos as int), 51nat,
{
    reveal(entries_at);
    reveal(entry_items_at);
    reveal(entry_at);
    let p = skip_spaces(s, pos);
    if is_byte_at(s, p, 125) {
        let v: Vec<(Expr, Option<Expr>)> = Vec::new();
        assert(entries_model(v@) =~= Seq::empty());
        return Some((v, p + 1));
    }
    let mut items: Vec<(Expr, Option<Expr>)> = Vec::new();
    let mut cur: usize = pos;
    assert(entries_model(items@) =~= Seq::empty());
    loop
        invariant
            pos <= cur <= s@.len(),
            base + s@.len() <= usize::MAX,
            entries_at(s@, pos as int, base as int) == shift(
                entry_items_at(s@, cur as int, base as int, entries_model(items@)),
                (cur - pos) as nat,
            ),
        decreases s@.len() - cur,
    {
        reveal(entries_at);
        reveal(entry_items_at);
        reveal(entry_at);
        match parse_entry(s, cur, base) {
            None => {
                return None;
            },
            Some((e, end)) => {
                let q = skip_spaces(s, end);
                proof {
                    lemma_entries_push(items@, e);
                }
                if is_byte_at(s, q, 125) {
                    items.push(e);
                    return Some((items, q + 1));
                } else if is_byte_at(s, q, 44) {
                    items.push(e);
                    cur = q + 1;
                } else {
                    return None;
                }
            },
        }
    }
}

/// The pattern at `pos` of `s`, with ranges counted from `base`, and where it ends.
#[verifier::spinoff_prover]
pub fn parse_pattern_at(s: &[u8], pos: usize, base: usize) -> (r: Option<(Pattern, usize)>)
    requires
        pos <= s@.len(),
        base + s@.len() <= usize::MAX,
    ensures
        pattern_parsed(r, pos, pattern_at(s@, pos as int, base as int)),
        r matches Some((_, end)) ==> end <= s@.len(),
    decreases left(s@, pos as int), 40nat,
{
    reveal(pattern_at);
    reveal(pattern_list_at);
    reveal(pattern_entries_at);
    let p = skip_spaces(s, pos);
    if let Some(end) = read_ident(s, p) {
        return Some((Pattern::Ident(copy_range(s, p, end), span(base, p, end)), end));
    }
    if is_byte_at(s, p, 91) {
        match parse_pattern_list(s, p + 1, base) {
            Some((items, end)) => Some((Pattern::Array(items, span(base, p, end)), end)),
            None => None,
        }
    } else if is_byte_at(s, p, 123) {
        match parse_pattern_entries(s, p + 1, base) {
            Some((entries, end)) => Some((Pattern::Object(entries, span(base, p, end)), end)),
            None => None,
        }
    } else {
        None
    }
}

/// The patterns up to `]`, and the position after it.
#[verifier::spinoff_prover]
pub fn parse_pattern_list(s: &[u8], pos: usize, base: usize) -> (r: Option<(Vec<Pattern>, usize)>)
    requires
        pos <= s@.len(),
        base + s@.len() <= usize::MAX,
    ensures
        match r {
            Some((v, end)) => pos < end <= s@.len() && pattern_list_at(
                s@,
                pos as int,
                base as int,
            ) == Some((patterns_model(v@), (end - pos) as nat)),
            None => pattern_list_at(s@, pos as int, base as int) is None,
        },
    decreases left(s@, pos as int), 51nat,
{
    reveal(pattern_list_at);
    reveal(pattern_items_at);
    reveal(pattern_at);
    let p = skip_spaces(s, pos);
    if is_byte_at(s, p, 93) {
        let v: Vec<Pattern> = Vec::new();
        assert(patterns_model(v@) =~= Seq::empty());
        return Some((v, p + 1));
    }
    let mut items: Vec<Pattern> = Vec::new();
    let mut cur: usize = pos;
    assert(patterns_model(items@) =~= Seq::empty());
    loop
        invariant
            pos <= cur <= s@.len(),
            base + s@.len() <= usize::MAX,
            pattern_list_at(s@, pos as int, base as int) == shift(
                pattern_items_at(s@, cur as int, base as int, patterns_model(items@)),
                (cur - pos) as nat,
            ),
        decreases s@.len() - cur,
    {
        reveal(pattern_list_at);
        reveal(pattern_items_at);
        reveal(pattern_at);
        match parse_pattern_at(s, cur, base) {
            None => {
                return None;
            },
            Some((e, end)) => {
                let q = skip_spaces(s, end);
                proof {
                    lemma_patterns_push(items@, e);
                }
                if is_byte_at(s, q, 93) {
                    items.push(e);
                    return Some((items, q + 1));
                } else if is_byte_at(s, q, 44) {
                    items.push(e);
                    cur = q + 1;
                } else {
                    return None;
                }
            },
        }
    }
}

/// One entry of an object pattern at `pos`, and where it ends.
#[verifier::spinoff_prover]
pub fn parse_pattern_entry(s: &[u8], pos: usize, base: usize) -> (r: Option<
    ((Expr, Option<Pattern>), usize),
>)
    requires
        pos <= s@.len(),
        base + s@.len() <= usize::MAX,
    ensures
        match r {
            Some((e, end)) => pos <= end <= s@.len() && pattern_entry_at(
                s@,
                pos as int,
                base as int,
            ) == Some(((e.0@, option_pattern_model(e.1)), (end - pos) as nat)),
            None => pattern_entry_at(s@, pos as int, base as int) is None,
        },
    decreases left(s@, pos as int), 49nat,
{
    reveal(pattern_entry_at);
    reveal(atom_at);
    reveal(pattern_at);
    let p = skip_spaces(s, pos);
    match parse_atom(s, p, base) {
        None => None,
        Some((key, end)) => {
            let q = skip_spaces(s, end);
            if is_byte_at(s, q, 58) {
                match parse_pattern_at(s, q + 1, base) {
                    Some((v, end2)) => Some(((key, Some(v)), end2)),
                    None => Some(((key, None), end)),
                }
            } else {
                Some(((key, None), end))
            }
        },
    }
}

/// The entries of an object pattern up to `}`, and the position after it.
#[verifier::spinoff_prover]
pub fn parse_pattern_entries(s: &[u8], pos: usize, base: usize) -> (r: Option<
    (Vec<(Expr, Option<Pattern>)>, usize),
>)
    requires
        pos <= s@.len(),
        base + s@.len() <= usize::MAX,
    ensures
        match r {
            Some((v, end)) => pos < end <= s@.len() && pattern_entries_at(
                s@,
                pos as int,
                base as int,
            ) == Some((pattern_entries_model(v@), (end - pos) as nat)),
            None => pattern_entries_at(s@, pos as int, base as int) is None,
        },
    decreases left(s@, pos as int), 51nat,
{
    reveal(pattern_entries_at);
    reveal(pattern_entry_items_at);
    reveal(pattern_entry_at);
    let p = skip_spaces(s, pos);
    if is_byte_at(s, p, 125) {
        let v: Vec<(Expr, Option<Pattern>)> = Vec::new();
        assert(pattern_entries_model(v@) =~= Seq::empty());
        return Some((v, p + 1));
    }
    let mut items: Vec<(Expr, Option<Pattern>)> = Vec::new();
    let mut cur: usize = pos;
    assert(pattern_entries_model(items@) =~= Seq::empty());
    loop
        invariant
            pos <= cur <= s@.len(),
            base + s@.len() <= usize::MAX,
            pattern_entries_at(s@, pos as int, base as int) == shift(
                pattern_entry_items_at(s@, cur as int, base as int, pattern_entries_model(items@)),
                (cur - pos) as nat,
            ),
        decreases s@.len() - cur,
    {
        reveal(pattern_entries_at);
        reveal(pattern_entry_items_at);
        reveal(pattern_entry_at);
        match parse_pattern_entry(s, cur, base) {
            None => {
                return None;
            },
            Some((e, end)) => {
                let q = skip_spaces(s, end);
                proof {
                    lemma_pattern_entries_push(items@, e);
                }
                if is_byte_at(s, q, 125) {
                    items.push(e);
                    return Some((items, q + 1));
                } else if is_byte_at(s, q, 44) {
                    items.push(e);
                    cur = q + 1;
                } else {
                    return None;
                }
            },
        }
    }
}

/// What `Expr::parse` gives for the text `s` at offset `offset`: the
/// expression at the start of `s` and the number of bytes read. A text so
/// long that its ranges cannot be stated is an error.
pub open spec fn parse_expr_spec(s: Seq<u8>, offset: usize) -> Result<(ExprV, nat), SyntaxErrorV> {
    if offset + s.len() > usize::MAX {
        Err(syntax_error(lit("template too long"), (0, 0)))
    } else {
        match expr_at(s, 0, offset as int) {
            Some(r) => Ok(r),
            None => Err(syntax_error(lit("expect expression"), (offset, offset))),
        }
    }
}

/// What `Pattern::parse` gives for the text `s` at offset `offset`.
pub open spec fn parse_pattern_spec(s: Seq<u8>, offset: usize) -> Result<
    (PatternV, nat),
    SyntaxErrorV,
> {
    if offset + s.len() > usize::MAX {
        Err(syntax_error(lit("template too long"), (0, 0)))
    } else {
        match pattern_at(s, 0, offset as int) {
            Some(r) => Ok(r),
            None => Err(syntax_error(lit("expect pattern"), (offset, offset))),
        }
    }
}

impl Expr {
    /// Parses the expression at the start of `input`. Ranges in the result are
    /// counted from `offset`; the second component is the number of bytes read.
    pub fn parse(input: &str, offset: usize) -> (r: Result<(Expr, usize), SyntaxError>)
        ensures
            match parse_expr_spec(lit(input), offset) {
                Ok((e, n)) => r matches Ok((x, m)) && x@ == e && m == n,
                Err(e) => r matches Err(x) && x@ == e,
            },
    {
        let s = input.as_bytes();
        if offset > usize::MAX - s.len() {
            return Err(SyntaxError::new("template too long", (0, 0)));
        }
        match parse_expr_at(s, 0, offset) {
            Some((e, end)) => Ok((e, end)),
            None => Err(SyntaxError::new("expect expression", (offset, offset))),
        }
    }
}

impl Pattern {
    /// Parses the pattern at the start of `input`. Ranges in the result are
    /// counted from `offset`; the second component is the number of bytes read.
    pub fn parse(input: &str, offset: usize) -> (r: Result<(Pattern, usize), SyntaxError>)
        ensures
            match parse_pattern_spec(lit(input), offset) {
                Ok((e, n)) => r matches Ok((x, m)) && x@ == e && m == n,
                Err(e) => r matches Err(x) && x@ == e,
            },
    {
        let s = input.as_bytes();
        if offset > usize::MAX - s.len() {
            return Err(SyntaxError::new("template too long", (0, 0)));
        }
        match parse_pattern_at(s, 0, offset) {
            Some((e, end)) => Ok((e, end)),
            None => Err(SyntaxError::new("expect pattern", (offset, offset))),
        }
    }

    /// The pattern that binds the one name `name`.
    pub fn name(name: &str) -> (r: Pattern)
        ensures
            r@ == PatternV::Ident(lit(name), None),
    {
        Pattern::Ident(crate::text::copy_bytes(name.as_bytes()), None)
    }

    /// The name, where the pattern is a single identifier.
    pub fn into_ident(self) -> (r: Option<Vec<u8>>)
        ensures
            match self@ {
                PatternV::Ident(name, _) => r matches Some(n) && n@ == name,
                _ => r is None,
            },
    {
        match self {
            Pattern::Ident(name, _) => Some(name),
            _ => None,
        }
    }
}

} // verus!
