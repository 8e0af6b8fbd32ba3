//! The syntax trees of the expression language: expressions and binding
//! patterns, each with its mathematical model.

use crate::operator::{BinaryOp, UnaryOp};
use crate::text::copy_bytes;
use vstd::prelude::*;

verus! {

/// Half-open range of byte offsets in the source, where it is known.
pub type Span = Option<(usize, usize)>;

/// A copy of a range.
pub fn copy_span(span: &Span) -> (r: Span)
    ensures
        r == *span,
{
    match span {
        Some(r) => Some((r.0, r.1)),
        None => None,
    }
}

/// An expression.
#[derive(Debug, PartialEq)]
pub enum Expr {
    Number(i64, Span),
    String(Vec<u8>, Span),
    Ident(Vec<u8>, Span),
    Array(Vec<Expr>, Span),
    /// Entries of a key and a value; a shorthand entry has no value.
    Object(Vec<(Expr, Option<Expr>)>, Span),
    Apply(Box<Expr>, Vec<Expr>, Span),
    Unary(UnaryOp, Box<Expr>, Span),
    Binary(Box<Expr>, BinaryOp, Box<Expr>, Span),
    /// Base, key, and whether the key was written in brackets.
    Index(Box<Expr>, Box<Expr>, bool, Span),
}

/// The model of an expression.
pub enum ExprV {
    Number(int, Span),
    String(Seq<u8>, Span),
    Ident(Seq<u8>, Span),
    Array(Seq<ExprV>, Span),
    Object(Seq<(ExprV, Option<ExprV>)>, Span),
    Apply(Box<ExprV>, Seq<ExprV>, Span),
    Unary(UnaryOp, Box<ExprV>, Span),
    Binary(Box<ExprV>, BinaryOp, Box<ExprV>, Span),
    Index(Box<ExprV>, Box<ExprV>, bool, Span),
}

/// A binding pattern.
#[derive(Debug, PartialEq)]
pub enum Pattern {
    Ident(Vec<u8>, Span),
    Array(Vec<Pattern>, Span),
    /// Entries of a key and a pattern; a shorthand entry binds the key's own name.
    Object(Vec<(Expr, Option<Pattern>)>, Span),
}

/// The model of a pattern.
pub enum PatternV {
    Ident(Seq<u8>, Span),
    Array(Seq<PatternV>, Span),
    Object(Seq<(ExprV, Option<PatternV>)>, Span),
}

impl Expr {
    /// The model of the expression.
    pub open spec fn model(self) -> ExprV
        decreases self,
    {
        match self {
            Expr::Number(n, r) => ExprV::Number(n as int, r),
            Expr::String(s, r) => ExprV::String(s@, r),
            Expr::Ident(s, r) => ExprV::Ident(s@, r),
            Expr::Array(v, r) => ExprV::Array(exprs_model(v@), r),
            Expr::Object(v, r) => ExprV::Object(entries_model(v@), r),
            Expr::Apply(f, v, r) => ExprV::Apply(Box::new((*f).model()), exprs_model(v@), r),
            Expr::Unary(op, e, r) => ExprV::Unary(op, Box::new((*e).model()), r),
            Expr::Binary(a, op, b, r) => ExprV::Binary(
                Box::new((*a).model()),
                op,
                Box::new((*b).model()),
                r,
            ),
            Expr::Index(a, b, bracket, r) => ExprV::Index(
                Box::new((*a).model()),
                Box::new((*b).model()),
                bracket,
                r,
            ),
        }
    }
}

/// The models of a list of expressions.
pub open spec fn exprs_model(v: Seq<Expr>) -> Seq<ExprV>
    decreases v,
{
    Seq::new(
        v.len(),
        |i: int|
            if 0 <= i < v.len() {
                v[i].model()
            } else {
                ExprV::Number(0, None)
            },
    )
}

/// The model of an expression that may be absent.
pub open spec fn option_model(o: Option<Expr>) -> Option<ExprV>
    decreases o,
{
    match o {
        Some(e) => Some(e.model()),
        None => None,
    }
}

/// The models of the entries of an object literal.
pub open spec fn entries_model(v: Seq<(Expr, Option<Expr>)>) -> Seq<(ExprV, Option<ExprV>)>
    decreases v,
{
    Seq::new(
        v.len(),
        |i: int|
            if 0 <= i < v.len() {
                (v[i].0.model(), option_model(v[i].1))
            } else {
                (ExprV::Number(0, None), None)
            },
    )
}

impl View for Expr {
    type V = ExprV;

    open spec fn view(&self) -> ExprV {
        self.model()
    }
}

impl Pattern {
    /// The model of the pattern.
    pub open spec fn model(self) -> PatternV
        decreases self,
    {
        match self {
            Pattern::Ident(s, r) => PatternV::Ident(s@, r),
            Pattern::Array(v, r) => PatternV::Array(patterns_model(v@), r),
            Pattern::Object(v, r) => PatternV::Object(pattern_entries_model(v@), r),
        }
    }
}

/// The models of a list of patterns.
pub open spec fn patterns_model(v: Seq<Pattern>) -> Seq<PatternV>
    decreases v,
{
    Seq::new(
        v.len(),
        |i: int|
            if 0 <= i < v.len() {
                v[i].model()
            } else {
                PatternV::Ident(Seq::empty(), None)
            },
    )
}

/// The model of a pattern that may be absent.
pub open spec fn option_pattern_model(o: Option<Pattern>) -> Option<PatternV>
    decreases o,
{
    match o {
        Some(p) => Some(p.model()),
        None => None,
    }
}

/// The models of the entries of an object pattern.
pub open spec fn pattern_entries_model(v: Seq<(Expr, Option<Pattern>)>) -> Seq<
    (ExprV, Option<PatternV>),
>
    decreases v,
{
    Seq::new(
        v.len(),
        |i: int|
            if 0 <= i < v.len() {
                (v[i].0.model(), option_pattern_model(v[i].1))
            } else {
                (ExprV::Number(0, None), None)
            },
    )
}

impl View for Pattern {
    type V = PatternV;

    open spec fn view(&self) -> PatternV {
        self.model()
    }
}

/// A parameter list: each parameter is a pattern with an optional default.
pub open spec fn params_model(v: Seq<(Pattern, Option<Expr>)>) -> Seq<(PatternV, Option<ExprV>)> {
    Seq::new(v.len(), |i: int| (v[i].0.model(), option_model(v[i].1)))
}

/// A copy of a list of expressions.
pub fn clone_exprs(v: &Vec<Expr>) -> (r: Vec<Expr>)
    ensures
        exprs_model(r@) == exprs_model(v@),
    decreases v,
{
    let mut out: Vec<Expr> = Vec::new();
    let mut i: usize = 0;
    while i < v.len()
        invariant
            i <= v.len(),
            out@.len() == i,
            forall|j: int| 0 <= j < i ==> out@[j].model() == v@[j].model(),
        decreases v.len() - i,
    {
        out.push(v[i].clone());
        i += 1;
    }
    assert(exprs_model(out@) =~= exprs_model(v@));
    out
}

/// A copy of an expression that may be absent.
pub fn clone_option(o: &Option<Expr>) -> (r: Option<Expr>)
    ensures
        option_model(r) == option_model(*o),
    decreases o,
{
    match o {
        Some(e) => Some(e.clone()),
        None => None,
    }
}

/// A copy of the entries of an object literal.
pub fn clone_entries(v: &Vec<(Expr, Option<Expr>)>) -> (r: Vec<(Expr, Option<Expr>)>)
    ensures
        entries_model(r@) == entries_model(v@),
    decreases v,
{
    let mut out: Vec<(Expr, Option<Expr>)> = Vec::new();
    let mut i: usize = 0;
    while i < v.len()
        invariant
            i <= v.len(),
            out@.len() == i,
            forall|j: int|
                0 <= j < i ==> out@[j].0.model() == v@[j].0.model() && option_model(out@[j].1)
                    == option_model(v@[j].1),
        decreases v.len() - i,
    {
        let k = v[i].0.clone();
        let e = clone_option(&v[i].1);
        out.push((k, e));
        i += 1;
    }
    assert(entries_model(out@) =~= entries_model(v@));
    out
}

impl Clone for Expr {
    fn clone(&self) -> (r: Self)
        ensures
            r@ == self@,
        decreases self,
    {
        match self {
            Expr::Number(n, r) => Expr::Number(*n, copy_span(r)),
            Expr::String(s, r) => Expr::String(copy_bytes(s.as_slice()), copy_span(r)),
            Expr::Ident(s, r) => Expr::Ident(copy_bytes(s.as_slice()), copy_span(r)),
            Expr::Array(v, r) => Expr::Array(clone_exprs(v), copy_span(r)),
            Expr::Object(v, r) => Expr::Object(clone_entries(v), copy_span(r)),
            Expr::Apply(f, v, r) => Expr::Apply(Box::new((**f).clone()), clone_exprs(v), copy_span(r)),
            Expr::Unary(op, e, r) => Expr::Unary(*op, Box::new((**e).clone()), copy_span(r)),
            Expr::Binary(a, op, b, r) => Expr::Binary(
                Box::new((**a).clone()),
                *op,
                Box::new((**b).clone()),
                copy_span(r),
            ),
            Expr::Index(a, b, bracket, r) => Expr::Index(
                Box::new((**a).clone()),
                Box::new((**b).clone()),
                *bracket,
                copy_span(r),
            ),
        }
    }
}

/// A copy of a list of patterns.
pub fn clone_patterns(v: &Vec<Pattern>) -> (r: Vec<Pattern>)
    ensures
        patterns_model(r@) == patterns_model(v@),
    decreases v,
{
    let mut out: Vec<Pattern> = Vec::new();
    let mut i: usize = 0;
    while i < v.len()
        invariant
            i <= v.len(),
            out@.len() == i,
            forall|j: int| 0 <= j < i ==> out@[j].model() == v@[j].model(),
        decreases v.len() - i,
    {
        out.push(v[i].clone());
        i += 1;
    }
    assert(patterns_model(out@) =~= patterns_model(v@));
    out
}

/// A copy of a pattern that may be absent.
pub fn clone_option_pattern(o: &Option<Pattern>) -> (r: Option<Pattern>)
    ensures
        option_pattern_model(r) == option_pattern_model(*o),
    decreases o,
{
    match o {
        Some(e) => Some(e.clone()),
        None => None,
    }
}

/// A copy of the entries of an object pattern.
pub fn clone_pattern_entries(v: &Vec<(Expr, Option<Pattern>)>) -> (r: Vec<(Expr, Option<Pattern>)>)
    ensures
        pattern_entries_model(r@) == pattern_entries_model(v@),
    decreases v,
{
    let mut out: Vec<(Expr, Option<Pattern>)> = Vec::new();
    let mut i: usize = 0;
    while i < v.len()
        invariant
            i <= v.len(),
            out@.len() == i,
            forall|j: int|
                0 <= j < i ==> out@[j].0.model() == v@[j].0.model() && option_pattern_model(
                    out@[j].1,
                ) == option_pattern_model(v@[j].1),
        decreases v.len() - i,
    {
        let k = v[i].0.clone();
        let e = clone_option_pattern(&v[i].1);
        out.push((k, e));
        i += 1;
    }
    assert(pattern_entries_model(out@) =~= pattern_entries_model(v@));
    out
}

impl Clone for Pattern {
    fn clone(&self) -> (r: Self)
        ensures
            r@ == self@,
        decreases self,
    {
        match self {
            Pattern::Ident(s, r) => Pattern::Ident(copy_bytes(s.as_slice()), copy_span(r)),
            Pattern::Array(v, r) => Pattern::Array(clone_patterns(v), copy_span(r)),
            Pattern::Object(v, r) => Pattern::Object(clone_pattern_entries(v), copy_span(r)),
        }
    }
}

/// A copy of a parameter list.
pub fn clone_params(v: &Vec<(Pattern, Option<Expr>)>) -> (r: Vec<(Pattern, Option<Expr>)>)
    ensures
        params_model(r@) == params_model(v@),
{
    let mut out: Vec<(Pattern, Option<Expr>)> = Vec::new();
    let mut i: usize = 0;
    while i < v.len()
        invariant
            i <= v.len(),
            out@.len() == i,
            forall|j: int|
                0 <= j < i ==> out@[j].0.model() == v@[j].0.model() && option_model(out@[j].1)
                    == option_model(v@[j].1),
        decreases v.len() - i,
    {
        let k = v[i].0.clone();
        let e = clone_option(&v[i].1);
        out.push((k, e));
        i += 1;
    }
    assert(params_model(out@) =~= params_model(v@));
    out
}

} // verus!
