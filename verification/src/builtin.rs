//! How each built-in directive reads the arguments of its tag.

use crate::directive::{
    Apply, Def, DefFn, DefVar, Directive, DirectiveKind, DirectiveV, For, If, Stub,
};
use crate::error::{syntax_error, SyntaxError, SyntaxErrorV};
use crate::expr::{exprs_model, params_model, Expr, ExprV, Pattern, PatternV};
use crate::grammar::left;
use crate::parser::lemma_exprs_push;
use crate::reader::{
    after_spaces, expr_step, keyword_step, mark_has_children, name_step, pattern_step, punct_step,
    read_expr, read_keyword, read_name, read_pattern, should_be_empty, should_not_be_empty,
    TagInfo, TagInfoV,
};
use crate::text::{bytes_eq, is_byte_at, lit, matches_at, quoted, skip_spaces};
use vstd::prelude::*;

verus! {

/// `(`
pub open spec fn open_paren() -> Seq<u8> {
    seq![40u8]
}

/// `)`
pub open spec fn close_paren() -> Seq<u8> {
    seq![41u8]
}

/// `,`
pub open spec fn comma() -> Seq<u8> {
    seq![44u8]
}

/// `=`
pub open spec fn equals() -> Seq<u8> {
    seq![61u8]
}

/// What a directive makes of a tag's arguments: the directive, and the
/// position after the arguments.
pub type Opened = Result<(DirectiveV, int), SyntaxErrorV>;

/// The range that a pattern was read from.
pub open spec fn pattern_range(p: PatternV) -> (usize, usize) {
    let span = match p {
        PatternV::Ident(_, r) => r,
        PatternV::Array(_, r) => r,
        PatternV::Object(_, r) => r,
    };
    match span {
        Some(r) => r,
        None => (0, 0),
    }
}

/// The name of a pattern that is one identifier.
pub open spec fn ident_of(p: PatternV) -> Result<Seq<u8>, SyntaxErrorV> {
    match p {
        PatternV::Ident(name, _) => Ok(name),
        _ => Err(syntax_error(lit("expected identifier"), pattern_range(p))),
    }
}

/// `if EXPR`, in a tag that has children.
pub open spec fn open_if(s: Seq<u8>, base: int, pos: int, info: TagInfoV) -> Opened {
    if !mark_has_children(info.mark) {
        Err(should_not_be_empty(info))
    } else {
        match expr_step(s, base, pos) {
            Ok((e, p)) => Ok((DirectiveV::If(e), p)),
            Err(e) => Err(e),
        }
    }
}

/// `for VALUE [, KEY] in EXPR`, in a tag that has children.
pub open spec fn open_for(s: Seq<u8>, base: int, pos: int, info: TagInfoV) -> Opened {
    if !mark_has_children(info.mark) {
        Err(should_not_be_empty(info))
    } else {
        match pattern_step(s, base, pos) {
            Err(e) => Err(e),
            Ok((vpat, pa)) => {
                let key: Result<(Option<PatternV>, int), SyntaxErrorV> = if matches_at(
                    s,
                    pa,
                    comma(),
                ) {
                    match pattern_step(s, base, after_spaces(s, pa + 1)) {
                        Ok((k, pb)) => Ok((Some(k), pb)),
                        Err(e) => Err(e),
                    }
                } else {
                    Ok((None, pa))
                };
                match key {
                    Err(e) => Err(e),
                    Ok((kpat, pb)) => match keyword_step(s, base, pb, lit("in")) {
                        Err(e) => Err(e),
                        Ok(pc) => match expr_step(s, base, pc) {
                            Err(e) => Err(e),
                            Ok((e, pd)) => Ok((DirectiveV::For(vpat, kpat, e), pd)),
                        },
                    },
                }
            },
        }
    }
}

/// The parameters of a function from `pos` on, appended to `acc`, up to the
/// `)` that ends them: each a pattern, optionally `=` and a default, with
/// commas between them.
pub open spec fn def_params(
    s: Seq<u8>,
    base: int,
    pos: int,
    acc: Seq<(PatternV, Option<ExprV>)>,
) -> Result<(Seq<(PatternV, Option<ExprV>)>, int), SyntaxErrorV>
    decreases left(s, pos),
{
    if matches_at(s, pos, close_paren()) {
        Ok((acc, after_spaces(s, pos + 1)))
    } else {
        match pattern_step(s, base, pos) {
            Err(e) => Err(e),
            Ok((pat, pa)) => {
                let default: Result<(Option<ExprV>, int), SyntaxErrorV> = if matches_at(
                    s,
                    pa,
                    equals(),
                ) {
                    match expr_step(s, base, after_spaces(s, pa + 1)) {
                        Ok((e, pb)) => Ok((Some(e), pb)),
                        Err(e) => Err(e),
                    }
                } else {
                    Ok((None, pa))
                };
                match default {
                    Err(e) => Err(e),
                    Ok((d, pb)) => if matches_at(s, pb, comma()) && pb >= pos {
                        def_params(s, base, after_spaces(s, pb + 1), acc.push((pat, d)))
                    } else {
                        match punct_step(s, base, pb, close_paren()) {
                            Ok(pc) => Ok((acc.push((pat, d)), pc)),
                            Err(e) => Err(e),
                        }
                    },
                }
            },
        }
    }
}

/// `def PAT = EXPR` in an inline tag; `def NAME(PARAMS) = EXPR` in an inline
/// tag; `def NAME(PARAMS)` or `def NAME` in a tag that has children.
pub open spec fn open_def(s: Seq<u8>, base: int, pos: int, info: TagInfoV) -> Opened {
    match pattern_step(s, base, pos) {
        Err(e) => Err(e),
        Ok((pat, pa)) => if matches_at(s, pa, open_paren()) {
            match ident_of(pat) {
                Err(e) => Err(e),
                Ok(name) => match def_params(s, base, after_spaces(s, pa + 1), Seq::empty()) {
                    Err(e) => Err(e),
                    Ok((params, pb)) => if matches_at(s, pb, equals()) {
                        if info.mark != '@' {
                            Err(should_be_empty(info))
                        } else {
                            match expr_step(s, base, after_spaces(s, pb + 1)) {
                                Err(e) => Err(e),
                                Ok((e, pc)) => Ok((DirectiveV::DefFn(name, params, Some(e)), pc)),
                            }
                        }
                    } else if !mark_has_children(info.mark) {
                        Err(should_not_be_empty(info))
                    } else {
                        Ok((DirectiveV::DefFn(name, params, None), pb))
                    },
                },
            }
        } else if matches_at(s, pa, equals()) {
            if info.mark != '@' {
                Err(should_be_empty(info))
            } else {
                match expr_step(s, base, after_spaces(s, pa + 1)) {
                    Err(e) => Err(e),
                    Ok((e, pb)) => Ok((DirectiveV::DefVar(pat, e), pb)),
                }
            }
        } else {
            match ident_of(pat) {
                Err(e) => Err(e),
                Ok(name) => if !mark_has_children(info.mark) {
                    Err(should_not_be_empty(info))
                } else {
                    Ok((DirectiveV::DefFn(name, Seq::empty(), None), pa))
                },
            }
        },
    }
}

/// The arguments of a call from `pos` on, appended to `acc`, up to the `)`
/// that ends them.
pub open spec fn call_args(s: Seq<u8>, base: int, pos: int, acc: Seq<ExprV>) -> Result<
    (Seq<ExprV>, int),
    SyntaxErrorV,
>
    decreases left(s, pos),
{
    if matches_at(s, pos, close_paren()) {
        Ok((acc, after_spaces(s, pos + 1)))
    } else {
        match expr_step(s, base, pos) {
            Err(e) => Err(e),
            Ok((e, pa)) => if matches_at(s, pa, comma()) && pa >= pos {
                call_args(s, base, after_spaces(s, pa + 1), acc.push(e))
            } else {
                match punct_step(s, base, pa, close_paren()) {
                    Ok(pb) => Ok((acc.push(e), pb)),
                    Err(e) => Err(e),
                }
            },
        }
    }
}

/// `apply NAME` or `apply NAME(ARGS)`, in an inline tag.
pub open spec fn open_apply(s: Seq<u8>, base: int, pos: int, info: TagInfoV) -> Opened {
    match name_step(s, base, pos) {
        Err(e) => Err(e),
        Ok((name, _, pa)) => {
            let args = if matches_at(s, pa, open_paren()) {
                call_args(s, base, after_spaces(s, pa + 1), Seq::empty())
            } else {
                Ok((Seq::empty(), pa))
            };
            match args {
                Err(e) => Err(e),
                Ok((args, pb)) => if info.mark != '@' {
                    Err(should_be_empty(info))
                } else {
                    Ok((DirectiveV::Apply(name, args), pb))
                },
            }
        },
    }
}

/// What the directive of `kind` makes of the arguments at `pos`.
pub open spec fn open_spec(kind: DirectiveKind, s: Seq<u8>, base: int, pos: int, info: TagInfoV) -> Opened {
    match kind {
        DirectiveKind::Stub => Ok((DirectiveV::Stub, pos)),
        DirectiveKind::If => open_if(s, base, pos, info),
        DirectiveKind::For => open_for(s, base, pos, info),
        DirectiveKind::Def => open_def(s, base, pos, info),
        DirectiveKind::Apply => open_apply(s, base, pos, info),
    }
}

/// One of `tags` is an `else`.
pub open spec fn has_else(tags: Seq<TagInfoV>) -> bool {
    exists|i: int| 0 <= i < tags.len() && (#[trigger] tags[i]).name == lit("else")
}

/// Whether a block of the directive `parent`, with the branches `tags` so
/// far, takes the branch `info`: `if` takes none once one of its branches is
/// an `else`, so an `else` is the last branch and there is at most one.
pub open spec fn branch_spec(parent: DirectiveKind, tags: Seq<TagInfoV>, info: TagInfoV) -> Result<
    (),
    SyntaxErrorV,
> {
    if parent == DirectiveKind::If && has_else(tags) {
        Err(syntax_error(quoted(info.name) + lit(" cannot come after 'else'"), info.range))
    } else {
        Ok(())
    }
}

/// `r` is what `want` states, and its position lies in the text.
pub open spec fn opened(r: Result<(Directive, usize), SyntaxError>, want: Opened, from: usize, len: int) -> bool {
    match want {
        Ok((d, p)) => r matches Ok((x, q)) && x@ == d && q == p && from <= q <= len,
        Err(e) => r matches Err(x) && x@ == e,
    }
}

fn has_byte(s: &[u8], pos: usize, b: u8) -> (r: bool)
    ensures
        r == matches_at(s@, pos as int, seq![b]),
        r ==> pos < s@.len(),
{
    let r = is_byte_at(s, pos, b);
    proof {
        if pos < s@.len() {
            assert(s@.subrange(pos as int, pos + 1) =~= seq![s@[pos as int]]);
            if r {
                assert(seq![s@[pos as int]] =~= seq![b]);
            } else {
                assert(seq![s@[pos as int]][0] != seq![b][0]);
            }
        }
    }
    r
}

fn read_close_paren(s: &[u8], base: usize, pos: usize) -> (r: Result<usize, SyntaxError>)
    requires
        pos <= s@.len(),
        base + s@.len() <= usize::MAX,
    ensures
        match punct_step(s@, base as int, pos as int, close_paren()) {
            Ok(p) => r matches Ok(q) && q == p && pos < q <= s@.len(),
            Err(e) => r matches Err(x) && x@ == e,
        },
{
    if has_byte(s, pos, 41) {
        Ok(skip_spaces(s, pos + 1))
    } else {
        let name: Vec<u8> = vec![41u8];
        assert(name@ =~= close_paren());
        Err(SyntaxError::named("expected punctuation ", name.as_slice(), (base + pos, base + pos)))
    }
}

fn ident_name(p: Pattern) -> (r: Result<Vec<u8>, SyntaxError>)
    ensures
        match ident_of(p@) {
            Ok(n) => r matches Ok(x) && x@ == n,
            Err(e) => r matches Err(x) && x@ == e,
        },
{
    let range = match &p {
        Pattern::Ident(_, r) => *r,
        Pattern::Array(_, r) => *r,
        Pattern::Object(_, r) => *r,
    };
    match p {
        Pattern::Ident(name, _) => Ok(name),
        _ => Err(
            SyntaxError::new(
                "expected identifier",
                match range {
                    Some(r) => r,
                    None => (0, 0),
                },
            ),
        ),
    }
}

impl Stub {
    /// Takes no arguments.
    pub fn open(s: &[u8], base: usize, pos: usize, info: &TagInfo) -> (r: Result<
        (Directive, usize),
        SyntaxError,
    >)
        requires
            pos <= s@.len(),
        ensures
            opened(
                r,
                open_spec(DirectiveKind::Stub, s@, base as int, pos as int, info@),
                pos,
                s@.len() as int,
            ),
    {
        Ok((Directive::Stub(Stub), pos))
    }
}

impl If {
    /// Reads the condition.
    pub fn open(s: &[u8], base: usize, pos: usize, info: &TagInfo) -> (r: Result<
        (Directive, usize),
        SyntaxError,
    >)
        requires
            pos <= s@.len(),
            base + s@.len() <= usize::MAX,
        ensures
            opened(r, open_if(s@, base as int, pos as int, info@), pos, s@.len() as int),
    {
        match info.expect_children() {
            Err(e) => Err(e),
            Ok(()) => match read_expr(s, base, pos) {
                Ok((e, p)) => Ok((Directive::If(If { expr: e }), p)),
                Err(e) => Err(e),
            },
        }
    }

    /// Whether an `if` block with the branches `tags` takes the branch `info`.
    pub fn branch(tags: &Vec<TagInfo>, info: &TagInfo) -> (r: Result<(), SyntaxError>)
        ensures
            match branch_spec(DirectiveKind::If, tags_model(tags@), info@) {
                Ok(()) => r is Ok,
                Err(e) => r matches Err(x) && x@ == e,
            },
    {
        let mut i: usize = 0;
        while i < tags.len()
            invariant
                i <= tags.len(),
                forall|j: int| 0 <= j < i ==> (#[trigger] tags_model(tags@)[j]).name != lit("else"),
            decreases tags.len() - i,
        {
            if bytes_eq(tags[i].name.as_slice(), "else".as_bytes()) {
                assert(tags_model(tags@)[i as int].name == lit("else"));
                let mut m: Vec<u8> = Vec::new();
                crate::text::append_quoted(&mut m, info.name.as_slice());
                crate::text::append_str(&mut m, " cannot come after 'else'");
                return Err(SyntaxError { message: m, range: (info.range.0, info.range.1) });
            }
            assert(tags_model(tags@)[i as int].name != lit("else"));
            i += 1;
        }
        Ok(())
    }
}

/// The models of a list of tags.
pub open spec fn tags_model(v: Seq<TagInfo>) -> Seq<TagInfoV> {
    Seq::new(v.len(), |i: int| v[i]@)
}

impl For {
    /// Reads the patterns and the expression to walk.
    pub fn open(s: &[u8], base: usize, pos: usize, info: &TagInfo) -> (r: Result<
        (Directive, usize),
        SyntaxError,
    >)
        requires
            pos <= s@.len(),
            base + s@.len() <= usize::MAX,
        ensures
            opened(r, open_for(s@, base as int, pos as int, info@), pos, s@.len() as int),
    {
        match info.expect_children() {
            Err(e) => {
                return Err(e);
            },
            Ok(()) => {},
        }
        let (vpat, pa) = match read_pattern(s, base, pos) {
            Ok(x) => x,
            Err(e) => {
                return Err(e);
            },
        };
        let (kpat, pb) = if has_byte(s, pa, 44) {
            match read_pattern(s, base, skip_spaces(s, pa + 1)) {
                Ok((k, p)) => (Some(k), p),
                Err(e) => {
                    return Err(e);
                },
            }
        } else {
            (None, pa)
        };
        let pc = match read_keyword(s, base, pb, "in".as_bytes()) {
            Ok(p) => p,
            Err(e) => {
                return Err(e);
            },
        };
        match read_expr(s, base, pc) {
            Ok((e, pd)) => Ok((Directive::For(For { vpat, kpat, expr: e }), pd)),
            Err(e) => Err(e),
        }
    }
}

fn read_params(s: &[u8], base: usize, pos: usize) -> (r: Result<
    (Vec<(Pattern, Option<Expr>)>, usize),
    SyntaxError,
>)
    requires
        pos <= s@.len(),
        base + s@.len() <= usize::MAX,
    ensures
        match def_params(s@, base as int, pos as int, Seq::empty()) {
            Ok((params, p)) => r matches Ok((x, q)) && params_model(x@) == params && q == p && pos
                <= q <= s@.len(),
            Err(e) => r matches Err(x) && x@ == e,
        },
{
    let mut params: Vec<(Pattern, Option<Expr>)> = Vec::new();
    let mut cur: usize = pos;
    assert(params_model(params@) =~= Seq::empty());
    loop
        invariant
            pos <= cur <= s@.len(),
            base + s@.len() <= usize::MAX,
            def_params(s@, base as int, pos as int, Seq::empty()) == def_params(
                s@,
                base as int,
                cur as int,
                params_model(params@),
            ),
        decreases s@.len() - cur,
    {
        if has_byte(s, cur, 41) {
            return Ok((params, skip_spaces(s, cur + 1)));
        }
        let (pat, pa) = match read_pattern(s, base, cur) {
            Ok(x) => x,
            Err(e) => {
                return Err(e);
            },
        };
        let (default, pb) = if has_byte(s, pa, 61) {
            match read_expr(s, base, skip_spaces(s, pa + 1)) {
                Ok((e, p)) => (Some(e), p),
                Err(e) => {
                    return Err(e);
                },
            }
        } else {
            (None, pa)
        };
        let ghost before = params_model(params@);
        let ghost entry = (pat@, crate::expr::option_model(default));
        params.push((pat, default));
        assert(params_model(params@) =~= before.push(entry));
        if has_byte(s, pb, 44) {
            cur = skip_spaces(s, pb + 1);
        } else {
            return match read_close_paren(s, base, pb) {
                Ok(pc) => Ok((params, pc)),
                Err(e) => Err(e),
            };
        }
    }
}

impl Def {
    /// Reads a binding or a function header.
    pub fn open(s: &[u8], base: usize, pos: usize, info: &TagInfo) -> (r: Result<
        (Directive, usize),
        SyntaxError,
    >)
        requires
            pos <= s@.len(),
            base + s@.len() <= usize::MAX,
        ensures
            opened(r, open_def(s@, base as int, pos as int, info@), pos, s@.len() as int),
    {
        let (pat, pa) = match read_pattern(s, base, pos) {
            Ok(x) => x,
            Err(e) => {
                return Err(e);
            },
        };
        if has_byte(s, pa, 40) {
            let name = match ident_name(pat) {
                Ok(n) => n,
                Err(e) => {
                    return Err(e);
                },
            };
            let (params, pb) = match read_params(s, base, skip_spaces(s, pa + 1)) {
                Ok(x) => x,
                Err(e) => {
                    return Err(e);
                },
            };
            if has_byte(s, pb, 61) {
                match info.expect_empty() {
                    Err(e) => {
                        return Err(e);
                    },
                    Ok(()) => {},
                }
                match read_expr(s, base, skip_spaces(s, pb + 1)) {
                    Ok((e, pc)) => Ok(
                        (Directive::Def(Def::Fn(DefFn { ident: name, params, expr: Some(e) })), pc),
                    ),
                    Err(e) => Err(e),
                }
            } else {
                match info.expect_children() {
                    Err(e) => Err(e),
                    Ok(()) => Ok(
                        (Directive::Def(Def::Fn(DefFn { ident: name, params, expr: None })), pb),
                    ),
                }
            }
        } else if has_byte(s, pa, 61) {
            match info.expect_empty() {
                Err(e) => {
                    return Err(e);
                },
                Ok(()) => {},
            }
            match read_expr(s, base, skip_spaces(s, pa + 1)) {
                Ok((e, pb)) => Ok((Directive::Def(Def::Var(DefVar { pat, expr: e })), pb)),
                Err(e) => Err(e),
            }
        } else {
            let name = match ident_name(pat) {
                Ok(n) => n,
                Err(e) => {
                    return Err(e);
                },
            };
            match info.expect_children() {
                Err(e) => Err(e),
                Ok(()) => {
                    let params: Vec<(Pattern, Option<Expr>)> = Vec::new();
                    assert(params_model(params@) =~= Seq::empty());
                    Ok((Directive::Def(Def::Fn(DefFn { ident: name, params, expr: None })), pa))
                },
            }
        }
    }
}

fn read_args(s: &[u8], base: usize, pos: usize) -> (r: Result<(Vec<Expr>, usize), SyntaxError>)
    requires
        pos <= s@.len(),
        base + s@.len() <= usize::MAX,
    ensures
        match call_args(s@, base as int, pos as int, Seq::empty()) {
            Ok((args, p)) => r matches Ok((x, q)) && exprs_model(x@) == args && q == p && pos <= q
                <= s@.len(),
            Err(e) => r matches Err(x) && x@ == e,
        },
{
    let mut args: Vec<Expr> = Vec::new();
    let mut cur: usize = pos;
    assert(exprs_model(args@) =~= Seq::empty());
    loop
        invariant
            pos <= cur <= s@.len(),
            base + s@.len() <= usize::MAX,
            call_args(s@, base as int, pos as int, Seq::empty()) == call_args(
                s@,
                base as int,
                cur as int,
                exprs_model(args@),
            ),
        decreases s@.len() - cur,
    {
        if has_byte(s, cur, 41) {
            return Ok((args, skip_spaces(s, cur + 1)));
        }
        let (e, pa) = match read_expr(s, base, cur) {
            Ok(x) => x,
            Err(e) => {
                return Err(e);
            },
        };
        proof {
            lemma_exprs_push(args@, e);
        }
        args.push(e);
        if has_byte(s, pa, 44) {
            cur = skip_spaces(s, pa + 1);
        } else {
            return match read_close_paren(s, base, pa) {
                Ok(pb) => Ok((args, pb)),
                Err(e) => Err(e),
            };
        }
    }
}

impl Apply {
    /// Reads the name of the function and its arguments.
    pub fn open(s: &[u8], base: usize, pos: usize, info: &TagInfo) -> (r: Result<
        (Directive, usize),
        SyntaxError,
    >)
        requires
            pos <= s@.len(),
            base + s@.len() <= usize::MAX,
        ensures
            opened(r, open_apply(s@, base as int, pos as int, info@), pos, s@.len() as int),
    {
        let (name, _, pa) = match read_name(s, base, pos) {
            Ok(x) => x,
            Err(e) => {
                return Err(e);
            },
        };
        let (args, pb) = if has_byte(s, pa, 40) {
            match read_args(s, base, skip_spaces(s, pa + 1)) {
                Ok(x) => x,
                Err(e) => {
                    return Err(e);
                },
            }
        } else {
            let v: Vec<Expr> = Vec::new();
            assert(exprs_model(v@) =~= Seq::empty());
            (v, pa)
        };
        match info.expect_empty() {
            Err(e) => Err(e),
            Ok(()) => Ok((Directive::Apply(Apply { name, args }), pb)),
        }
    }
}

impl DirectiveKind {
    /// Lets the directive of this kind read the arguments of a tag.
    pub fn open(self, s: &[u8], base: usize, pos: usize, info: &TagInfo) -> (r: Result<
        (Directive, usize),
        SyntaxError,
    >)
        requires
            pos <= s@.len(),
            base + s@.len() <= usize::MAX,
        ensures
            opened(r, open_spec(self, s@, base as int, pos as int, info@), pos, s@.len() as int),
    {
        match self {
            DirectiveKind::Stub => Stub::open(s, base, pos, info),
            DirectiveKind::If => If::open(s, base, pos, info),
            DirectiveKind::For => For::open(s, base, pos, info),
            DirectiveKind::Def => Def::open(s, base, pos, info),
            DirectiveKind::Apply => Apply::open(s, base, pos, info),
        }
    }

    /// Whether a block of this directive takes the branch `info` after `tags`.
    pub fn branch(self, tags: &Vec<TagInfo>, info: &TagInfo) -> (r: Result<(), SyntaxError>)
        ensures
            match branch_spec(self, tags_model(tags@), info@) {
                Ok(()) => r is Ok,
                Err(e) => r matches Err(x) && x@ == e,
            },
    {
        match self {
            DirectiveKind::If => If::branch(tags, info),
            _ => Ok(()),
        }
    }
}

impl Directive {
    /// What a directive makes of the tag that closes its block: the built-in
    /// directives take every closing tag, and stay as they are.
    pub fn close(&mut self, info: &TagInfo) -> (r: Result<(), SyntaxError>)
        ensures
            r is Ok,
            *final(self) == *old(self),
    {
        Ok(())
    }

    /// The kind of the directive.
    pub fn kind_of(&self) -> (r: DirectiveKind)
        ensures
            r == self.kind(),
    {
        match self {
            Directive::Stub(_) => DirectiveKind::Stub,
            Directive::If(_) => DirectiveKind::If,
            Directive::For(_) => DirectiveKind::For,
            Directive::Def(_) => DirectiveKind::Def,
            Directive::Apply(_) => DirectiveKind::Apply,
        }
    }
}

} // verus!
