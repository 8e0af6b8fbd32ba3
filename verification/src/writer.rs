//! The evaluator and the renderer: executable code that computes exactly what
//! the semantics state. Evaluation, binding, function calls and rendering
//! call one another; every call either goes one level of function calls
//! deeper, of which a context allows finitely many, or works on a smaller
//! piece of the tree.

use crate::context::Context;
use crate::directive::{
    clone_nodes, nodes_model, Def, Definition, Directive, Element, Node,
};
use crate::error::{RuntimeError, RuntimeErrorV};
use crate::expr::{
    clone_params, entries_model, exprs_model, option_model, option_pattern_model, params_model,
    pattern_entries_model, patterns_model, Expr, Pattern, };
use crate::laws::{lemma_object_literal_sorted, sorted_fields};
use crate::operator::value_result;
use crate::scopes::{grown, lemma_bind_grows};
use crate::semantics::{
    apply_spec, bind_field, bind_fields, bind_items, bind_params, bind_spec, call_spec, eval_field,
    eval_fields, eval_items, eval_spec, ident_value, key_text, lookup,
    pattern_entries_text, pattern_items_text, pattern_text, render_branches, render_element,
    render_from, render_loop, render_node, render_round, render_spec, Frames, Made, Outcome,
};
use crate::text::{append, append_quoted, append_str, bytes_eq, copy_bytes, lit, push_number};
use crate::value::{
    fields_model, get_field, lemma_values_push, pairs_model, set_field, share, values_model, Value,
    ValueV,
};
use std::rc::Rc;
use vstd::prelude::*;

verus! {

/// `r`, the frames and the count of serials afterwards are what `want` states.
pub open spec fn unit_outcome(
    r: Result<(), RuntimeError>,
    frames: Frames,
    next: u64,
    want: Outcome<()>,
) -> bool {
    frames == want.1 && next == want.2 && match want.0 {
        Ok(()) => r is Ok,
        Err(e) => r matches Err(x) && x@ == e,
    }
}

/// `r`, the frames and the count of serials afterwards are what `want` states.
pub open spec fn text_outcome(
    r: Result<Vec<u8>, RuntimeError>,
    frames: Frames,
    next: u64,
    want: Outcome<Seq<u8>>,
) -> bool {
    frames == want.1 && next == want.2 && match want.0 {
        Ok(t) => r matches Ok(x) && x@ == t,
        Err(e) => r matches Err(x) && x@ == e,
    }
}

/// `r` is what `want` states.
pub open spec fn text_result(
    r: Result<Vec<u8>, RuntimeError>,
    want: Result<Seq<u8>, RuntimeErrorV>,
) -> bool {
    match want {
        Ok(t) => r matches Ok(x) && x@ == t,
        Err(e) => r matches Err(x) && x@ == e,
    }
}

/// `r` and the count of serials afterwards are what `want` states.
pub open spec fn value_made(r: Result<Value, RuntimeError>, next: u64, want: Made<ValueV>) -> bool {
    next == want.1 && value_result(r, want.0)
}

/// `r` and the count of serials afterwards are what `want` states.
pub open spec fn text_made(r: Result<Vec<u8>, RuntimeError>, next: u64, want: Made<Seq<u8>>) -> bool {
    next == want.1 && text_result(r, want.0)
}

fn write_key(out: &mut Vec<u8>, key: &Expr)
    ensures
        final(out)@ == old(out)@ + key_text(key@),
{
    match key {
        Expr::Ident(name, _) => {
            append(out, name.as_slice());
        },
        Expr::String(s, _) => {
            append_quoted(out, s.as_slice());
        },
        Expr::Number(n, _) => {
            push_number(out, *n);
        },
        _ => {
            append_str(out, "?");
        },
    }
}

/// Appends the text of `p` to `out`.
pub fn write_pattern(out: &mut Vec<u8>, p: &Pattern)
    ensures
        final(out)@ == old(out)@ + pattern_text(p@),
    decreases p,
{
    let ghost start = out@;
    match p {
        Pattern::Ident(name, _) => {
            append(out, name.as_slice());
        },
        Pattern::Array(items, _) => {
            append_str(out, "[");
            let ghost models = patterns_model(items@);
            let mut i: usize = 0;
            while i < items.len()
                invariant
                    i <= items.len(),
                    models == patterns_model(items@),
                    decreases_to!(*p => *items),
                    out@ == start + lit("[") + pattern_items_text(models, i as nat),
                decreases items.len() - i,
            {
                if i > 0 {
                    append_str(out, ", ");
                }
                write_pattern(out, &items[i]);
                i += 1;
                assert(out@ =~= start + lit("[") + pattern_items_text(models, i as nat));
            }
            append_str(out, "]");
            assert(out@ =~= start + pattern_text(p@));
        },
        Pattern::Object(entries, _) => {
            append_str(out, "{");
            let ghost models = pattern_entries_model(entries@);
            let mut i: usize = 0;
            while i < entries.len()
                invariant
                    i <= entries.len(),
                    models == pattern_entries_model(entries@),
                    decreases_to!(*p => *entries),
                    out@ == start + lit("{") + pattern_entries_text(models, i as nat),
                decreases entries.len() - i,
            {
                if i > 0 {
                    append_str(out, ", ");
                }
                write_key(out, &entries[i].0);
                match &entries[i].1 {
                    Some(q) => {
                        append_str(out, ": ");
                        write_pattern(out, q);
                    },
                    None => {},
                }
                i += 1;
                assert(out@ =~= start + lit("{") + pattern_entries_text(models, i as nat));
            }
            append_str(out, "}");
            assert(out@ =~= start + pattern_text(p@));
        },
    }
}

impl Pattern {
    /// The text of the pattern, as errors show it.
    pub fn to_text(&self) -> (r: Vec<u8>)
        ensures
            r@ == pattern_text(self@),
    {
        let mut out: Vec<u8> = Vec::new();
        write_pattern(&mut out, self);
        assert(out@ =~= pattern_text(self@));
        out
    }
}

fn ident(ctx: &Context, name: &Vec<u8>) -> (r: Value)
    ensures
        r.model() == ident_value(ctx.frames(), name@),
{
    if bytes_eq(name.as_slice(), "true".as_bytes()) {
        Value::Bool(true)
    } else if bytes_eq(name.as_slice(), "false".as_bytes()) {
        Value::Bool(false)
    } else if bytes_eq(name.as_slice(), "null".as_bytes()) {
        Value::Null
    } else {
        ctx.get(name.as_slice())
    }
}

/// The value of `e` in `ctx`. The frames of `ctx` stay as they are; its count
/// of serials moves past those of the values that were made.
#[verifier::spinoff_prover]
pub fn eval_expr(ctx: &mut Context, e: &Expr) -> (r: Result<Value, RuntimeError>)
    ensures
        final(ctx).frames() == old(ctx).frames(),
        final(ctx).depth() == old(ctx).depth(),
        value_made(
            r,
            final(ctx).next(),
            eval_spec(old(ctx).frames(), old(ctx).next(), old(ctx).depth(), e@),
        ),
    decreases old(ctx).depth(), 1nat, e, 1nat, 0nat,
{
    match e {
        Expr::Number(n, _) => Ok(Value::Number(*n)),
        Expr::String(s, _) => Ok(Value::String(copy_bytes(s.as_slice()))),
        Expr::Ident(name, _) => Ok(ident(ctx, name)),
        Expr::Array(items, _) => match eval_list(ctx, items) {
            Ok(v) => {
                let id = ctx.fresh();
                Ok(Value::Array(id, v))
            },
            Err(e) => Err(e),
        },
        Expr::Object(entries, _) => match eval_entries(ctx, entries) {
            Ok(v) => {
                let id = ctx.fresh();
                Ok(Value::Object(id, v))
            },
            Err(e) => Err(e),
        },
        Expr::Apply(f, args, _) => match eval_expr(ctx, f) {
            Ok(fv) => apply_value(ctx, &fv, args),
            Err(e) => Err(e),
        },
        Expr::Unary(op, x, _) => match eval_expr(ctx, x) {
            Ok(v) => op.eval(v),
            Err(e) => Err(e),
        },
        Expr::Binary(a, op, b, _) => match eval_expr(ctx, a) {
            Ok(x) => match eval_expr(ctx, b) {
                Ok(y) => op.eval(x, y),
                Err(e) => Err(e),
            },
            Err(e) => Err(e),
        },
        Expr::Index(a, b, _, _) => match eval_expr(ctx, a) {
            Ok(x) => match eval_expr(ctx, b) {
                Ok(y) => x.get(&y),
                Err(e) => Err(e),
            },
            Err(e) => Err(e),
        },
    }
}

/// The values of `items` in `ctx`, in order.
#[verifier::spinoff_prover]
pub fn eval_list(ctx: &mut Context, items: &Vec<Expr>) -> (r: Result<Vec<Rc<Value>>, RuntimeError>)
    ensures
        final(ctx).frames() == old(ctx).frames(),
        final(ctx).depth() == old(ctx).depth(),
        final(ctx).next() == eval_items(
            old(ctx).frames(),
            old(ctx).next(),
            old(ctx).depth(),
            exprs_model(items@),
            0,
            Seq::empty(),
        ).1,
        match eval_items(
            old(ctx).frames(),
            old(ctx).next(),
            old(ctx).depth(),
            exprs_model(items@),
            0,
            Seq::empty(),
        ).0 {
            Ok(vs) => r matches Ok(v) && values_model(v@) == vs,
            Err(e) => r matches Err(x) && x@ == e,
        },
    decreases old(ctx).depth(), 1nat, items, 0nat, 0nat,
{
    let mut out: Vec<Rc<Value>> = Vec::new();
    let mut i: usize = 0;
    assert(values_model(out@) =~= Seq::empty());
    while i < items.len()
        invariant
            i <= items.len(),
            ctx.frames() == old(ctx).frames(),
            ctx.depth() == old(ctx).depth(),
            eval_items(
                old(ctx).frames(),
                old(ctx).next(),
                old(ctx).depth(),
                exprs_model(items@),
                0,
                Seq::empty(),
            ) == eval_items(
                old(ctx).frames(),
                ctx.next(),
                old(ctx).depth(),
                exprs_model(items@),
                i as nat,
                values_model(out@),
            ),
        decreases items.len() - i,
    {
        assert(exprs_model(items@)[i as int] == items@[i as int]@);
        match eval_expr(ctx, &items[i]) {
            Err(e) => {
                return Err(e);
            },
            Ok(v) => {
                let rc = v.into_rc();
                proof {
                    lemma_values_push(out@, rc);
                }
                out.push(rc);
                i += 1;
            },
        }
    }
    Ok(out)
}

/// The key and the value of one entry of an object literal.
#[verifier::spinoff_prover]
pub fn eval_entry(ctx: &mut Context, entry: &(Expr, Option<Expr>)) -> (r: Result<
    (Vec<u8>, Value),
    RuntimeError,
>)
    ensures
        final(ctx).frames() == old(ctx).frames(),
        final(ctx).depth() == old(ctx).depth(),
        final(ctx).next() == eval_field(
            old(ctx).frames(),
            old(ctx).next(),
            old(ctx).depth(),
            (entry.0@, option_model(entry.1)),
        ).1,
        match eval_field(
            old(ctx).frames(),
            old(ctx).next(),
            old(ctx).depth(),
            (entry.0@, option_model(entry.1)),
        ).0 {
            Ok((k, v)) => r matches Ok(x) && x.0@ == k && x.1.model() == v,
            Err(e) => r matches Err(x) && x@ == e,
        },
    decreases old(ctx).depth(), 1nat, entry, 0nat, 0nat,
{
    let value: Option<Value> = match &entry.1 {
        Some(e) => match eval_expr(ctx, e) {
            Ok(v) => Some(v),
            Err(e) => {
                return Err(e);
            },
        },
        None => None,
    };
    match &entry.0 {
        Expr::Ident(name, _) => {
            let v = match value {
                Some(v) => v,
                None => ctx.get(name.as_slice()),
            };
            Ok((copy_bytes(name.as_slice()), v))
        },
        key => match eval_expr(ctx, key) {
            Err(e) => Err(e),
            Ok(kv) => match kv.as_string() {
                Err(e) => Err(e),
                Ok(k) => match value {
                    Some(v) => Ok((k, v)),
                    None => Err(RuntimeError::Shorthand),
                },
            },
        },
    }
}

/// The fields that `entries` make in `ctx`, in the order of their keys, no
/// key twice.
#[verifier::spinoff_prover]
pub fn eval_entries(ctx: &mut Context, entries: &Vec<(Expr, Option<Expr>)>) -> (r: Result<
    Vec<(Vec<u8>, Rc<Value>)>,
    RuntimeError,
>)
    ensures
        final(ctx).frames() == old(ctx).frames(),
        final(ctx).depth() == old(ctx).depth(),
        final(ctx).next() == eval_fields(
            old(ctx).frames(),
            old(ctx).next(),
            old(ctx).depth(),
            entries_model(entries@),
            0,
            Seq::empty(),
        ).1,
        match eval_fields(
            old(ctx).frames(),
            old(ctx).next(),
            old(ctx).depth(),
            entries_model(entries@),
            0,
            Seq::empty(),
        ).0 {
            Ok(fs) => r matches Ok(v) && fields_model(v@) == fs,
            Err(e) => r matches Err(x) && x@ == e,
        },
        r matches Ok(v) ==> sorted_fields(fields_model(v@)),
    decreases old(ctx).depth(), 1nat, entries, 0nat, 0nat,
{
    proof {
        if eval_fields(
            ctx.frames(),
            ctx.next(),
            ctx.depth(),
            entries_model(entries@),
            0,
            Seq::empty(),
        ).0 is Ok {
            lemma_object_literal_sorted(
                ctx.frames(),
                ctx.next(),
                ctx.depth(),
                entries_model(entries@),
                0,
                Seq::empty(),
            );
        }
    }
    let mut out: Vec<(Vec<u8>, Rc<Value>)> = Vec::new();
    let mut i: usize = 0;
    assert(fields_model(out@) =~= Seq::empty());
    while i < entries.len()
        invariant
            i <= entries.len(),
            ctx.frames() == old(ctx).frames(),
            ctx.depth() == old(ctx).depth(),
            eval_fields(
                old(ctx).frames(),
                old(ctx).next(),
                old(ctx).depth(),
                entries_model(entries@),
                0,
                Seq::empty(),
            ) == eval_fields(
                old(ctx).frames(),
                ctx.next(),
                old(ctx).depth(),
                entries_model(entries@),
                i as nat,
                fields_model(out@),
            ),
        decreases entries.len() - i,
    {
        assert(entries_model(entries@)[i as int] == (
            entries@[i as int].0@,
            option_model(entries@[i as int].1),
        ));
        match eval_entry(ctx, &entries[i]) {
            Err(e) => {
                return Err(e);
            },
            Ok((k, v)) => {
                set_field(&mut out, k, v.into_rc());
                i += 1;
            },
        }
    }
    Ok(out)
}

/// The result of calling `f` with the values of `args` in `ctx`.
#[verifier::spinoff_prover]
pub fn apply_value(ctx: &mut Context, f: &Value, args: &Vec<Expr>) -> (r: Result<
    Value,
    RuntimeError,
>)
    ensures
        final(ctx).frames() == old(ctx).frames(),
        final(ctx).depth() == old(ctx).depth(),
        value_made(
            r,
            final(ctx).next(),
            apply_spec(
                old(ctx).frames(),
                old(ctx).next(),
                old(ctx).depth(),
                f.model(),
                exprs_model(args@),
            ),
        ),
    decreases old(ctx).depth(), 1nat, args, 1nat, 0nat,
{
    match f.as_abs() {
        Err(e) => Err(e),
        Ok(_) => match eval_list(ctx, args) {
            Err(e) => Err(e),
            Ok(argv) => match ctx.enter() {
                None => Err(RuntimeError::Depth),
                Some(inner) => {
                    let (r, next) = call(inner, f, argv);
                    ctx.advance(next);
                    r
                },
            },
        },
    }
}

/// The result of the body of `f` in `inner`, the frames of the call, after
/// the parameters of `f` are bound there to `argv`; and the count of serials
/// after the call.
#[verifier::spinoff_prover]
pub fn call(inner: Context, f: &Value, argv: Vec<Rc<Value>>) -> (r: (
    Result<Value, RuntimeError>,
    u64,
))
    ensures
        value_made(
            r.0,
            r.1,
            call_spec(
                inner.frames(),
                inner.next(),
                inner.depth(),
                f.model(),
                values_model(argv@),
            ),
        ),
    decreases inner.depth(), 4nat, f, 2nat, 0nat,
{
    let mut ctx = inner;
    match f.as_abs() {
        Err(e) => (Err(e), ctx.next_serial()),
        Ok((params, body)) => {
            if argv.len() > params.len() {
                return (
                    Err(RuntimeError::Arguments(params.len(), argv.len())),
                    ctx.next_serial(),
                );
            }
            let mut i: usize = 0;
            while i < params.len()
                invariant
                    i <= params.len(),
                    ctx.depth() == inner.depth(),
                    bind_params(
                        inner.frames(),
                        inner.next(),
                        inner.depth(),
                        params_model(params@),
                        values_model(argv@),
                        0,
                    ) == bind_params(
                        ctx.frames(),
                        ctx.next(),
                        inner.depth(),
                        params_model(params@),
                        values_model(argv@),
                        i as nat,
                    ),
                    f.model() is Closure,
                    f.model()->Closure_1 == params_model(params@),
                    f.model()->Closure_2 == body@,
                    argv@.len() <= params@.len(),
                decreases params.len() - i,
            {
                assert(params_model(params@)[i as int] == (
                    params@[i as int].0@,
                    option_model(params@[i as int].1),
                ));
                let value = if i < argv.len() {
                    assert(values_model(argv@)[i as int] == (*argv@[i as int]).model());
                    Value::from_rc(share(&argv[i]))
                } else {
                    match &params[i].1 {
                        Some(e) => match eval_expr(&mut ctx, e) {
                            Ok(v) => v,
                            Err(e) => {
                                return (Err(e), ctx.next_serial());
                            },
                        },
                        None => {
                            return (
                                Err(RuntimeError::Missing(params[i].0.to_text())),
                                ctx.next_serial(),
                            );
                        },
                    }
                };
                match bind_pattern(&mut ctx, &params[i].0, value) {
                    Err(e) => {
                        return (Err(e), ctx.next_serial());
                    },
                    Ok(()) => {},
                }
                i += 1;
            }
            match body {
                Definition::Inline(e) => {
                    let r = eval_expr(&mut ctx, e);
                    (r, ctx.next_serial())
                },
                Definition::Block(nodes) => match render(&mut ctx, nodes) {
                    Ok(text) => (Ok(Value::String(text)), ctx.next_serial()),
                    Err(e) => (Err(e), ctx.next_serial()),
                },
            }
        },
    }
}

/// Binds `v` to the pattern `p` in the innermost frame of `ctx`.
#[verifier::spinoff_prover]
pub fn bind_pattern(ctx: &mut Context, p: &Pattern, v: Value) -> (r: Result<(), RuntimeError>)
    ensures
        final(ctx).depth() == old(ctx).depth(),
        unit_outcome(
            r,
            final(ctx).frames(),
            final(ctx).next(),
            bind_spec(old(ctx).frames(), old(ctx).next(), old(ctx).depth(), p@, v.model()),
        ),
    decreases old(ctx).depth(), 2nat, p, 1nat, 0nat,
{
    match p {
        Pattern::Ident(name, _) => ctx.set(copy_bytes(name.as_slice()), v),
        Pattern::Array(pats, _) => match v.into_array() {
            Err(e) => Err(e),
            Ok(items) => {
                let mut i: usize = 0;
                while i < pats.len()
                    invariant
                        i <= pats.len(),
                        ctx.depth() == old(ctx).depth(),
                        decreases_to!(*p => *pats),
                        *p is Array,
                        p@ is Array,
                        p@->Array_0 == patterns_model(pats@),
                        v.model() is Array,
                        v.model()->Array_1 == values_model(items@),
                        bind_items(
                            old(ctx).frames(),
                            old(ctx).next(),
                            old(ctx).depth(),
                            patterns_model(pats@),
                            values_model(items@),
                            0,
                        ) == bind_items(
                            ctx.frames(),
                            ctx.next(),
                            old(ctx).depth(),
                            patterns_model(pats@),
                            values_model(items@),
                            i as nat,
                        ),
                    decreases pats.len() - i,
                {
                    assert(patterns_model(pats@)[i as int] == pats@[i as int]@);
                    let value = if i < items.len() {
                        assert(values_model(items@)[i as int] == (*items@[i as int]).model());
                        Value::from_rc(share(&items[i]))
                    } else {
                        Value::Null
                    };
                    match bind_pattern(ctx, &pats[i], value) {
                        Err(e) => {
                            return Err(e);
                        },
                        Ok(()) => {},
                    }
                    i += 1;
                }
                Ok(())
            },
        },
        Pattern::Object(entries, _) => match v.into_object() {
            Err(e) => Err(e),
            Ok(fields) => {
                let mut i: usize = 0;
                while i < entries.len()
                    invariant
                        i <= entries.len(),
                        ctx.depth() == old(ctx).depth(),
                        decreases_to!(*p => *entries),
                        p@ is Object,
                        p@->Object_0 == pattern_entries_model(entries@),
                        v.model() is Object,
                        v.model()->Object_1 == fields_model(fields@),
                        bind_fields(
                            old(ctx).frames(),
                            old(ctx).next(),
                            old(ctx).depth(),
                            pattern_entries_model(entries@),
                            fields_model(fields@),
                            0,
                        ) == bind_fields(
                            ctx.frames(),
                            ctx.next(),
                            old(ctx).depth(),
                            pattern_entries_model(entries@),
                            fields_model(fields@),
                            i as nat,
                        ),
                    decreases entries.len() - i,
                {
                    assert(pattern_entries_model(entries@)[i as int] == (
                        entries@[i as int].0@,
                        option_pattern_model(entries@[i as int].1),
                    ));
                    match bind_entry(ctx, &entries[i], &fields) {
                        Err(e) => {
                            return Err(e);
                        },
                        Ok(()) => {},
                    }
                    i += 1;
                }
                Ok(())
            },
        },
    }
}

/// Binds one entry of an object pattern to the field of its key.
#[verifier::spinoff_prover]
pub fn bind_entry(
    ctx: &mut Context,
    entry: &(Expr, Option<Pattern>),
    fields: &Vec<(Vec<u8>, Rc<Value>)>,
) -> (r: Result<(), RuntimeError>)
    ensures
        final(ctx).depth() == old(ctx).depth(),
        unit_outcome(
            r,
            final(ctx).frames(),
            final(ctx).next(),
            bind_field(
                old(ctx).frames(),
                old(ctx).next(),
                old(ctx).depth(),
                (entry.0@, option_pattern_model(entry.1)),
                fields_model(fields@),
            ),
        ),
    decreases old(ctx).depth(), 2nat, entry, 0nat, 0nat,
{
    match &entry.0 {
        Expr::Ident(name, _) => {
            let value = get_field(fields, name.as_slice());
            match &entry.1 {
                Some(p) => bind_pattern(ctx, p, value),
                None => ctx.set(copy_bytes(name.as_slice()), value),
            }
        },
        key => match eval_expr(ctx, key) {
            Err(e) => Err(e),
            Ok(kv) => match kv.as_string() {
                Err(e) => Err(e),
                Ok(k) => match &entry.1 {
                    Some(p) => bind_pattern(ctx, p, get_field(fields, k.as_slice())),
                    None => Err(RuntimeError::Shorthand),
                },
            },
        },
    }
}

/// Renders `nodes` in `ctx` and gives the text. What the nodes bind outside
/// a frame of their own stays bound in `ctx`.
#[verifier::spinoff_prover]
pub fn render(ctx: &mut Context, nodes: &Vec<Node>) -> (r: Result<Vec<u8>, RuntimeError>)
    ensures
        final(ctx).depth() == old(ctx).depth(),
        text_outcome(
            r,
            final(ctx).frames(),
            final(ctx).next(),
            render_spec(old(ctx).frames(), old(ctx).next(), old(ctx).depth(), nodes_model(nodes@)),
        ),
    decreases old(ctx).depth(), 3nat, nodes, 1nat, 0nat,
{
    let mut out: Vec<u8> = Vec::new();
    let mut i: usize = 0;
    while i < nodes.len()
        invariant
            i <= nodes.len(),
            ctx.depth() == old(ctx).depth(),
            render_spec(old(ctx).frames(), old(ctx).next(), old(ctx).depth(), nodes_model(nodes@))
                == render_from(
                ctx.frames(),
                ctx.next(),
                old(ctx).depth(),
                nodes_model(nodes@),
                i as nat,
                out@,
            ),
        decreases nodes.len() - i,
    {
        assert(nodes_model(nodes@)[i as int] == nodes@[i as int]@);
        match render_one(ctx, &nodes[i]) {
            Err(e) => {
                return Err(e);
            },
            Ok(text) => {
                append(&mut out, text.as_slice());
                i += 1;
            },
        }
    }
    Ok(out)
}

/// Renders one node.
#[verifier::spinoff_prover]
pub fn render_one(ctx: &mut Context, node: &Node) -> (r: Result<Vec<u8>, RuntimeError>)
    ensures
        final(ctx).depth() == old(ctx).depth(),
        text_outcome(
            r,
            final(ctx).frames(),
            final(ctx).next(),
            render_node(old(ctx).frames(), old(ctx).next(), old(ctx).depth(), node@),
        ),
    decreases old(ctx).depth(), 3nat, node, 1nat, 0nat,
{
    match node {
        Node::Text(t) => Ok(copy_bytes(t.as_slice())),
        Node::Expr(e) => match eval_expr(ctx, e) {
            Ok(v) => Ok(v.to_string()),
            Err(e) => Err(e),
        },
        Node::Element(el) => render_tag(ctx, el),
    }
}

/// Renders an element as its directive says.
#[verifier::spinoff_prover]
pub fn render_tag(ctx: &mut Context, el: &Element) -> (r: Result<Vec<u8>, RuntimeError>)
    ensures
        final(ctx).depth() == old(ctx).depth(),
        text_outcome(
            r,
            final(ctx).frames(),
            final(ctx).next(),
            render_element(old(ctx).frames(), old(ctx).next(), old(ctx).depth(), el@),
        ),
    decreases old(ctx).depth(), 3nat, el, 2nat, 0nat,
{
    match &el.directive {
        Directive::Stub(_) => {
            let mut inner = ctx.fork();
            let r = render(&mut inner, &el.nodes);
            ctx.advance(inner.next_serial());
            r
        },
        Directive::If(d) => match eval_expr(ctx, &d.expr) {
            Err(e) => Err(e),
            Ok(v) => {
                if v.as_bool() {
                    render(ctx, &el.nodes)
                } else {
                    render_else(ctx, el)
                }
            },
        },
        Directive::For(d) => match eval_expr(ctx, &d.expr) {
            Err(e) => Err(e),
            Ok(v) => match v.as_entries() {
                Err(e) => Err(e),
                Ok(entries) => render_rounds(ctx, el, &entries),
            },
        },
        Directive::Def(Def::Var(d)) => match eval_expr(ctx, &d.expr) {
            Err(e) => Err(e),
            Ok(v) => match bind_pattern(ctx, &d.pat, v) {
                Ok(()) => Ok(Vec::new()),
                Err(e) => Err(e),
            },
        },
        Directive::Def(Def::Fn(d)) => {
            let body = match &d.expr {
                Some(e) => Definition::Inline(e.clone()),
                None => Definition::Block(clone_nodes(&el.nodes)),
            };
            match ctx.def(d.ident.as_slice(), clone_params(&d.params), body) {
                Ok(()) => Ok(Vec::new()),
                Err(e) => Err(e),
            }
        },
        Directive::Apply(d) => {
            let f = ctx.get(d.name.as_slice());
            match apply_value(ctx, &f, &d.args) {
                Ok(v) => Ok(v.to_string()),
                Err(e) => Err(e),
            }
        },
    }
}

/// Renders the first branch of `el` that applies.
#[verifier::spinoff_prover]
pub fn render_else(ctx: &mut Context, el: &Element) -> (r: Result<Vec<u8>, RuntimeError>)
    ensures
        final(ctx).depth() == old(ctx).depth(),
        text_outcome(
            r,
            final(ctx).frames(),
            final(ctx).next(),
            render_branches(old(ctx).frames(), old(ctx).next(), old(ctx).depth(), el@, 0),
        ),
    decreases old(ctx).depth(), 3nat, el, 1nat, 0nat,
{
    let mut i: usize = 0;
    while i < el.branches.len()
        invariant
            i <= el.branches.len(),
            ctx.depth() == old(ctx).depth(),
            ctx.frames() == old(ctx).frames(),
            render_branches(old(ctx).frames(), old(ctx).next(), old(ctx).depth(), el@, 0)
                == render_branches(ctx.frames(), ctx.next(), old(ctx).depth(), el@, i as nat),
        decreases el.branches.len() - i,
    {
        let branch = &el.branches[i];
        assert(el@.branches[i as int] == branch@);
        match &branch.directive {
            Directive::If(d) => match eval_expr(ctx, &d.expr) {
                Err(e) => {
                    return Err(e);
                },
                Ok(v) => {
                    if v.as_bool() {
                        return render(ctx, &branch.nodes);
                    }
                },
            },
            _ => {
                return render_tag(ctx, branch);
            },
        }
        i += 1;
    }
    Ok(Vec::new())
}

/// Renders the rounds of the loop `el` over `entries`, each in a frame of its own.
#[verifier::spinoff_prover]
pub fn render_rounds(ctx: &mut Context, el: &Element, entries: &Vec<(Value, Value)>) -> (r: Result<
    Vec<u8>,
    RuntimeError,
>)
    ensures
        final(ctx).frames() == old(ctx).frames(),
        final(ctx).depth() == old(ctx).depth(),
        text_made(
            r,
            final(ctx).next(),
            render_loop(
                old(ctx).frames(),
                old(ctx).next(),
                old(ctx).depth(),
                el@,
                pairs_model(entries@),
                0,
                Seq::empty(),
            ),
        ),
    decreases old(ctx).depth(), 3nat, el, 1nat, 0nat,
{
    let mut out: Vec<u8> = Vec::new();
    let mut i: usize = 0;
    while i < entries.len()
        invariant
            i <= entries.len(),
            ctx.frames() == old(ctx).frames(),
            ctx.depth() == old(ctx).depth(),
            render_loop(
                old(ctx).frames(),
                old(ctx).next(),
                old(ctx).depth(),
                el@,
                pairs_model(entries@),
                0,
                Seq::empty(),
            ) == render_loop(
                old(ctx).frames(),
                ctx.next(),
                old(ctx).depth(),
                el@,
                pairs_model(entries@),
                i as nat,
                out@,
            ),
        decreases entries.len() - i,
    {
        match render_once(ctx, el, &entries[i]) {
            Err(e) => {
                return Err(e);
            },
            Ok(text) => {
                append(&mut out, text.as_slice());
                i += 1;
            },
        }
    }
    Ok(out)
}

/// Renders one round of the loop `el`.
#[verifier::spinoff_prover]
pub fn render_once(ctx: &mut Context, el: &Element, entry: &(Value, Value)) -> (r: Result<
    Vec<u8>,
    RuntimeError,
>)
    ensures
        final(ctx).frames() == old(ctx).frames(),
        final(ctx).depth() == old(ctx).depth(),
        text_made(
            r,
            final(ctx).next(),
            render_round(
                old(ctx).frames(),
                old(ctx).next(),
                old(ctx).depth(),
                el@,
                (entry.0.model(), entry.1.model()),
            ),
        ),
    decreases old(ctx).depth(), 3nat, el, 0nat, 0nat,
{
    match &el.directive {
        Directive::For(d) => {
            let mut inner = ctx.fork();
            match bind_pattern(&mut inner, &d.vpat, entry.0.clone()) {
                Err(e) => {
                    ctx.advance(inner.next_serial());
                    return Err(e);
                },
                Ok(()) => {},
            }
            match &d.kpat {
                Some(p) => match bind_pattern(&mut inner, p, entry.1.clone()) {
                    Err(e) => {
                        ctx.advance(inner.next_serial());
                        return Err(e);
                    },
                    Ok(()) => {},
                },
                None => {},
            }
            let r = render(&mut inner, &el.nodes);
            ctx.advance(inner.next_serial());
            r
        },
        _ => Ok(Vec::new()),
    }
}

impl Context {
    /// The value of `expr`. The context stays as it is, its count of serials
    /// too: the values that `expr` makes take the serials from the count on,
    /// and a second call gives them again. `evaluate` moves the count.
    pub fn eval(&self, expr: &Expr) -> (r: Result<Value, RuntimeError>)
        ensures
            value_result(r, eval_spec(self.frames(), self.next(), self.depth(), expr@).0),
    {
        let mut ctx = self.same();
        eval_expr(&mut ctx, expr)
    }

    /// The value of `expr`; the count of serials moves past those of the
    /// values that were made, so that no later value gets one of them.
    pub fn evaluate(&mut self, expr: &Expr) -> (r: Result<Value, RuntimeError>)
        ensures
            final(self).frames() == old(self).frames(),
            final(self).depth() == old(self).depth(),
            value_made(
                r,
                final(self).next(),
                eval_spec(old(self).frames(), old(self).next(), old(self).depth(), expr@),
            ),
    {
        eval_expr(self, expr)
    }

    /// Binds `value` to `pattern` in the innermost frame. The other frames
    /// stay as they are, and so does what the innermost frame bound before.
    pub fn bind(&mut self, pattern: &Pattern, value: Value) -> (r: Result<(), RuntimeError>)
        ensures
            final(self).depth() == old(self).depth(),
            unit_outcome(
                r,
                final(self).frames(),
                final(self).next(),
                bind_spec(
                    old(self).frames(),
                    old(self).next(),
                    old(self).depth(),
                    pattern@,
                    value.model(),
                ),
            ),
            grown(old(self).frames(), final(self).frames()),
    {
        proof {
            self.lemma_frames();
            lemma_bind_grows(self.frames(), self.next(), self.depth(), pattern@, value.model());
        }
        bind_pattern(self, pattern, value)
    }

    /// Calls the function bound to `name` with the values of `args`. The
    /// context stays as it is, its count of serials too.
    pub fn apply(&self, name: &[u8], args: &Vec<Expr>) -> (r: Result<Value, RuntimeError>)
        ensures
            value_result(
                r,
                apply_spec(
                    self.frames(),
                    self.next(),
                    self.depth(),
                    lookup(self.frames(), name@),
                    exprs_model(args@),
                ).0,
            ),
    {
        let f = self.get(name);
        let mut ctx = self.same();
        apply_value(&mut ctx, &f, args)
    }
}

impl Directive {
    /// Renders an element of this directive with the given nodes and branches.
    pub fn render(&self, ctx: &mut Context, nodes: &Vec<Node>, branches: &Vec<Element>) -> (r:
        Result<Vec<u8>, RuntimeError>)
        ensures
            final(ctx).depth() == old(ctx).depth(),
            text_outcome(
                r,
                final(ctx).frames(),
                final(ctx).next(),
                render_element(
                    old(ctx).frames(),
                    old(ctx).next(),
                    old(ctx).depth(),
                    crate::directive::ElementV {
                        directive: self@,
                        nodes: nodes_model(nodes@),
                        branches: crate::directive::elements_model(branches@),
                    },
                ),
            ),
    {
        let el = Element {
            directive: self.clone(),
            nodes: clone_nodes(nodes),
            branches: crate::directive::clone_elements(branches),
        };
        render_tag(ctx, &el)
    }
}

} // verus!
