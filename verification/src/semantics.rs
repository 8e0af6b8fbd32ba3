//! What a template means: the value of an expression, the effect of a
//! binding, and the text of a node tree, each as a function of the frames in
//! scope. Evaluation never changes a frame other than the innermost one.
//!
//! Every array, object and function is given a serial when it is made, the
//! next one of a count that runs through the whole evaluation. The serial is
//! what tells a value from another that is alike.

use crate::directive::{DefinitionV, DirectiveV, ElementV, NodeV};
use crate::error::{Expected, RuntimeErrorV};
use crate::expr::{ExprV, PatternV};
use crate::operator::{binary_spec, unary_spec};
use crate::text::{lit, number_text, quoted};
use crate::value::{
    entries_of, field_of, index_of, kind_of, rendered, string_of, truthy, with_field, ValueV,
};
use vstd::prelude::*;

verus! {

/// The bindings of one scope.
pub type Frame = Map<Seq<u8>, ValueV>;

/// The scopes in force, outermost first. Names are looked up from the last
/// frame backwards, and bound in the last frame only.
pub type Frames = Seq<Frame>;

/// A result together with the frames that are in force afterwards, and the
/// serial that the next value made will get.
pub type Outcome<T> = (Result<T, RuntimeErrorV>, Frames, u64);

/// A result together with the serial that the next value made will get.
pub type Made<T> = (Result<T, RuntimeErrorV>, u64);

/// The serial after `next`. The count stops at its greatest value.
pub open spec fn after(next: u64) -> u64 {
    if next < u64::MAX {
        (next + 1) as u64
    } else {
        next
    }
}

/// The value bound to `name` in the innermost frame that binds it, or null.
pub open spec fn lookup(frames: Frames, name: Seq<u8>) -> ValueV
    decreases frames.len(),
{
    if frames.len() == 0 {
        ValueV::Null
    } else if frames.last().contains_key(name) {
        frames.last()[name]
    } else {
        lookup(frames.drop_last(), name)
    }
}

/// The frames with a new, empty innermost frame.
pub open spec fn forked(frames: Frames) -> Frames {
    frames.push(Map::empty())
}

/// The frames with `name` bound to `v` in the innermost frame; an error where
/// that frame binds `name` already.
pub open spec fn define(frames: Frames, name: Seq<u8>, v: ValueV) -> Result<Frames, RuntimeErrorV> {
    if frames.len() == 0 {
        Ok(seq![Map::<Seq<u8>, ValueV>::empty().insert(name, v)])
    } else if frames.last().contains_key(name) {
        Err(RuntimeErrorV::Defined(name))
    } else {
        Ok(frames.drop_last().push(frames.last().insert(name, v)))
    }
}

/// `define`, with the frames as they were where it fails; it makes no value.
pub open spec fn defined(frames: Frames, next: u64, name: Seq<u8>, v: ValueV) -> Outcome<()> {
    match define(frames, name, v) {
        Ok(f) => (Ok(()), f, next),
        Err(e) => (Err(e), frames, next),
    }
}

/// The value of an identifier: `true`, `false` and `null` are themselves,
/// whatever is bound to those names.
pub open spec fn ident_value(frames: Frames, name: Seq<u8>) -> ValueV {
    if name == lit("true") {
        ValueV::Bool(true)
    } else if name == lit("false") {
        ValueV::Bool(false)
    } else if name == lit("null") {
        ValueV::Null
    } else {
        lookup(frames, name)
    }
}

/// The text of the key of an entry, as an error shows it.
pub open spec fn key_text(key: ExprV) -> Seq<u8> {
    match key {
        ExprV::Ident(name, _) => name,
        ExprV::String(s, _) => quoted(s),
        ExprV::Number(n, _) => number_text(n),
        _ => lit("?"),
    }
}

/// The text of the first `n` of `items`, separated by `, `.
pub open spec fn pattern_items_text(items: Seq<PatternV>, n: nat) -> Seq<u8>
    decreases items, n,
{
    if n == 0 || n > items.len() {
        Seq::empty()
    } else {
        pattern_items_text(items, (n - 1) as nat) + (if n > 1 {
            lit(", ")
        } else {
            Seq::empty()
        }) + pattern_text(items[n - 1])
    }
}

/// The text of the first `n` of `entries`, separated by `, `.
pub open spec fn pattern_entries_text(entries: Seq<(ExprV, Option<PatternV>)>, n: nat) -> Seq<u8>
    decreases entries, n,
{
    if n == 0 || n > entries.len() {
        Seq::empty()
    } else {
        pattern_entries_text(entries, (n - 1) as nat) + (if n > 1 {
            lit(", ")
        } else {
            Seq::empty()
        }) + key_text(entries[n - 1].0) + (match entries[n - 1].1 {
            Some(p) => lit(": ") + pattern_text(p),
            None => Seq::empty(),
        })
    }
}

/// The text of a pattern, as an error shows it.
pub open spec fn pattern_text(p: PatternV) -> Seq<u8>
    decreases p, 0nat,
{
    match p {
        PatternV::Ident(name, _) => name,
        PatternV::Array(items, _) => lit("[") + pattern_items_text(items, items.len()) + lit("]"),
        PatternV::Object(entries, _) => lit("{") + pattern_entries_text(entries, entries.len())
            + lit("}"),
    }
}

/// The value of an expression, and the serial after those that it takes. An
/// array or object literal takes a serial once its parts are evaluated.
pub open spec fn eval_spec(frames: Frames, next: u64, depth: nat, e: ExprV) -> Made<ValueV>
    decreases depth, 1nat, e, 1nat, 0nat,
{
    match e {
        ExprV::Number(n, _) => (Ok(ValueV::Number(n as i64)), next),
        ExprV::String(s, _) => (Ok(ValueV::String(s)), next),
        ExprV::Ident(name, _) => (Ok(ident_value(frames, name)), next),
        ExprV::Array(items, _) => match eval_items(frames, next, depth, items, 0, Seq::empty()) {
            (Ok(vs), n) => (Ok(ValueV::Array(n, vs)), after(n)),
            (Err(e), n) => (Err(e), n),
        },
        ExprV::Object(entries, _) => match eval_fields(
            frames,
            next,
            depth,
            entries,
            0,
            Seq::empty(),
        ) {
            (Ok(fs), n) => (Ok(ValueV::Object(n, fs)), after(n)),
            (Err(e), n) => (Err(e), n),
        },
        ExprV::Apply(f, args, _) => match eval_spec(frames, next, depth, *f) {
            (Ok(fv), n) => apply_spec(frames, n, depth, fv, args),
            (Err(e), n) => (Err(e), n),
        },
        ExprV::Unary(op, x, _) => match eval_spec(frames, next, depth, *x) {
            (Ok(v), n) => (unary_spec(op, v), n),
            (Err(e), n) => (Err(e), n),
        },
        ExprV::Binary(a, op, b, _) => match eval_spec(frames, next, depth, *a) {
            (Ok(x), n) => match eval_spec(frames, n, depth, *b) {
                (Ok(y), m) => (binary_spec(op, x, y), m),
                (Err(e), m) => (Err(e), m),
            },
            (Err(e), n) => (Err(e), n),
        },
        ExprV::Index(a, b, _, _) => match eval_spec(frames, next, depth, *a) {
            (Ok(x), n) => match eval_spec(frames, n, depth, *b) {
                (Ok(y), m) => (index_of(x, y), m),
                (Err(e), m) => (Err(e), m),
            },
            (Err(e), n) => (Err(e), n),
        },
    }
}

/// The values of `items` from item `i` on, appended to `acc`, or the error of
/// the first that fails.
pub open spec fn eval_items(
    frames: Frames,
    next: u64,
    depth: nat,
    items: Seq<ExprV>,
    i: nat,
    acc: Seq<ValueV>,
) -> Made<Seq<ValueV>>
    decreases depth, 1nat, items, 0nat, items.len() - i,
{
    if i >= items.len() {
        (Ok(acc), next)
    } else {
        match eval_spec(frames, next, depth, items[i as int]) {
            (Err(e), n) => (Err(e), n),
            (Ok(v), n) => eval_items(frames, n, depth, items, i + 1, acc.push(v)),
        }
    }
}

/// The key and the value of one entry of an object literal. The value is
/// evaluated before the key; a shorthand entry takes the value bound to its name.
pub open spec fn eval_field(
    frames: Frames,
    next: u64,
    depth: nat,
    entry: (ExprV, Option<ExprV>),
) -> Made<(Seq<u8>, ValueV)>
    decreases depth, 1nat, entry, 0nat, 0nat,
{
    let value: Made<Option<ValueV>> = match entry.1 {
        Some(e) => match eval_spec(frames, next, depth, e) {
            (Ok(v), n) => (Ok(Some(v)), n),
            (Err(e), n) => (Err(e), n),
        },
        None => (Ok(None), next),
    };
    match value {
        (Err(e), n) => (Err(e), n),
        (Ok(value), n) => match entry.0 {
            ExprV::Ident(name, _) => (
                Ok(
                    (
                        name,
                        match value {
                            Some(v) => v,
                            None => lookup(frames, name),
                        },
                    ),
                ),
                n,
            ),
            key => match eval_spec(frames, n, depth, key) {
                (Err(e), m) => (Err(e), m),
                (Ok(kv), m) => match string_of(kv) {
                    Err(e) => (Err(e), m),
                    Ok(k) => match value {
                        Some(v) => (Ok((k, v)), m),
                        None => (Err(RuntimeErrorV::Shorthand), m),
                    },
                },
            },
        },
    }
}

/// The fields that `entries` make from entry `i` on, added to `acc` in key
/// order; a later entry replaces an earlier one of the same key.
pub open spec fn eval_fields(
    frames: Frames,
    next: u64,
    depth: nat,
    entries: Seq<(ExprV, Option<ExprV>)>,
    i: nat,
    acc: Seq<(Seq<u8>, ValueV)>,
) -> Made<Seq<(Seq<u8>, ValueV)>>
    decreases depth, 1nat, entries, 0nat, entries.len() - i,
{
    if i >= entries.len() {
        (Ok(acc), next)
    } else {
        match eval_field(frames, next, depth, entries[i as int]) {
            (Err(e), n) => (Err(e), n),
            (Ok((k, v)), n) => eval_fields(
                frames,
                n,
                depth,
                entries,
                i + 1,
                with_field(acc, k, v, 0),
            ),
        }
    }
}

/// The result of calling `f` with the values of `args`, which are evaluated in
/// the caller's frames. The call runs in a new frame on top of the caller's,
/// one level deeper.
pub open spec fn apply_spec(
    frames: Frames,
    next: u64,
    depth: nat,
    f: ValueV,
    args: Seq<ExprV>,
) -> Made<ValueV>
    decreases depth, 1nat, args, 1nat, 0nat,
{
    match f {
        ValueV::Closure(_, params, body) => match eval_items(
            frames,
            next,
            depth,
            args,
            0,
            Seq::empty(),
        ) {
            (Err(e), n) => (Err(e), n),
            (Ok(argv), n) => if depth == 0 {
                (Err(RuntimeErrorV::Depth), n)
            } else {
                call_spec(forked(frames), n, (depth - 1) as nat, f, argv)
            },
        },
        _ => (Err(RuntimeErrorV::Expect(Expected::Function, kind_of(f))), next),
    }
}

/// The result of the body of the function `f` in `frames`, the call's own
/// frames, after its parameters are bound there.
pub open spec fn call_spec(
    frames: Frames,
    next: u64,
    depth: nat,
    f: ValueV,
    argv: Seq<ValueV>,
) -> Made<ValueV>
    decreases depth, 4nat, f, 2nat, 0nat,
{
    match f {
        ValueV::Closure(_, params, body) => if argv.len() > params.len() {
            (Err(RuntimeErrorV::Arguments(params.len() as usize, argv.len() as usize)), next)
        } else {
            match bind_params(frames, next, depth, params, argv, 0) {
                (Err(e), _, n) => (Err(e), n),
                (Ok(()), inner, n) => match body {
                    DefinitionV::Inline(e) => eval_spec(inner, n, depth, e),
                    DefinitionV::Block(nodes) => match render_spec(inner, n, depth, nodes) {
                        (Ok(text), _, m) => (Ok(ValueV::String(text)), m),
                        (Err(e), _, m) => (Err(e), m),
                    },
                },
            }
        },
        _ => (Err(RuntimeErrorV::Expect(Expected::Function, kind_of(f))), next),
    }
}

/// The frames after the parameters from `i` on are bound: each to its
/// argument, or, past the last argument, to the value of its default in the
/// frames so far.
pub open spec fn bind_params(
    frames: Frames,
    next: u64,
    depth: nat,
    params: Seq<(PatternV, Option<ExprV>)>,
    argv: Seq<ValueV>,
    i: nat,
) -> Outcome<()>
    decreases depth, 2nat, params, 0nat, params.len() - i,
{
    if i >= params.len() {
        (Ok(()), frames, next)
    } else {
        let value: Made<ValueV> = if i < argv.len() {
            (Ok(argv[i as int]), next)
        } else {
            match params[i as int].1 {
                Some(e) => eval_spec(frames, next, depth, e),
                None => (Err(RuntimeErrorV::Missing(pattern_text(params[i as int].0))), next),
            }
        };
        match value {
            (Err(e), n) => (Err(e), frames, n),
            (Ok(v), n) => match bind_spec(frames, n, depth, params[i as int].0, v) {
                (Err(e), f, m) => (Err(e), f, m),
                (Ok(()), f, m) => bind_params(f, m, depth, params, argv, i + 1),
            },
        }
    }
}

/// The frames after `v` is bound to pattern `p`. An identifier binds the
/// value; an array pattern binds its patterns to the items by position, null
/// where the items run out; an object pattern binds each entry's pattern to
/// the field of its key, null where there is none.
pub open spec fn bind_spec(frames: Frames, next: u64, depth: nat, p: PatternV, v: ValueV) -> Outcome<
    (),
>
    decreases depth, 2nat, p, 1nat, 0nat,
{
    match p {
        PatternV::Ident(name, _) => defined(frames, next, name, v),
        PatternV::Array(pats, _) => match v {
            ValueV::Array(_, items) => bind_items(frames, next, depth, pats, items, 0),
            _ => (Err(RuntimeErrorV::Expect(Expected::Array, kind_of(v))), frames, next),
        },
        PatternV::Object(entries, _) => match v {
            ValueV::Object(_, fields) => bind_fields(frames, next, depth, entries, fields, 0),
            _ => (Err(RuntimeErrorV::Expect(Expected::Object, kind_of(v))), frames, next),
        },
    }
}

/// The frames after the patterns from `i` on are bound to the items at their
/// positions.
pub open spec fn bind_items(
    frames: Frames,
    next: u64,
    depth: nat,
    pats: Seq<PatternV>,
    items: Seq<ValueV>,
    i: nat,
) -> Outcome<()>
    decreases depth, 2nat, pats, 0nat, pats.len() - i,
{
    if i >= pats.len() {
        (Ok(()), frames, next)
    } else {
        match bind_spec(
            frames,
            next,
            depth,
            pats[i as int],
            if i < items.len() {
                items[i as int]
            } else {
                ValueV::Null
            },
        ) {
            (Err(e), f, n) => (Err(e), f, n),
            (Ok(()), f, n) => bind_items(f, n, depth, pats, items, i + 1),
        }
    }
}

/// The frames after one entry of an object pattern is bound.
pub open spec fn bind_field(
    frames: Frames,
    next: u64,
    depth: nat,
    entry: (ExprV, Option<PatternV>),
    fields: Seq<(Seq<u8>, ValueV)>,
) -> Outcome<()>
    decreases depth, 2nat, entry, 0nat, 0nat,
{
    match entry.0 {
        ExprV::Ident(name, _) => match entry.1 {
            Some(p) => bind_spec(frames, next, depth, p, field_of(fields, name)),
            None => defined(frames, next, name, field_of(fields, name)),
        },
        key => match eval_spec(frames, next, depth, key) {
            (Err(e), n) => (Err(e), frames, n),
            (Ok(kv), n) => match string_of(kv) {
                Err(e) => (Err(e), frames, n),
                Ok(k) => match entry.1 {
                    Some(p) => bind_spec(frames, n, depth, p, field_of(fields, k)),
                    None => (Err(RuntimeErrorV::Shorthand), frames, n),
                },
            },
        },
    }
}

/// The frames after the entries from `i` on are bound.
pub open spec fn bind_fields(
    frames: Frames,
    next: u64,
    depth: nat,
    entries: Seq<(ExprV, Option<PatternV>)>,
    fields: Seq<(Seq<u8>, ValueV)>,
    i: nat,
) -> Outcome<()>
    decreases depth, 2nat, entries, 0nat, entries.len() - i,
{
    if i >= entries.len() {
        (Ok(()), frames, next)
    } else {
        match bind_field(frames, next, depth, entries[i as int], fields) {
            (Err(e), f, n) => (Err(e), f, n),
            (Ok(()), f, n) => bind_fields(f, n, depth, entries, fields, i + 1),
        }
    }
}

/// The text of `nodes` from node `i` on, appended to `out`, and the frames
/// afterwards.
pub open spec fn render_from(
    frames: Frames,
    next: u64,
    depth: nat,
    nodes: Seq<NodeV>,
    i: nat,
    out: Seq<u8>,
) -> Outcome<Seq<u8>>
    decreases depth, 3nat, nodes, 0nat, nodes.len() - i,
{
    if i >= nodes.len() {
        (Ok(out), frames, next)
    } else {
        match render_node(frames, next, depth, nodes[i as int]) {
            (Err(e), f, n) => (Err(e), f, n),
            (Ok(text), f, n) => render_from(f, n, depth, nodes, i + 1, out + text),
        }
    }
}

/// The text of a list of nodes, and the frames afterwards.
pub open spec fn render_spec(frames: Frames, next: u64, depth: nat, nodes: Seq<NodeV>) -> Outcome<
    Seq<u8>,
>
    decreases depth, 3nat, nodes, 1nat, 0nat,
{
    render_from(frames, next, depth, nodes, 0, Seq::empty())
}

/// The text of one node: text is itself, an expression is what its value
/// renders as, an element is what its directive makes of it.
pub open spec fn render_node(frames: Frames, next: u64, depth: nat, node: NodeV) -> Outcome<
    Seq<u8>,
>
    decreases depth, 3nat, node, 1nat, 0nat,
{
    match node {
        NodeV::Text(t) => (Ok(t), frames, next),
        NodeV::Expr(e) => match eval_spec(frames, next, depth, e) {
            (Ok(v), n) => (Ok(rendered(v)), frames, n),
            (Err(e), n) => (Err(e), frames, n),
        },
        NodeV::Element(el) => render_element(frames, next, depth, el),
    }
}

/// The function that a `def` with a parameter list binds: it takes the
/// serial `next`; its body is the expression of the tag, or the nodes of the
/// element.
pub open spec fn function_of(
    next: u64,
    params: Seq<(PatternV, Option<ExprV>)>,
    body: Option<ExprV>,
    nodes: Seq<NodeV>,
) -> ValueV {
    ValueV::Closure(
        next,
        params,
        match body {
            Some(e) => DefinitionV::Inline(e),
            None => DefinitionV::Block(nodes),
        },
    )
}

/// The text of an element.
pub open spec fn render_element(frames: Frames, next: u64, depth: nat, el: ElementV) -> Outcome<
    Seq<u8>,
>
    decreases depth, 3nat, el, 2nat, 0nat,
{
    match el.directive {
        DirectiveV::Stub => match render_spec(forked(frames), next, depth, el.nodes) {
            (r, _, n) => (r, frames, n),
        },
        DirectiveV::If(cond) => match eval_spec(frames, next, depth, cond) {
            (Err(e), n) => (Err(e), frames, n),
            (Ok(v), n) => if truthy(v) {
                render_spec(frames, n, depth, el.nodes)
            } else {
                render_branches(frames, n, depth, el, 0)
            },
        },
        DirectiveV::For(_, _, e) => match eval_spec(frames, next, depth, e) {
            (Err(e), n) => (Err(e), frames, n),
            (Ok(v), n) => match entries_of(v) {
                Err(e) => (Err(e), frames, n),
                Ok(entries) => match render_loop(frames, n, depth, el, entries, 0, Seq::empty()) {
                    (r, m) => (r, frames, m),
                },
            },
        },
        DirectiveV::DefVar(p, e) => match eval_spec(frames, next, depth, e) {
            (Err(e), n) => (Err(e), frames, n),
            (Ok(v), n) => match bind_spec(frames, n, depth, p, v) {
                (Ok(()), f, m) => (Ok(Seq::empty()), f, m),
                (Err(e), f, m) => (Err(e), f, m),
            },
        },
        DirectiveV::DefFn(name, params, body) => match define(
            frames,
            name,
            function_of(next, params, body, el.nodes),
        ) {
            Ok(f) => (Ok(Seq::empty()), f, after(next)),
            Err(e) => (Err(e), frames, after(next)),
        },
        DirectiveV::Apply(name, args) => match apply_spec(
            frames,
            next,
            depth,
            lookup(frames, name),
            args,
        ) {
            (Ok(v), n) => (Ok(rendered(v)), frames, n),
            (Err(e), n) => (Err(e), frames, n),
        },
    }
}

/// The text of the first branch of `el`, from branch `i` on, that applies: a
/// branch with a condition applies where the condition holds, and renders its
/// nodes in the frames of the element; any other branch applies always, and
/// renders as an element of its own. No text where no branch applies.
pub open spec fn render_branches(
    frames: Frames,
    next: u64,
    depth: nat,
    el: ElementV,
    i: nat,
) -> Outcome<Seq<u8>>
    decreases depth, 3nat, el, 1nat, el.branches.len() - i,
{
    if i >= el.branches.len() {
        (Ok(Seq::empty()), frames, next)
    } else {
        let branch = el.branches[i as int];
        match branch.directive {
            DirectiveV::If(cond) => match eval_spec(frames, next, depth, cond) {
                (Err(e), n) => (Err(e), frames, n),
                (Ok(v), n) => if truthy(v) {
                    render_spec(frames, n, depth, branch.nodes)
                } else {
                    render_branches(frames, n, depth, el, i + 1)
                },
            },
            _ => render_element(frames, next, depth, branch),
        }
    }
}

/// The text of one round of a loop: the nodes of `el`, rendered in a new
/// frame in which the value, and the key where the loop names one, are bound.
pub open spec fn render_round(
    frames: Frames,
    next: u64,
    depth: nat,
    el: ElementV,
    entry: (ValueV, ValueV),
) -> Made<Seq<u8>>
    decreases depth, 3nat, el, 0nat, 0nat,
{
    match el.directive {
        DirectiveV::For(vpat, kpat, _) => match bind_spec(
            forked(frames),
            next,
            depth,
            vpat,
            entry.0,
        ) {
            (Err(e), _, n) => (Err(e), n),
            (Ok(()), f, n) => {
                let bound = match kpat {
                    Some(p) => bind_spec(f, n, depth, p, entry.1),
                    None => (Ok(()), f, n),
                };
                match bound {
                    (Err(e), _, m) => (Err(e), m),
                    (Ok(()), g, m) => match render_spec(g, m, depth, el.nodes) {
                        (r, _, k) => (r, k),
                    },
                }
            },
        },
        _ => (Ok(Seq::empty()), next),
    }
}

/// The text of the rounds of a loop over `entries` from entry `i` on, appended
/// to `out`.
pub open spec fn render_loop(
    frames: Frames,
    next: u64,
    depth: nat,
    el: ElementV,
    entries: Seq<(ValueV, ValueV)>,
    i: nat,
    out: Seq<u8>,
) -> Made<Seq<u8>>
    decreases depth, 3nat, el, 1nat, entries.len() - i,
{
    if i >= entries.len() {
        (Ok(out), next)
    } else {
        match render_round(frames, next, depth, el, entries[i as int]) {
            (Err(e), n) => (Err(e), n),
            (Ok(text), n) => render_loop(frames, n, depth, el, entries, i + 1, out + text),
        }
    }
}

} // verus!
