//! The count of serials only runs on: whatever is evaluated, bound or
//! rendered, the serial of the next value is no smaller afterwards, so a
//! value made later never gets the serial of one made before, as long as
//! serials are left.

use crate::directive::{DefinitionV, DirectiveV, ElementV, NodeV};
use crate::expr::{ExprV, PatternV};
use crate::semantics::{
    apply_spec, bind_field, bind_fields, bind_items, bind_params, bind_spec, call_spec, eval_field,
    eval_fields, eval_items, eval_spec, forked, lookup, render_branches, render_element,
    render_from, render_loop, render_node, render_round, render_spec, Frames, Made,
};
use crate::value::{entries_of, field_of, string_of, truthy, ValueV};
use vstd::prelude::*;

verus! {

/// Evaluating an expression never moves the count back.
pub proof fn lemma_count_on(frames: Frames, next: u64, depth: nat, e: ExprV)
    ensures
        eval_spec(frames, next, depth, e).1 >= next,
    decreases depth, 1nat, e, 1nat, 0nat,
{
    match e {
        ExprV::Array(items, _) => {
            lemma_items_count_on(frames, next, depth, items, 0, Seq::empty());
        },
        ExprV::Object(entries, _) => {
            lemma_fields_count_on(frames, next, depth, entries, 0, Seq::empty());
        },
        ExprV::Apply(f, args, _) => {
            lemma_count_on(frames, next, depth, *f);
            match eval_spec(frames, next, depth, *f) {
                (Ok(fv), n) => {
                    lemma_apply_count_on(frames, n, depth, fv, args);
                },
                _ => {},
            }
        },
        ExprV::Unary(_, x, _) => {
            lemma_count_on(frames, next, depth, *x);
        },
        ExprV::Binary(a, _, b, _) => {
            lemma_count_on(frames, next, depth, *a);
            lemma_count_on(frames, eval_spec(frames, next, depth, *a).1, depth, *b);
        },
        ExprV::Index(a, b, _, _) => {
            lemma_count_on(frames, next, depth, *a);
            lemma_count_on(frames, eval_spec(frames, next, depth, *a).1, depth, *b);
        },
        _ => {},
    }
}

/// Evaluating items never moves the count back.
pub proof fn lemma_items_count_on(
    frames: Frames,
    next: u64,
    depth: nat,
    items: Seq<ExprV>,
    i: nat,
    acc: Seq<ValueV>,
)
    ensures
        eval_items(frames, next, depth, items, i, acc).1 >= next,
    decreases depth, 1nat, items, 0nat, items.len() - i,
{
    if i < items.len() {
        lemma_count_on(frames, next, depth, items[i as int]);
        match eval_spec(frames, next, depth, items[i as int]) {
            (Ok(v), n) => {
                lemma_items_count_on(frames, n, depth, items, i + 1, acc.push(v));
            },
            _ => {},
        }
    }
}

/// Evaluating one entry of an object literal never moves the count back.
pub proof fn lemma_field_count_on(
    frames: Frames,
    next: u64,
    depth: nat,
    entry: (ExprV, Option<ExprV>),
)
    ensures
        eval_field(frames, next, depth, entry).1 >= next,
    decreases depth, 1nat, entry, 0nat, 0nat,
{
    let n = match entry.1 {
        Some(e) => {
            lemma_count_on(frames, next, depth, e);
            eval_spec(frames, next, depth, e).1
        },
        None => next,
    };
    match entry.0 {
        ExprV::Ident(_, _) => {},
        key => {
            lemma_count_on(frames, n, depth, key);
        },
    }
}

/// Evaluating the entries of an object literal never moves the count back.
pub proof fn lemma_fields_count_on(
    frames: Frames,
    next: u64,
    depth: nat,
    entries: Seq<(ExprV, Option<ExprV>)>,
    i: nat,
    acc: Seq<(Seq<u8>, ValueV)>,
)
    ensures
        eval_fields(frames, next, depth, entries, i, acc).1 >= next,
    decreases depth, 1nat, entries, 0nat, entries.len() - i,
{
    if i < entries.len() {
        lemma_field_count_on(frames, next, depth, entries[i as int]);
        match eval_field(frames, next, depth, entries[i as int]) {
            (Ok((k, v)), n) => {
                lemma_fields_count_on(
                    frames,
                    n,
                    depth,
                    entries,
                    i + 1,
                    crate::value::with_field(acc, k, v, 0),
                );
            },
            _ => {},
        }
    }
}

/// Calling a function never moves the count back.
pub proof fn lemma_apply_count_on(frames: Frames, next: u64, depth: nat, f: ValueV, args: Seq<ExprV>)
    ensures
        apply_spec(frames, next, depth, f, args).1 >= next,
    decreases depth, 1nat, args, 1nat, 0nat,
{
    match f {
        ValueV::Closure(_, _, _) => {
            lemma_items_count_on(frames, next, depth, args, 0, Seq::empty());
            match eval_items(frames, next, depth, args, 0, Seq::empty()) {
                (Ok(argv), n) => {
                    if depth > 0 {
                        lemma_call_count_on(forked(frames), n, (depth - 1) as nat, f, argv);
                    }
                },
                _ => {},
            }
        },
        _ => {},
    }
}

/// The body of a call never moves the count back.
pub proof fn lemma_call_count_on(frames: Frames, next: u64, depth: nat, f: ValueV, argv: Seq<ValueV>)
    ensures
        call_spec(frames, next, depth, f, argv).1 >= next,
    decreases depth, 4nat, f, 2nat, 0nat,
{
    match f {
        ValueV::Closure(_, params, body) => {
            if argv.len() <= params.len() {
                lemma_params_count_on(frames, next, depth, params, argv, 0);
                match bind_params(frames, next, depth, params, argv, 0) {
                    (Ok(()), inner, n) => match body {
                        DefinitionV::Inline(e) => {
                            lemma_count_on(inner, n, depth, e);
                        },
                        DefinitionV::Block(nodes) => {
                            lemma_render_count_on(inner, n, depth, nodes);
                        },
                    },
                    _ => {},
                }
            }
        },
        _ => {},
    }
}

/// Binding parameters never moves the count back.
pub proof fn lemma_params_count_on(
    frames: Frames,
    next: u64,
    depth: nat,
    params: Seq<(PatternV, Option<ExprV>)>,
    argv: Seq<ValueV>,
    i: nat,
)
    ensures
        bind_params(frames, next, depth, params, argv, i).2 >= next,
    decreases depth, 2nat, params, 0nat, params.len() - i,
{
    if i < params.len() {
        let value: Made<ValueV> = if i < argv.len() {
            (Ok(argv[i as int]), next)
        } else {
            match params[i as int].1 {
                Some(e) => {
                    lemma_count_on(frames, next, depth, e);
                    eval_spec(frames, next, depth, e)
                },
                None => (
                    Err(
                        crate::error::RuntimeErrorV::Missing(
                            crate::semantics::pattern_text(params[i as int].0),
                        ),
                    ),
                    next,
                ),
            }
        };
        match value {
            (Ok(v), n) => {
                lemma_bind_count_on(frames, n, depth, params[i as int].0, v);
                match bind_spec(frames, n, depth, params[i as int].0, v) {
                    (Ok(()), f, m) => {
                        lemma_params_count_on(f, m, depth, params, argv, i + 1);
                    },
                    _ => {},
                }
            },
            _ => {},
        }
    }
}

/// Binding a pattern never moves the count back.
pub proof fn lemma_bind_count_on(frames: Frames, next: u64, depth: nat, p: PatternV, v: ValueV)
    ensures
        bind_spec(frames, next, depth, p, v).2 >= next,
    decreases depth, 2nat, p, 1nat, 0nat,
{
    match p {
        PatternV::Ident(_, _) => {},
        PatternV::Array(pats, _) => match v {
            ValueV::Array(_, items) => {
                lemma_bind_items_count_on(frames, next, depth, pats, items, 0);
            },
            _ => {},
        },
        PatternV::Object(entries, _) => match v {
            ValueV::Object(_, fields) => {
                lemma_bind_fields_count_on(frames, next, depth, entries, fields, 0);
            },
            _ => {},
        },
    }
}

/// Binding the patterns of an array pattern never moves the count back.
pub proof fn lemma_bind_items_count_on(
    frames: Frames,
    next: u64,
    depth: nat,
    pats: Seq<PatternV>,
    items: Seq<ValueV>,
    i: nat,
)
    ensures
        bind_items(frames, next, depth, pats, items, i).2 >= next,
    decreases depth, 2nat, pats, 0nat, pats.len() - i,
{
    if i < pats.len() {
        let v = if i < items.len() {
            items[i as int]
        } else {
            ValueV::Null
        };
        lemma_bind_count_on(frames, next, depth, pats[i as int], v);
        match bind_spec(frames, next, depth, pats[i as int], v) {
            (Ok(()), f, n) => {
                lemma_bind_items_count_on(f, n, depth, pats, items, i + 1);
            },
            _ => {},
        }
    }
}

/// Binding one entry of an object pattern never moves the count back.
pub proof fn lemma_bind_field_count_on(
    frames: Frames,
    next: u64,
    depth: nat,
    entry: (ExprV, Option<PatternV>),
    fields: Seq<(Seq<u8>, ValueV)>,
)
    ensures
        bind_field(frames, next, depth, entry, fields).2 >= next,
    decreases depth, 2nat, entry, 0nat, 0nat,
{
    match entry.0 {
        ExprV::Ident(name, _) => match entry.1 {
            Some(p) => {
                lemma_bind_count_on(frames, next, depth, p, field_of(fields, name));
            },
            None => {},
        },
        key => {
            lemma_count_on(frames, next, depth, key);
            match eval_spec(frames, next, depth, key) {
                (Ok(kv), n) => match string_of(kv) {
                    Ok(k) => match entry.1 {
                        Some(p) => {
                            lemma_bind_count_on(frames, n, depth, p, field_of(fields, k));
                        },
                        None => {},
                    },
                    Err(_) => {},
                },
                _ => {},
            }
        },
    }
}

/// Binding the entries of an object pattern never moves the count back.
pub proof fn lemma_bind_fields_count_on(
    frames: Frames,
    next: u64,
    depth: nat,
    entries: Seq<(ExprV, Option<PatternV>)>,
    fields: Seq<(Seq<u8>, ValueV)>,
    i: nat,
)
    ensures
        bind_fields(frames, next, depth, entries, fields, i).2 >= next,
    decreases depth, 2nat, entries, 0nat, entries.len() - i,
{
    if i < entries.len() {
        lemma_bind_field_count_on(frames, next, depth, entries[i as int], fields);
        match bind_field(frames, next, depth, entries[i as int], fields) {
            (Ok(()), f, n) => {
                lemma_bind_fields_count_on(f, n, depth, entries, fields, i + 1);
            },
            _ => {},
        }
    }
}

/// Rendering never moves the count back.
pub proof fn lemma_render_count_on(frames: Frames, next: u64, depth: nat, nodes: Seq<NodeV>)
    ensures
        render_spec(frames, next, depth, nodes).2 >= next,
    decreases depth, 3nat, nodes, 1nat, 0nat,
{
    lemma_render_from_count_on(frames, next, depth, nodes, 0, Seq::empty());
}

/// Rendering the nodes from `i` on never moves the count back.
pub proof fn lemma_render_from_count_on(
    frames: Frames,
    next: u64,
    depth: nat,
    nodes: Seq<NodeV>,
    i: nat,
    out: Seq<u8>,
)
    ensures
        render_from(frames, next, depth, nodes, i, out).2 >= next,
    decreases depth, 3nat, nodes, 0nat, nodes.len() - i,
{
    if i < nodes.len() {
        lemma_render_node_count_on(frames, next, depth, nodes[i as int]);
        match render_node(frames, next, depth, nodes[i as int]) {
            (Ok(text), f, n) => {
                lemma_render_from_count_on(f, n, depth, nodes, i + 1, out + text);
            },
            _ => {},
        }
    }
}

/// Rendering one node never moves the count back.
pub proof fn lemma_render_node_count_on(frames: Frames, next: u64, depth: nat, node: NodeV)
    ensures
        render_node(frames, next, depth, node).2 >= next,
    decreases depth, 3nat, node, 1nat, 0nat,
{
    match node {
        NodeV::Text(_) => {},
        NodeV::Expr(e) => {
            lemma_count_on(frames, next, depth, e);
        },
        NodeV::Element(el) => {
            lemma_render_element_count_on(frames, next, depth, el);
        },
    }
}

/// Rendering an element never moves the count back.
pub proof fn lemma_render_element_count_on(frames: Frames, next: u64, depth: nat, el: ElementV)
    ensures
        render_element(frames, next, depth, el).2 >= next,
    decreases depth, 3nat, el, 2nat, 0nat,
{
    match el.directive {
        DirectiveV::Stub => {
            lemma_render_count_on(forked(frames), next, depth, el.nodes);
        },
        DirectiveV::If(cond) => {
            lemma_count_on(frames, next, depth, cond);
            match eval_spec(frames, next, depth, cond) {
                (Ok(v), n) => {
                    if truthy(v) {
                        lemma_render_count_on(frames, n, depth, el.nodes);
                    } else {
                        lemma_render_branches_count_on(frames, n, depth, el, 0);
                    }
                },
                _ => {},
            }
        },
        DirectiveV::For(_, _, e) => {
            lemma_count_on(frames, next, depth, e);
            match eval_spec(frames, next, depth, e) {
                (Ok(v), n) => match entries_of(v) {
                    Ok(entries) => {
                        lemma_render_loop_count_on(frames, n, depth, el, entries, 0, Seq::empty());
                    },
                    Err(_) => {},
                },
                _ => {},
            }
        },
        DirectiveV::DefVar(p, e) => {
            lemma_count_on(frames, next, depth, e);
            match eval_spec(frames, next, depth, e) {
                (Ok(v), n) => {
                    lemma_bind_count_on(frames, n, depth, p, v);
                },
                _ => {},
            }
        },
        DirectiveV::DefFn(_, _, _) => {},
        DirectiveV::Apply(name, args) => {
            lemma_apply_count_on(frames, next, depth, lookup(frames, name), args);
        },
    }
}

/// Rendering the branches of an element never moves the count back.
pub proof fn lemma_render_branches_count_on(
    frames: Frames,
    next: u64,
    depth: nat,
    el: ElementV,
    i: nat,
)
    ensures
        render_branches(frames, next, depth, el, i).2 >= next,
    decreases depth, 3nat, el, 1nat, el.branches.len() - i,
{
    if i < el.branches.len() {
        let branch = el.branches[i as int];
        match branch.directive {
            DirectiveV::If(cond) => {
                lemma_count_on(frames, next, depth, cond);
                match eval_spec(frames, next, depth, cond) {
                    (Ok(v), n) => {
                        if truthy(v) {
                            lemma_render_count_on(frames, n, depth, branch.nodes);
                        } else {
                            lemma_render_branches_count_on(frames, n, depth, el, i + 1);
                        }
                    },
                    _ => {},
                }
            },
            _ => {
                lemma_render_element_count_on(frames, next, depth, branch);
            },
        }
    }
}

/// One round of a loop never moves the count back.
pub proof fn lemma_render_round_count_on(
    frames: Frames,
    next: u64,
    depth: nat,
    el: ElementV,
    entry: (ValueV, ValueV),
)
    ensures
        render_round(frames, next, depth, el, entry).1 >= next,
    decreases depth, 3nat, el, 0nat, 0nat,
{
    match el.directive {
        DirectiveV::For(vpat, kpat, _) => {
            lemma_bind_count_on(forked(frames), next, depth, vpat, entry.0);
            match bind_spec(forked(frames), next, depth, vpat, entry.0) {
                (Ok(()), f, n) => {
                    let bound = match kpat {
                        Some(p) => {
                            lemma_bind_count_on(f, n, depth, p, entry.1);
                            bind_spec(f, n, depth, p, entry.1)
                        },
                        None => (Ok(()), f, n),
                    };
                    match bound {
                        (Ok(()), g, m) => {
                            lemma_render_count_on(g, m, depth, el.nodes);
                        },
                        _ => {},
                    }
                },
                _ => {},
            }
        },
        _ => {},
    }
}

/// The rounds of a loop never move the count back.
pub proof fn lemma_render_loop_count_on(
    frames: Frames,
    next: u64,
    depth: nat,
    el: ElementV,
    entries: Seq<(ValueV, ValueV)>,
    i: nat,
    out: Seq<u8>,
)
    ensures
        render_loop(frames, next, depth, el, entries, i, out).1 >= next,
    decreases depth, 3nat, el, 1nat, entries.len() - i,
{
    if i < entries.len() {
        lemma_render_round_count_on(frames, next, depth, el, entries[i as int]);
        match render_round(frames, next, depth, el, entries[i as int]) {
            (Ok(text), n) => {
                lemma_render_loop_count_on(frames, n, depth, el, entries, i + 1, out + text);
            },
            _ => {},
        }
    }
}

} // verus!
