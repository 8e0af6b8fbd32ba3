//! Binding and rendering touch the innermost frame only, and only add to it.

use crate::directive::{DirectiveV, ElementV, NodeV};
use crate::expr::{ExprV, PatternV};
use crate::semantics::{
    bind_field, bind_fields, bind_items, bind_params, bind_spec, define, defined, eval_spec,
    render_branches, render_element, render_from, render_node, render_spec, Frames,
};
use crate::value::{string_of, truthy, ValueV};
use vstd::prelude::*;

verus! {

/// `after` has the frames of `before`, with nothing changed but that the
/// innermost frame may bind more names.
#[verifier::opaque]
pub open spec fn grown(before: Frames, after: Frames) -> bool {
    &&& after.len() == before.len()
    &&& before.len() > 0
    &&& after.drop_last() == before.drop_last()
    &&& before.last().submap_of(after.last())
}

/// Frames that are left alone have grown, by nothing.
pub proof fn lemma_grown_same(frames: Frames)
    requires
        frames.len() > 0,
    ensures
        grown(frames, frames),
{
    reveal(grown);
}

/// Growth upon growth is growth.
pub proof fn lemma_grown_chain(a: Frames, b: Frames, c: Frames)
    requires
        grown(a, b),
        grown(b, c),
    ensures
        grown(a, c),
        c.len() > 0,
{
    reveal(grown);
    let x = a.last();
    let y = b.last();
    let z = c.last();
    assert forall|k: Seq<u8>| #[trigger] x.dom().contains(k) implies z.dom().contains(k) && x[k]
        == z[k] by {
        assert(y.dom().contains(k));
        assert(z.dom().contains(k));
    }
    assert(x.submap_of(z));
}

/// Frames that have grown are as many as before, and the same but for the
/// innermost; what the innermost frame bound, it binds still.
pub proof fn lemma_grown(before: Frames, after: Frames)
    requires
        grown(before, after),
    ensures
        after.len() == before.len(),
        before.len() > 0,
        after.drop_last() == before.drop_last(),
        before.last().submap_of(after.last()),
{
    reveal(grown);
}

/// Binding a name adds it to the innermost frame.
pub proof fn lemma_define_grows(frames: Frames, next: u64, name: Seq<u8>, v: ValueV)
    requires
        frames.len() > 0,
    ensures
        grown(frames, defined(frames, next, name, v).1),
{
    reveal(grown);
    match define(frames, name, v) {
        Ok(f) => {
            assert(f.drop_last() =~= frames.drop_last());
        },
        Err(_) => {},
    }
}

/// Binding a pattern adds to the innermost frame and changes nothing else,
/// whether it succeeds or fails.
pub proof fn lemma_bind_grows(frames: Frames, next: u64, depth: nat, p: PatternV, v: ValueV)
    requires
        frames.len() > 0,
    ensures
        grown(frames, bind_spec(frames, next, depth, p, v).1),
    decreases depth, 2nat, p, 1nat, 0nat,
{
    match p {
        PatternV::Ident(name, _) => {
            lemma_define_grows(frames, next, name, v);
        },
        PatternV::Array(pats, _) => match v {
            ValueV::Array(_, items) => {
                lemma_bind_items_grows(frames, next, depth, pats, items, 0);
            },
            _ => {
                lemma_grown_same(frames);
            },
        },
        PatternV::Object(entries, _) => match v {
            ValueV::Object(_, fields) => {
                lemma_bind_fields_grows(frames, next, depth, entries, fields, 0);
            },
            _ => {
                lemma_grown_same(frames);
            },
        },
    }
}

/// Binding the patterns of an array pattern from `i` on adds to the innermost frame only.
pub proof fn lemma_bind_items_grows(
    frames: Frames,
    next: u64,
    depth: nat,
    pats: Seq<PatternV>,
    items: Seq<ValueV>,
    i: nat,
)
    requires
        frames.len() > 0,
    ensures
        grown(frames, bind_items(frames, next, depth, pats, items, i).1),
    decreases depth, 2nat, pats, 0nat, pats.len() - i,
{
    if i < pats.len() {
        let v = if i < items.len() {
            items[i as int]
        } else {
            ValueV::Null
        };
        lemma_bind_grows(frames, next, depth, pats[i as int], v);
        match bind_spec(frames, next, depth, pats[i as int], v) {
            (Ok(()), f, n) => {
                lemma_grown(frames, f);
                lemma_bind_items_grows(f, n, depth, pats, items, i + 1);
                lemma_grown_chain(frames, f, bind_items(f, n, depth, pats, items, i + 1).1);
            },
            _ => {},
        }
    } else {
        lemma_grown_same(frames);
    }
}

/// Binding one entry of an object pattern adds to the innermost frame only.
pub proof fn lemma_bind_field_grows(
    frames: Frames,
    next: u64,
    depth: nat,
    entry: (ExprV, Option<PatternV>),
    fields: Seq<(Seq<u8>, ValueV)>,
)
    requires
        frames.len() > 0,
    ensures
        grown(frames, bind_field(frames, next, depth, entry, fields).1),
    decreases depth, 2nat, entry, 0nat, 0nat,
{
    match entry.0 {
        ExprV::Ident(name, _) => match entry.1 {
            Some(p) => {
                lemma_bind_grows(frames, next, depth, p, crate::value::field_of(fields, name));
            },
            None => {
                lemma_define_grows(frames, next, name, crate::value::field_of(fields, name));
            },
        },
        key => match eval_spec(frames, next, depth, key) {
            (Ok(kv), n) => match string_of(kv) {
                Ok(k) => match entry.1 {
                    Some(p) => {
                        lemma_bind_grows(frames, n, depth, p, crate::value::field_of(fields, k));
                    },
                    None => {
                        lemma_grown_same(frames);
                    },
                },
                Err(_) => {
                    lemma_grown_same(frames);
                },
            },
            (Err(_), _) => {
                lemma_grown_same(frames);
            },
        },
    }
}

/// Binding the entries of an object pattern from `i` on adds to the innermost frame only.
pub proof fn lemma_bind_fields_grows(
    frames: Frames,
    next: u64,
    depth: nat,
    entries: Seq<(ExprV, Option<PatternV>)>,
    fields: Seq<(Seq<u8>, ValueV)>,
    i: nat,
)
    requires
        frames.len() > 0,
    ensures
        grown(frames, bind_fields(frames, next, depth, entries, fields, i).1),
    decreases depth, 2nat, entries, 0nat, entries.len() - i,
{
    if i < entries.len() {
        lemma_bind_field_grows(frames, next, depth, entries[i as int], fields);
        match bind_field(frames, next, depth, entries[i as int], fields) {
            (Ok(()), f, n) => {
                lemma_grown(frames, f);
                lemma_bind_fields_grows(f, n, depth, entries, fields, i + 1);
                lemma_grown_chain(frames, f, bind_fields(f, n, depth, entries, fields, i + 1).1);
            },
            _ => {},
        }
    } else {
        lemma_grown_same(frames);
    }
}

/// Binding the parameters of a call adds to the innermost frame, the frame
/// of the call, and changes nothing else.
pub proof fn lemma_bind_params_grows(
    frames: Frames,
    next: u64,
    depth: nat,
    params: Seq<(PatternV, Option<ExprV>)>,
    argv: Seq<ValueV>,
    i: nat,
)
    requires
        frames.len() > 0,
    ensures
        grown(frames, bind_params(frames, next, depth, params, argv, i).1),
    decreases depth, 2nat, params, 0nat, params.len() - i,
{
    if i < params.len() {
        let value: crate::semantics::Made<ValueV> = if i < argv.len() {
            (Ok(argv[i as int]), next)
        } else {
            match params[i as int].1 {
                Some(e) => eval_spec(frames, next, depth, e),
                None => (
                    Err(
                        crate::error::RuntimeErrorV::Missing(
                            crate::semantics::pattern_text(params[i as int].0),
                        ),
                    ),
                    next,
                ),
            }
        };
        match value {
            (Ok(v), m) => {
                lemma_bind_grows(frames, m, depth, params[i as int].0, v);
                match bind_spec(frames, m, depth, params[i as int].0, v) {
                    (Ok(()), f, n) => {
                        lemma_grown(frames, f);
                        lemma_bind_params_grows(f, n, depth, params, argv, i + 1);
                        lemma_grown_chain(
                            frames,
                            f,
                            bind_params(f, n, depth, params, argv, i + 1).1,
                        );
                    },
                    _ => {},
                }
            },
            (Err(_), _) => {
                lemma_grown_same(frames);
            },
        }
    } else {
        lemma_grown_same(frames);
    }
}

/// Rendering adds to the innermost frame and changes nothing else, whether it
/// succeeds or fails: the frames before the innermost one are as they were,
/// and every name that the innermost frame bound is bound as it was.
pub proof fn lemma_render_grows(frames: Frames, next: u64, depth: nat, nodes: Seq<NodeV>)
    requires
        frames.len() > 0,
    ensures
        grown(frames, render_spec(frames, next, depth, nodes).1),
    decreases depth, 3nat, nodes, 1nat, 0nat,
{
    lemma_render_from_grows(frames, next, depth, nodes, 0, Seq::empty());
}

/// Rendering the nodes from `i` on adds to the innermost frame only.
pub proof fn lemma_render_from_grows(
    frames: Frames,
    next: u64,
    depth: nat,
    nodes: Seq<NodeV>,
    i: nat,
    out: Seq<u8>,
)
    requires
        frames.len() > 0,
    ensures
        grown(frames, render_from(frames, next, depth, nodes, i, out).1),
    decreases depth, 3nat, nodes, 0nat, nodes.len() - i,
{
    if i < nodes.len() {
        lemma_render_node_grows(frames, next, depth, nodes[i as int]);
        match render_node(frames, next, depth, nodes[i as int]) {
            (Ok(text), f, n) => {
                lemma_grown(frames, f);
                lemma_render_from_grows(f, n, depth, nodes, i + 1, out + text);
                lemma_grown_chain(frames, f, render_from(f, n, depth, nodes, i + 1, out + text).1);
            },
            _ => {},
        }
    } else {
        lemma_grown_same(frames);
    }
}

/// Rendering one node adds to the innermost frame only.
pub proof fn lemma_render_node_grows(frames: Frames, next: u64, depth: nat, node: NodeV)
    requires
        frames.len() > 0,
    ensures
        grown(frames, render_node(frames, next, depth, node).1),
    decreases depth, 3nat, node, 1nat, 0nat,
{
    match node {
        NodeV::Element(el) => {
            lemma_render_element_grows(frames, next, depth, el);
        },
        _ => {
            lemma_grown_same(frames);
        },
    }
}

/// Rendering an element adds to the innermost frame only.
pub proof fn lemma_render_element_grows(frames: Frames, next: u64, depth: nat, el: ElementV)
    requires
        frames.len() > 0,
    ensures
        grown(frames, render_element(frames, next, depth, el).1),
    decreases depth, 3nat, el, 2nat, 0nat,
{
    match el.directive {
        DirectiveV::If(cond) => match eval_spec(frames, next, depth, cond) {
            (Ok(v), n) => {
                if truthy(v) {
                    lemma_render_grows(frames, n, depth, el.nodes);
                } else {
                    lemma_render_branches_grows(frames, n, depth, el, 0);
                }
            },
            (Err(_), _) => {
                lemma_grown_same(frames);
            },
        },
        DirectiveV::DefVar(p, e) => match eval_spec(frames, next, depth, e) {
            (Ok(v), n) => {
                lemma_bind_grows(frames, n, depth, p, v);
            },
            (Err(_), _) => {
                lemma_grown_same(frames);
            },
        },
        DirectiveV::DefFn(name, params, body) => {
            let f = crate::semantics::function_of(next, params, body, el.nodes);
            lemma_define_grows(frames, next, name, f);
        },
        _ => {
            lemma_grown_same(frames);
        },
    }
}

/// Rendering the branches of an element adds to the innermost frame only.
pub proof fn lemma_render_branches_grows(frames: Frames, next: u64, depth: nat, el: ElementV, i: nat)
    requires
        frames.len() > 0,
    ensures
        grown(frames, render_branches(frames, next, depth, el, i).1),
    decreases depth, 3nat, el, 1nat, el.branches.len() - i,
{
    if i < el.branches.len() {
        let branch = el.branches[i as int];
        match branch.directive {
            DirectiveV::If(cond) => match eval_spec(frames, next, depth, cond) {
                (Ok(v), n) => {
                    if truthy(v) {
                        lemma_render_grows(frames, n, depth, branch.nodes);
                    } else {
                        lemma_render_branches_grows(frames, n, depth, el, i + 1);
                    }
                },
                (Err(_), _) => {
                    lemma_grown_same(frames);
                },
            },
            _ => {
                lemma_render_element_grows(frames, next, depth, branch);
            },
        }
    } else {
        lemma_grown_same(frames);
    }
}

} // verus!
