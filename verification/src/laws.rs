//! Properties that hold of every template, every context and every value.

use crate::directive::{ElementV, NodeV};
use crate::error::RuntimeErrorV;
use crate::expr::{PatternV, Span};
use crate::reader::{read_spec, root_layer, Syntax};
use crate::counts::lemma_items_count_on;
use crate::expr::ExprV;
use crate::operator::{equal_values, BinaryOp};
use crate::semantics::{
    bind_spec, define, eval_field, eval_fields, eval_spec, forked, lookup,
    render_element, render_from, render_spec, Frames,
};
use crate::text::{find_from, lemma_find_from, matches_at};
use crate::value::{bytes_less, with_field, ValueV};
use vstd::prelude::*;

verus! {

/// The left delimiter occurs nowhere in the text.
pub open spec fn tag_free(x: Syntax) -> bool {
    forall|i: int| !matches_at(x.text, i, x.left)
}

/// A text that nowhere holds the left delimiter has a left delimiter that is
/// not empty: an empty one occurs everywhere.
pub proof fn lemma_tag_free_delimiter(x: Syntax)
    requires
        tag_free(x),
    ensures
        x.left.len() > 0,
{
    if x.left.len() == 0 {
        assert(x.text.subrange(0, 0) =~= x.left);
        assert(matches_at(x.text, 0, x.left));
    }
}

/// A template without tags is one text node, or no node where it is empty,
/// and renders as itself in every context; rendering it binds nothing and
/// makes no value.
pub proof fn lemma_tag_free_renders_as_itself(x: Syntax, frames: Frames, next: u64, depth: nat)
    requires
        tag_free(x),
    ensures
        read_spec(x) == Ok::<Seq<NodeV>, crate::error::SyntaxErrorV>(
            if x.text.len() == 0 {
                Seq::empty()
            } else {
                seq![NodeV::Text(x.text)]
            },
        ),
        render_spec(frames, next, depth, read_spec(x)->Ok_0) == (
            Ok::<Seq<u8>, RuntimeErrorV>(x.text),
            frames,
            next,
        ),
{
    lemma_tag_free_delimiter(x);
    lemma_find_from(x.text, 0, x.left);
    assert(find_from(x.text, 0, x.left) is None);
    assert(x.text.subrange(0, x.text.len() as int) =~= x.text);
    let stack = seq![root_layer()];
    assert(stack.last() == root_layer());
    if x.text.len() == 0 {
        assert(read_spec(x) == Ok::<Seq<NodeV>, crate::error::SyntaxErrorV>(Seq::empty()));
        assert(x.text =~= Seq::<u8>::empty());
    } else {
        let nodes = seq![NodeV::Text(x.text)];
        assert(Seq::<NodeV>::empty().push(NodeV::Text(x.text)) =~= nodes);
        assert(stack.drop_last().push(
            crate::reader::LayerV {
                element: crate::reader::element_with(root_layer().element, NodeV::Text(x.text)),
                ..root_layer()
            },
        ).len() == 1);
        assert(read_spec(x) == Ok::<Seq<NodeV>, crate::error::SyntaxErrorV>(nodes));
        reveal_with_fuel(render_from, 3);
        assert(Seq::<u8>::empty() + x.text =~= x.text);
    }
}

/// What a loop, a call or a block of its own binds is gone when it ends:
/// rendering a `for`, an `apply` or a stub element leaves the frames as they
/// were, whatever it renders and whether it fails.
pub proof fn lemma_block_bindings_end(frames: Frames, next: u64, depth: nat, el: ElementV)
    requires
        el.directive is For || el.directive is Apply || el.directive is Stub,
    ensures
        render_element(frames, next, depth, el).1 == frames,
{
}

/// Binding a name that the innermost frame binds already fails, and binds nothing.
pub proof fn lemma_rebinding_fails(frames: Frames, next: u64, depth: nat, name: Seq<u8>, span: Span, v: ValueV)
    requires
        frames.len() > 0,
        frames.last().contains_key(name),
    ensures
        bind_spec(frames, next, depth, PatternV::Ident(name, span), v) == (
            Err::<(), RuntimeErrorV>(RuntimeErrorV::Defined(name)),
            frames,
            next,
        ),
{
}

/// Binding a name in a fork succeeds whatever the frames before the fork
/// bind: the name then has the new value in the fork, and the frames before
/// the fork are as they were.
pub proof fn lemma_shadowing(frames: Frames, next: u64, depth: nat, name: Seq<u8>, span: Span, v: ValueV)
    ensures
        bind_spec(forked(frames), next, depth, PatternV::Ident(name, span), v).0 is Ok,
        lookup(bind_spec(forked(frames), next, depth, PatternV::Ident(name, span), v).1, name) == v,
        bind_spec(forked(frames), next, depth, PatternV::Ident(name, span), v).1.drop_last() == frames,
{
    let inner = forked(frames);
    assert(inner.last() == Map::<Seq<u8>, ValueV>::empty());
    assert(inner.drop_last() =~= frames);
    let bound = inner.drop_last().push(inner.last().insert(name, v));
    assert(bound.drop_last() =~= frames);
}

/// A name bound in the innermost frame hides what the frames before bind to
/// it, and no other name.
pub proof fn lemma_lookup_after_define(frames: Frames, name: Seq<u8>, v: ValueV, other: Seq<u8>)
    requires
        frames.len() > 0,
        define(frames, name, v) is Ok,
    ensures
        lookup(define(frames, name, v)->Ok_0, name) == v,
        other != name ==> lookup(define(frames, name, v)->Ok_0, other) == lookup(frames, other),
{
    let bound = define(frames, name, v)->Ok_0;
    assert(bound.drop_last() =~= frames.drop_last());
}

/// A fork by itself hides nothing.
pub proof fn lemma_lookup_in_fork(frames: Frames, name: Seq<u8>)
    ensures
        lookup(forked(frames), name) == lookup(frames, name),
{
    assert(forked(frames).drop_last() =~= frames);
}

} // verus!

verus! {

/// The keys of `fields` stand in strictly increasing order of their bytes.
pub open spec fn sorted_fields(fields: Seq<(Seq<u8>, ValueV)>) -> bool {
    forall|i: int, j: int|
        0 <= i < j < fields.len() ==> bytes_less(#[trigger] fields[i].0, #[trigger] fields[j].0, 0)
}

/// The two texts agree before `from`.
pub open spec fn agree_before(a: Seq<u8>, b: Seq<u8>, from: int) -> bool {
    from <= a.len() && from <= b.len() && forall|k: int| 0 <= k < from ==> a[k] == b[k]
}

/// Of two different texts one comes before the other.
pub proof fn lemma_bytes_less_total(a: Seq<u8>, b: Seq<u8>, from: int)
    requires
        0 <= from,
        agree_before(a, b, from),
        a != b,
    ensures
        bytes_less(a, b, from) || bytes_less(b, a, from),
    decreases a.len() + b.len() - from,
{
    if from >= a.len() && from >= b.len() {
        assert(a =~= b);
    } else if from >= a.len() || from >= b.len() {
    } else if a[from] != b[from] {
    } else {
        lemma_bytes_less_total(a, b, from + 1);
    }
}

/// The order of texts is transitive.
pub proof fn lemma_bytes_less_transitive(a: Seq<u8>, b: Seq<u8>, c: Seq<u8>, from: int)
    requires
        0 <= from,
        bytes_less(a, b, from),
        bytes_less(b, c, from),
        agree_before(a, b, from),
        agree_before(b, c, from),
    ensures
        bytes_less(a, c, from),
    decreases c.len() - from,
{
    if from >= a.len() {
    } else if a[from] != b[from] {
    } else if b[from] != c[from] {
    } else {
        lemma_bytes_less_transitive(a, b, c, from + 1);
    }
}

/// No text comes before itself.
pub proof fn lemma_bytes_less_irreflexive(a: Seq<u8>, from: int)
    requires
        0 <= from,
    ensures
        !bytes_less(a, a, from),
    decreases a.len() - from,
{
    if from < a.len() {
        lemma_bytes_less_irreflexive(a, from + 1);
    }
}

/// Setting a field keeps the keys in order, where all keys before `from`
/// come before the new key.
pub proof fn lemma_with_field_sorted(
    fields: Seq<(Seq<u8>, ValueV)>,
    key: Seq<u8>,
    v: ValueV,
    from: int,
)
    requires
        sorted_fields(fields),
        0 <= from <= fields.len(),
        forall|i: int| 0 <= i < from ==> bytes_less(#[trigger] fields[i].0, key, 0),
    ensures
        sorted_fields(with_field(fields, key, v, from)),
    decreases fields.len() - from,
{
    let out = with_field(fields, key, v, from);
    if from >= fields.len() {
        assert forall|i: int, j: int| 0 <= i < j < out.len() implies bytes_less(
            #[trigger] out[i].0,
            #[trigger] out[j].0,
            0,
        ) by {
            if j < fields.len() {
                assert(out[i] == fields[i] && out[j] == fields[j]);
            } else {
                assert(out[i] == fields[i]);
            }
        }
    } else if fields[from].0 == key {
        assert forall|i: int, j: int| 0 <= i < j < out.len() implies bytes_less(
            #[trigger] out[i].0,
            #[trigger] out[j].0,
            0,
        ) by {
            assert(out[i].0 == fields[i].0 && out[j].0 == fields[j].0);
        }
    } else if bytes_less(key, fields[from].0, 0) {
        assert forall|i: int, j: int| 0 <= i < j < out.len() implies bytes_less(
            #[trigger] out[i].0,
            #[trigger] out[j].0,
            0,
        ) by {
            if j < from {
                assert(out[i] == fields[i] && out[j] == fields[j]);
            } else if j == from {
                assert(out[i] == fields[i]);
            } else if i < from {
                assert(out[i] == fields[i] && out[j] == fields[j - 1]);
            } else if i == from {
                assert(out[j] == fields[j - 1]);
                if j - 1 > from {
                    lemma_bytes_less_transitive(key, fields[from].0, fields[j - 1].0, 0);
                }
            } else {
                assert(out[i] == fields[i - 1] && out[j] == fields[j - 1]);
            }
        }
    } else {
        lemma_bytes_less_total(key, fields[from].0, 0);
        lemma_with_field_sorted(fields, key, v, from + 1);
    }
}

/// The fields of an object literal come out in the order of their keys, no
/// key twice.
pub proof fn lemma_object_literal_sorted(
    frames: Frames,
    next: u64,
    depth: nat,
    entries: Seq<(crate::expr::ExprV, Option<crate::expr::ExprV>)>,
    i: nat,
    acc: Seq<(Seq<u8>, ValueV)>,
)
    requires
        sorted_fields(acc),
        eval_fields(frames, next, depth, entries, i, acc).0 is Ok,
    ensures
        sorted_fields(eval_fields(frames, next, depth, entries, i, acc).0->Ok_0),
    decreases entries.len() - i,
{
    if i < entries.len() {
        match eval_field(frames, next, depth, entries[i as int]) {
            (Ok((k, v)), n) => {
                lemma_with_field_sorted(acc, k, v, 0);
                lemma_object_literal_sorted(
                    frames,
                    n,
                    depth,
                    entries,
                    i + 1,
                    with_field(acc, k, v, 0),
                );
            },
            (Err(_), _) => {},
        }
    }
}

/// Every value equals itself: a handle to an array, an object or a function
/// equals every other handle to it.
pub proof fn lemma_equals_itself(v: ValueV)
    ensures
        equal_values(v, v),
{
}

/// Arrays, objects and functions of different serials are not equal,
/// however alike they are.
pub proof fn lemma_made_apart(a: ValueV, b: ValueV)
    requires
        a is Array || a is Object || a is Closure,
        serial_of(a) != serial_of(b),
    ensures
        !equal_values(a, b),
        !equal_values(b, a),
{
}

/// The serial of an array, an object or a function; none of another value.
pub open spec fn serial_of(v: ValueV) -> Option<u64> {
    match v {
        ValueV::Array(id, _) => Some(id),
        ValueV::Object(id, _) => Some(id),
        ValueV::Closure(id, _, _) => Some(id),
        _ => None,
    }
}

/// A name whose value is bound stands for the same value wherever it is
/// written: `a == a` is true for every `a` that is not one of the reserved
/// names, whatever it is bound to.
pub proof fn lemma_name_equals_itself(frames: Frames, next: u64, depth: nat, name: Seq<u8>)
    ensures
        eval_spec(
            frames,
            next,
            depth,
            ExprV::Binary(
                Box::new(ExprV::Ident(name, None)),
                BinaryOp::Eq,
                Box::new(ExprV::Ident(name, None)),
                None,
            ),
        ) == (Ok::<ValueV, RuntimeErrorV>(ValueV::Bool(true)), next),
{
    reveal_with_fuel(eval_spec, 2);
    lemma_equals_itself(crate::semantics::ident_value(frames, name));
}

/// Two array literals make two arrays that are not equal, as long as serials
/// are left: `[..] == [..]` is false where both sides evaluate.
pub proof fn lemma_literals_are_apart(
    frames: Frames,
    next: u64,
    depth: nat,
    a: Seq<ExprV>,
    b: Seq<ExprV>,
)
    requires
        eval_spec(
            frames,
            next,
            depth,
            ExprV::Binary(
                Box::new(ExprV::Array(a, None)),
                BinaryOp::Eq,
                Box::new(ExprV::Array(b, None)),
                None,
            ),
        ).0 is Ok,
        eval_spec(
            frames,
            next,
            depth,
            ExprV::Binary(
                Box::new(ExprV::Array(a, None)),
                BinaryOp::Eq,
                Box::new(ExprV::Array(b, None)),
                None,
            ),
        ).1 < u64::MAX,
    ensures
        eval_spec(
            frames,
            next,
            depth,
            ExprV::Binary(
                Box::new(ExprV::Array(a, None)),
                BinaryOp::Eq,
                Box::new(ExprV::Array(b, None)),
                None,
            ),
        ).0 == Ok::<ValueV, RuntimeErrorV>(ValueV::Bool(false)),
{
    reveal_with_fuel(eval_spec, 2);
    let left = eval_spec(frames, next, depth, ExprV::Array(a, None));
    lemma_items_count_on(frames, left.1, depth, b, 0, Seq::empty());
}

} // verus!
