//! The evaluation context: a chain of frames. A frame binds names to shared
//! values; a fork adds an empty frame that sees the frames before it.

use crate::directive::Definition;
use crate::error::RuntimeError;
use crate::expr::{params_model, Expr, Pattern};
use crate::semantics::{after, define, forked, lookup, Frame, Frames};
use crate::text::{bytes_eq, copy_bytes};
use crate::value::{share, Value, ValueV};
use std::rc::Rc;
use vstd::prelude::*;

verus! {

/// How deep function calls may nest in a context made by `Context::new`.
pub const DEFAULT_DEPTH: usize = 100;

/// The innermost frame and, shared, the context that it was forked from.
pub struct Context {
    local: Vec<(Vec<u8>, Rc<Value>)>,
    parent: Option<Rc<Context>>,
    depth: usize,
    next: u64,
}

/// The bindings that a list of entries makes: a later entry of a name
/// replaces an earlier one.
pub open spec fn frame_map(entries: Seq<(Vec<u8>, Rc<Value>)>) -> Frame
    decreases entries.len(),
{
    if entries.len() == 0 {
        Map::empty()
    } else {
        frame_map(entries.drop_last()).insert(entries.last().0@, (*entries.last().1).model())
    }
}

/// No entry of `entries` from `from` on binds `name`.
pub open spec fn unbound_from(entries: Seq<(Vec<u8>, Rc<Value>)>, name: Seq<u8>, from: int) -> bool {
    forall|j: int| from <= j < entries.len() ==> (#[trigger] entries[j]).0@ != name
}

/// A name that no entry binds is not among the bindings.
pub proof fn lemma_frame_map_unbound(entries: Seq<(Vec<u8>, Rc<Value>)>, name: Seq<u8>)
    requires
        unbound_from(entries, name, 0),
    ensures
        !frame_map(entries).contains_key(name),
    decreases entries.len(),
{
    if entries.len() > 0 {
        let rest = entries.drop_last();
        assert(unbound_from(rest, name, 0)) by {
            assert forall|j: int| 0 <= j < rest.len() implies (#[trigger] rest[j]).0@ != name by {
                assert(rest[j] == entries[j]);
            }
        }
        lemma_frame_map_unbound(rest, name);
        assert(entries.last() == entries[entries.len() - 1]);
    }
}

/// A name is bound to the value of the last entry that binds it.
pub proof fn lemma_frame_map_bound(entries: Seq<(Vec<u8>, Rc<Value>)>, name: Seq<u8>, i: int)
    requires
        0 <= i < entries.len(),
        entries[i].0@ == name,
        unbound_from(entries, name, i + 1),
    ensures
        frame_map(entries).contains_key(name),
        frame_map(entries)[name] == (*entries[i].1).model(),
    decreases entries.len(),
{
    let rest = entries.drop_last();
    if i == entries.len() - 1 {
    } else {
        assert(entries.last() == entries[entries.len() - 1]);
        assert(rest[i] == entries[i]);
        assert(unbound_from(rest, name, i + 1)) by {
            assert forall|j: int| i + 1 <= j < rest.len() implies (#[trigger] rest[j]).0@
                != name by {
                assert(rest[j] == entries[j]);
            }
        }
        lemma_frame_map_bound(rest, name, i);
    }
}

/// Entries with the same names and the same values make the same bindings.
pub proof fn lemma_frame_map_same(a: Seq<(Vec<u8>, Rc<Value>)>, b: Seq<(Vec<u8>, Rc<Value>)>)
    requires
        a.len() == b.len(),
        forall|j: int|
            0 <= j < a.len() ==> a[j].0@ == b[j].0@ && (*a[j].1).model() == (*b[j].1).model(),
    ensures
        frame_map(a) == frame_map(b),
    decreases a.len(),
{
    if a.len() > 0 {
        lemma_frame_map_same(a.drop_last(), b.drop_last());
    }
}

impl Context {
    /// The frames of the context, outermost first.
    pub closed spec fn frames(&self) -> Frames
        decreases self,
    {
        match self.parent {
            Some(p) => (*p).frames().push(frame_map(self.local@)),
            None => seq![frame_map(self.local@)],
        }
    }

    /// How many levels of function calls may still be entered.
    pub closed spec fn depth(&self) -> nat {
        self.depth as nat
    }

    /// The serial that the next array, object or function made in this
    /// context will get.
    pub closed spec fn next(&self) -> u64 {
        self.next
    }

    /// A context has at least one frame.
    pub proof fn lemma_frames(&self)
        ensures
            self.frames().len() > 0,
    {
    }

    /// A context of one empty frame.
    pub fn new() -> (r: Self)
        ensures
            r.frames() == seq![Map::<Seq<u8>, ValueV>::empty()],
            r.depth() == DEFAULT_DEPTH,
            r.next() == 0,
    {
        Context { local: Vec::new(), parent: None, depth: DEFAULT_DEPTH, next: 0 }
    }

    /// A context of one empty frame in which calls may nest `depth` deep.
    pub fn with_depth(depth: usize) -> (r: Self)
        ensures
            r.frames() == seq![Map::<Seq<u8>, ValueV>::empty()],
            r.depth() == depth,
            r.next() == 0,
    {
        Context { local: Vec::new(), parent: None, depth, next: 0 }
    }

    /// How many levels of function calls may still be entered.
    pub fn depth_left(&self) -> (r: usize)
        ensures
            r == self.depth(),
    {
        self.depth
    }

    /// The serial that the next value made will get.
    pub fn next_serial(&self) -> (r: u64)
        ensures
            r == self.next(),
    {
        self.next
    }

    /// Takes the next serial for a value that is being made.
    pub fn fresh(&mut self) -> (r: u64)
        ensures
            r == old(self).next(),
            final(self).next() == after(old(self).next()),
            final(self).frames() == old(self).frames(),
            final(self).depth() == old(self).depth(),
    {
        let r = self.next;
        if self.next < u64::MAX {
            self.next = self.next + 1;
        }
        r
    }

    /// Sets the next serial to `next`: that of a fork of this context, after
    /// the fork has made its values, so that no serial is given twice.
    pub fn advance(&mut self, next: u64)
        ensures
            final(self).next() == next,
            final(self).frames() == old(self).frames(),
            final(self).depth() == old(self).depth(),
    {
        self.next = next;
    }

    /// A context with the same frames and the same count of serials.
    pub fn same(&self) -> (r: Self)
        ensures
            r.frames() == self.frames(),
            r.depth() == self.depth(),
            r.next() == self.next(),
    {
        self.snapshot(self.depth)
    }

    fn snapshot(&self, depth: usize) -> (r: Self)
        ensures
            r.frames() == self.frames(),
            r.depth() == depth,
            r.next() == self.next(),
    {
        let mut local: Vec<(Vec<u8>, Rc<Value>)> = Vec::new();
        let mut i: usize = 0;
        while i < self.local.len()
            invariant
                i <= self.local.len(),
                local@.len() == i,
                forall|j: int|
                    0 <= j < i ==> local@[j].0@ == self.local@[j].0@ && local@[j].1
                        == self.local@[j].1,
            decreases self.local.len() - i,
        {
            local.push((copy_bytes(self.local[i].0.as_slice()), share(&self.local[i].1)));
            i += 1;
        }
        proof {
            lemma_frame_map_same(local@, self.local@);
        }
        let parent = match &self.parent {
            Some(p) => Some(share(p)),
            None => None,
        };
        Context { local, parent, depth, next: self.next }
    }

    /// A context with a new, empty innermost frame on top of the frames of
    /// this one. What is bound in it later does not show in this context.
    ///
    /// The fork sees this context as it is now: it shares the values, but
    /// holds its own record of the names. A name that is bound in this
    /// context after the fork was made does not show in the fork.
    pub fn fork(&self) -> (r: Self)
        ensures
            r.frames() == forked(self.frames()),
            r.depth() == self.depth(),
            r.next() == self.next(),
    {
        let r = Context {
            local: Vec::new(),
            parent: Some(Rc::new(self.snapshot(self.depth))),
            depth: self.depth,
            next: self.next,
        };
        r
    }

    /// A fork in which calls may nest one level less deep; `None` where no
    /// level is left.
    pub fn enter(&self) -> (r: Option<Self>)
        ensures
            match r {
                Some(c) => self.depth() > 0 && c.frames() == forked(self.frames()) && c.depth()
                    == self.depth() - 1 && c.next() == self.next(),
                None => self.depth() == 0,
            },
    {
        if self.depth == 0 {
            None
        } else {
            Some(
                Context {
                    local: Vec::new(),
                    parent: Some(Rc::new(self.snapshot(self.depth))),
                    depth: self.depth - 1,
                    next: self.next,
                },
            )
        }
    }

    fn find_local(&self, name: &[u8]) -> (r: Option<usize>)
        ensures
            match r {
                Some(i) => i < self.local@.len() && self.local@[i as int].0@ == name@
                    && unbound_from(self.local@, name@, i + 1),
                None => unbound_from(self.local@, name@, 0),
            },
    {
        let mut i: usize = self.local.len();
        while i > 0
            invariant
                i <= self.local@.len(),
                unbound_from(self.local@, name@, i as int),
            decreases i,
        {
            i -= 1;
            if bytes_eq(self.local[i].0.as_slice(), name) {
                return Some(i);
            }
        }
        None
    }

    /// The value bound to `name` in the innermost frame that binds it, or null.
    pub fn get(&self, name: &[u8]) -> (r: Value)
        ensures
            r.model() == lookup(self.frames(), name@),
        decreases self,
    {
        proof {
            reveal_with_fuel(lookup, 2);
        }
        match self.find_local(name) {
            Some(i) => {
                proof {
                    lemma_frame_map_bound(self.local@, name@, i as int);
                }
                Value::Ref(share(&self.local[i].1))
            },
            None => {
                proof {
                    lemma_frame_map_unbound(self.local@, name@);
                }
                match &self.parent {
                    Some(p) => {
                        assert((*p).frames().push(frame_map(self.local@)).drop_last() =~= (
                        *p).frames());
                        (**p).get(name)
                    },
                    None => {
                        assert(seq![frame_map(self.local@)].drop_last() =~= Seq::<Frame>::empty());
                        Value::Null
                    },
                }
            },
        }
    }

    /// Binds `name` to `value` in the innermost frame; an error where that
    /// frame binds `name` already.
    pub fn set(&mut self, name: Vec<u8>, value: Value) -> (r: Result<(), RuntimeError>)
        ensures
            final(self).depth() == old(self).depth(),
            final(self).next() == old(self).next(),
            match define(old(self).frames(), name@, value.model()) {
                Ok(f) => r is Ok && final(self).frames() == f,
                Err(e) => r matches Err(x) && x@ == e && final(self).frames() == old(self).frames(),
            },
    {
        match self.find_local(name.as_slice()) {
            Some(i) => {
                proof {
                    lemma_frame_map_bound(self.local@, name@, i as int);
                }
                Err(RuntimeError::Defined(name))
            },
            None => {
                proof {
                    lemma_frame_map_unbound(self.local@, name@);
                }
                let ghost before = self.local@;
                let rc = value.into_rc();
                self.local.push((name, rc));
                proof {
                    assert(self.local@.drop_last() =~= before);
                    let outer = old(self).frames().drop_last();
                    if self.parent is Some {
                        assert(outer =~= (*self.parent->0).frames());
                    } else {
                        assert(outer =~= Seq::<Frame>::empty());
                        assert(outer.push(frame_map(self.local@)) =~= seq![frame_map(self.local@)]);
                    }
                }
                Ok(())
            },
        }
    }

    /// Binds `name` to the function of the given parameters and body, which
    /// takes the next serial.
    pub fn def(
        &mut self,
        name: &[u8],
        params: Vec<(Pattern, Option<Expr>)>,
        definition: Definition,
    ) -> (r: Result<(), RuntimeError>)
        ensures
            final(self).depth() == old(self).depth(),
            final(self).next() == after(old(self).next()),
            match define(
                old(self).frames(),
                name@,
                ValueV::Closure(old(self).next(), params_model(params@), definition@),
            ) {
                Ok(f) => r is Ok && final(self).frames() == f,
                Err(e) => r matches Err(x) && x@ == e && final(self).frames() == old(self).frames(),
            },
    {
        let id = self.fresh();
        self.set(copy_bytes(name), Value::Closure(id, params, definition))
    }
}

} // verus!
