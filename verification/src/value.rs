//! Runtime values: a tagged union of primitives, arrays, objects and
//! functions, with values shared by reference count rather than copied.

use crate::directive::{Definition, DefinitionV};
use crate::expr::clone_params;
use crate::error::{kind_name, Expected, Kind, RuntimeError, RuntimeErrorV};
use crate::expr::{params_model, Expr, ExprV, Pattern, PatternV};
use crate::text::{append, append_str, bytes_eq, copy_bytes, lit, number_text, push_number};
use std::rc::Rc;
use vstd::prelude::*;

verus! {

/// A value of the expression language.
#[derive(Debug)]
pub enum Value {
    Null,
    Bool(bool),
    Number(i64),
    String(Vec<u8>),
    /// The serial of the array and its items.
    Array(u64, Vec<Rc<Value>>),
    /// The fields. Those that an object literal makes stand in increasing
    /// order of their keys, no key twice; a loop walks them as they stand.
    Object(u64, Vec<(Vec<u8>, Rc<Value>)>),
    /// A function: its serial, its parameters, each with an optional
    /// default, and its body.
    Closure(u64, Vec<(Pattern, Option<Expr>)>, Definition),
    /// Another value, shared; it stands for that value everywhere.
    Ref(Rc<Value>),
}

/// The model of a value. A reference is the value it refers to. An array, an
/// object and a function carry the serial that they were given when they
/// were made: two handles to one such value have the same serial, and two
/// values made apart have different ones.
pub enum ValueV {
    Null,
    Bool(bool),
    Number(i64),
    String(Seq<u8>),
    Array(u64, Seq<ValueV>),
    Object(u64, Seq<(Seq<u8>, ValueV)>),
    Closure(u64, Seq<(PatternV, Option<ExprV>)>, DefinitionV),
}

impl Value {
    /// The model of the value.
    pub open spec fn model(&self) -> ValueV
        decreases self,
    {
        match self {
            Value::Null => ValueV::Null,
            Value::Bool(b) => ValueV::Bool(*b),
            Value::Number(n) => ValueV::Number(*n),
            Value::String(s) => ValueV::String(s@),
            Value::Array(id, v) => ValueV::Array(*id, values_model(v@)),
            Value::Object(id, v) => ValueV::Object(*id, fields_model(v@)),
            Value::Closure(id, params, body) => ValueV::Closure(
                *id,
                params_model(params@),
                body.model(),
            ),
            Value::Ref(r) => (**r).model(),
        }
    }
}

/// The models of a list of shared values.
pub open spec fn values_model(v: Seq<Rc<Value>>) -> Seq<ValueV>
    decreases v,
{
    Seq::new(
        v.len(),
        |i: int|
            if 0 <= i < v.len() {
                (*v[i]).model()
            } else {
                ValueV::Null
            },
    )
}

/// The models of the fields of an object.
pub open spec fn fields_model(v: Seq<(Vec<u8>, Rc<Value>)>) -> Seq<(Seq<u8>, ValueV)>
    decreases v,
{
    Seq::new(
        v.len(),
        |i: int|
            if 0 <= i < v.len() {
                (v[i].0@, (*v[i].1).model())
            } else {
                (Seq::empty(), ValueV::Null)
            },
    )
}

impl View for Value {
    type V = ValueV;

    open spec fn view(&self) -> ValueV {
        self.model()
    }
}

/// The model of a list with one more value.
pub proof fn lemma_values_push(v: Seq<Rc<Value>>, e: Rc<Value>)
    ensures
        values_model(v.push(e)) == values_model(v).push((*e).model()),
{
    assert(values_model(v.push(e)) =~= values_model(v).push((*e).model()));
}

/// The variant of a value.
pub open spec fn kind_of(v: ValueV) -> Kind {
    match v {
        ValueV::Null => Kind::Null,
        ValueV::Bool(_) => Kind::Bool,
        ValueV::Number(_) => Kind::Number,
        ValueV::String(_) => Kind::String,
        ValueV::Array(_, _) => Kind::Array,
        ValueV::Object(_, _) => Kind::Object,
        ValueV::Closure(_, _, _) => Kind::Function,
    }
}

/// A value as a condition: null, `false`, zero and the empty string are false.
pub open spec fn truthy(v: ValueV) -> bool {
    match v {
        ValueV::Null => false,
        ValueV::Bool(b) => b,
        ValueV::Number(n) => n != 0,
        ValueV::String(s) => s.len() > 0,
        _ => true,
    }
}

/// A value as a number: only a number is one.
pub open spec fn number_of(v: ValueV) -> Result<i64, RuntimeErrorV> {
    match v {
        ValueV::Number(n) => Ok(n),
        _ => Err(RuntimeErrorV::Expect(Expected::Number, kind_of(v))),
    }
}

/// A value as a string: a string, or the decimal text of a number.
pub open spec fn string_of(v: ValueV) -> Result<Seq<u8>, RuntimeErrorV> {
    match v {
        ValueV::Number(n) => Ok(number_text(n as int)),
        ValueV::String(s) => Ok(s),
        _ => Err(RuntimeErrorV::Expect(Expected::String, kind_of(v))),
    }
}

/// The text of the first `n` of `items`, separated by `, `.
pub open spec fn display_items(items: Seq<ValueV>, n: nat) -> Seq<u8>
    decreases items, n,
{
    if n == 0 || n > items.len() {
        Seq::empty()
    } else {
        display_items(items, (n - 1) as nat) + (if n > 1 {
            lit(", ")
        } else {
            Seq::empty()
        }) + display(items[n - 1])
    }
}

/// The text of the first `n` of `fields`, each as `key: value`, separated by `, `.
pub open spec fn display_fields(fields: Seq<(Seq<u8>, ValueV)>, n: nat) -> Seq<u8>
    decreases fields, n,
{
    if n == 0 || n > fields.len() {
        Seq::empty()
    } else {
        display_fields(fields, (n - 1) as nat) + (if n > 1 {
            lit(", ")
        } else {
            Seq::empty()
        }) + fields[n - 1].0 + lit(": ") + display(fields[n - 1].1)
    }
}

/// The text of a value inside other text.
pub open spec fn display(v: ValueV) -> Seq<u8>
    decreases v, 0nat,
{
    match v {
        ValueV::Null => lit("null"),
        ValueV::Bool(b) => if b {
            lit("true")
        } else {
            lit("false")
        },
        ValueV::Number(n) => number_text(n as int),
        ValueV::String(s) => s,
        ValueV::Array(_, items) => lit("[") + display_items(items, items.len()) + lit("]"),
        ValueV::Object(_, fields) => lit("{") + display_fields(fields, fields.len()) + lit("}"),
        ValueV::Closure(_, _, _) => lit("fn"),
    }
}

/// The text that a value renders as: nothing for null, else its display.
pub open spec fn rendered(v: ValueV) -> Seq<u8> {
    match v {
        ValueV::Null => Seq::empty(),
        _ => display(v),
    }
}

/// The first `n` entries of an array, each with its index as key.
pub open spec fn array_entries(items: Seq<ValueV>) -> Seq<(ValueV, ValueV)> {
    Seq::new(items.len(), |i: int| (items[i], ValueV::Number(i as i64)))
}

/// The entries of an object in stored order, each with its key as a string.
pub open spec fn object_entries(fields: Seq<(Seq<u8>, ValueV)>) -> Seq<(ValueV, ValueV)> {
    Seq::new(fields.len(), |i: int| (fields[i].1, ValueV::String(fields[i].0)))
}

/// The (value, key) pairs that a loop walks.
pub open spec fn entries_of(v: ValueV) -> Result<Seq<(ValueV, ValueV)>, RuntimeErrorV> {
    match v {
        ValueV::Array(_, items) => Ok(array_entries(items)),
        ValueV::Object(_, fields) => Ok(object_entries(fields)),
        _ => Err(RuntimeErrorV::Expect(Expected::Entries, kind_of(v))),
    }
}

/// Index of the first of `fields`, from `from` on, whose key is `key`.
pub open spec fn field_index(fields: Seq<(Seq<u8>, ValueV)>, key: Seq<u8>, from: int) -> Option<int>
    decreases fields.len() - from,
{
    if from < 0 || from >= fields.len() {
        None
    } else if fields[from].0 == key {
        Some(from)
    } else {
        field_index(fields, key, from + 1)
    }
}

/// The value under `key`, or null where the object has no such key.
pub open spec fn field_of(fields: Seq<(Seq<u8>, ValueV)>, key: Seq<u8>) -> ValueV {
    match field_index(fields, key, 0) {
        Some(i) => fields[i].1,
        None => ValueV::Null,
    }
}

/// `base[key]`: a field of an object, an item of an array, and null where
/// there is none.
pub open spec fn index_of(base: ValueV, key: ValueV) -> Result<ValueV, RuntimeErrorV> {
    match base {
        ValueV::Object(_, fields) => match string_of(key) {
            Ok(k) => Ok(field_of(fields, k)),
            Err(e) => Err(e),
        },
        ValueV::Array(_, items) => match number_of(key) {
            Ok(n) => Ok(
                if 0 <= n < items.len() {
                    items[n as int]
                } else {
                    ValueV::Null
                },
            ),
            Err(e) => Err(e),
        },
        _ => Err(RuntimeErrorV::CannotIndex(kind_of(base))),
    }
}

/// `a` comes before `b` in the order of their bytes, compared from `from` on.
pub open spec fn bytes_less(a: Seq<u8>, b: Seq<u8>, from: int) -> bool
    decreases b.len() - from,
{
    if from < 0 || from >= b.len() {
        false
    } else if from >= a.len() {
        true
    } else if a[from] != b[from] {
        a[from] < b[from]
    } else {
        bytes_less(a, b, from + 1)
    }
}

/// `fields` with `key` set to `v`: the entry of that key is replaced, or a new
/// one is put before the first key, from `from` on, that comes after `key`.
pub open spec fn with_field(
    fields: Seq<(Seq<u8>, ValueV)>,
    key: Seq<u8>,
    v: ValueV,
    from: int,
) -> Seq<(Seq<u8>, ValueV)>
    decreases fields.len() - from,
{
    if from < 0 || from >= fields.len() {
        fields.push((key, v))
    } else if fields[from].0 == key {
        fields.update(from, (key, v))
    } else if bytes_less(key, fields[from].0, 0) {
        fields.insert(from, (key, v))
    } else {
        with_field(fields, key, v, from + 1)
    }
}

/// Another handle to the same shared value.
///
/// `Rc::clone` of the standard library: it copies the pointer and counts the
/// reference, so the new handle holds the value that the old one holds.
#[verifier::external_body]
pub(crate) fn share<T>(v: &Rc<T>) -> (r: Rc<T>)
    ensures
        r == *v,
{
    Rc::clone(v)
}

/// Whether `a` comes before `b` in the order of their bytes.
pub fn bytes_before(a: &[u8], b: &[u8]) -> (r: bool)
    ensures
        r == bytes_less(a@, b@, 0),
{
    let mut i: usize = 0;
    loop
        invariant
            i <= b@.len(),
            i <= a@.len(),
            bytes_less(a@, b@, 0) == bytes_less(a@, b@, i as int),
        decreases b@.len() - i,
    {
        if i >= b.len() {
            return false;
        }
        if i >= a.len() {
            return true;
        }
        if a[i] != b[i] {
            return a[i] < b[i];
        }
        i += 1;
    }
}

impl Value {
    /// The value itself, or the one that a chain of references leads to.
    pub fn deref(&self) -> (r: &Value)
        ensures
            r.model() == self.model(),
            !(r is Ref),
        decreases self,
    {
        match self {
            Value::Ref(v) => (**v).deref(),
            _ => self,
        }
    }

    /// The variant of the value.
    pub fn kind(&self) -> (r: Kind)
        ensures
            r == kind_of(self.model()),
    {
        match self.deref() {
            Value::Null => Kind::Null,
            Value::Bool(_) => Kind::Bool,
            Value::Number(_) => Kind::Number,
            Value::String(_) => Kind::String,
            Value::Array(_, _) => Kind::Array,
            Value::Object(_, _) => Kind::Object,
            _ => Kind::Function,
        }
    }

    /// The name of the value's variant.
    pub fn variant_name(&self) -> (r: &'static str)
        ensures
            lit(r) == kind_name(kind_of(self.model())),
    {
        self.kind().name()
    }

    /// The number, where the value is one.
    pub fn as_number(&self) -> (r: Result<i64, RuntimeError>)
        ensures
            match number_of(self.model()) {
                Ok(n) => r == Ok::<i64, RuntimeError>(n),
                Err(e) => r matches Err(x) && x@ == e,
            },
    {
        match self.deref() {
            Value::Number(n) => Ok(*n),
            _ => Err(RuntimeError::Expect(Expected::Number, self.kind())),
        }
    }

    /// The value as a string: a string, or the decimal text of a number.
    pub fn as_string(&self) -> (r: Result<Vec<u8>, RuntimeError>)
        ensures
            match string_of(self.model()) {
                Ok(s) => r matches Ok(x) && x@ == s,
                Err(e) => r matches Err(x) && x@ == e,
            },
    {
        match self.deref() {
            Value::Number(n) => {
                let mut out: Vec<u8> = Vec::new();
                push_number(&mut out, *n);
                assert(out@ =~= number_text(*n as int));
                Ok(out)
            },
            Value::String(s) => Ok(copy_bytes(s.as_slice())),
            _ => Err(RuntimeError::Expect(Expected::String, self.kind())),
        }
    }

    /// The value as a condition.
    pub fn as_bool(&self) -> (r: bool)
        ensures
            r == truthy(self.model()),
    {
        match self.deref() {
            Value::Null => false,
            Value::Bool(b) => *b,
            Value::Number(n) => *n != 0,
            Value::String(s) => s.len() > 0,
            _ => true,
        }
    }

    /// The parameters and the body, where the value is a function.
    pub fn as_abs(&self) -> (r: Result<(&Vec<(Pattern, Option<Expr>)>, &Definition), RuntimeError>)
        ensures
            match self.model() {
                ValueV::Closure(_, params, body) => r matches Ok((p, b)) && params_model(p@) == params
                    && b@ == body,
                v => r matches Err(e) && e@ == RuntimeErrorV::Expect(Expected::Function, kind_of(v)),
            },
    {
        match self.deref() {
            Value::Closure(_, params, body) => Ok((params, body)),
            _ => Err(RuntimeError::Expect(Expected::Function, self.kind())),
        }
    }

    /// The value behind a shared handle, as a reference to it.
    pub fn from_rc(rc: Rc<Value>) -> (r: Value)
        ensures
            r.model() == (*rc).model(),
    {
        Value::Ref(rc)
    }

    /// A shared handle to the value.
    pub fn into_rc(self) -> (r: Rc<Value>)
        ensures
            (*r).model() == self.model(),
    {
        match self {
            Value::Ref(v) => v,
            v => Rc::new(v),
        }
    }

    /// The items, where the value is an array.
    pub fn into_array(self) -> (r: Result<Vec<Rc<Value>>, RuntimeError>)
        ensures
            match self.model() {
                ValueV::Array(_, items) => r matches Ok(v) && values_model(v@) == items,
                v => r matches Err(e) && e@ == RuntimeErrorV::Expect(Expected::Array, kind_of(v)),
            },
    {
        match self.deref() {
            Value::Array(_, items) => {
                let mut out: Vec<Rc<Value>> = Vec::new();
                let mut i: usize = 0;
                while i < items.len()
                    invariant
                        i <= items.len(),
                        out@.len() == i,
                        forall|j: int| 0 <= j < i ==> out@[j] == items@[j],
                    decreases items.len() - i,
                {
                    out.push(share(&items[i]));
                    i += 1;
                }
                assert(values_model(out@) =~= values_model(items@));
                Ok(out)
            },
            _ => Err(RuntimeError::Expect(Expected::Array, self.kind())),
        }
    }

    /// The fields, where the value is an object.
    pub fn into_object(self) -> (r: Result<Vec<(Vec<u8>, Rc<Value>)>, RuntimeError>)
        ensures
            match self.model() {
                ValueV::Object(_, fields) => r matches Ok(v) && fields_model(v@) == fields,
                v => r matches Err(e) && e@ == RuntimeErrorV::Expect(Expected::Object, kind_of(v)),
            },
    {
        match self.deref() {
            Value::Object(_, fields) => {
                let mut out: Vec<(Vec<u8>, Rc<Value>)> = Vec::new();
                let mut i: usize = 0;
                while i < fields.len()
                    invariant
                        i <= fields.len(),
                        out@.len() == i,
                        forall|j: int|
                            0 <= j < i ==> out@[j].0@ == fields@[j].0@ && out@[j].1 == fields@[j].1,
                    decreases fields.len() - i,
                {
                    out.push((copy_bytes(fields[i].0.as_slice()), share(&fields[i].1)));
                    i += 1;
                }
                assert(fields_model(out@) =~= fields_model(fields@));
                Ok(out)
            },
            _ => Err(RuntimeError::Expect(Expected::Object, self.kind())),
        }
    }

    /// `self[key]`.
    pub fn get(&self, key: &Value) -> (r: Result<Value, RuntimeError>)
        ensures
            match index_of(self.model(), key.model()) {
                Ok(v) => r matches Ok(x) && x.model() == v,
                Err(e) => r matches Err(x) && x@ == e,
            },
    {
        match self.deref() {
            Value::Object(_, fields) => match key.as_string() {
                Ok(k) => Ok(get_field(fields, k.as_slice())),
                Err(e) => Err(e),
            },
            Value::Array(_, items) => match key.as_number() {
                Ok(n) => {
                    if 0 <= n && (n as u64) < (items.len() as u64) {
                        let r = Value::Ref(share(&items[n as usize]));
                        assert(r.model() == values_model(items@)[n as int]);
                        Ok(r)
                    } else {
                        assert(!(0 <= n < values_model(items@).len()));
                        Ok(Value::Null)
                    }
                },
                Err(e) => Err(e),
            },
            _ => Err(RuntimeError::CannotIndex(self.kind())),
        }
    }

    /// The (value, key) pairs that a loop over the value walks.
    pub fn as_entries(&self) -> (r: Result<Vec<(Value, Value)>, RuntimeError>)
        ensures
            match entries_of(self.model()) {
                Ok(entries) => r matches Ok(v) && pairs_model(v@) == entries,
                Err(e) => r matches Err(x) && x@ == e,
            },
    {
        match self.deref() {
            Value::Array(_, items) => {
                let mut out: Vec<(Value, Value)> = Vec::new();
                let mut i: usize = 0;
                while i < items.len()
                    invariant
                        i <= items.len() <= usize::MAX,
                        out@.len() == i,
                        forall|j: int|
                            0 <= j < i ==> out@[j].0.model() == (*items@[j]).model()
                                && out@[j].1.model() == ValueV::Number(j as i64),
                    decreases items.len() - i,
                {
                    out.push((Value::Ref(share(&items[i])), Value::Number(i as i64)));
                    i += 1;
                }
                assert(pairs_model(out@) =~= array_entries(values_model(items@)));
                Ok(out)
            },
            Value::Object(_, fields) => {
                let mut out: Vec<(Value, Value)> = Vec::new();
                let mut i: usize = 0;
                while i < fields.len()
                    invariant
                        i <= fields.len(),
                        out@.len() == i,
                        forall|j: int|
                            0 <= j < i ==> out@[j].0.model() == (*fields@[j].1).model()
                                && out@[j].1.model() == ValueV::String(fields@[j].0@),
                    decreases fields.len() - i,
                {
                    out.push(
                        (
                            Value::Ref(share(&fields[i].1)),
                            Value::String(copy_bytes(fields[i].0.as_slice())),
                        ),
                    );
                    i += 1;
                }
                assert(pairs_model(out@) =~= object_entries(fields_model(fields@)));
                Ok(out)
            },
            _ => Err(RuntimeError::Expect(Expected::Entries, self.kind())),
        }
    }

    /// The text that the value renders as.
    pub fn to_string(&self) -> (r: Vec<u8>)
        ensures
            r@ == rendered(self.model()),
    {
        let mut out: Vec<u8> = Vec::new();
        match self.deref() {
            Value::Null => {},
            v => {
                write_value(&mut out, v);
            },
        }
        assert(out@ =~= rendered(self.model()));
        out
    }
}

impl Clone for Value {
    /// A value with the same model. Shared parts stay shared.
    fn clone(&self) -> (r: Self)
        ensures
            r.model() == self.model(),
    {
        match self {
            Value::Null => Value::Null,
            Value::Bool(b) => Value::Bool(*b),
            Value::Number(n) => Value::Number(*n),
            Value::String(s) => Value::String(copy_bytes(s.as_slice())),
            Value::Array(id, items) => {
                let mut out: Vec<Rc<Value>> = Vec::new();
                let mut i: usize = 0;
                while i < items.len()
                    invariant
                        i <= items.len(),
                        out@.len() == i,
                        forall|j: int| 0 <= j < i ==> out@[j] == items@[j],
                    decreases items.len() - i,
                {
                    out.push(share(&items[i]));
                    i += 1;
                }
                assert(values_model(out@) =~= values_model(items@));
                Value::Array(*id, out)
            },
            Value::Object(id, fields) => {
                let mut out: Vec<(Vec<u8>, Rc<Value>)> = Vec::new();
                let mut i: usize = 0;
                while i < fields.len()
                    invariant
                        i <= fields.len(),
                        out@.len() == i,
                        forall|j: int|
                            0 <= j < i ==> out@[j].0@ == fields@[j].0@ && out@[j].1 == fields@[j].1,
                    decreases fields.len() - i,
                {
                    out.push((copy_bytes(fields[i].0.as_slice()), share(&fields[i].1)));
                    i += 1;
                }
                assert(fields_model(out@) =~= fields_model(fields@));
                Value::Object(*id, out)
            },
            Value::Closure(id, params, body) => Value::Closure(
                *id,
                clone_params(params),
                body.clone(),
            ),
            Value::Ref(r) => Value::Ref(share(r)),
        }
    }
}

impl From<bool> for Value {
    fn from(value: bool) -> (r: Self) {
        Value::Bool(value)
    }
}

impl vstd::std_specs::convert::FromSpecImpl<bool> for Value {
    open spec fn obeys_from_spec() -> bool {
        true
    }

    open spec fn from_spec(value: bool) -> Self {
        Value::Bool(value)
    }
}

impl From<i64> for Value {
    fn from(value: i64) -> (r: Self) {
        Value::Number(value)
    }
}

impl vstd::std_specs::convert::FromSpecImpl<i64> for Value {
    open spec fn obeys_from_spec() -> bool {
        true
    }

    open spec fn from_spec(value: i64) -> Self {
        Value::Number(value)
    }
}

impl Value {
    /// The string value of the text `s`.
    pub fn text(s: &str) -> (r: Self)
        ensures
            r.model() == ValueV::String(lit(s)),
    {
        Value::String(copy_bytes(s.as_bytes()))
    }
}

/// The models of (value, key) pairs.
pub open spec fn pairs_model(v: Seq<(Value, Value)>) -> Seq<(ValueV, ValueV)> {
    Seq::new(v.len(), |i: int| (v[i].0.model(), v[i].1.model()))
}

/// The value under `key` in `fields`, or null.
pub fn get_field(fields: &Vec<(Vec<u8>, Rc<Value>)>, key: &[u8]) -> (r: Value)
    ensures
        r.model() == field_of(fields_model(fields@), key@),
{
    let mut i: usize = 0;
    while i < fields.len()
        invariant
            i <= fields.len(),
            field_index(fields_model(fields@), key@, 0) == field_index(
                fields_model(fields@),
                key@,
                i as int,
            ),
        decreases fields.len() - i,
    {
        if bytes_eq(fields[i].0.as_slice(), key) {
            return Value::Ref(share(&fields[i].1));
        }
        i += 1;
    }
    Value::Null
}

/// Sets `key` to `value` in `fields`, keeping the keys in order.
pub fn set_field(fields: &mut Vec<(Vec<u8>, Rc<Value>)>, key: Vec<u8>, value: Rc<Value>)
    ensures
        fields_model(final(fields)@) == with_field(
            fields_model(old(fields)@),
            key@,
            (*value).model(),
            0,
        ),
{
    let ghost before = fields_model(fields@);
    let ghost k = key@;
    let ghost v = (*value).model();
    let mut i: usize = 0;
    while i < fields.len()
        invariant
            i <= fields.len(),
            fields_model(fields@) == before,
            before == fields_model(old(fields)@),
            k == key@,
            v == (*value).model(),
            with_field(before, k, v, 0) == with_field(before, k, v, i as int),
        decreases fields.len() - i,
    {
        if bytes_eq(fields[i].0.as_slice(), key.as_slice()) {
            fields.set(i, (key, value));
            assert(fields_model(fields@) =~= before.update(i as int, (k, v)));
            return ;
        }
        if bytes_before(key.as_slice(), fields[i].0.as_slice()) {
            fields.insert(i, (key, value));
            assert(fields_model(fields@) =~= before.insert(i as int, (k, v)));
            return ;
        }
        i += 1;
    }
    fields.push((key, value));
    assert(fields_model(fields@) =~= before.push((k, v)));
}

/// Appends the display of `v` to `out`.
pub fn write_value(out: &mut Vec<u8>, v: &Value)
    ensures
        final(out)@ == old(out)@ + display(v.model()),
    decreases v,
{
    let ghost start = out@;
    match v {
        Value::Null => {
            append_str(out, "null");
        },
        Value::Bool(b) => {
            if *b {
                append_str(out, "true");
            } else {
                append_str(out, "false");
            }
        },
        Value::Number(n) => {
            push_number(out, *n);
        },
        Value::String(s) => {
            append(out, s.as_slice());
        },
        Value::Array(_, items) => {
            append_str(out, "[");
            let ghost models = values_model(items@);
            let mut i: usize = 0;
            while i < items.len()
                invariant
                    i <= items.len(),
                    models == values_model(items@),
                    decreases_to!(*v => *items),
                    out@ == start + lit("[") + display_items(models, i as nat),
                decreases items.len() - i,
            {
                if i > 0 {
                    append_str(out, ", ");
                }
                write_value(out, &*items[i]);
                i += 1;
                assert(out@ =~= start + lit("[") + display_items(models, i as nat));
            }
            append_str(out, "]");
            assert(out@ =~= start + display(v.model()));
        },
        Value::Object(_, fields) => {
            append_str(out, "{");
            let ghost models = fields_model(fields@);
            let mut i: usize = 0;
            while i < fields.len()
                invariant
                    i <= fields.len(),
                    models == fields_model(fields@),
                    decreases_to!(*v => *fields),
                    out@ == start + lit("{") + display_fields(models, i as nat),
                decreases fields.len() - i,
            {
                if i > 0 {
                    append_str(out, ", ");
                }
                append(out, fields[i].0.as_slice());
                append_str(out, ": ");
                write_value(out, &*fields[i].1);
                i += 1;
                assert(out@ =~= start + lit("{") + display_fields(models, i as nat));
            }
            append_str(out, "}");
            assert(out@ =~= start + display(v.model()));
        },
        Value::Closure(_, _, _) => {
            append_str(out, "fn");
        },
        Value::Ref(r) => {
            write_value(out, &**r);
        },
    }
}

} // verus!
