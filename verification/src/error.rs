//! The two kinds of diagnostics: syntax errors, which carry a source range,
//! and runtime errors, which do not.

use crate::text::{append_quoted, append_str, copy_bytes, decimal, lit, push_decimal, quoted};
use vstd::prelude::*;

verus! {

/// A failure to read a template or a tag's interior.
#[derive(Debug, PartialEq, Eq)]
pub struct SyntaxError {
    /// What was wrong, as UTF-8 text.
    pub message: Vec<u8>,
    /// Half-open range of byte offsets that the error is about.
    pub range: (usize, usize),
}

/// The model of a syntax error.
pub struct SyntaxErrorV {
    pub message: Seq<u8>,
    pub range: (usize, usize),
}

impl View for SyntaxError {
    type V = SyntaxErrorV;

    open spec fn view(&self) -> SyntaxErrorV {
        SyntaxErrorV { message: self.message@, range: self.range }
    }
}

/// A syntax error with the message `text` at `range`.
pub open spec fn syntax_error(text: Seq<u8>, range: (usize, usize)) -> SyntaxErrorV {
    SyntaxErrorV { message: text, range }
}

impl Clone for SyntaxError {
    fn clone(&self) -> (r: Self)
        ensures
            r@ == self@,
    {
        SyntaxError { message: copy_bytes(self.message.as_slice()), range: (self.range.0, self.range.1) }
    }
}

impl SyntaxError {
    /// An error with the message `message` at `range`.
    pub fn new(message: &str, range: (usize, usize)) -> (r: Self)
        ensures
            r@ == syntax_error(lit(message), range),
    {
        let mut m: Vec<u8> = Vec::new();
        append_str(&mut m, message);
        assert(m@ =~= lit(message));
        SyntaxError { message: m, range }
    }

    /// An error whose message is `message` followed by `name` in single quotes.
    pub fn named(message: &str, name: &[u8], range: (usize, usize)) -> (r: Self)
        ensures
            r@ == syntax_error(lit(message) + quoted(name@), range),
    {
        let mut m: Vec<u8> = Vec::new();
        append_str(&mut m, message);
        append_quoted(&mut m, name);
        assert(m@ =~= lit(message) + quoted(name@));
        SyntaxError { message: m, range }
    }
}

/// The variants of a value, as errors name them.
#[derive(Debug, Clone, Copy, PartialEq, Eq)]
pub enum Kind {
    Null,
    Bool,
    Number,
    String,
    Array,
    Object,
    Function,
}

/// What an operation asked for when it met a value of another kind.
#[derive(Debug, Clone, Copy, PartialEq, Eq)]
pub enum Expected {
    Number,
    String,
    Function,
    Array,
    Object,
    /// An array or an object, to be walked entry by entry.
    Entries,
}

/// A failure to evaluate or to render.
#[derive(Debug, PartialEq, Eq)]
pub enum RuntimeError {
    /// An operand was of the wrong kind.
    Expect(Expected, Kind),
    /// `+` was applied to a left operand that is neither a number nor a string.
    CannotAdd(Kind, Kind),
    /// A value that is neither an array nor an object was indexed.
    CannotIndex(Kind),
    /// The name is already bound in the current frame.
    Defined(Vec<u8>),
    /// A function was given more arguments (second) than it has parameters (first).
    Arguments(usize, usize),
    /// No argument and no default for the parameter with this text.
    Missing(Vec<u8>),
    /// The result of an arithmetic operation is not a 64-bit integer.
    OutOfRange,
    /// Division or remainder by zero.
    DivideByZero,
    /// Function calls were nested deeper than the context allows.
    Depth,
    /// An entry without a value, or without a pattern, whose key is not a name.
    Shorthand,
}

/// The model of a runtime error.
pub enum RuntimeErrorV {
    Expect(Expected, Kind),
    CannotAdd(Kind, Kind),
    CannotIndex(Kind),
    Defined(Seq<u8>),
    Arguments(usize, usize),
    Missing(Seq<u8>),
    OutOfRange,
    DivideByZero,
    Depth,
    Shorthand,
}

impl View for RuntimeError {
    type V = RuntimeErrorV;

    open spec fn view(&self) -> RuntimeErrorV {
        match self {
            RuntimeError::Expect(e, k) => RuntimeErrorV::Expect(*e, *k),
            RuntimeError::CannotAdd(a, b) => RuntimeErrorV::CannotAdd(*a, *b),
            RuntimeError::CannotIndex(k) => RuntimeErrorV::CannotIndex(*k),
            RuntimeError::Defined(n) => RuntimeErrorV::Defined(n@),
            RuntimeError::Arguments(a, b) => RuntimeErrorV::Arguments(*a, *b),
            RuntimeError::Missing(n) => RuntimeErrorV::Missing(n@),
            RuntimeError::OutOfRange => RuntimeErrorV::OutOfRange,
            RuntimeError::DivideByZero => RuntimeErrorV::DivideByZero,
            RuntimeError::Depth => RuntimeErrorV::Depth,
            RuntimeError::Shorthand => RuntimeErrorV::Shorthand,
        }
    }
}

/// The name of a variant of values, as messages show it.
pub open spec fn kind_name(k: Kind) -> Seq<u8> {
    match k {
        Kind::Null => lit("null"),
        Kind::Bool => lit("bool"),
        Kind::Number => lit("number"),
        Kind::String => lit("string"),
        Kind::Array => lit("array"),
        Kind::Object => lit("object"),
        Kind::Function => lit("function"),
    }
}

/// What was asked for, as messages show it.
pub open spec fn expected_name(e: Expected) -> Seq<u8> {
    match e {
        Expected::Number => lit("number"),
        Expected::String => lit("string"),
        Expected::Function => lit("function"),
        Expected::Array => lit("array"),
        Expected::Object => lit("object"),
        Expected::Entries => lit("array or object"),
    }
}

/// The text of a runtime error.
pub open spec fn runtime_message(e: RuntimeErrorV) -> Seq<u8> {
    match e {
        RuntimeErrorV::Expect(x, k) => lit("expect ") + expected_name(x) + lit(", found ")
            + kind_name(k),
        RuntimeErrorV::CannotAdd(a, b) => lit("cannot add ") + kind_name(a) + lit(" and ")
            + kind_name(b),
        RuntimeErrorV::CannotIndex(k) => lit("cannot index into ") + kind_name(k),
        RuntimeErrorV::Defined(n) => quoted(n) + lit(" is already defined"),
        RuntimeErrorV::Arguments(a, b) => lit("expect ") + decimal(a as nat) + lit(
            " arguments, found ",
        ) + decimal(b as nat),
        RuntimeErrorV::Missing(n) => lit("missing required argument ") + quoted(n),
        RuntimeErrorV::OutOfRange => lit("number out of range"),
        RuntimeErrorV::DivideByZero => lit("division by zero"),
        RuntimeErrorV::Depth => lit("call depth exceeded"),
        RuntimeErrorV::Shorthand => lit("shorthand entry needs a name"),
    }
}

impl Kind {
    /// The name, as messages show it.
    pub fn name(self) -> (r: &'static str)
        ensures
            lit(r) == kind_name(self),
    {
        match self {
            Kind::Null => "null",
            Kind::Bool => "bool",
            Kind::Number => "number",
            Kind::String => "string",
            Kind::Array => "array",
            Kind::Object => "object",
            Kind::Function => "function",
        }
    }
}

impl Expected {
    /// The name, as messages show it.
    pub fn name(self) -> (r: &'static str)
        ensures
            lit(r) == expected_name(self),
    {
        match self {
            Expected::Number => "number",
            Expected::String => "string",
            Expected::Function => "function",
            Expected::Array => "array",
            Expected::Object => "object",
            Expected::Entries => "array or object",
        }
    }
}

impl RuntimeError {
    /// The text of the error.
    pub fn message(&self) -> (r: Vec<u8>)
        ensures
            r@ == runtime_message(self@),
    {
        let mut m: Vec<u8> = Vec::new();
        match self {
            RuntimeError::Expect(x, k) => {
                append_str(&mut m, "expect ");
                append_str(&mut m, x.name());
                append_str(&mut m, ", found ");
                append_str(&mut m, k.name());
            },
            RuntimeError::CannotAdd(a, b) => {
                append_str(&mut m, "cannot add ");
                append_str(&mut m, a.name());
                append_str(&mut m, " and ");
                append_str(&mut m, b.name());
            },
            RuntimeError::CannotIndex(k) => {
                append_str(&mut m, "cannot index into ");
                append_str(&mut m, k.name());
            },
            RuntimeError::Defined(n) => {
                append_quoted(&mut m, n.as_slice());
                append_str(&mut m, " is already defined");
            },
            RuntimeError::Arguments(a, b) => {
                append_str(&mut m, "expect ");
                push_decimal(&mut m, *a as u64);
                append_str(&mut m, " arguments, found ");
                push_decimal(&mut m, *b as u64);
            },
            RuntimeError::Missing(n) => {
                append_str(&mut m, "missing required argument ");
                append_quoted(&mut m, n.as_slice());
            },
            RuntimeError::OutOfRange => {
                append_str(&mut m, "number out of range");
            },
            RuntimeError::DivideByZero => {
                append_str(&mut m, "division by zero");
            },
            RuntimeError::Depth => {
                append_str(&mut m, "call depth exceeded");
            },
            RuntimeError::Shorthand => {
                append_str(&mut m, "shorthand entry needs a name");
            },
        }
        assert(m@ =~= runtime_message(self@));
        m
    }
}

/// Either kind of failure, as the combined parse-and-render entry points return it.
#[derive(Debug, PartialEq, Eq)]
pub enum Error {
    Syntax(SyntaxError),
    Runtime(RuntimeError),
}

/// The model of either kind of failure.
pub enum ErrorV {
    Syntax(SyntaxErrorV),
    Runtime(RuntimeErrorV),
}

impl View for Error {
    type V = ErrorV;

    open spec fn view(&self) -> ErrorV {
        match self {
            Error::Syntax(e) => ErrorV::Syntax(e@),
            Error::Runtime(e) => ErrorV::Runtime(e@),
        }
    }
}

} // verus!
