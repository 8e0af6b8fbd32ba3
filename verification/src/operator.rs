//! The operators of the expression language.

use crate::error::{RuntimeError, RuntimeErrorV};
use crate::text::{append, bytes_eq, copy_bytes, lit};
use crate::value::{kind_of, number_of, string_of, truthy, Value, ValueV};
use vstd::arithmetic::power::pow;
use vstd::prelude::*;

verus! {

/// A prefix operator.
#[derive(Debug, Clone, Copy, PartialEq, Eq)]
pub enum UnaryOp {
    Not,
    Pos,
    Neg,
}

/// An infix operator.
#[derive(Debug, Clone, Copy, PartialEq, Eq)]
pub enum BinaryOp {
    Pow,
    Mul,
    Div,
    Mod,
    Add,
    Sub,
    Shl,
    Shr,
    Lt,
    Le,
    Gt,
    Ge,
    Eq,
    Ne,
    BitAnd,
    BitXor,
    BitOr,
    And,
    Or,
}

/// The source text of a prefix operator.
pub open spec fn unary_symbol(op: UnaryOp) -> Seq<u8> {
    match op {
        UnaryOp::Not => lit("!"),
        UnaryOp::Pos => lit("+"),
        UnaryOp::Neg => lit("-"),
    }
}

/// The source text of an infix operator.
pub open spec fn binary_symbol(op: BinaryOp) -> Seq<u8> {
    match op {
        BinaryOp::Pow => lit("**"),
        BinaryOp::Mul => lit("*"),
        BinaryOp::Div => lit("/"),
        BinaryOp::Mod => lit("%"),
        BinaryOp::Add => lit("+"),
        BinaryOp::Sub => lit("-"),
        BinaryOp::Shl => lit("<<"),
        BinaryOp::Shr => lit(">>"),
        BinaryOp::Lt => lit("<"),
        BinaryOp::Le => lit("<="),
        BinaryOp::Gt => lit(">"),
        BinaryOp::Ge => lit(">="),
        BinaryOp::Eq => lit("=="),
        BinaryOp::Ne => lit("!="),
        BinaryOp::BitAnd => lit("&"),
        BinaryOp::BitXor => lit("^"),
        BinaryOp::BitOr => lit("|"),
        BinaryOp::And => lit("&&"),
        BinaryOp::Or => lit("||"),
    }
}

/// The first prefix operator, in declaration order, whose text is `s`.
pub open spec fn unary_from(s: Seq<u8>) -> Option<UnaryOp> {
    if s == unary_symbol(UnaryOp::Not) {
        Some(UnaryOp::Not)
    } else if s == unary_symbol(UnaryOp::Pos) {
        Some(UnaryOp::Pos)
    } else if s == unary_symbol(UnaryOp::Neg) {
        Some(UnaryOp::Neg)
    } else {
        None
    }
}

/// The infix operators in declaration order.
pub open spec fn binary_ops() -> Seq<BinaryOp> {
    seq![
        BinaryOp::Pow,
        BinaryOp::Mul,
        BinaryOp::Div,
        BinaryOp::Mod,
        BinaryOp::Add,
        BinaryOp::Sub,
        BinaryOp::Shl,
        BinaryOp::Shr,
        BinaryOp::Lt,
        BinaryOp::Le,
        BinaryOp::Gt,
        BinaryOp::Ge,
        BinaryOp::Eq,
        BinaryOp::Ne,
        BinaryOp::BitAnd,
        BinaryOp::BitXor,
        BinaryOp::BitOr,
        BinaryOp::And,
        BinaryOp::Or,
    ]
}

/// The first infix operator, from position `from` of `binary_ops` on, whose text is `s`.
pub open spec fn binary_from(s: Seq<u8>, from: int) -> Option<BinaryOp>
    decreases binary_ops().len() - from,
{
    if from < 0 || from >= binary_ops().len() {
        None
    } else if s == binary_symbol(binary_ops()[from]) {
        Some(binary_ops()[from])
    } else {
        binary_from(s, from + 1)
    }
}

impl UnaryOp {
    /// The operator that `input` spells.
    pub fn from(input: &str) -> (r: Self)
        requires
            unary_from(lit(input)) is Some,
        ensures
            Some(r) == unary_from(lit(input)),
    {
        let b = input.as_bytes();
        if bytes_eq(b, "!".as_bytes()) {
            UnaryOp::Not
        } else if bytes_eq(b, "+".as_bytes()) {
            UnaryOp::Pos
        } else {
            UnaryOp::Neg
        }
    }
}

impl BinaryOp {
    /// The operator that `input` spells.
    pub fn from(input: &str) -> (r: Self)
        requires
            binary_from(lit(input), 0) is Some,
        ensures
            Some(r) == binary_from(lit(input), 0),
    {
        let b = input.as_bytes();
        proof {
            reveal_with_fuel(binary_from, 20);
        }
        if bytes_eq(b, "**".as_bytes()) {
            BinaryOp::Pow
        } else if bytes_eq(b, "*".as_bytes()) {
            BinaryOp::Mul
        } else if bytes_eq(b, "/".as_bytes()) {
            BinaryOp::Div
        } else if bytes_eq(b, "%".as_bytes()) {
            BinaryOp::Mod
        } else if bytes_eq(b, "+".as_bytes()) {
            BinaryOp::Add
        } else if bytes_eq(b, "-".as_bytes()) {
            BinaryOp::Sub
        } else if bytes_eq(b, "<<".as_bytes()) {
            BinaryOp::Shl
        } else if bytes_eq(b, ">>".as_bytes()) {
            BinaryOp::Shr
        } else if bytes_eq(b, "<".as_bytes()) {
            BinaryOp::Lt
        } else if bytes_eq(b, "<=".as_bytes()) {
            BinaryOp::Le
        } else if bytes_eq(b, ">".as_bytes()) {
            BinaryOp::Gt
        } else if bytes_eq(b, ">=".as_bytes()) {
            BinaryOp::Ge
        } else if bytes_eq(b, "==".as_bytes()) {
            BinaryOp::Eq
        } else if bytes_eq(b, "!=".as_bytes()) {
            BinaryOp::Ne
        } else if bytes_eq(b, "&".as_bytes()) {
            BinaryOp::BitAnd
        } else if bytes_eq(b, "^".as_bytes()) {
            BinaryOp::BitXor
        } else if bytes_eq(b, "|".as_bytes()) {
            BinaryOp::BitOr
        } else if bytes_eq(b, "&&".as_bytes()) {
            BinaryOp::And
        } else {
            BinaryOp::Or
        }
    }
}

} // verus!

verus! {

/// The number `n`, where it is a 64-bit integer.
pub open spec fn checked(n: int) -> Result<ValueV, RuntimeErrorV> {
    if i64::MIN <= n <= i64::MAX {
        Ok(ValueV::Number(n as i64))
    } else {
        Err(RuntimeErrorV::OutOfRange)
    }
}

/// The quotient of `a` by `b`, rounded toward zero.
pub open spec fn quotient(a: int, b: int) -> int {
    if (a < 0) == (b < 0) {
        abs(a) / abs(b)
    } else {
        -(abs(a) / abs(b))
    }
}

/// The remainder that goes with `quotient`: it has the sign of `a`.
pub open spec fn remainder(a: int, b: int) -> int {
    if a < 0 {
        -(abs(a) % abs(b))
    } else {
        abs(a) % abs(b)
    }
}

/// What a prefix operator makes of a value.
pub open spec fn unary_spec(op: UnaryOp, v: ValueV) -> Result<ValueV, RuntimeErrorV> {
    match op {
        UnaryOp::Not => Ok(ValueV::Bool(!truthy(v))),
        UnaryOp::Pos => match number_of(v) {
            Ok(n) => Ok(ValueV::Number(n)),
            Err(e) => Err(e),
        },
        UnaryOp::Neg => match number_of(v) {
            Ok(n) => checked(-n),
            Err(e) => Err(e),
        },
    }
}

/// Equality of values: null, booleans, numbers and strings are equal where
/// they are the same; an array, an object or a function equals itself only,
/// that is the value of the same serial, however alike another may be.
pub open spec fn equal_values(a: ValueV, b: ValueV) -> bool {
    match (a, b) {
        (ValueV::Null, ValueV::Null) => true,
        (ValueV::Bool(x), ValueV::Bool(y)) => x == y,
        (ValueV::Number(x), ValueV::Number(y)) => x == y,
        (ValueV::String(x), ValueV::String(y)) => x == y,
        (ValueV::Array(x, _), ValueV::Array(y, _)) => x == y,
        (ValueV::Object(x, _), ValueV::Object(y, _)) => x == y,
        (ValueV::Closure(x, _, _), ValueV::Closure(y, _, _)) => x == y,
        _ => false,
    }
}

/// What an arithmetic, shift or bitwise operator makes of two numbers.
pub open spec fn numeric_spec(op: BinaryOp, a: i64, b: i64) -> Result<ValueV, RuntimeErrorV> {
    match op {
        BinaryOp::Pow => if b < 0 {
            Err(RuntimeErrorV::OutOfRange)
        } else {
            checked(pow(a as int, b as nat))
        },
        BinaryOp::Mul => checked(a * b),
        BinaryOp::Div => if b == 0 {
            Err(RuntimeErrorV::DivideByZero)
        } else {
            checked(quotient(a as int, b as int))
        },
        BinaryOp::Mod => if b == 0 {
            Err(RuntimeErrorV::DivideByZero)
        } else {
            checked(remainder(a as int, b as int))
        },
        BinaryOp::Add => checked(a + b),
        BinaryOp::Sub => checked(a - b),
        BinaryOp::Shl => if 0 <= b < 64 {
            checked(a * pow(2, b as nat))
        } else {
            Err(RuntimeErrorV::OutOfRange)
        },
        BinaryOp::Shr => if 0 <= b < 64 {
            checked(a as int / pow(2, b as nat))
        } else {
            Err(RuntimeErrorV::OutOfRange)
        },
        BinaryOp::Lt => Ok(ValueV::Bool(a < b)),
        BinaryOp::Le => Ok(ValueV::Bool(a <= b)),
        BinaryOp::Gt => Ok(ValueV::Bool(a > b)),
        BinaryOp::Ge => Ok(ValueV::Bool(a >= b)),
        BinaryOp::BitAnd => Ok(ValueV::Number(a & b)),
        BinaryOp::BitXor => Ok(ValueV::Number(a ^ b)),
        BinaryOp::BitOr => Ok(ValueV::Number(a | b)),
        _ => Ok(ValueV::Null),
    }
}

/// What an infix operator makes of two values. `+` joins a string with the
/// text of the right operand; equality takes any values; `&&` and `||` take
/// both operands as conditions; the others take numbers.
pub open spec fn binary_spec(op: BinaryOp, a: ValueV, b: ValueV) -> Result<ValueV, RuntimeErrorV> {
    match op {
        BinaryOp::Eq => Ok(ValueV::Bool(equal_values(a, b))),
        BinaryOp::Ne => Ok(ValueV::Bool(!equal_values(a, b))),
        BinaryOp::And => Ok(ValueV::Bool(truthy(a) && truthy(b))),
        BinaryOp::Or => Ok(ValueV::Bool(truthy(a) || truthy(b))),
        BinaryOp::Add => match a {
            ValueV::String(s) => match string_of(b) {
                Ok(t) => Ok(ValueV::String(s + t)),
                Err(e) => Err(e),
            },
            ValueV::Number(x) => match number_of(b) {
                Ok(y) => checked(x + y),
                Err(e) => Err(e),
            },
            _ => Err(RuntimeErrorV::CannotAdd(kind_of(a), kind_of(b))),
        },
        _ => match number_of(a) {
            Err(e) => Err(e),
            Ok(x) => match number_of(b) {
                Err(e) => Err(e),
                Ok(y) => numeric_spec(op, x, y),
            },
        },
    }
}

/// Multiplying by a base of magnitude two or more at least doubles the magnitude at each step.
pub proof fn lemma_power_grows(x: int, base: int, k: nat, n: nat)
    requires
        x != 0,
        base >= 2 || base <= -2,
        k <= n,
    ensures
        abs(x * pow(base, k)) <= abs(x * pow(base, n)),
        abs(x * pow(base, k)) >= 1,
        k < n ==> 2 * abs(x * pow(base, k)) <= abs(x * pow(base, n)),
    decreases n - k,
{
    reveal(pow);
    lemma_power_nonzero(base, k);
    assert(abs(x * pow(base, k)) >= 1) by (nonlinear_arith)
        requires
            x != 0,
            pow(base, k) != 0,
    ;
    if k < n {
        lemma_power_grows(x, base, (k + 1) as nat, n);
        let p = pow(base, k);
        assert(pow(base, (k + 1) as nat) == base * p);
        assert(2 * abs(x * p) <= abs(x * (base * p))) by (nonlinear_arith)
            requires
                base >= 2 || base <= -2,
        ;
    }
}

/// A power of a number other than zero is not zero.
pub proof fn lemma_power_nonzero(base: int, k: nat)
    requires
        base != 0,
    ensures
        pow(base, k) != 0,
    decreases k,
{
    reveal(pow);
    if k > 0 {
        lemma_power_nonzero(base, (k - 1) as nat);
        let p = pow(base, (k - 1) as nat);
        assert(base * p != 0) by (nonlinear_arith)
            requires
                base != 0,
                p != 0,
        ;
    }
}

/// The magnitude of a number.
pub open spec fn abs(n: int) -> int {
    if n < 0 {
        -n
    } else {
        n
    }
}

/// `x * base^n`, or `None` where that is not a 64-bit integer.
pub fn times_power(x: i64, base: i64, n: u64) -> (r: Option<i64>)
    ensures
        match r {
            Some(v) => v == x * pow(base as int, n as nat),
            None => !(i64::MIN <= x * pow(base as int, n as nat) <= i64::MAX),
        },
{
    reveal(pow);
    if n == 0 {
        assert(x * pow(base as int, 0) == x) by (nonlinear_arith)
            requires
                pow(base as int, 0) == 1,
        ;
        return Some(x);
    }
    if x == 0 {
        assert(x * pow(base as int, n as nat) == 0) by (nonlinear_arith)
            requires
                x == 0,
        ;
        return Some(0);
    }
    if base == 0 {
        assert(pow(0, n as nat) == 0 * pow(0, (n - 1) as nat));
        assert(x * pow(base as int, n as nat) == 0) by (nonlinear_arith)
            requires
                pow(base as int, n as nat) == 0,
        ;
        return Some(0);
    }
    if base == 1 {
        proof {
            lemma_power_one(n as nat);
        }
        assert(x * pow(1, n as nat) == x) by (nonlinear_arith)
            requires
                pow(1, n as nat) == 1,
        ;
        return Some(x);
    }
    if base == -1 {
        proof {
            lemma_power_minus_one(n as nat);
        }
        if n % 2 == 0 {
            assert(x * pow(-1, n as nat) == x) by (nonlinear_arith)
                requires
                    pow(-1, n as nat) == 1,
            ;
            return Some(x);
        } else {
            assert(x * pow(-1, n as nat) == -x) by (nonlinear_arith)
                requires
                    pow(-1, n as nat) == -1,
            ;
            return 0i64.checked_sub(x);
        }
    }
    let mut acc: i64 = x;
    let mut k: u64 = 0;
    assert(x * pow(base as int, 0) == x) by (nonlinear_arith)
        requires
            pow(base as int, 0) == 1,
    ;
    while k < n
        invariant
            k <= n,
            x != 0,
            base >= 2 || base <= -2,
            acc == x * pow(base as int, k as nat),
        decreases n - k,
    {
        reveal(pow);
        match acc.checked_mul(base) {
            Some(next) => {
                proof {
                    let p = pow(base as int, k as nat);
                    assert(pow(base as int, (k + 1) as nat) == base * p);
                    assert((x * p) * base == x * (base * p)) by (nonlinear_arith);
                }
                acc = next;
                k += 1;
            },
            None => {
                proof {
                    let p = pow(base as int, k as nat);
                    assert(pow(base as int, (k + 1) as nat) == base * p);
                    assert((x * p) * base == x * (base * p)) by (nonlinear_arith);
                    lemma_power_grows(x as int, base as int, (k + 1) as nat, n as nat);
                }
                return None;
            },
        }
    }
    Some(acc)
}

/// Every power of one is one.
pub proof fn lemma_power_one(n: nat)
    ensures
        pow(1, n) == 1,
    decreases n,
{
    reveal(pow);
    if n > 0 {
        lemma_power_one((n - 1) as nat);
    }
}

/// A power of minus one is one or minus one, as the exponent is even or odd.
pub proof fn lemma_power_minus_one(n: nat)
    ensures
        pow(-1, n) == if n % 2 == 0 {
            1int
        } else {
            -1int
        },
    decreases n,
{
    reveal(pow);
    if n > 0 {
        lemma_power_minus_one((n - 1) as nat);
    }
}

fn number(r: Option<i64>) -> (out: Result<Value, RuntimeError>)
    ensures
        match r {
            Some(v) => out matches Ok(x) && x.model() == ValueV::Number(v),
            None => out matches Err(e) && e@ == RuntimeErrorV::OutOfRange,
        },
{
    match r {
        Some(v) => Ok(Value::Number(v)),
        None => Err(RuntimeError::OutOfRange),
    }
}

/// What `r` holds is what `want` states.
pub open spec fn value_result(r: Result<Value, RuntimeError>, want: Result<ValueV, RuntimeErrorV>) -> bool {
    match want {
        Ok(v) => r matches Ok(x) && x.model() == v,
        Err(e) => r matches Err(x) && x@ == e,
    }
}

impl UnaryOp {
    /// Applies the operator.
    pub fn eval(&self, value: Value) -> (r: Result<Value, RuntimeError>)
        ensures
            value_result(r, unary_spec(*self, value.model())),
    {
        match self {
            UnaryOp::Not => Ok(Value::Bool(!value.as_bool())),
            UnaryOp::Pos => match value.as_number() {
                Ok(n) => Ok(Value::Number(n)),
                Err(e) => Err(e),
            },
            UnaryOp::Neg => match value.as_number() {
                Ok(n) => number(0i64.checked_sub(n)),
                Err(e) => Err(e),
            },
        }
    }
}

fn values_equal(a: &Value, b: &Value) -> (r: bool)
    ensures
        r == equal_values(a.model(), b.model()),
{
    match (a.deref(), b.deref()) {
        (Value::Null, Value::Null) => true,
        (Value::Bool(x), Value::Bool(y)) => *x == *y,
        (Value::Number(x), Value::Number(y)) => *x == *y,
        (Value::String(x), Value::String(y)) => bytes_eq(x.as_slice(), y.as_slice()),
        (Value::Array(x, _), Value::Array(y, _)) => *x == *y,
        (Value::Object(x, _), Value::Object(y, _)) => *x == *y,
        (Value::Closure(x, _, _), Value::Closure(y, _, _)) => *x == *y,
        _ => false,
    }
}

fn numeric(op: BinaryOp, a: i64, b: i64) -> (r: Result<Value, RuntimeError>)
    ensures
        value_result(r, numeric_spec(op, a, b)),
{
    match op {
        BinaryOp::Pow => {
            if b < 0 {
                Err(RuntimeError::OutOfRange)
            } else {
                number(times_power(1, a, b as u64))
            }
        },
        BinaryOp::Mul => number(a.checked_mul(b)),
        BinaryOp::Div => {
            if b == 0 {
                Err(RuntimeError::DivideByZero)
            } else {
                number(a.checked_div(b))
            }
        },
        BinaryOp::Mod => {
            if b == 0 {
                Err(RuntimeError::DivideByZero)
            } else if b == -1 {
                Ok(Value::Number(0))
            } else {
                number(a.checked_rem(b))
            }
        },
        BinaryOp::Add => number(a.checked_add(b)),
        BinaryOp::Sub => number(a.checked_sub(b)),
        BinaryOp::Shl => {
            if 0 <= b && b < 64 {
                number(times_power(a, 2, b as u64))
            } else {
                Err(RuntimeError::OutOfRange)
            }
        },
        BinaryOp::Shr => {
            if 0 <= b && b < 63 {
                match times_power(1, 2, b as u64) {
                    Some(d) => {
                        proof {
                            lemma_power_bound(b as nat);
                            lemma_floor_range(a as int, d as int);
                        }
                        number(a.checked_div_euclid(d))
                    },
                    None => {
                        proof {
                            lemma_power_bound(b as nat);
                        }
                        Err(RuntimeError::OutOfRange)
                    },
                }
            } else if b == 63 {
                proof {
                    lemma_power_bound(63);
                    let d = pow(2, 63);
                    if a < 0 {
                        vstd::arithmetic::div_mod::lemma_fundamental_div_mod_converse_div(
                            a as int,
                            d,
                            -1,
                            a + d,
                        );
                    } else {
                        vstd::arithmetic::div_mod::lemma_fundamental_div_mod_converse_div(
                            a as int,
                            d,
                            0,
                            a as int,
                        );
                    }
                }
                if a < 0 {
                    Ok(Value::Number(-1))
                } else {
                    Ok(Value::Number(0))
                }
            } else {
                Err(RuntimeError::OutOfRange)
            }
        },
        BinaryOp::Lt => Ok(Value::Bool(a < b)),
        BinaryOp::Le => Ok(Value::Bool(a <= b)),
        BinaryOp::Gt => Ok(Value::Bool(a > b)),
        BinaryOp::Ge => Ok(Value::Bool(a >= b)),
        BinaryOp::BitAnd => Ok(Value::Number(a & b)),
        BinaryOp::BitXor => Ok(Value::Number(a ^ b)),
        BinaryOp::BitOr => Ok(Value::Number(a | b)),
        _ => Ok(Value::Null),
    }
}

/// Dividing by a positive number brings a number no further from zero.
pub proof fn lemma_floor_range(a: int, d: int)
    requires
        d >= 1,
    ensures
        a >= 0 ==> 0 <= a / d <= a,
        a < 0 ==> a <= a / d < 0,
{
    vstd::arithmetic::div_mod::lemma_fundamental_div_mod(a, d);
    vstd::arithmetic::div_mod::lemma_mod_bound(a, d);
    let q = a / d;
    let r = a % d;
    assert(a >= 0 ==> 0 <= q <= a) by (nonlinear_arith)
        requires
            a == d * q + r,
            0 <= r < d,
            d >= 1,
    ;
    assert(a < 0 ==> a <= q < 0) by (nonlinear_arith)
        requires
            a == d * q + r,
            0 <= r < d,
            d >= 1,
    ;
}

/// The powers of two up to the sixty-third.
pub proof fn lemma_power_bound(n: nat)
    requires
        n <= 63,
    ensures
        pow(2, n) <= 0x8000_0000_0000_0000,
        n <= 62 ==> pow(2, n) <= 0x4000_0000_0000_0000,
        pow(2, n) >= 1,
        n == 63 ==> pow(2, n) == 0x8000_0000_0000_0000,
{
    vstd::arithmetic::power2::lemma2_to64();
    vstd::arithmetic::power2::lemma2_to64_rest();
    vstd::arithmetic::power2::lemma_pow2(n);
    vstd::arithmetic::power2::lemma_pow2(62);
    vstd::arithmetic::power2::lemma_pow2(63);
    vstd::arithmetic::power2::lemma_pow2_pos(n);
    if n < 62 {
        vstd::arithmetic::power2::lemma_pow2_strictly_increases(n, 62);
    }
}

impl BinaryOp {
    /// Applies the operator to two values.
    pub fn eval(&self, lhs: Value, rhs: Value) -> (r: Result<Value, RuntimeError>)
        ensures
            value_result(r, binary_spec(*self, lhs.model(), rhs.model())),
    {
        match self {
            BinaryOp::Eq => Ok(Value::Bool(values_equal(&lhs, &rhs))),
            BinaryOp::Ne => Ok(Value::Bool(!values_equal(&lhs, &rhs))),
            BinaryOp::And => {
                let a = lhs.as_bool();
                let b = rhs.as_bool();
                Ok(Value::Bool(a && b))
            },
            BinaryOp::Or => {
                let a = lhs.as_bool();
                let b = rhs.as_bool();
                Ok(Value::Bool(a || b))
            },
            BinaryOp::Add => match lhs.deref() {
                Value::String(s) => match rhs.as_string() {
                    Ok(t) => {
                        let mut out = copy_bytes(s.as_slice());
                        append(&mut out, t.as_slice());
                        Ok(Value::String(out))
                    },
                    Err(e) => Err(e),
                },
                Value::Number(x) => match rhs.as_number() {
                    Ok(y) => number(x.checked_add(y)),
                    Err(e) => Err(e),
                },
                _ => Err(RuntimeError::CannotAdd(lhs.kind(), rhs.kind())),
            },
            _ => match lhs.as_number() {
                Err(e) => Err(e),
                Ok(x) => match rhs.as_number() {
                    Err(e) => Err(e),
                    Ok(y) => numeric(*self, x, y),
                },
            },
        }
    }
}

} // verus!
