//! Runtime values of the bytecode machine.
use vstd::prelude::*;
use crate::interpreter::bytecode::instruction::{function_debug, JitCompiledFunction};
use crate::interpreter::error::{InterpreterError, InterpreterErrorKind, InterpreterResult};
use crate::interpreter::parse_as::{int_error_text, int_error_to_text, parse_i32, spec_parse_i32};
use crate::parser::ast::binary_expression::BinaryOp;
use crate::parser::token::literal::{Literal, LiteralView, NumericLiteral, NumericLiteralView};
use crate::text::{decimal, push_decimal, push_signed_decimal, push_str, signed_decimal, text_of};

verus! {

/// A value on the machine's stack or in a local. A `Float32` holds the
/// IEEE 754 binary32 bit pattern of its number.
#[derive(Clone, Copy, Debug)]
pub enum Value<'a> {
    Unit,
    Int32(i32),
    Float32(u32),
    JitCompiledFunctionRef(&'a JitCompiledFunction<'a>),
}

/// Two values of the same numeric type.
#[derive(Clone, Copy, Debug, PartialEq, Eq, Structural)]
pub enum NumericValuePair {
    Int32(i32, i32),
    Float32(u32, u32),
}

/// Work on 32-bit binary floating-point numbers, which this library hands
/// to its caller: reading a float literal, or combining two floats (given by
/// their bit patterns) with an arithmetic operator.
#[derive(Debug)]
pub enum FloatWork {
    Parse(String),
    Binary(BinaryOp, u32, u32),
}

/// The model of a `FloatWork`.
pub enum FloatWorkView {
    Parse(Seq<char>),
    Binary(BinaryOp, u32, u32),
}

impl View for FloatWork {
    type V = FloatWorkView;

    open spec fn view(&self) -> FloatWorkView {
        match self {
            FloatWork::Parse(s) => FloatWorkView::Parse(s@),
            FloatWork::Binary(op, a, b) => FloatWorkView::Binary(*op, *a, *b),
        }
    }
}

/// A value, or the floating-point work that yields it.
#[derive(Debug)]
pub enum Computed<'a> {
    Value(Value<'a>),
    Float(FloatWork),
}

/// The name of each value's type.
pub open spec fn value_type_name(v: Value) -> Seq<char> {
    match v {
        Value::Int32(_) => "i32"@,
        Value::Float32(_) => "f32"@,
        Value::JitCompiledFunctionRef(_) => "<compiled-bytecode>"@,
        Value::Unit => "unit"@,
    }
}

/// How a value is shown in error messages: as `{:?}` shows it, but for a
/// float, which is shown by its bit pattern.
pub open spec fn value_debug(v: Value) -> Seq<char> {
    match v {
        Value::Unit => "Unit"@,
        Value::Int32(n) => "Int32("@ + signed_decimal(n as int) + ")"@,
        Value::Float32(bits) => "Float32(bits "@ + decimal(bits as nat) + ")"@,
        Value::JitCompiledFunctionRef(f) => "JitCompiledFunctionRef("@ + function_debug(*f)
            + ")"@,
    }
}

/// The two values as a pair of the same numeric type, or the message of
/// the error.
pub open spec fn spec_numeric_pair(a: Value, b: Value) -> Result<NumericValuePair, Seq<char>> {
    match (a, b) {
        (Value::Int32(x), Value::Int32(y)) => Ok(NumericValuePair::Int32(x, y)),
        (Value::Float32(x), Value::Float32(y)) => Ok(NumericValuePair::Float32(x, y)),
        (Value::Int32(_), _) => Err(
            "type mismatch: \""@ + value_type_name(a) + "\" != \""@ + value_type_name(b) + "\""@,
        ),
        (Value::Float32(_), _) => Err(
            "type mismatch: \""@ + value_type_name(a) + "\" != \""@ + value_type_name(b) + "\""@,
        ),
        (Value::JitCompiledFunctionRef(_), _) => Err("non-numeric value: "@ + value_type_name(a)),
        (Value::Unit, _) => Err("unit value, expected numeric"@),
    }
}

/// The arithmetic operators that values support.
pub open spec fn is_arith_op(op: BinaryOp) -> bool {
    op == BinaryOp::Add || op == BinaryOp::Sub || op == BinaryOp::Mul || op == BinaryOp::Div
        || op == BinaryOp::Mod
}

/// The text put before the messages of each arithmetic operator.
pub open spec fn arith_prefix(op: BinaryOp) -> Seq<char> {
    match op {
        BinaryOp::Add => "add: "@,
        BinaryOp::Sub => "subtract: "@,
        BinaryOp::Mul => "multiply: "@,
        BinaryOp::Div => "divide: "@,
        _ => "modulo: "@,
    }
}

/// The exact integer result of an arithmetic operator; `None` for a
/// division or remainder that `i32` cannot give (by zero, or `MIN / -1`).
pub open spec fn spec_int_arith(op: BinaryOp, x: i32, y: i32) -> Option<int> {
    match op {
        BinaryOp::Add => Some(x + y),
        BinaryOp::Sub => Some(x - y),
        BinaryOp::Mul => Some(x * y),
        BinaryOp::Div => match x.checked_div(y) {
            Some(q) => Some(q as int),
            None => None,
        },
        _ => match x.checked_rem(y) {
            Some(q) => Some(q as int),
            None => None,
        },
    }
}

/// True when the operator on two `Int32` values goes out of the range of
/// `i32` (adding, subtracting or multiplying).
pub open spec fn arith_overflows(op: BinaryOp, a: Value, b: Value) -> bool {
    match (a, b) {
        (Value::Int32(x), Value::Int32(y)) => match spec_int_arith(op, x, y) {
            Some(z) => !(i32::MIN <= z <= i32::MAX),
            None => false,
        },
        _ => false,
    }
}

/// The message for a division or remainder that has no `i32` result.
pub open spec fn by_zero_message(op: BinaryOp, a: Value, b: Value) -> Seq<char> {
    (if op == BinaryOp::Div {
        "division by zero: "@
    } else {
        "modulo by zero: "@
    }) + value_debug(a) + " / "@ + value_debug(b)
}

/// What an arithmetic operator gives for two values: `r` is the result.
pub open spec fn arith_result(
    op: BinaryOp,
    a: Value,
    b: Value,
    r: InterpreterResult<Computed>,
) -> bool {
    match spec_numeric_pair(a, b) {
        Err(m) => r matches Err(e) && e@ == (InterpreterErrorKind::Value, arith_prefix(op) + m),
        Ok(NumericValuePair::Int32(x, y)) => match spec_int_arith(op, x, y) {
            Some(z) => r matches Ok(Computed::Value(Value::Int32(w))) && w == z,
            None => r matches Err(e) && e@ == (
                InterpreterErrorKind::Value,
                by_zero_message(op, a, b),
            ),
        },
        Ok(NumericValuePair::Float32(x, y)) => r matches Ok(
            Computed::Float(FloatWork::Binary(o, p, q)),
        ) && o == op && p == x && q == y,
    }
}

/// Arithmetic on two floats gives float work with the receiver as the left
/// operand and the argument as the right one.
pub proof fn lemma_arith_float_operand_order<'a>(
    op: BinaryOp,
    x: u32,
    y: u32,
    r: InterpreterResult<Computed<'a>>,
)
    requires
        arith_result(op, Value::Float32(x), Value::Float32(y), r),
    ensures
        r matches Ok(Computed::Float(FloatWork::Binary(o, p, q))) && o == op && p == x && q == y,
{
}

/// Sum, difference and product of two integers, the receiver on the left:
/// `x + y`, `x - y` and `x * y`.
pub proof fn lemma_arith_int_results<'a>(
    op: BinaryOp,
    x: i32,
    y: i32,
    r: InterpreterResult<Computed<'a>>,
)
    requires
        arith_result(op, Value::Int32(x), Value::Int32(y), r),
        op == BinaryOp::Add || op == BinaryOp::Sub || op == BinaryOp::Mul,
    ensures
        r matches Ok(Computed::Value(Value::Int32(w))) && w == (if op == BinaryOp::Add {
            x + y
        } else if op == BinaryOp::Sub {
            x - y
        } else {
            x * y
        }),
{
}

/// The value of a literal: an integral literal read as `i32`, or the work
/// of reading a float literal.
pub open spec fn literal_result(l: LiteralView, r: InterpreterResult<Computed>) -> bool {
    match l {
        LiteralView::Numeric(NumericLiteralView::Integral(t)) => match spec_parse_i32(t) {
            Ok(v) => r matches Ok(Computed::Value(Value::Int32(w))) && w == v,
            Err(k) => r matches Err(e) && e@ == (InterpreterErrorKind::Generic, int_error_text(k)),
        },
        LiteralView::Numeric(NumericLiteralView::Float(t)) => r matches Ok(
            Computed::Float(FloatWork::Parse(s)),
        ) && s@ == t,
    }
}

/// Appends how `v` is shown in error messages to `out`.
pub fn push_value_debug(out: &mut String, v: &Value)
    ensures
        final(out)@ == old(out)@ + value_debug(*v),
{
    match v {
        Value::Unit => push_str(out, "Unit"),
        Value::Int32(n) => {
            push_str(out, "Int32(");
            push_signed_decimal(out, *n);
            push_str(out, ")");
        },
        Value::Float32(bits) => {
            push_str(out, "Float32(bits ");
            push_decimal(out, *bits as u64);
            push_str(out, ")");
        },
        Value::JitCompiledFunctionRef(f) => {
            push_str(out, "JitCompiledFunctionRef(");
            f.push_debug(out);
            push_str(out, ")");
        },
    }
    assert(final(out)@ =~= old(out)@ + value_debug(*v));
}

impl<'a> Value<'a> {
    /// The value of a literal, or the float work that gives it.
    pub fn from_literal(literal: &Literal) -> (r: InterpreterResult<Computed<'a>>)
        ensures
            literal_result(literal@, r),
    {
        match literal {
            Literal::Numeric(NumericLiteral::Integral(text)) => match parse_i32(text.as_str()) {
                Ok(v) => Ok(Computed::Value(Value::Int32(v))),
                Err(k) => Err(InterpreterError::generic_err(int_error_to_text(k))),
            },
            Literal::Numeric(NumericLiteral::Float(text)) => Ok(
                Computed::Float(FloatWork::Parse(text.clone())),
            ),
        }
    }

    /// The name of the value's type.
    pub fn debug_type_name(&self) -> (s: String)
        ensures
            s@ == value_type_name(*self),
    {
        match self {
            Value::Int32(_) => text_of("i32"),
            Value::Float32(_) => text_of("f32"),
            Value::JitCompiledFunctionRef(_) => text_of("<compiled-bytecode>"),
            Value::Unit => text_of("unit"),
        }
    }

    /// The two values as a numeric pair of one type.
    pub fn to_numeric_pair(&self, other: &Self) -> (r: InterpreterResult<NumericValuePair>)
        ensures
            match spec_numeric_pair(*self, *other) {
                Ok(p) => r matches Ok(q) && q == p,
                Err(m) => r matches Err(e) && e@ == (InterpreterErrorKind::Value, m),
            },
    {
        match (self, other) {
            (Value::Int32(a), Value::Int32(b)) => Ok(NumericValuePair::Int32(*a, *b)),
            (Value::Float32(a), Value::Float32(b)) => Ok(NumericValuePair::Float32(*a, *b)),
            (Value::Int32(_), _) | (Value::Float32(_), _) => {
                let mut m = text_of("type mismatch: \"");
                push_str(&mut m, self.debug_type_name().as_str());
                push_str(&mut m, "\" != \"");
                push_str(&mut m, other.debug_type_name().as_str());
                push_str(&mut m, "\"");
                assert(m@ =~= "type mismatch: \""@ + value_type_name(*self) + "\" != \""@ + value_type_name(
                    *other,
                ) + "\""@);
                Err(InterpreterError::value_err(m))
            },
            (Value::JitCompiledFunctionRef(_), _) => {
                let mut m = text_of("non-numeric value: ");
                push_str(&mut m, self.debug_type_name().as_str());
                Err(InterpreterError::value_err(m))
            },
            (Value::Unit, _) => Err(
                InterpreterError::value_err(text_of("unit value, expected numeric")),
            ),
        }
    }

    fn arith_prefix_text(op: BinaryOp) -> (s: String)
        requires
            is_arith_op(op),
        ensures
            s@ == arith_prefix(op),
    {
        match op {
            BinaryOp::Add => text_of("add: "),
            BinaryOp::Sub => text_of("subtract: "),
            BinaryOp::Mul => text_of("multiply: "),
            BinaryOp::Div => text_of("divide: "),
            _ => text_of("modulo: "),
        }
    }

    /// Whether the operator on the two values goes out of the range of `i32`.
    pub fn overflows(&self, op: BinaryOp, other: &Self) -> (b: bool)
        ensures
            b == arith_overflows(op, *self, *other),
    {
        match (self, other) {
            (Value::Int32(x), Value::Int32(y)) => {
                let wx = *x as i64;
                let wy = *y as i64;
                assert(-0x4000_0000_0000_0000 <= wx * wy <= 0x4000_0000_0000_0000)
                    by (nonlinear_arith)
                    requires
                        -0x8000_0000 <= wx <= 0x8000_0000,
                        -0x8000_0000 <= wy <= 0x8000_0000,
                ;
                let z: i64 = match op {
                    BinaryOp::Add => wx + wy,
                    BinaryOp::Sub => wx - wy,
                    BinaryOp::Mul => wx * wy,
                    _ => 0,
                };
                z < i32::MIN as i64 || z > i32::MAX as i64
            },
            _ => false,
        }
    }

    /// Applies an arithmetic operator to two values.
    pub fn arith(&self, op: BinaryOp, other: &Self) -> (r: InterpreterResult<Computed<'a>>)
        requires
            is_arith_op(op),
            !arith_overflows(op, *self, *other),
        ensures
            arith_result(op, *self, *other, r),
    {
        let pair = match self.to_numeric_pair(other) {
            Ok(p) => p,
            Err(e) => return Err(e.prefix(Self::arith_prefix_text(op))),
        };
        match pair {
            NumericValuePair::Int32(a, b) => {
                let result = match op {
                    BinaryOp::Add => Some(a + b),
                    BinaryOp::Sub => Some(a - b),
                    BinaryOp::Mul => Some(a * b),
                    BinaryOp::Div => a.checked_div(b),
                    _ => a.checked_rem(b),
                };
                match result {
                    Some(v) => Ok(Computed::Value(Value::Int32(v))),
                    None => {
                        let mut m = if op == BinaryOp::Div {
                            text_of("division by zero: ")
                        } else {
                            text_of("modulo by zero: ")
                        };
                        push_value_debug(&mut m, self);
                        push_str(&mut m, " / ");
                        push_value_debug(&mut m, other);
                        assert(m@ =~= by_zero_message(op, *self, *other));
                        Err(InterpreterError::value_err(m))
                    },
                }
            },
            NumericValuePair::Float32(a, b) => Ok(Computed::Float(FloatWork::Binary(op, a, b))),
        }
    }

    pub fn multiply(&self, other: &Self) -> (r: InterpreterResult<Computed<'a>>)
        requires
            !arith_overflows(BinaryOp::Mul, *self, *other),
        ensures
            arith_result(BinaryOp::Mul, *self, *other, r),
    {
        self.arith(BinaryOp::Mul, other)
    }

    pub fn add(&self, other: &Self) -> (r: InterpreterResult<Computed<'a>>)
        requires
            !arith_overflows(BinaryOp::Add, *self, *other),
        ensures
            arith_result(BinaryOp::Add, *self, *other, r),
    {
        self.arith(BinaryOp::Add, other)
    }

    pub fn subtract(&self, other: &Self) -> (r: InterpreterResult<Computed<'a>>)
        requires
            !arith_overflows(BinaryOp::Sub, *self, *other),
        ensures
            arith_result(BinaryOp::Sub, *self, *other, r),
    {
        self.arith(BinaryOp::Sub, other)
    }

    pub fn divide(&self, divisor: &Self) -> (r: InterpreterResult<Computed<'a>>)
        ensures
            arith_result(BinaryOp::Div, *self, *divisor, r),
    {
        self.arith(BinaryOp::Div, divisor)
    }

    pub fn modulo(&self, divisor: &Self) -> (r: InterpreterResult<Computed<'a>>)
        ensures
            arith_result(BinaryOp::Mod, *self, *divisor, r),
    {
        self.arith(BinaryOp::Mod, divisor)
    }

    /// Whether an `Int32` is nonzero; other values have no truth.
    pub fn is_truthy(&self) -> (r: InterpreterResult<bool>)
        ensures
            match *self {
                Value::Int32(v) => r == Ok::<bool, InterpreterError>(v != 0),
                _ => r matches Err(e) && e@ == (
                    InterpreterErrorKind::Value,
                    "unexpected value in truthy check: "@ + value_debug(*self),
                ),
            },
    {
        match self {
            Value::Int32(v) => Ok(*v != 0),
            _ => {
                let mut m = text_of("unexpected value in truthy check: ");
                push_value_debug(&mut m, self);
                Err(InterpreterError::value_err(m))
            },
        }
    }

    /// The compiled function that the value refers to.
    pub fn as_jit_function(&self) -> (r: InterpreterResult<&'a JitCompiledFunction<'a>>)
        ensures
            match *self {
                Value::JitCompiledFunctionRef(f) => r matches Ok(g) && g == f,
                _ => r matches Err(e) && e@ == (
                    InterpreterErrorKind::Value,
                    "expected value to be a JIT-compiled function: "@ + value_debug(*self),
                ),
            },
    {
        match self {
            Value::JitCompiledFunctionRef(f) => Ok(*f),
            _ => {
                let mut m = text_of("expected value to be a JIT-compiled function: ");
                push_value_debug(&mut m, self);
                Err(InterpreterError::value_err(m))
            },
        }
    }
}

} // verus!
