//! Runtime values and the value algebra: what each operator symbol means
//! on integers, floats, and booleans, and which applications are fatal.

use vstd::prelude::*;
use crate::float::{
    FloatBits,
    float_add_bits,
    float_sub_bits,
    float_mul_bits,
    float_div_bits,
    float_pow_bits,
    float_eq_bits,
    float_lt_bits,
    float_gt_bits,
    float_add,
    float_sub,
    float_mul,
    float_div,
    float_pow,
    float_eq,
    float_lt,
    float_gt,
};
use crate::parsing::token::Operator;

verus! {

/// A runtime value.  Floats are carried as their bit patterns; `Unit` is
/// the value of a declared but unassigned variable.
#[derive(Clone, Copy, PartialEq, Eq, Structural, Debug)]
pub enum Value {
    IntegerValue(i32),
    FloatValue(FloatBits),
    BooleanValue(bool),
    Unit,
}

/// A fatal runtime failure.  `OutOfFuel` reports that evaluation exceeded
/// the caller's step bound rather than a fault of the program itself.
#[derive(Debug, PartialEq)]
pub enum RuntimeError {
    DivisionByZero,
    NegativeExponent,
    InvalidOperands(Operator, Value, Value),
    ExpectedBoolean(Value),
    UnboundVariable(String),
    OutOfFuel,
}

/// Mathematical model of a runtime failure.
pub enum RuntimeErrorV {
    DivisionByZero,
    NegativeExponent,
    InvalidOperands(Operator, Value, Value),
    ExpectedBoolean(Value),
    UnboundVariable(Seq<char>),
    OutOfFuel,
}

impl View for RuntimeError {
    type V = RuntimeErrorV;

    open spec fn view(&self) -> RuntimeErrorV {
        match self {
            RuntimeError::DivisionByZero => RuntimeErrorV::DivisionByZero,
            RuntimeError::NegativeExponent => RuntimeErrorV::NegativeExponent,
            RuntimeError::InvalidOperands(op, l, r) => RuntimeErrorV::InvalidOperands(*op, *l, *r),
            RuntimeError::ExpectedBoolean(v) => RuntimeErrorV::ExpectedBoolean(*v),
            RuntimeError::UnboundVariable(s) => RuntimeErrorV::UnboundVariable(s@),
            RuntimeError::OutOfFuel => RuntimeErrorV::OutOfFuel,
        }
    }
}

impl Value {
    /// The boolean this value holds; only boolean values may ask.
    pub fn expect_bool(self) -> (r: bool)
        requires
            self is BooleanValue,
        ensures
            self == Value::BooleanValue(r),
    {
        match self {
            Value::BooleanValue(val) => val,
            _ => vstd::pervasive::unreached(),
        }
    }

    /// The integer this value holds; only integer values may ask.
    pub fn expect_int(self) -> (r: i32)
        requires
            self is IntegerValue,
        ensures
            self == Value::IntegerValue(r),
    {
        match self {
            Value::IntegerValue(val) => val,
            _ => vstd::pervasive::unreached(),
        }
    }

    /// The float bit pattern this value holds; only float values may ask.
    pub fn expect_float(self) -> (r: FloatBits)
        requires
            self is FloatValue,
        ensures
            self == Value::FloatValue(r),
    {
        match self {
            Value::FloatValue(val) => val,
            _ => vstd::pervasive::unreached(),
        }
    }
}

/// Integer exponentiation with two's-complement wrapping, the power taken
/// left to right.
pub open spec fn spec_pow_wrap(base: i32, exp: u32) -> i32
    decreases exp,
{
    if exp == 0 {
        1
    } else {
        spec_pow_wrap(base, (exp - 1) as u32).wrapping_mul(base)
    }
}

/// Truncating division of two's-complement integers: division by zero is
/// excluded, and the one overflowing quotient wraps to itself.
pub open spec fn spec_div_wrap(a: i32, b: i32) -> i32
    recommends
        b != 0,
{
    if a == i32::MIN && b == -1 {
        i32::MIN
    } else {
        spec_div_trunc(a as int, b as int) as i32
    }
}

/// Truncating integer division: the quotient of the magnitudes, with the
/// sign of the exact quotient.
pub open spec fn spec_div_trunc(a: int, b: int) -> int {
    let m = abs(a) / abs(b);
    if (a < 0) != (b < 0) {
        -m
    } else {
        m
    }
}

/// The absolute value of an integer.
pub open spec fn abs(a: int) -> int {
    if a < 0 {
        -a
    } else {
        a
    }
}

/// What applying an operator to two runtime values yields: a value, or
/// the fatal failure the attempt raises.  Both operands must hold the
/// same variant; arithmetic rejects booleans and `Unit`, the logical
/// symbols reject floats and `Unit`, comparisons yield booleans, and the
/// power symbol is exclusive-or on booleans.
pub open spec fn spec_apply_operator(op: Operator, l: Value, r: Value) -> Result<
    Value,
    RuntimeErrorV,
> {
    match op {
        Operator::Add => match (l, r) {
            (Value::IntegerValue(a), Value::IntegerValue(b)) => Ok(
                Value::IntegerValue(a.wrapping_add(b)),
            ),
            (Value::FloatValue(a), Value::FloatValue(b)) => Ok(
                Value::FloatValue(float_add_bits(a, b)),
            ),
            _ => Err(RuntimeErrorV::InvalidOperands(op, l, r)),
        },
        Operator::Sub => match (l, r) {
            (Value::IntegerValue(a), Value::IntegerValue(b)) => Ok(
                Value::IntegerValue(a.wrapping_sub(b)),
            ),
            (Value::FloatValue(a), Value::FloatValue(b)) => Ok(
                Value::FloatValue(float_sub_bits(a, b)),
            ),
            _ => Err(RuntimeErrorV::InvalidOperands(op, l, r)),
        },
        Operator::Mul => match (l, r) {
            (Value::IntegerValue(a), Value::IntegerValue(b)) => Ok(
                Value::IntegerValue(a.wrapping_mul(b)),
            ),
            (Value::FloatValue(a), Value::FloatValue(b)) => Ok(
                Value::FloatValue(float_mul_bits(a, b)),
            ),
            _ => Err(RuntimeErrorV::InvalidOperands(op, l, r)),
        },
        Operator::Div => match (l, r) {
            (Value::IntegerValue(a), Value::IntegerValue(b)) => if b == 0 {
                Err(RuntimeErrorV::DivisionByZero)
            } else {
                Ok(Value::IntegerValue(spec_div_wrap(a, b)))
            },
            (Value::FloatValue(a), Value::FloatValue(b)) => Ok(
                Value::FloatValue(float_div_bits(a, b)),
            ),
            _ => Err(RuntimeErrorV::InvalidOperands(op, l, r)),
        },
        Operator::Pow => match (l, r) {
            (Value::IntegerValue(a), Value::IntegerValue(b)) => if b < 0 {
                Err(RuntimeErrorV::NegativeExponent)
            } else {
                Ok(Value::IntegerValue(spec_pow_wrap(a, b as u32)))
            },
            (Value::FloatValue(a), Value::FloatValue(b)) => Ok(
                Value::FloatValue(float_pow_bits(a, b)),
            ),
            (Value::BooleanValue(a), Value::BooleanValue(b)) => Ok(Value::BooleanValue(a != b)),
            _ => Err(RuntimeErrorV::InvalidOperands(op, l, r)),
        },
        Operator::And => match (l, r) {
            (Value::IntegerValue(a), Value::IntegerValue(b)) => Ok(Value::IntegerValue(a & b)),
            (Value::BooleanValue(a), Value::BooleanValue(b)) => Ok(Value::BooleanValue(a && b)),
            _ => Err(RuntimeErrorV::InvalidOperands(op, l, r)),
        },
        Operator::Or => match (l, r) {
            (Value::IntegerValue(a), Value::IntegerValue(b)) => Ok(Value::IntegerValue(a | b)),
            (Value::BooleanValue(a), Value::BooleanValue(b)) => Ok(Value::BooleanValue(a || b)),
            _ => Err(RuntimeErrorV::InvalidOperands(op, l, r)),
        },
        Operator::Eq => match (l, r) {
            (Value::IntegerValue(a), Value::IntegerValue(b)) => Ok(Value::BooleanValue(a == b)),
            (Value::FloatValue(a), Value::FloatValue(b)) => Ok(
                Value::BooleanValue(float_eq_bits(a, b)),
            ),
            (Value::BooleanValue(a), Value::BooleanValue(b)) => Ok(Value::BooleanValue(a == b)),
            _ => Err(RuntimeErrorV::InvalidOperands(op, l, r)),
        },
        Operator::Gt => match (l, r) {
            (Value::IntegerValue(a), Value::IntegerValue(b)) => Ok(Value::BooleanValue(a > b)),
            (Value::FloatValue(a), Value::FloatValue(b)) => Ok(
                Value::BooleanValue(float_gt_bits(a, b)),
            ),
            (Value::BooleanValue(a), Value::BooleanValue(b)) => Ok(Value::BooleanValue(a && !b)),
            _ => Err(RuntimeErrorV::InvalidOperands(op, l, r)),
        },
        Operator::Lt => match (l, r) {
            (Value::IntegerValue(a), Value::IntegerValue(b)) => Ok(Value::BooleanValue(a < b)),
            (Value::FloatValue(a), Value::FloatValue(b)) => Ok(
                Value::BooleanValue(float_lt_bits(a, b)),
            ),
            (Value::BooleanValue(a), Value::BooleanValue(b)) => Ok(Value::BooleanValue(!a && b)),
            _ => Err(RuntimeErrorV::InvalidOperands(op, l, r)),
        },
    }
}

/// Integer exponentiation with two's-complement wrapping.
fn pow_wrap(base: i32, exp: u32) -> (r: i32)
    ensures
        r == spec_pow_wrap(base, exp),
{
    let mut acc: i32 = 1;
    let mut i: u32 = 0;
    while i < exp
        invariant
            0 <= i <= exp,
            acc == spec_pow_wrap(base, i),
        decreases exp - i,
    {
        acc = acc.wrapping_mul(base);
        i += 1;
    }
    acc
}

/// Truncating division of two's-complement integers with the overflowing
/// quotient wrapped.
fn div_wrap(a: i32, b: i32) -> (r: i32)
    requires
        b != 0,
    ensures
        r == spec_div_wrap(a, b),
{
    if a == i32::MIN && b == -1 {
        return i32::MIN;
    }
    let wa: i64 = a as i64;
    let wb: i64 = b as i64;
    let ma: u32 = if wa < 0 {
        (-wa) as u32
    } else {
        wa as u32
    };
    let mb: u32 = if wb < 0 {
        (-wb) as u32
    } else {
        wb as u32
    };
    let m: u32 = ma / mb;
    assert(ma == abs(a as int) && mb == abs(b as int));
    assert(m == abs(a as int) / abs(b as int));
    if (a < 0) != (b < 0) {
        assert(0 <= m <= abs(a as int) <= 0x8000_0000) by {
            vstd::arithmetic::div_mod::lemma_div_is_ordered_by_denominator(
                abs(a as int),
                1,
                abs(b as int),
            );
        }
        let r: i32 = (-(m as i64)) as i32;
        assert(r == -(m as int));
        r
    } else {
        assert(0 <= m < 0x8000_0000) by {
            vstd::arithmetic::div_mod::lemma_div_is_ordered_by_denominator(
                abs(a as int),
                1,
                abs(b as int),
            );
            if a == i32::MIN {
                assert(b != -1 && b != 0 && abs(b as int) >= 2);
                vstd::arithmetic::div_mod::lemma_div_is_ordered_by_denominator(
                    abs(a as int),
                    2,
                    abs(b as int),
                );
                assert(abs(a as int) / 2 == 0x4000_0000);
            }
        }
        m as i32
    }
}

/// Applies an operator to two runtime values, exactly as the value
/// algebra prescribes.
pub fn apply_operator(op: Operator, l: Value, r: Value) -> (res: Result<Value, RuntimeError>)
    ensures
        match res {
            Ok(v) => spec_apply_operator(op, l, r) == Result::<Value, RuntimeErrorV>::Ok(v),
            Err(e) => spec_apply_operator(op, l, r) == Result::<Value, RuntimeErrorV>::Err(e@),
        },
{
    match op {
        Operator::Add => match (l, r) {
            (Value::IntegerValue(a), Value::IntegerValue(b)) => Ok(
                Value::IntegerValue(a.wrapping_add(b)),
            ),
            (Value::FloatValue(a), Value::FloatValue(b)) => Ok(Value::FloatValue(float_add(a, b))),
            _ => Err(RuntimeError::InvalidOperands(op, l, r)),
        },
        Operator::Sub => match (l, r) {
            (Value::IntegerValue(a), Value::IntegerValue(b)) => Ok(
                Value::IntegerValue(a.wrapping_sub(b)),
            ),
            (Value::FloatValue(a), Value::FloatValue(b)) => Ok(Value::FloatValue(float_sub(a, b))),
            _ => Err(RuntimeError::InvalidOperands(op, l, r)),
        },
        Operator::Mul => match (l, r) {
            (Value::IntegerValue(a), Value::IntegerValue(b)) => Ok(
                Value::IntegerValue(a.wrapping_mul(b)),
            ),
            (Value::FloatValue(a), Value::FloatValue(b)) => Ok(Value::FloatValue(float_mul(a, b))),
            _ => Err(RuntimeError::InvalidOperands(op, l, r)),
        },
        Operator::Div => match (l, r) {
            (Value::IntegerValue(a), Value::IntegerValue(b)) => if b == 0 {
                Err(RuntimeError::DivisionByZero)
            } else {
                Ok(Value::IntegerValue(div_wrap(a, b)))
            },
            (Value::FloatValue(a), Value::FloatValue(b)) => Ok(Value::FloatValue(float_div(a, b))),
            _ => Err(RuntimeError::InvalidOperands(op, l, r)),
        },
        Operator::Pow => match (l, r) {
            (Value::IntegerValue(a), Value::IntegerValue(b)) => if b < 0 {
                Err(RuntimeError::NegativeExponent)
            } else {
                Ok(Value::IntegerValue(pow_wrap(a, b as u32)))
            },
            (Value::FloatValue(a), Value::FloatValue(b)) => Ok(Value::FloatValue(float_pow(a, b))),
            (Value::BooleanValue(a), Value::BooleanValue(b)) => Ok(Value::BooleanValue(a != b)),
            _ => Err(RuntimeError::InvalidOperands(op, l, r)),
        },
        Operator::And => match (l, r) {
            (Value::IntegerValue(a), Value::IntegerValue(b)) => Ok(Value::IntegerValue(a & b)),
            (Value::BooleanValue(a), Value::BooleanValue(b)) => Ok(Value::BooleanValue(a && b)),
            _ => Err(RuntimeError::InvalidOperands(op, l, r)),
        },
        Operator::Or => match (l, r) {
            (Value::IntegerValue(a), Value::IntegerValue(b)) => Ok(Value::IntegerValue(a | b)),
            (Value::BooleanValue(a), Value::BooleanValue(b)) => Ok(Value::BooleanValue(a || b)),
            _ => Err(RuntimeError::InvalidOperands(op, l, r)),
        },
        Operator::Eq => match (l, r) {
            (Value::IntegerValue(a), Value::IntegerValue(b)) => Ok(Value::BooleanValue(a == b)),
            (Value::FloatValue(a), Value::FloatValue(b)) => Ok(Value::BooleanValue(float_eq(a, b))),
            (Value::BooleanValue(a), Value::BooleanValue(b)) => Ok(Value::BooleanValue(a == b)),
            _ => Err(RuntimeError::InvalidOperands(op, l, r)),
        },
        Operator::Gt => match (l, r) {
            (Value::IntegerValue(a), Value::IntegerValue(b)) => Ok(Value::BooleanValue(a > b)),
            (Value::FloatValue(a), Value::FloatValue(b)) => Ok(Value::BooleanValue(float_gt(a, b))),
            (Value::BooleanValue(a), Value::BooleanValue(b)) => Ok(Value::BooleanValue(a && !b)),
            _ => Err(RuntimeError::InvalidOperands(op, l, r)),
        },
        Operator::Lt => match (l, r) {
            (Value::IntegerValue(a), Value::IntegerValue(b)) => Ok(Value::BooleanValue(a < b)),
            (Value::FloatValue(a), Value::FloatValue(b)) => Ok(Value::BooleanValue(float_lt(a, b))),
            (Value::BooleanValue(a), Value::BooleanValue(b)) => Ok(Value::BooleanValue(!a && b)),
            _ => Err(RuntimeError::InvalidOperands(op, l, r)),
        },
    }
}

} // verus!
