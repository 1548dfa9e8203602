//! Single-precision values carried as plain bit patterns.
//!
//! Verified code never looks inside a floating-point value: it carries the
//! 32-bit IEEE 754 pattern as a `u32` and hands every operation to the
//! trusted functions below.  Each result is named by an uninterpreted
//! spec function: all the operations are deterministic functions of the
//! operand bit patterns, so the names are well defined.
//!
//! A value is reconstructed from its pattern with `bytemuck::cast` (a
//! bit-for-bit conversion between same-sized plain types); a call to
//! `libm::copysignf` on the value and itself fixes the inferred type and
//! returns the value unchanged, since copying a value's own sign onto it
//! is the identity at the bit level.

use vstd::prelude::*;

verus! {

/// Bit pattern of an IEEE 754 single-precision value.
pub type FloatBits = u32;

/// The sum of two single-precision values, by bit pattern.
pub uninterp spec fn float_add_bits(a: FloatBits, b: FloatBits) -> FloatBits;

/// The difference of two single-precision values, by bit pattern.
pub uninterp spec fn float_sub_bits(a: FloatBits, b: FloatBits) -> FloatBits;

/// The product of two single-precision values, by bit pattern.
pub uninterp spec fn float_mul_bits(a: FloatBits, b: FloatBits) -> FloatBits;

/// The quotient of two single-precision values, by bit pattern.
pub uninterp spec fn float_div_bits(a: FloatBits, b: FloatBits) -> FloatBits;

/// The first value raised to the second, by bit pattern.
pub uninterp spec fn float_pow_bits(a: FloatBits, b: FloatBits) -> FloatBits;

/// Whether two single-precision values compare equal (IEEE 754 equality,
/// not bit equality: minus zero equals zero, a NaN equals nothing).
pub uninterp spec fn float_eq_bits(a: FloatBits, b: FloatBits) -> bool;

/// Whether the first value is strictly below the second.
pub uninterp spec fn float_lt_bits(a: FloatBits, b: FloatBits) -> bool;

/// Whether the first value is strictly above the second.
pub uninterp spec fn float_gt_bits(a: FloatBits, b: FloatBits) -> bool;

/// The single-precision value denoted by a decimal literal.
pub uninterp spec fn float_of_literal(s: Seq<char>) -> FloatBits;

/// The decimal rendering of a single-precision value.
pub uninterp spec fn float_text(a: FloatBits) -> Seq<char>;

/// The shape of lexemes accepted by `float_from_literal`: digits, then a
/// dot, then optionally more digits.
pub open spec fn is_float_literal(s: Seq<char>) -> bool {
    exists|k: int|
        1 <= k < s.len() && s[k] == '.' && (forall|j: int|
            0 <= j < s.len() && j != k ==> #[trigger] is_digit_char(s[j]))
}

/// Whether a character is a decimal digit.
pub open spec fn is_digit_char(c: char) -> bool {
    '0' <= c && c <= '9'
}

/// Relies on IEEE 754 single-precision addition, a deterministic function
/// of the operand bit patterns.
#[verifier::external_body]
pub fn float_add(a: FloatBits, b: FloatBits) -> (r: FloatBits)
    ensures
        r == float_add_bits(a, b),
{
    let x = libm::copysignf(bytemuck::cast(a), bytemuck::cast(a));
    let y = libm::copysignf(bytemuck::cast(b), bytemuck::cast(b));
    let r: u32 = bytemuck::cast(x + y);
    r
}

/// Relies on IEEE 754 single-precision subtraction, a deterministic
/// function of the operand bit patterns.
#[verifier::external_body]
pub fn float_sub(a: FloatBits, b: FloatBits) -> (r: FloatBits)
    ensures
        r == float_sub_bits(a, b),
{
    let x = libm::copysignf(bytemuck::cast(a), bytemuck::cast(a));
    let y = libm::copysignf(bytemuck::cast(b), bytemuck::cast(b));
    let r: u32 = bytemuck::cast(x - y);
    r
}

/// Relies on IEEE 754 single-precision multiplication, a deterministic
/// function of the operand bit patterns.
#[verifier::external_body]
pub fn float_mul(a: FloatBits, b: FloatBits) -> (r: FloatBits)
    ensures
        r == float_mul_bits(a, b),
{
    let x = libm::copysignf(bytemuck::cast(a), bytemuck::cast(a));
    let y = libm::copysignf(bytemuck::cast(b), bytemuck::cast(b));
    let r: u32 = bytemuck::cast(x * y);
    r
}

/// Relies on IEEE 754 single-precision division, a deterministic function
/// of the operand bit patterns (division by zero yields an infinity or a
/// NaN, never a fault).
#[verifier::external_body]
pub fn float_div(a: FloatBits, b: FloatBits) -> (r: FloatBits)
    ensures
        r == float_div_bits(a, b),
{
    let x = libm::copysignf(bytemuck::cast(a), bytemuck::cast(a));
    let y = libm::copysignf(bytemuck::cast(b), bytemuck::cast(b));
    let r: u32 = bytemuck::cast(x / y);
    r
}

/// Relies on libm::powf, a pure, deterministic implementation of the
/// single-precision power function.
#[verifier::external_body]
pub fn float_pow(a: FloatBits, b: FloatBits) -> (r: FloatBits)
    ensures
        r == float_pow_bits(a, b),
{
    let r: u32 = bytemuck::cast(libm::powf(bytemuck::cast(a), bytemuck::cast(b)));
    r
}

/// Relies on IEEE 754 single-precision comparison, a deterministic
/// function of the operand bit patterns.
#[verifier::external_body]
pub fn float_eq(a: FloatBits, b: FloatBits) -> (r: bool)
    ensures
        r == float_eq_bits(a, b),
{
    let x = libm::copysignf(bytemuck::cast(a), bytemuck::cast(a));
    let y = libm::copysignf(bytemuck::cast(b), bytemuck::cast(b));
    x == y
}

/// Relies on IEEE 754 single-precision comparison, a deterministic
/// function of the operand bit patterns.
#[verifier::external_body]
pub fn float_lt(a: FloatBits, b: FloatBits) -> (r: bool)
    ensures
        r == float_lt_bits(a, b),
{
    let x = libm::copysignf(bytemuck::cast(a), bytemuck::cast(a));
    let y = libm::copysignf(bytemuck::cast(b), bytemuck::cast(b));
    x < y
}

/// Relies on IEEE 754 single-precision comparison, a deterministic
/// function of the operand bit patterns.
#[verifier::external_body]
pub fn float_gt(a: FloatBits, b: FloatBits) -> (r: bool)
    ensures
        r == float_gt_bits(a, b),
{
    let x = libm::copysignf(bytemuck::cast(a), bytemuck::cast(a));
    let y = libm::copysignf(bytemuck::cast(b), bytemuck::cast(b));
    x > y
}

/// Relies on the standard library's correctly rounded decimal-to-float
/// conversion, a deterministic function of the literal text; on a lexeme
/// of the required shape the conversion cannot fail.
#[verifier::external_body]
pub fn float_from_literal(s: &str) -> (r: FloatBits)
    requires
        is_float_literal(s@),
    ensures
        r == float_of_literal(s@),
{
    let v = s.parse().unwrap();
    let r: u32 = bytemuck::cast(libm::copysignf(v, v));
    r
}

/// Relies on the standard library's default decimal rendering of a
/// single-precision value (the shortest text that reads back to the same
/// value), a deterministic function of the bit pattern.
#[verifier::external_body]
pub fn float_render(a: FloatBits) -> (r: String)
    ensures
        r@ == float_text(a),
{
    let v = libm::copysignf(bytemuck::cast(a), bytemuck::cast(a));
    format!("{}", v)
}

} // verus!
