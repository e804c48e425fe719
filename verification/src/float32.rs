use vstd::prelude::*;

use rustc_apfloat::Float;
use rustc_apfloat::ieee::Single;

verus! {

/// How two single-precision values compare under IEEE 754: a NaN operand
/// makes the pair unordered, and positive and negative zero are equal.
#[derive(Clone, Copy, Debug, PartialEq, Eq, Structural)]
pub enum FloatOrder {
    Less,
    Equal,
    Greater,
    Unordered,
}

/// The IEEE 754 single-precision sum of two values, rounded to nearest with
/// ties to even; operands and result as bit patterns.
pub uninterp spec fn float_add_of(a: u32, b: u32) -> u32;

/// The IEEE 754 single-precision difference, rounded to nearest with ties to
/// even; operands and result as bit patterns.
pub uninterp spec fn float_sub_of(a: u32, b: u32) -> u32;

/// The IEEE 754 single-precision product, rounded to nearest with ties to
/// even; operands and result as bit patterns.
pub uninterp spec fn float_mul_of(a: u32, b: u32) -> u32;

/// The IEEE 754 single-precision quotient, rounded to nearest with ties to
/// even; operands and result as bit patterns.
pub uninterp spec fn float_div_of(a: u32, b: u32) -> u32;

/// The IEEE 754 comparison of two single-precision values given as bit
/// patterns.
pub uninterp spec fn float_cmp_of(a: u32, b: u32) -> FloatOrder;

/// Relies on rustc_apfloat's `Single` addition (`Float::add_r`, rounding to
/// nearest, ties to even): a software implementation, so the result is a
/// function of the operand bit patterns alone.
#[verifier::external_body]
pub(crate) fn float_add(a: u32, b: u32) -> (r: u32)
    ensures
        r == float_add_of(a, b),
{
    let sum = Single::from_bits(a as u128) + Single::from_bits(b as u128);
    sum.value.to_bits() as u32
}

/// Relies on rustc_apfloat's `Single` subtraction (`Float::sub_r`, rounding
/// to nearest, ties to even): a software implementation, so the result is a
/// function of the operand bit patterns alone.
#[verifier::external_body]
pub(crate) fn float_sub(a: u32, b: u32) -> (r: u32)
    ensures
        r == float_sub_of(a, b),
{
    let diff = Single::from_bits(a as u128) - Single::from_bits(b as u128);
    diff.value.to_bits() as u32
}

/// Relies on rustc_apfloat's `Single` multiplication (`Float::mul_r`,
/// rounding to nearest, ties to even): a software implementation, so the
/// result is a function of the operand bit patterns alone.
#[verifier::external_body]
pub(crate) fn float_mul(a: u32, b: u32) -> (r: u32)
    ensures
        r == float_mul_of(a, b),
{
    let prod = Single::from_bits(a as u128) * Single::from_bits(b as u128);
    prod.value.to_bits() as u32
}

/// Relies on rustc_apfloat's `Single` division (`Float::div_r`, rounding to
/// nearest, ties to even): a software implementation, so the result is a
/// function of the operand bit patterns alone; division by zero gives an
/// infinity or a NaN, never an abort.
#[verifier::external_body]
pub(crate) fn float_div(a: u32, b: u32) -> (r: u32)
    ensures
        r == float_div_of(a, b),
{
    let quot = Single::from_bits(a as u128) / Single::from_bits(b as u128);
    quot.value.to_bits() as u32
}

/// Relies on rustc_apfloat's `Single::partial_cmp`, which orders by the IEEE
/// 754 comparison predicate: `None` exactly when an operand is NaN, and the
/// two zeros equal. Equality, `<`, and the other relations all come from this
/// one ordering, as they do in the crate itself.
#[verifier::external_body]
pub(crate) fn float_cmp(a: u32, b: u32) -> (r: FloatOrder)
    ensures
        r == float_cmp_of(a, b),
{
    let x = Single::from_bits(a as u128);
    let y = Single::from_bits(b as u128);
    match x.partial_cmp(&y) {
        Some(core::cmp::Ordering::Less) => FloatOrder::Less,
        Some(core::cmp::Ordering::Equal) => FloatOrder::Equal,
        Some(core::cmp::Ordering::Greater) => FloatOrder::Greater,
        None => FloatOrder::Unordered,
    }
}

/// The IEEE 754 negation of a single-precision value: the sign bit flips and
/// every other bit stays. This is exact, so it needs no outside help.
pub fn float_neg(a: u32) -> (r: u32)
    ensures
        r == float_neg_spec(a),
{
    a ^ 0x8000_0000u32
}

pub open spec fn float_neg_spec(a: u32) -> u32 {
    a ^ 0x8000_0000u32
}

} // verus!
