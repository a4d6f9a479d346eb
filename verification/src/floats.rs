//! Floats as bit patterns.
//!
//! A float is held as the 64 bits of its IEEE 754 double: the sign, eleven
//! bits of exponent, fifty-two bits of mantissa. Comparison is decided here on
//! the bits. Arithmetic and formatting are left to an implementation of
//! [`FloatOps`] that the host hands to the interpreter; nothing is assumed of
//! what it answers.

use crate::ir::IrBinaryOp;
use vstd::prelude::*;
use vstd::string::*;

verus! {

/// The bits of a double without its sign.
pub const MAGNITUDE: u64 = 0x7fff_ffff_ffff_ffff;

/// The bits of positive infinity: the largest magnitude that is a number.
pub const INFINITY: u64 = 0x7ff0_0000_0000_0000;

/// Arithmetic on floats, which this crate leaves to its host.
pub trait FloatOps {
    /// `lhs op rhs` for the operators `Add`, `Sub`, `Mul` and `Div`.
    fn arithmetic(&self, op: IrBinaryOp, lhs: u64, rhs: u64) -> u64;

    /// The shortest decimal numeral that reads back as the same float.
    fn format(&self, bits: u64) -> String;
}

/// The bits of the NaN that stands for a result that is no number.
pub const NAN: u64 = 0x7ff8_0000_0000_0000;

/// A host without float arithmetic, for evaluations that meet no float:
/// every sum, difference, product and quotient is the NaN of the bits
/// [`NAN`], and every float reads `NaN`.
#[derive(Clone, Copy, Debug)]
pub struct NoFloats;

impl FloatOps for NoFloats {
    fn arithmetic(&self, op: IrBinaryOp, lhs: u64, rhs: u64) -> (bits: u64)
        ensures
            bits == NAN,
    {
        NAN
    }

    fn format(&self, bits: u64) -> (text: String)
        ensures
            text@ == "NaN"@,
    {
        String::from_str("NaN")
    }
}

/// Whether the bits are those of a NaN.
pub open spec fn is_nan(bits: u64) -> bool {
    (bits & MAGNITUDE) > INFINITY
}

/// An integer that orders the floats that are numbers as they are ordered:
/// the magnitude, negative where the sign is set. Both zeros have the key 0.
pub open spec fn float_key(bits: u64) -> int {
    if bits & MAGNITUDE == bits {
        (bits & MAGNITUDE) as int
    } else {
        -((bits & MAGNITUDE) as int)
    }
}

/// What a comparison of two floats gives: false if one of them is a NaN,
/// else the comparison of the numbers.
pub open spec fn float_compare(op: IrBinaryOp, lhs: u64, rhs: u64) -> bool {
    !is_nan(lhs) && !is_nan(rhs) && match op {
        IrBinaryOp::Lt => float_key(lhs) < float_key(rhs),
        IrBinaryOp::Lte => float_key(lhs) <= float_key(rhs),
        IrBinaryOp::Eq => float_key(lhs) == float_key(rhs),
        IrBinaryOp::Gt => float_key(lhs) > float_key(rhs),
        IrBinaryOp::Gte => float_key(lhs) >= float_key(rhs),
        _ => false,
    }
}

/// The key of the bits of a float.
fn key(bits: u64) -> (k: i64)
    ensures
        k == float_key(bits),
{
    let magnitude = bits & MAGNITUDE;
    assert(bits & 0x7fff_ffff_ffff_ffff <= 0x7fff_ffff_ffff_ffff) by (bit_vector);
    if magnitude == bits {
        magnitude as i64
    } else {
        -(magnitude as i64)
    }
}

/// Compares two floats by the operators `Lt`, `Lte`, `Eq`, `Gt` and `Gte`.
/// A NaN compares false with everything, itself included.
pub fn compare(op: IrBinaryOp, lhs: u64, rhs: u64) -> (b: bool)
    ensures
        b == float_compare(op, lhs, rhs),
{
    if (lhs & MAGNITUDE) > INFINITY || (rhs & MAGNITUDE) > INFINITY {
        return false;
    }
    let a = key(lhs);
    let b = key(rhs);
    match op {
        IrBinaryOp::Lt => a < b,
        IrBinaryOp::Lte => a <= b,
        IrBinaryOp::Eq => a == b,
        IrBinaryOp::Gt => a > b,
        IrBinaryOp::Gte => a >= b,
        _ => false,
    }
}

} // verus!
