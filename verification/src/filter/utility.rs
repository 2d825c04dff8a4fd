//! Tests on positions.

use crate::types::{Float, Position, FLOAT_EXPONENT};
use vstd::prelude::*;

verus! {

/// Whether the bits stand for a number: neither an infinity nor a NaN.
pub fn is_finite_float(bits: Float) -> (r: bool)
    ensures
        r == crate::types::float_is_finite(bits),
{
    bits & FLOAT_EXPONENT != FLOAT_EXPONENT
}

/// Whether all three coordinates are numbers.
pub fn is_finite(p: &Position) -> (r: bool)
    ensures
        r == p.finite(),
{
    is_finite_float(p.x) && is_finite_float(p.y) && is_finite_float(p.z)
}

} // verus!
