use vstd::prelude::*;

verus! {

/// The sign bit of an IEEE 754 binary64 bit pattern.
pub const SIGN_BIT: u64 = 0x8000_0000_0000_0000;

/// The bit pattern of positive infinity; any larger magnitude is a NaN.
pub const INFINITY_BITS: u64 = 0x7ff0_0000_0000_0000;

/// A sensor reading as it arrived on the wire: the bit pattern of the
/// binary64 value, which the rules compare, and its shortest decimal text,
/// which the relay payload carries verbatim.
#[derive(Debug, Clone)]
pub struct Reading {
    pub bits: u64,
    pub text: String,
}

/// The magnitude of a binary64 bit pattern (all bits but the sign).
pub open spec fn magnitude(bits: u64) -> int {
    if bits >= SIGN_BIT {
        bits - SIGN_BIT
    } else {
        bits as int
    }
}

pub open spec fn is_nan(bits: u64) -> bool {
    magnitude(bits) > INFINITY_BITS
}

/// For non-NaN patterns, an integer that orders as the binary64 values do:
/// the magnitude bits grow with the value, and both zeros map to zero.
pub open spec fn order_key(bits: u64) -> int {
    if bits >= SIGN_BIT {
        -magnitude(bits)
    } else {
        magnitude(bits)
    }
}

/// IEEE 754 `<` on two binary64 values given by their bit patterns.
pub open spec fn binary64_lt(a: u64, b: u64) -> bool {
    !is_nan(a) && !is_nan(b) && order_key(a) < order_key(b)
}

/// IEEE 754 `<` on two binary64 values given by their bit patterns.
pub fn less_than(a: u64, b: u64) -> (r: bool)
    ensures
        r == binary64_lt(a, b),
{
    let a_neg = a >= SIGN_BIT;
    let b_neg = b >= SIGN_BIT;
    let a_mag: u64 = if a_neg { a - SIGN_BIT } else { a };
    let b_mag: u64 = if b_neg { b - SIGN_BIT } else { b };
    if a_mag > INFINITY_BITS || b_mag > INFINITY_BITS {
        false
    } else if !a_neg && !b_neg {
        a_mag < b_mag
    } else if a_neg && !b_neg {
        a_mag != 0 || b_mag != 0
    } else if !a_neg && b_neg {
        false
    } else {
        b_mag < a_mag
    }
}

} // verus!
