use vstd::prelude::*;

verus! {

/// A real number carried as the bit pattern of an IEEE-754 binary64 value.
///
/// The library performs no arithmetic on these values: they are produced and
/// consumed by unverified numeric code outside the library and carried through
/// the verified state machine unchanged. The one thing the library reads out
/// of an encoding is its order relative to another one, through [`scalar_le`],
/// whose integer definition coincides with the IEEE-754 comparison of the
/// encoded values.
pub type Scalar = u64;

/// Sign bit of an IEEE-754 binary64 encoding.
pub const SIGN_MASK: u64 = 0x8000_0000_0000_0000;

/// Exponent field of an IEEE-754 binary64 encoding.
pub const EXPONENT_MASK: u64 = 0x7FF0_0000_0000_0000;

/// Fraction field of an IEEE-754 binary64 encoding.
pub const FRACTION_MASK: u64 = 0x000F_FFFF_FFFF_FFFF;

/// Whether the encoding holds a NaN: exponent all ones, fraction non-zero.
pub open spec fn is_nan_spec(a: Scalar) -> bool {
    a & EXPONENT_MASK == EXPONENT_MASK && a & FRACTION_MASK != 0
}

/// Whether the encoding holds a zero of either sign.
pub open spec fn is_zero_spec(a: Scalar) -> bool {
    a & (EXPONENT_MASK | FRACTION_MASK) == 0
}

/// A key under which unsigned integer order agrees with the numeric order of
/// the encoded values, NaNs aside: negative values (sign bit set) are mapped
/// by bitwise complement, so that larger magnitudes come first, and sit below
/// all non-negative values, which keep their order and are lifted above them.
pub open spec fn order_key_spec(a: Scalar) -> u64 {
    if a & SIGN_MASK != 0 {
        !a
    } else {
        a | SIGN_MASK
    }
}

/// Numeric `<=` of two encoded values: false whenever a NaN is involved, true
/// for any pair of zeros (the two zero encodings compare equal numerically),
/// otherwise decided by the order key.
pub open spec fn scalar_le_spec(a: Scalar, b: Scalar) -> bool {
    if is_nan_spec(a) || is_nan_spec(b) {
        false
    } else if is_zero_spec(a) && is_zero_spec(b) {
        true
    } else {
        order_key_spec(a) <= order_key_spec(b)
    }
}

/// Whether the encoded value is a NaN.
pub fn scalar_is_nan(a: Scalar) -> (r: bool)
    ensures
        r == is_nan_spec(a),
{
    a & EXPONENT_MASK == EXPONENT_MASK && a & FRACTION_MASK != 0
}

/// Numeric `<=` of two encoded values, as IEEE-754 defines it.
pub fn scalar_le(a: Scalar, b: Scalar) -> (r: bool)
    ensures
        r == scalar_le_spec(a, b),
{
    let a_nan: bool = a & EXPONENT_MASK == EXPONENT_MASK && a & FRACTION_MASK != 0;
    let b_nan: bool = b & EXPONENT_MASK == EXPONENT_MASK && b & FRACTION_MASK != 0;
    if a_nan || b_nan {
        false
    } else if a & (EXPONENT_MASK | FRACTION_MASK) == 0 && b & (EXPONENT_MASK | FRACTION_MASK) == 0 {
        true
    } else {
        let ka: u64 = if a & SIGN_MASK != 0 { !a } else { a | SIGN_MASK };
        let kb: u64 = if b & SIGN_MASK != 0 { !b } else { b | SIGN_MASK };
        ka <= kb
    }
}

} // verus!
