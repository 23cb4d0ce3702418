//! Opaque scalar values.
//!
//! A scalar is carried as the 64-bit IEEE 754 encoding of the machine
//! number it stands for.  Arithmetic on scalars happens only inside the
//! trusted wrappers of this module.  IEEE 754 fixes, for each basic
//! operation, whether the result is NaN and, when it is not, its exact
//! encoding; the payload bits of a NaN result it leaves open.  So each
//! wrapper's contract speaks of the canonicalized result — the encoding
//! itself when it is not NaN, one fixed quiet NaN when it is — which is
//! a function of the operand encodings alone, and the library stores
//! only canonicalized scalars.  The bit-level predicates (sign,
//! finiteness, order) are ordinary verified definitions: the standard
//! fixes them exactly.

use std::primitive::f64 as machine;
use vstd::prelude::*;

verus! {

/// Encoding of +0.0.
pub const ZERO_BITS: u64 = 0x0000_0000_0000_0000;

/// Encoding of 1.0.
pub const ONE_BITS: u64 = 0x3FF0_0000_0000_0000;

/// Encoding of -1.0.
pub const NEG_ONE_BITS: u64 = 0xBFF0_0000_0000_0000;

/// Encoding of 0.75.
pub const THREE_QUARTERS_BITS: u64 = 0x3FE8_0000_0000_0000;

/// Encoding of -0.75.
pub const NEG_THREE_QUARTERS_BITS: u64 = 0xBFE8_0000_0000_0000;

/// The sign bit.
pub const SIGN_BITS: u64 = 0x8000_0000_0000_0000;

/// Encoding of positive infinity: an all-ones exponent, zero mantissa.
pub const INF_BITS: u64 = 0x7FF0_0000_0000_0000;

/// The canonical quiet NaN every NaN is normalized to.
pub const QNAN_BITS: u64 = 0x7FF8_0000_0000_0000;

/// Encoding of 2.0 to the power 1022, used to bound sampling ranges so
/// that their width stays finite.
pub const HUGE_BITS: u64 = 0x7FD0_0000_0000_0000;

/// The encoding of `b` with its sign bit cleared: the encoding of the
/// absolute value of the scalar `b` stands for.
pub open spec fn abs_bits(b: u64) -> u64 {
    if b >= SIGN_BITS {
        (b - SIGN_BITS) as u64
    } else {
        b
    }
}

/// Whether `b` encodes a NaN: all-ones exponent and a non-zero mantissa.
pub open spec fn is_nan_bits(b: u64) -> bool {
    abs_bits(b) > INF_BITS
}

/// `b` with every NaN sent to the one canonical quiet NaN.
pub open spec fn canon_bits(b: u64) -> u64 {
    if is_nan_bits(b) {
        QNAN_BITS
    } else {
        b
    }
}

/// Computes `canon_bits`.
pub fn canonical(b: u64) -> (r: u64)
    ensures
        r == canon_bits(b),
{
    let abs: u64 = if b >= SIGN_BITS {
        b - SIGN_BITS
    } else {
        b
    };
    if abs > INF_BITS {
        QNAN_BITS
    } else {
        b
    }
}

/// Whether the scalar encoded by `a` is less than the one encoded by
/// `b`, exactly as IEEE 754 defines `<`: false whenever either side is
/// NaN, the two zeros equal, other values by sign and magnitude.
pub open spec fn lt_bits(a: u64, b: u64) -> bool {
    &&& !is_nan_bits(a)
    &&& !is_nan_bits(b)
    &&& if a >= SIGN_BITS && b >= SIGN_BITS {
        abs_bits(a) > abs_bits(b)
    } else if a >= SIGN_BITS {
        abs_bits(a) != 0 || abs_bits(b) != 0
    } else if b >= SIGN_BITS {
        false
    } else {
        a < b
    }
}

/// The scalar encoded by `r` lies in the half-open range the two
/// encodings bound: at least `lo`, strictly below `hi`.
pub open spec fn in_range_bits(r: u64, lo: u64, hi: u64) -> bool {
    &&& !lt_bits(r, lo)
    &&& lt_bits(r, hi)
}

/// A sampling range whose ends are finite, properly ordered and small
/// enough that the range's width is a finite number as well.
pub open spec fn valid_range_bits(lo: u64, hi: u64) -> bool {
    &&& abs_bits(lo) <= HUGE_BITS
    &&& abs_bits(hi) <= HUGE_BITS
    &&& lt_bits(lo, hi)
}

/// The key under which a loss is compared: the encoding itself for
/// ordinary values, with every NaN sent to the largest key.  On the
/// non-negative non-NaN scalars that a summed absolute difference can
/// produce, unsigned order of the encodings is exactly the order of the
/// values, so a strictly smaller key means a strictly smaller loss.
pub open spec fn key_of(b: u64) -> u64 {
    if is_nan_bits(b) {
        u64::MAX
    } else {
        b
    }
}

/// Computes `key_of` on a loss encoding.
pub fn loss_key(b: u64) -> (k: u64)
    ensures
        k == key_of(b),
{
    let abs: u64 = if b >= SIGN_BITS {
        b - SIGN_BITS
    } else {
        b
    };
    if abs > INF_BITS {
        u64::MAX
    } else {
        b
    }
}

/// The canonicalized product of the scalars encoded by `a` and `b`.
pub uninterp spec fn mul_of(a: u64, b: u64) -> u64;

/// Relies on `f64` multiplication: IEEE 754 fixes whether the product
/// is NaN and, when it is not, its correctly rounded encoding, both
/// from the operand encodings alone; only a NaN's payload is open, and
/// the canonicalization closes it.
#[verifier::external_body]
pub(crate) fn scalar_mul(a: u64, b: u64) -> (r: u64)
    ensures
        canon_bits(r) == mul_of(a, b),
{
    (machine::from_bits(a) * machine::from_bits(b)).to_bits()
}

/// The canonicalized sum of the scalars encoded by `a` and `b`.
pub uninterp spec fn add_of(a: u64, b: u64) -> u64;

/// Relies on `f64` addition: IEEE 754 fixes whether the sum is NaN
/// and, when it is not, its correctly rounded encoding, both from the
/// operand encodings alone; only a NaN's payload is open, and the
/// canonicalization closes it.
#[verifier::external_body]
pub(crate) fn scalar_add(a: u64, b: u64) -> (r: u64)
    ensures
        canon_bits(r) == add_of(a, b),
{
    (machine::from_bits(a) + machine::from_bits(b)).to_bits()
}

/// The canonicalized difference of the scalars encoded by `a` and `b`.
pub uninterp spec fn sub_of(a: u64, b: u64) -> u64;

/// Relies on `f64` subtraction: IEEE 754 fixes whether the difference
/// is NaN and, when it is not, its correctly rounded encoding, both
/// from the operand encodings alone; only a NaN's payload is open, and
/// the canonicalization closes it.
#[verifier::external_body]
pub(crate) fn scalar_sub(a: u64, b: u64) -> (r: u64)
    ensures
        canon_bits(r) == sub_of(a, b),
{
    (machine::from_bits(a) - machine::from_bits(b)).to_bits()
}

/// Relies on `f64::abs`, which Rust documents as always returning the
/// precise result: the encoding with the sign bit cleared.
#[verifier::external_body]
pub(crate) fn scalar_abs(a: u64) -> (r: u64)
    ensures
        r == abs_bits(a),
{
    machine::from_bits(a).abs().to_bits()
}

/// The canonicalized quotient of the scalars encoded by `a` and `b`.
pub uninterp spec fn div_of(a: u64, b: u64) -> u64;

/// Relies on `f64` division: IEEE 754 fixes whether the quotient is
/// NaN and, when it is not, its correctly rounded encoding, both from
/// the operand encodings alone; only a NaN's payload is open, and the
/// canonicalization closes it.
#[verifier::external_body]
pub(crate) fn scalar_div(a: u64, b: u64) -> (r: u64)
    ensures
        canon_bits(r) == div_of(a, b),
{
    (machine::from_bits(a) / machine::from_bits(b)).to_bits()
}

/// The canonicalized exponential of the scalar encoded by `n`.
pub uninterp spec fn exp_of(n: u64) -> u64;

/// Relies on `libm::exp`, which computes the exponential in software
/// from the argument encoding alone and returns a NaN argument
/// unchanged; the canonicalization closes the payloads of the NaNs
/// that can reach it.
#[verifier::external_body]
pub(crate) fn scalar_exp(n: u64) -> (r: u64)
    ensures
        canon_bits(r) == exp_of(n),
{
    libm::exp(machine::from_bits(n)).to_bits()
}

/// What the logistic function `1 - 1/(1 + e^n)` returns on the scalar
/// encoded by `n`, over the named machine operations.
pub open spec fn sig_of(n: u64) -> u64 {
    sub_of(ONE_BITS, div_of(ONE_BITS, add_of(ONE_BITS, exp_of(n))))
}

/// The logistic function `1 - 1/(1 + e^n)` on scalar encodings,
/// computed with the named machine operations.
pub fn sigmoid(n: u64) -> (r: u64)
    ensures
        r == sig_of(n),
{
    let e = canonical(scalar_exp(n));
    let denom = canonical(scalar_add(ONE_BITS, e));
    let q = canonical(scalar_div(ONE_BITS, denom));
    canonical(scalar_sub(ONE_BITS, q))
}

/// The activation applied by every unit of a layer: one pure map from
/// scalar to scalar, chosen at construction.
#[derive(Clone, Copy, PartialEq, Eq, Structural, Debug)]
pub enum Activation {
    /// The logistic sigmoid, the default.
    Sigmoid,
    /// The identity map.
    Linear,
    /// -1.0 for negative arguments, 1.0 for all others.
    Step,
}

/// What is below zero under IEEE 754 `<`: negative sign, not NaN and
/// not the negative zero.
pub open spec fn below_zero_bits(b: u64) -> bool {
    b > SIGN_BITS && !is_nan_bits(b)
}

/// What the step activation returns on the scalar encoded by `n`.
pub open spec fn step_of(n: u64) -> u64 {
    if below_zero_bits(n) {
        NEG_ONE_BITS
    } else {
        ONE_BITS
    }
}

/// What the activation `a` returns on the scalar encoded by `n`.
pub open spec fn act_of(a: Activation, n: u64) -> u64 {
    match a {
        Activation::Sigmoid => sig_of(n),
        Activation::Linear => n,
        Activation::Step => step_of(n),
    }
}

/// Applies an activation to a scalar encoding.
pub fn apply_activation(a: Activation, n: u64) -> (r: u64)
    ensures
        r == act_of(a, n),
{
    match a {
        Activation::Sigmoid => sigmoid(n),
        Activation::Linear => n,
        Activation::Step => {
            let abs: u64 = if n >= SIGN_BITS {
                n - SIGN_BITS
            } else {
                n
            };
            if n > SIGN_BITS && abs <= INF_BITS {
                NEG_ONE_BITS
            } else {
                ONE_BITS
            }
        },
    }
}

} // verus!
