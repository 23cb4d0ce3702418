//! Trusted access to the thread-local random source.

use std::primitive::f64 as machine;
use vstd::prelude::*;
use crate::scalar::in_range_bits;
use crate::scalar::valid_range_bits;

verus! {

/// One uniform sample from the half-open range the two encodings bound.
///
/// Relies on `rand::Rng::gen_range` over `f64`: with finite, ordered
/// bounds whose difference is finite it does not panic, and its retry
/// loop returns only a value at least the lower bound and strictly
/// below the upper one.  Which value comes back is random, so nothing
/// more is promised.
#[verifier::external_body]
pub(crate) fn gen_range_bits(lo: u64, hi: u64) -> (r: u64)
    requires
        valid_range_bits(lo, hi),
    ensures
        in_range_bits(r, lo, hi),
{
    rand::Rng::gen_range(
        &mut rand::thread_rng(),
        machine::from_bits(lo)..machine::from_bits(hi),
    ).to_bits()
}

/// `amount` distinct positions below `length`, drawn uniformly without
/// replacement.
///
/// Relies on `rand::seq::index::sample`: it returns exactly `amount`
/// distinct indices from `0..length`, in an arbitrary order, and panics
/// only when `amount > length`.
#[verifier::external_body]
pub(crate) fn sample_indices(length: usize, amount: usize) -> (r: Vec<usize>)
    requires
        amount <= length,
    ensures
        r@.len() == amount,
        forall|i: int| 0 <= i < r@.len() ==> r@[i] < length,
        forall|i: int, j: int| 0 <= i < j < r@.len() ==> r@[i] != r@[j],
{
    rand::seq::index::sample(&mut rand::thread_rng(), length, amount).into_vec()
}

} // verus!
