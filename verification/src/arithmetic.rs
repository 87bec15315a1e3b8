//! Fractions and saturating conversions, computed by `sp_arithmetic`.

use vstd::prelude::*;

verus! {

/// The parts per hundred that `p / q` makes, rounded down; a hundred where
/// `q` is zero or `p` exceeds `q`.
pub open spec fn percent_of(p: u64, q: u64) -> int {
    if q == 0 || p > q {
        100
    } else {
        (100 * p) / (q as int)
    }
}

/// Calls `sp_arithmetic::Percent::from_rational` and takes the parts out of
/// the result with `deconstruct`. Trusted: `from_rational` rounds down, and
/// answers one whole where the denominator is zero or the numerator is the
/// larger of the two.
#[verifier::external_body]
pub(crate) fn percent_from_rational(p: u64, q: u64) -> (r: u8)
    ensures
        r == percent_of(p, q),
{
    sp_arithmetic::Percent::from_rational(p, q).deconstruct()
}

/// Calls `sp_arithmetic::traits::SaturatedConversion::saturated_into` from
/// `u128` to `u64`. Trusted: the value itself where it fits, else the
/// greatest `u64`.
#[verifier::external_body]
pub(crate) fn saturated_into_u64(x: u128) -> (r: u64)
    ensures
        r == if x > u64::MAX { u64::MAX } else { x as u64 },
{
    sp_arithmetic::traits::SaturatedConversion::saturated_into::<u64>(x)
}

} // verus!
