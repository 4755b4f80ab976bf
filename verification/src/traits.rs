//! `PricingCurve` and `SizingAlgorithm`.
use crate::decimal::{value_le, Dec};
use crate::error::{ErrKind, SizingError};
use crate::types::{SizingConstraints, SizingResult};
use vstd::prelude::*;

verus! {

/// A curve's raw pricing function: how much output a given input yields.
pub trait PricingCurve {
    /// The output amount for input `delta_in`, post-fee.
    fn quote(&self, delta_in: Dec) -> Result<Dec, SizingError>;
}

/// Computes the profit-maximizing trade size against a reference price.
///
/// Every implementation rejects a non-positive reference price, and never
/// returns a size that is not positive, that exceeds the caller's
/// `max_size`, or whose net expected profit is not positive.
pub trait SizingAlgorithm: PricingCurve {
    /// The profit-maximizing trade size against `reference_price` (units of
    /// output per unit of input), subject to `constraints`.
    fn optimal_size(&self, reference_price: Dec, constraints: SizingConstraints) -> (r: Result<
        SizingResult,
        SizingError,
    >)
        ensures
            reference_price@.0 <= 0 ==> (r matches Err(e) && e@ == ErrKind::InvalidReserves),
            r matches Ok(res) ==> (res.optimal_delta@.0 > 0 && res.expected_profit@.0 > 0),
            r matches Ok(res) ==> (constraints.max_size matches Some(m) ==> value_le(
                res.optimal_delta@,
                m@,
            )),
    ;
}

} // verus!
