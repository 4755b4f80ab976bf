//! `SizingConstraints`, `SizingResult`, `GuaranteeTier`.
use crate::decimal::{ov, Dec};
use vstd::prelude::*;

verus! {

/// Constraints applied to a sizing call.
#[derive(Debug)]
pub struct SizingConstraints {
    /// Fixed execution cost, denominated in the output asset.
    pub fixed_cost: Dec,
    /// Upper bound on the trade size; `None` means unconstrained by the
    /// caller.
    pub max_size: Option<Dec>,
}

impl Clone for SizingConstraints {
    fn clone(&self) -> (r: SizingConstraints)
        ensures
            r.fixed_cost@ == self.fixed_cost@,
            ov(r.max_size) == ov(self.max_size),
    {
        SizingConstraints {
            fixed_cost: self.fixed_cost.copy(),
            max_size: match &self.max_size {
                Some(m) => Some(m.copy()),
                None => None,
            },
        }
    }
}

/// The result of a sizing call.
#[derive(Debug, PartialEq)]
pub struct SizingResult {
    /// The profit-maximizing trade size found.
    pub optimal_delta: Dec,
    /// Net expected profit at `optimal_delta`, after `fixed_cost`.
    pub expected_profit: Dec,
    /// Which guarantee this result carries.
    pub guarantee_tier: GuaranteeTier,
    /// `None` for closed-form results, `Some(n)` for iterative methods.
    pub iterations: Option<u32>,
}

/// States which guarantee a `SizingResult` carries.
#[derive(Debug, PartialEq)]
pub enum GuaranteeTier {
    /// The returned size is the exact optimum of a concave profit function.
    ProvenOptimal,
    /// A numerical solver found the size under checked regularity
    /// conditions.
    NumericallyGuaranteed {
        /// Whether the solver's regularity conditions were confirmed.
        convergence_conditions_met: bool,
    },
    /// A search found the size after a sampled unimodality check.
    EmpiricallyValidated {
        /// Whether the sampled check found no curvature anomaly.
        unimodality_confirmed: bool,
    },
    /// A multi-hop route: each leg's own tier, not a claim about the route.
    ComposedFrom(Vec<GuaranteeTier>),
}

} // verus!
