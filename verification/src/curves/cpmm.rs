//! Constant-product (`x * y = k`) pool with closed-form sizing.
use crate::decimal::{
    dec_lt, dec_mul, dec_sqrt, o_add, o_div, o_mul, o_sqrt, o_sub, ov, s_add, s_div, s_mul,
    s_sqrt, s_sub, some, value_le, value_lt, Dec,
};
use crate::error::{detail_of, got, invalid, invalid_got, or_overflow, overflow, rv, ErrKind, SizingError};
use crate::profit::{clip_hi, conclude_clipped, conclude_exec, srv, NetProfit};
use crate::traits::{PricingCurve, SizingAlgorithm};
use crate::types::{GuaranteeTier, SizingConstraints, SizingResult};
use vstd::prelude::*;

verus! {

/// Relative convergence tolerance shared by the bisection searches, 1e-6.
pub open spec fn newton_tolerance() -> (int, int) {
    (1, 6)
}

/// Most bisection halvings `bisection_fallback` performs before giving up.
pub const BISECTION_CAP: u32 = 10000;

/// Most doublings `bisection_fallback` performs while bracketing.
pub const DOUBLING_CAP: u32 = 10000;

/// A constant-product pool with a fixed fee retention.
#[derive(Debug, PartialEq)]
pub struct Cpmm {
    /// Input-asset reserve.
    pub x: Dec,
    /// Output-asset reserve.
    pub y: Dec,
    /// Fee retention, e.g. `0.997` for a 30bps fee.
    pub fee_retention: Dec,
}

impl Clone for Cpmm {
    fn clone(&self) -> (r: Cpmm)
        ensures
            r.x@ == self.x@ && r.y@ == self.y@ && r.fee_retention@ == self.fee_retention@,
    {
        Cpmm { x: self.x.copy(), y: self.y.copy(), fee_retention: self.fee_retention.copy() }
    }
}

/// A fee retention lies in `(0, 1]`.
pub open spec fn valid_fee(f: (int, int)) -> bool {
    f.0 > 0 && value_le(f, (1, 0))
}

/// The detail `Cpmm::new` reports: that of its first failing check.
pub open spec fn new_detail(x: (int, int), y: (int, int), fee_retention: (int, int)) -> Seq<char> {
    if x.0 <= 0 {
        got("x must be > 0"@, x)
    } else if y.0 <= 0 {
        got("y must be > 0"@, y)
    } else {
        got("fee_retention must be in (0, 1]"@, fee_retention)
    }
}

impl Cpmm {
    /// `quote(d) = y * f * d / (x + f * d)`; `InvalidReserves` when the
    /// denominator is not positive.
    pub open spec fn quote_spec(&self, d: (int, int)) -> Result<(int, int), ErrKind> {
        match s_add(Some(self.x@), s_mul(Some(self.fee_retention@), Some(d))) {
            None => Err(ErrKind::InvalidReserves),
            Some(denom) => if denom.0 <= 0 {
                Err(ErrKind::InvalidReserves)
            } else {
                match s_div(
                    s_mul(s_mul(Some(self.y@), Some(self.fee_retention@)), Some(d)),
                    Some(denom),
                ) {
                    Some(v) => Ok(v),
                    None => Err(ErrKind::InvalidReserves),
                }
            },
        }
    }

    /// The marginal price at size zero, `f * y / x`.
    pub open spec fn marginal_spec(&self) -> Option<(int, int)> {
        s_div(s_mul(Some(self.fee_retention@), Some(self.y@)), Some(self.x@))
    }

    /// The closed-form unconstrained optimum `(sqrt(x * y * f / P) - x) / f`.
    pub open spec fn closed_form_spec(&self, p: (int, int)) -> Option<(int, int)> {
        s_div(
            s_sub(
                s_sqrt(
                    s_div(
                        s_mul(s_mul(Some(self.x@), Some(self.y@)), Some(self.fee_retention@)),
                        Some(p),
                    ),
                ),
                Some(self.x@),
            ),
            Some(self.fee_retention@),
        )
    }

    /// The checks before any search: a positive reference price, and a
    /// marginal price strictly above it.
    pub open spec fn entry_spec(&self, p: (int, int)) -> Result<(), ErrKind> {
        if p.0 <= 0 {
            Err(ErrKind::InvalidReserves)
        } else {
            match self.marginal_spec() {
                None => Err(ErrKind::InvalidReserves),
                Some(m) => if !value_lt(p, m) {
                    Err(ErrKind::NoArbitrageOpportunity)
                } else {
                    Ok(())
                },
            }
        }
    }

    /// What `optimal_size` computes: `(optimal_delta, expected_profit)`.
    pub open spec fn optimal_size_spec(
        &self,
        p: (int, int),
        fixed: (int, int),
        max_size: Option<(int, int)>,
    ) -> Result<((int, int), (int, int)), ErrKind> {
        match self.entry_spec(p) {
            Err(e) => Err(e),
            Ok(_) => match self.closed_form_spec(p) {
                None => Err(ErrKind::InvalidReserves),
                Some(u) => conclude_clipped(
                    u,
                    max_size,
                    self.quote_spec(clip_hi(u, max_size)),
                    p,
                    fixed,
                ),
            },
        }
    }

    /// `Profit'(d) = f * y * x / (x + f * d)^2 - P`.
    pub open spec fn derivative_spec(&self, p: (int, int), d: (int, int)) -> Option<(int, int)> {
        let denom = s_add(Some(self.x@), s_mul(Some(self.fee_retention@), Some(d)));
        s_sub(
            s_div(
                s_mul(s_mul(Some(self.fee_retention@), Some(self.y@)), Some(self.x@)),
                s_mul(denom, denom),
            ),
            Some(p),
        )
    }

    /// Doubles `hi` while the derivative there is positive; `left` more
    /// doublings are allowed.
    pub open spec fn bracket_spec(&self, p: (int, int), hi: (int, int), left: nat) -> Result<
        (int, int),
        ErrKind,
    >
        decreases left,
    {
        match self.derivative_spec(p, hi) {
            None => Err(ErrKind::InvalidReserves),
            Some(dv) => if dv.0 <= 0 {
                Ok(hi)
            } else {
                match s_mul(Some(hi), Some((2, 0))) {
                    None => Err(ErrKind::InvalidReserves),
                    Some(h2) => if left == 0 {
                        Err(ErrKind::InvalidReserves)
                    } else {
                        self.bracket_spec(p, h2, (left - 1) as nat)
                    },
                }
            },
        }
    }

    /// Halves `[lo, hi]` on the sign of the derivative at its midpoint until
    /// `hi - lo <= 1e-6 * hi`; `left` more halvings are allowed.
    pub open spec fn bisect_spec(&self, p: (int, int), lo: (int, int), hi: (int, int), left: nat) -> Result<
        ((int, int), (int, int)),
        ErrKind,
    >
        decreases left,
    {
        match (s_sub(Some(hi), Some(lo)), s_mul(Some(newton_tolerance()), Some(hi))) {
            (Some(w), Some(t)) => if !value_lt(t, w) {
                Ok((lo, hi))
            } else if left == 0 {
                Err(ErrKind::DidNotConverge(BISECTION_CAP))
            } else {
                match s_div(s_add(Some(lo), Some(hi)), Some((2, 0))) {
                    None => Err(ErrKind::InvalidReserves),
                    Some(mid) => match self.derivative_spec(p, mid) {
                        None => Err(ErrKind::InvalidReserves),
                        Some(dv) => if dv.0 > 0 {
                            self.bisect_spec(p, mid, hi, (left - 1) as nat)
                        } else {
                            self.bisect_spec(p, lo, mid, (left - 1) as nat)
                        },
                    },
                }
            },
            _ => Err(ErrKind::InvalidReserves),
        }
    }

    /// What `bisection_fallback` computes.
    pub open spec fn bisection_spec(
        &self,
        p: (int, int),
        fixed: (int, int),
        max_size: Option<(int, int)>,
    ) -> Result<((int, int), (int, int)), ErrKind> {
        match self.entry_spec(p) {
            Err(e) => Err(e),
            Ok(_) => match self.bracket_spec(p, (1, 0), DOUBLING_CAP as nat) {
                Err(e) => Err(e),
                Ok(hi) => match self.bisect_spec(p, (0, 0), hi, BISECTION_CAP as nat) {
                    Err(e) => Err(e),
                    Ok((lo, hi)) => match s_div(s_add(Some(lo), Some(hi)), Some((2, 0))) {
                        None => Err(ErrKind::InvalidReserves),
                        Some(u) => conclude_clipped(
                            u,
                            max_size,
                            self.quote_spec(clip_hi(u, max_size)),
                            p,
                            fixed,
                        ),
                    },
                },
            },
        }
    }

    /// Constructs a new `Cpmm`. Returns `InvalidReserves` if `x <= 0`,
    /// `y <= 0`, or `fee_retention` is not in `(0, 1]`.
    pub fn new(x: Dec, y: Dec, fee_retention: Dec) -> (r: Result<Cpmm, SizingError>)
        ensures
            r is Ok <==> x@.0 > 0 && y@.0 > 0 && valid_fee(fee_retention@),
            r matches Ok(c) ==> c.x@ == x@ && c.y@ == y@ && c.fee_retention@ == fee_retention@,
            r matches Err(e) ==> e@ == ErrKind::InvalidReserves && detail_of(e) == new_detail(
                x@,
                y@,
                fee_retention@,
            ),
    {
        if !x.is_positive() {
            return Err(invalid_got("x must be > 0", &x));
        }
        if !y.is_positive() {
            return Err(invalid_got("y must be > 0", &y));
        }
        if !fee_retention.is_positive() || dec_lt(&Dec::one(), &fee_retention) {
            return Err(invalid_got("fee_retention must be in (0, 1]", &fee_retention));
        }
        Ok(Cpmm { x, y, fee_retention })
    }

    fn entry_checks(&self, reference_price: &Dec) -> (r: Result<(), SizingError>)
        ensures
            match self.entry_spec(reference_price@) {
                Ok(_) => r is Ok,
                Err(e) => r matches Err(x) && x@ == e,
            },
            reference_price@.0 <= 0 ==> (r matches Err(x) && detail_of(x)
                == got("reference_price must be > 0"@, reference_price@)),
    {
        if !reference_price.is_positive() {
            return Err(invalid_got("reference_price must be > 0", &reference_price));
        }
        let marginal_price = match o_div(
            o_mul(some(&self.fee_retention), some(&self.y)),
            some(&self.x),
        ) {
            Some(m) => m,
            None => return Err(overflow()),
        };
        if !dec_lt(reference_price, &marginal_price) {
            return Err(SizingError::NoArbitrageOpportunity);
        }
        Ok(())
    }

    fn derivative(&self, reference_price: &Dec, delta: &Dec) -> (r: Option<Dec>)
        ensures
            ov(r) == self.derivative_spec(reference_price@, delta@),
    {
        let denom = o_add(some(&self.x), o_mul(some(&self.fee_retention), some(delta)));
        let denom2 = match &denom {
            Some(d) => Some(d.copy()),
            None => None,
        };
        o_sub(
            o_div(
                o_mul(o_mul(some(&self.fee_retention), some(&self.y)), some(&self.x)),
                o_mul(denom, denom2),
            ),
            some(reference_price),
        )
    }

    /// Validation-only helper: the optimal size by bracket-and-bisect on the
    /// sign of `Profit'` instead of the closed form. Bisects until the
    /// bracket width is within 1e-6 of its upper end.
    pub fn bisection_fallback(&self, reference_price: Dec, constraints: SizingConstraints) -> (r:
        Result<SizingResult, SizingError>)
        ensures
            srv(r) == self.bisection_spec(
                reference_price@,
                constraints.fixed_cost@,
                ov(constraints.max_size),
            ),
            r matches Ok(res) ==> res.guarantee_tier == GuaranteeTier::ProvenOptimal
                && res.iterations is None,
            reference_price@.0 <= 0 ==> (r matches Err(e) && e@ == ErrKind::InvalidReserves),
            r matches Ok(res) ==> (res.optimal_delta@.0 > 0 && res.expected_profit@.0 > 0),
            r matches Ok(res) ==> (constraints.max_size matches Some(m) ==> value_le(
                res.optimal_delta@,
                m@,
            )),
    {
        match self.entry_checks(&reference_price) {
            Ok(_) => {},
            Err(e) => return Err(e),
        }
        let ghost p = reference_price@;
        let mut hi = Dec::one();
        let mut guard: u32 = 0;
        loop
            invariant
                guard <= DOUBLING_CAP,
                self.entry_spec(p) is Ok,
                p == reference_price@,
                self.bracket_spec(p, hi@, (DOUBLING_CAP - guard) as nat) == self.bracket_spec(
                    p,
                    (1, 0),
                    DOUBLING_CAP as nat,
                ),
            ensures
                self.bracket_spec(p, (1, 0), DOUBLING_CAP as nat) == Ok::<(int, int), ErrKind>(
                    hi@,
                ),
            decreases DOUBLING_CAP - guard,
        {
            let dv = match self.derivative(&reference_price, &hi) {
                Some(v) => v,
                None => return Err(overflow()),
            };
            if !dv.is_positive() {
                break ;
            }
            hi = match dec_mul(&hi, &Dec::two()) {
                Some(h) => h,
                None => return Err(overflow()),
            };
            if guard >= DOUBLING_CAP {
                return Err(invalid("bisection_fallback failed to bracket a root"));
            }
            guard = guard + 1;
        }
        let mut lo = Dec::zero();
        let ghost hi0 = hi@;
        let mut left: u32 = BISECTION_CAP;
        let tolerance = Dec::lit(1, 6);
        loop
            invariant
                self.entry_spec(p) is Ok,
                p == reference_price@,
                tolerance@ == newton_tolerance(),
                self.bracket_spec(p, (1, 0), DOUBLING_CAP as nat) == Ok::<(int, int), ErrKind>(
                    hi0,
                ),
                self.bisect_spec(p, lo@, hi@, left as nat) == self.bisect_spec(
                    p,
                    (0, 0),
                    hi0,
                    BISECTION_CAP as nat,
                ),
            ensures
                self.bisect_spec(p, (0, 0), hi0, BISECTION_CAP as nat) == Ok::<
                    ((int, int), (int, int)),
                    ErrKind,
                >((lo@, hi@)),
            decreases left,
        {
            let width = o_sub(some(&hi), some(&lo));
            let threshold = o_mul(some(&tolerance), some(&hi));
            let (w, t) = match (width, threshold) {
                (Some(w), Some(t)) => (w, t),
                _ => return Err(overflow()),
            };
            if !dec_lt(&t, &w) {
                break ;
            }
            if left == 0 {
                return Err(SizingError::DidNotConverge { iterations_attempted: BISECTION_CAP });
            }
            let mid = match o_div(o_add(some(&lo), some(&hi)), Some(Dec::two())) {
                Some(m) => m,
                None => return Err(overflow()),
            };
            let dv = match self.derivative(&reference_price, &mid) {
                Some(v) => v,
                None => return Err(overflow()),
            };
            if dv.is_positive() {
                lo = mid;
            } else {
                hi = mid;
            }
            left = left - 1;
        }
        let unconstrained_delta = match o_div(o_add(some(&lo), some(&hi)), Some(Dec::two())) {
            Some(u) => u,
            None => return Err(overflow()),
        };
        self.finish(unconstrained_delta, &reference_price, &constraints)
    }

    /// Clips the unconstrained optimum to `max_size`, then quotes it and
    /// nets out the reference cost and the fixed cost.
    fn finish(&self, unconstrained_delta: Dec, reference_price: &Dec, constraints: &SizingConstraints) -> (r: Result<SizingResult, SizingError>)
        ensures
            srv(r) == conclude_clipped(
                unconstrained_delta@,
                ov(constraints.max_size),
                self.quote_spec(clip_hi(unconstrained_delta@, ov(constraints.max_size))),
                reference_price@,
                constraints.fixed_cost@,
            ),
            r matches Ok(res) ==> res.guarantee_tier == GuaranteeTier::ProvenOptimal
                && res.iterations is None,
            r matches Ok(res) ==> (res.optimal_delta@.0 > 0 && res.expected_profit@.0 > 0),
            r matches Ok(res) ==> (constraints.max_size matches Some(m) ==> value_le(
                res.optimal_delta@,
                m@,
            )),
    {
        let (_, optimal_delta) = match NetProfit::restrict_domain(
            constraints,
            (Dec::zero(), unconstrained_delta),
        ) {
            Ok(d) => d,
            Err(e) => return Err(e),
        };
        proof {
            crate::profit::lemma_above_zero(optimal_delta@);
        }
        let quoted = self.quote(optimal_delta.copy());
        conclude_exec(
            optimal_delta,
            quoted,
            reference_price,
            &constraints.fixed_cost,
            GuaranteeTier::ProvenOptimal,
            None,
        )
    }
}

impl PricingCurve for Cpmm {
    /// `quote(d) = y * f * d / (x + f * d)`.
    fn quote(&self, delta_in: Dec) -> (r: Result<Dec, SizingError>)
        ensures
            rv(r) == self.quote_spec(delta_in@),
    {
        let denom = match o_add(some(&self.x), o_mul(some(&self.fee_retention), some(&delta_in))) {
            Some(d) => d,
            None => return Err(overflow()),
        };
        if !denom.is_positive() {
            return Err(invalid("x + fee_retention * delta_in must be > 0"));
        }
        or_overflow(
            o_div(
                o_mul(o_mul(some(&self.y), some(&self.fee_retention)), some(&delta_in)),
                Some(denom),
            ),
        )
    }
}

impl SizingAlgorithm for Cpmm {
    /// The closed-form optimum `(sqrt(x * y * f / P) - x) / f`, clipped to
    /// `max_size`; `NoArbitrageOpportunity` unless `f * y / x > P`.
    fn optimal_size(&self, reference_price: Dec, constraints: SizingConstraints) -> (r: Result<
        SizingResult,
        SizingError,
    >)
        ensures
            srv(r) == self.optimal_size_spec(
                reference_price@,
                constraints.fixed_cost@,
                ov(constraints.max_size),
            ),
            r matches Ok(res) ==> res.guarantee_tier == GuaranteeTier::ProvenOptimal
                && res.iterations is None,
            reference_price@.0 <= 0 ==> (r matches Err(e) && e@ == ErrKind::InvalidReserves
                && detail_of(e) == got("reference_price must be > 0"@, reference_price@)),
    {
        match self.entry_checks(&reference_price) {
            Ok(_) => {},
            Err(e) => return Err(e),
        }
        let unconstrained_delta = match o_div(
            o_sub(
                o_sqrt(
                    o_div(
                        o_mul(o_mul(some(&self.x), some(&self.y)), some(&self.fee_retention)),
                        some(&reference_price),
                    ),
                ),
                some(&self.x),
            ),
            some(&self.fee_retention),
        ) {
            Some(u) => u,
            None => return Err(invalid("failed to compute the closed-form optimum")),
        };
        self.finish(unconstrained_delta, &reference_price, &constraints)
    }
}

} // verus!
