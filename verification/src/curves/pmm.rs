//! WooFi-style proactive market maker: golden-section search, conditional
//! on a sampled unimodality check of the quote curve.
//!
//! Pricing: selling `d` base yields `d * p / (1 - k * d * p)` while the sale
//! rebalances the pool toward the base reserve implied by the oracle price
//! (the reverse regime), and `d * p / (1 + k * d * p)` past that point (the
//! basic regime); the output never exceeds the quote reserve.
use crate::decimal::{
    dec_ceil, dec_lt, dec_ln, dec_mul, dec_to_u32, o_add, o_div, o_mul, o_sub, ov, s_add, s_div,
    s_mul, s_sub, some, value_lt, Dec, MAX_MANTISSA,
};
use crate::decimal::{decimal_ceil, decimal_ln, decimal_to_u32};
use crate::error::{detail_of, got, invalid, invalid_got, overflow, rv, ErrKind, SizingError};
use crate::profit::{clip_hi, conclude_clipped, conclude_exec, srv, NetProfit};
use crate::traits::{PricingCurve, SizingAlgorithm};
use crate::types::{GuaranteeTier, SizingConstraints, SizingResult};
use vstd::prelude::*;

verus! {

/// Number of evenly spaced intervals `check_unimodality` samples
/// (`UNIMODALITY_CHECK_SAMPLES + 1` points).
pub const UNIMODALITY_CHECK_SAMPLES: u32 = 200;

/// `(sqrt(5) - 1) / 2` to 28 digits.
pub open spec fn golden_ratio_inv_spec() -> (int, int) {
    (6180339887498948482045868344, 28)
}

/// Convergence tolerance of the golden-section search, 1e-6.
pub open spec fn golden_section_tolerance_spec() -> (int, int) {
    (1, 6)
}

/// `(sqrt(5) - 1) / 2` to 28 digits, the golden-section ratio.
pub fn golden_ratio_inv() -> (r: Dec)
    ensures
        r@ == golden_ratio_inv_spec(),
{
    Dec::lit(6180339887498948482045868344, 28)
}

/// Convergence tolerance of the golden-section search, 1e-6.
pub fn golden_section_tolerance() -> (r: Dec)
    ensures
        r@ == golden_section_tolerance_spec(),
{
    Dec::lit(1, 6)
}

/// The smallest decimal.
pub open spec fn dec_min_spec() -> (int, int) {
    (-MAX_MANTISSA as int, 0)
}

/// A WooFi v2-style PMM pool.
#[derive(Debug, PartialEq)]
pub struct Pmm {
    /// Reserve of the base (input) asset.
    pub base_reserve: Dec,
    /// Reserve of the quote (output) asset.
    pub quote_reserve: Dec,
    /// Oracle price.
    pub oracle_price: Dec,
    /// Curvature parameter.
    pub k: Dec,
}

impl Clone for Pmm {
    fn clone(&self) -> (r: Pmm)
        ensures
            r.base_reserve@ == self.base_reserve@ && r.quote_reserve@ == self.quote_reserve@
                && r.oracle_price@ == self.oracle_price@ && r.k@ == self.k@,
    {
        Pmm {
            base_reserve: self.base_reserve.copy(),
            quote_reserve: self.quote_reserve.copy(),
            oracle_price: self.oracle_price.copy(),
            k: self.k.copy(),
        }
    }
}

/// The `i`-th of the evenly spaced sample points `lo + width * (i / 200)`.
pub open spec fn sample_point(lo: (int, int), width: (int, int), i: int) -> Option<(int, int)> {
    s_add(
        Some(lo),
        s_mul(Some(width), s_div(Some((i, 0)), Some((UNIMODALITY_CHECK_SAMPLES as int, 0)))),
    )
}

/// The discrete second difference `(s[j+2] - s[j+1]) - (s[j+1] - s[j])`.
pub open spec fn second_diff(s: Seq<(int, int)>, j: int) -> Option<(int, int)> {
    s_sub(s_sub(Some(s[j + 2]), Some(s[j + 1])), s_sub(Some(s[j + 1]), Some(s[j])))
}

/// Every discrete second difference of `s` is computable and not positive
/// (the sampled curve is concave or flat throughout); vacuous below three
/// samples.
pub open spec fn concave_samples(s: Seq<(int, int)>) -> bool {
    s.len() < 3 || forall|j: int|
        0 <= j < s.len() - 2 ==> (#[trigger] second_diff(s, j) matches Some(v) && v.0 <= 0)
}

/// The detail `Pmm::new` reports: that of its first failing check.
pub open spec fn new_detail(
    base_reserve: (int, int),
    quote_reserve: (int, int),
    oracle_price: (int, int),
    k: (int, int),
) -> Seq<char> {
    if base_reserve.0 <= 0 {
        got("base_reserve must be > 0"@, base_reserve)
    } else if quote_reserve.0 <= 0 {
        got("quote_reserve must be > 0"@, quote_reserve)
    } else if oracle_price.0 <= 0 {
        got("oracle_price must be > 0"@, oracle_price)
    } else {
        got("k must be > 0"@, k)
    }
}

impl Pmm {
    /// `quote_reserve / oracle_price`.
    pub open spec fn target_base_spec(&self) -> Option<(int, int)> {
        s_div(Some(self.quote_reserve@), Some(self.oracle_price@))
    }

    /// The base sale that brings the pool to balance (zero if already past).
    pub open spec fn crossover_spec(&self) -> Option<(int, int)> {
        match self.target_base_spec() {
            None => None,
            Some(t) => if value_lt(self.base_reserve@, t) {
                s_sub(Some(t), Some(self.base_reserve@))
            } else {
                Some((0, 0))
            },
        }
    }

    /// `d * p / (1 - k * d * p)`, `None` at or beyond the pole.
    pub open spec fn reverse_sell_spec(&self, d: (int, int)) -> Option<(int, int)> {
        match s_sub(
            Some((1, 0)),
            s_mul(s_mul(Some(self.k@), Some(d)), Some(self.oracle_price@)),
        ) {
            None => None,
            Some(denom) => if denom.0 <= 0 {
                None
            } else {
                s_div(s_mul(Some(d), Some(self.oracle_price@)), Some(denom))
            },
        }
    }

    /// `d * p / (1 + k * d * p)`.
    pub open spec fn basic_sell_spec(&self, d: (int, int)) -> Option<(int, int)> {
        s_div(
            s_mul(Some(d), Some(self.oracle_price@)),
            s_add(Some((1, 0)), s_mul(s_mul(Some(self.k@), Some(d)), Some(self.oracle_price@))),
        )
    }

    /// The output of selling `d` base, capped at the quote reserve.
    pub open spec fn quote_spec(&self, d: (int, int)) -> Result<(int, int), ErrKind> {
        if d.0 < 0 {
            Err(ErrKind::InvalidReserves)
        } else if d.0 == 0 {
            Ok((0, 0))
        } else {
            match self.crossover_spec() {
                None => Err(ErrKind::InvalidReserves),
                Some(c) => {
                    let rp = if value_lt(c, d) {
                        c
                    } else {
                        d
                    };
                    match s_sub(Some(d), Some(rp)) {
                        None => Err(ErrKind::InvalidReserves),
                        Some(bp) => {
                            let ro = if rp.0 > 0 {
                                self.reverse_sell_spec(rp)
                            } else {
                                Some((0, 0))
                            };
                            let bo = if bp.0 > 0 {
                                self.basic_sell_spec(bp)
                            } else {
                                Some((0, 0))
                            };
                            match s_add(ro, bo) {
                                None => Err(ErrKind::InvalidReserves),
                                Some(raw) => Ok(
                                    if value_lt(self.quote_reserve@, raw) {
                                        self.quote_reserve@
                                    } else {
                                        raw
                                    },
                                ),
                            }
                        },
                    }
                },
            }
        }
    }

    /// The quotes at the first `n` sample points that quote successfully.
    pub open spec fn samples(&self, lo: (int, int), width: (int, int), n: nat) -> Seq<(int, int)>
        decreases n,
    {
        if n == 0 {
            Seq::empty()
        } else {
            let prev = self.samples(lo, width, (n - 1) as nat);
            match sample_point(lo, width, n - 1) {
                Some(d) => match self.quote_spec(d) {
                    Ok(q) => prev.push(q),
                    Err(_) => prev,
                },
                None => prev,
            }
        }
    }

    /// What `check_unimodality` decides for `[lo, hi]`.
    pub open spec fn unimodality_spec(&self, lo: (int, int), hi: (int, int)) -> bool {
        if !value_lt(lo, hi) {
            true
        } else {
            match s_sub(Some(hi), Some(lo)) {
                None => false,
                Some(width) => concave_samples(
                    self.samples(lo, width, (UNIMODALITY_CHECK_SAMPLES + 1) as nat),
                ),
            }
        }
    }

    /// The pole `1 / (k * p)` (the largest decimal when `k <= 0`), times 0.999.
    pub open spec fn pole_margin_spec(&self) -> Option<(int, int)> {
        let pole = if self.k@.0 > 0 {
            s_div(Some((1, 0)), s_mul(Some(self.k@), Some(self.oracle_price@)))
        } else {
            Some((MAX_MANTISSA as int, 0))
        };
        s_mul(pole, Some((999, 3)))
    }

    /// Doubles `upper` while the doubled size stays below the pole margin,
    /// quotes successfully, and stays short of 99.99% of the quote reserve;
    /// `left` more doublings are allowed after this one.
    pub open spec fn grow_spec(&self, upper: (int, int), pm: (int, int), left: nat) -> Option<
        (int, int),
    >
        decreases left,
    {
        match s_mul(Some(upper), Some((2, 0))) {
            None => None,
            Some(doubled) => if !value_lt(doubled, pm) {
                Some(upper)
            } else {
                match self.quote_spec(doubled) {
                    Err(_) => Some(upper),
                    Ok(out) => match s_mul(Some(self.quote_reserve@), Some((9999, 4))) {
                        None => None,
                        Some(cap) => if !value_lt(out, cap) {
                            Some(doubled)
                        } else if left == 0 {
                            Some(doubled)
                        } else {
                            self.grow_spec(doubled, pm, (left - 1) as nat)
                        },
                    },
                }
            },
        }
    }

    /// What `search_upper_bound` computes.
    pub open spec fn upper_bound_spec(&self) -> Option<(int, int)> {
        match self.pole_margin_spec() {
            None => None,
            Some(pm) => {
                let b1 = if value_lt(self.base_reserve@, (1, 0)) {
                    (1, 0)
                } else {
                    self.base_reserve@
                };
                let start = if value_lt(pm, b1) {
                    pm
                } else {
                    b1
                };
                match self.grow_spec(start, pm, 200) {
                    None => None,
                    Some(u) => Some(
                        if value_lt(pm, u) {
                            pm
                        } else {
                            u
                        },
                    ),
                }
            },
        }
    }

    /// `quote(d) - P * d`, or the smallest decimal when that fails.
    pub open spec fn profit_or_min(&self, p: (int, int), d: (int, int)) -> (int, int) {
        match self.quote_spec(d) {
            Ok(q) => match s_sub(Some(q), s_mul(Some(p), Some(d))) {
                Some(v) => v,
                None => dec_min_spec(),
            },
            Err(_) => dec_min_spec(),
        }
    }

    /// The golden-section interior points of `[lo, hi]`.
    pub open spec fn golden_points(lo: (int, int), hi: (int, int)) -> (Option<(int, int)>, Option<(int, int)>) {
        let span = s_mul(Some(golden_ratio_inv_spec()), s_sub(Some(hi), Some(lo)));
        (s_sub(Some(hi), span), s_add(Some(lo), span))
    }

    /// `left` more golden-section steps from `[lo, hi]` with interior points
    /// `c < d`; the final bracket.
    pub open spec fn golden_spec(
        &self,
        p: (int, int),
        lo: (int, int),
        hi: (int, int),
        c: (int, int),
        d: (int, int),
        left: nat,
    ) -> Result<((int, int), (int, int)), ErrKind>
        decreases left,
    {
        if left == 0 {
            Ok((lo, hi))
        } else {
            let fc = self.profit_or_min(p, c);
            let fd = self.profit_or_min(p, d);
            let lo2 = if value_lt(fd, fc) {
                lo
            } else {
                c
            };
            let hi2 = if value_lt(fd, fc) {
                d
            } else {
                hi
            };
            match Self::golden_points(lo2, hi2) {
                (Some(c2), Some(d2)) => self.golden_spec(p, lo2, hi2, c2, d2, (left - 1) as nat),
                _ => Err(ErrKind::InvalidReserves),
            }
        }
    }

    /// The iteration count `max(1, ceil(ln(tol / L) / ln(ratio)))` (1 when
    /// the quotient does not fit a `u32`).
    pub open spec fn iterations_spec(l: (int, int)) -> Option<u32> {
        match s_div(
            match s_div(Some(golden_section_tolerance_spec()), Some(l)) {
                Some(x) => decimal_ln(x),
                None => None,
            },
            decimal_ln(golden_ratio_inv_spec()),
        ) {
            None => None,
            Some(n) => {
                let c = match decimal_to_u32(decimal_ceil(n)) {
                    Some(v) => v,
                    None => 1u32,
                };
                Some(
                    if c < 1 {
                        1u32
                    } else {
                        c
                    },
                )
            },
        }
    }

    /// What `optimal_size` computes.
    pub open spec fn optimal_size_spec(
        &self,
        p: (int, int),
        fixed: (int, int),
        max_size: Option<(int, int)>,
    ) -> Result<((int, int), (int, int)), ErrKind> {
        if p.0 <= 0 {
            Err(ErrKind::InvalidReserves)
        } else if !value_lt(p, self.oracle_price@) {
            Err(ErrKind::NoArbitrageOpportunity)
        } else {
            match self.upper_bound_spec() {
                None => Err(ErrKind::InvalidReserves),
                Some(upper) => match Self::iterations_spec(upper) {
                    None => Err(ErrKind::InvalidReserves),
                    Some(n) => match Self::golden_points((0, 0), upper) {
                        (Some(c), Some(d)) => match self.golden_spec(
                            p,
                            (0, 0),
                            upper,
                            c,
                            d,
                            n as nat,
                        ) {
                            Err(e) => Err(e),
                            Ok((lo, hi)) => match s_div(s_add(Some(lo), Some(hi)), Some((2, 0))) {
                                None => Err(ErrKind::InvalidReserves),
                                Some(u) => conclude_clipped(
                                    u,
                                    max_size,
                                    self.quote_spec(clip_hi(u, max_size)),
                                    p,
                                    fixed,
                                ),
                            },
                        },
                        _ => Err(ErrKind::InvalidReserves),
                    },
                },
            }
        }
    }

    /// Constructs a new `Pmm`. Returns `InvalidReserves` if any argument is
    /// `<= 0`.
    pub fn new(base_reserve: Dec, quote_reserve: Dec, oracle_price: Dec, k: Dec) -> (r: Result<
        Pmm,
        SizingError,
    >)
        ensures
            r is Ok <==> base_reserve@.0 > 0 && quote_reserve@.0 > 0 && oracle_price@.0 > 0 && k@.0
                > 0,
            r matches Ok(pool) ==> pool.base_reserve@ == base_reserve@ && pool.quote_reserve@
                == quote_reserve@ && pool.oracle_price@ == oracle_price@ && pool.k@ == k@,
            r matches Err(e) ==> e@ == ErrKind::InvalidReserves && detail_of(e) == new_detail(
                base_reserve@,
                quote_reserve@,
                oracle_price@,
                k@,
            ),
    {
        if !base_reserve.is_positive() {
            return Err(invalid_got("base_reserve must be > 0", &base_reserve));
        }
        if !quote_reserve.is_positive() {
            return Err(invalid_got("quote_reserve must be > 0", &quote_reserve));
        }
        if !oracle_price.is_positive() {
            return Err(invalid_got("oracle_price must be > 0", &oracle_price));
        }
        if !k.is_positive() {
            return Err(invalid_got("k must be > 0", &k));
        }
        Ok(Pmm { base_reserve, quote_reserve, oracle_price, k })
    }

    fn target_base_reserve(&self) -> (r: Option<Dec>)
        ensures
            ov(r) == self.target_base_spec(),
    {
        o_div(some(&self.quote_reserve), some(&self.oracle_price))
    }

    fn crossover_delta(&self) -> (r: Option<Dec>)
        ensures
            ov(r) == self.crossover_spec(),
    {
        let target = match self.target_base_reserve() {
            Some(t) => t,
            None => return None,
        };
        if dec_lt(&self.base_reserve, &target) {
            o_sub(Some(target), some(&self.base_reserve))
        } else {
            Some(Dec::zero())
        }
    }

    fn reverse_sell_base(&self, delta: &Dec) -> (r: Option<Dec>)
        ensures
            ov(r) == self.reverse_sell_spec(delta@),
    {
        let denom = match o_sub(
            Some(Dec::one()),
            o_mul(o_mul(some(&self.k), some(delta)), some(&self.oracle_price)),
        ) {
            Some(d) => d,
            None => return None,
        };
        if !denom.is_positive() {
            return None;
        }
        o_div(o_mul(some(delta), some(&self.oracle_price)), Some(denom))
    }

    fn basic_sell_base(&self, delta: &Dec) -> (r: Option<Dec>)
        ensures
            ov(r) == self.basic_sell_spec(delta@),
    {
        o_div(
            o_mul(some(delta), some(&self.oracle_price)),
            o_add(
                Some(Dec::one()),
                o_mul(o_mul(some(&self.k), some(delta)), some(&self.oracle_price)),
            ),
        )
    }

    /// The pre-search unimodality check: samples `quote` at 201 evenly
    /// spaced points of `[lo, hi]` (skipping points where it fails) and
    /// returns `true` when no discrete second difference is positive, i.e.
    /// the sampled curve is concave throughout, so that `quote(d) - P * d`
    /// has an interior maximum for every `P`. A sampled heuristic: a
    /// violation between two adjacent samples is not caught. An interval
    /// whose width or differences overflow is not confirmed.
    pub fn check_unimodality(&self, search_interval: (Dec, Dec)) -> (r: bool)
        ensures
            r == self.unimodality_spec(search_interval.0@, search_interval.1@),
    {
        let (lo, hi) = search_interval;
        if !dec_lt(&lo, &hi) {
            return true;
        }
        let width = match o_sub(some(&hi), some(&lo)) {
            Some(w) => w,
            None => return false,
        };
        let samples_dec = Dec::from_u64(UNIMODALITY_CHECK_SAMPLES as u64);
        let mut quote_samples: Vec<Dec> = Vec::new();
        let mut i: u32 = 0;
        while i <= UNIMODALITY_CHECK_SAMPLES
            invariant
                i <= UNIMODALITY_CHECK_SAMPLES + 1,
                samples_dec@ == (UNIMODALITY_CHECK_SAMPLES as int, 0int),
                quote_samples@.map_values(|d: Dec| d@) == self.samples(lo@, width@, i as nat),
            decreases UNIMODALITY_CHECK_SAMPLES + 1 - i,
        {
            let ghost prev = quote_samples@;
            let delta = o_add(
                some(&lo),
                o_mul(some(&width), o_div(Some(Dec::from_u64(i as u64)), some(&samples_dec))),
            );
            match delta {
                Some(d) => match self.quote(d) {
                    Ok(q) => {
                        quote_samples.push(q);
                        assert(quote_samples@.map_values(|d: Dec| d@) =~= prev.map_values(
                            |d: Dec| d@,
                        ).push(q@));
                    },
                    Err(_) => {},
                },
                None => {},
            }
            i = i + 1;
        }
        let ghost s = self.samples(lo@, width@, (UNIMODALITY_CHECK_SAMPLES + 1) as nat);
        assert(self.unimodality_spec(lo@, hi@) == concave_samples(s));
        assert(quote_samples@.map_values(|d: Dec| d@) == s);
        assert(s.len() == quote_samples@.len());
        assert forall|t: int| 0 <= t < s.len() implies #[trigger] s[t] == quote_samples@[t]@ by {
            assert(quote_samples@.map_values(|d: Dec| d@)[t] == quote_samples@[t]@);
        }
        let n = quote_samples.len();
        if n < 3 {
            return true;
        }
        let mut j: usize = 0;
        while j < n - 2
            invariant
                n == quote_samples.len(),
                n >= 3,
                self.unimodality_spec(search_interval.0@, search_interval.1@) == concave_samples(s),
                s.len() == n,
                j <= n - 2,
                forall|t: int| 0 <= t < s.len() ==> #[trigger] s[t] == quote_samples@[t]@,
                forall|t: int|
                    0 <= t < j ==> (#[trigger] second_diff(s, t) matches Some(v) && v.0 <= 0),
            decreases n - 2 - j,
        {
            let d2 = o_sub(
                o_sub(some(&quote_samples[j + 2]), some(&quote_samples[j + 1])),
                o_sub(some(&quote_samples[j + 1]), some(&quote_samples[j])),
            );
            assert(ov(d2) == second_diff(s, j as int));
            match d2 {
                Some(v) => {
                    if v.is_positive() {
                        assert(!(second_diff(s, j as int) matches Some(w) && w.0 <= 0));
                        assert(!concave_samples(s));
                        return false;
                    }
                },
                None => {
                    assert(!(second_diff(s, j as int) matches Some(w) && w.0 <= 0));
                    assert(!concave_samples(s));
                    return false;
                },
            }
            j = j + 1;
        }
        true
    }

    /// The outer bound of `optimal_size`'s search, `[0, search_upper_bound()]`:
    /// starting from `min(max(base_reserve, 1), 0.999 * pole)`, doubles while
    /// the doubled size stays below `0.999 * pole`, quotes successfully, and
    /// its quote stays below 99.99% of the quote reserve (at most 201
    /// doublings); capped at `0.999 * pole`. `None` when a step overflows.
    pub fn search_upper_bound(&self) -> (r: Option<Dec>)
        ensures
            ov(r) == self.upper_bound_spec(),
    {
        let pole = if self.k.is_positive() {
            o_div(Some(Dec::one()), o_mul(some(&self.k), some(&self.oracle_price)))
        } else {
            Some(Dec::max_value())
        };
        let pole_margin = match o_mul(pole, Some(Dec::lit(999, 3))) {
            Some(p) => p,
            None => return None,
        };
        let mut upper = self.base_reserve.max(&Dec::one()).min(&pole_margin);
        let mut left: u32 = 200;
        let ghost start = upper@;
        loop
            invariant_except_break
                self.grow_spec(upper@, pole_margin@, left as nat) == self.grow_spec(
                    start,
                    pole_margin@,
                    200,
                ),
            invariant
                left <= 200,
                self.pole_margin_spec() == Some(pole_margin@),
                self.upper_bound_spec() == match self.grow_spec(start, pole_margin@, 200) {
                    None => None,
                    Some(u) => Some(
                        if value_lt(pole_margin@, u) {
                            pole_margin@
                        } else {
                            u
                        },
                    ),
                },
            ensures
                self.grow_spec(start, pole_margin@, 200) == Some(upper@),
            decreases left,
        {
            let doubled = match dec_mul(&upper, &Dec::two()) {
                Some(d) => d,
                None => return None,
            };
            if !dec_lt(&doubled, &pole_margin) {
                break ;
            }
            let output_at_doubled = match self.quote(doubled.copy()) {
                Ok(o) => o,
                Err(_) => break ,
            };
            let cap = match dec_mul(&self.quote_reserve, &Dec::lit(9999, 4)) {
                Some(c) => c,
                None => return None,
            };
            if !dec_lt(&output_at_doubled, &cap) {
                upper = doubled;
                break ;
            }
            upper = doubled;
            if left == 0 {
                break ;
            }
            left = left - 1;
        }
        Some(upper.min(&pole_margin))
    }

    fn profit_at(&self, reference_price: &Dec, delta: &Dec) -> (r: Dec)
        ensures
            r@ == self.profit_or_min(reference_price@, delta@),
    {
        match self.quote(delta.copy()) {
            Ok(q) => match o_sub(Some(q), o_mul(some(reference_price), some(delta))) {
                Some(v) => v,
                None => Dec::min_value(),
            },
            Err(_) => Dec::min_value(),
        }
    }

    fn golden_points_exec(lo: &Dec, hi: &Dec) -> (r: (Option<Dec>, Option<Dec>))
        ensures
            (ov(r.0), ov(r.1)) == Self::golden_points(lo@, hi@),
    {
        let span = o_mul(Some(golden_ratio_inv()), o_sub(some(hi), some(lo)));
        let span2 = match &span {
            Some(s) => Some(s.copy()),
            None => None,
        };
        (o_sub(some(hi), span), o_add(some(lo), span2))
    }
}

impl PricingCurve for Pmm {
    /// The output of selling `delta_in` base for quote: the reverse-regime
    /// formula up to the crossover, the basic-regime formula past it, capped
    /// at the quote reserve. `InvalidReserves` for a negative size or at the
    /// reverse-regime pole.
    fn quote(&self, delta_in: Dec) -> (r: Result<Dec, SizingError>)
        ensures
            rv(r) == self.quote_spec(delta_in@),
            delta_in@.0 < 0 ==> (r matches Err(e) && detail_of(e) == got(
                "delta_in must be >= 0"@,
                delta_in@,
            )),
    {
        if delta_in.is_negative() {
            return Err(invalid_got("delta_in must be >= 0", &delta_in));
        }
        if delta_in.is_zero() {
            return Ok(Dec::zero());
        }
        let crossover = match self.crossover_delta() {
            Some(c) => c,
            None => return Err(overflow()),
        };
        let reverse_part = delta_in.min(&crossover);
        let basic_part = match o_sub(some(&delta_in), some(&reverse_part)) {
            Some(b) => b,
            None => return Err(overflow()),
        };
        let reverse_output = if reverse_part.is_positive() {
            self.reverse_sell_base(&reverse_part)
        } else {
            Some(Dec::zero())
        };
        let basic_output = if basic_part.is_positive() {
            self.basic_sell_base(&basic_part)
        } else {
            Some(Dec::zero())
        };
        let raw_output = match o_add(reverse_output, basic_output) {
            Some(r) => r,
            None => return Err(invalid("delta_in reaches the reverse-regime pole")),
        };
        Ok(raw_output.min(&self.quote_reserve))
    }
}

impl SizingAlgorithm for Pmm {
    /// Golden-section search over `[0, search_upper_bound()]` with
    /// `max(1, ceil(ln(tol / L) / ln(ratio)))` iterations, after
    /// `check_unimodality` on the same interval; the tier reports that
    /// check's result. `NoArbitrageOpportunity` unless the oracle price
    /// exceeds `reference_price`.
    fn optimal_size(&self, reference_price: Dec, constraints: SizingConstraints) -> (r: Result<
        SizingResult,
        SizingError,
    >)
        ensures
            srv(r) == self.optimal_size_spec(
                reference_price@,
                constraints.fixed_cost@,
                ov(constraints.max_size),
            ),
            r matches Ok(res) ==> (exists|upper: (int, int)|
                self.upper_bound_spec() == Some(upper) && res.guarantee_tier
                    == GuaranteeTier::EmpiricallyValidated {
                    unimodality_confirmed: self.unimodality_spec((0, 0), upper),
                } && res.iterations == Self::iterations_spec(upper)),
            reference_price@.0 <= 0 ==> (r matches Err(e) && e@ == ErrKind::InvalidReserves
                && detail_of(e) == got("reference_price must be > 0"@, reference_price@)),
    {
        if !reference_price.is_positive() {
            return Err(invalid_got("reference_price must be > 0", &reference_price));
        }
        if !dec_lt(&reference_price, &self.oracle_price) {
            return Err(SizingError::NoArbitrageOpportunity);
        }
        let upper = match self.search_upper_bound() {
            Some(u) => u,
            None => return Err(overflow()),
        };
        let unimodality_confirmed = self.check_unimodality((Dec::zero(), upper.copy()));
        let l = upper.copy();
        let n_dec = match o_div(
            match o_div(Some(golden_section_tolerance()), some(&l)) {
                Some(x) => dec_ln(&x),
                None => None,
            },
            dec_ln(&golden_ratio_inv()),
        ) {
            Some(n) => n,
            None => return Err(overflow()),
        };
        let c0 = match dec_to_u32(&dec_ceil(&n_dec)) {
            Some(v) => v,
            None => 1,
        };
        let iterations: u32 = if c0 < 1 {
            1
        } else {
            c0
        };
        assert(Self::iterations_spec(upper@) == Some(iterations));
        let (c0, d0) = Self::golden_points_exec(&Dec::zero(), &upper);
        let (mut c, mut d) = match (c0, d0) {
            (Some(c), Some(d)) => (c, d),
            _ => return Err(overflow()),
        };
        let ghost p = reference_price@;
        let ghost (gc, gd) = (c@, d@);
        let mut lo = Dec::zero();
        let mut hi = upper.copy();
        let mut left: u32 = iterations;
        loop
            invariant
                p == reference_price@,
                p.0 > 0,
                value_lt(p, self.oracle_price@),
                self.upper_bound_spec() == Some(upper@),
                Self::iterations_spec(upper@) == Some(iterations),
                Self::golden_points((0, 0), upper@) == (Some(gc), Some(gd)),
                self.golden_spec(p, lo@, hi@, c@, d@, left as nat) == self.golden_spec(
                    p,
                    (0, 0),
                    upper@,
                    gc,
                    gd,
                    iterations as nat,
                ),
            ensures
                self.golden_spec(p, (0, 0), upper@, gc, gd, iterations as nat) == Ok::<
                    ((int, int), (int, int)),
                    ErrKind,
                >((lo@, hi@)),
            decreases left,
        {
            if left == 0 {
                break ;
            }
            let f_c = self.profit_at(&reference_price, &c);
            let f_d = self.profit_at(&reference_price, &d);
            if dec_lt(&f_d, &f_c) {
                hi = d;
            } else {
                lo = c;
            }
            let (c2, d2) = Self::golden_points_exec(&lo, &hi);
            match (c2, d2) {
                (Some(c3), Some(d3)) => {
                    c = c3;
                    d = d3;
                },
                _ => return Err(overflow()),
            }
            left = left - 1;
        }
        let unconstrained_delta = match o_div(o_add(some(&lo), some(&hi)), Some(Dec::two())) {
            Some(u) => u,
            None => return Err(overflow()),
        };
        let (_, optimal_delta) = match NetProfit::restrict_domain(
            &constraints,
            (Dec::zero(), unconstrained_delta),
        ) {
            Ok(dd) => dd,
            Err(e) => return Err(e),
        };
        proof {
            crate::profit::lemma_above_zero(optimal_delta@);
        }
        let quoted = self.quote(optimal_delta.copy());
        conclude_exec(
            optimal_delta,
            quoted,
            &reference_price,
            &constraints.fixed_cost,
            GuaranteeTier::EmpiricallyValidated { unimodality_confirmed },
            Some(iterations),
        )
    }
}

} // verus!
