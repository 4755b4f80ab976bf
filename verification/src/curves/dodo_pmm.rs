//! DODO proactive market maker: golden-section search over a piecewise
//! quadratic pricing curve.
//!
//! Liquidity concentrates around an oracle guide price `i` with slippage
//! coefficient `k`. Relative to the targets `(B0, Q0)` the pool is short of
//! base (`B < B0`), short of quote (`Q < Q0`), or balanced; a trade that
//! crosses a target is split at it.
use crate::curves::cpmm::valid_fee;
use crate::curves::pmm::{
    concave_samples, golden_ratio_inv, golden_ratio_inv_spec, sample_point, second_diff,
    UNIMODALITY_CHECK_SAMPLES,
};
use crate::decimal::{
    dec_add, dec_lt, dec_sub, o_add, o_div, o_mul, o_sqrt, o_sub, ov, s_add, s_div, s_mul,
    s_sqrt, s_sub, some, value_lt, Dec,
};
use crate::decimal::decimal_to_string;
use crate::optimality::{
    exact_difference, exact_product, exact_quotient, exact_sum, lemma_units_order, lemma_units_scale, scaled,
    ten28, units,
};
use crate::error::{detail_of, got, invalid, invalid_got, invalid_text, overflow, rv, then_dec, then_str, with_dec, ErrKind, SizingError};
use crate::profit::{clip_hi, conclude_clipped, conclude_exec, srv, NetProfit};
use crate::traits::{PricingCurve, SizingAlgorithm};
use crate::types::{GuaranteeTier, SizingConstraints, SizingResult};
use vstd::prelude::*;

verus! {

/// Number of golden-section iterations `optimal_size` performs.
pub const DODO_GOLDEN_ITERATIONS: u32 = 64;

/// A DODO proactive-market-maker pool.
#[derive(Debug)]
pub struct DodoPmm {
    /// Target base reserve `B0`.
    pub base_target: Dec,
    /// Target quote reserve `Q0`.
    pub quote_target: Dec,
    /// Current base reserve `B`.
    pub base_reserve: Dec,
    /// Current quote reserve `Q`.
    pub quote_reserve: Dec,
    /// Oracle guide price `i` (quote per base).
    pub oracle_price: Dec,
    /// Slippage coefficient `k` in `(0, 1]`.
    pub k: Dec,
    /// Fee retention `f` in `(0, 1]`.
    pub fee_retention: Dec,
    /// `true` to sell base for quote, `false` to sell quote for base.
    pub is_sell_base: bool,
}

impl Clone for DodoPmm {
    fn clone(&self) -> (r: DodoPmm)
        ensures
            r.base_target@ == self.base_target@ && r.quote_target@ == self.quote_target@
                && r.base_reserve@ == self.base_reserve@ && r.quote_reserve@
                == self.quote_reserve@ && r.oracle_price@ == self.oracle_price@ && r.k@
                == self.k@ && r.fee_retention@ == self.fee_retention@ && r.is_sell_base
                == self.is_sell_base,
    {
        DodoPmm {
            base_target: self.base_target.copy(),
            quote_target: self.quote_target.copy(),
            base_reserve: self.base_reserve.copy(),
            quote_reserve: self.quote_reserve.copy(),
            oracle_price: self.oracle_price.copy(),
            k: self.k.copy(),
            fee_retention: self.fee_retention.copy(),
            is_sell_base: self.is_sell_base,
        }
    }
}

/// `(x0 - x) * (1 + k * (x0 - x) / x0)`: how far the shortage integral
/// reaches from reserve `x` up to its target `x0`.
pub open spec fn shortage_term(x0: (int, int), x: (int, int), k: (int, int)) -> Option<(int, int)> {
    let d = s_sub(Some(x0), Some(x));
    s_mul(d, s_add(Some((1, 0)), s_div(s_mul(Some(k), d), Some(x0))))
}

/// The positive root `u` of `k u^2 + t0 u - c = 0`:
/// `(sqrt(t0^2 + 4 k c) - t0) / (2 k)`.
pub open spec fn excess_root(t0: (int, int), c: Option<(int, int)>, k: (int, int)) -> Option<
    (int, int),
> {
    s_div(
        s_sub(s_sqrt(s_add(s_mul(Some(t0), Some(t0)), s_mul(s_mul(Some((4, 0)), Some(k)), c))), Some(t0)),
        s_mul(Some((2, 0)), Some(k)),
    )
}

/// `max(v, 0)` (`v` itself when it equals zero).
pub open spec fn max0(v: (int, int)) -> (int, int) {
    if value_lt(v, (0, 0)) {
        (0, 0)
    } else {
        v
    }
}

/// `max(v, 0)` on an optional value.
pub open spec fn opt_max0(o: Option<(int, int)>) -> Option<(int, int)> {
    match o {
        Some(v) => Some(max0(v)),
        None => None,
    }
}

/// `f` lies in `(0, 1]`.
pub open spec fn unit_interval(f: (int, int)) -> bool {
    valid_fee(f)
}

/// The detail `DodoPmm::new` reports: that of its first failing check.
pub open spec fn new_detail(
    base_target: (int, int),
    quote_target: (int, int),
    base_reserve: (int, int),
    quote_reserve: (int, int),
    oracle_price: (int, int),
    k: (int, int),
    fee_retention: (int, int),
) -> Seq<char> {
    if base_target.0 <= 0 || quote_target.0 <= 0 {
        "targets must be > 0: B0="@ + decimal_to_string(base_target) + ", Q0="@
            + decimal_to_string(quote_target)
    } else if base_reserve.0 <= 0 || quote_reserve.0 <= 0 {
        "reserves must be > 0: B="@ + decimal_to_string(base_reserve) + ", Q="@
            + decimal_to_string(quote_reserve)
    } else if oracle_price.0 <= 0 {
        got("oracle_price must be > 0"@, oracle_price)
    } else if !unit_interval(k) {
        got("k must be in (0, 1]"@, k)
    } else {
        got("fee_retention must be in (0, 1]"@, fee_retention)
    }
}

impl DodoPmm {
    /// The output of selling `d` (post-fee) base for quote; `None` when a
    /// step overflows or a square root fails.
    pub open spec fn sell_base_spec(&self, d: (int, int)) -> Option<(int, int)> {
        let b0 = self.base_target@;
        let q0 = self.quote_target@;
        let b = self.base_reserve@;
        let q = self.quote_reserve@;
        let i = self.oracle_price@;
        let k = self.k@;
        match s_add(Some(b), Some(d)) {
            None => None,
            Some(bp) => if !value_lt(b0, bp) {
                let q_before = s_add(Some(q0), s_mul(Some(i), shortage_term(b0, b, k)));
                let q_after = s_add(Some(q0), s_mul(Some(i), shortage_term(b0, bp, k)));
                opt_max0(s_sub(q_before, q_after))
            } else if !value_lt(b, b0) {
                let c = s_mul(s_mul(Some(q0), Some(i)), s_sub(Some(bp), Some(b0)));
                opt_max0(s_sub(Some(q), s_sub(Some(q0), excess_root(q0, c, k))))
            } else {
                let out1 = s_mul(Some(i), shortage_term(b0, b, k));
                let c = s_mul(s_mul(Some(q0), Some(i)), s_sub(Some(bp), Some(b0)));
                opt_max0(s_add(out1, excess_root(q0, c, k)))
            },
        }
    }

    /// The output of selling `d` (post-fee) quote for base; `None` when a
    /// step overflows or a square root fails.
    pub open spec fn sell_quote_spec(&self, d: (int, int)) -> Option<(int, int)> {
        let b0 = self.base_target@;
        let q0 = self.quote_target@;
        let b = self.base_reserve@;
        let q = self.quote_reserve@;
        let i = self.oracle_price@;
        let k = self.k@;
        match s_add(Some(q), Some(d)) {
            None => None,
            Some(qp) => if !value_lt(q0, qp) {
                let b_before = s_add(Some(b0), s_div(shortage_term(q0, q, k), Some(i)));
                let b_after = s_add(Some(b0), s_div(shortage_term(q0, qp, k), Some(i)));
                opt_max0(s_sub(b_before, b_after))
            } else if !value_lt(q, q0) {
                let c = s_div(s_mul(Some(b0), s_sub(Some(qp), Some(q0))), Some(i));
                opt_max0(s_sub(Some(b), s_sub(Some(b0), excess_root(b0, c, k))))
            } else {
                let out1 = s_div(shortage_term(q0, q, k), Some(i));
                let c = s_div(s_mul(Some(b0), s_sub(Some(qp), Some(q0))), Some(i));
                opt_max0(s_add(out1, excess_root(b0, c, k)))
            },
        }
    }

    /// What `quote` computes.
    pub open spec fn quote_spec(&self, d: (int, int)) -> Result<(int, int), ErrKind> {
        if d.0 < 0 {
            Err(ErrKind::InvalidReserves)
        } else if d.0 == 0 {
            Ok((0, 0))
        } else {
            match s_mul(Some(d), Some(self.fee_retention@)) {
                None => Err(ErrKind::InvalidReserves),
                Some(e) => match if self.is_sell_base {
                    self.sell_base_spec(e)
                } else {
                    self.sell_quote_spec(e)
                } {
                    Some(v) => Ok(v),
                    None => Err(ErrKind::InvalidReserves),
                },
            }
        }
    }

    /// The search objective `quote(d) - P * d`, `-1e9` where the quote
    /// fails; `None` when the subtraction overflows.
    pub open spec fn profit_spec(&self, p: (int, int), d: (int, int)) -> Option<(int, int)> {
        match self.quote_spec(d) {
            Ok(out) => s_sub(Some(out), s_mul(Some(p), Some(d))),
            Err(_) => Some((-1000000000, 0)),
        }
    }

    /// `left` more golden-section steps from bracket `[a, b]` with interior
    /// points `x1 < x2` and their objective values `f1, f2`, each step
    /// reusing the surviving interior point; the final bracket.
    pub open spec fn golden_spec(
        &self,
        p: (int, int),
        a: (int, int),
        b: (int, int),
        x1: (int, int),
        x2: (int, int),
        f1: (int, int),
        f2: (int, int),
        left: nat,
    ) -> Option<((int, int), (int, int))>
        decreases left,
    {
        if left == 0 {
            Some((a, b))
        } else if value_lt(f1, f2) {
            match s_add(Some(x1), s_mul(Some(golden_ratio_inv_spec()), s_sub(Some(b), Some(x1)))) {
                None => None,
                Some(x2n) => match self.profit_spec(p, x2n) {
                    None => None,
                    Some(f2n) => self.golden_spec(p, x1, b, x2, x2n, f2, f2n, (left - 1) as nat),
                },
            }
        } else {
            match s_sub(Some(x2), s_mul(Some(golden_ratio_inv_spec()), s_sub(Some(x2), Some(a)))) {
                None => None,
                Some(x1n) => match self.profit_spec(p, x1n) {
                    None => None,
                    Some(f1n) => self.golden_spec(p, a, x2, x1n, x1, f1n, f1, (left - 1) as nat),
                },
            }
        }
    }

    /// The search's upper end: five times the input-side reserve, clipped to
    /// `max_size` (`max_size.min(..)`).
    pub open spec fn search_upper_spec(&self, max_size: Option<(int, int)>) -> Option<(int, int)> {
        match s_mul(
            Some(
                if self.is_sell_base {
                    self.base_reserve@
                } else {
                    self.quote_reserve@
                },
            ),
            Some((5, 0)),
        ) {
            None => None,
            Some(ms) => Some(
                match max_size {
                    Some(m) => if value_lt(ms, m) {
                        ms
                    } else {
                        m
                    },
                    None => ms,
                },
            ),
        }
    }

    /// What follows the search: the midpoint of the final bracket, clipped,
    /// and its net profit.
    pub open spec fn after_search(
        &self,
        g: Option<((int, int), (int, int))>,
        p: (int, int),
        fixed: (int, int),
        max_size: Option<(int, int)>,
    ) -> Result<((int, int), (int, int)), ErrKind> {
        match g {
            None => Err(ErrKind::InvalidReserves),
            Some((a, b)) => match s_div(s_add(Some(a), Some(b)), Some((2, 0))) {
                None => Err(ErrKind::InvalidReserves),
                Some(u) => conclude_clipped(
                    u,
                    max_size,
                    self.quote_spec(clip_hi(u, max_size)),
                    p,
                    fixed,
                ),
            },
        }
    }

    /// The quotes at the first `n` sample points of `[lo, lo + width]` that
    /// quote successfully.
    pub open spec fn samples(&self, lo: (int, int), width: (int, int), n: nat) -> Seq<(int, int)>
        decreases n,
    {
        if n == 0 {
            Seq::empty()
        } else {
            let prev = self.samples(lo, width, (n - 1) as nat);
            match sample_point(lo, width, n - 1) {
                Some(d) => match self.quote_spec(d) {
                    Ok(q) => prev.push(q),
                    Err(_) => prev,
                },
                None => prev,
            }
        }
    }

    /// What `check_unimodality` decides for `[lo, hi]`.
    pub open spec fn unimodality_spec(&self, lo: (int, int), hi: (int, int)) -> bool {
        if !value_lt(lo, hi) {
            true
        } else {
            match s_sub(Some(hi), Some(lo)) {
                None => false,
                Some(width) => concave_samples(
                    self.samples(lo, width, (UNIMODALITY_CHECK_SAMPLES + 1) as nat),
                ),
            }
        }
    }

    /// What `optimal_size` computes.
    pub open spec fn optimal_size_spec(
        &self,
        p: (int, int),
        fixed: (int, int),
        max_size: Option<(int, int)>,
    ) -> Result<((int, int), (int, int)), ErrKind> {
        if p.0 <= 0 {
            Err(ErrKind::InvalidReserves)
        } else {
            match self.quote_spec((1, 3)) {
                Err(e) => Err(e),
                Ok(t) => match s_div(Some(t), Some((1, 3))) {
                    None => Err(ErrKind::InvalidReserves),
                    Some(m) => if !value_lt(p, m) {
                        Err(ErrKind::NoArbitrageOpportunity)
                    } else {
                        match self.search_upper_spec(max_size) {
                            None => Err(ErrKind::InvalidReserves),
                            Some(upper) => {
                                let span = s_mul(
                                    Some(golden_ratio_inv_spec()),
                                    s_sub(Some(upper), Some((0, 0))),
                                );
                                match (s_sub(Some(upper), span), s_add(Some((0, 0)), span)) {
                                    (Some(x1), Some(x2)) => match (
                                        self.profit_spec(p, x1),
                                        self.profit_spec(p, x2),
                                    ) {
                                        (Some(f1), Some(f2)) => self.after_search(
                                            self.golden_spec(
                                                p,
                                                (0, 0),
                                                upper,
                                                x1,
                                                x2,
                                                f1,
                                                f2,
                                                DODO_GOLDEN_ITERATIONS as nat,
                                            ),
                                            p,
                                            fixed,
                                            max_size,
                                        ),
                                        _ => Err(ErrKind::InvalidReserves),
                                    },
                                    _ => Err(ErrKind::InvalidReserves),
                                }
                            },
                        }
                    },
                },
            }
        }
    }

    /// Constructs a pool. Returns `InvalidReserves` unless both targets and
    /// both reserves and the oracle price are `> 0`, and `k` and
    /// `fee_retention` lie in `(0, 1]`.
    pub fn new(
        base_target: Dec,
        quote_target: Dec,
        base_reserve: Dec,
        quote_reserve: Dec,
        oracle_price: Dec,
        k: Dec,
        fee_retention: Dec,
        is_sell_base: bool,
    ) -> (r: Result<DodoPmm, SizingError>)
        ensures
            r is Ok <==> base_target@.0 > 0 && quote_target@.0 > 0 && base_reserve@.0 > 0
                && quote_reserve@.0 > 0 && oracle_price@.0 > 0 && unit_interval(k@)
                && unit_interval(fee_retention@),
            r matches Ok(pool) ==> pool.base_target@ == base_target@ && pool.quote_target@
                == quote_target@ && pool.base_reserve@ == base_reserve@ && pool.quote_reserve@
                == quote_reserve@ && pool.oracle_price@ == oracle_price@ && pool.k@ == k@
                && pool.fee_retention@ == fee_retention@ && pool.is_sell_base == is_sell_base,
            r matches Err(e) ==> e@ == ErrKind::InvalidReserves && detail_of(e) == new_detail(
                base_target@,
                quote_target@,
                base_reserve@,
                quote_reserve@,
                oracle_price@,
                k@,
                fee_retention@,
            ),
    {
        if !base_target.is_positive() || !quote_target.is_positive() {
            return Err(
                invalid_text(
                    then_dec(
                        then_str(with_dec("targets must be > 0: B0=", &base_target), ", Q0="),
                        &quote_target,
                    ),
                ),
            );
        }
        if !base_reserve.is_positive() || !quote_reserve.is_positive() {
            return Err(
                invalid_text(
                    then_dec(
                        then_str(with_dec("reserves must be > 0: B=", &base_reserve), ", Q="),
                        &quote_reserve,
                    ),
                ),
            );
        }
        if !oracle_price.is_positive() {
            return Err(invalid_got("oracle_price must be > 0", &oracle_price));
        }
        if !k.is_positive() || dec_lt(&Dec::one(), &k) {
            return Err(invalid_got("k must be in (0, 1]", &k));
        }
        if !fee_retention.is_positive() || dec_lt(&Dec::one(), &fee_retention) {
            return Err(invalid_got("fee_retention must be in (0, 1]", &fee_retention));
        }
        Ok(
            DodoPmm {
                base_target,
                quote_target,
                base_reserve,
                quote_reserve,
                oracle_price,
                k,
                fee_retention,
                is_sell_base,
            },
        )
    }

    /// The unimodality check of the search interval: samples `quote` at 201
    /// evenly spaced points of `[lo, hi]` (skipping points where it fails)
    /// and returns `true` when no discrete second difference is positive,
    /// i.e. the sampled curve is concave or flat throughout. A sampled
    /// heuristic: a violation between two adjacent samples is not caught. An
    /// interval whose width or differences overflow is not confirmed.
    pub fn check_unimodality(&self, search_interval: (Dec, Dec)) -> (r: bool)
        ensures
            r == self.unimodality_spec(search_interval.0@, search_interval.1@),
    {
        let (lo, hi) = search_interval;
        if !dec_lt(&lo, &hi) {
            return true;
        }
        let width = match o_sub(some(&hi), some(&lo)) {
            Some(w) => w,
            None => return false,
        };
        let samples_dec = Dec::from_u64(UNIMODALITY_CHECK_SAMPLES as u64);
        let mut quote_samples: Vec<Dec> = Vec::new();
        let mut i: u32 = 0;
        while i <= UNIMODALITY_CHECK_SAMPLES
            invariant
                i <= UNIMODALITY_CHECK_SAMPLES + 1,
                samples_dec@ == (UNIMODALITY_CHECK_SAMPLES as int, 0int),
                quote_samples@.map_values(|d: Dec| d@) == self.samples(lo@, width@, i as nat),
            decreases UNIMODALITY_CHECK_SAMPLES + 1 - i,
        {
            let ghost prev = quote_samples@;
            let delta = o_add(
                some(&lo),
                o_mul(some(&width), o_div(Some(Dec::from_u64(i as u64)), some(&samples_dec))),
            );
            match delta {
                Some(d) => match self.quote(d) {
                    Ok(q) => {
                        quote_samples.push(q);
                        assert(quote_samples@.map_values(|d: Dec| d@) =~= prev.map_values(
                            |d: Dec| d@,
                        ).push(q@));
                    },
                    Err(_) => {},
                },
                None => {},
            }
            i = i + 1;
        }
        let ghost s = self.samples(lo@, width@, (UNIMODALITY_CHECK_SAMPLES + 1) as nat);
        assert(self.unimodality_spec(lo@, hi@) == concave_samples(s));
        assert(quote_samples@.map_values(|d: Dec| d@) == s);
        assert(s.len() == quote_samples@.len());
        assert forall|t: int| 0 <= t < s.len() implies #[trigger] s[t] == quote_samples@[t]@ by {
            assert(quote_samples@.map_values(|d: Dec| d@)[t] == quote_samples@[t]@);
        }
        let n = quote_samples.len();
        if n < 3 {
            return true;
        }
        let mut j: usize = 0;
        while j < n - 2
            invariant
                n == quote_samples.len(),
                n >= 3,
                self.unimodality_spec(search_interval.0@, search_interval.1@) == concave_samples(s),
                s.len() == n,
                j <= n - 2,
                forall|t: int| 0 <= t < s.len() ==> #[trigger] s[t] == quote_samples@[t]@,
                forall|t: int|
                    0 <= t < j ==> (#[trigger] second_diff(s, t) matches Some(v) && v.0 <= 0),
            decreases n - 2 - j,
        {
            let d2 = o_sub(
                o_sub(some(&quote_samples[j + 2]), some(&quote_samples[j + 1])),
                o_sub(some(&quote_samples[j + 1]), some(&quote_samples[j])),
            );
            assert(ov(d2) == second_diff(s, j as int));
            match d2 {
                Some(v) => {
                    if v.is_positive() {
                        assert(!(second_diff(s, j as int) matches Some(w) && w.0 <= 0));
                        assert(!concave_samples(s));
                        return false;
                    }
                },
                None => {
                    assert(!(second_diff(s, j as int) matches Some(w) && w.0 <= 0));
                    assert(!concave_samples(s));
                    return false;
                },
            }
            j = j + 1;
        }
        true
    }

    fn query_sell_base(&self, delta_base: &Dec) -> (r: Option<Dec>)
        ensures
            ov(r) == self.sell_base_spec(delta_base@),
    {
        let b0 = &self.base_target;
        let q0 = &self.quote_target;
        let b = &self.base_reserve;
        let q = &self.quote_reserve;
        let i = &self.oracle_price;
        let k = &self.k;
        let b_prime = match dec_add(b, delta_base) {
            Some(v) => v,
            None => return None,
        };
        if !dec_lt(b0, &b_prime) {
            let q_before = o_add(some(q0), o_mul(some(i), shortage(b0, b, k)));
            let q_after = o_add(some(q0), o_mul(some(i), shortage(b0, &b_prime, k)));
            max0_exec(o_sub(q_before, q_after))
        } else if !dec_lt(b, b0) {
            let c = o_mul(o_mul(some(q0), some(i)), o_sub(some(&b_prime), some(b0)));
            max0_exec(o_sub(some(q), o_sub(some(q0), root(q0, c, k))))
        } else {
            let out1 = o_mul(some(i), shortage(b0, b, k));
            let c = o_mul(o_mul(some(q0), some(i)), o_sub(some(&b_prime), some(b0)));
            max0_exec(o_add(out1, root(q0, c, k)))
        }
    }

    fn query_sell_quote(&self, delta_quote: &Dec) -> (r: Option<Dec>)
        ensures
            ov(r) == self.sell_quote_spec(delta_quote@),
    {
        let b0 = &self.base_target;
        let q0 = &self.quote_target;
        let b = &self.base_reserve;
        let q = &self.quote_reserve;
        let i = &self.oracle_price;
        let k = &self.k;
        let q_prime = match dec_add(q, delta_quote) {
            Some(v) => v,
            None => return None,
        };
        if !dec_lt(q0, &q_prime) {
            let b_before = o_add(some(b0), o_div(shortage(q0, q, k), some(i)));
            let b_after = o_add(some(b0), o_div(shortage(q0, &q_prime, k), some(i)));
            max0_exec(o_sub(b_before, b_after))
        } else if !dec_lt(q, q0) {
            let c = o_div(o_mul(some(b0), o_sub(some(&q_prime), some(q0))), some(i));
            max0_exec(o_sub(some(b), o_sub(some(b0), root(b0, c, k))))
        } else {
            let out1 = o_div(shortage(q0, q, k), some(i));
            let c = o_div(o_mul(some(b0), o_sub(some(&q_prime), some(q0))), some(i));
            max0_exec(o_add(out1, root(b0, c, k)))
        }
    }

    fn profit_at(&self, p: &Dec, d: &Dec) -> (r: Option<Dec>)
        ensures
            ov(r) == self.profit_spec(p@, d@),
    {
        match self.quote(d.copy()) {
            Ok(out) => o_sub(Some(out), o_mul(some(p), some(d))),
            Err(_) => Some(Dec::lit(-1000000000, 0)),
        }
    }
}

fn shortage(x0: &Dec, x: &Dec, k: &Dec) -> (r: Option<Dec>)
    ensures
        ov(r) == shortage_term(x0@, x@, k@),
{
    let d = match dec_sub(x0, x) {
        Some(d) => d,
        None => return None,
    };
    o_mul(some(&d), o_add(Some(Dec::one()), o_div(o_mul(some(k), some(&d)), some(x0))))
}

fn root(t0: &Dec, c: Option<Dec>, k: &Dec) -> (r: Option<Dec>)
    ensures
        ov(r) == excess_root(t0@, ov(c), k@),
{
    o_div(
        o_sub(
            o_sqrt(o_add(o_mul(some(t0), some(t0)), o_mul(o_mul(Some(Dec::from_u64(4)), some(k)), c))),
            some(t0),
        ),
        o_mul(Some(Dec::two()), some(k)),
    )
}

fn max0_exec(o: Option<Dec>) -> (r: Option<Dec>)
    ensures
        ov(r) == opt_max0(ov(o)),
{
    match o {
        Some(v) => Some(v.max(&Dec::zero())),
        None => None,
    }
}

impl PricingCurve for DodoPmm {
    /// The output for `delta_in`, charged the fee up front; `InvalidReserves`
    /// for a negative size, a negative discriminant or an overflow.
    fn quote(&self, delta_in: Dec) -> (r: Result<Dec, SizingError>)
        ensures
            rv(r) == self.quote_spec(delta_in@),
            delta_in@.0 < 0 ==> (r matches Err(e) && detail_of(e) == got(
                "delta_in must be >= 0"@,
                delta_in@,
            )),
    {
        if delta_in.is_negative() {
            return Err(invalid_got("delta_in must be >= 0", &delta_in));
        }
        if delta_in.is_zero() {
            return Ok(Dec::zero());
        }
        let effective_in = match o_mul(some(&delta_in), some(&self.fee_retention)) {
            Some(e) => e,
            None => return Err(overflow()),
        };
        let out = if self.is_sell_base {
            self.query_sell_base(&effective_in)
        } else {
            self.query_sell_quote(&effective_in)
        };
        match out {
            Some(v) => Ok(v),
            None => Err(invalid("negative discriminant or overflow in the DODO quote")),
        }
    }
}

impl SizingAlgorithm for DodoPmm {
    /// A fixed number of golden-section steps over
    /// `[0, min(max_size, 5 * input reserve)]`; `NoArbitrageOpportunity`
    /// unless the marginal price measured on a `0.001` trade exceeds `P`.
    fn optimal_size(&self, reference_price: Dec, constraints: SizingConstraints) -> (r: Result<
        SizingResult,
        SizingError,
    >)
        ensures
            srv(r) == self.optimal_size_spec(
                reference_price@,
                constraints.fixed_cost@,
                ov(constraints.max_size),
            ),
            r matches Ok(res) ==> (self.search_upper_spec(ov(constraints.max_size)) matches Some(u)
                && res.guarantee_tier == (GuaranteeTier::EmpiricallyValidated {
                unimodality_confirmed: self.unimodality_spec((0, 0), u),
            })) && res.iterations == Some(DODO_GOLDEN_ITERATIONS),
            reference_price@.0 <= 0 ==> (r matches Err(e) && e@ == ErrKind::InvalidReserves
                && detail_of(e) == got("reference_price must be > 0"@, reference_price@)),
    {
        if !reference_price.is_positive() {
            return Err(invalid_got("reference_price must be > 0", &reference_price));
        }
        let test_step = Dec::lit(1, 3);
        let test_out = match self.quote(test_step.copy()) {
            Ok(o) => o,
            Err(e) => return Err(e),
        };
        let marginal = match o_div(Some(test_out), some(&test_step)) {
            Some(m) => m,
            None => return Err(overflow()),
        };
        if !dec_lt(&reference_price, &marginal) {
            return Err(SizingError::NoArbitrageOpportunity);
        }
        let side = if self.is_sell_base {
            &self.base_reserve
        } else {
            &self.quote_reserve
        };
        let max_search = match o_mul(some(side), Some(Dec::from_u64(5))) {
            Some(m) => m,
            None => return Err(overflow()),
        };
        let upper = match &constraints.max_size {
            Some(m) => m.min(&max_search),
            None => max_search,
        };
        let ghost upper_v = upper@;
        let unimodality_confirmed = self.check_unimodality((Dec::zero(), upper.copy()));
        let span = o_mul(Some(golden_ratio_inv()), o_sub(some(&upper), Some(Dec::zero())));
        let span2 = match &span {
            Some(s) => Some(s.copy()),
            None => None,
        };
        let (mut x1, mut x2) = match (o_sub(some(&upper), span), o_add(Some(Dec::zero()), span2)) {
            (Some(u), Some(v)) => (u, v),
            _ => return Err(overflow()),
        };
        let (mut f1, mut f2) = match (
            self.profit_at(&reference_price, &x1),
            self.profit_at(&reference_price, &x2),
        ) {
            (Some(u), Some(v)) => (u, v),
            _ => return Err(overflow()),
        };
        let ghost p = reference_price@;
        let ghost fixed = constraints.fixed_cost@;
        let ghost max_size = ov(constraints.max_size);
        let mut a = Dec::zero();
        let mut b = upper;
        let mut left: u32 = DODO_GOLDEN_ITERATIONS;
        let ghost target = self.optimal_size_spec(p, fixed, max_size);
        loop
            invariant
                p == reference_price@,
                p.0 > 0,
                fixed == constraints.fixed_cost@,
                max_size == ov(constraints.max_size),
                self.search_upper_spec(max_size) == Some(upper_v),
                unimodality_confirmed == self.unimodality_spec((0, 0), upper_v),
                target == self.optimal_size_spec(p, fixed, max_size),
                target == self.after_search(
                    self.golden_spec(p, a@, b@, x1@, x2@, f1@, f2@, left as nat),
                    p,
                    fixed,
                    max_size,
                ),
            ensures
                target == self.after_search(Some((a@, b@)), p, fixed, max_size),
            decreases left,
        {
            if left == 0 {
                break ;
            }
            if dec_lt(&f1, &f2) {
                let x2n = match o_add(
                    some(&x1),
                    o_mul(Some(golden_ratio_inv()), o_sub(some(&b), some(&x1))),
                ) {
                    Some(v) => v,
                    None => return Err(overflow()),
                };
                let f2n = match self.profit_at(&reference_price, &x2n) {
                    Some(v) => v,
                    None => return Err(overflow()),
                };
                a = x1;
                x1 = x2;
                f1 = f2;
                x2 = x2n;
                f2 = f2n;
            } else {
                let x1n = match o_sub(
                    some(&x2),
                    o_mul(Some(golden_ratio_inv()), o_sub(some(&x2), some(&a))),
                ) {
                    Some(v) => v,
                    None => return Err(overflow()),
                };
                let f1n = match self.profit_at(&reference_price, &x1n) {
                    Some(v) => v,
                    None => return Err(overflow()),
                };
                b = x2;
                x2 = x1;
                f2 = f1;
                x1 = x1n;
                f1 = f1n;
            }
            left = left - 1;
        }
        let unconstrained_delta = match o_div(o_add(some(&a), some(&b)), Some(Dec::two())) {
            Some(u) => u,
            None => return Err(overflow()),
        };
        let (_, optimal_delta) = match NetProfit::restrict_domain(
            &constraints,
            (Dec::zero(), unconstrained_delta),
        ) {
            Ok(dd) => dd,
            Err(e) => return Err(e),
        };
        proof {
            crate::profit::lemma_above_zero(optimal_delta@);
        }
        let quoted = self.quote(optimal_delta.copy());
        conclude_exec(
            optimal_delta,
            quoted,
            &reference_price,
            &constraints.fixed_cost,
            GuaranteeTier::EmpiricallyValidated { unimodality_confirmed },
            Some(DODO_GOLDEN_ITERATIONS),
        )
    }
}

/// `W(x) = (x0 − x)·(10^28·x0 + k·(x0 − x))` in units of `10^-28`: the
/// shortage integral `(x0 − x)·(1 + k·(x0 − x)/x0)` scaled by `10^56·x0`.
pub open spec fn shortage_integral_units(x0: (int, int), x: (int, int), k: (int, int)) -> int {
    (units(x0) - units(x)) * (ten28() * units(x0) + units(k) * (units(x0) - units(x)))
}

/// Each decimal step of `q0 + i·(x0 − x)·(1 + k·(x0 − x)/x0)`, the quote
/// balance the PMM curve sets at base balance `x`, is exact.
pub open spec fn quote_level_exact(
    x0: (int, int),
    x: (int, int),
    k: (int, int),
    i: (int, int),
    q0: (int, int),
) -> bool {
    let t = s_sub(Some(x0), Some(x));
    let kt = s_mul(Some(k), t);
    let r = s_div(kt, Some(x0));
    let one = s_add(Some((1, 0)), r);
    let sh = s_mul(t, one);
    let is = s_mul(Some(i), sh);
    &&& exact_difference(t, x0, x)
    &&& exact_product(kt, k, t->0)
    &&& exact_quotient(r, kt->0, x0)
    &&& exact_sum(one, (1, 0), r->0)
    &&& exact_product(sh, t->0, one->0)
    &&& exact_product(is, i, sh->0)
    &&& exact_sum(s_add(Some(q0), is), q0, is->0)
}

/// The quote balance at `x`, where its steps are exact, in units, scaled
/// by `10^56·x0`: `q0` plus `i` times the shortage integral.
proof fn lemma_quote_level(x0: (int, int), x: (int, int), k: (int, int), i: (int, int), q0: (int, int))
    requires
        quote_level_exact(x0, x, k, i, q0),
        units(x0) > 0,
    ensures
        ({
            let is = s_mul(Some(i), shortage_term(x0, x, k))->0;
            &&& s_add(Some(q0), Some(is)) is Some
            &&& units(s_add(Some(q0), Some(is))->0) == units(q0) + units(is)
            &&& units(is) * (ten28() * ten28() * units(x0)) == units(i) * shortage_integral_units(
                x0,
                x,
                k,
            )
        }),
{
    let tt = ten28();
    let b = units(x0);
    let t = s_sub(Some(x0), Some(x));
    let kt = s_mul(Some(k), t);
    let r = s_div(kt, Some(x0));
    let one = s_add(Some((1, 0)), r);
    let sh = s_mul(t, one);
    let is = s_mul(Some(i), sh);
    assert(sh == shortage_term(x0, x, k));
    let nt = units(t->0);
    let nkt = units(kt->0);
    let nr = units(r->0);
    let none = units(one->0);
    let nsh = units(sh->0);
    let nis = units(is->0);
    let nk = units(k);
    let ni = units(i);
    lemma_units_scale(0);
    assert(units((1, 0)) == tt) by {
        lemma_units_scale(0);
        assert(crate::decimal::pow10(28 - 0) == tt);
    }
    assert(nt == b - units(x));
    assert(nkt * tt == nk * nt);
    assert(nr * b == nkt * tt);
    assert(none == tt + nr);
    assert(nsh * tt == nt * none);
    assert(nis * tt == ni * nsh);
    // nsh · tt · b == nt · (tt · b + nk · nt)
    assert(nsh * tt * b == nt * (tt * b + nr * b)) by (nonlinear_arith)
        requires
            nsh * tt == nt * none,
            none == tt + nr,
    ;
    assert(nt * (tt * b + nr * b) == nt * (tt * b + nk * nt)) by (nonlinear_arith)
        requires
            nr * b == nkt * tt,
            nkt * tt == nk * nt,
    ;
    let w = shortage_integral_units(x0, x, k);
    assert(w == nt * (tt * b + nk * nt));
    assert(nis * (tt * tt * b) == ni * (nsh * tt * b)) by (nonlinear_arith)
        requires
            nis * tt == ni * nsh,
    ;
}

/// Selling base while the pool stays at or below its base target pays the
/// PMM price integral: where each decimal step is exact, selling `d > 0`
/// from base balance `B` (with `B + d <= B0`) pays exactly
/// `i·(S(B) − S(B + d))`, `S(x) = (B0 − x)·(1 + k·(B0 − x)/B0)`, which is
/// positive: the quote balance falls as base comes in.
pub proof fn lemma_selling_base_below_target_pays_the_integral(pool: DodoPmm, d: (int, int))
    requires
        d.0 > 0,
        pool.base_target@.0 > 0,
        pool.k@.0 >= 0,
        pool.oracle_price@.0 > 0,
        scaled(d),
        scaled(pool.base_target@),
        scaled(pool.base_reserve@),
        scaled(pool.k@),
        scaled(pool.oracle_price@),
        scaled(pool.quote_target@),
        exact_sum(s_add(Some(pool.base_reserve@), Some(d)), pool.base_reserve@, d),
        crate::decimal::value_le(s_add(Some(pool.base_reserve@), Some(d))->0, pool.base_target@),
        quote_level_exact(
            pool.base_target@,
            pool.base_reserve@,
            pool.k@,
            pool.oracle_price@,
            pool.quote_target@,
        ),
        quote_level_exact(
            pool.base_target@,
            s_add(Some(pool.base_reserve@), Some(d))->0,
            pool.k@,
            pool.oracle_price@,
            pool.quote_target@,
        ),
        exact_difference(
            s_sub(
                s_add(
                    Some(pool.quote_target@),
                    s_mul(
                        Some(pool.oracle_price@),
                        shortage_term(pool.base_target@, pool.base_reserve@, pool.k@),
                    ),
                ),
                s_add(
                    Some(pool.quote_target@),
                    s_mul(
                        Some(pool.oracle_price@),
                        shortage_term(
                            pool.base_target@,
                            s_add(Some(pool.base_reserve@), Some(d))->0,
                            pool.k@,
                        ),
                    ),
                ),
            ),
            s_add(
                Some(pool.quote_target@),
                s_mul(
                    Some(pool.oracle_price@),
                    shortage_term(pool.base_target@, pool.base_reserve@, pool.k@),
                ),
            )->0,
            s_add(
                Some(pool.quote_target@),
                s_mul(
                    Some(pool.oracle_price@),
                    shortage_term(
                        pool.base_target@,
                        s_add(Some(pool.base_reserve@), Some(d))->0,
                        pool.k@,
                    ),
                ),
            )->0,
        ),
    ensures
        pool.sell_base_spec(d) matches Some(out) && out.0 > 0 && units(out) * (ten28() * ten28()
            * units(pool.base_target@)) == units(pool.oracle_price@) * (shortage_integral_units(
            pool.base_target@,
            pool.base_reserve@,
            pool.k@,
        ) - shortage_integral_units(
            pool.base_target@,
            s_add(Some(pool.base_reserve@), Some(d))->0,
            pool.k@,
        )),
{
    let b0 = pool.base_target@;
    let b = pool.base_reserve@;
    let k = pool.k@;
    let i = pool.oracle_price@;
    let q0 = pool.quote_target@;
    let bp = s_add(Some(b), Some(d))->0;
    let tt = ten28();
    lemma_units_scale(0);
    lemma_units_order(b0, (0, 0));
    lemma_units_order(d, (0, 0));
    lemma_units_order(k, (0, 0));
    lemma_units_order(i, (0, 0));
    lemma_units_order(b0, bp);
    lemma_quote_level(b0, b, k, i, q0);
    lemma_quote_level(b0, bp, k, i, q0);
    let qb = s_add(Some(q0), s_mul(Some(i), shortage_term(b0, b, k)))->0;
    let qa = s_add(Some(q0), s_mul(Some(i), shortage_term(b0, bp, k)))->0;
    let diff = s_sub(Some(qb), Some(qa))->0;
    let isb = s_mul(Some(i), shortage_term(b0, b, k))->0;
    let isa = s_mul(Some(i), shortage_term(b0, bp, k))->0;
    let bb = units(b0);
    let nb = units(b);
    let nbp = units(bp);
    let nd = units(d);
    let nk = units(k);
    let ni = units(i);
    assert(nbp == nb + nd);
    assert(nbp <= bb);
    let ta = bb - nbp;
    let tb = bb - nb;
    assert(tb == ta + nd);
    let wb = shortage_integral_units(b0, b, k);
    let wa = shortage_integral_units(b0, bp, k);
    assert(wb == tb * (tt * bb + nk * tb));
    assert(wa == ta * (tt * bb + nk * ta));
    assert(wb - wa > 0) by (nonlinear_arith)
        requires
            wb == tb * (tt * bb + nk * tb),
            wa == ta * (tt * bb + nk * ta),
            tb == ta + nd,
            nd > 0,
            ta >= 0,
            tt > 0,
            bb > 0,
            nk >= 0,
    ;
    let den = tt * tt * bb;
    assert(den > 0) by (nonlinear_arith)
        requires
            den == tt * tt * bb,
            tt > 0,
            bb > 0,
    ;
    assert(units(diff) == units(isb) - units(isa));
    assert(units(diff) * den == ni * (wb - wa)) by (nonlinear_arith)
        requires
            units(diff) == units(isb) - units(isa),
            units(isb) * den == ni * wb,
            units(isa) * den == ni * wa,
    ;
    assert(units(diff) > 0) by (nonlinear_arith)
        requires
            units(diff) * den == ni * (wb - wa),
            ni > 0,
            wb - wa > 0,
            den > 0,
    ;
    lemma_units_order(diff, (0, 0));
    assert(!crate::decimal::value_lt(diff, (0, 0)));
    assert(!crate::decimal::value_lt(b0, bp));
}

/// Each decimal step of `b0 + (x0 − x)·(1 + k·(x0 − x)/x0) / i`, the base
/// balance the PMM curve sets at quote balance `x`, is exact.
pub open spec fn base_level_exact(
    x0: (int, int),
    x: (int, int),
    k: (int, int),
    i: (int, int),
    b0: (int, int),
) -> bool {
    let t = s_sub(Some(x0), Some(x));
    let kt = s_mul(Some(k), t);
    let r = s_div(kt, Some(x0));
    let one = s_add(Some((1, 0)), r);
    let sh = s_mul(t, one);
    let v = s_div(sh, Some(i));
    &&& exact_difference(t, x0, x)
    &&& exact_product(kt, k, t->0)
    &&& exact_quotient(r, kt->0, x0)
    &&& exact_sum(one, (1, 0), r->0)
    &&& exact_product(sh, t->0, one->0)
    &&& exact_quotient(v, sh->0, i)
    &&& exact_sum(s_add(Some(b0), v), b0, v->0)
}

/// The base balance at `x`, where its steps are exact: `b0` plus the
/// shortage integral over `i`, scaled by `i·x0`.
proof fn lemma_base_level(x0: (int, int), x: (int, int), k: (int, int), i: (int, int), b0: (int, int))
    requires
        base_level_exact(x0, x, k, i, b0),
        units(x0) > 0,
    ensures
        ({
            let v = s_div(shortage_term(x0, x, k), Some(i))->0;
            &&& s_add(Some(b0), Some(v)) is Some
            &&& units(s_add(Some(b0), Some(v))->0) == units(b0) + units(v)
            &&& units(v) * (units(i) * units(x0)) == shortage_integral_units(x0, x, k)
        }),
{
    let tt = ten28();
    let b = units(x0);
    let t = s_sub(Some(x0), Some(x));
    let kt = s_mul(Some(k), t);
    let r = s_div(kt, Some(x0));
    let one = s_add(Some((1, 0)), r);
    let sh = s_mul(t, one);
    let v = s_div(sh, Some(i));
    assert(sh == shortage_term(x0, x, k));
    let nt = units(t->0);
    let nkt = units(kt->0);
    let nr = units(r->0);
    let none = units(one->0);
    let nsh = units(sh->0);
    let nv = units(v->0);
    let nk = units(k);
    let ni = units(i);
    lemma_units_scale(0);
    assert(units((1, 0)) == tt) by {
        assert(crate::decimal::pow10(28 - 0) == tt);
    }
    assert(nsh * tt * b == nt * (tt * b + nr * b)) by (nonlinear_arith)
        requires
            nsh * tt == nt * none,
            none == tt + nr,
    ;
    assert(nt * (tt * b + nr * b) == nt * (tt * b + nk * nt)) by (nonlinear_arith)
        requires
            nr * b == nkt * tt,
            nkt * tt == nk * nt,
    ;
    assert(nv * (ni * b) == nsh * tt * b) by (nonlinear_arith)
        requires
            nv * ni == nsh * tt,
    ;
}

/// Selling quote while the pool stays at or below its quote target pays
/// the PMM integral in base: where each decimal step is exact, selling
/// `d > 0` from quote balance `Q` (with `Q + d <= Q0`) pays exactly
/// `(S(Q) − S(Q + d)) / i`, `S(x) = (Q0 − x)·(1 + k·(Q0 − x)/Q0)`, which is
/// positive.
pub proof fn lemma_selling_quote_below_target_pays_the_integral(pool: DodoPmm, d: (int, int))
    requires
        d.0 > 0,
        pool.quote_target@.0 > 0,
        pool.k@.0 >= 0,
        pool.oracle_price@.0 > 0,
        scaled(d),
        scaled(pool.quote_target@),
        scaled(pool.quote_reserve@),
        scaled(pool.k@),
        scaled(pool.oracle_price@),
        scaled(pool.base_target@),
        exact_sum(s_add(Some(pool.quote_reserve@), Some(d)), pool.quote_reserve@, d),
        crate::decimal::value_le(s_add(Some(pool.quote_reserve@), Some(d))->0, pool.quote_target@),
        base_level_exact(
            pool.quote_target@,
            pool.quote_reserve@,
            pool.k@,
            pool.oracle_price@,
            pool.base_target@,
        ),
        base_level_exact(
            pool.quote_target@,
            s_add(Some(pool.quote_reserve@), Some(d))->0,
            pool.k@,
            pool.oracle_price@,
            pool.base_target@,
        ),
        exact_difference(
            s_sub(
                s_add(
                    Some(pool.base_target@),
                    s_div(
                        shortage_term(pool.quote_target@, pool.quote_reserve@, pool.k@),
                        Some(pool.oracle_price@),
                    ),
                ),
                s_add(
                    Some(pool.base_target@),
                    s_div(
                        shortage_term(
                            pool.quote_target@,
                            s_add(Some(pool.quote_reserve@), Some(d))->0,
                            pool.k@,
                        ),
                        Some(pool.oracle_price@),
                    ),
                ),
            ),
            s_add(
                Some(pool.base_target@),
                s_div(
                    shortage_term(pool.quote_target@, pool.quote_reserve@, pool.k@),
                    Some(pool.oracle_price@),
                ),
            )->0,
            s_add(
                Some(pool.base_target@),
                s_div(
                    shortage_term(
                        pool.quote_target@,
                        s_add(Some(pool.quote_reserve@), Some(d))->0,
                        pool.k@,
                    ),
                    Some(pool.oracle_price@),
                ),
            )->0,
        ),
    ensures
        pool.sell_quote_spec(d) matches Some(out) && out.0 > 0 && units(out) * (units(
            pool.oracle_price@,
        ) * units(pool.quote_target@)) == shortage_integral_units(
            pool.quote_target@,
            pool.quote_reserve@,
            pool.k@,
        ) - shortage_integral_units(
            pool.quote_target@,
            s_add(Some(pool.quote_reserve@), Some(d))->0,
            pool.k@,
        ),
{
    let q0 = pool.quote_target@;
    let q = pool.quote_reserve@;
    let k = pool.k@;
    let i = pool.oracle_price@;
    let b0 = pool.base_target@;
    let qp = s_add(Some(q), Some(d))->0;
    let tt = ten28();
    lemma_units_scale(0);
    lemma_units_order(q0, (0, 0));
    lemma_units_order(d, (0, 0));
    lemma_units_order(k, (0, 0));
    lemma_units_order(i, (0, 0));
    lemma_units_order(q0, qp);
    lemma_base_level(q0, q, k, i, b0);
    lemma_base_level(q0, qp, k, i, b0);
    let bb = s_add(Some(b0), s_div(shortage_term(q0, q, k), Some(i)))->0;
    let ba = s_add(Some(b0), s_div(shortage_term(q0, qp, k), Some(i)))->0;
    let diff = s_sub(Some(bb), Some(ba))->0;
    let vb = s_div(shortage_term(q0, q, k), Some(i))->0;
    let va = s_div(shortage_term(q0, qp, k), Some(i))->0;
    let n0 = units(q0);
    let nq = units(q);
    let nqp = units(qp);
    let nd = units(d);
    let nk = units(k);
    let ni = units(i);
    let ta = n0 - nqp;
    let tb = n0 - nq;
    let wb = shortage_integral_units(q0, q, k);
    let wa = shortage_integral_units(q0, qp, k);
    assert(wb - wa > 0) by (nonlinear_arith)
        requires
            wb == tb * (tt * n0 + nk * tb),
            wa == ta * (tt * n0 + nk * ta),
            tb == ta + nd,
            nd > 0,
            ta >= 0,
            tt > 0,
            n0 > 0,
            nk >= 0,
    ;
    let den = ni * n0;
    assert(den > 0) by (nonlinear_arith)
        requires
            den == ni * n0,
            ni > 0,
            n0 > 0,
    ;
    assert(units(diff) * den == wb - wa) by (nonlinear_arith)
        requires
            units(diff) == units(vb) - units(va),
            units(vb) * den == wb,
            units(va) * den == wa,
    ;
    assert(units(diff) > 0) by (nonlinear_arith)
        requires
            units(diff) * den == wb - wa,
            wb - wa > 0,
            den > 0,
    ;
    lemma_units_order(diff, (0, 0));
    assert(!crate::decimal::value_lt(diff, (0, 0)));
    assert(!crate::decimal::value_lt(q0, qp));
}

} // verus!
