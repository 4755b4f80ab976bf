//! Curve CryptoSwap (v2, dynamic invariant) for two assets: Newton's method
//! on the invariant, and golden-section sizing.
//!
//! The invariant in `D` over balances `x0, x1` with amplification `A` and
//! smoothing `gamma` is
//! `K D gamma + D = A gamma K0 (x0 + x1) + D^3 / (4 x0 x1)`, where
//! `K0 = min(4 x0 x1 / D^2, 1)` and `K = A K0 (gamma / (gamma + 1 - K0))^2`.
use crate::curves::cpmm::valid_fee;
use crate::curves::dodo_pmm::max0;
use crate::curves::pmm::{golden_ratio_inv, golden_ratio_inv_spec};
use crate::curves::stableswap::{abs_v, newton_tolerance, tol};
use crate::decimal::{
    dec_add, dec_lt, o_add, o_div, o_mul, o_sqrt, o_sub, ov, s_add, s_div, s_mul, s_sqrt, s_sub,
    some, value_lt, Dec,
};
use crate::decimal::decimal_to_string;
use crate::text::nat_text;
use crate::error::{detail_of, got, invalid, invalid_got, invalid_text, overflow, rv, then_dec, then_str, with_count, with_dec, ErrKind, SizingError};
use crate::profit::{clip_hi, conclude_clipped, conclude_exec, srv, NetProfit};
use crate::traits::{PricingCurve, SizingAlgorithm};
use crate::types::{GuaranteeTier, SizingConstraints, SizingResult};
use vstd::prelude::*;

verus! {

/// Maximum iterations of each Newton solve.
pub const NEWTON_MAX_ITERATIONS: u32 = 255;

/// Number of golden-section iterations `optimal_size` performs.
pub const CRYPTO_GOLDEN_ITERATIONS: u32 = 64;

/// The outcome of one Newton step.
pub enum NewtonStep<T> {
    /// The iterate has converged to this value.
    Converged(T),
    /// The numerical derivative vanished: the iteration cannot go on.
    Stalled,
    /// A step overflowed or divided by zero.
    Failed,
    /// Go on from this iterate.
    Continue(T),
}

/// The view of a Newton step.
pub open spec fn step_view(s: NewtonStep<Dec>) -> NewtonStep<(int, int)> {
    match s {
        NewtonStep::Converged(v) => NewtonStep::Converged(v@),
        NewtonStep::Stalled => NewtonStep::Stalled,
        NewtonStep::Failed => NewtonStep::Failed,
        NewtonStep::Continue(v) => NewtonStep::Continue(v@),
    }
}

/// The finite-difference step `max(v * 0.0001, 0.0001)`.
pub open spec fn newton_eps(v: (int, int)) -> Option<(int, int)> {
    match s_mul(Some(v), Some((1, 4))) {
        None => None,
        Some(w) => Some(
            if value_lt(w, (1, 4)) {
                (1, 4)
            } else {
                w
            },
        ),
    }
}

/// `max(min(v, hi), 1e-6)`.
pub open spec fn clamp_y(v: (int, int), hi: (int, int)) -> (int, int) {
    let m = if value_lt(hi, v) {
        hi
    } else {
        v
    };
    if value_lt(m, (1, 6)) {
        (1, 6)
    } else {
        m
    }
}

/// A two-asset CryptoSwap pool.
#[derive(Debug)]
pub struct CurveCryptoSwap {
    /// Token balances `[x0, x1]`.
    pub balances: [Dec; 2],
    /// Amplification `A`.
    pub amplification_a: Dec,
    /// Smoothing parameter `gamma`.
    pub gamma: Dec,
    /// Fee retention `f` in `(0, 1]`.
    pub fee_retention: Dec,
    /// Index of the input token (0 or 1).
    pub input_index: usize,
}

impl Clone for CurveCryptoSwap {
    fn clone(&self) -> (r: CurveCryptoSwap)
        ensures
            r.balances@[0]@ == self.balances@[0]@ && r.balances@[1]@ == self.balances@[1]@
                && r.amplification_a@ == self.amplification_a@ && r.gamma@ == self.gamma@
                && r.fee_retention@ == self.fee_retention@ && r.input_index == self.input_index,
    {
        CurveCryptoSwap {
            balances: [self.balances[0].copy(), self.balances[1].copy()],
            amplification_a: self.amplification_a.copy(),
            gamma: self.gamma.copy(),
            fee_retention: self.fee_retention.copy(),
            input_index: self.input_index,
        }
    }
}

/// The detail `CurveCryptoSwap::new` reports: that of its first failing
/// check.
pub open spec fn new_detail(
    b0: (int, int),
    b1: (int, int),
    amplification_a: (int, int),
    gamma: (int, int),
    fee_retention: (int, int),
    input_index: usize,
) -> Seq<char> {
    if b0.0 <= 0 || b1.0 <= 0 {
        "balances must be > 0, got ["@ + decimal_to_string(b0) + ", "@ + decimal_to_string(b1)
            + "]"@
    } else if amplification_a.0 <= 0 {
        got("amplification_a must be > 0"@, amplification_a)
    } else if gamma.0 <= 0 {
        got("gamma must be > 0"@, gamma)
    } else if !valid_fee(fee_retention) {
        got("fee_retention must be in (0, 1]"@, fee_retention)
    } else {
        "input_index must be 0 or 1, got "@ + nat_text(input_index as nat)
    }
}

impl CurveCryptoSwap {
    /// The invariant's residual `left - right` at `(D, x0, x1)`; `None` when
    /// a step overflows or divides by zero.
    pub open spec fn residual_spec(&self, d: (int, int), x0: (int, int), x1: (int, int)) -> Option<
        (int, int),
    > {
        let a = Some(self.amplification_a@);
        let gamma = Some(self.gamma@);
        let sum_x = s_add(Some(x0), Some(x1));
        let prod_4x = s_mul(s_mul(Some((4, 0)), Some(x0)), Some(x1));
        let k0 = match s_div(prod_4x, s_mul(Some(d), Some(d))) {
            Some(v) => Some(
                if value_lt((1, 0), v) {
                    (1, 0)
                } else {
                    v
                },
            ),
            None => None,
        };
        let g = s_div(gamma, s_sub(s_add(gamma, Some((1, 0))), k0));
        let k = s_mul(s_mul(s_mul(a, k0), g), g);
        let left = s_add(s_mul(s_mul(k, Some(d)), gamma), Some(d));
        let right = s_add(
            s_mul(s_mul(s_mul(a, gamma), k0), sum_x),
            s_div(s_mul(s_mul(Some(d), Some(d)), Some(d)), prod_4x),
        );
        s_sub(left, right)
    }

    /// One Newton step on `D` from iterate `d`.
    pub open spec fn d_step(&self, d: (int, int)) -> NewtonStep<(int, int)> {
        let x0 = self.balances@[0]@;
        let x1 = self.balances@[1]@;
        match self.residual_spec(d, x0, x1) {
            None => NewtonStep::Failed,
            Some(res) => if value_lt(abs_v(res), tol()) {
                NewtonStep::Converged(d)
            } else {
                match newton_eps(d) {
                    None => NewtonStep::Failed,
                    Some(eps) => {
                        let res_eps = match s_add(Some(d), Some(eps)) {
                            Some(de) => self.residual_spec(de, x0, x1),
                            None => None,
                        };
                        match s_div(s_sub(res_eps, Some(res)), Some(eps)) {
                            None => NewtonStep::Failed,
                            Some(deriv) => if deriv.0 == 0 {
                                NewtonStep::Stalled
                            } else {
                                match s_sub(Some(d), s_div(Some(res), Some(deriv))) {
                                    None => NewtonStep::Failed,
                                    Some(next) => match s_sub(Some(next), Some(d)) {
                                        None => NewtonStep::Failed,
                                        Some(diff) => if value_lt(abs_v(diff), tol()) {
                                            NewtonStep::Converged(next)
                                        } else {
                                            NewtonStep::Continue(next)
                                        },
                                    },
                                }
                            },
                        }
                    },
                }
            },
        }
    }

    /// Newton's method on `D` from `d` with `left` iterations to go.
    /// `DidNotConverge` when the derivative vanishes (with the steps taken)
    /// or no step converges within `NEWTON_MAX_ITERATIONS`.
    pub open spec fn newton_d(&self, d: (int, int), left: nat) -> Result<(int, int), ErrKind>
        decreases left,
    {
        if left == 0 {
            Err(ErrKind::DidNotConverge(NEWTON_MAX_ITERATIONS))
        } else {
            match self.d_step(d) {
                NewtonStep::Converged(v) => Ok(v),
                NewtonStep::Stalled => Err(ErrKind::DidNotConverge((NEWTON_MAX_ITERATIONS + 1 - left) as u32)),
                NewtonStep::Failed => Err(ErrKind::InvalidReserves),
                NewtonStep::Continue(next) => self.newton_d(next, (left - 1) as nat),
            }
        }
    }

    /// What `compute_d` computes: Newton's method from `2 sqrt(x0 x1)`.
    pub open spec fn compute_d_spec(&self) -> Result<(int, int), ErrKind> {
        match s_mul(
            Some((2, 0)),
            s_sqrt(s_mul(Some(self.balances@[0]@), Some(self.balances@[1]@))),
        ) {
            None => Err(ErrKind::InvalidReserves),
            Some(d0) => self.newton_d(d0, NEWTON_MAX_ITERATIONS as nat),
        }
    }

    /// The residual at `D = d` with the input balance `x_in` and the output
    /// balance `y`, each at its own index.
    pub open spec fn residual_y(&self, d: (int, int), x_in: (int, int), y: (int, int)) -> Option<
        (int, int),
    > {
        if self.input_index == 0 {
            self.residual_spec(d, x_in, y)
        } else {
            self.residual_spec(d, y, x_in)
        }
    }

    /// One Newton step on the output balance from iterate `y`.
    pub open spec fn y_step(&self, d: (int, int), x_in: (int, int), max_y: (int, int), y: (int, int)) -> NewtonStep<
        (int, int),
    > {
        match self.residual_y(d, x_in, y) {
            None => NewtonStep::Failed,
            Some(res) => if value_lt(abs_v(res), tol()) {
                NewtonStep::Converged(y)
            } else {
                match newton_eps(y) {
                    None => NewtonStep::Failed,
                    Some(eps) => {
                        let res_eps = match s_add(Some(y), Some(eps)) {
                            Some(ye) => self.residual_y(d, x_in, ye),
                            None => None,
                        };
                        match s_div(s_sub(res_eps, Some(res)), Some(eps)) {
                            None => NewtonStep::Failed,
                            Some(deriv) => if deriv.0 == 0 {
                                NewtonStep::Stalled
                            } else {
                                match s_sub(Some(y), s_div(Some(res), Some(deriv))) {
                                    None => NewtonStep::Failed,
                                    Some(next) => {
                                        let c = clamp_y(next, max_y);
                                        match s_sub(Some(c), Some(y)) {
                                            None => NewtonStep::Failed,
                                            Some(diff) => if value_lt(abs_v(diff), tol()) {
                                                NewtonStep::Converged(c)
                                            } else {
                                                NewtonStep::Continue(c)
                                            },
                                        }
                                    },
                                }
                            },
                        }
                    },
                }
            },
        }
    }

    /// Newton's method on the output balance from `y` with `left`
    /// iterations to go.
    pub open spec fn newton_y(
        &self,
        d: (int, int),
        x_in: (int, int),
        max_y: (int, int),
        y: (int, int),
        left: nat,
    ) -> Result<(int, int), ErrKind>
        decreases left,
    {
        if left == 0 {
            Err(ErrKind::DidNotConverge(NEWTON_MAX_ITERATIONS))
        } else {
            match self.y_step(d, x_in, max_y, y) {
                NewtonStep::Converged(v) => Ok(v),
                NewtonStep::Stalled => Err(ErrKind::DidNotConverge((NEWTON_MAX_ITERATIONS + 1 - left) as u32)),
                NewtonStep::Failed => Err(ErrKind::InvalidReserves),
                NewtonStep::Continue(next) => self.newton_y(d, x_in, max_y, next, (left - 1) as nat),
            }
        }
    }

    /// The balance on the output side.
    pub open spec fn out_balance(&self) -> (int, int) {
        if self.input_index == 0 {
            self.balances@[1]@
        } else {
            self.balances@[0]@
        }
    }

    /// What `solve_y` computes: Newton's method on the output balance from
    /// `min(D^2 / (4 x_in), y_out)`, each iterate clamped to
    /// `[1e-6, D^2 / (4 x_in)]`.
    pub open spec fn solve_y_spec(&self, d: (int, int), x_in: (int, int)) -> Result<(int, int), ErrKind> {
        match s_div(s_mul(Some(d), Some(d)), s_mul(Some((4, 0)), Some(x_in))) {
            None => Err(ErrKind::InvalidReserves),
            Some(max_y) => {
                let y0 = if value_lt(self.out_balance(), max_y) {
                    self.out_balance()
                } else {
                    max_y
                };
                self.newton_y(d, x_in, max_y, y0, NEWTON_MAX_ITERATIONS as nat)
            },
        }
    }

    /// What `quote` computes.
    pub open spec fn quote_spec(&self, delta: (int, int)) -> Result<(int, int), ErrKind> {
        if delta.0 < 0 {
            Err(ErrKind::InvalidReserves)
        } else if delta.0 == 0 {
            Ok((0, 0))
        } else if self.input_index > 1 {
            Err(ErrKind::InvalidReserves)
        } else {
            match self.compute_d_spec() {
                Err(e) => Err(e),
                Ok(d) => match s_add(
                    Some(self.balances@[self.input_index as int]@),
                    s_mul(Some(delta), Some(self.fee_retention@)),
                ) {
                    None => Err(ErrKind::InvalidReserves),
                    Some(x_in) => match self.solve_y_spec(d, x_in) {
                        Err(e) => Err(e),
                        Ok(new_y) => match s_sub(Some(self.out_balance()), Some(new_y)) {
                            None => Err(ErrKind::InvalidReserves),
                            Some(o) => Ok(max0(o)),
                        },
                    },
                },
            }
        }
    }

    /// The search objective `quote(d) - P * d`, `-1e9` where the quote
    /// fails; `None` when the subtraction overflows.
    pub open spec fn profit_spec(&self, p: (int, int), d: (int, int)) -> Option<(int, int)> {
        match self.quote_spec(d) {
            Ok(out) => s_sub(Some(out), s_mul(Some(p), Some(d))),
            Err(_) => Some((-1000000000, 0)),
        }
    }

    /// `left` more golden-section steps from bracket `[a, b]` with interior
    /// points `x1 < x2` and their objective values `f1, f2`, each step
    /// reusing the surviving interior point; the final bracket.
    pub open spec fn golden_spec(
        &self,
        p: (int, int),
        a: (int, int),
        b: (int, int),
        x1: (int, int),
        x2: (int, int),
        f1: (int, int),
        f2: (int, int),
        left: nat,
    ) -> Option<((int, int), (int, int))>
        decreases left,
    {
        if left == 0 {
            Some((a, b))
        } else if value_lt(f1, f2) {
            match s_add(Some(x1), s_mul(Some(golden_ratio_inv_spec()), s_sub(Some(b), Some(x1)))) {
                None => None,
                Some(x2n) => match self.profit_spec(p, x2n) {
                    None => None,
                    Some(f2n) => self.golden_spec(p, x1, b, x2, x2n, f2, f2n, (left - 1) as nat),
                },
            }
        } else {
            match s_sub(Some(x2), s_mul(Some(golden_ratio_inv_spec()), s_sub(Some(x2), Some(a)))) {
                None => None,
                Some(x1n) => match self.profit_spec(p, x1n) {
                    None => None,
                    Some(f1n) => self.golden_spec(p, a, x2, x1n, x1, f1n, f1, (left - 1) as nat),
                },
            }
        }
    }

    /// What follows the search: the midpoint of the final bracket, clipped,
    /// and its net profit.
    pub open spec fn after_search(
        &self,
        g: Option<((int, int), (int, int))>,
        p: (int, int),
        fixed: (int, int),
        max_size: Option<(int, int)>,
    ) -> Result<((int, int), (int, int)), ErrKind> {
        match g {
            None => Err(ErrKind::InvalidReserves),
            Some((a, b)) => match s_div(s_add(Some(a), Some(b)), Some((2, 0))) {
                None => Err(ErrKind::InvalidReserves),
                Some(u) => conclude_clipped(
                    u,
                    max_size,
                    self.quote_spec(clip_hi(u, max_size)),
                    p,
                    fixed,
                ),
            },
        }
    }

    /// The search's upper end: twice the input balance, clipped to
    /// `max_size` (`max_size.min(..)`).
    pub open spec fn search_upper_spec(&self, max_size: Option<(int, int)>) -> Option<(int, int)> {
        match s_mul(Some(self.balances@[self.input_index as int]@), Some((2, 0))) {
            None => None,
            Some(ms) => Some(
                match max_size {
                    Some(m) => if value_lt(ms, m) {
                        ms
                    } else {
                        m
                    },
                    None => ms,
                },
            ),
        }
    }

    /// What `optimal_size` computes.
    pub open spec fn optimal_size_spec(
        &self,
        p: (int, int),
        fixed: (int, int),
        max_size: Option<(int, int)>,
    ) -> Result<((int, int), (int, int)), ErrKind> {
        if p.0 <= 0 {
            Err(ErrKind::InvalidReserves)
        } else {
            match self.quote_spec((1, 3)) {
                Err(e) => Err(e),
                Ok(t) => match s_div(Some(t), Some((1, 3))) {
                    None => Err(ErrKind::InvalidReserves),
                    Some(m) => if !value_lt(p, m) {
                        Err(ErrKind::NoArbitrageOpportunity)
                    } else {
                        match self.search_upper_spec(max_size) {
                            None => Err(ErrKind::InvalidReserves),
                            Some(upper) => {
                                let span = s_mul(
                                    Some(golden_ratio_inv_spec()),
                                    s_sub(Some(upper), Some((0, 0))),
                                );
                                match (s_sub(Some(upper), span), s_add(Some((0, 0)), span)) {
                                    (Some(x1), Some(x2)) => match (
                                        self.profit_spec(p, x1),
                                        self.profit_spec(p, x2),
                                    ) {
                                        (Some(f1), Some(f2)) => self.after_search(
                                            self.golden_spec(
                                                p,
                                                (0, 0),
                                                upper,
                                                x1,
                                                x2,
                                                f1,
                                                f2,
                                                CRYPTO_GOLDEN_ITERATIONS as nat,
                                            ),
                                            p,
                                            fixed,
                                            max_size,
                                        ),
                                        _ => Err(ErrKind::InvalidReserves),
                                    },
                                    _ => Err(ErrKind::InvalidReserves),
                                }
                            },
                        }
                    },
                },
            }
        }
    }

    /// Constructs a pool. Returns `InvalidReserves` unless both balances,
    /// `A` and `gamma` are `> 0`, `fee_retention` lies in `(0, 1]`, and
    /// `input_index` is 0 or 1.
    pub fn new(
        balances: [Dec; 2],
        amplification_a: Dec,
        gamma: Dec,
        fee_retention: Dec,
        input_index: usize,
    ) -> (r: Result<CurveCryptoSwap, SizingError>)
        ensures
            r is Ok <==> balances@[0]@.0 > 0 && balances@[1]@.0 > 0 && amplification_a@.0 > 0
                && gamma@.0 > 0 && valid_fee(fee_retention@) && input_index <= 1,
            r matches Ok(pool) ==> pool.balances@[0]@ == balances@[0]@ && pool.balances@[1]@
                == balances@[1]@ && pool.amplification_a@ == amplification_a@ && pool.gamma@
                == gamma@ && pool.fee_retention@ == fee_retention@ && pool.input_index
                == input_index,
            r matches Err(e) ==> e@ == ErrKind::InvalidReserves && detail_of(e) == new_detail(
                balances@[0]@,
                balances@[1]@,
                amplification_a@,
                gamma@,
                fee_retention@,
                input_index,
            ),
    {
        if !balances[0].is_positive() || !balances[1].is_positive() {
            return Err(
                invalid_text(
                    then_str(
                        then_dec(
                            then_str(with_dec("balances must be > 0, got [", &balances[0]), ", "),
                            &balances[1],
                        ),
                        "]",
                    ),
                ),
            );
        }
        if !amplification_a.is_positive() {
            return Err(invalid_got("amplification_a must be > 0", &amplification_a));
        }
        if !gamma.is_positive() {
            return Err(invalid_got("gamma must be > 0", &gamma));
        }
        if !fee_retention.is_positive() || dec_lt(&Dec::one(), &fee_retention) {
            return Err(invalid_got("fee_retention must be in (0, 1]", &fee_retention));
        }
        if input_index > 1 {
            return Err(invalid_text(with_count("input_index must be 0 or 1, got ", input_index)));
        }
        Ok(CurveCryptoSwap { balances, amplification_a, gamma, fee_retention, input_index })
    }

    fn invariant_residual(&self, d: &Dec, x0: &Dec, x1: &Dec) -> (r: Option<Dec>)
        ensures
            ov(r) == self.residual_spec(d@, x0@, x1@),
    {
        let sum_x = match dec_add(x0, x1) {
            Some(v) => v,
            None => return None,
        };
        let prod_4x = match o_mul(o_mul(Some(Dec::from_u64(4)), some(x0)), some(x1)) {
            Some(v) => v,
            None => return None,
        };
        let k0 = match o_div(some(&prod_4x), o_mul(some(d), some(d))) {
            Some(v) => v.min(&Dec::one()),
            None => return None,
        };
        let g = match o_div(
            some(&self.gamma),
            o_sub(o_add(some(&self.gamma), Some(Dec::one())), some(&k0)),
        ) {
            Some(v) => v,
            None => return None,
        };
        let k = o_mul(o_mul(o_mul(some(&self.amplification_a), some(&k0)), some(&g)), some(&g));
        let left = o_add(o_mul(o_mul(k, some(d)), some(&self.gamma)), some(d));
        let right = o_add(
            o_mul(o_mul(o_mul(some(&self.amplification_a), some(&self.gamma)), some(&k0)), some(&sum_x)),
            o_div(o_mul(o_mul(some(d), some(d)), some(d)), some(&prod_4x)),
        );
        o_sub(left, right)
    }

    fn d_step_exec(&self, d: &Dec) -> (r: NewtonStep<Dec>)
        ensures
            step_view(r) == self.d_step(d@),
    {
        let x0 = &self.balances[0];
        let x1 = &self.balances[1];
        let res = match self.invariant_residual(d, x0, x1) {
            Some(v) => v,
            None => return NewtonStep::Failed,
        };
        if dec_lt(&res.abs(), &newton_tolerance()) {
            return NewtonStep::Converged(d.copy());
        }
        let eps = match eps_exec(d) {
            Some(e) => e,
            None => return NewtonStep::Failed,
        };
        let res_eps = match dec_add(d, &eps) {
            Some(de) => self.invariant_residual(&de, x0, x1),
            None => None,
        };
        let deriv = match o_div(o_sub(res_eps, some(&res)), some(&eps)) {
            Some(v) => v,
            None => return NewtonStep::Failed,
        };
        if deriv.is_zero() {
            return NewtonStep::Stalled;
        }
        let next = match o_sub(some(d), o_div(some(&res), some(&deriv))) {
            Some(v) => v,
            None => return NewtonStep::Failed,
        };
        let diff = match o_sub(some(&next), some(d)) {
            Some(v) => v,
            None => return NewtonStep::Failed,
        };
        if dec_lt(&diff.abs(), &newton_tolerance()) {
            NewtonStep::Converged(next)
        } else {
            NewtonStep::Continue(next)
        }
    }

    /// Solves the invariant for `D` by Newton's method with a numerical
    /// derivative, from `2 sqrt(x0 x1)`, for at most `NEWTON_MAX_ITERATIONS`
    /// steps; `DidNotConverge` when they run out or the derivative vanishes,
    /// `InvalidReserves` when a step overflows or divides by zero.
    pub fn compute_d(&self) -> (r: Result<Dec, SizingError>)
        ensures
            rv(r) == self.compute_d_spec(),
    {
        let mut d = match o_mul(
            Some(Dec::two()),
            o_sqrt(o_mul(some(&self.balances[0]), some(&self.balances[1]))),
        ) {
            Some(v) => v,
            None => return Err(invalid("failed to compute sqrt(x0 * x1)")),
        };
        let ghost target = self.compute_d_spec();
        let mut left: u32 = NEWTON_MAX_ITERATIONS;
        loop
            invariant
                target == self.compute_d_spec(),
                left <= NEWTON_MAX_ITERATIONS,
                target == self.newton_d(d@, left as nat),
            decreases left,
        {
            if left == 0 {
                return Err(SizingError::DidNotConverge { iterations_attempted: NEWTON_MAX_ITERATIONS });
            }
            match self.d_step_exec(&d) {
                NewtonStep::Converged(v) => return Ok(v),
                NewtonStep::Stalled => {
                    return Err(
                        SizingError::DidNotConverge {
                            iterations_attempted: NEWTON_MAX_ITERATIONS + 1 - left,
                        },
                    );
                },
                NewtonStep::Failed => return Err(overflow()),
                NewtonStep::Continue(next) => {
                    d = next;
                },
            }
            left = left - 1;
        }
    }

    fn residual_y_exec(&self, d: &Dec, x_in: &Dec, y: &Dec) -> (r: Option<Dec>)
        ensures
            ov(r) == self.residual_y(d@, x_in@, y@),
    {
        if self.input_index == 0 {
            self.invariant_residual(d, x_in, y)
        } else {
            self.invariant_residual(d, y, x_in)
        }
    }

    fn y_step_exec(&self, d: &Dec, x_in: &Dec, max_y: &Dec, y: &Dec) -> (r: NewtonStep<Dec>)
        ensures
            step_view(r) == self.y_step(d@, x_in@, max_y@, y@),
    {
        let res = match self.residual_y_exec(d, x_in, y) {
            Some(v) => v,
            None => return NewtonStep::Failed,
        };
        if dec_lt(&res.abs(), &newton_tolerance()) {
            return NewtonStep::Converged(y.copy());
        }
        let eps = match eps_exec(y) {
            Some(e) => e,
            None => return NewtonStep::Failed,
        };
        let res_eps = match dec_add(y, &eps) {
            Some(ye) => self.residual_y_exec(d, x_in, &ye),
            None => None,
        };
        let deriv = match o_div(o_sub(res_eps, some(&res)), some(&eps)) {
            Some(v) => v,
            None => return NewtonStep::Failed,
        };
        if deriv.is_zero() {
            return NewtonStep::Stalled;
        }
        let next = match o_sub(some(y), o_div(some(&res), some(&deriv))) {
            Some(v) => v,
            None => return NewtonStep::Failed,
        };
        let clamped = next.min(max_y).max(&Dec::lit(1, 6));
        let diff = match o_sub(some(&clamped), some(y)) {
            Some(v) => v,
            None => return NewtonStep::Failed,
        };
        if dec_lt(&diff.abs(), &newton_tolerance()) {
            NewtonStep::Converged(clamped)
        } else {
            NewtonStep::Continue(clamped)
        }
    }

    fn solve_y(&self, d: &Dec, new_x_in: &Dec) -> (r: Result<Dec, SizingError>)
        requires
            self.input_index <= 1,
        ensures
            rv(r) == self.solve_y_spec(d@, new_x_in@),
    {
        let max_y = match o_div(o_mul(some(d), some(d)), o_mul(Some(Dec::from_u64(4)), some(new_x_in))) {
            Some(v) => v,
            None => return Err(overflow()),
        };
        let out_balance = if self.input_index == 0 {
            &self.balances[1]
        } else {
            &self.balances[0]
        };
        let mut y = max_y.min(out_balance);
        let ghost target = self.solve_y_spec(d@, new_x_in@);
        let mut left: u32 = NEWTON_MAX_ITERATIONS;
        loop
            invariant
                target == self.solve_y_spec(d@, new_x_in@),
                left <= NEWTON_MAX_ITERATIONS,
                target == self.newton_y(d@, new_x_in@, max_y@, y@, left as nat),
            decreases left,
        {
            if left == 0 {
                return Err(SizingError::DidNotConverge { iterations_attempted: NEWTON_MAX_ITERATIONS });
            }
            match self.y_step_exec(d, new_x_in, &max_y, &y) {
                NewtonStep::Converged(v) => return Ok(v),
                NewtonStep::Stalled => {
                    return Err(
                        SizingError::DidNotConverge {
                            iterations_attempted: NEWTON_MAX_ITERATIONS + 1 - left,
                        },
                    );
                },
                NewtonStep::Failed => return Err(overflow()),
                NewtonStep::Continue(next) => {
                    y = next;
                },
            }
            left = left - 1;
        }
    }

    fn profit_at(&self, p: &Dec, d: &Dec) -> (r: Option<Dec>)
        ensures
            ov(r) == self.profit_spec(p@, d@),
    {
        match self.quote(d.copy()) {
            Ok(out) => o_sub(Some(out), o_mul(some(p), some(d))),
            Err(_) => Some(Dec::lit(-1000000000, 0)),
        }
    }
}

fn eps_exec(v: &Dec) -> (r: Option<Dec>)
    ensures
        ov(r) == newton_eps(v@),
{
    match o_mul(some(v), Some(Dec::lit(1, 4))) {
        Some(w) => Some(w.max(&Dec::lit(1, 4))),
        None => None,
    }
}

impl PricingCurve for CurveCryptoSwap {
    /// The output for `delta_in`: solve `D`, add the post-fee input to its
    /// balance, solve the new output balance, and hand out the drop in it
    /// (never negative). `InvalidReserves` for a negative size, an input
    /// index other than 0 or 1, or a failed solve.
    fn quote(&self, delta_in: Dec) -> (r: Result<Dec, SizingError>)
        ensures
            rv(r) == self.quote_spec(delta_in@),
            delta_in@.0 < 0 ==> (r matches Err(e) && detail_of(e) == got(
                "delta_in must be >= 0"@,
                delta_in@,
            )),
    {
        if delta_in.is_negative() {
            return Err(invalid_got("delta_in must be >= 0", &delta_in));
        }
        if delta_in.is_zero() {
            return Ok(Dec::zero());
        }
        if self.input_index > 1 {
            return Err(invalid("input_index must be 0 or 1"));
        }
        let d = match self.compute_d() {
            Ok(d) => d,
            Err(e) => return Err(e),
        };
        let new_x_in = match o_add(
            some(&self.balances[self.input_index]),
            o_mul(some(&delta_in), some(&self.fee_retention)),
        ) {
            Some(v) => v,
            None => return Err(overflow()),
        };
        let new_y = match self.solve_y(&d, &new_x_in) {
            Ok(y) => y,
            Err(e) => return Err(e),
        };
        let old_y = if self.input_index == 0 {
            &self.balances[1]
        } else {
            &self.balances[0]
        };
        match o_sub(some(old_y), some(&new_y)) {
            Some(o) => Ok(o.max(&Dec::zero())),
            None => Err(overflow()),
        }
    }
}

impl SizingAlgorithm for CurveCryptoSwap {
    /// A fixed number of golden-section steps over
    /// `[0, min(max_size, 2 * input balance)]`; `NoArbitrageOpportunity`
    /// unless the marginal price measured on a `0.001` trade exceeds `P`.
    fn optimal_size(&self, reference_price: Dec, constraints: SizingConstraints) -> (r: Result<
        SizingResult,
        SizingError,
    >)
        ensures
            srv(r) == self.optimal_size_spec(
                reference_price@,
                constraints.fixed_cost@,
                ov(constraints.max_size),
            ),
            r matches Ok(res) ==> res.guarantee_tier == (GuaranteeTier::NumericallyGuaranteed {
                convergence_conditions_met: true,
            }) && res.iterations == Some(CRYPTO_GOLDEN_ITERATIONS),
            reference_price@.0 <= 0 ==> (r matches Err(e) && e@ == ErrKind::InvalidReserves
                && detail_of(e) == got("reference_price must be > 0"@, reference_price@)),
    {
        if !reference_price.is_positive() {
            return Err(invalid_got("reference_price must be > 0", &reference_price));
        }
        let test_step = Dec::lit(1, 3);
        let test_out = match self.quote(test_step.copy()) {
            Ok(o) => o,
            Err(e) => return Err(e),
        };
        let marginal = match o_div(Some(test_out), some(&test_step)) {
            Some(m) => m,
            None => return Err(overflow()),
        };
        if !dec_lt(&reference_price, &marginal) {
            return Err(SizingError::NoArbitrageOpportunity);
        }
        let max_search = match o_mul(some(&self.balances[self.input_index]), Some(Dec::two())) {
            Some(m) => m,
            None => return Err(overflow()),
        };
        let upper = match &constraints.max_size {
            Some(m) => m.min(&max_search),
            None => max_search,
        };
        let span = o_mul(Some(golden_ratio_inv()), o_sub(some(&upper), Some(Dec::zero())));
        let span2 = match &span {
            Some(s) => Some(s.copy()),
            None => None,
        };
        let (mut x1, mut x2) = match (o_sub(some(&upper), span), o_add(Some(Dec::zero()), span2)) {
            (Some(u), Some(v)) => (u, v),
            _ => return Err(overflow()),
        };
        let (mut f1, mut f2) = match (
            self.profit_at(&reference_price, &x1),
            self.profit_at(&reference_price, &x2),
        ) {
            (Some(u), Some(v)) => (u, v),
            _ => return Err(overflow()),
        };
        let ghost p = reference_price@;
        let ghost fixed = constraints.fixed_cost@;
        let ghost max_size = ov(constraints.max_size);
        let mut a = Dec::zero();
        let mut b = upper;
        let mut left: u32 = CRYPTO_GOLDEN_ITERATIONS;
        let ghost target = self.optimal_size_spec(p, fixed, max_size);
        loop
            invariant
                p == reference_price@,
                p.0 > 0,
                fixed == constraints.fixed_cost@,
                max_size == ov(constraints.max_size),
                target == self.optimal_size_spec(p, fixed, max_size),
                target == self.after_search(
                    self.golden_spec(p, a@, b@, x1@, x2@, f1@, f2@, left as nat),
                    p,
                    fixed,
                    max_size,
                ),
            ensures
                target == self.after_search(Some((a@, b@)), p, fixed, max_size),
            decreases left,
        {
            if left == 0 {
                break ;
            }
            if dec_lt(&f1, &f2) {
                let x2n = match o_add(
                    some(&x1),
                    o_mul(Some(golden_ratio_inv()), o_sub(some(&b), some(&x1))),
                ) {
                    Some(v) => v,
                    None => return Err(overflow()),
                };
                let f2n = match self.profit_at(&reference_price, &x2n) {
                    Some(v) => v,
                    None => return Err(overflow()),
                };
                a = x1;
                x1 = x2;
                f1 = f2;
                x2 = x2n;
                f2 = f2n;
            } else {
                let x1n = match o_sub(
                    some(&x2),
                    o_mul(Some(golden_ratio_inv()), o_sub(some(&x2), some(&a))),
                ) {
                    Some(v) => v,
                    None => return Err(overflow()),
                };
                let f1n = match self.profit_at(&reference_price, &x1n) {
                    Some(v) => v,
                    None => return Err(overflow()),
                };
                b = x2;
                x2 = x1;
                f2 = f1;
                x1 = x1n;
                f1 = f1n;
            }
            left = left - 1;
        }
        let unconstrained_delta = match o_div(o_add(some(&a), some(&b)), Some(Dec::two())) {
            Some(u) => u,
            None => return Err(overflow()),
        };
        let (_, optimal_delta) = match NetProfit::restrict_domain(
            &constraints,
            (Dec::zero(), unconstrained_delta),
        ) {
            Ok(dd) => dd,
            Err(e) => return Err(e),
        };
        proof {
            crate::profit::lemma_above_zero(optimal_delta@);
        }
        let quoted = self.quote(optimal_delta.copy());
        conclude_exec(
            optimal_delta,
            quoted,
            &reference_price,
            &constraints.fixed_cost,
            GuaranteeTier::NumericallyGuaranteed { convergence_conditions_met: true },
            Some(CRYPTO_GOLDEN_ITERATIONS),
        )
    }
}

/// `y` is where Newton's iteration on the output balance, against the
/// invariant at `D = d` with input balance `x_in`, stopped: some step from
/// an iterate converged to it (the residual there was within tolerance, or
/// the step to it was).
pub open spec fn settles_at(pool: CurveCryptoSwap, d: (int, int), x_in: (int, int), y: (int, int)) -> bool {
    exists|max_y: (int, int), from: (int, int)|
        #[trigger] pool.y_step(d, x_in, max_y, from) == NewtonStep::<(int, int)>::Converged(y)
}

/// A Newton run on the output balance ends at a point where it settled.
proof fn lemma_newton_y_settles(
    pool: CurveCryptoSwap,
    d: (int, int),
    x_in: (int, int),
    max_y: (int, int),
    y: (int, int),
    left: nat,
)
    requires
        pool.newton_y(d, x_in, max_y, y, left) is Ok,
    ensures
        settles_at(pool, d, x_in, pool.newton_y(d, x_in, max_y, y, left)->Ok_0),
    decreases left,
{
    match pool.y_step(d, x_in, max_y, y) {
        NewtonStep::Continue(next) => {
            lemma_newton_y_settles(pool, d, x_in, max_y, next, (left - 1) as nat);
        },
        _ => {},
    }
}

/// A quote adds the fee-adjusted input to the balance at `input_index`:
/// for a positive size, the pool's new output-side balance is a point where
/// Newton's iteration settled on the invariant (at the pool's own `D`) with
/// input balance `balances[input_index] + f·delta`, and the quote is the
/// drop from `balances[1 - input_index]` to it (zero if it rose).
pub proof fn lemma_quote_moves_the_input_balance(pool: CurveCryptoSwap, delta: (int, int))
    requires
        delta.0 > 0,
        pool.quote_spec(delta) is Ok,
    ensures
        pool.input_index <= 1,
        pool.compute_d_spec() is Ok,
        s_add(
            Some(pool.balances@[pool.input_index as int]@),
            s_mul(Some(delta), Some(pool.fee_retention@)),
        ) is Some,
        exists|y: (int, int)|
            settles_at(
                pool,
                pool.compute_d_spec()->Ok_0,
                s_add(
                    Some(pool.balances@[pool.input_index as int]@),
                    s_mul(Some(delta), Some(pool.fee_retention@)),
                )->0,
                y,
            ) && (#[trigger] s_sub(Some(pool.balances@[1 - pool.input_index as int]@), Some(y)) matches Some(
                o,
            ) && pool.quote_spec(delta) == Ok::<(int, int), ErrKind>(max0(o))),
{
    let d = pool.compute_d_spec()->Ok_0;
    let x_in = s_add(
        Some(pool.balances@[pool.input_index as int]@),
        s_mul(Some(delta), Some(pool.fee_retention@)),
    )->0;
    let max_y = s_div(s_mul(Some(d), Some(d)), s_mul(Some((4, 0)), Some(x_in)))->0;
    let y0 = if value_lt(pool.out_balance(), max_y) {
        pool.out_balance()
    } else {
        max_y
    };
    lemma_newton_y_settles(pool, d, x_in, max_y, y0, NEWTON_MAX_ITERATIONS as nat);
    let y = pool.solve_y_spec(d, x_in)->Ok_0;
    assert(s_sub(Some(pool.balances@[1 - pool.input_index as int]@), Some(y)) is Some);
}

} // verus!
