//! StableSwap: Newton's method on Curve's invariant, and a bracket-and-bisect
//! search on a finite-difference estimate of `Profit'`.
//!
//! Index convention: `reserves[0]` is the input asset, `reserves[1]` the
//! output asset, the others are held fixed.
use crate::curves::cpmm::valid_fee;
use crate::decimal::{
    dec_div, dec_lt, dec_mul, dec_powu, dec_sqrt, o_add, o_div, o_mul, o_sub, ov, s_add, s_div,
    s_mul, s_sub, some, value_lt, Dec,
};
use crate::decimal::{decimal_powu, decimal_sqrt};
use crate::curves::balancer_weighted::{all_positive, first_nonpositive, lemma_first_nonpositive};
use crate::decimal::decimal_to_string;
use crate::text::nat_text;
use crate::error::{detail_of, got, invalid, invalid_got, invalid_text, overflow, then_dec, then_str, with_count, ErrKind, SizingError};
use crate::profit::{clip_hi, conclude_clipped, conclude_exec, srv, NetProfit};
use crate::traits::{PricingCurve, SizingAlgorithm};
use crate::types::{GuaranteeTier, SizingConstraints, SizingResult};
use vstd::prelude::*;

verus! {

/// Maximum Newton's-method iterations, matching Curve's own contract.
pub const MAX_NEWTON_ITERATIONS: u32 = 255;

/// Relative convergence tolerance for Newton's method, 1e-6.
pub open spec fn tol() -> (int, int) {
    (1, 6)
}

/// Relative convergence tolerance for Newton's method, 1e-6.
pub fn newton_tolerance() -> (r: Dec)
    ensures
        r@ == tol(),
{
    Dec::lit(1, 6)
}

/// `|v|` on views.
pub open spec fn abs_v(v: (int, int)) -> (int, int) {
    (if v.0 < 0 {
        -v.0
    } else {
        v.0
    }, v.1)
}

/// `|new - old| / |old|` (just `|new - old|` when `old` is zero).
pub open spec fn relative_change(new: (int, int), old: (int, int)) -> Option<(int, int)> {
    match s_sub(Some(new), Some(old)) {
        None => None,
        Some(diff) => if old.0 == 0 {
            Some(abs_v(diff))
        } else {
            s_div(Some(abs_v(diff)), Some(abs_v(old)))
        },
    }
}

/// The sum of the first `n` views, added from zero.
pub open spec fn sum_spec(rs: Seq<Dec>, n: nat) -> Option<(int, int)>
    decreases n,
{
    if n == 0 {
        Some((0, 0))
    } else {
        s_add(sum_spec(rs, (n - 1) as nat), Some(rs[n - 1]@))
    }
}

/// `D_P` folded over the first `m` reserves: `D_P <- D_P * D / (n * r)`.
pub open spec fn dp_spec(d: (int, int), rs: Seq<Dec>, n_dec: (int, int), m: nat) -> Option<(int, int)>
    decreases m,
{
    if m == 0 {
        Some(d)
    } else {
        s_div(s_mul(dp_spec(d, rs, n_dec, (m - 1) as nat), Some(d)), s_mul(Some(n_dec), Some(rs[m - 1]@)))
    }
}

/// An `n`-asset StableSwap pool.
#[derive(Debug, PartialEq)]
pub struct StableSwap {
    /// Reserves of all `n` assets.
    pub reserves: Vec<Dec>,
    /// Amplification coefficient ("A").
    pub amplification: Dec,
    /// Fee retention, e.g. `0.997` for a 30bps fee.
    pub fee_retention: Dec,
}

/// Copies a vector of decimals.
pub fn copy_vec(v: &[Dec]) -> (r: Vec<Dec>)
    ensures
        r@.len() == v@.len(),
        forall|i: int| 0 <= i < v@.len() ==> #[trigger] r@[i]@ == v@[i]@,
        r@ == v@,
{
    let mut r: Vec<Dec> = Vec::new();
    let mut i: usize = 0;
    while i < v.len()
        invariant
            i <= v@.len(),
            r@.len() == i,
            forall|j: int| 0 <= j < i ==> #[trigger] r@[j]@ == v@[j]@,
        decreases v@.len() - i,
    {
        r.push(v[i].copy());
        i = i + 1;
    }
    assert forall|j: int| 0 <= j < v@.len() implies r@[j] == v@[j] by {
        Dec::lemma_ext(r@[j], v@[j]);
    }
    assert(r@ =~= v@);
    r
}

impl Clone for StableSwap {
    fn clone(&self) -> (r: StableSwap)
        ensures
            r.reserves@.len() == self.reserves@.len(),
            forall|i: int| 0 <= i < self.reserves@.len() ==> #[trigger] r.reserves@[i]@ == self.reserves@[i]@,
            r.amplification@ == self.amplification@,
            r.fee_retention@ == self.fee_retention@,
    {
        StableSwap {
            reserves: copy_vec(&self.reserves),
            amplification: self.amplification.copy(),
            fee_retention: self.fee_retention.copy(),
        }
    }
}

/// The detail `StableSwap::new` reports: that of its first failing check.
pub open spec fn new_detail(reserves: Seq<Dec>, amplification: (int, int), fee_retention: (int, int)) -> Seq<char> {
    if reserves.len() < 2 {
        "reserves must contain at least 2 assets, got "@ + nat_text(reserves.len())
    } else if !all_positive(reserves) {
        "reserves["@ + nat_text(first_nonpositive(reserves) as nat) + "] must be > 0, got "@
            + decimal_to_string(reserves[first_nonpositive(reserves)]@)
    } else if value_lt(amplification, (1, 0)) {
        got("amplification must be >= 1"@, amplification)
    } else {
        got("fee_retention must be in (0, 1]"@, fee_retention)
    }
}

impl StableSwap {
    /// Every reserve is positive.
    pub open spec fn reserves_positive(&self) -> bool {
        forall|i: int| 0 <= i < self.reserves@.len() ==> #[trigger] self.reserves@[i]@.0 > 0
    }

    /// The regularity conditions: `A >= 1` and every reserve positive.
    pub open spec fn regular(&self) -> bool {
        !value_lt(self.amplification@, (1, 0)) && self.reserves_positive()
    }

    /// `n` as a decimal.
    pub open spec fn n_dec(&self) -> (int, int) {
        (self.reserves@.len() as int, 0)
    }

    /// One Newton step of `solve_d` from `d`, as iteration number
    /// `256 - left`; the converged `(D, iteration)`.
    pub open spec fn newton_d_spec(&self, n_n: (int, int), s: (int, int), d: (int, int), left: nat) -> Result<
        ((int, int), u32),
        ErrKind,
    >
        decreases left,
    {
        if left == 0 {
            Err(ErrKind::DidNotConverge(MAX_NEWTON_ITERATIONS))
        } else {
            let it = (256 - left) as u32;
            let n = self.n_dec();
            let a = self.amplification@;
            match dp_spec(d, self.reserves@, n, self.reserves@.len()) {
                None => Err(ErrKind::InvalidReserves),
                Some(dp) => match s_mul(
                    s_add(s_mul(s_mul(Some(a), Some(n_n)), Some(s)), s_mul(Some(dp), Some(n))),
                    Some(d),
                ) {
                    None => Err(ErrKind::InvalidReserves),
                    Some(num) => match s_add(
                        s_mul(s_sub(s_mul(Some(a), Some(n_n)), Some((1, 0))), Some(d)),
                        s_mul(s_add(Some(n), Some((1, 0))), Some(dp)),
                    ) {
                        None => Err(ErrKind::InvalidReserves),
                        Some(den) => if den.0 == 0 {
                            Err(ErrKind::DidNotConverge(it))
                        } else {
                            match s_div(Some(num), Some(den)) {
                                None => Err(ErrKind::InvalidReserves),
                                Some(d_next) => match relative_change(d_next, d) {
                                    None => Err(ErrKind::InvalidReserves),
                                    Some(rel) => if value_lt(rel, tol()) {
                                        Ok((d_next, it))
                                    } else {
                                        self.newton_d_spec(n_n, s, d_next, (left - 1) as nat)
                                    },
                                },
                            }
                        },
                    },
                },
            }
        }
    }

    /// What `solve_d` computes: `(D, iterations)`.
    pub open spec fn solve_d_spec(&self) -> Result<((int, int), u32), ErrKind> {
        match decimal_powu(self.n_dec(), self.reserves@.len() as int) {
            None => Err(ErrKind::InvalidReserves),
            Some(n_n) => match sum_spec(self.reserves@, self.reserves@.len()) {
                None => Err(ErrKind::InvalidReserves),
                Some(s) => self.newton_d_spec(n_n, s, s, MAX_NEWTON_ITERATIONS as nat),
            },
        }
    }

    /// The `x_k` used by `get_y`: the new input reserve at index 0, the
    /// reserve itself elsewhere.
    pub open spec fn x_k(&self, k: int, new_in: (int, int)) -> (int, int) {
        if k == 0 {
            new_in
        } else {
            self.reserves@[k]@
        }
    }

    /// `(S', c)` folded over the first `m` reserves other than index 1:
    /// `S' += x_k`, `c <- c * D / (x_k * n)`.
    pub open spec fn sc_spec(&self, d: (int, int), new_in: (int, int), m: nat) -> Option<
        ((int, int), (int, int)),
    >
        decreases m,
    {
        if m == 0 {
            Some(((0, 0), d))
        } else {
            match self.sc_spec(d, new_in, (m - 1) as nat) {
                None => None,
                Some((s_, c)) => if m - 1 == 1 {
                    Some((s_, c))
                } else {
                    let xk = self.x_k(m - 1, new_in);
                    match (
                        s_add(Some(s_), Some(xk)),
                        s_div(s_mul(Some(c), Some(d)), s_mul(Some(xk), Some(self.n_dec()))),
                    ) {
                        (Some(s2), Some(c2)) => Some((s2, c2)),
                        _ => None,
                    }
                },
            }
        }
    }

    /// One Newton step of `get_y` from `y`, as iteration number `256 - left`.
    pub open spec fn newton_y_spec(&self, b: (int, int), c: (int, int), d: (int, int), y: (int, int), left: nat) -> Result<
        (int, int),
        ErrKind,
    >
        decreases left,
    {
        if left == 0 {
            Err(ErrKind::DidNotConverge(MAX_NEWTON_ITERATIONS))
        } else {
            let it = (256 - left) as u32;
            match s_sub(s_add(s_mul(Some((2, 0)), Some(y)), Some(b)), Some(d)) {
                None => Err(ErrKind::InvalidReserves),
                Some(den) => if den.0 == 0 {
                    Err(ErrKind::DidNotConverge(it))
                } else {
                    match s_div(s_add(s_mul(Some(y), Some(y)), Some(c)), Some(den)) {
                        None => Err(ErrKind::InvalidReserves),
                        Some(y_next) => match relative_change(y_next, y) {
                            None => Err(ErrKind::InvalidReserves),
                            Some(rel) => if value_lt(rel, tol()) {
                                Ok(y_next)
                            } else {
                                self.newton_y_spec(b, c, d, y_next, (left - 1) as nat)
                            },
                        },
                    }
                },
            }
        }
    }

    /// What `solve_new_output_reserve` computes (Curve's `get_y`).
    pub open spec fn get_y_spec(&self, d: (int, int), new_in: (int, int)) -> Result<(int, int), ErrKind> {
        match s_mul(
            Some(self.amplification@),
            decimal_powu(self.n_dec(), self.reserves@.len() as int),
        ) {
            None => Err(ErrKind::InvalidReserves),
            Some(ann) => match self.sc_spec(d, new_in, self.reserves@.len()) {
                None => Err(ErrKind::InvalidReserves),
                Some((s_, c0)) => match (
                    s_div(s_mul(Some(c0), Some(d)), s_mul(Some(ann), Some(self.n_dec()))),
                    s_add(Some(s_), s_div(Some(d), Some(ann))),
                ) {
                    (Some(c), Some(b)) => self.newton_y_spec(b, c, d, d, MAX_NEWTON_ITERATIONS as nat),
                    _ => Err(ErrKind::InvalidReserves),
                },
            },
        }
    }

    /// What `quote_with_d` computes.
    pub open spec fn quote_with_d_spec(&self, delta: (int, int), d: (int, int)) -> Result<(int, int), ErrKind> {
        if delta.0 < 0 || self.reserves@.len() < 2 {
            Err(ErrKind::InvalidReserves)
        } else {
            match s_add(Some(self.reserves@[0]@), Some(delta)) {
                None => Err(ErrKind::InvalidReserves),
                Some(new_in) => match self.get_y_spec(d, new_in) {
                    Err(e) => Err(e),
                    Ok(new_out) => match s_sub(Some(self.reserves@[1]@), Some(new_out)) {
                        None => Err(ErrKind::InvalidReserves),
                        Some(raw) => {
                            let raw2 = if raw.0 < 0 {
                                match s_div(Some(abs_v(raw)), Some(self.reserves@[1]@)) {
                                    Some(rel) => if value_lt(rel, tol()) {
                                        Some((0, 0))
                                    } else {
                                        None
                                    },
                                    None => None,
                                }
                            } else {
                                Some(raw)
                            };
                            match s_mul(raw2, Some(self.fee_retention@)) {
                                Some(v) => Ok(v),
                                None => Err(ErrKind::InvalidReserves),
                            }
                        },
                    },
                },
            }
        }
    }

    /// What `quote` computes: `quote_with_d` at the solved `D`.
    pub open spec fn quote_spec(&self, delta: (int, int)) -> Result<(int, int), ErrKind> {
        match self.solve_d_spec() {
            Err(e) => Err(e),
            Ok((d, _)) => self.quote_with_d_spec(delta, d),
        }
    }

    /// The finite-difference step `reserves[0] * sqrt(1e-6)` (`0.001` if the
    /// square root were unavailable).
    pub open spec fn step_spec(&self) -> Option<(int, int)> {
        let scale = match decimal_sqrt(tol()) {
            Some(v) => v,
            None => (1, 3),
        };
        s_mul(Some(self.reserves@[0]@), Some(scale))
    }

    /// The central finite-difference estimate of `Profit'(delta)`.
    pub open spec fn derivative_spec(&self, p: (int, int), d: (int, int), step: (int, int), delta: (int, int)) -> Result<
        (int, int),
        ErrKind,
    > {
        let lo = if value_lt(step, delta) {
            s_sub(Some(delta), Some(step))
        } else {
            Some((0, 0))
        };
        let hi = s_add(Some(delta), Some(step));
        match (lo, hi) {
            (Some(lo), Some(hi)) => match s_sub(Some(hi), Some(lo)) {
                None => Err(ErrKind::InvalidReserves),
                Some(width) => if width.0 <= 0 {
                    Ok((-p.0, p.1))
                } else {
                    match self.quote_with_d_spec(lo, d) {
                        Err(e) => Err(e),
                        Ok(q_lo) => match self.quote_with_d_spec(hi, d) {
                            Err(e) => Err(e),
                            Ok(q_hi) => match s_sub(
                                s_div(s_sub(Some(q_hi), Some(q_lo)), Some(width)),
                                Some(p),
                            ) {
                                Some(v) => Ok(v),
                                None => Err(ErrKind::InvalidReserves),
                            },
                        },
                    }
                },
            },
            _ => Err(ErrKind::InvalidReserves),
        }
    }

    /// Doubling phase: doubles `hi` while the derivative there is positive;
    /// `iters` doublings so far; the bracket's upper end and the count.
    pub open spec fn bracket_spec(&self, p: (int, int), d: (int, int), step: (int, int), hi: (int, int), iters: nat) -> Result<
        ((int, int), u32),
        ErrKind,
    >
        decreases 256 - iters,
    {
        if iters > 255 {
            Err(ErrKind::DidNotConverge(iters as u32))
        } else {
            match self.derivative_spec(p, d, step, hi) {
                Err(e) => Err(e),
                Ok(dv) => if dv.0 <= 0 {
                    Ok((hi, iters as u32))
                } else {
                    match s_mul(Some(hi), Some((2, 0))) {
                        None => Err(ErrKind::InvalidReserves),
                        Some(h2) => if iters + 1 > 255 {
                            Err(ErrKind::DidNotConverge((iters + 1) as u32))
                        } else {
                            self.bracket_spec(p, d, step, h2, iters + 1)
                        },
                    }
                },
            }
        }
    }

    /// Bisection phase from `[lo, hi]` with `iters` iterations so far; the
    /// final bracket and count.
    pub open spec fn bisect_spec(&self, p: (int, int), d: (int, int), step: (int, int), lo: (int, int), hi: (int, int), iters: nat) -> Result<
        ((int, int), (int, int), u32),
        ErrKind,
    >
        decreases 256 - iters,
    {
        match (s_sub(Some(hi), Some(lo)), s_mul(Some(tol()), Some(hi))) {
            (Some(w), Some(t)) => if !value_lt(t, w) {
                Ok((lo, hi, iters as u32))
            } else {
                match s_div(s_add(Some(lo), Some(hi)), Some((2, 0))) {
                    None => Err(ErrKind::InvalidReserves),
                    Some(mid) => if iters + 1 > 255 {
                        Err(ErrKind::DidNotConverge((iters + 1) as u32))
                    } else {
                        match self.derivative_spec(p, d, step, mid) {
                            Err(e) => Err(e),
                            Ok(dv) => if dv.0 > 0 {
                                self.bisect_spec(p, d, step, mid, hi, iters + 1)
                            } else {
                                self.bisect_spec(p, d, step, lo, mid, iters + 1)
                            },
                        }
                    },
                }
            },
            _ => Err(ErrKind::InvalidReserves),
        }
    }

    /// The number of doublings and bisections `optimal_size`'s search takes
    /// against `p`, when the search completes.
    pub open spec fn search_count(&self, p: (int, int)) -> Option<u32> {
        match self.solve_d_spec() {
            Err(_) => None,
            Ok((d, _)) => match self.step_spec() {
                None => None,
                Some(step) => match self.bracket_spec(p, d, step, step, 0) {
                    Err(_) => None,
                    Ok((hi, it)) => match self.bisect_spec(p, d, step, (0, 0), hi, it as nat) {
                        Err(_) => None,
                        Ok((_, _, k)) => Some(k),
                    },
                },
            },
        }
    }

    /// What `optimal_size` computes, with the iteration count.
    pub open spec fn optimal_size_spec(
        &self,
        p: (int, int),
        fixed: (int, int),
        max_size: Option<(int, int)>,
    ) -> Result<((int, int), (int, int)), ErrKind> {
        if p.0 <= 0 {
            Err(ErrKind::InvalidReserves)
        } else if !self.regular() {
            Err(ErrKind::DidNotConverge(0))
        } else if self.reserves@.len() < 2 {
            Err(ErrKind::InvalidReserves)
        } else {
            match self.solve_d_spec() {
                Err(e) => Err(e),
                Ok((d, _)) => match self.step_spec() {
                    None => Err(ErrKind::InvalidReserves),
                    Some(step) => match self.derivative_spec(p, d, step, (0, 0)) {
                        Err(e) => Err(e),
                        Ok(m) => if m.0 <= 0 {
                            Err(ErrKind::NoArbitrageOpportunity)
                        } else {
                            match self.bracket_spec(p, d, step, step, 0) {
                                Err(e) => Err(e),
                                Ok((hi, it)) => match self.bisect_spec(
                                    p,
                                    d,
                                    step,
                                    (0, 0),
                                    hi,
                                    it as nat,
                                ) {
                                    Err(e) => Err(e),
                                    Ok((lo, hi, _)) => match s_div(
                                        s_add(Some(lo), Some(hi)),
                                        Some((2, 0)),
                                    ) {
                                        None => Err(ErrKind::InvalidReserves),
                                        Some(u) => conclude_clipped(
                                            u,
                                            max_size,
                                            self.quote_with_d_spec(clip_hi(u, max_size), d),
                                            p,
                                            fixed,
                                        ),
                                    },
                                },
                            }
                        },
                    },
                },
            }
        }
    }
}

/// `Ok(d)` unless `None` (then the overflow error).
fn need(o: Option<Dec>) -> (r: Result<Dec, SizingError>)
    ensures
        match o {
            Some(d) => r matches Ok(x) && x@ == d@,
            None => r matches Err(e) && e@ == ErrKind::InvalidReserves,
        },
{
    match o {
        Some(d) => Ok(d),
        None => Err(overflow()),
    }
}

impl StableSwap {
    /// Returns `InvalidReserves` if `reserves.len() < 2`, any reserve is
    /// `<= 0`, `amplification < 1`, or `fee_retention` is not in `(0, 1]`.
    pub fn new(reserves: Vec<Dec>, amplification: Dec, fee_retention: Dec) -> (r: Result<
        StableSwap,
        SizingError,
    >)
        ensures
            r is Ok <==> reserves@.len() >= 2 && (forall|i: int|
                0 <= i < reserves@.len() ==> #[trigger] reserves@[i]@.0 > 0) && !value_lt(
                amplification@,
                (1, 0),
            ) && valid_fee(fee_retention@),
            r matches Ok(pool) ==> pool.reserves@ == reserves@ && pool.amplification@
                == amplification@ && pool.fee_retention@ == fee_retention@,
            r matches Err(e) ==> e@ == ErrKind::InvalidReserves && detail_of(e) == new_detail(
                reserves@,
                amplification@,
                fee_retention@,
            ),
    {
        if reserves.len() < 2 {
            return Err(invalid_text(with_count("reserves must contain at least 2 assets, got ", reserves.len())));
        }
        let mut i: usize = 0;
        while i < reserves.len()
            invariant
                i <= reserves@.len(),
                reserves@.len() >= 2,
                forall|j: int| 0 <= j < i ==> #[trigger] reserves@[j]@.0 > 0,
            decreases reserves@.len() - i,
        {
            if !reserves[i].is_positive() {
                proof {
                    lemma_first_nonpositive(reserves@, i as int);
                }
                return Err(
                    invalid_text(then_dec(then_str(with_count("reserves[", i), "] must be > 0, got "), &reserves[i])),
                );
            }
            i = i + 1;
        }
        if dec_lt(&amplification, &Dec::one()) {
            return Err(invalid_got("amplification must be >= 1", &amplification));
        }
        if !fee_retention.is_positive() || dec_lt(&Dec::one(), &fee_retention) {
            return Err(invalid_got("fee_retention must be in (0, 1]", &fee_retention));
        }
        Ok(StableSwap { reserves, amplification, fee_retention })
    }

    /// Re-checks the regularity conditions against `self` itself: `A >= 1`
    /// and every reserve positive.
    fn regularity_conditions_met(&self) -> (r: bool)
        ensures
            r == self.regular(),
    {
        if dec_lt(&self.amplification, &Dec::one()) {
            return false;
        }
        let mut i: usize = 0;
        while i < self.reserves.len()
            invariant
                i <= self.reserves@.len(),
                forall|j: int| 0 <= j < i ==> #[trigger] self.reserves@[j]@.0 > 0,
            decreases self.reserves@.len() - i,
        {
            if !self.reserves[i].is_positive() {
                return false;
            }
            i = i + 1;
        }
        true
    }

    fn n_dec_exec(&self) -> (r: Dec)
        ensures
            r@ == self.n_dec(),
    {
        Dec::from_u64(self.reserves.len() as u64)
    }

    /// Solves the invariant `D` by Newton's method from `D_0 = S` (the sum of
    /// the reserves): `D <- (A n^n S + D_P n) D / ((A n^n - 1) D + (n + 1) D_P)`
    /// with `D_P = D^(n+1) / (n^n prod(reserves))` computed one reserve at a
    /// time, until the relative change is below 1e-6; at most 255 steps.
    /// Returns `(D, iterations)`.
    pub fn solve_d(&self) -> (r: Result<(Dec, u32), SizingError>)
        ensures
            match r {
                Ok((d, it)) => self.solve_d_spec() == Ok::<((int, int), u32), ErrKind>((d@, it)),
                Err(e) => self.solve_d_spec() == Err::<((int, int), u32), ErrKind>(e@),
            },
    {
        let n = self.reserves.len();
        let n_dec = self.n_dec_exec();
        let n_n = match dec_powu(&n_dec, n as u64) {
            Some(v) => v,
            None => return Err(overflow()),
        };
        let s = match sum_exec(&self.reserves) {
            Some(v) => v,
            None => return Err(overflow()),
        };
        let ghost s0 = s@;
        let mut d = s.copy();
        let mut left: u32 = MAX_NEWTON_ITERATIONS;
        while left > 0
            invariant
                n == self.reserves@.len(),
                n_dec@ == self.n_dec(),
                decimal_powu(self.n_dec(), n as int) == Some(n_n@),
                sum_spec(self.reserves@, n as nat) == Some(s0),
                s@ == s0,
                left <= MAX_NEWTON_ITERATIONS,
                self.newton_d_spec(n_n@, s@, d@, left as nat) == self.newton_d_spec(
                    n_n@,
                    s0,
                    s0,
                    MAX_NEWTON_ITERATIONS as nat,
                ),
            decreases left,
        {
            let iteration: u32 = 256 - left;
            let d_p = match dp_exec(&d, &self.reserves, &n_dec) {
                Some(v) => v,
                None => return Err(overflow()),
            };
            let numerator = need(o_mul(
                o_add(o_mul(o_mul(some(&self.amplification), some(&n_n)), some(&s)), o_mul(some(&d_p), some(&n_dec))),
                some(&d),
            ))?;
            let denominator = need(o_add(
                o_mul(o_sub(o_mul(some(&self.amplification), some(&n_n)), Some(Dec::one())), some(&d)),
                o_mul(o_add(some(&n_dec), Some(Dec::one())), some(&d_p)),
            ))?;
            if denominator.is_zero() {
                return Err(SizingError::DidNotConverge { iterations_attempted: iteration });
            }
            let d_next = need(dec_div(&numerator, &denominator))?;
            let relative = need(relative_change_exec(&d_next, &d))?;
            d = d_next;
            if dec_lt(&relative, &newton_tolerance()) {
                return Ok((d, iteration));
            }
            left = left - 1;
        }
        Err(SizingError::DidNotConverge { iterations_attempted: MAX_NEWTON_ITERATIONS })
    }
}

/// Once the sum fails it stays failed.
proof fn lemma_sum_none(rs: Seq<Dec>, m: nat, n: nat)
    requires
        m <= n,
        sum_spec(rs, m) is None,
    ensures
        sum_spec(rs, n) is None,
    decreases n - m,
{
    if m < n {
        lemma_sum_none(rs, m + 1, n);
    }
}

/// Once the `D_P` fold fails it stays failed.
proof fn lemma_dp_none(d: (int, int), rs: Seq<Dec>, n_dec: (int, int), m: nat, n: nat)
    requires
        m <= n,
        dp_spec(d, rs, n_dec, m) is None,
    ensures
        dp_spec(d, rs, n_dec, n) is None,
    decreases n - m,
{
    if m < n {
        lemma_dp_none(d, rs, n_dec, m + 1, n);
    }
}

/// The sum of the reserves, added from zero.
fn sum_exec(rs: &Vec<Dec>) -> (r: Option<Dec>)
    ensures
        ov(r) == sum_spec(rs@, rs@.len()),
{
    let mut s = Dec::zero();
    let mut i: usize = 0;
    while i < rs.len()
        invariant
            i <= rs@.len(),
            sum_spec(rs@, i as nat) == Some(s@),
        decreases rs@.len() - i,
    {
        s = match dec_add_ref(&s, &rs[i]) {
            Some(v) => v,
            None => {
                proof {
                    lemma_sum_none(rs@, (i + 1) as nat, rs@.len());
                }
                return None;
            },
        };
        i = i + 1;
    }
    Some(s)
}

/// `D_P` folded over all reserves.
fn dp_exec(d: &Dec, rs: &Vec<Dec>, n_dec: &Dec) -> (r: Option<Dec>)
    ensures
        ov(r) == dp_spec(d@, rs@, n_dec@, rs@.len()),
{
    let mut d_p = d.copy();
    let mut k: usize = 0;
    while k < rs.len()
        invariant
            k <= rs@.len(),
            dp_spec(d@, rs@, n_dec@, k as nat) == Some(d_p@),
        decreases rs@.len() - k,
    {
        d_p = match o_div(o_mul(some(&d_p), some(d)), o_mul(some(n_dec), some(&rs[k]))) {
            Some(v) => v,
            None => {
                proof {
                    lemma_dp_none(d@, rs@, n_dec@, (k + 1) as nat, rs@.len());
                }
                return None;
            },
        };
        k = k + 1;
    }
    Some(d_p)
}

/// `a + b` on references.
fn dec_add_ref(a: &Dec, b: &Dec) -> (r: Option<Dec>)
    ensures
        ov(r) == s_add(Some(a@), Some(b@)),
{
    crate::decimal::dec_add(a, b)
}

/// `|new - old| / |old|` (just `|new - old|` when `old` is zero).
fn relative_change_exec(new: &Dec, old: &Dec) -> (r: Option<Dec>)
    ensures
        ov(r) == relative_change(new@, old@),
{
    let diff = match o_sub(some(new), some(old)) {
        Some(v) => v,
        None => return None,
    };
    if old.is_zero() {
        Some(diff.abs())
    } else {
        dec_div(&diff.abs(), &old.abs())
    }
}

/// Once the `(S', c)` fold fails it stays failed.
proof fn lemma_sc_none(pool: &StableSwap, d: (int, int), new_in: (int, int), m: nat, n: nat)
    requires
        m <= n,
        pool.sc_spec(d, new_in, m) is None,
    ensures
        pool.sc_spec(d, new_in, n) is None,
    decreases n - m,
{
    if m < n {
        lemma_sc_none(pool, d, new_in, m + 1, n);
    }
}

impl StableSwap {
    fn sc_exec(&self, d: &Dec, new_in: &Dec) -> (r: Option<(Dec, Dec)>)
        ensures
            match r {
                Some((a, b)) => self.sc_spec(d@, new_in@, self.reserves@.len()) == Some((a@, b@)),
                None => self.sc_spec(d@, new_in@, self.reserves@.len()) is None,
            },
    {
        let n_dec = self.n_dec_exec();
        let mut s_ = Dec::zero();
        let mut c = d.copy();
        let mut k: usize = 0;
        while k < self.reserves.len()
            invariant
                k <= self.reserves@.len(),
                n_dec@ == self.n_dec(),
                self.sc_spec(d@, new_in@, k as nat) == Some((s_@, c@)),
            decreases self.reserves@.len() - k,
        {
            if k != 1 {
                let x_k = if k == 0 {
                    new_in.copy()
                } else {
                    self.reserves[k].copy()
                };
                let s2 = o_add(some(&s_), some(&x_k));
                let c2 = o_div(o_mul(some(&c), some(d)), o_mul(some(&x_k), some(&n_dec)));
                match (s2, c2) {
                    (Some(a), Some(b)) => {
                        s_ = a;
                        c = b;
                    },
                    _ => {
                        proof {
                            lemma_sc_none(self, d@, new_in@, (k + 1) as nat, self.reserves@.len());
                        }
                        return None;
                    },
                }
            }
            k = k + 1;
        }
        Some((s_, c))
    }

    /// Curve's `get_y`: the output-asset reserve that keeps the invariant at
    /// `d` after the input reserve becomes `new_input_reserve`, by Newton's
    /// method from `y = D` (at most 255 steps).
    fn solve_new_output_reserve(&self, d: &Dec, new_input_reserve: &Dec) -> (r: Result<Dec, SizingError>)
        ensures
            crate::error::rv(r) == self.get_y_spec(d@, new_input_reserve@),
    {
        let n = self.reserves.len();
        let n_dec = self.n_dec_exec();
        let ann = need(o_mul(some(&self.amplification), dec_powu(&n_dec, n as u64)))?;
        let (s_, c0) = match self.sc_exec(d, new_input_reserve) {
            Some(p) => p,
            None => return Err(overflow()),
        };
        let c = need(o_div(o_mul(Some(c0), some(d)), o_mul(some(&ann), some(&n_dec))))?;
        let b = need(o_add(Some(s_), o_div(some(d), some(&ann))))?;
        let ghost (gb, gc) = (b@, c@);
        let mut y = d.copy();
        let mut left: u32 = MAX_NEWTON_ITERATIONS;
        while left > 0
            invariant
                left <= MAX_NEWTON_ITERATIONS,
                b@ == gb,
                c@ == gc,
                self.newton_y_spec(gb, gc, d@, y@, left as nat) == self.get_y_spec(
                    d@,
                    new_input_reserve@,
                ),
            decreases left,
        {
            let iteration: u32 = 256 - left;
            let denom = need(o_sub(o_add(o_mul(Some(Dec::two()), some(&y)), some(&b)), some(d)))?;
            if denom.is_zero() {
                return Err(SizingError::DidNotConverge { iterations_attempted: iteration });
            }
            let y_next = need(o_div(o_add(o_mul(some(&y), some(&y)), some(&c)), Some(denom)))?;
            let relative = need(relative_change_exec(&y_next, &y))?;
            y = y_next;
            if dec_lt(&relative, &newton_tolerance()) {
                return Ok(y);
            }
            left = left - 1;
        }
        Err(SizingError::DidNotConverge { iterations_attempted: MAX_NEWTON_ITERATIONS })
    }

    /// `quote` at an already-solved `d`.
    pub fn quote_with_d(&self, delta_in: &Dec, d: &Dec) -> (r: Result<Dec, SizingError>)
        ensures
            crate::error::rv(r) == self.quote_with_d_spec(delta_in@, d@),
            delta_in@.0 < 0 ==> (r matches Err(e) && detail_of(e) == got(
                "delta_in must be >= 0"@,
                delta_in@,
            )),
    {
        if delta_in.is_negative() {
            return Err(invalid_got("delta_in must be >= 0", &delta_in));
        }
        if self.reserves.len() < 2 {
            return Err(invalid("reserves must contain at least 2 assets"));
        }
        let new_input_reserve = need(o_add(some(&self.reserves[0]), some(delta_in)))?;
        let new_output_reserve = self.solve_new_output_reserve(d, &new_input_reserve)?;
        let raw_output = need(o_sub(some(&self.reserves[1]), Some(new_output_reserve)))?;
        let raw_output = if raw_output.is_negative() {
            let relative_magnitude = need(dec_div(&raw_output.abs(), &self.reserves[1]))?;
            if dec_lt(&relative_magnitude, &newton_tolerance()) {
                Dec::zero()
            } else {
                return Err(invalid("computed negative raw output"));
            }
        } else {
            raw_output
        };
        need(o_mul(Some(raw_output), some(&self.fee_retention)))
    }

    /// The central finite-difference estimate of `Profit'(delta)` with step
    /// `step`, at an already-solved `d`.
    fn derivative(&self, reference_price: &Dec, d: &Dec, step: &Dec, delta: &Dec) -> (r: Result<Dec, SizingError>)
        ensures
            crate::error::rv(r) == self.derivative_spec(reference_price@, d@, step@, delta@),
    {
        let lo = if dec_lt(step, delta) {
            o_sub(some(delta), some(step))
        } else {
            Some(Dec::zero())
        };
        let hi = o_add(some(delta), some(step));
        let (lo, hi) = match (lo, hi) {
            (Some(l), Some(h)) => (l, h),
            _ => return Err(overflow()),
        };
        let width = need(o_sub(some(&hi), some(&lo)))?;
        if !width.is_positive() {
            let m = reference_price.mantissa();
            let sc = reference_price.scale();
            return Ok(Dec::lit(-m, sc));
        }
        let q_lo = self.quote_with_d(&lo, d)?;
        let q_hi = self.quote_with_d(&hi, d)?;
        need(o_sub(o_div(o_sub(Some(q_hi), Some(q_lo)), Some(width)), some(reference_price)))
    }
}

impl PricingCurve for StableSwap {
    /// The post-fee output for `delta_in` of asset 0 swapped for asset 1, at
    /// the invariant solved afresh by `solve_d`.
    fn quote(&self, delta_in: Dec) -> (r: Result<Dec, SizingError>)
        ensures
            crate::error::rv(r) == self.quote_spec(delta_in@),
    {
        let (d, _) = self.solve_d()?;
        self.quote_with_d(&delta_in, &d)
    }
}

impl SizingAlgorithm for StableSwap {
    /// Bracket-and-bisect on the sign of a central finite-difference estimate
    /// of `Profit'` (step `reserves[0] * sqrt(1e-6)`), with `D` solved once;
    /// at most 255 doublings and bisections in all. `DidNotConverge { 0 }`
    /// unless the regularity conditions hold; `NoArbitrageOpportunity` unless
    /// the estimate at zero is positive.
    fn optimal_size(&self, reference_price: Dec, constraints: SizingConstraints) -> (r: Result<
        SizingResult,
        SizingError,
    >)
        ensures
            srv(r) == self.optimal_size_spec(
                reference_price@,
                constraints.fixed_cost@,
                ov(constraints.max_size),
            ),
            r matches Ok(res) ==> (res.guarantee_tier == GuaranteeTier::NumericallyGuaranteed {
                convergence_conditions_met: true,
            } && res.iterations == self.search_count(reference_price@) && (res.iterations matches Some(
                k,
            ) && k <= MAX_NEWTON_ITERATIONS)),
            reference_price@.0 <= 0 ==> (r matches Err(e) && e@ == ErrKind::InvalidReserves
                && detail_of(e) == got("reference_price must be > 0"@, reference_price@)),
    {
        if !reference_price.is_positive() {
            return Err(invalid_got("reference_price must be > 0", &reference_price));
        }
        if !self.regularity_conditions_met() {
            return Err(SizingError::DidNotConverge { iterations_attempted: 0 });
        }
        if self.reserves.len() < 2 {
            return Err(invalid("reserves must contain at least 2 assets"));
        }
        let (d, _) = self.solve_d()?;
        let step_scale = match dec_sqrt(&newton_tolerance()) {
            Some(v) => v,
            None => Dec::lit(1, 3),
        };
        let step = need(o_mul(some(&self.reserves[0]), Some(step_scale)))?;
        let marginal = self.derivative(&reference_price, &d, &step, &Dec::zero())?;
        if !marginal.is_positive() {
            return Err(SizingError::NoArbitrageOpportunity);
        }
        let ghost p = reference_price@;
        let ghost gd = d@;
        let ghost gstep = step@;
        let mut hi = step.copy();
        let mut iterations: u32 = 0;
        loop
            invariant_except_break
                self.bracket_spec(p, gd, gstep, hi@, iterations as nat) == self.bracket_spec(
                    p,
                    gd,
                    gstep,
                    gstep,
                    0,
                ),
            invariant
                iterations <= 255,
                p == reference_price@,
                gd == d@,
                gstep == step@,
                p.0 > 0,
                self.regular(),
                self.reserves@.len() >= 2,
                self.solve_d_spec() matches Ok((dd, _)) && dd == gd,
                self.step_spec() == Some(gstep),
                self.derivative_spec(p, gd, gstep, (0, 0)) matches Ok(m) && m.0 > 0,
            ensures
                self.bracket_spec(p, gd, gstep, gstep, 0) == Ok::<((int, int), u32), ErrKind>(
                    (hi@, iterations),
                ),
            decreases 255 - iterations,
        {
            let dv = self.derivative(&reference_price, &d, &step, &hi)?;
            if !dv.is_positive() {
                break ;
            }
            hi = need(dec_mul(&hi, &Dec::two()))?;
            if iterations + 1 > MAX_NEWTON_ITERATIONS {
                return Err(SizingError::DidNotConverge { iterations_attempted: iterations + 1 });
            }
            iterations = iterations + 1;
        }
        let ghost hi0 = hi@;
        let ghost it0 = iterations;
        let tolerance = newton_tolerance();
        let mut lo = Dec::zero();
        loop
            invariant_except_break
                self.bisect_spec(p, gd, gstep, lo@, hi@, iterations as nat) == self.bisect_spec(
                    p,
                    gd,
                    gstep,
                    (0, 0),
                    hi0,
                    it0 as nat,
                ),
            invariant
                iterations <= 255,
                tolerance@ == tol(),
                p == reference_price@,
                gd == d@,
                gstep == step@,
                p.0 > 0,
                self.regular(),
                self.reserves@.len() >= 2,
                self.solve_d_spec() matches Ok((dd, _)) && dd == gd,
                self.step_spec() == Some(gstep),
                self.derivative_spec(p, gd, gstep, (0, 0)) matches Ok(m) && m.0 > 0,
                self.bracket_spec(p, gd, gstep, gstep, 0) == Ok::<((int, int), u32), ErrKind>(
                    (hi0, it0),
                ),
            ensures
                self.bisect_spec(p, gd, gstep, (0, 0), hi0, it0 as nat) == Ok::<
                    ((int, int), (int, int), u32),
                    ErrKind,
                >((lo@, hi@, iterations)),
            decreases 255 - iterations,
        {
            let width = o_sub(some(&hi), some(&lo));
            let threshold = o_mul(some(&tolerance), some(&hi));
            let (w, t) = match (width, threshold) {
                (Some(w), Some(t)) => (w, t),
                _ => return Err(overflow()),
            };
            if !dec_lt(&t, &w) {
                break ;
            }
            let mid = need(o_div(o_add(some(&lo), some(&hi)), Some(Dec::two())))?;
            if iterations + 1 > MAX_NEWTON_ITERATIONS {
                return Err(SizingError::DidNotConverge { iterations_attempted: iterations + 1 });
            }
            iterations = iterations + 1;
            if self.derivative(&reference_price, &d, &step, &mid)?.is_positive() {
                lo = mid;
            } else {
                hi = mid;
            }
        }
        let unconstrained_delta = need(o_div(o_add(some(&lo), some(&hi)), Some(Dec::two())))?;
        let (_, optimal_delta) = match NetProfit::restrict_domain(
            &constraints,
            (Dec::zero(), unconstrained_delta),
        ) {
            Ok(dd) => dd,
            Err(e) => return Err(e),
        };
        proof {
            crate::profit::lemma_above_zero(optimal_delta@);
        }
        let quoted = self.quote_with_d(&optimal_delta, &d);
        let met = self.regularity_conditions_met();
        conclude_exec(
            optimal_delta,
            quoted,
            &reference_price,
            &constraints.fixed_cost,
            GuaranteeTier::NumericallyGuaranteed { convergence_conditions_met: met },
            Some(iterations),
        )
    }
}

} // verus!
