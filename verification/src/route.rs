//! `Leg`, `Route`: multi-hop routes across any of the curve families, sized
//! jointly by a golden-section search on the composed profit.
//!
//! The output of leg `i` is the input of leg `i + 1`. Sizing each leg on its
//! own against intermediate prices does not give the route's optimum, so the
//! route's profit `Output(x) - P x` is maximized directly; the result's tier
//! is `ComposedFrom` the legs' own diagnostic tiers, one per leg.
use crate::curves::pmm::{dec_min_spec, golden_ratio_inv, golden_ratio_inv_spec, golden_section_tolerance};
use crate::curves::{
    BalancerWeightedPool, ConcentratedLiquidity, Cpmm, CurveCryptoSwap, DodoPmm, Pmm, StableSwap,
};
use crate::decimal::{dec_lt, o_add, o_div, o_mul, o_sub, ov, s_add, s_div, s_mul, s_sub, some, value_le, value_lt, Dec};
use crate::text::nat_text;
use crate::error::{detail_of, got, invalid, invalid_got, invalid_text, overflow, rv, with_count, ErrKind, SizingError};
use crate::profit::{clip_hi, conclude_clipped, lemma_conclude_shift, settle, shifted_by_cost, srv};
use crate::traits::{PricingCurve, SizingAlgorithm};
use crate::types::{GuaranteeTier, SizingConstraints, SizingResult};
use vstd::prelude::*;

verus! {

/// Iteration cap of the golden-section search.
pub const MAX_GOLDEN_ITERATIONS: u32 = 10000;

/// Doublings allowed while bracketing the route's optimum.
pub const MAX_BRACKET_DOUBLINGS: u32 = 60;

/// One hop of a route, over any supported curve family.
#[derive(Debug)]
pub enum Leg {
    /// Constant-product pool.
    Cpmm(Cpmm),
    /// StableSwap pool.
    StableSwap(StableSwap),
    /// WooFi-style proactive market maker.
    Pmm(Pmm),
    /// Concentrated-liquidity position.
    ConcentratedLiquidity(ConcentratedLiquidity),
    /// Weighted constant-value pool.
    BalancerWeighted(BalancerWeightedPool),
    /// DODO proactive market maker.
    DodoPmm(DodoPmm),
    /// CryptoSwap dynamic-invariant pool.
    CurveCryptoSwap(CurveCryptoSwap),
}

impl Clone for Leg {
    fn clone(&self) -> (r: Leg) {
        match self {
            Leg::Cpmm(c) => Leg::Cpmm(c.clone()),
            Leg::StableSwap(s) => Leg::StableSwap(s.clone()),
            Leg::Pmm(p) => Leg::Pmm(p.clone()),
            Leg::ConcentratedLiquidity(cl) => Leg::ConcentratedLiquidity(cl.clone()),
            Leg::BalancerWeighted(b) => Leg::BalancerWeighted(b.clone()),
            Leg::DodoPmm(d) => Leg::DodoPmm(d.clone()),
            Leg::CurveCryptoSwap(cs) => Leg::CurveCryptoSwap(cs.clone()),
        }
    }
}

impl Leg {
    /// What this leg's `quote` computes.
    pub open spec fn quote_spec(&self, d: (int, int)) -> Result<(int, int), ErrKind> {
        match self {
            Leg::Cpmm(c) => c.quote_spec(d),
            Leg::StableSwap(s) => s.quote_spec(d),
            Leg::Pmm(p) => p.quote_spec(d),
            Leg::ConcentratedLiquidity(cl) => cl.quote_spec(d),
            Leg::BalancerWeighted(b) => b.quote_spec(d),
            Leg::DodoPmm(d2) => d2.quote_spec(d),
            Leg::CurveCryptoSwap(cs) => cs.quote_spec(d),
        }
    }

    /// What this leg's `optimal_size` computes.
    pub open spec fn optimal_size_spec(
        &self,
        p: (int, int),
        fixed: (int, int),
        max_size: Option<(int, int)>,
    ) -> Result<((int, int), (int, int)), ErrKind> {
        match self {
            Leg::Cpmm(c) => c.optimal_size_spec(p, fixed, max_size),
            Leg::StableSwap(s) => s.optimal_size_spec(p, fixed, max_size),
            Leg::Pmm(pm) => pm.optimal_size_spec(p, fixed, max_size),
            Leg::ConcentratedLiquidity(cl) => cl.optimal_size_spec(p, fixed, max_size),
            Leg::BalancerWeighted(b) => b.optimal_size_spec(p, fixed, max_size),
            Leg::DodoPmm(d) => d.optimal_size_spec(p, fixed, max_size),
            Leg::CurveCryptoSwap(cs) => cs.optimal_size_spec(p, fixed, max_size),
        }
    }

    /// The tier this leg's `optimal_size` reports when it succeeds without a
    /// cap on the size.
    pub open spec fn tier_spec(&self) -> GuaranteeTier {
        self.tier_with_cap(None)
    }

    /// The tier this leg's `optimal_size` reports when it succeeds under the
    /// cap `max_size` (only a DODO leg's sampled interval depends on it).
    pub open spec fn tier_with_cap(&self, max_size: Option<(int, int)>) -> GuaranteeTier {
        match self {
            Leg::Cpmm(_) => GuaranteeTier::ProvenOptimal,
            Leg::StableSwap(_) => GuaranteeTier::NumericallyGuaranteed {
                convergence_conditions_met: true,
            },
            Leg::Pmm(pm) => GuaranteeTier::EmpiricallyValidated {
                unimodality_confirmed: match pm.upper_bound_spec() {
                    Some(u) => pm.unimodality_spec((0, 0), u),
                    None => false,
                },
            },
            Leg::ConcentratedLiquidity(_) => GuaranteeTier::ProvenOptimal,
            Leg::BalancerWeighted(_) => GuaranteeTier::ProvenOptimal,
            Leg::DodoPmm(d) => GuaranteeTier::EmpiricallyValidated {
                unimodality_confirmed: match d.search_upper_spec(max_size) {
                    Some(u) => d.unimodality_spec((0, 0), u),
                    None => false,
                },
            },
            Leg::CurveCryptoSwap(_) => GuaranteeTier::NumericallyGuaranteed {
                convergence_conditions_met: true,
            },
        }
    }

    /// What `diagnostic_tier` computes: the leg's own tier when sizing it
    /// against `0.999` times its marginal price measured on a `1e-6` trade.
    #[verifier::opaque]
    pub open spec fn diagnostic_spec(&self) -> Result<GuaranteeTier, ErrKind> {
        match self.quote_spec((1, 6)) {
            Err(e) => Err(e),
            Ok(probe) => if probe.0 <= 0 {
                Err(ErrKind::InvalidReserves)
            } else {
                match s_mul(s_div(Some(probe), Some((1, 6))), Some((999, 3))) {
                    None => Err(ErrKind::InvalidReserves),
                    Some(srp) => match self.optimal_size_spec(srp, (0, 0), None) {
                        Err(e) => Err(e),
                        Ok(_) => Ok(self.tier_spec()),
                    },
                }
            },
        }
    }

    /// The post-fee output for `delta_in` through this leg.
    pub fn quote(&self, delta_in: Dec) -> (r: Result<Dec, SizingError>)
        ensures
            rv(r) == self.quote_spec(delta_in@),
    {
        match self {
            Leg::Cpmm(c) => c.quote(delta_in),
            Leg::StableSwap(s) => s.quote(delta_in),
            Leg::Pmm(p) => p.quote(delta_in),
            Leg::ConcentratedLiquidity(cl) => cl.quote(delta_in),
            Leg::BalancerWeighted(b) => b.quote(delta_in),
            Leg::DodoPmm(d) => d.quote(delta_in),
            Leg::CurveCryptoSwap(cs) => cs.quote(delta_in),
        }
    }

    /// This leg's own guarantee tier, sampled by sizing the leg alone just
    /// below its marginal price; `InvalidReserves` when the probe quote is
    /// not positive, and the leg's own error when its sizing fails.
    pub fn diagnostic_tier(&self) -> (r: Result<GuaranteeTier, SizingError>)
        ensures
            match r {
                Ok(t) => self.diagnostic_spec() == Ok::<GuaranteeTier, ErrKind>(t),
                Err(e) => self.diagnostic_spec() == Err::<GuaranteeTier, ErrKind>(e@),
            },
    {
        proof {
            reveal(Leg::diagnostic_spec);
        }
        let epsilon = Dec::lit(1, 6);
        let probe = match self.quote(epsilon.copy()) {
            Ok(p) => p,
            Err(e) => return Err(e),
        };
        if !probe.is_positive() {
            return Err(invalid("diagnostic_tier probe quote was <= 0"));
        }
        let synthetic_reference_price = match o_mul(
            o_div(some(&probe), some(&epsilon)),
            Some(Dec::lit(999, 3)),
        ) {
            Some(v) => v,
            None => return Err(overflow()),
        };
        let constraints = SizingConstraints { fixed_cost: Dec::zero(), max_size: None };
        let result = match self {
            Leg::Cpmm(c) => c.optimal_size(synthetic_reference_price, constraints),
            Leg::StableSwap(s) => s.optimal_size(synthetic_reference_price, constraints),
            Leg::Pmm(p) => p.optimal_size(synthetic_reference_price, constraints),
            Leg::ConcentratedLiquidity(cl) => cl.optimal_size(synthetic_reference_price, constraints),
            Leg::BalancerWeighted(b) => b.optimal_size(synthetic_reference_price, constraints),
            Leg::DodoPmm(d) => d.optimal_size(synthetic_reference_price, constraints),
            Leg::CurveCryptoSwap(cs) => cs.optimal_size(synthetic_reference_price, constraints),
        };
        match result {
            Ok(res) => Ok(res.guarantee_tier),
            Err(e) => Err(e),
        }
    }
}

/// The output of the first `n` legs in sequence for input `d`; `None` as
/// soon as a leg's quote fails.
pub open spec fn route_spec(legs: Seq<Leg>, d: (int, int), n: nat) -> Option<(int, int)>
    decreases n,
{
    if n == 0 {
        Some(d)
    } else {
        match route_spec(legs, d, (n - 1) as nat) {
            None => None,
            Some(c) => match legs[n - 1].quote_spec(c) {
                Ok(o) => Some(o),
                Err(_) => None,
            },
        }
    }
}

/// The output of the first `n` legs depends on those legs alone.
proof fn lemma_route_prefix(s: Seq<Leg>, t: Seq<Leg>, d: (int, int), n: nat)
    requires
        n <= s.len(),
        n <= t.len(),
        forall|i: int| 0 <= i < n ==> s[i] == t[i],
    ensures
        route_spec(s, d, n) == route_spec(t, d, n),
    decreases n,
{
    if n > 0 {
        lemma_route_prefix(s, t, d, (n - 1) as nat);
    }
}

/// Running the first `a.len() + k` legs of `a + b` is running `a`, then the
/// first `k` legs of `b` on its output.
proof fn lemma_route_concat(a: Seq<Leg>, b: Seq<Leg>, d: (int, int), k: nat)
    requires
        k <= b.len(),
    ensures
        route_spec(a + b, d, a.len() + k) == match route_spec(a, d, a.len()) {
            None => None,
            Some(c) => route_spec(b, c, k),
        },
    decreases k,
{
    if k == 0 {
        lemma_route_prefix(a + b, a, d, a.len());
    } else {
        lemma_route_concat(a, b, d, (k - 1) as nat);
        assert((a + b)[a.len() + k - 1] == b[k - 1]);
    }
}

/// Splitting a route: the output of the legs of `first` followed by those of
/// `second` is the output of `second` on the output of `first`, and fails
/// where either part fails.
pub proof fn lemma_route_split(first: Route, second: Route, joined: Route, d: (int, int))
    requires
        joined.legs@ == first.legs@ + second.legs@,
    ensures
        joined.output_spec(d) == match first.output_spec(d) {
            None => None,
            Some(c) => second.output_spec(c),
        },
{
    lemma_route_concat(first.legs@, second.legs@, d, second.legs@.len());
}

/// The diagnostic tiers of the first `n` legs, or the first leg's error.
pub open spec fn tiers_spec(legs: Seq<Leg>, n: nat) -> Result<Seq<GuaranteeTier>, ErrKind>
    decreases n,
{
    if n == 0 {
        Ok(Seq::empty())
    } else {
        match tiers_spec(legs, (n - 1) as nat) {
            Err(e) => Err(e),
            Ok(s) => match legs[n - 1].diagnostic_spec() {
                Err(e) => Err(e),
                Ok(t) => Ok(s.push(t)),
            },
        }
    }
}

/// Once the route fails it stays failed.
proof fn lemma_route_none(legs: Seq<Leg>, d: (int, int), m: nat, n: nat)
    requires
        m <= n,
        route_spec(legs, d, m) is None,
    ensures
        route_spec(legs, d, n) is None,
    decreases n - m,
{
    if m < n {
        lemma_route_none(legs, d, m + 1, n);
    }
}

/// Once a tier fails the collection fails with that error.
proof fn lemma_tiers_err(legs: Seq<Leg>, m: nat, n: nat, e: ErrKind)
    requires
        m <= n,
        tiers_spec(legs, m) == Err::<Seq<GuaranteeTier>, ErrKind>(e),
    ensures
        tiers_spec(legs, n) == Err::<Seq<GuaranteeTier>, ErrKind>(e),
    decreases n - m,
{
    if m < n {
        lemma_tiers_err(legs, m + 1, n, e);
    }
}

/// A fixed cost shifts a leg's sizing and nothing else: where the sizing
/// without a cost succeeds with gross profit `g`, the sizing with cost
/// `fixed` chooses the same size and earns `g - fixed`, or reports
/// `NoProfitableSize` where `g - fixed` is not positive.
pub proof fn lemma_fixed_cost_shift(leg: Leg, p: (int, int), fixed: (int, int), max_size: Option<(int, int)>)
    ensures
        shifted_by_cost(
            leg.optimal_size_spec(p, fixed, max_size),
            leg.optimal_size_spec(p, (0, 0), max_size),
            fixed,
        ),
{
    assert forall|u: (int, int), q: Result<(int, int), ErrKind>|
        #![trigger conclude_clipped(u, max_size, q, p, fixed)]
        shifted_by_cost(
            conclude_clipped(u, max_size, q, p, fixed),
            conclude_clipped(u, max_size, q, p, (0, 0)),
            fixed,
        ) by {
        lemma_conclude_shift(u, max_size, q, p, fixed);
    }
}

/// A successful collection has one tier per leg, each that leg's own.
pub proof fn lemma_tiers_one_per_leg(legs: Seq<Leg>, n: nat, s: Seq<GuaranteeTier>)
    requires
        n <= legs.len(),
        tiers_spec(legs, n) == Ok::<Seq<GuaranteeTier>, ErrKind>(s),
    ensures
        s.len() == n,
        forall|i: int| 0 <= i < n ==> #[trigger] s[i] == legs[i].tier_spec(),
    decreases n,
{
    if n > 0 {
        reveal(Leg::diagnostic_spec);
        let prev = tiers_spec(legs, (n - 1) as nat).unwrap();
        lemma_tiers_one_per_leg(legs, (n - 1) as nat, prev);
        assert(s == prev.push(legs[n - 1].tier_spec()));
    }
}

/// A multi-hop route of at least two legs, the output of each feeding the
/// next.
#[derive(Debug)]
pub struct Route {
    /// The legs in order.
    pub legs: Vec<Leg>,
}

impl Clone for Route {
    fn clone(&self) -> (r: Route)
        ensures
            r.legs@.len() == self.legs@.len(),
    {
        let mut legs: Vec<Leg> = Vec::new();
        let mut i: usize = 0;
        while i < self.legs.len()
            invariant
                i <= self.legs@.len(),
                legs@.len() == i,
            decreases self.legs@.len() - i,
        {
            legs.push(self.legs[i].clone());
            i = i + 1;
        }
        Route { legs }
    }
}

impl Route {
    /// The route's output for `d`.
    pub open spec fn output_spec(&self, d: (int, int)) -> Option<(int, int)> {
        route_spec(self.legs@, d, self.legs@.len())
    }

    /// The search objective `Output(x) - P x`, the smallest decimal where
    /// the route fails; `None` when the subtraction overflows.
    pub open spec fn profit_spec(&self, p: (int, int), x: (int, int)) -> Option<(int, int)> {
        match self.output_spec(x) {
            Some(out) => s_sub(Some(out), s_mul(Some(p), Some(x))),
            None => Some(dec_min_spec()),
        }
    }

    /// Doubling from `hi` while the objective still grows at `2 hi`, at most
    /// until the doubling count passes the limit; the last `hi`.
    pub open spec fn bracket_spec(&self, p: (int, int), hi: (int, int), guard: nat) -> Option<(int, int)>
        decreases MAX_BRACKET_DOUBLINGS + 1 - guard,
    {
        match s_mul(Some(hi), Some((2, 0))) {
            None => None,
            Some(h2) => match (self.profit_spec(p, h2), self.profit_spec(p, hi)) {
                (Some(f2), Some(f1)) => if value_lt(f1, f2) {
                    if (guard + 1 > MAX_BRACKET_DOUBLINGS) {
                        Some(h2)
                    } else {
                        self.bracket_spec(p, h2, guard + 1)
                    }
                } else {
                    Some(hi)
                },
                _ => None,
            },
        }
    }

    /// One golden-section step on `[a, b]` with interior points `c < d`
    /// and their objective values, reusing the surviving point.
    pub open spec fn golden_step(
        &self,
        p: (int, int),
        a: (int, int),
        b: (int, int),
        c: (int, int),
        d: (int, int),
        fc: (int, int),
        fd: (int, int),
    ) -> Option<((int, int), (int, int), (int, int), (int, int), (int, int), (int, int))> {
        if value_lt(fd, fc) {
            match s_sub(Some(d), s_mul(Some(golden_ratio_inv_spec()), s_sub(Some(d), Some(a)))) {
                None => None,
                Some(c2) => match self.profit_spec(p, c2) {
                    None => None,
                    Some(fc2) => Some((a, d, c2, c, fc2, fc)),
                },
            }
        } else {
            match s_add(Some(c), s_mul(Some(golden_ratio_inv_spec()), s_sub(Some(b), Some(c)))) {
                None => None,
                Some(d2) => match self.profit_spec(p, d2) {
                    None => None,
                    Some(fd2) => Some((c, b, d, d2, fd, fd2)),
                },
            }
        }
    }

    /// The golden-section loop after `it` steps: it stops once the bracket
    /// is no wider than `thr`, or after the step that passes the iteration
    /// cap; the final bracket and step count.
    pub open spec fn maximize_spec(
        &self,
        p: (int, int),
        thr: (int, int),
        a: (int, int),
        b: (int, int),
        c: (int, int),
        d: (int, int),
        fc: (int, int),
        fd: (int, int),
        it: nat,
    ) -> Option<((int, int), (int, int), nat)>
        decreases MAX_GOLDEN_ITERATIONS + 1 - it,
    {
        match s_sub(Some(b), Some(a)) {
            None => None,
            Some(w) => if !value_lt(thr, w) {
                Some((a, b, it))
            } else {
                match self.golden_step(p, a, b, c, d, fc, fd) {
                    None => None,
                    Some((a2, b2, c2, d2, fc2, fd2)) => if (it + 1 > MAX_GOLDEN_ITERATIONS) {
                        Some((a2, b2, it + 1))
                    } else {
                        self.maximize_spec(p, thr, a2, b2, c2, d2, fc2, fd2, it + 1)
                    },
                }
            }
        }
    }

    /// What `golden_section_maximize` computes on `[lo, hi]`: the midpoint
    /// of the final bracket and the step count.
    pub open spec fn search_spec(&self, p: (int, int), lo: (int, int), hi: (int, int), tol: (int, int)) -> Option<
        ((int, int), nat),
    > {
        let hi1 = if value_lt(hi, (1, 0)) {
            (1, 0)
        } else {
            hi
        };
        match s_mul(Some(tol), Some(hi1)) {
            None => None,
            Some(thr) => {
                let span = s_mul(Some(golden_ratio_inv_spec()), s_sub(Some(hi), Some(lo)));
                match (s_sub(Some(hi), span), s_add(Some(lo), span)) {
                    (Some(c), Some(d)) => match (self.profit_spec(p, c), self.profit_spec(p, d)) {
                        (Some(fc), Some(fd)) => match self.maximize_spec(p, thr, lo, hi, c, d, fc, fd, 0) {
                            None => None,
                            Some((a, b, it)) => match s_div(s_add(Some(a), Some(b)), Some((2, 0))) {
                                None => None,
                                Some(m) => Some((m, it)),
                            },
                        },
                        _ => None,
                    },
                    _ => None,
                }
            },
        }
    }

    /// The last step: net profit at the chosen size, then the legs' tiers.
    pub open spec fn conclude_route(&self, opt: (int, int), p: (int, int), fixed: (int, int)) -> Result<
        ((int, int), (int, int)),
        ErrKind,
    > {
        match self.output_spec(opt) {
            None => Err(ErrKind::InvalidReserves),
            Some(out) => match settle(out, p, opt, fixed) {
                Err(e) => Err(e),
                Ok(e) => match tiers_spec(self.legs@, self.legs@.len()) {
                    Err(k) => Err(k),
                    Ok(_) => Ok((opt, e)),
                },
            },
        }
    }

    /// What follows the bracketing: double once more, clip to `max_size`,
    /// search `[0, hi]`, conclude.
    pub open spec fn from_bracket(
        &self,
        bracket: Option<(int, int)>,
        p: (int, int),
        fixed: (int, int),
        max_size: Option<(int, int)>,
    ) -> Result<((int, int), (int, int)), ErrKind> {
        match bracket {
            None => Err(ErrKind::InvalidReserves),
            Some(h) => match s_mul(Some(h), Some((2, 0))) {
                None => Err(ErrKind::InvalidReserves),
                Some(h2) => {
                    let hi = clip_hi(h2, max_size);
                    if hi.0 <= 0 {
                        Err(ErrKind::NoProfitableSize)
                    } else {
                        match self.search_spec(p, (0, 0), hi, (1, 6)) {
                            None => Err(ErrKind::InvalidReserves),
                            Some((opt, _)) => {
                                let o = clip_hi(opt, max_size);
                                if !value_lt((0, 0), o) {
                                    Err(ErrKind::NoProfitableSize)
                                } else {
                                    self.conclude_route(o, p, fixed)
                                }
                            },
                        }
                    }
                },
            },
        }
    }

    /// The search's step count, where the search runs.
    pub open spec fn iterations_spec(&self, p: (int, int), max_size: Option<(int, int)>) -> Option<nat> {
        match self.bracket_spec(p, (1, 0), 0) {
            None => None,
            Some(h) => match s_mul(Some(h), Some((2, 0))) {
                None => None,
                Some(h2) => match self.search_spec(p, (0, 0), clip_hi(h2, max_size), (1, 6)) {
                    None => None,
                    Some((_, it)) => Some(it),
                },
            },
        }
    }

    /// What `optimal_size` computes.
    pub open spec fn optimal_size_spec(
        &self,
        p: (int, int),
        fixed: (int, int),
        max_size: Option<(int, int)>,
    ) -> Result<((int, int), (int, int)), ErrKind> {
        if p.0 <= 0 {
            Err(ErrKind::InvalidReserves)
        } else {
            match self.output_spec((1, 6)) {
                None => Err(ErrKind::InvalidReserves),
                Some(probe) => match s_div(Some(probe), Some((1, 6))) {
                    None => Err(ErrKind::InvalidReserves),
                    Some(m) => if !value_lt(p, m) {
                        Err(ErrKind::NoArbitrageOpportunity)
                    } else {
                        self.from_bracket(self.bracket_spec(p, (1, 0), 0), p, fixed, max_size)
                    },
                },
            }
        }
    }

    /// A two-leg route.
    pub fn new(leg1: Leg, leg2: Leg) -> (r: Route)
        ensures
            r.legs@ == seq![leg1, leg2],
    {
        let mut legs: Vec<Leg> = Vec::new();
        legs.push(leg1);
        legs.push(leg2);
        Route { legs }
    }

    /// An N-leg route; `InvalidReserves` unless there are at least two legs.
    pub fn new_multi_hop(legs: Vec<Leg>) -> (r: Result<Route, SizingError>)
        ensures
            r is Ok <==> legs@.len() >= 2,
            r matches Ok(route) ==> route.legs@ == legs@,
            r matches Err(e) ==> e@ == ErrKind::InvalidReserves && detail_of(e)
                == "route must contain at least 2 legs, got "@ + nat_text(legs@.len()),
    {
        if legs.len() < 2 {
            return Err(invalid_text(with_count("route must contain at least 2 legs, got ", legs.len())));
        }
        Ok(Route { legs })
    }

    /// The first leg.
    pub fn leg1(&self) -> (r: &Leg)
        requires
            self.legs@.len() >= 1,
        ensures
            *r == self.legs@[0],
    {
        &self.legs[0]
    }

    /// The second leg.
    pub fn leg2(&self) -> (r: &Leg)
        requires
            self.legs@.len() >= 2,
        ensures
            *r == self.legs@[1],
    {
        &self.legs[1]
    }

    /// The output of `delta_in` through every leg in order; `None` as soon
    /// as a leg's quote fails.
    pub fn route_output(&self, delta_in: Dec) -> (r: Option<Dec>)
        ensures
            ov(r) == self.output_spec(delta_in@),
    {
        let ghost d = delta_in@;
        let mut current = delta_in;
        let mut i: usize = 0;
        while i < self.legs.len()
            invariant
                i <= self.legs@.len(),
                d == delta_in@,
                route_spec(self.legs@, d, i as nat) == Some(current@),
            decreases self.legs@.len() - i,
        {
            let ghost cur = current@;
            match self.legs[i].quote(current) {
                Ok(o) => {
                    current = o;
                },
                Err(_) => {
                    proof {
                        assert(self.legs@[i as int].quote_spec(cur) is Err);
                        assert(route_spec(self.legs@, d, (i + 1) as nat) is None);
                        lemma_route_none(self.legs@, d, (i + 1) as nat, self.legs@.len());
                    }
                    return None;
                },
            }
            i = i + 1;
        }
        Some(current)
    }

    fn profit_at(&self, p: &Dec, x: &Dec) -> (r: Option<Dec>)
        ensures
            ov(r) == self.profit_spec(p@, x@),
    {
        match self.route_output(x.copy()) {
            Some(out) => o_sub(Some(out), o_mul(some(p), some(x))),
            None => Some(Dec::min_value()),
        }
    }

    /// Golden-section maximization of the route's profit on `[lo, hi]`,
    /// until the bracket is no wider than `tolerance * max(hi, 1)` or the
    /// iteration cap is passed; the bracket's midpoint and the step count.
    /// `InvalidReserves` when a step overflows.
    fn golden_section_maximize(&self, p: &Dec, lo: Dec, hi: Dec, tolerance: &Dec) -> (r: Result<
        (Dec, u32),
        SizingError,
    >)
        ensures
            match r {
                Ok((m, it)) => self.search_spec(p@, lo@, hi@, tolerance@) == Some((m@, it as nat)),
                Err(e) => self.search_spec(p@, lo@, hi@, tolerance@) is None && e@
                    == ErrKind::InvalidReserves,
            },
    {
        let thr = match o_mul(some(tolerance), Some(hi.max(&Dec::one()))) {
            Some(t) => t,
            None => return Err(overflow()),
        };
        let span = o_mul(Some(golden_ratio_inv()), o_sub(some(&hi), some(&lo)));
        let span2 = match &span {
            Some(s) => Some(s.copy()),
            None => None,
        };
        let (mut c, mut d) = match (o_sub(some(&hi), span), o_add(some(&lo), span2)) {
            (Some(u), Some(v)) => (u, v),
            _ => return Err(overflow()),
        };
        let (mut fc, mut fd) = match (self.profit_at(p, &c), self.profit_at(p, &d)) {
            (Some(u), Some(v)) => (u, v),
            _ => return Err(overflow()),
        };
        let ghost target = self.maximize_spec(p@, thr@, lo@, hi@, c@, d@, fc@, fd@, 0);
        let ghost whole = self.search_spec(p@, lo@, hi@, tolerance@);
        let mut a = lo.copy();
        let mut b = hi.copy();
        let mut it: u32 = 0;
        loop
            invariant_except_break
                it <= MAX_GOLDEN_ITERATIONS,
                target == self.maximize_spec(p@, thr@, a@, b@, c@, d@, fc@, fd@, it as nat),
            invariant
                whole == self.search_spec(p@, lo@, hi@, tolerance@),
                whole == match target {
                    None => None,
                    Some((a2, b2, it2)) => match s_div(s_add(Some(a2), Some(b2)), Some((2, 0))) {
                        None => None,
                        Some(m) => Some((m, it2)),
                    },
                },
            ensures
                target == Some::<((int, int), (int, int), nat)>((a@, b@, it as nat)),
                whole == match target {
                    None => None,
                    Some((a2, b2, it2)) => match s_div(s_add(Some(a2), Some(b2)), Some((2, 0))) {
                        None => None,
                        Some(m) => Some((m, it2)),
                    },
                },
            decreases MAX_GOLDEN_ITERATIONS - it,
        {
            let w = match o_sub(some(&b), some(&a)) {
                Some(w) => w,
                None => return Err(overflow()),
            };
            if !dec_lt(&thr, &w) {
                break ;
            }
            if dec_lt(&fd, &fc) {
                let c2 = match o_sub(some(&d), o_mul(Some(golden_ratio_inv()), o_sub(some(&d), some(&a)))) {
                    Some(v) => v,
                    None => return Err(overflow()),
                };
                let fc2 = match self.profit_at(p, &c2) {
                    Some(v) => v,
                    None => return Err(overflow()),
                };
                b = d;
                d = c;
                fd = fc;
                c = c2;
                fc = fc2;
            } else {
                let d2 = match o_add(some(&c), o_mul(Some(golden_ratio_inv()), o_sub(some(&b), some(&c)))) {
                    Some(v) => v,
                    None => return Err(overflow()),
                };
                let fd2 = match self.profit_at(p, &d2) {
                    Some(v) => v,
                    None => return Err(overflow()),
                };
                a = c;
                c = d;
                fc = fd;
                d = d2;
                fd = fd2;
            }
            it = it + 1;
            if (it > MAX_GOLDEN_ITERATIONS) {
                break ;
            }
        }
        match o_div(o_add(some(&a), some(&b)), Some(Dec::two())) {
            Some(m) => Ok((m, it)),
            None => Err(overflow()),
        }
    }

    /// Doubling from 1 while the route's profit still grows at twice the
    /// current bound, for at most `MAX_BRACKET_DOUBLINGS + 1` doublings; the
    /// last bound. `InvalidReserves` when a step overflows.
    fn bracket(&self, p: &Dec) -> (r: Result<Dec, SizingError>)
        ensures
            match r {
                Ok(h) => self.bracket_spec(p@, (1, 0), 0) == Some(h@),
                Err(e) => self.bracket_spec(p@, (1, 0), 0) is None && e@ == ErrKind::InvalidReserves,
            },
    {
        let mut hi = Dec::one();
        let mut guard: u32 = 0;
        loop
            invariant_except_break
                guard <= MAX_BRACKET_DOUBLINGS,
                self.bracket_spec(p@, (1, 0), 0) == self.bracket_spec(p@, hi@, guard as nat),
            ensures
                self.bracket_spec(p@, (1, 0), 0) == Some(hi@),
            decreases MAX_BRACKET_DOUBLINGS + 1 - guard,
        {
            let h2 = match o_mul(some(&hi), Some(Dec::two())) {
                Some(v) => v,
                None => return Err(overflow()),
            };
            let (f2, f1) = match (self.profit_at(p, &h2), self.profit_at(p, &hi)) {
                (Some(u), Some(v)) => (u, v),
                _ => return Err(overflow()),
            };
            if !dec_lt(&f1, &f2) {
                break ;
            }
            hi = h2;
            guard = guard + 1;
            if (guard > MAX_BRACKET_DOUBLINGS) {
                break ;
            }
        }
        Ok(hi)
    }

    /// Every leg's diagnostic tier in order, or the first leg's error.
    fn collect_tiers(&self) -> (r: Result<Vec<GuaranteeTier>, SizingError>)
        ensures
            match r {
                Ok(v) => tiers_spec(self.legs@, self.legs@.len()) == Ok::<
                    Seq<GuaranteeTier>,
                    ErrKind,
                >(v@),
                Err(e) => tiers_spec(self.legs@, self.legs@.len()) == Err::<
                    Seq<GuaranteeTier>,
                    ErrKind,
                >(e@),
            },
    {
        let mut tiers: Vec<GuaranteeTier> = Vec::new();
        let mut i: usize = 0;
        while i < self.legs.len()
            invariant
                i <= self.legs@.len(),
                tiers_spec(self.legs@, i as nat) == Ok::<Seq<GuaranteeTier>, ErrKind>(tiers@),
            decreases self.legs@.len() - i,
        {
            match self.legs[i].diagnostic_tier() {
                Ok(t) => {
                    tiers.push(t);
                },
                Err(e) => {
                    proof {
                        lemma_tiers_err(self.legs@, (i + 1) as nat, self.legs@.len(), e@);
                    }
                    return Err(e);
                },
            }
            i = i + 1;
        }
        Ok(tiers)
    }

    /// The route's profit-maximizing input against the whole-route
    /// reference price (units of the last leg's output per unit of the first
    /// leg's input): bracket by doubling from 1, clip to `max_size`, then
    /// golden-section search. `NoArbitrageOpportunity` unless the route's
    /// marginal price on a `1e-6` trade exceeds `P`; the tier is
    /// `ComposedFrom` the legs' diagnostic tiers.
    pub fn optimal_size(&self, reference_price: Dec, constraints: SizingConstraints) -> (r: Result<
        SizingResult,
        SizingError,
    >)
        ensures
            srv(r) == self.optimal_size_spec(
                reference_price@,
                constraints.fixed_cost@,
                ov(constraints.max_size),
            ),
            r matches Ok(res) ==> (res.guarantee_tier matches GuaranteeTier::ComposedFrom(ts)
                && tiers_spec(self.legs@, self.legs@.len()) == Ok::<
                Seq<GuaranteeTier>,
                ErrKind,
            >(ts@)),
            r matches Ok(res) ==> (self.iterations_spec(reference_price@, ov(constraints.max_size))
                matches Some(it) && res.iterations == Some(it as u32)),
            r matches Ok(res) ==> value_lt((0, 0), res.optimal_delta@) && (constraints.max_size
                matches Some(m) ==> value_le(res.optimal_delta@, m@)),
            reference_price@.0 <= 0 ==> (r matches Err(e) && e@ == ErrKind::InvalidReserves
                && detail_of(e) == got("reference_price must be > 0"@, reference_price@)),
    {
        if !reference_price.is_positive() {
            return Err(invalid_got("reference_price must be > 0", &reference_price));
        }
        let probe_epsilon = Dec::lit(1, 6);
        let probe_output = match self.route_output(probe_epsilon.copy()) {
            Some(o) => o,
            None => return Err(invalid("route is infeasible at minimal probe size")),
        };
        let marginal_price = match o_div(Some(probe_output), some(&probe_epsilon)) {
            Some(m) => m,
            None => return Err(overflow()),
        };
        if !dec_lt(&reference_price, &marginal_price) {
            return Err(SizingError::NoArbitrageOpportunity);
        }
        let ghost p = reference_price@;
        let ghost fixed = constraints.fixed_cost@;
        let ghost max_size = ov(constraints.max_size);
        let hi = match self.bracket(&reference_price) {
            Ok(h) => h,
            Err(e) => return Err(e),
        };
        let doubled = match o_mul(some(&hi), Some(Dec::two())) {
            Some(v) => v,
            None => return Err(overflow()),
        };
        let hi = match &constraints.max_size {
            Some(m) => doubled.min(m),
            None => doubled,
        };
        if !hi.is_positive() {
            return Err(SizingError::NoProfitableSize);
        }
        let (optimal_delta, iterations) = match self.golden_section_maximize(
            &reference_price,
            Dec::zero(),
            hi,
            &golden_section_tolerance(),
        ) {
            Ok(v) => v,
            Err(e) => return Err(e),
        };
        let optimal_delta = match &constraints.max_size {
            Some(m) => optimal_delta.min(m),
            None => optimal_delta,
        };
        if !dec_lt(&Dec::zero(), &optimal_delta) {
            return Err(SizingError::NoProfitableSize);
        }
        let route_out = match self.route_output(optimal_delta.copy()) {
            Some(o) => o,
            None => return Err(invalid("route became infeasible at the search's optimum")),
        };
        let expected_profit = match o_sub(
            o_sub(Some(route_out), o_mul(some(&reference_price), some(&optimal_delta))),
            some(&constraints.fixed_cost),
        ) {
            Some(e) => e,
            None => return Err(overflow()),
        };
        if !expected_profit.is_positive() {
            return Err(SizingError::NoProfitableSize);
        }
        let tiers = match self.collect_tiers() {
            Ok(t) => t,
            Err(e) => return Err(e),
        };
        Ok(
            SizingResult {
                optimal_delta,
                expected_profit,
                guarantee_tier: GuaranteeTier::ComposedFrom(tiers),
                iterations: Some(iterations),
            },
        )
    }
}

/// The route's profit has stopped growing by `2·h`: doubling the input from
/// `h` does not raise it.
pub open spec fn stops_growing(route: &Route, p: (int, int), h: (int, int)) -> bool {
    match s_mul(Some(h), Some((2, 0))) {
        Some(u) => match (route.profit_spec(p, u), route.profit_spec(p, h)) {
            (Some(fu), Some(fh)) => !value_lt(fh, fu),
            _ => false,
        },
        None => false,
    }
}

/// The profit was still growing when the doubling limit was reached: `h`
/// doubles some `g` whose profit is below `h`'s.
pub open spec fn grows_at_limit(route: &Route, p: (int, int), h: (int, int)) -> bool {
    exists|g: (int, int)|
        s_mul(Some(g), Some((2, 0))) == Some(h) && match (
            route.profit_spec(p, h),
            #[trigger] route.profit_spec(p, g),
        ) {
            (Some(fh), Some(fg)) => value_lt(fg, fh),
            _ => false,
        }
}

/// Doubling ends where the profit stops growing, or at the doubling limit.
proof fn lemma_bracket_end(route: &Route, p: (int, int), hi: (int, int), guard: nat)
    requires
        route.bracket_spec(p, hi, guard) is Some,
    ensures
        stops_growing(route, p, route.bracket_spec(p, hi, guard)->0) || grows_at_limit(
            route,
            p,
            route.bracket_spec(p, hi, guard)->0,
        ),
    decreases MAX_BRACKET_DOUBLINGS + 1 - guard,
{
    let h2 = s_mul(Some(hi), Some((2, 0)))->0;
    let f2 = route.profit_spec(p, h2)->0;
    let f1 = route.profit_spec(p, hi)->0;
    if value_lt(f1, f2) {
        if guard + 1 > MAX_BRACKET_DOUBLINGS {
            assert(s_mul(Some(hi), Some((2, 0))) == Some(h2));
            assert(route.profit_spec(p, hi) == Some(f1));
        } else {
            lemma_bracket_end(route, p, h2, guard + 1);
        }
    }
}

/// The search reaches past the point where the route's profit stops
/// growing: a successful sizing maximizes over `[0, min(u, max_size)]`,
/// where `u = 2·h` and `h` is where doubling from 1 ended, so the profit at
/// `u` is no more than at `h` (unless the doubling limit cut the bracket
/// short); the size is the search's result, capped at `max_size`.
pub proof fn lemma_route_search_reaches_past_the_turn(
    route: &Route,
    p: (int, int),
    fixed: (int, int),
    max_size: Option<(int, int)>,
)
    ensures
        route.optimal_size_spec(p, fixed, max_size) matches Ok((delta, _)) ==> exists|h: (int, int)|
            route.bracket_spec(p, (1, 0), 0) == Some(h) && (stops_growing(route, p, h)
                || grows_at_limit(route, p, h)) && match #[trigger] s_mul(Some(h), Some((2, 0))) {
                Some(u) => match route.search_spec(p, (0, 0), clip_hi(u, max_size), (1, 6)) {
                    Some((opt, _)) => delta == clip_hi(opt, max_size),
                    None => false,
                },
                None => false,
            },
{
    if route.optimal_size_spec(p, fixed, max_size) is Ok {
        let h = route.bracket_spec(p, (1, 0), 0)->0;
        lemma_bracket_end(route, p, (1, 0), 0);
        assert(s_mul(Some(h), Some((2, 0))) is Some);
    }
}

/// A successful route sizing reports one tier per leg, each the tier that
/// leg's own sizing reports.
pub proof fn lemma_composed_tiers(route: &Route, ts: Seq<GuaranteeTier>)
    requires
        tiers_spec(route.legs@, route.legs@.len()) == Ok::<Seq<GuaranteeTier>, ErrKind>(ts),
    ensures
        ts.len() == route.legs@.len(),
        forall|i: int| 0 <= i < ts.len() ==> #[trigger] ts[i] == route.legs@[i].tier_spec(),
{
    lemma_tiers_one_per_leg(route.legs@, route.legs@.len(), ts);
}

} // verus!
