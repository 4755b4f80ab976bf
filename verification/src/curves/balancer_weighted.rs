//! Balancer weighted pool (`V = prod B_i^{w_i}`) with closed-form sizing.
//!
//! `quote(d) = B_o * (1 - (B_i / (B_i + f d))^(w_i / w_o))`, and the optimum
//! `d* = B_i * ((w_i B_o f / (w_o B_i P))^(w_o / (w_i + w_o)) - 1) / f`.
use crate::curves::cpmm::valid_fee;
use crate::curves::stableswap::{copy_vec, sum_spec};
use crate::decimal::{
    dec_eq, dec_lt, o_add, o_div, o_mul, o_powd, o_sub, ov, s_add, s_div, s_mul, s_powd, s_sub, some,
    value_eq, value_lt, Dec,
};
use crate::decimal::decimal_to_string;
use crate::text::nat_text;
use crate::optimality::{exact_quotient, exact_sum, lemma_units_order, scaled, ten28, units};
use crate::error::{detail_of, got, invalid, invalid_got, invalid_text, overflow, overflow_detail, rv, then_count, then_dec, then_str, with_count, with_dec, ErrKind, SizingError};
use crate::profit::{clip_hi, conclude_clipped, conclude_exec, srv, NetProfit};
use crate::traits::{PricingCurve, SizingAlgorithm};
use crate::types::{GuaranteeTier, SizingConstraints, SizingResult};
use vstd::prelude::*;

verus! {

/// A Balancer weighted constant-value pool.
#[derive(Debug, PartialEq)]
pub struct BalancerWeightedPool {
    /// Token balance reserves.
    pub reserves: Vec<Dec>,
    /// Normalized token weights, positive, summing to 1.
    pub weights: Vec<Dec>,
    /// Fee retention in `(0, 1]`.
    pub fee_retention: Dec,
    /// Index of the input token.
    pub input_index: usize,
    /// Index of the output token.
    pub output_index: usize,
}

impl Clone for BalancerWeightedPool {
    fn clone(&self) -> (r: BalancerWeightedPool)
        ensures
            r.reserves@.len() == self.reserves@.len(),
            forall|i: int| 0 <= i < self.reserves@.len() ==> #[trigger] r.reserves@[i]@ == self.reserves@[i]@,
            r.weights@.len() == self.weights@.len(),
            forall|i: int| 0 <= i < self.weights@.len() ==> #[trigger] r.weights@[i]@ == self.weights@[i]@,
            r.fee_retention@ == self.fee_retention@,
            r.input_index == self.input_index,
            r.output_index == self.output_index,
    {
        BalancerWeightedPool {
            reserves: copy_vec(&self.reserves),
            weights: copy_vec(&self.weights),
            fee_retention: self.fee_retention.copy(),
            input_index: self.input_index,
            output_index: self.output_index,
        }
    }
}

/// Every element is positive.
pub open spec fn all_positive(v: Seq<Dec>) -> bool {
    forall|i: int| 0 <= i < v.len() ==> #[trigger] v[i]@.0 > 0
}

/// The weights sum (added from zero) to exactly 1.
pub open spec fn weights_sum_to_one(w: Seq<Dec>) -> bool {
    match sum_spec(w, w.len()) {
        Some(x) => value_eq(x, (1, 0)),
        None => false,
    }
}

/// The index of the first non-positive element of `v`, where there is one.
pub open spec fn first_nonpositive(v: Seq<Dec>) -> int {
    choose|j: int|
        0 <= j < v.len() && (#[trigger] v[j])@.0 <= 0 && forall|k: int|
            0 <= k < j ==> (#[trigger] v[k])@.0 > 0
}

/// Where `i` holds the first non-positive element, `first_nonpositive` is
/// `i`.
pub proof fn lemma_first_nonpositive(v: Seq<Dec>, i: int)
    requires
        0 <= i < v.len(),
        v[i]@.0 <= 0,
        forall|k: int| 0 <= k < i ==> (#[trigger] v[k])@.0 > 0,
    ensures
        first_nonpositive(v) == i,
{
    let j = first_nonpositive(v);
    assert(0 <= i < v.len() && (v[i])@.0 <= 0 && forall|k: int|
        0 <= k < i ==> (#[trigger] v[k])@.0 > 0);
    if j < i {
        assert(v[j]@.0 > 0);
    } else if i < j {
        assert(v[i]@.0 > 0);
    }
}

/// The detail of the first weight check that fails among the first `n`
/// weights, each of which must be positive and keep the running sum in
/// range; `None` where none fails.
pub open spec fn weights_detail(w: Seq<Dec>, n: nat) -> Option<Seq<char>>
    decreases n,
{
    if n == 0 {
        None
    } else {
        match weights_detail(w, (n - 1) as nat) {
            Some(t) => Some(t),
            None => if w[n - 1]@.0 <= 0 {
                Some(
                    "weight "@ + nat_text((n - 1) as nat) + " must be > 0, got "@
                        + decimal_to_string(w[n - 1]@),
                )
            } else if sum_spec(w, n) is None {
                Some(overflow_detail())
            } else {
                None
            },
        }
    }
}

/// Once a weight check has failed, the detail stays that of the first.
proof fn lemma_weights_detail_stays(w: Seq<Dec>, m: nat, n: nat)
    requires
        m <= n,
        weights_detail(w, m) is Some,
    ensures
        weights_detail(w, n) == weights_detail(w, m),
    decreases n - m,
{
    if m < n {
        lemma_weights_detail_stays(w, m, (n - 1) as nat);
    }
}

/// The detail `BalancerWeightedPool::new` reports: that of its first
/// failing check.
pub open spec fn new_detail(
    reserves: Seq<Dec>,
    weights: Seq<Dec>,
    fee_retention: (int, int),
    input_index: usize,
    output_index: usize,
) -> Seq<char> {
    if reserves.len() < 2 {
        "pool must have at least 2 assets, got "@ + nat_text(reserves.len())
    } else if reserves.len() != weights.len() {
        "reserves count ("@ + nat_text(reserves.len()) + ") must match weights count ("@
            + nat_text(weights.len()) + ")"@
    } else if input_index >= reserves.len() || output_index >= reserves.len() {
        "indices out of bounds: input_index="@ + nat_text(input_index as nat)
            + ", output_index="@ + nat_text(output_index as nat) + ", total="@ + nat_text(
            reserves.len(),
        )
    } else if input_index == output_index {
        "input_index and output_index must be distinct"@
    } else if !all_positive(reserves) {
        "reserve "@ + nat_text(first_nonpositive(reserves) as nat) + " must be > 0, got "@
            + decimal_to_string(reserves[first_nonpositive(reserves)]@)
    } else {
        match weights_detail(weights, weights.len()) {
            Some(t) => t,
            None => if !weights_sum_to_one(weights) {
                "weights must sum to 1.0, got sum "@ + decimal_to_string(
                    sum_spec(weights, weights.len())->0,
                )
            } else {
                got("fee_retention must be in (0, 1]"@, fee_retention)
            },
        }
    }
}

impl BalancerWeightedPool {
    /// The indices name two distinct tokens of the pool.
    pub open spec fn indices_ok(&self) -> bool {
        self.input_index < self.reserves@.len() && self.output_index < self.reserves@.len()
            && self.input_index < self.weights@.len() && self.output_index < self.weights@.len()
    }

    /// `B_i`.
    pub open spec fn bi(&self) -> (int, int) {
        self.reserves@[self.input_index as int]@
    }

    /// `B_o`.
    pub open spec fn bo(&self) -> (int, int) {
        self.reserves@[self.output_index as int]@
    }

    /// `w_i`.
    pub open spec fn wi(&self) -> (int, int) {
        self.weights@[self.input_index as int]@
    }

    /// `w_o`.
    pub open spec fn wo(&self) -> (int, int) {
        self.weights@[self.output_index as int]@
    }

    /// What `quote` computes.
    pub open spec fn quote_spec(&self, d: (int, int)) -> Result<(int, int), ErrKind> {
        if d.0 < 0 || !self.indices_ok() {
            Err(ErrKind::InvalidReserves)
        } else if d.0 == 0 {
            Ok((0, 0))
        } else {
            let base = s_div(
                Some(self.bi()),
                s_add(Some(self.bi()), s_mul(Some(self.fee_retention@), Some(d))),
            );
            let exponent = s_div(Some(self.wi()), Some(self.wo()));
            match s_mul(Some(self.bo()), s_sub(Some((1, 0)), s_powd(base, exponent))) {
                None => Err(ErrKind::InvalidReserves),
                Some(out) => if out.0 < 0 {
                    Err(ErrKind::InvalidReserves)
                } else {
                    Ok(out)
                },
            }
        }
    }

    /// What `optimal_size` computes.
    pub open spec fn optimal_size_spec(
        &self,
        p: (int, int),
        fixed: (int, int),
        max_size: Option<(int, int)>,
    ) -> Result<((int, int), (int, int)), ErrKind> {
        if p.0 <= 0 || !self.indices_ok() {
            Err(ErrKind::InvalidReserves)
        } else {
            let f = self.fee_retention@;
            match s_mul(
                s_div(Some(self.wi()), Some(self.wo())),
                s_div(s_mul(Some(self.bo()), Some(f)), Some(self.bi())),
            ) {
                None => Err(ErrKind::InvalidReserves),
                Some(marginal) => if !value_lt(p, marginal) {
                    Err(ErrKind::NoArbitrageOpportunity)
                } else {
                    let base = s_div(
                        s_mul(s_mul(Some(self.wi()), Some(self.bo())), Some(f)),
                        s_mul(s_mul(Some(self.wo()), Some(self.bi())), Some(p)),
                    );
                    let exponent = s_div(Some(self.wo()), s_add(Some(self.wi()), Some(self.wo())));
                    match s_div(
                        s_mul(Some(self.bi()), s_sub(s_powd(base, exponent), Some((1, 0)))),
                        Some(f),
                    ) {
                        None => Err(ErrKind::InvalidReserves),
                        Some(u) => if u.0 <= 0 {
                            Err(ErrKind::NoArbitrageOpportunity)
                        } else {
                            conclude_clipped(
                                u,
                                max_size,
                                self.quote_spec(clip_hi(u, max_size)),
                                p,
                                fixed,
                            )
                        },
                    }
                },
            }
        }
    }

    /// Constructs a pool. Returns `InvalidReserves` unless there are at
    /// least two assets, as many weights as reserves, two distinct in-range
    /// indices, positive reserves and weights, weights summing to 1, and a
    /// fee retention in `(0, 1]`.
    pub fn new(
        reserves: Vec<Dec>,
        weights: Vec<Dec>,
        fee_retention: Dec,
        input_index: usize,
        output_index: usize,
    ) -> (r: Result<BalancerWeightedPool, SizingError>)
        ensures
            r is Ok <==> reserves@.len() >= 2 && reserves@.len() == weights@.len() && input_index
                < reserves@.len() && output_index < reserves@.len() && input_index != output_index
                && all_positive(reserves@) && all_positive(weights@) && weights_sum_to_one(
                weights@,
            ) && valid_fee(fee_retention@),
            r matches Ok(pool) ==> pool.reserves@ == reserves@ && pool.weights@ == weights@
                && pool.fee_retention@ == fee_retention@ && pool.input_index == input_index
                && pool.output_index == output_index,
            r matches Err(e) ==> e@ == ErrKind::InvalidReserves && detail_of(e) == new_detail(
                reserves@,
                weights@,
                fee_retention@,
                input_index,
                output_index,
            ),
    {
        if reserves.len() < 2 {
            return Err(invalid_text(with_count("pool must have at least 2 assets, got ", reserves.len())));
        }
        if reserves.len() != weights.len() {
            return Err(
                invalid_text(
                    then_str(
                        then_count(
                            then_str(with_count("reserves count (", reserves.len()), ") must match weights count ("),
                            weights.len(),
                        ),
                        ")",
                    ),
                ),
            );
        }
        if input_index >= reserves.len() || output_index >= reserves.len() {
            return Err(
                invalid_text(
                    then_count(
                        then_str(
                            then_count(
                                then_str(with_count("indices out of bounds: input_index=", input_index), ", output_index="),
                                output_index,
                            ),
                            ", total=",
                        ),
                        reserves.len(),
                    ),
                ),
            );
        }
        if input_index == output_index {
            return Err(invalid("input_index and output_index must be distinct"));
        }
        let mut i: usize = 0;
        while i < reserves.len()
            invariant
                i <= reserves@.len(),
                forall|j: int| 0 <= j < i ==> #[trigger] reserves@[j]@.0 > 0,
                reserves@.len() >= 2,
                reserves@.len() == weights@.len(),
                input_index < reserves@.len() && output_index < reserves@.len(),
                input_index != output_index,
            decreases reserves@.len() - i,
        {
            if !reserves[i].is_positive() {
                proof {
                    lemma_first_nonpositive(reserves@, i as int);
                }
                return Err(
                    invalid_text(then_dec(then_str(with_count("reserve ", i), " must be > 0, got "), &reserves[i])),
                );
            }
            i = i + 1;
        }
        let mut weight_sum = Dec::zero();
        let mut i: usize = 0;
        while i < weights.len()
            invariant
                i <= weights@.len(),
                forall|j: int| 0 <= j < i ==> #[trigger] weights@[j]@.0 > 0,
                sum_spec(weights@, i as nat) == Some(weight_sum@),
                weights_detail(weights@, i as nat) is None,
                reserves@.len() >= 2,
                reserves@.len() == weights@.len(),
                input_index < reserves@.len() && output_index < reserves@.len(),
                input_index != output_index,
                all_positive(reserves@),
            decreases weights@.len() - i,
        {
            if !weights[i].is_positive() {
                proof {
                    lemma_weights_detail_stays(weights@, (i + 1) as nat, weights@.len());
                }
                return Err(
                    invalid_text(then_dec(then_str(with_count("weight ", i), " must be > 0, got "), &weights[i])),
                );
            }
            weight_sum = match o_add(Some(weight_sum), some(&weights[i])) {
                Some(v) => v,
                None => {
                    proof {
                        assert(sum_spec(weights@, (i + 1) as nat) is None);
                        lemma_sum_none_here(weights@, (i + 1) as nat, weights@.len());
                        lemma_weights_detail_stays(weights@, (i + 1) as nat, weights@.len());
                    }
                    return Err(overflow());
                },
            };
            i = i + 1;
        }
        if !dec_eq(&weight_sum, &Dec::one()) {
            return Err(invalid_text(with_dec("weights must sum to 1.0, got sum ", &weight_sum)));
        }
        if !fee_retention.is_positive() || dec_lt(&Dec::one(), &fee_retention) {
            return Err(invalid_got("fee_retention must be in (0, 1]", &fee_retention));
        }
        Ok(BalancerWeightedPool { reserves, weights, fee_retention, input_index, output_index })
    }

    /// Input token reserve `B_i`.
    pub fn input_reserve(&self) -> (r: Dec)
        requires
            self.input_index < self.reserves@.len(),
        ensures
            r@ == self.reserves@[self.input_index as int]@,
    {
        self.reserves[self.input_index].copy()
    }

    /// Output token reserve `B_o`.
    pub fn output_reserve(&self) -> (r: Dec)
        requires
            self.output_index < self.reserves@.len(),
        ensures
            r@ == self.reserves@[self.output_index as int]@,
    {
        self.reserves[self.output_index].copy()
    }

    /// Input token weight `w_i`.
    pub fn input_weight(&self) -> (r: Dec)
        requires
            self.input_index < self.weights@.len(),
        ensures
            r@ == self.weights@[self.input_index as int]@,
    {
        self.weights[self.input_index].copy()
    }

    /// Output token weight `w_o`.
    pub fn output_weight(&self) -> (r: Dec)
        requires
            self.output_index < self.weights@.len(),
        ensures
            r@ == self.weights@[self.output_index as int]@,
    {
        self.weights[self.output_index].copy()
    }

    fn check_indices(&self) -> (r: bool)
        ensures
            r == self.indices_ok(),
    {
        self.input_index < self.reserves.len() && self.output_index < self.reserves.len()
            && self.input_index < self.weights.len() && self.output_index < self.weights.len()
    }
}

/// Once the sum fails it stays failed.
proof fn lemma_sum_none_here(rs: Seq<Dec>, m: nat, n: nat)
    requires
        m <= n,
        sum_spec(rs, m) is None,
    ensures
        sum_spec(rs, n) is None,
    decreases n - m,
{
    if m < n {
        lemma_sum_none_here(rs, m + 1, n);
    }
}

impl PricingCurve for BalancerWeightedPool {
    /// `B_o * (1 - (B_i / (B_i + f d))^(w_i / w_o))`; `InvalidReserves` for a
    /// negative size, a failed power, or a negative output.
    fn quote(&self, delta_in: Dec) -> (r: Result<Dec, SizingError>)
        ensures
            rv(r) == self.quote_spec(delta_in@),
            delta_in@.0 < 0 ==> (r matches Err(e) && detail_of(e) == got(
                "delta_in must be >= 0"@,
                delta_in@,
            )),
    {
        if delta_in.is_negative() {
            return Err(invalid_got("delta_in must be >= 0", &delta_in));
        }
        if !self.check_indices() {
            return Err(invalid("indices out of bounds"));
        }
        if delta_in.is_zero() {
            return Ok(Dec::zero());
        }
        let bi = self.input_reserve();
        let bo = self.output_reserve();
        let wi = self.input_weight();
        let wo = self.output_weight();
        let denominator = o_add(some(&bi), o_mul(some(&self.fee_retention), some(&delta_in)));
        let base = o_div(some(&bi), denominator);
        let exponent = o_div(some(&wi), some(&wo));
        let output = match o_mul(some(&bo), o_sub(Some(Dec::one()), o_powd(base, exponent))) {
            Some(o) => o,
            None => return Err(invalid("failed to compute the weighted-pool quote")),
        };
        if output.is_negative() {
            return Err(invalid("computed negative output"));
        }
        Ok(output)
    }
}

impl SizingAlgorithm for BalancerWeightedPool {
    /// The closed-form optimum; `NoArbitrageOpportunity` unless the marginal
    /// price `(w_i / w_o) * (B_o f / B_i)` exceeds `P` and the optimum is
    /// positive.
    fn optimal_size(&self, reference_price: Dec, constraints: SizingConstraints) -> (r: Result<
        SizingResult,
        SizingError,
    >)
        ensures
            srv(r) == self.optimal_size_spec(
                reference_price@,
                constraints.fixed_cost@,
                ov(constraints.max_size),
            ),
            r matches Ok(res) ==> res.guarantee_tier == GuaranteeTier::ProvenOptimal
                && res.iterations is None,
            reference_price@.0 <= 0 ==> (r matches Err(e) && e@ == ErrKind::InvalidReserves
                && detail_of(e) == got("reference_price must be > 0"@, reference_price@)),
    {
        if !reference_price.is_positive() {
            return Err(invalid_got("reference_price must be > 0", &reference_price));
        }
        if !self.check_indices() {
            return Err(invalid("indices out of bounds"));
        }
        let bi = self.input_reserve();
        let bo = self.output_reserve();
        let wi = self.input_weight();
        let wo = self.output_weight();
        let f = self.fee_retention.copy();
        let marginal_price = match o_mul(
            o_div(some(&wi), some(&wo)),
            o_div(o_mul(some(&bo), some(&f)), some(&bi)),
        ) {
            Some(m) => m,
            None => return Err(overflow()),
        };
        if !dec_lt(&reference_price, &marginal_price) {
            return Err(SizingError::NoArbitrageOpportunity);
        }
        let base = o_div(
            o_mul(o_mul(some(&wi), some(&bo)), some(&f)),
            o_mul(o_mul(some(&wo), some(&bi)), some(&reference_price)),
        );
        let exponent = o_div(some(&wo), o_add(some(&wi), some(&wo)));
        let unconstrained_delta = match o_div(
            o_mul(some(&bi), o_sub(o_powd(base, exponent), Some(Dec::one()))),
            some(&f),
        ) {
            Some(u) => u,
            None => return Err(invalid("failed to compute the weighted-pool optimum")),
        };
        if !unconstrained_delta.is_positive() {
            return Err(SizingError::NoArbitrageOpportunity);
        }
        let (_, optimal_delta) = match NetProfit::restrict_domain(
            &constraints,
            (Dec::zero(), unconstrained_delta),
        ) {
            Ok(dd) => dd,
            Err(e) => return Err(e),
        };
        proof {
            crate::profit::lemma_above_zero(optimal_delta@);
        }
        let quoted = self.quote(optimal_delta.copy());
        conclude_exec(
            optimal_delta,
            quoted,
            &reference_price,
            &constraints.fixed_cost,
            GuaranteeTier::ProvenOptimal,
            None,
        )
    }
}

/// Where the two divisions and the addition that give the exponents are
/// exact: `e · (1 + α) = 1`, `α = w_i / w_o` being the power in the quote's
/// output `B_o·(1 − (B_i/(B_i + f·d))^α)` and `e = w_o / (w_i + w_o)`.
proof fn lemma_exponents_reciprocal(pool: BalancerWeightedPool)
    requires
        pool.wi().0 > 0,
        pool.wo().0 > 0,
        scaled(pool.wi()),
        scaled(pool.wo()),
        exact_quotient(s_div(Some(pool.wi()), Some(pool.wo())), pool.wi(), pool.wo()),
        exact_sum(s_add(Some(pool.wi()), Some(pool.wo())), pool.wi(), pool.wo()),
        exact_quotient(
            s_div(Some(pool.wo()), s_add(Some(pool.wi()), Some(pool.wo()))),
            pool.wo(),
            s_add(Some(pool.wi()), Some(pool.wo()))->0,
        ),
    ensures
        units(s_div(Some(pool.wo()), s_add(Some(pool.wi()), Some(pool.wo())))->0) * (ten28() + units(
            s_div(Some(pool.wi()), Some(pool.wo()))->0,
        )) == ten28() * ten28(),
{
    let t = ten28();
    let e = units(s_div(Some(pool.wo()), s_add(Some(pool.wi()), Some(pool.wo())))->0);
    let a = units(s_div(Some(pool.wi()), Some(pool.wo()))->0);
    let sum = units(s_add(Some(pool.wi()), Some(pool.wo()))->0);
    let wi = units(pool.wi());
    let wo = units(pool.wo());
    lemma_units_order(pool.wo(), (0, 0));
    assert(wo > 0);
    assert(e * sum == wo * t);
    assert(sum == wi + wo);
    assert(a * wo == wi * t);
    assert(wo * (e * (t + a)) == e * t * wo + e * (a * wo)) by (nonlinear_arith);
    assert(e * (a * wo) == e * (wi * t)) by (nonlinear_arith)
        requires
            a * wo == wi * t,
    ;
    assert(e * t * wo + e * (wi * t) == t * (e * sum)) by (nonlinear_arith)
        requires
            sum == wi + wo,
    ;
    assert(t * (e * sum) == wo * (t * t)) by (nonlinear_arith)
        requires
            e * sum == wo * t,
    ;
    assert(e * (t + a) == t * t) by (nonlinear_arith)
        requires
            wo * (e * (t + a)) == wo * (t * t),
            wo > 0,
    ;
}

/// The closed form solves the first-order condition for any number of
/// tokens: a sizing without a cap grows the input reserve by `base^e`,
/// `(B_i + f·d) / B_i = base^e` with `base = (w_i·B_o·f) / (w_o·B_i·P)` the
/// ratio of the marginal output at zero to the price, and, wherever the
/// exponents' arithmetic is exact, `e · (1 + α) = 1` for the quote's power
/// `α = w_i / w_o`. So `((B_i + f·d)/B_i)^(1 + α) = base`, which is where the
/// marginal output `α·B_o·f·B_i^α / (B_i + f·d)^(1 + α)` meets `P`.
pub proof fn lemma_optimum_meets_the_price(pool: BalancerWeightedPool, p: (int, int), fixed: (int, int))
    requires
        pool.optimal_size_spec(p, fixed, None) is Ok,
        pool.wi().0 > 0,
        pool.wo().0 > 0,
        scaled(pool.wi()),
        scaled(pool.wo()),
        exact_quotient(s_div(Some(pool.wi()), Some(pool.wo())), pool.wi(), pool.wo()),
        exact_sum(s_add(Some(pool.wi()), Some(pool.wo())), pool.wi(), pool.wo()),
        exact_quotient(
            s_div(Some(pool.wo()), s_add(Some(pool.wi()), Some(pool.wo()))),
            pool.wo(),
            s_add(Some(pool.wi()), Some(pool.wo()))->0,
        ),
    ensures
        exists|e: (int, int)|
            units(e) * (ten28() + units(s_div(Some(pool.wi()), Some(pool.wo()))->0)) == ten28()
                * ten28() && s_div(
                s_mul(
                    Some(pool.bi()),
                    s_sub(
                        #[trigger] s_powd(
                            s_div(
                                s_mul(s_mul(Some(pool.wi()), Some(pool.bo())), Some(pool.fee_retention@)),
                                s_mul(s_mul(Some(pool.wo()), Some(pool.bi())), Some(p)),
                            ),
                            Some(e),
                        ),
                        Some((1, 0)),
                    ),
                ),
                Some(pool.fee_retention@),
            ) == Some(pool.optimal_size_spec(p, fixed, None)->Ok_0.0),
{
    lemma_exponents_reciprocal(pool);
    let e = s_div(Some(pool.wo()), s_add(Some(pool.wi()), Some(pool.wo())))->0;
    let f = pool.fee_retention@;
    let base = s_div(
        s_mul(s_mul(Some(pool.wi()), Some(pool.bo())), Some(f)),
        s_mul(s_mul(Some(pool.wo()), Some(pool.bi())), Some(p)),
    );
    let u = s_div(s_mul(Some(pool.bi()), s_sub(s_powd(base, Some(e)), Some((1, 0)))), Some(f))->0;
    assert(clip_hi(u, None) == u);
}

/// A quote raises the reserve ratio `B_i / (B_i + f·d)` to the power
/// `α = w_i / w_o` (the input weight over the output weight, whatever other
/// tokens the pool holds): where that division is exact, the power `α` used
/// satisfies `α · w_o = w_i`, and the output is `B_o·(1 − ratio^α)`.
pub proof fn lemma_quote_power_is_the_weight_ratio(pool: BalancerWeightedPool, d: (int, int))
    requires
        d.0 > 0,
        pool.quote_spec(d) is Ok,
        exact_quotient(s_div(Some(pool.wi()), Some(pool.wo())), pool.wi(), pool.wo()),
    ensures
        exists|a: (int, int)|
            units(a) * units(pool.wo()) == units(pool.wi()) * ten28() && pool.quote_spec(d) == Ok::<
                (int, int),
                ErrKind,
            >(
                s_mul(
                    Some(pool.bo()),
                    s_sub(
                        Some((1, 0)),
                        #[trigger] s_powd(
                            s_div(
                                Some(pool.bi()),
                                s_add(Some(pool.bi()), s_mul(Some(pool.fee_retention@), Some(d))),
                            ),
                            Some(a),
                        ),
                    ),
                )->0,
            ),
{
    let a = s_div(Some(pool.wi()), Some(pool.wo()))->0;
    let base = s_div(
        Some(pool.bi()),
        s_add(Some(pool.bi()), s_mul(Some(pool.fee_retention@), Some(d))),
    );
    assert(s_powd(base, Some(a)) == s_powd(base, s_div(Some(pool.wi()), Some(pool.wo()))));
}

} // verus!
