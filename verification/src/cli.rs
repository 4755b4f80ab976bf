//! The command-line tool's route leg specifications and result text.
use crate::curves::balancer_weighted::{all_positive, weights_sum_to_one};
use crate::curves::cpmm::valid_fee;
use crate::curves::dodo_pmm::unit_interval;
use crate::curves::{
    BalancerWeightedPool, ConcentratedLiquidity, Cpmm, CurveCryptoSwap, DodoPmm, Pmm, StableSwap,
};
use crate::decimal::{value_lt, Dec};
use crate::error::{detail_of, ErrKind, SizingError};
use crate::route::Leg;
use crate::types::GuaranteeTier;
use crate::watch::engine::{tier_display, tier_text};
use vstd::prelude::*;

verus! {

/// One leg of a route given on the command line, by curve type.
#[derive(Debug)]
pub enum LegSpec {
    /// A constant-product pool.
    Cpmm { x: Dec, y: Dec, fee: Dec },
    /// A StableSwap pool.
    Stableswap { reserves: Vec<Dec>, amplification: Dec, fee: Dec },
    /// A WooFi-style PMM pool.
    Pmm { base_reserve: Dec, quote_reserve: Dec, oracle_price: Dec, k: Dec },
    /// A concentrated-liquidity position.
    Clmm {
        liquidity: Dec,
        sqrt_price_lower: Dec,
        sqrt_price_upper: Dec,
        sqrt_price_current: Dec,
        fee: Dec,
    },
    /// A weighted pool.
    Balancer {
        reserves: Vec<Dec>,
        weights: Vec<Dec>,
        fee: Dec,
        input_index: usize,
        output_index: usize,
    },
    /// A DODO pool.
    Dodo {
        base_target: Dec,
        quote_target: Dec,
        base_reserve: Dec,
        quote_reserve: Dec,
        oracle_price: Dec,
        k: Dec,
        fee: Dec,
        is_sell_base: bool,
    },
    /// A CryptoSwap pool.
    Cryptoswap { reserves: Vec<Dec>, a: Dec, gamma: Dec, fee: Dec, input_index: usize },
}

/// The output index of a weighted leg when the specification names none.
pub fn default_output_index() -> (r: usize)
    ensures
        r == 1,
{
    1
}

/// The trade direction of a DODO leg when the specification names none
/// (selling base).
pub fn default_true() -> (r: bool)
    ensures
        r,
{
    true
}

impl LegSpec {
    /// The pool's constructor accepts this specification.
    pub open spec fn accepted(&self) -> bool {
        match self {
            LegSpec::Cpmm { x, y, fee } => x@.0 > 0 && y@.0 > 0 && valid_fee(fee@),
            LegSpec::Stableswap { reserves, amplification, fee } => reserves@.len() >= 2
                && all_positive(reserves@) && !value_lt(amplification@, (1, 0)) && valid_fee(fee@),
            LegSpec::Pmm { base_reserve, quote_reserve, oracle_price, k } => base_reserve@.0 > 0
                && quote_reserve@.0 > 0 && oracle_price@.0 > 0 && k@.0 > 0,
            LegSpec::Clmm {
                liquidity,
                sqrt_price_lower,
                sqrt_price_upper,
                sqrt_price_current,
                fee,
            } => liquidity@.0 > 0 && sqrt_price_lower@.0 > 0 && value_lt(
                sqrt_price_lower@,
                sqrt_price_upper@,
            ) && !value_lt(sqrt_price_current@, sqrt_price_lower@) && !value_lt(
                sqrt_price_upper@,
                sqrt_price_current@,
            ) && valid_fee(fee@),
            LegSpec::Balancer { reserves, weights, fee, input_index, output_index } => reserves@.len()
                >= 2 && reserves@.len() == weights@.len() && *input_index < reserves@.len()
                && *output_index < reserves@.len() && input_index != output_index && all_positive(
                reserves@,
            ) && all_positive(weights@) && weights_sum_to_one(weights@) && valid_fee(fee@),
            LegSpec::Dodo {
                base_target,
                quote_target,
                base_reserve,
                quote_reserve,
                oracle_price,
                k,
                fee,
                is_sell_base,
            } => base_target@.0 > 0 && quote_target@.0 > 0 && base_reserve@.0 > 0
                && quote_reserve@.0 > 0 && oracle_price@.0 > 0 && unit_interval(k@)
                && unit_interval(fee@),
            LegSpec::Cryptoswap { reserves, a, gamma, fee, input_index } => reserves@.len() == 2
                && reserves@[0]@.0 > 0 && reserves@[1]@.0 > 0 && a@.0 > 0 && gamma@.0 > 0
                && valid_fee(fee@) && *input_index <= 1,
        }
    }

    /// The detail of the error the pool's constructor reports for this
    /// specification (for a CryptoSwap leg that does not name exactly two
    /// reserves, the count it names).
    pub open spec fn refusal_detail(&self) -> Seq<char> {
        match self {
            LegSpec::Cpmm { x, y, fee } => crate::curves::cpmm::new_detail(x@, y@, fee@),
            LegSpec::Stableswap { reserves, amplification, fee } => crate::curves::stableswap::new_detail(
                reserves@,
                amplification@,
                fee@,
            ),
            LegSpec::Pmm { base_reserve, quote_reserve, oracle_price, k } => crate::curves::pmm::new_detail(
                base_reserve@,
                quote_reserve@,
                oracle_price@,
                k@,
            ),
            LegSpec::Clmm {
                liquidity,
                sqrt_price_lower,
                sqrt_price_upper,
                sqrt_price_current,
                fee,
            } => crate::curves::concentrated_liquidity::new_detail(
                liquidity@,
                sqrt_price_lower@,
                sqrt_price_upper@,
                sqrt_price_current@,
                fee@,
            ),
            LegSpec::Balancer { reserves, weights, fee, input_index, output_index } => crate::curves::balancer_weighted::new_detail(
                reserves@,
                weights@,
                fee@,
                *input_index,
                *output_index,
            ),
            LegSpec::Dodo {
                base_target,
                quote_target,
                base_reserve,
                quote_reserve,
                oracle_price,
                k,
                fee,
                is_sell_base,
            } => crate::curves::dodo_pmm::new_detail(
                base_target@,
                quote_target@,
                base_reserve@,
                quote_reserve@,
                oracle_price@,
                k@,
                fee@,
            ),
            LegSpec::Cryptoswap { reserves, a, gamma, fee, input_index } => if reserves@.len() != 2 {
                "CryptoSwap requires exactly 2 reserves, got "@ + crate::text::nat_text(reserves@.len())
            } else {
                crate::curves::curve_cryptoswap::new_detail(
                    reserves@[0]@,
                    reserves@[1]@,
                    a@,
                    gamma@,
                    fee@,
                    *input_index,
                )
            },
        }
    }

    /// `leg` is the pool this specification describes.
    pub open spec fn describes(&self, leg: Leg) -> bool {
        match self {
            LegSpec::Cpmm { x, y, fee } => leg matches Leg::Cpmm(c) && c.x@ == x@ && c.y@ == y@
                && c.fee_retention@ == fee@,
            LegSpec::Stableswap { reserves, amplification, fee } => leg matches Leg::StableSwap(s)
                && s.reserves@ == reserves@ && s.amplification@ == amplification@
                && s.fee_retention@ == fee@,
            LegSpec::Pmm { base_reserve, quote_reserve, oracle_price, k } => leg matches Leg::Pmm(p)
                && p.base_reserve@ == base_reserve@ && p.quote_reserve@ == quote_reserve@
                && p.oracle_price@ == oracle_price@ && p.k@ == k@,
            LegSpec::Clmm {
                liquidity,
                sqrt_price_lower,
                sqrt_price_upper,
                sqrt_price_current,
                fee,
            } => leg matches Leg::ConcentratedLiquidity(cl) && cl.liquidity@ == liquidity@
                && cl.sqrt_price_lower@ == sqrt_price_lower@ && cl.sqrt_price_upper@
                == sqrt_price_upper@ && cl.sqrt_price_current@ == sqrt_price_current@
                && cl.fee_retention@ == fee@ && cl.tick_ranges@.len() == 1,
            LegSpec::Balancer { reserves, weights, fee, input_index, output_index } => leg matches Leg::BalancerWeighted(
                b,
            ) && b.reserves@ == reserves@ && b.weights@ == weights@ && b.fee_retention@ == fee@
                && b.input_index == *input_index && b.output_index == *output_index,
            LegSpec::Dodo {
                base_target,
                quote_target,
                base_reserve,
                quote_reserve,
                oracle_price,
                k,
                fee,
                is_sell_base,
            } => leg matches Leg::DodoPmm(d) && d.base_target@ == base_target@ && d.quote_target@
                == quote_target@ && d.base_reserve@ == base_reserve@ && d.quote_reserve@
                == quote_reserve@ && d.oracle_price@ == oracle_price@ && d.k@ == k@
                && d.fee_retention@ == fee@ && d.is_sell_base == *is_sell_base,
            LegSpec::Cryptoswap { reserves, a, gamma, fee, input_index } => leg matches Leg::CurveCryptoSwap(
                cs,
            ) && cs.balances@[0]@ == reserves@[0]@ && cs.balances@[1]@ == reserves@[1]@
                && cs.amplification_a@ == a@ && cs.gamma@ == gamma@ && cs.fee_retention@ == fee@
                && cs.input_index == *input_index,
        }
    }

    /// Builds the leg this specification describes; `InvalidReserves` when
    /// the pool's constructor refuses it, or a CryptoSwap leg does not name
    /// exactly two reserves.
    pub fn to_leg(&self) -> (r: Result<Leg, SizingError>)
        ensures
            r is Ok <==> self.accepted(),
            r matches Ok(leg) ==> self.describes(leg),
            r matches Err(e) ==> e@ == ErrKind::InvalidReserves && detail_of(e)
                == self.refusal_detail(),
    {
        match self {
            LegSpec::Cpmm { x, y, fee } => match Cpmm::new(x.copy(), y.copy(), fee.copy()) {
                Ok(c) => Ok(Leg::Cpmm(c)),
                Err(e) => Err(e),
            },
            LegSpec::Stableswap { reserves, amplification, fee } => match StableSwap::new(
                crate::curves::stableswap::copy_vec(reserves.as_slice()),
                amplification.copy(),
                fee.copy(),
            ) {
                Ok(s) => Ok(Leg::StableSwap(s)),
                Err(e) => Err(e),
            },
            LegSpec::Pmm { base_reserve, quote_reserve, oracle_price, k } => match Pmm::new(
                base_reserve.copy(),
                quote_reserve.copy(),
                oracle_price.copy(),
                k.copy(),
            ) {
                Ok(p) => Ok(Leg::Pmm(p)),
                Err(e) => Err(e),
            },
            LegSpec::Clmm {
                liquidity,
                sqrt_price_lower,
                sqrt_price_upper,
                sqrt_price_current,
                fee,
            } => match ConcentratedLiquidity::new(
                liquidity.copy(),
                sqrt_price_lower.copy(),
                sqrt_price_upper.copy(),
                sqrt_price_current.copy(),
                fee.copy(),
            ) {
                Ok(cl) => Ok(Leg::ConcentratedLiquidity(cl)),
                Err(e) => Err(e),
            },
            LegSpec::Balancer { reserves, weights, fee, input_index, output_index } => {
                match BalancerWeightedPool::new(
                    crate::curves::stableswap::copy_vec(reserves.as_slice()),
                    crate::curves::stableswap::copy_vec(weights.as_slice()),
                    fee.copy(),
                    *input_index,
                    *output_index,
                ) {
                    Ok(b) => Ok(Leg::BalancerWeighted(b)),
                    Err(e) => Err(e),
                }
            },
            LegSpec::Dodo {
                base_target,
                quote_target,
                base_reserve,
                quote_reserve,
                oracle_price,
                k,
                fee,
                is_sell_base,
            } => match DodoPmm::new(
                base_target.copy(),
                quote_target.copy(),
                base_reserve.copy(),
                quote_reserve.copy(),
                oracle_price.copy(),
                k.copy(),
                fee.copy(),
                *is_sell_base,
            ) {
                Ok(d) => Ok(Leg::DodoPmm(d)),
                Err(e) => Err(e),
            },
            LegSpec::Cryptoswap { reserves, a, gamma, fee, input_index } => {
                if reserves.len() != 2 {
                    let mut detail = String::from_str("CryptoSwap requires exactly 2 reserves, got ");
                    let count = crate::text::u128_text(reserves.len() as u128);
                    detail.append(count.as_str());
                    return Err(SizingError::InvalidReserves { detail });
                }
                match CurveCryptoSwap::new(
                    [reserves[0].copy(), reserves[1].copy()],
                    a.copy(),
                    gamma.copy(),
                    fee.copy(),
                    *input_index,
                ) {
                    Ok(cs) => Ok(Leg::CurveCryptoSwap(cs)),
                    Err(e) => Err(e),
                }
            },
        }
    }
}

/// The text of a tier on the tool's result line.
pub fn tier_line(tier: &GuaranteeTier) -> (r: String)
    ensures
        r@ == tier_text(*tier),
{
    tier_display(tier)
}

} // verus!
