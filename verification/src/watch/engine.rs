//! The watcher's sizing engine: builds a leg for each watched pool from
//! its configuration and cached reserves, sizes every pool and route, and
//! reports those whose net profit reaches the configured threshold.
use crate::curves::balancer_weighted::{all_positive, weights_sum_to_one};
use crate::curves::cpmm::valid_fee;
use crate::curves::dodo_pmm::unit_interval;
use crate::curves::stableswap::copy_vec;
use crate::curves::{
    BalancerWeightedPool, ConcentratedLiquidity, Cpmm, CurveCryptoSwap, DodoPmm, Pmm, StableSwap,
};
use crate::decimal::{
    dec_lt, dec_mul, dec_of, dec_to_string, decimal_to_string, o_mul, ov, s_mul, some, value_lt,
    Dec,
};
use crate::route::{tiers_spec, Leg, Route};
use crate::traits::SizingAlgorithm;
use crate::types::{GuaranteeTier, SizingConstraints, SizingResult};
use crate::watch::cache::{PoolCache, SyncStatus};
use crate::watch::config::{PoolConfig, WatchConfig};
use vstd::prelude::*;

verus! {

/// The name every reported event carries.
pub const OPPORTUNITY_DETECTED: &'static str = "OPPORTUNITY_DETECTED";

/// A reported opportunity, one JSON line on the daemon's output.
#[derive(Debug)]
pub struct OpportunityEvent {
    /// Always `"OPPORTUNITY_DETECTED"`.
    pub event: String,
    /// Evaluation time, epoch nanoseconds.
    pub timestamp_ns: u128,
    /// The cache's latest block at evaluation.
    pub block_number: u64,
    /// The pool or route id.
    pub target: String,
    /// The profit-maximizing size, as decimal text.
    pub optimal_delta: String,
    /// Net expected profit in USD, as decimal text.
    pub expected_profit_usd: String,
    /// The guarantee tier, as text.
    pub guarantee_tier: String,
    /// The reference price used, as decimal text.
    pub reference_price: String,
    /// The fixed execution cost in USD, as decimal text.
    pub gas_cost_usd: String,
    /// The block of the pool state the sizing used.
    pub pool_state_block: u64,
}

// ---------------------------------------------------------------------------
// Tier text
// ---------------------------------------------------------------------------
/// `"true"` or `"false"`.
pub open spec fn bool_text(b: bool) -> Seq<char> {
    if b {
        "true"@
    } else {
        "false"@
    }
}

/// The text of a tier, as its `Debug`-like display.
pub open spec fn tier_text(t: GuaranteeTier) -> Seq<char>
    decreases t, 0nat,
{
    match t {
        GuaranteeTier::ProvenOptimal => "ProvenOptimal"@,
        GuaranteeTier::NumericallyGuaranteed { convergence_conditions_met } => "NumericallyGuaranteed { convergence_conditions_met: "@
            + bool_text(convergence_conditions_met) + " }"@,
        GuaranteeTier::EmpiricallyValidated { unimodality_confirmed } => "EmpiricallyValidated { unimodality_confirmed: "@
            + bool_text(unimodality_confirmed) + " }"@,
        GuaranteeTier::ComposedFrom(legs) => "ComposedFrom(["@ + join_tiers(legs@, legs@.len()) + "])"@,
    }
}

/// The texts of the first `n` tiers of `ts`, separated by `", "`.
pub open spec fn join_tiers(ts: Seq<GuaranteeTier>, n: nat) -> Seq<char>
    decreases ts, n,
{
    if n == 0 || n > ts.len() {
        Seq::empty()
    } else if n == 1 {
        tier_text(ts[0])
    } else {
        join_tiers(ts, (n - 1) as nat) + ", "@ + tier_text(ts[n - 1])
    }
}

fn bool_display(b: bool) -> (r: String)
    ensures
        r@ == bool_text(b),
{
    if b {
        String::from_str("true")
    } else {
        String::from_str("false")
    }
}

/// The text of a tier: the variant's name with its field, and for a
/// composed tier the legs' texts in brackets, comma-separated.
pub fn tier_display(tier: &GuaranteeTier) -> (r: String)
    ensures
        r@ == tier_text(*tier),
    decreases tier,
{
    match tier {
        GuaranteeTier::ProvenOptimal => String::from_str("ProvenOptimal"),
        GuaranteeTier::NumericallyGuaranteed { convergence_conditions_met } => {
            let mut out = String::from_str("NumericallyGuaranteed { convergence_conditions_met: ");
            let b = bool_display(*convergence_conditions_met);
            out.append(b.as_str());
            out.append(" }");
            out
        },
        GuaranteeTier::EmpiricallyValidated { unimodality_confirmed } => {
            let mut out = String::from_str("EmpiricallyValidated { unimodality_confirmed: ");
            let b = bool_display(*unimodality_confirmed);
            out.append(b.as_str());
            out.append(" }");
            out
        },
        GuaranteeTier::ComposedFrom(legs) => {
            let mut out = String::from_str("ComposedFrom([");
            let ghost prefix = out@;
            let mut i: usize = 0;
            while i < legs.len()
                invariant
                    i <= legs@.len(),
                    *tier == GuaranteeTier::ComposedFrom(*legs),
                    prefix == "ComposedFrom(["@,
                    out@ == prefix + join_tiers(legs@, i as nat),
                decreases legs@.len() - i,
            {
                if i > 0 {
                    out.append(", ");
                }
                proof {
                    assert(decreases_to!(*tier => tier->0));
                    assert(decreases_to!(tier->0 => (tier->0)@));
                    assert(decreases_to!((tier->0)@ => (tier->0)@[i as int]));
                }
                let s = tier_display(&legs[i]);
                out.append(s.as_str());
                i = i + 1;
                assert(out@ =~= prefix + join_tiers(legs@, i as nat));
            }
            out.append("])");
            out
        },
    }
}

// ---------------------------------------------------------------------------
// Building legs
// ---------------------------------------------------------------------------
/// What `String::to_lowercase` returns.
pub uninterp spec fn str_lowercase(s: Seq<char>) -> Seq<char>;

/// Every character is ASCII.
pub open spec fn all_ascii(s: Seq<char>) -> bool {
    forall|i: int| 0 <= i < s.len() ==> (#[trigger] s[i]) as u32 <= 0x7f
}

/// An ASCII character's lowercase: `A`–`Z` become `a`–`z`, every other
/// character stays.
pub open spec fn ascii_lower(ch: char) -> char {
    if 'A' <= ch <= 'Z' {
        ((ch as u32) + 32) as char
    } else {
        ch
    }
}

/// `str::to_lowercase`. Claims: the result is the named one (the Unicode
/// lowercase mapping of the argument, a function of it alone), and, as
/// std's documentation of the lowercase mapping gives for ASCII text, an
/// ASCII argument maps character by character, `A`–`Z` to `a`–`z` and every
/// other character to itself.
#[verifier::external_body]
fn lowercase(s: &str) -> (r: String)
    ensures
        r@ == str_lowercase(s@),
        all_ascii(s@) ==> r@ == s@.map_values(|ch: char| ascii_lower(ch)),
{
    s.to_lowercase()
}

/// The configured value or the default.
pub open spec fn or_default(o: Option<Dec>, d: (int, int)) -> (int, int) {
    match o {
        Some(v) => v@,
        None => d,
    }
}

/// The current `sqrt(price)` used for a concentrated-liquidity leg.
pub open spec fn clmm_price(sqrt: Option<(int, int)>) -> (int, int) {
    match sqrt {
        Some(v) => v,
        None => (1, 0),
    }
}

/// The weights used for a weighted leg: the configured ones, or `0.5` each
/// for two assets.
pub open spec fn leg_weights(cfg: PoolConfig) -> Seq<Dec> {
    match cfg.weights {
        Some(w) => w@,
        None => seq![dec_of((5, 1)), dec_of((5, 1))],
    }
}

/// `build_leg` does not fail on these inputs: a constant-product leg's
/// token indices lie within two or more reserves, and a
/// concentrated-liquidity leg's bounds `0.8 sqrt(p)` and `1.2 sqrt(p)` do
/// not overflow.
pub open spec fn build_ok(cfg: PoolConfig, reserves: Seq<Dec>, sqrt: Option<(int, int)>) -> bool {
    let lc = str_lowercase(cfg.curve_type@);
    &&& (lc == "cpmm"@ && reserves.len() >= 2 ==> cfg.input_token_index < reserves.len()
        && cfg.output_token_index < reserves.len())
    &&& (lc == "clmm"@ ==> s_mul(Some(clmm_price(sqrt)), Some((8, 1))) is Some && s_mul(
        Some(clmm_price(sqrt)),
        Some((12, 1)),
    ) is Some)
}

/// The leg `build_leg` gives for these inputs: by the lowercased curve
/// type, the pool built from the reserves and the configuration (with the
/// defaults filled in), or `None` when the type is unknown, fewer than two
/// reserves are given where two are read, or the pool's constructor
/// refuses its arguments.
pub open spec fn built(cfg: PoolConfig, reserves: Seq<Dec>, sqrt: Option<(int, int)>, r: Option<Leg>) -> bool {
    let lc = str_lowercase(cfg.curve_type@);
    let f = cfg.fee_retention@;
    if lc == "cpmm"@ {
        if reserves.len() < 2 {
            r is None
        } else {
            let x = reserves[cfg.input_token_index as int]@;
            let y = reserves[cfg.output_token_index as int]@;
            let ok = x.0 > 0 && y.0 > 0 && valid_fee(f);
            match r {
                None => !ok,
                Some(leg) => ok && (leg matches Leg::Cpmm(c) && c.x@ == x && c.y@ == y
                    && c.fee_retention@ == f),
            }
        }
    } else if lc == "stableswap"@ {
        let amp = or_default(cfg.amplification, (100, 0));
        let ok = reserves.len() >= 2 && all_positive(reserves) && !value_lt(amp, (1, 0)) && valid_fee(
            f,
        );
        match r {
            None => !ok,
            Some(leg) => ok && (leg matches Leg::StableSwap(s) && s.reserves@ == reserves
                && s.amplification@ == amp && s.fee_retention@ == f),
        }
    } else if lc == "pmm"@ {
        if reserves.len() < 2 {
            r is None
        } else {
            let b = reserves[0]@;
            let q = reserves[1]@;
            let ok = b.0 > 0 && q.0 > 0;
            match r {
                None => !ok,
                Some(leg) => ok && (leg matches Leg::Pmm(pm) && pm.base_reserve@ == b
                    && pm.quote_reserve@ == q && pm.oracle_price@ == (1int, 0int) && pm.k@ == (
                    1int,
                    4int,
                )),
            }
        }
    } else if lc == "clmm"@ {
        let p = clmm_price(sqrt);
        let liquidity = if reserves.len() > 0 {
            reserves[0]@
        } else {
            (1000000int, 0int)
        };
        match (s_mul(Some(p), Some((8, 1))), s_mul(Some(p), Some((12, 1)))) {
            (Some(lower), Some(upper)) => {
                let ok = liquidity.0 > 0 && lower.0 > 0 && value_lt(lower, upper) && !value_lt(
                    p,
                    lower,
                ) && !value_lt(upper, p) && valid_fee(f);
                match r {
                    None => !ok,
                    Some(leg) => ok && (leg matches Leg::ConcentratedLiquidity(cl) && cl.liquidity@
                        == liquidity && cl.sqrt_price_lower@ == lower && cl.sqrt_price_upper@
                        == upper && cl.sqrt_price_current@ == p && cl.fee_retention@ == f
                        && cl.tick_ranges@.len() == 1),
                }
            },
            _ => r is None,
        }
    } else if lc == "balancer"@ {
        let w = leg_weights(cfg);
        let i = cfg.input_token_index;
        let o = cfg.output_token_index;
        let ok = reserves.len() >= 2 && reserves.len() == w.len() && i < reserves.len() && o
            < reserves.len() && i != o && all_positive(reserves) && all_positive(w)
            && weights_sum_to_one(w) && valid_fee(f);
        match r {
            None => !ok,
            Some(leg) => ok && (leg matches Leg::BalancerWeighted(bw) && bw.reserves@ == reserves
                && bw.weights@ == w && bw.fee_retention@ == f && bw.input_index == i
                && bw.output_index == o),
        }
    } else if lc == "dodo"@ {
        if reserves.len() < 2 {
            r is None
        } else {
            let b = reserves[0]@;
            let q = reserves[1]@;
            let ok = b.0 > 0 && q.0 > 0 && unit_interval(f);
            match r {
                None => !ok,
                Some(leg) => ok && (leg matches Leg::DodoPmm(d) && d.base_target@ == b
                    && d.quote_target@ == q && d.base_reserve@ == b && d.quote_reserve@ == q
                    && d.oracle_price@ == (1int, 0int) && d.k@ == (1int, 1int)
                    && d.fee_retention@ == f && d.is_sell_base),
            }
        }
    } else if lc == "cryptoswap"@ {
        if reserves.len() < 2 {
            r is None
        } else {
            let a = or_default(cfg.amplification, (400000, 0));
            let g = or_default(cfg.gamma, (1, 4));
            let ok = reserves[0]@.0 > 0 && reserves[1]@.0 > 0 && a.0 > 0 && g.0 > 0 && valid_fee(
                f,
            ) && cfg.input_token_index <= 1;
            match r {
                None => !ok,
                Some(leg) => ok && (leg matches Leg::CurveCryptoSwap(cs) && cs.balances@[0]@
                    == reserves[0]@ && cs.balances@[1]@ == reserves[1]@ && cs.amplification_a@
                    == a && cs.gamma@ == g && cs.fee_retention@ == f && cs.input_index
                    == cfg.input_token_index),
            }
        }
    } else {
        r is None
    }
}

fn text_is(s: &String, lit: &str) -> (r: bool)
    ensures
        r == (s@ == lit@),
{
    *s == String::from_str(lit)
}

fn opt_or(o: &Option<Dec>, d: Dec) -> (r: Dec)
    ensures
        r@ == match o {
            Some(v) => v@,
            None => d@,
        },
{
    match o {
        Some(v) => v.copy(),
        None => d,
    }
}

/// Builds the leg of a watched pool from its configuration, its reserves
/// and its current `sqrt(price)`, by its curve type (in any case);
/// `None` for an unknown type, too few reserves, or arguments the pool's
/// constructor refuses.
pub fn build_leg(config: &PoolConfig, reserves: &[Dec], sqrt_p_curr: Option<Dec>) -> (r: Option<
    Leg,
>)
    requires
        build_ok(*config, reserves@, ov(sqrt_p_curr)),
    ensures
        built(*config, reserves@, ov(sqrt_p_curr), r),
        all_ascii(config.curve_type@) ==> str_lowercase(config.curve_type@)
            == config.curve_type@.map_values(|ch: char| ascii_lower(ch)),
{
    let lc = lowercase(config.curve_type.as_str());
    let f = &config.fee_retention;
    if text_is(&lc, "cpmm") {
        if reserves.len() < 2 {
            return None;
        }
        let x = reserves[config.input_token_index].copy();
        let y = reserves[config.output_token_index].copy();
        match Cpmm::new(x, y, f.copy()) {
            Ok(c) => Some(Leg::Cpmm(c)),
            Err(_) => None,
        }
    } else if text_is(&lc, "stableswap") {
        let amp = opt_or(&config.amplification, Dec::from_u64(100));
        match StableSwap::new(copy_vec(reserves), amp, f.copy()) {
            Ok(s) => Some(Leg::StableSwap(s)),
            Err(_) => None,
        }
    } else if text_is(&lc, "pmm") {
        if reserves.len() < 2 {
            return None;
        }
        let b = reserves[0].copy();
        let q = reserves[1].copy();
        match Pmm::new(b, q, Dec::one(), Dec::lit(1, 4)) {
            Ok(p) => Some(Leg::Pmm(p)),
            Err(_) => None,
        }
    } else if text_is(&lc, "clmm") {
        let p_curr = opt_or(&sqrt_p_curr, Dec::one());
        let liquidity = if reserves.len() > 0 {
            reserves[0].copy()
        } else {
            Dec::from_u64(1000000)
        };
        let lower = match dec_mul(&p_curr, &Dec::lit(8, 1)) {
            Some(v) => v,
            None => return None,
        };
        let upper = match dec_mul(&p_curr, &Dec::lit(12, 1)) {
            Some(v) => v,
            None => return None,
        };
        match ConcentratedLiquidity::new(liquidity, lower, upper, p_curr, f.copy()) {
            Ok(cl) => Some(Leg::ConcentratedLiquidity(cl)),
            Err(_) => None,
        }
    } else if text_is(&lc, "balancer") {
        let weights = match &config.weights {
            Some(w) => copy_vec(w.as_slice()),
            None => {
                let mut w: Vec<Dec> = Vec::new();
                w.push(Dec::lit(5, 1));
                w.push(Dec::lit(5, 1));
                assert(w@ =~= seq![dec_of((5, 1)), dec_of((5, 1))]);
                w
            },
        };
        match BalancerWeightedPool::new(
            copy_vec(reserves),
            weights,
            f.copy(),
            config.input_token_index,
            config.output_token_index,
        ) {
            Ok(b) => Some(Leg::BalancerWeighted(b)),
            Err(_) => None,
        }
    } else if text_is(&lc, "dodo") {
        if reserves.len() < 2 {
            return None;
        }
        let b = &reserves[0];
        let q = &reserves[1];
        proof {
            assert(crate::decimal::pow10(1) == 10) by {
                vstd::arithmetic::power::lemma_pow1(10);
            }
            assert(crate::decimal::pow10(0) == 1) by {
                vstd::arithmetic::power::lemma_pow0(10);
            }
            assert(unit_interval((1, 1)));
        }
        match DodoPmm::new(
            b.copy(),
            q.copy(),
            b.copy(),
            q.copy(),
            Dec::one(),
            Dec::lit(1, 1),
            f.copy(),
            true,
        ) {
            Ok(d) => Some(Leg::DodoPmm(d)),
            Err(_) => None,
        }
    } else if text_is(&lc, "cryptoswap") {
        if reserves.len() < 2 {
            return None;
        }
        let a = opt_or(&config.amplification, Dec::from_u64(400000));
        let gamma = opt_or(&config.gamma, Dec::lit(1, 4));
        match CurveCryptoSwap::new(
            [reserves[0].copy(), reserves[1].copy()],
            a,
            gamma,
            f.copy(),
            config.input_token_index,
        ) {
            Ok(cs) => Some(Leg::CurveCryptoSwap(cs)),
            Err(_) => None,
        }
    } else {
        None
    }
}

// ---------------------------------------------------------------------------
// Evaluation
// ---------------------------------------------------------------------------
/// The fixed execution cost in USD: `gas units * gas price (gwei) * 1e-9 *
/// 3000` (an ETH price of 3000 USD).
pub open spec fn gas_cost_spec(units: u64, gwei: (int, int)) -> Option<(int, int)> {
    s_mul(s_mul(s_mul(Some((units as int, 0int)), Some(gwei)), Some((1, 9))), Some((3000, 0)))
}

/// The fields every event of one evaluation shares.
pub open spec fn event_common(
    ev: OpportunityEvent,
    now: u128,
    block: u64,
    p: (int, int),
    gas: (int, int),
) -> bool {
    &&& ev.event@ == OPPORTUNITY_DETECTED@
    &&& ev.timestamp_ns == now
    &&& ev.block_number == block
    &&& ev.reference_price@ == decimal_to_string(p)
    &&& ev.gas_cost_usd@ == decimal_to_string(gas)
}

/// `ev` reports size `d`, profit `e` and tier text `tier` for `target`,
/// read from pool state at block `b`.
pub open spec fn event_reports(
    ev: OpportunityEvent,
    target: Seq<char>,
    d: (int, int),
    e: (int, int),
    tier: Seq<char>,
    b: u64,
) -> bool {
    &&& ev.target@ == target
    &&& ev.optimal_delta@ == decimal_to_string(d)
    &&& ev.expected_profit_usd@ == decimal_to_string(e)
    &&& ev.guarantee_tier@ == tier
    &&& ev.pool_state_block == b
}

/// Pool `cfg` with cached state `st`, built as `leg`, sizes against `p`
/// with fixed cost `gas` at a net profit of at least `min`.
pub open spec fn pool_sized(
    cfg: PoolConfig,
    st: crate::watch::cache::PoolState,
    leg: Leg,
    p: (int, int),
    gas: (int, int),
    min: (int, int),
) -> bool {
    &&& built(cfg, st.reserves@, ov(st.sqrt_price_current), Some(leg))
    &&& match leg.optimal_size_spec(p, gas, None) {
        Ok((_, e)) => !value_lt(e, min),
        Err(_) => false,
    }
}

/// `ev` is the report of pool `cfg` with cached state `st` built as `leg`.
pub open spec fn pool_event(
    ev: OpportunityEvent,
    cfg: PoolConfig,
    st: crate::watch::cache::PoolState,
    leg: Leg,
    p: (int, int),
    gas: (int, int),
    min: (int, int),
) -> bool {
    &&& pool_sized(cfg, st, leg, p, gas, min)
    &&& match leg.optimal_size_spec(p, gas, None) {
        Ok((d, e)) => event_reports(ev, cfg.id@, d, e, tier_text(leg.tier_spec()), st.last_block_number),
        Err(_) => false,
    }
}

/// Pool `cfg` has a cached state, a leg is built for it, and every leg
/// built for it sizes at a net profit of at least `min`.
pub open spec fn pool_must_report(
    cfg: PoolConfig,
    cache: PoolCache,
    p: (int, int),
    gas: (int, int),
    min: (int, int),
) -> bool {
    match cache.lookup(cfg.id@) {
        Some(st) => !built(cfg, st.reserves@, ov(st.sqrt_price_current), None) && forall|leg: Leg|
            #[trigger] built(cfg, st.reserves@, ov(st.sqrt_price_current), Some(leg)) ==> pool_sized(
                cfg,
                st,
                leg,
                p,
                gas,
                min,
            ),
        None => false,
    }
}

/// The index of the first pool configured with id `id`, among the first
/// `n`.
pub open spec fn first_config(pools: Seq<PoolConfig>, id: Seq<char>, n: nat) -> Option<int>
    decreases n,
{
    if n == 0 {
        None
    } else {
        match first_config(pools, id, (n - 1) as nat) {
            Some(i) => Some(i),
            None => if pools[n - 1].id@ == id {
                Some(n - 1)
            } else {
                None
            },
        }
    }
}

/// Leg `leg` is built for the route's pool id `id`: from the first pool
/// configured with that id and its cached state.
pub open spec fn leg_for_id(config: WatchConfig, cache: PoolCache, id: Seq<char>, leg: Leg) -> bool {
    match (first_config(config.pools@, id, config.pools@.len()), cache.lookup(id)) {
        (Some(i), Some(st)) => built(
            config.pools@[i],
            st.reserves@,
            ov(st.sqrt_price_current),
            Some(leg),
        ),
        _ => false,
    }
}

/// The smallest block of the cached states of the first `n` route pool
/// ids that are configured and cached (`u64::MAX` when none is).
pub open spec fn states_min(config: WatchConfig, cache: PoolCache, ids: Seq<String>, n: nat) -> u64
    decreases n,
{
    if n == 0 {
        u64::MAX
    } else {
        let rest = states_min(config, cache, ids, (n - 1) as nat);
        match (first_config(config.pools@, ids[n - 1]@, config.pools@.len()), cache.lookup(
            ids[n - 1]@,
        )) {
            (Some(_), Some(st)) => if st.last_block_number < rest {
                st.last_block_number
            } else {
                rest
            },
            _ => rest,
        }
    }
}

/// `ev` is the report of route `rcfg`, sized as `route`: one built leg per
/// pool id, at least two, and a net profit of at least `min`.
pub open spec fn route_event(
    ev: OpportunityEvent,
    config: WatchConfig,
    cache: PoolCache,
    rcfg: crate::watch::config::RouteConfig,
    route: Route,
    p: (int, int),
    gas: (int, int),
) -> bool {
    let ids = rcfg.legs@;
    let block = states_min(config, cache, ids, ids.len());
    &&& route.legs@.len() == ids.len()
    &&& ids.len() >= 2
    &&& forall|j: int| 0 <= j < ids.len() ==> #[trigger] leg_for_id(config, cache, ids[j]@, route.legs@[j])
    &&& match (route.optimal_size_spec(p, gas, None), tiers_spec(route.legs@, route.legs@.len())) {
        (Ok((d, e)), Ok(ts)) => !value_lt(e, config.min_profit_usd@) && event_reports(
            ev,
            rcfg.id@,
            d,
            e,
            "ComposedFrom(["@ + join_tiers(ts, ts.len()) + "])"@,
            if block == u64::MAX {
                cache.block_spec()
            } else {
                block
            },
        ),
        _ => false,
    }
}

/// Pool id `id` names a configured, cached pool for which a leg is built.
pub open spec fn id_buildable(config: WatchConfig, cache: PoolCache, id: Seq<char>) -> bool {
    match (first_config(config.pools@, id, config.pools@.len()), cache.lookup(id)) {
        (Some(i), Some(st)) => !built(config.pools@[i], st.reserves@, ov(st.sqrt_price_current), None),
        _ => false,
    }
}

/// `route` has one leg per pool id of `ids`, each built for its id.
pub open spec fn route_built(config: WatchConfig, cache: PoolCache, ids: Seq<String>, route: Route) -> bool {
    &&& route.legs@.len() == ids.len()
    &&& forall|j: int| 0 <= j < ids.len() ==> #[trigger] leg_for_id(config, cache, ids[j]@, route.legs@[j])
}

/// Route `rcfg` has at least two pool ids, a leg is built for each, and
/// every route built from them sizes at a net profit of at least the
/// threshold.
pub open spec fn route_must_report(
    config: WatchConfig,
    cache: PoolCache,
    rcfg: crate::watch::config::RouteConfig,
    p: (int, int),
    gas: (int, int),
) -> bool {
    let ids = rcfg.legs@;
    &&& ids.len() >= 2
    &&& forall|q: int| 0 <= q < ids.len() ==> #[trigger] id_buildable(config, cache, ids[q]@)
    &&& forall|route: Route|
        #[trigger] route_built(config, cache, ids, route) ==> match route.optimal_size_spec(p, gas, None) {
            Ok((_, e)) => !value_lt(e, config.min_profit_usd@),
            Err(_) => false,
        }
}

/// Every cached pool's leg can be built without failing.
pub open spec fn pools_buildable(config: WatchConfig, cache: PoolCache) -> bool {
    forall|i: int|
        0 <= i < config.pools@.len() ==> match cache.lookup(#[trigger] config.pools@[i].id@) {
            Some(st) => build_ok(config.pools@[i], st.reserves@, ov(st.sqrt_price_current)),
            None => true,
        }
}

/// Sizes `leg` alone, with the optimal sizing of its own curve.
pub fn size_leg(leg: &Leg, reference_price: Dec, constraints: SizingConstraints) -> (r: Result<
    SizingResult,
    crate::error::SizingError,
>)
    ensures
        crate::profit::srv(r) == leg.optimal_size_spec(
            reference_price@,
            constraints.fixed_cost@,
            ov(constraints.max_size),
        ),
        r matches Ok(res) ==> res.guarantee_tier == leg.tier_with_cap(ov(constraints.max_size)),
{
    match leg {
        Leg::Cpmm(c) => c.optimal_size(reference_price, constraints),
        Leg::StableSwap(s) => s.optimal_size(reference_price, constraints),
        Leg::Pmm(p) => p.optimal_size(reference_price, constraints),
        Leg::ConcentratedLiquidity(cl) => cl.optimal_size(reference_price, constraints),
        Leg::BalancerWeighted(b) => b.optimal_size(reference_price, constraints),
        Leg::DodoPmm(d) => d.optimal_size(reference_price, constraints),
        Leg::CurveCryptoSwap(cs) => cs.optimal_size(reference_price, constraints),
    }
}

fn no_cap(fixed: &Dec) -> (r: SizingConstraints)
    ensures
        r.fixed_cost@ == fixed@,
        r.max_size is None,
{
    SizingConstraints { fixed_cost: fixed.copy(), max_size: None }
}

fn copy_opt(o: &Option<Dec>) -> (r: Option<Dec>)
    ensures
        ov(r) == ov(*o),
{
    match o {
        Some(d) => Some(d.copy()),
        None => None,
    }
}

/// Builds the event for `target`.
fn make_event(
    target: &String,
    res: &SizingResult,
    now: u128,
    block: u64,
    p_text: &String,
    gas_text: &String,
    state_block: u64,
) -> (r: OpportunityEvent)
    ensures
        r.event@ == OPPORTUNITY_DETECTED@,
        r.timestamp_ns == now,
        r.block_number == block,
        r.reference_price@ == p_text@,
        r.gas_cost_usd@ == gas_text@,
        event_reports(
            r,
            target@,
            res.optimal_delta@,
            res.expected_profit@,
            tier_text(res.guarantee_tier),
            state_block,
        ),
{
    OpportunityEvent {
        event: String::from_str(OPPORTUNITY_DETECTED),
        timestamp_ns: now,
        block_number: block,
        target: target.clone(),
        optimal_delta: dec_to_string(&res.optimal_delta),
        expected_profit_usd: dec_to_string(&res.expected_profit),
        guarantee_tier: tier_display(&res.guarantee_tier),
        reference_price: p_text.clone(),
        gas_cost_usd: gas_text.clone(),
        pool_state_block: state_block,
    }
}

/// `ev` reports a watched pool or route of `config`.
pub open spec fn event_from(
    ev: OpportunityEvent,
    config: WatchConfig,
    cache: PoolCache,
    p: (int, int),
    gas: (int, int),
) -> bool {
    ||| exists|i: int, st: crate::watch::cache::PoolState, leg: Leg|
        0 <= i < config.pools@.len() && cache.lookup(config.pools@[i].id@) == Some(st)
            && #[trigger] pool_event(ev, config.pools@[i], st, leg, p, gas, config.min_profit_usd@)
    ||| exists|j: int, route: Route|
        0 <= j < config.routes@.len() && #[trigger] route_event(
            ev,
            config,
            cache,
            config.routes@[j],
            route,
            p,
            gas,
        )
}

/// Some event among `evs` targets `id`.
pub open spec fn reported(evs: Seq<OpportunityEvent>, id: Seq<char>) -> bool {
    exists|k: int| 0 <= k < evs.len() && (#[trigger] evs[k]).target@ == id
}

/// The index of the first pool configured with id `id`.
fn find_config(pools: &Vec<PoolConfig>, id: &String) -> (r: Option<usize>)
    ensures
        r is None <==> first_config(pools@, id@, pools@.len()) is None,
        r matches Some(k) ==> (k < pools@.len() && pools@[k as int].id@ == id@ && first_config(
            pools@,
            id@,
            pools@.len(),
        ) == Some(k as int)),
{
    let mut i: usize = 0;
    while i < pools.len()
        invariant
            i <= pools@.len(),
            first_config(pools@, id@, i as nat) is None,
        decreases pools@.len() - i,
    {
        if pools[i].id == *id {
            proof {
                assert(first_config(pools@, id@, (i + 1) as nat) == Some(i as int));
                lemma_first_config_stays(pools@, id@, (i + 1) as nat, pools@.len());
            }
            return Some(i);
        }
        i = i + 1;
    }
    None
}

proof fn lemma_first_config_stays(pools: Seq<PoolConfig>, id: Seq<char>, m: nat, n: nat)
    requires
        m <= n,
        first_config(pools, id, m) is Some,
    ensures
        first_config(pools, id, n) == first_config(pools, id, m),
    decreases n - m,
{
    if m < n {
        lemma_first_config_stays(pools, id, m, (n - 1) as nat);
    }
}

/// `ev` reports source `src`: pool `src` of the configuration when it is
/// below the number of pools, else route `src - pools`.
pub open spec fn event_at(
    ev: OpportunityEvent,
    src: int,
    config: WatchConfig,
    cache: PoolCache,
    p: (int, int),
    gas: (int, int),
) -> bool {
    let n = config.pools@.len() as int;
    if 0 <= src < n {
        exists|st: crate::watch::cache::PoolState, leg: Leg|
            cache.lookup(config.pools@[src].id@) == Some(st) && #[trigger] pool_event(
                ev,
                config.pools@[src],
                st,
                leg,
                p,
                gas,
                config.min_profit_usd@,
            )
    } else if n <= src < n + config.routes@.len() {
        exists|route: Route|
            #[trigger] route_event(ev, config, cache, config.routes@[src - n], route, p, gas)
    } else {
        false
    }
}

/// Event `k` of `r` reports source `srcs[k]`, and the sources strictly
/// increase: pools in configuration order, then routes in configuration
/// order, each at most once.
pub open spec fn ordered_sources(
    r: Seq<OpportunityEvent>,
    srcs: Seq<int>,
    config: WatchConfig,
    cache: PoolCache,
    p: (int, int),
    gas: (int, int),
) -> bool {
    &&& srcs.len() == r.len()
    &&& forall|k: int| 0 <= k < r.len() ==> #[trigger] event_at(r[k], srcs[k], config, cache, p, gas)
    &&& forall|a: int, b: int| 0 <= a < b < srcs.len() ==> #[trigger] srcs[a] < #[trigger] srcs[b]
}

/// What an evaluation reports: nothing from a stale cache; otherwise every
/// event carries the evaluation's shared fields and reports a watched pool
/// or route sized against `p`, the events come pools first and then routes,
/// each in configuration order and at most once, and every watched pool and
/// route whose sizing clears the threshold is reported.
pub open spec fn evaluates(
    config: WatchConfig,
    cache: PoolCache,
    p: (int, int),
    gwei: (int, int),
    timestamp_ns: u128,
    r: Seq<OpportunityEvent>,
) -> bool {
    let gas = gas_cost_spec(config.default_fixed_cost_gas_units, gwei)->0;
    &&& cache.status_spec() == SyncStatus::Stale ==> r.len() == 0
    &&& forall|k: int| 0 <= k < r.len() ==> event_common(#[trigger] r[k], timestamp_ns, cache.block_spec(), p, gas)
    &&& forall|k: int| 0 <= k < r.len() ==> event_from(#[trigger] r[k], config, cache, p, gas)
    &&& exists|srcs: Seq<int>| #[trigger] ordered_sources(r, srcs, config, cache, p, gas)
    &&& cache.status_spec() == SyncStatus::Synchronized ==> forall|i: int|
        0 <= i < config.pools@.len() && #[trigger] pool_must_report(
            config.pools@[i],
            cache,
            p,
            gas,
            config.min_profit_usd@,
        ) ==> reported(r, config.pools@[i].id@)
    &&& cache.status_spec() == SyncStatus::Synchronized ==> forall|i: int|
        0 <= i < config.routes@.len() && #[trigger] route_must_report(
            config,
            cache,
            config.routes@[i],
            p,
            gas,
        ) ==> reported(r, config.routes@[i].id@)
}

/// The legs built for the pool ids `ids`, skipping ids without a leg, and
/// the smallest block of their cached states.
fn route_legs(config: &WatchConfig, cache: &PoolCache, ids: &Vec<String>) -> (r: (Vec<Leg>, u64))
    requires
        pools_buildable(*config, *cache),
    ensures
        r.0@.len() <= ids@.len(),
        r.0@.len() == ids@.len() ==> forall|q: int|
            0 <= q < ids@.len() ==> #[trigger] leg_for_id(*config, *cache, ids@[q]@, r.0@[q]),
        (forall|q: int| 0 <= q < ids@.len() ==> #[trigger] id_buildable(*config, *cache, ids@[q]@))
            ==> r.0@.len() == ids@.len(),
        r.1 == states_min(*config, *cache, ids@, ids@.len()),
{
    let mut legs: Vec<Leg> = Vec::new();
    let mut min_block: u64 = u64::MAX;
    let mut t: usize = 0;
    while t < ids.len()
        invariant
            t <= ids@.len(),
            pools_buildable(*config, *cache),
            legs@.len() <= t,
            legs@.len() == t ==> forall|q: int|
                0 <= q < t ==> #[trigger] leg_for_id(*config, *cache, ids@[q]@, legs@[q]),
            (forall|q: int| 0 <= q < t ==> #[trigger] id_buildable(*config, *cache, ids@[q]@))
                ==> legs@.len() == t,
            min_block == states_min(*config, *cache, ids@, t as nat),
        decreases ids@.len() - t,
    {
        let pool_id = &ids[t];
        let ghost old_legs = legs@;
        let mut pushed = false;
        match find_config(&config.pools, pool_id) {
            Some(ci) => {
                match cache.get_pool(pool_id.as_str()) {
                    Some(state) => {
                        if state.last_block_number < min_block {
                            min_block = state.last_block_number;
                        }
                        let ghost st = cache.lookup(pool_id@)->0;
                        assert(build_ok(config.pools@[ci as int], st.reserves@, ov(st.sqrt_price_current)));
                        match build_leg(
                            &config.pools[ci],
                            state.reserves.as_slice(),
                            copy_opt(&state.sqrt_price_current),
                        ) {
                            Some(leg) => {
                                legs.push(leg);
                                pushed = true;
                                proof {
                                    if old_legs.len() == t {
                                        assert forall|q: int| 0 <= q < t + 1 implies #[trigger] leg_for_id(
                                            *config,
                                            *cache,
                                            ids@[q]@,
                                            legs@[q],
                                        ) by {
                                            if q < t {
                                                assert(legs@[q] == old_legs[q]);
                                            }
                                        }
                                    }
                                }
                            },
                            None => {
                                assert(!id_buildable(*config, *cache, ids@[t as int]@));
                            },
                        }
                    },
                    None => {
                        assert(!id_buildable(*config, *cache, ids@[t as int]@));
                    },
                }
            },
            None => {
                assert(!id_buildable(*config, *cache, ids@[t as int]@));
            },
        }
        proof {
            if forall|q: int| 0 <= q < t + 1 ==> #[trigger] id_buildable(*config, *cache, ids@[q]@) {
                assert(id_buildable(*config, *cache, ids@[t as int]@));
                assert(pushed);
                assert forall|q: int| 0 <= q < t implies #[trigger] id_buildable(*config, *cache, ids@[q]@) by {}
            }
        }
        t = t + 1;
    }
    (legs, min_block)
}

/// Decides `build_ok`.
fn build_ok_check(cfg: &PoolConfig, reserves: &[Dec], sqrt: &Option<Dec>) -> (r: bool)
    ensures
        r == build_ok(*cfg, reserves@, ov(*sqrt)),
{
    let lc = lowercase(cfg.curve_type.as_str());
    let cpmm_ok = if text_is(&lc, "cpmm") && reserves.len() >= 2 {
        cfg.input_token_index < reserves.len() && cfg.output_token_index < reserves.len()
    } else {
        true
    };
    let clmm_ok = if text_is(&lc, "clmm") {
        let price = match sqrt {
            Some(v) => v.copy(),
            None => Dec::one(),
        };
        o_mul(Some(price.copy()), Some(Dec::lit(8, 1))).is_some() && o_mul(
            Some(price),
            Some(Dec::lit(12, 1)),
        ).is_some()
    } else {
        true
    };
    cpmm_ok && clmm_ok
}

/// Decides `pools_buildable`.
fn pools_buildable_check(config: &WatchConfig, cache: &PoolCache) -> (r: bool)
    ensures
        r == pools_buildable(*config, *cache),
{
    let mut i: usize = 0;
    while i < config.pools.len()
        invariant
            i <= config.pools@.len(),
            forall|j: int|
                0 <= j < i ==> match cache.lookup(#[trigger] config.pools@[j].id@) {
                    Some(st) => build_ok(config.pools@[j], st.reserves@, ov(st.sqrt_price_current)),
                    None => true,
                },
        decreases config.pools@.len() - i,
    {
        let cfg = &config.pools[i];
        match cache.get_pool(cfg.id.as_str()) {
            Some(st) => {
                if !build_ok_check(cfg, st.reserves.as_slice(), &st.sqrt_price_current) {
                    assert(!(match cache.lookup(config.pools@[i as int].id@) {
                        Some(st) => build_ok(config.pools@[i as int], st.reserves@, ov(st.sqrt_price_current)),
                        None => true,
                    }));
                    return false;
                }
            },
            None => {},
        }
        i = i + 1;
    }
    true
}

/// Evaluates every watched pool and route as `evaluate_opportunities` does,
/// where its preconditions hold: the gas cost does not overflow and every
/// cached watched pool can be built. `None` otherwise.
pub fn try_evaluate_opportunities(
    config: &WatchConfig,
    cache: &PoolCache,
    reference_price: Dec,
    gas_price_gwei: Dec,
    timestamp_ns: u128,
) -> (r: Option<Vec<OpportunityEvent>>)
    ensures
        r is Some <==> gas_cost_spec(config.default_fixed_cost_gas_units, gas_price_gwei@) is Some
            && pools_buildable(*config, *cache),
        r matches Some(evs) ==> evaluates(
            *config,
            *cache,
            reference_price@,
            gas_price_gwei@,
            timestamp_ns,
            evs@,
        ),
{
    let gas = o_mul(
        o_mul(
            o_mul(Some(Dec::from_u64(config.default_fixed_cost_gas_units)), some(&gas_price_gwei)),
            Some(Dec::lit(1, 9)),
        ),
        Some(Dec::from_u64(3000)),
    );
    if gas.is_none() || !pools_buildable_check(config, cache) {
        return None;
    }
    Some(evaluate_opportunities(config, cache, reference_price, gas_price_gwei, timestamp_ns))
}

/// Sizes every watched pool, then every watched route, against
/// `reference_price` with a fixed cost of `gas_cost_spec` and no cap, and
/// returns an event for each whose net profit reaches `min_profit_usd`,
/// pools first, each in configuration order. A pool is sized when it has a
/// cached state and its leg can be built; a route when every one of its
/// (at least two) pool ids names a configured, cached pool whose leg can
/// be built, the first pool configured with that id.
#[verifier::spinoff_prover]
#[verifier::rlimit(80)]
pub fn evaluate_opportunities(
    config: &WatchConfig,
    cache: &PoolCache,
    reference_price: Dec,
    gas_price_gwei: Dec,
    timestamp_ns: u128,
) -> (r: Vec<OpportunityEvent>)
    requires
        gas_cost_spec(config.default_fixed_cost_gas_units, gas_price_gwei@) is Some,
        pools_buildable(*config, *cache),
    ensures
        evaluates(*config, *cache, reference_price@, gas_price_gwei@, timestamp_ns, r@),
{
    let block_num = cache.latest_block();
    let ghost gwei_gas = gas_cost_spec(config.default_fixed_cost_gas_units, gas_price_gwei@)->0;
    proof {
        assert(ordered_sources(Seq::empty(), Seq::empty(), *config, *cache, reference_price@, gwei_gas));
    }
    match cache.sync_status() {
        SyncStatus::Stale => {
            return Vec::new();
        },
        SyncStatus::Synchronized => {},
    }
    let gas = match o_mul(
        o_mul(
            o_mul(Some(Dec::from_u64(config.default_fixed_cost_gas_units)), some(&gas_price_gwei)),
            Some(Dec::lit(1, 9)),
        ),
        Some(Dec::from_u64(3000)),
    ) {
        Some(g) => g,
        None => return Vec::new(),
    };
    let p_text = dec_to_string(&reference_price);
    let gas_text = dec_to_string(&gas);
    let ghost p = reference_price@;
    let ghost min = config.min_profit_usd@;
    let mut events: Vec<OpportunityEvent> = Vec::new();
    let ghost mut srcs: Seq<int> = Seq::empty();
    let n = config.pools.len();
    let mut i: usize = 0;
    while i < n
        invariant
            n == config.pools@.len(),
            i <= n,
            p == reference_price@,
            min == config.min_profit_usd@,
            block_num == cache.block_spec(),
            pools_buildable(*config, *cache),
            p_text@ == decimal_to_string(p),
            gas_text@ == decimal_to_string(gas@),
            forall|k: int|
                0 <= k < events@.len() ==> event_common(
                    #[trigger] events@[k],
                    timestamp_ns,
                    block_num,
                    p,
                    gas@,
                ),
            forall|k: int| 0 <= k < events@.len() ==> event_from(#[trigger] events@[k], *config, *cache, p, gas@),
            forall|q: int|
                0 <= q < i && #[trigger] pool_must_report(config.pools@[q], *cache, p, gas@, min)
                    ==> reported(events@, config.pools@[q].id@),
            srcs.len() == events@.len(),
            forall|k: int| 0 <= k < events@.len() ==> #[trigger] event_at(events@[k], srcs[k], *config, *cache, p, gas@),
            forall|a: int, b: int| 0 <= a < b < srcs.len() ==> #[trigger] srcs[a] < #[trigger] srcs[b],
            forall|k: int| 0 <= k < srcs.len() ==> #[trigger] srcs[k] < i,
        decreases n - i,
    {
        let cfg = &config.pools[i];
        let ghost before = events@;
        match cache.get_pool(cfg.id.as_str()) {
            Some(state) => {
                let ghost st = cache.lookup(cfg.id@)->0;
                assert(build_ok(config.pools@[i as int], st.reserves@, ov(st.sqrt_price_current)));
                match build_leg(cfg, state.reserves.as_slice(), copy_opt(&state.sqrt_price_current)) {
                    Some(leg) => {
                        match size_leg(&leg, reference_price.copy(), no_cap(&gas)) {
                            Ok(res) => {
                                if !dec_lt(&res.expected_profit, &config.min_profit_usd) {
                                    let ev = make_event(
                                        &cfg.id,
                                        &res,
                                        timestamp_ns,
                                        block_num,
                                        &p_text,
                                        &gas_text,
                                        state.last_block_number,
                                    );
                                    proof {
                                        assert(pool_event(ev, config.pools@[i as int], st, leg, p, gas@, min));
                                        assert(event_from(ev, *config, *cache, p, gas@));
                                    }
                                    events.push(ev);
                                    proof {
                                        assert(events@[before.len() as int] == ev);
                                        assert(reported(events@, cfg.id@));
                                        assert(event_at(ev, i as int, *config, *cache, p, gas@));
                                        let old_srcs = srcs;
                                        srcs = srcs.push(i as int);
                                        assert forall|k: int| 0 <= k < events@.len() implies #[trigger] event_at(
                                            events@[k],
                                            srcs[k],
                                            *config,
                                            *cache,
                                            p,
                                            gas@,
                                        ) by {
                                            if k < before.len() {
                                                assert(events@[k] == before[k]);
                                                assert(srcs[k] == old_srcs[k]);
                                            }
                                        }
                                        assert forall|a: int, b: int| 0 <= a < b < srcs.len() implies #[trigger] srcs[a]
                                            < #[trigger] srcs[b] by {
                                            if b < old_srcs.len() {
                                                assert(srcs[a] == old_srcs[a] && srcs[b] == old_srcs[b]);
                                            } else {
                                                assert(srcs[a] == old_srcs[a]);
                                                assert(old_srcs[a] < i);
                                            }
                                        }
                                    }
                                }
                            },
                            Err(_) => {},
                        }
                    },
                    None => {},
                }
            },
            None => {},
        }
        proof {
            assert forall|q: int|
                0 <= q < i + 1 && #[trigger] pool_must_report(config.pools@[q], *cache, p, gas@, min)
                implies reported(events@, config.pools@[q].id@) by {
                if q < i {
                    let k = choose|k: int| 0 <= k < before.len() && (#[trigger] before[k]).target@
                        == config.pools@[q].id@;
                    assert(events@[k] == before[k]);
                }
            }
        }
        i = i + 1;
    }
    let m = config.routes.len();
    let mut j: usize = 0;
    while j < m
        invariant
            n == config.pools@.len(),
            m == config.routes@.len(),
            j <= m,
            p == reference_price@,
            min == config.min_profit_usd@,
            block_num == cache.block_spec(),
            pools_buildable(*config, *cache),
            p_text@ == decimal_to_string(p),
            gas_text@ == decimal_to_string(gas@),
            forall|k: int|
                0 <= k < events@.len() ==> event_common(
                    #[trigger] events@[k],
                    timestamp_ns,
                    block_num,
                    p,
                    gas@,
                ),
            forall|k: int| 0 <= k < events@.len() ==> event_from(#[trigger] events@[k], *config, *cache, p, gas@),
            forall|q: int|
                0 <= q < n && #[trigger] pool_must_report(config.pools@[q], *cache, p, gas@, min)
                    ==> reported(events@, config.pools@[q].id@),
            forall|q: int|
                0 <= q < j && #[trigger] route_must_report(*config, *cache, config.routes@[q], p, gas@)
                    ==> reported(events@, config.routes@[q].id@),
            srcs.len() == events@.len(),
            forall|k: int| 0 <= k < events@.len() ==> #[trigger] event_at(events@[k], srcs[k], *config, *cache, p, gas@),
            forall|a: int, b: int| 0 <= a < b < srcs.len() ==> #[trigger] srcs[a] < #[trigger] srcs[b],
            forall|k: int| 0 <= k < srcs.len() ==> #[trigger] srcs[k] < n + j,
        decreases m - j,
    {
        let rcfg = &config.routes[j];
        let ghost ids = rcfg.legs@;
        let ghost rc = config.routes@[j as int];
        let ghost before_route = events@;
        let (legs, min_block) = route_legs(config, cache, &rcfg.legs);
        let mut pushed = false;
        if legs.len() == rcfg.legs.len() && legs.len() >= 2 {
            let ghost built_legs = legs@;
            match Route::new_multi_hop(legs) {
                Ok(route) => {
                    assert(route_built(*config, *cache, ids, route));
                    match route.optimal_size(reference_price.copy(), no_cap(&gas)) {
                        Ok(res) => {
                            if !dec_lt(&res.expected_profit, &config.min_profit_usd) {
                                let state_block = if min_block == u64::MAX {
                                    block_num
                                } else {
                                    min_block
                                };
                                let ghost before = events@;
                                let ev = make_event(
                                    &rcfg.id,
                                    &res,
                                    timestamp_ns,
                                    block_num,
                                    &p_text,
                                    &gas_text,
                                    state_block,
                                );
                                proof {
                                    assert(route_event(ev, *config, *cache, config.routes@[j as int], route, p, gas@));
                                    assert(event_from(ev, *config, *cache, p, gas@));
                                }
                                events.push(ev);
                                pushed = true;
                                proof {
                                    assert(events@[before.len() as int] == ev);
                                    assert(reported(events@, rc.id@));
                                    assert(config.routes@[(n + j) - n] == rc);
                                    assert(event_at(ev, n + j, *config, *cache, p, gas@));
                                    let old_srcs = srcs;
                                    srcs = srcs.push(n + j);
                                    assert forall|k: int| 0 <= k < events@.len() implies #[trigger] event_at(
                                        events@[k],
                                        srcs[k],
                                        *config,
                                        *cache,
                                        p,
                                        gas@,
                                    ) by {
                                        if k < before.len() {
                                            assert(events@[k] == before[k]);
                                            assert(srcs[k] == old_srcs[k]);
                                        }
                                    }
                                    assert forall|a: int, b: int| 0 <= a < b < srcs.len() implies #[trigger] srcs[a]
                                        < #[trigger] srcs[b] by {
                                        if b < old_srcs.len() {
                                            assert(srcs[a] == old_srcs[a] && srcs[b] == old_srcs[b]);
                                        } else {
                                            assert(srcs[a] == old_srcs[a]);
                                            assert(old_srcs[a] < n + j);
                                        }
                                    }
                                }
                            } else {
                                assert(!route_must_report(*config, *cache, rc, p, gas@));
                            }
                        },
                        Err(_) => {
                            assert(!route_must_report(*config, *cache, rc, p, gas@));
                        },
                    }
                },
                Err(_) => {},
            }
        } else {
            assert(!route_must_report(*config, *cache, rc, p, gas@));
        }
        proof {
            if pushed {
                assert(events@.len() == before_route.len() + 1);
                assert forall|k: int| 0 <= k < before_route.len() implies events@[k] == before_route[k] by {}
            } else {
                assert(events@ == before_route);
            }
            assert forall|q: int|
                0 <= q < n && #[trigger] pool_must_report(config.pools@[q], *cache, p, gas@, min)
                implies reported(events@, config.pools@[q].id@) by {
                let k = choose|k: int| 0 <= k < before_route.len() && (#[trigger] before_route[k]).target@
                    == config.pools@[q].id@;
                assert(events@[k] == before_route[k]);
            }
            assert forall|q: int|
                0 <= q < j + 1 && #[trigger] route_must_report(*config, *cache, config.routes@[q], p, gas@)
                implies reported(events@, config.routes@[q].id@) by {
                if q < j {
                    let k = choose|k: int| 0 <= k < before_route.len() && (#[trigger] before_route[k]).target@
                        == config.routes@[q].id@;
                    assert(events@[k] == before_route[k]);
                }
            }
        }
        j = j + 1;
    }
    assert(ordered_sources(events@, srcs, *config, *cache, p, gas@));
    events
}

} // verus!
