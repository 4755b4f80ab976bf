//! The live-pool integration's pure helpers: hex text, ABI words and slots,
//! and reserve normalization.
use crate::curves::{Cpmm, StableSwap};
use crate::curves::cpmm::valid_fee;
use crate::decimal::{
    dec_div, decimal_div, o_div, o_mul, o_sub, ov, pow10, s_div, s_mul, s_sub, some, value_lt, Dec,
    MAX_MANTISSA,
};
use crate::error::{overflow, rv, ErrKind, SizingError};
use crate::profit::srv;
use crate::traits::{PricingCurve, SizingAlgorithm};
use crate::types::{SizingConstraints, SizingResult};
use crate::multicall::{hex_decode, hex_encode, read_be, valid_hex, word_spec, word_uint256};
use vstd::prelude::*;

verus! {

/// Encodes bytes as lowercase hex text, two digits per byte.
pub fn to_hex(bytes: &[u8]) -> (r: String)
    ensures
        r@ == hex_encode(bytes@),
{
    crate::multicall::to_hex(bytes)
}

/// Decodes hex text (an optional `"0x"`, then pairs of hex digits) into
/// bytes.
pub fn from_hex(s: &str) -> (r: Vec<u8>)
    requires
        valid_hex(s@),
    ensures
        r@ == hex_decode(s@),
{
    crate::multicall::from_hex_bytes(s)
}

/// Decodes hex text as `from_hex` does; `None` unless it is valid hex text.
pub fn try_from_hex(s: &str) -> (r: Option<Vec<u8>>)
    ensures
        r is Some <==> valid_hex(s@),
        r matches Some(b) ==> b@ == hex_decode(s@),
{
    if crate::multicall::is_valid_hex(s) {
        Some(from_hex(s))
    } else {
        None
    }
}

/// A single `uint256` call argument: the 32-byte big-endian word of
/// `value`, in hex.
pub fn encode_uint256_arg(value: u64) -> (r: String)
    ensures
        r@ == hex_encode(word_spec(value as nat)),
{
    let word = word_uint256(value);
    to_hex(&word)
}

/// The value of a 32-byte big-endian slot whose high 16 bytes are zero.
pub fn decode_uint256_as_u128(slot: &[u8]) -> (r: u128)
    requires
        slot@.len() == 32,
        forall|i: int| 0 <= i < 16 ==> slot@[i] == 0,
    ensures
        r == read_be(slot@.subrange(16, 32)),
{
    let mut acc: u128 = 0;
    let mut j: usize = 16;
    while j < 32
        invariant
            16 <= j <= 32,
            slot@.len() == 32,
            acc == read_be(slot@.subrange(16, j as int)),
            acc < crate::multicall::p256((j - 16) as nat),
        decreases 32 - j,
    {
        proof {
            lemma_p256_16();
            lemma_p256_le((j - 16 + 1) as nat, 16);
            assert(slot@.subrange(16, j + 1).drop_last() =~= slot@.subrange(16, j as int));
            let p = crate::multicall::p256((j - 16) as nat);
            assert(acc * 256 + 255 < 256 * p) by (nonlinear_arith)
                requires
                    acc < p,
            ;
        }
        acc = acc * 256 + slot[j] as u128;
        j = j + 1;
    }
    acc
}

proof fn lemma_p256_16()
    ensures
        crate::multicall::p256(16) == 0x1_0000_0000_0000_0000_0000_0000_0000_0000,
{
    reveal_with_fuel(crate::multicall::p256, 17);
}

proof fn lemma_p256_le(a: nat, b: nat)
    requires
        a <= b,
    ensures
        crate::multicall::p256(a) <= crate::multicall::p256(b),
    decreases b,
{
    if a < b {
        lemma_p256_le(a, (b - 1) as nat);
    }
}

/// The address held in a 32-byte slot: `"0x"` and the hex of its low 20
/// bytes.
pub fn decode_address(slot: &[u8]) -> (r: String)
    requires
        slot@.len() == 32,
    ensures
        r@ == "0x"@ + hex_encode(slot@.subrange(12, 32)),
{
    let mut low: Vec<u8> = Vec::new();
    let mut i: usize = 12;
    while i < 32
        invariant
            12 <= i <= 32,
            slot@.len() == 32,
            low@ == slot@.subrange(12, i as int),
        decreases 32 - i,
    {
        low.push(slot[i]);
        i = i + 1;
        assert(low@ =~= slot@.subrange(12, i as int));
    }
    let mut out = String::from_str("0x");
    let hex = to_hex(low.as_slice());
    out.append(hex.as_str());
    out
}

/// `raw / 10^decimals` as a decimal, for a raw amount that a decimal can
/// hold and at most 28 decimals; `None` if the division fails.
pub fn normalize(raw: u128, decimals: u32) -> (r: Option<Dec>)
    requires
        raw <= MAX_MANTISSA,
        decimals <= 28,
    ensures
        ov(r) == decimal_div((raw as int, 0int), (pow10(decimals as int), 0int)),
{
    proof {
        vstd::arithmetic::power::lemma_pow0(10);
        lemma_pow10_28();
        vstd::arithmetic::power::lemma_pow_increases(10, 0, 28);
    }
    let mut p: u128 = 1;
    let mut k: u32 = 0;
    while k < decimals
        invariant
            k <= decimals <= 28,
            p == pow10(k as int),
            p <= 10000000000000000000000000000,
        decreases decimals - k,
    {
        proof {
            vstd::arithmetic::power::lemma_pow_adds(10, k as nat, 1);
            vstd::arithmetic::power::lemma_pow1(10);
            vstd::arithmetic::power::lemma_pow_increases(10, (k + 1) as nat, 28);
            lemma_pow10_28();
            assert(pow10(k + 1) == p * 10);
        }
        p = p * 10;
        k = k + 1;
    }
    let numerator = Dec::lit(raw as i128, 0);
    let denominator = Dec::lit(p as i128, 0);
    dec_div(&numerator, &denominator)
}

proof fn lemma_pow10_3()
    ensures
        pow10(0) == 1,
        pow10(3) == 1000,
{
    vstd::arithmetic::power::lemma_pow0(10);
    vstd::arithmetic::power::lemma_pow1(10);
    vstd::arithmetic::power::lemma_pow_adds(10, 1, 1);
    vstd::arithmetic::power::lemma_pow_adds(10, 2, 1);
}

proof fn lemma_pow10_28()
    ensures
        pow10(28) == 10000000000000000000000000000,
{
    vstd::arithmetic::power::lemma_pow1(10);
    vstd::arithmetic::power::lemma_pow_adds(10, 1, 1);
    vstd::arithmetic::power::lemma_pow_adds(10, 2, 1);
    vstd::arithmetic::power::lemma_pow_adds(10, 3, 4);
    vstd::arithmetic::power::lemma_pow_adds(10, 7, 7);
    vstd::arithmetic::power::lemma_pow_adds(10, 14, 14);
    assert(vstd::arithmetic::power::pow(10, 2) == 100);
    assert(vstd::arithmetic::power::pow(10, 3) == 1000);
    assert(vstd::arithmetic::power::pow(10, 4) == 10000) by {
        vstd::arithmetic::power::lemma_pow_adds(10, 2, 2);
    }
    assert(vstd::arithmetic::power::pow(10, 7) == 10000000);
    assert(vstd::arithmetic::power::pow(10, 14) == 100000000000000) by {
        vstd::arithmetic::power::lemma_pow_adds(10, 7, 7);
        assert(vstd::arithmetic::power::pow(10, 14) == vstd::arithmetic::power::pow(10, 7)
            * vstd::arithmetic::power::pow(10, 7));
        assert(10000000int * 10000000int == 100000000000000int);
    }
    assert(vstd::arithmetic::power::pow(10, 28) == 10000000000000000000000000000) by {
        vstd::arithmetic::power::lemma_pow_adds(10, 14, 14);
        assert(vstd::arithmetic::power::pow(10, 28) == vstd::arithmetic::power::pow(10, 14)
            * vstd::arithmetic::power::pow(10, 14));
        assert(100000000000000int * 100000000000000int == 10000000000000000000000000000int);
    }
}

// ---------------------------------------------------------------------------
// Sizing the live pools
// ---------------------------------------------------------------------------
/// The reference price: the caller's, or `0.999` times the marginal price
/// (a 0.1% offset that makes the pool look mispriced).
pub open spec fn reference_spec(marginal: (int, int), reference_override: Option<(int, int)>) -> Option<
    (int, int),
> {
    match reference_override {
        Some(p) => Some(p),
        None => s_mul(Some(marginal), Some((999, 3))),
    }
}

fn reference_price(marginal: &Dec, reference_override: &Option<Dec>) -> (r: Option<Dec>)
    ensures
        ov(r) == reference_spec(marginal@, ov(*reference_override)),
{
    match reference_override {
        Some(p) => Some(p.copy()),
        None => o_mul(some(marginal), Some(Dec::lit(999, 3))),
    }
}

fn unconstrained() -> (r: SizingConstraints)
    ensures
        r.fixed_cost@ == (0int, 0int),
        r.max_size is None,
{
    SizingConstraints { fixed_cost: Dec::zero(), max_size: None }
}

/// A constant-product pool read from chain, sized.
pub struct UniswapSizing {
    /// The pool, with Uniswap v2's fixed fee retention of `0.997`.
    pub pool: Cpmm,
    /// Its marginal price `0.997 * y / x`.
    pub marginal_price: Dec,
    /// The reference price used.
    pub reference_price: Dec,
    /// The sizing against that price, with no fixed cost or cap.
    pub outcome: Result<SizingResult, SizingError>,
}

/// Sizes a Uniswap v2 pool with normalized reserves `x`, `y` against
/// `reference_override`, or against `0.999` times its marginal price.
/// `InvalidReserves` when the pool cannot be built or the reference price
/// overflows.
pub fn size_uniswap_v2(x: Dec, y: Dec, reference_override: Option<Dec>) -> (r: Result<
    UniswapSizing,
    SizingError,
>)
    ensures
        ({
            let marginal = s_div(s_mul(Some((997, 3)), Some(y@)), Some(x@));
            &&& r is Ok <==> x@.0 > 0 && y@.0 > 0 && marginal is Some && reference_spec(
                marginal->0,
                ov(reference_override),
            ) is Some
            &&& r matches Ok(s) ==> {
                &&& s.pool.x@ == x@ && s.pool.y@ == y@ && s.pool.fee_retention@ == (997int, 3int)
                &&& Some(s.marginal_price@) == marginal
                &&& Some(s.reference_price@) == reference_spec(marginal->0, ov(reference_override))
                &&& srv(s.outcome) == s.pool.optimal_size_spec(s.reference_price@, (0, 0), None)
            }
            &&& r matches Err(e) ==> e@ == ErrKind::InvalidReserves
        }),
{
    let fee_retention = Dec::lit(997, 3);
    proof {
        lemma_pow10_3();
        assert(valid_fee(fee_retention@));
    }
    let pool = match Cpmm::new(x, y, fee_retention) {
        Ok(p) => p,
        Err(e) => return Err(e),
    };
    let marginal_price = match o_div(o_mul(Some(Dec::lit(997, 3)), some(&pool.y)), some(&pool.x)) {
        Some(m) => m,
        None => return Err(overflow()),
    };
    let reference = match reference_price(&marginal_price, &reference_override) {
        Some(p) => p,
        None => return Err(overflow()),
    };
    let outcome = pool.optimal_size(reference.copy(), unconstrained());
    Ok(UniswapSizing { pool, marginal_price, reference_price: reference, outcome })
}

/// What the sizing of a StableSwap pool derives from a small quote.
pub struct CurveEstimate {
    /// The estimated marginal price `quote(epsilon) / epsilon`.
    pub marginal_price: Dec,
    /// The reference price used.
    pub reference_price: Dec,
    /// The sizing against that price, with no fixed cost or cap.
    pub outcome: Result<SizingResult, SizingError>,
}

/// A StableSwap pool read from chain, sized.
pub struct CurveSizing {
    /// `A()` read as the unscaled amplification.
    pub amplification_unscaled: Dec,
    /// `A()` divided by 100, in case the pool scales it.
    pub amplification_scaled: Dec,
    /// The pool, with the chosen amplification and `1 - fee() / 1e10` as fee
    /// retention.
    pub pool: StableSwap,
    /// The trade used to estimate the marginal price: `1e-6` of the largest
    /// balance.
    pub epsilon: Dec,
    /// The marginal price estimate and the sizing, or why the estimate failed.
    pub estimate: Result<CurveEstimate, SizingError>,
}

/// `max(max(a, b), c)` as `Decimal::max` chains it.
pub open spec fn max3(a: (int, int), b: (int, int), c: (int, int)) -> (int, int) {
    let ab = if value_lt(a, b) {
        b
    } else {
        a
    };
    if value_lt(ab, c) {
        c
    } else {
        ab
    }
}

/// The amplification used: the override, or `A()` unscaled.
pub open spec fn curve_amp(a_raw: u128, amplification_override: Option<(int, int)>) -> (int, int) {
    match amplification_override {
        Some(a) => a,
        None => (a_raw as int, 0int),
    }
}

/// The fee retention `1 - fee() / 1e10`.
pub open spec fn curve_fee(fee_raw: u128) -> Option<(int, int)> {
    s_sub(Some((1, 0)), s_div(Some((fee_raw as int, 0int)), Some((10000000000, 0))))
}

/// The pool can be built: every step up to the pool's construction succeeds.
pub open spec fn curve_buildable(
    dai: (int, int),
    usdc: (int, int),
    usdt: (int, int),
    a_raw: u128,
    fee_raw: u128,
    amplification_override: Option<(int, int)>,
) -> bool {
    &&& s_div(Some((a_raw as int, 0int)), Some((100, 0))) is Some
    &&& curve_fee(fee_raw) is Some
    &&& s_mul(Some(max3(dai, usdc, usdt)), Some((1, 6))) is Some
    &&& dai.0 > 0 && usdc.0 > 0 && usdt.0 > 0
    &&& !value_lt(curve_amp(a_raw, amplification_override), (1, 0))
    &&& valid_fee(curve_fee(fee_raw)->0)
}

/// Sizes Curve's 3pool from its normalized balances and the raw `A()` and
/// `fee()` words: the amplification is `amplification_override` or `A()`
/// unscaled, the fee retention `1 - fee() / 1e10`; the marginal price is
/// estimated on a trade of `1e-6` of the largest balance, and the pool is
/// sized against `reference_override` or `0.999` times that price.
/// `InvalidReserves` when the pool cannot be built; the estimate carries the
/// quote's own error, or `InvalidReserves` when a later step overflows.
pub fn size_curve_3pool(
    dai: Dec,
    usdc: Dec,
    usdt: Dec,
    a_raw: u128,
    fee_raw: u128,
    amplification_override: Option<Dec>,
    reference_override: Option<Dec>,
) -> (r: Result<CurveSizing, SizingError>)
    requires
        a_raw <= MAX_MANTISSA,
        fee_raw <= MAX_MANTISSA,
    ensures
        r is Ok <==> curve_buildable(dai@, usdc@, usdt@, a_raw, fee_raw, ov(amplification_override)),
        r matches Err(e) ==> e@ == ErrKind::InvalidReserves,
        r matches Ok(s) ==> {
            &&& s.amplification_unscaled@ == (a_raw as int, 0int)
            &&& Some(s.amplification_scaled@) == s_div(Some((a_raw as int, 0int)), Some((100, 0)))
            &&& s.pool.reserves@.len() == 3 && s.pool.reserves@[0]@ == dai@ && s.pool.reserves@[1]@
                == usdc@ && s.pool.reserves@[2]@ == usdt@
            &&& s.pool.amplification@ == curve_amp(a_raw, ov(amplification_override))
            &&& Some(s.pool.fee_retention@) == curve_fee(fee_raw)
            &&& Some(s.epsilon@) == s_mul(Some(max3(dai@, usdc@, usdt@)), Some((1, 6)))
            &&& (s.estimate is Ok <==> (s.pool.quote_spec(s.epsilon@) matches Ok(q) && s_div(
                Some(q),
                Some(s.epsilon@),
            ) matches Some(m) && reference_spec(m, ov(reference_override)) is Some))
            &&& s.estimate matches Ok(est) ==> {
                &&& s.pool.quote_spec(s.epsilon@) matches Ok(q) && Some(est.marginal_price@)
                    == s_div(Some(q), Some(s.epsilon@))
                &&& Some(est.reference_price@) == reference_spec(
                    est.marginal_price@,
                    ov(reference_override),
                )
                &&& srv(est.outcome) == s.pool.optimal_size_spec(est.reference_price@, (0, 0), None)
            }
            &&& s.estimate matches Err(e) ==> match s.pool.quote_spec(s.epsilon@) {
                Err(k) => e@ == k,
                Ok(_) => e@ == ErrKind::InvalidReserves,
            }
        },
{
    let amplification_unscaled = Dec::lit(a_raw as i128, 0);
    let amplification_scaled = match dec_div(&amplification_unscaled, &Dec::from_u64(100)) {
        Some(v) => v,
        None => return Err(overflow()),
    };
    let amplification = match &amplification_override {
        Some(a) => a.copy(),
        None => amplification_unscaled.copy(),
    };
    let fee_fraction = o_div(Some(Dec::lit(fee_raw as i128, 0)), Some(Dec::from_u64(10000000000)));
    let fee_retention = match o_sub(Some(Dec::one()), fee_fraction) {
        Some(f) => f,
        None => return Err(overflow()),
    };
    let epsilon = match o_mul(Some(dai.max(&usdc).max(&usdt)), Some(Dec::lit(1, 6))) {
        Some(e) => e,
        None => return Err(overflow()),
    };
    let mut reserves: Vec<Dec> = Vec::new();
    reserves.push(dai);
    reserves.push(usdc);
    reserves.push(usdt);
    let pool = match StableSwap::new(reserves, amplification, fee_retention) {
        Ok(p) => p,
        Err(e) => return Err(e),
    };
    let estimate = estimate_curve(&pool, &epsilon, &reference_override);
    Ok(
        CurveSizing {
            amplification_unscaled,
            amplification_scaled,
            pool,
            epsilon,
            estimate,
        },
    )
}

fn estimate_curve(pool: &StableSwap, epsilon: &Dec, reference_override: &Option<Dec>) -> (r: Result<
    CurveEstimate,
    SizingError,
>)
    ensures
        r is Ok <==> (pool.quote_spec(epsilon@) matches Ok(q) && s_div(Some(q), Some(epsilon@)) matches Some(
            m,
        ) && reference_spec(m, ov(*reference_override)) is Some),
        r matches Ok(est) ==> {
            &&& pool.quote_spec(epsilon@) matches Ok(q) && Some(est.marginal_price@) == s_div(
                Some(q),
                Some(epsilon@),
            )
            &&& Some(est.reference_price@) == reference_spec(
                est.marginal_price@,
                ov(*reference_override),
            )
            &&& srv(est.outcome) == pool.optimal_size_spec(est.reference_price@, (0, 0), None)
        },
        r matches Err(e) ==> match pool.quote_spec(epsilon@) {
            Err(k) => e@ == k,
            Ok(_) => e@ == ErrKind::InvalidReserves,
        },
{
    let quoted = match pool.quote(epsilon.copy()) {
        Ok(q) => q,
        Err(e) => return Err(e),
    };
    let marginal_price = match o_div(Some(quoted), some(epsilon)) {
        Some(m) => m,
        None => return Err(overflow()),
    };
    let reference = match reference_price(&marginal_price, reference_override) {
        Some(p) => p,
        None => return Err(overflow()),
    };
    let outcome = pool.optimal_size(reference.copy(), unconstrained());
    Ok(CurveEstimate { marginal_price, reference_price: reference, outcome })
}

} // verus!
