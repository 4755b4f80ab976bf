//! `NetProfit`: the shared capacity clip applied by every curve.
use crate::decimal::{decimal_sub, o_mul, o_sub, ov, s_mul, s_sub, some, value_lt, Dec};
use crate::error::{overflow, rv, ErrKind, SizingError};
use crate::types::{GuaranteeTier, SizingConstraints, SizingResult};
use vstd::prelude::*;

verus! {

/// The upper end of a search domain after clipping it to `max_size`
/// (`Decimal::min`: the clip wins only when strictly smaller).
pub open spec fn clip_hi(hi: (int, int), max_size: Option<(int, int)>) -> (int, int) {
    match max_size {
        Some(m) => if value_lt(m, hi) {
            m
        } else {
            hi
        },
        None => hi,
    }
}

/// A value strictly above zero has a positive mantissa.
pub proof fn lemma_above_zero(v: (int, int))
    requires
        value_lt((0, 0), v),
    ensures
        v.0 > 0,
{
    assert(crate::decimal::pow10(0) == 1) by {
        vstd::arithmetic::power::lemma_pow0(10);
    }
}

/// Shared fixed-cost/capacity domain restriction.
pub struct NetProfit;

impl NetProfit {
    /// Clips `raw_domain = (lo, hi)` to `constraints.max_size`; returns
    /// `NoProfitableSize` when the clipped domain is empty (`hi <= lo`).
    pub fn restrict_domain(constraints: &SizingConstraints, raw_domain: (Dec, Dec)) -> (r: Result<
        (Dec, Dec),
        SizingError,
    >)
        ensures
            r is Ok <==> value_lt(raw_domain.0@, clip_hi(raw_domain.1@, ov(constraints.max_size))),
            r matches Ok(d) ==> d.0@ == raw_domain.0@ && d.1@ == clip_hi(
                raw_domain.1@,
                ov(constraints.max_size),
            ),
            r matches Err(e) ==> e@ == ErrKind::NoProfitableSize,
    {
        let (lo, hi) = raw_domain;
        let hi = match &constraints.max_size {
            Some(max_size) => hi.min(max_size),
            None => hi,
        };
        if !crate::decimal::dec_lt(&lo, &hi) {
            return Err(SizingError::NoProfitableSize);
        }
        Ok((lo, hi))
    }
}

/// The view of a sizing result: `(optimal_delta, expected_profit)`, or the
/// error's kind.
pub open spec fn srv(r: Result<SizingResult, SizingError>) -> Result<
    ((int, int), (int, int)),
    ErrKind,
> {
    match r {
        Ok(res) => Ok((res.optimal_delta@, res.expected_profit@)),
        Err(e) => Err(e@),
    }
}

/// Net expected profit `output - reference_price * delta - fixed_cost`;
/// `NoProfitableSize` unless it is positive.
pub open spec fn settle(output: (int, int), p: (int, int), delta: (int, int), fixed: (int, int)) -> Result<
    (int, int),
    ErrKind,
> {
    match s_sub(s_sub(Some(output), s_mul(Some(p), Some(delta))), Some(fixed)) {
        None => Err(ErrKind::InvalidReserves),
        Some(e) => if e.0 <= 0 {
            Err(ErrKind::NoProfitableSize)
        } else {
            Ok(e)
        },
    }
}

/// The last step every curve shares: given the quote at the chosen size,
/// the chosen size and its net expected profit.
pub open spec fn conclude(
    delta: (int, int),
    quoted: Result<(int, int), ErrKind>,
    p: (int, int),
    fixed: (int, int),
) -> Result<((int, int), (int, int)), ErrKind> {
    match quoted {
        Err(e) => Err(e),
        Ok(out) => match settle(out, p, delta, fixed) {
            Err(e) => Err(e),
            Ok(e) => Ok((delta, e)),
        },
    }
}

/// The clipped chosen size: `NoProfitableSize` unless positive, else the
/// conclusion from its quote.
pub open spec fn conclude_clipped(
    unconstrained: (int, int),
    max_size: Option<(int, int)>,
    quoted: Result<(int, int), ErrKind>,
    p: (int, int),
    fixed: (int, int),
) -> Result<((int, int), (int, int)), ErrKind> {
    if !value_lt((0, 0), clip_hi(unconstrained, max_size)) {
        Err(ErrKind::NoProfitableSize)
    } else {
        conclude(clip_hi(unconstrained, max_size), quoted, p, fixed)
    }
}

/// Two sizings that differ only in the fixed cost differ only in it: where
/// the one without a cost succeeds with gross profit `g`, the one with the
/// cost chooses the same size and earns `g - fixed`, or reports
/// `NoProfitableSize` where `g - fixed` is not positive (and
/// `InvalidReserves` where the subtraction overflows).
pub open spec fn shifted_by_cost(
    r: Result<((int, int), (int, int)), ErrKind>,
    r0: Result<((int, int), (int, int)), ErrKind>,
    fixed: (int, int),
) -> bool {
    match r0 {
        Ok(b) => exists|g: (int, int)|
            Some(b.1) == decimal_sub(g, (0, 0)) && r == match #[trigger] decimal_sub(g, fixed) {
                None => Err(ErrKind::InvalidReserves),
                Some(v) => if v.0 <= 0 {
                    Err(ErrKind::NoProfitableSize)
                } else {
                    Ok((b.0, v))
                },
            },
        Err(_) => true,
    }
}

/// The last step gives results shifted by the fixed cost.
pub proof fn lemma_conclude_shift(
    unconstrained: (int, int),
    max_size: Option<(int, int)>,
    quoted: Result<(int, int), ErrKind>,
    p: (int, int),
    fixed: (int, int),
)
    ensures
        shifted_by_cost(
            conclude_clipped(unconstrained, max_size, quoted, p, fixed),
            conclude_clipped(unconstrained, max_size, quoted, p, (0, 0)),
            fixed,
        ),
{
    let r = conclude_clipped(unconstrained, max_size, quoted, p, fixed);
    let r0 = conclude_clipped(unconstrained, max_size, quoted, p, (0, 0));
    if r0 is Ok {
        let d = r0->Ok_0.0;
        let out = quoted->Ok_0;
        let g = s_sub(Some(out), s_mul(Some(p), Some(d)))->0;
        assert(Some(r0->Ok_0.1) == decimal_sub(g, (0, 0)));
        let _ = decimal_sub(g, fixed);
    }
}

/// The clipped size never exceeds the caller's cap.
pub proof fn lemma_clip_within_cap(u: (int, int), m: (int, int))
    ensures
        crate::decimal::value_le(clip_hi(u, Some(m)), m),
{
}

/// Computes the net expected profit at `delta` from its quote and packs the
/// result; `NoProfitableSize` unless the profit is positive.
pub fn conclude_exec(
    delta: Dec,
    quoted: Result<Dec, SizingError>,
    p: &Dec,
    fixed: &Dec,
    tier: GuaranteeTier,
    iterations: Option<u32>,
) -> (r: Result<SizingResult, SizingError>)
    ensures
        srv(r) == conclude(delta@, rv(quoted), p@, fixed@),
        r matches Ok(res) ==> res.guarantee_tier == tier && res.iterations == iterations,
{
    let output = match quoted {
        Ok(o) => o,
        Err(e) => return Err(e),
    };
    let expected = match o_sub(o_sub(some(&output), o_mul(some(p), some(&delta))), some(fixed)) {
        Some(e) => e,
        None => return Err(overflow()),
    };
    if !expected.is_positive() {
        return Err(SizingError::NoProfitableSize);
    }
    Ok(
        SizingResult {
            optimal_delta: delta,
            expected_profit: expected,
            guarantee_tier: tier,
            iterations,
        },
    )
}

} // verus!
