//! `SlippageBound`: a worst-case `min_amount_out` under an assumed maximum
//! adverse price movement (applied to the already-quoted output, not by
//! re-solving the curve at moved reserves).
use crate::decimal::{
    aligned_diff, dec_lt, dec_mul, dec_sub, in_range, lemma_pow10_pos, max_scale, narrow_pair, pow10,
    s_mul, s_sub, value_le, value_lt, Dec, MAX_MANTISSA,
};
use crate::error::{invalid, invalid_got, ErrKind, SizingError};
use vstd::arithmetic::power::pow;
use vstd::prelude::*;

verus! {

/// A worst-case `min_amount_out` bound for a trade.
#[derive(Debug)]
pub struct SlippageBound {
    /// The floor output amount, below which the trade should revert.
    pub min_amount_out: Dec,
    /// The staleness fraction this bound was computed from.
    pub staleness_fraction: Dec,
}

/// `quoted_output * (1 - staleness_fraction)`, as the decimal operations
/// compute it.
pub open spec fn floored_output(q: (int, int), s: (int, int)) -> Option<(int, int)> {
    s_mul(Some(q), s_sub(Some((1, 0)), Some(s)))
}

/// `quoted_output * (1 - staleness_fraction)` exactly, at the sum of the
/// two scales.
pub open spec fn exact_floored(q: (int, int), s: (int, int)) -> (int, int) {
    (q.0 * (pow10(s.1) - s.0), q.1 + s.1)
}

/// A valid quote and a positive fraction for which neither step rounds:
/// `1 - s` is exact (a mantissa below `2^64` at a scale of at most 19) and
/// so is the product (it fits the decimal range).
pub open spec fn exact_floor(q: (int, int), s: (int, int)) -> bool {
    q.0 > 0 && 0 < s.0 < 0x1_0000_0000_0000_0000 && s.1 <= 19 && value_lt(s, (1, 0)) && in_range(
        exact_floored(q, s),
    )
}

/// Where `exact_floor` holds, `1 - s` is the narrow pair's exact
/// difference, and the exact product is positive and at most `q`.
proof fn lemma_exact_floor(q: (int, int), s: (int, int))
    requires
        exact_floor(q, s),
        0 <= s.1,
        0 <= q.1,
    ensures
        narrow_pair((1, 0), s),
        max_scale((1, 0), s) == s.1,
        aligned_diff((1, 0), s) == pow10(s.1) - s.0,
        0 < pow10(s.1) - s.0 <= MAX_MANTISSA,
        exact_floored(q, s).0 > 0,
        value_le(exact_floored(q, s), q),
{
    lemma_pow10_pos(s.1);
    lemma_pow10_pos(q.1);
    assert(pow10(0) == 1) by {
        vstd::arithmetic::power::lemma_pow0(10);
    }
    vstd::arithmetic::power::lemma_pow_increases(10, s.1 as nat, 19);
    assert(pow10(19) == 10000000000000000000) by {
        reveal_with_fuel(pow, 20);
    }
    let m = pow10(s.1) - s.0;
    assert(m > 0);
    assert(q.0 * m > 0) by (nonlinear_arith)
        requires
            q.0 > 0,
            m > 0,
    ;
    vstd::arithmetic::power::lemma_pow_adds(10, q.1 as nat, s.1 as nat);
    assert(pow10(q.1 + s.1) == pow10(q.1) * pow10(s.1));
    assert(q.0 * m * pow10(q.1) <= q.0 * (pow10(q.1) * pow10(s.1))) by (nonlinear_arith)
        requires
            q.0 > 0,
            m == pow10(s.1) - s.0,
            s.0 > 0,
            pow10(q.1) > 0,
    ;
}

impl SlippageBound {
    /// `min_amount_out = quoted_output * (1 - staleness_fraction)`. Returns
    /// `InvalidReserves` if `quoted_output <= 0` or `staleness_fraction` is
    /// not in `[0, 1)`.
    pub fn from_quote(quoted_output: Dec, staleness_fraction: Dec) -> (r: Result<
        SlippageBound,
        SizingError,
    >)
        ensures
            (quoted_output@.0 <= 0 || staleness_fraction@.0 < 0 || !value_lt(
                staleness_fraction@,
                (1, 0),
            )) ==> (r matches Err(e) && e@ == ErrKind::InvalidReserves),
            quoted_output@.0 > 0 && staleness_fraction@.0 >= 0 && value_lt(
                staleness_fraction@,
                (1, 0),
            ) ==> match floored_output(quoted_output@, staleness_fraction@) {
                Some(v) => (r matches Ok(b) && b.min_amount_out@ == v && b.staleness_fraction@
                    == staleness_fraction@),
                None => (r matches Err(e) && e@ == ErrKind::InvalidReserves),
            },
            // A zero staleness fraction hands the quote back unchanged.
            quoted_output@.0 > 0 && staleness_fraction@.0 == 0 ==> (r matches Ok(b)
                && b.min_amount_out@ == quoted_output@),
            // Where no step rounds, the bound is positive and at most the quote.
            exact_floor(quoted_output@, staleness_fraction@) ==> (r matches Ok(b) && b.min_amount_out@
                == exact_floored(quoted_output@, staleness_fraction@) && b.min_amount_out@.0 > 0
                && value_le(b.min_amount_out@, quoted_output@)),
    {
        let _ = quoted_output.scale();
        let _ = quoted_output.mantissa();
        let _ = staleness_fraction.scale();
        if !quoted_output.is_positive() {
            return Err(invalid_got("quoted_output must be > 0", &quoted_output));
        }
        let one = Dec::one();
        proof {
            crate::decimal::lemma_pow10_pos(staleness_fraction@.1);
            crate::decimal::lemma_pow10_pos(0);
        }
        if staleness_fraction.is_negative() || !dec_lt(&staleness_fraction, &one) {
            return Err(invalid_got("staleness_fraction must be in [0, 1)", &staleness_fraction));
        }
        proof {
            if exact_floor(quoted_output@, staleness_fraction@) {
                lemma_exact_floor(quoted_output@, staleness_fraction@);
            }
        }
        let kept = match dec_sub(&one, &staleness_fraction) {
            Some(k) => k,
            None => return Err(invalid("arithmetic overflow computing min_amount_out")),
        };
        match dec_mul(&quoted_output, &kept) {
            Some(min_amount_out) => Ok(SlippageBound { min_amount_out, staleness_fraction }),
            None => Err(invalid("arithmetic overflow computing min_amount_out")),
        }
    }
}

} // verus!
