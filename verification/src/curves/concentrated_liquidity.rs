//! Concentrated liquidity over one or more tick ranges, with piecewise
//! closed-form sizing.
//!
//! Within a tick range of liquidity `L` the pool is a constant-product pool
//! on the virtual reserves `L / sqrt(p)` and `L * sqrt(p)`; a trade that
//! exhausts the active range continues in the next lower one.
use crate::curves::cpmm::valid_fee;
use crate::decimal::{
    dec_lt, o_add, o_div, o_mul, o_sqrt, o_sub, ov, s_add, s_div, s_mul, s_sqrt, s_sub, some,
    value_lt, Dec,
};
use crate::decimal::decimal_to_string;
use crate::text::nat_text;
use crate::error::{detail_of, got, invalid, invalid_got, invalid_text, overflow, rv, then_dec, then_str, with_count, with_dec, ErrKind, SizingError};
use crate::profit::{clip_hi, conclude_clipped, conclude_exec, srv, NetProfit};
use crate::traits::{PricingCurve, SizingAlgorithm};
use crate::types::{GuaranteeTier, SizingConstraints, SizingResult};
use vstd::prelude::*;

verus! {

/// A tick range of a concentrated-liquidity pool.
#[derive(Debug, PartialEq)]
pub struct TickRange {
    /// `sqrt(price)` at the lower bound.
    pub lower_sqrt_price: Dec,
    /// `sqrt(price)` at the upper bound.
    pub upper_sqrt_price: Dec,
    /// Gross active liquidity `L` in this range.
    pub liquidity_gross: Dec,
    /// Net liquidity change when crossing this range's boundary.
    pub liquidity_net: Dec,
}

impl TickRange {
    /// A copy of `self`.
    pub fn copy(&self) -> (r: TickRange)
        ensures
            r == *self,
    {
        let r = TickRange {
            lower_sqrt_price: self.lower_sqrt_price.copy(),
            upper_sqrt_price: self.upper_sqrt_price.copy(),
            liquidity_gross: self.liquidity_gross.copy(),
            liquidity_net: self.liquidity_net.copy(),
        };
        proof {
            Dec::lemma_ext(r.lower_sqrt_price, self.lower_sqrt_price);
            Dec::lemma_ext(r.upper_sqrt_price, self.upper_sqrt_price);
            Dec::lemma_ext(r.liquidity_gross, self.liquidity_gross);
            Dec::lemma_ext(r.liquidity_net, self.liquidity_net);
        }
        r
    }
}

impl Clone for TickRange {
    fn clone(&self) -> (r: TickRange)
        ensures
            r == *self,
    {
        self.copy()
    }
}

/// A concentrated-liquidity pool over one or more tick ranges.
#[derive(Debug)]
pub struct ConcentratedLiquidity {
    /// Active liquidity `L` at the current price.
    pub liquidity: Dec,
    /// `sqrt(price)` at the overall lower bound.
    pub sqrt_price_lower: Dec,
    /// `sqrt(price)` at the overall upper bound.
    pub sqrt_price_upper: Dec,
    /// `sqrt(price)` now.
    pub sqrt_price_current: Dec,
    /// Fee retention, e.g. `0.997`.
    pub fee_retention: Dec,
    /// The tick ranges, in ascending order of lower bound.
    pub tick_ranges: Vec<TickRange>,
}

/// Copies a vector of tick ranges.
pub fn copy_ticks(v: &Vec<TickRange>) -> (r: Vec<TickRange>)
    ensures
        r@ == v@,
{
    let mut r: Vec<TickRange> = Vec::new();
    let mut i: usize = 0;
    while i < v.len()
        invariant
            i <= v@.len(),
            r@ == v@.subrange(0, i as int),
        decreases v@.len() - i,
    {
        r.push(v[i].copy());
        assert(r@ =~= v@.subrange(0, i + 1));
        i = i + 1;
    }
    assert(r@ =~= v@);
    r
}

impl Clone for ConcentratedLiquidity {
    fn clone(&self) -> (r: ConcentratedLiquidity)
        ensures
            r.liquidity@ == self.liquidity@ && r.sqrt_price_lower@ == self.sqrt_price_lower@
                && r.sqrt_price_upper@ == self.sqrt_price_upper@ && r.sqrt_price_current@
                == self.sqrt_price_current@ && r.fee_retention@ == self.fee_retention@
                && r.tick_ranges@ == self.tick_ranges@,
    {
        ConcentratedLiquidity {
            liquidity: self.liquidity.copy(),
            sqrt_price_lower: self.sqrt_price_lower.copy(),
            sqrt_price_upper: self.sqrt_price_upper.copy(),
            sqrt_price_current: self.sqrt_price_current.copy(),
            fee_retention: self.fee_retention.copy(),
            tick_ranges: copy_ticks(&self.tick_ranges),
        }
    }
}

/// `sqrt_p` lies in `[t.lower, t.upper]`.
pub open spec fn contains_price(t: TickRange, sqrt_p: (int, int)) -> bool {
    !value_lt(sqrt_p, t.lower_sqrt_price@) && !value_lt(t.upper_sqrt_price@, sqrt_p)
}

/// The last index (below `n`) whose range contains `sqrt_p`, if any.
pub open spec fn rposition(s: Seq<TickRange>, sqrt_p: (int, int), n: nat) -> Option<nat>
    decreases n,
{
    if n == 0 {
        None
    } else if contains_price(s[n - 1], sqrt_p) {
        Some((n - 1) as nat)
    } else {
        rposition(s, sqrt_p, (n - 1) as nat)
    }
}

/// Inserts `e` into `s` after every element whose lower bound is not above
/// `e`'s (one step of a stable sort by lower bound).
pub open spec fn insert_sorted(s: Seq<TickRange>, e: TickRange) -> Seq<TickRange>
    decreases s.len(),
{
    if s.len() == 0 {
        seq![e]
    } else if value_lt(e.lower_sqrt_price@, s.last().lower_sqrt_price@) {
        insert_sorted(s.drop_last(), e).push(s.last())
    } else {
        s.push(e)
    }
}

/// The stable sort of `s` by lower bound (what `sort_by_key` computes).
pub open spec fn sort_by_lower(s: Seq<TickRange>) -> Seq<TickRange>
    decreases s.len(),
{
    if s.len() == 0 {
        s
    } else {
        insert_sorted(sort_by_lower(s.drop_last()), s.last())
    }
}

/// A tick range is well-formed: positive lower bound, upper above lower,
/// positive gross liquidity.
pub open spec fn range_ok(t: TickRange) -> bool {
    t.lower_sqrt_price@.0 > 0 && value_lt(t.lower_sqrt_price@, t.upper_sqrt_price@)
        && t.liquidity_gross@.0 > 0
}

/// The detail reported for the malformed range `t` at index `i` of the
/// sorted ranges: its first failing check.
pub open spec fn range_detail(t: TickRange, i: int) -> Seq<char> {
    if t.lower_sqrt_price@.0 <= 0 {
        "tick range "@ + nat_text(i as nat) + " lower_sqrt_price must be > 0, got "@
            + decimal_to_string(t.lower_sqrt_price@)
    } else if !value_lt(t.lower_sqrt_price@, t.upper_sqrt_price@) {
        "tick range "@ + nat_text(i as nat) + " upper_sqrt_price ("@ + decimal_to_string(
            t.upper_sqrt_price@,
        ) + ") must be > lower_sqrt_price ("@ + decimal_to_string(t.lower_sqrt_price@) + ")"@
    } else {
        "tick range "@ + nat_text(i as nat) + " liquidity_gross must be > 0, got "@
            + decimal_to_string(t.liquidity_gross@)
    }
}

/// The detail `ConcentratedLiquidity::new` reports: that of its first
/// failing check.
pub open spec fn new_detail(
    liquidity: (int, int),
    lower: (int, int),
    upper: (int, int),
    current: (int, int),
    fee_retention: (int, int),
) -> Seq<char> {
    if liquidity.0 <= 0 {
        got("liquidity must be > 0"@, liquidity)
    } else if lower.0 <= 0 {
        got("sqrt_price_lower must be > 0"@, lower)
    } else if !value_lt(lower, upper) {
        "sqrt_price_upper ("@ + decimal_to_string(upper) + ") must be > sqrt_price_lower ("@
            + decimal_to_string(lower) + ")"@
    } else if value_lt(current, lower) || value_lt(upper, current) {
        "sqrt_price_current ("@ + decimal_to_string(current) + ") is outside ["@
            + decimal_to_string(lower) + ", "@ + decimal_to_string(upper) + "]"@
    } else {
        got("fee_retention must be in (0, 1]"@, fee_retention)
    }
}

/// Where the range at `i` is the first malformed one, the reported detail
/// is that range's.
proof fn lemma_first_bad_range(s: Seq<TickRange>, i: int)
    requires
        0 <= i < s.len(),
        !range_ok(s[i]),
        forall|k: int| 0 <= k < i ==> #[trigger] range_ok(s[k]),
    ensures
        ({
            let j = choose|j: int|
                0 <= j < s.len() && !#[trigger] range_ok(s[j]) && forall|k: int|
                    0 <= k < j ==> #[trigger] range_ok(s[k]);
            j == i
        }),
{
    let j = choose|j: int|
        0 <= j < s.len() && !#[trigger] range_ok(s[j]) && forall|k: int|
            0 <= k < j ==> #[trigger] range_ok(s[k]);
    assert(0 <= j < s.len() && !range_ok(s[j]) && forall|k: int| 0 <= k < j ==> #[trigger] range_ok(s[k]));
    if j < i {
        assert(range_ok(s[j]));
    } else if i < j {
        assert(range_ok(s[i]));
    }
}

/// The detail `new_multi_tick` reports for the sorted ranges `s`: that of
/// its first failing check, the ranges taken in sorted order.
pub open spec fn multi_tick_detail(s: Seq<TickRange>, current: (int, int), fee_retention: (int, int)) -> Seq<char> {
    if s.len() == 0 {
        "tick_ranges must not be empty"@
    } else if !valid_fee(fee_retention) {
        got("fee_retention must be in (0, 1]"@, fee_retention)
    } else if exists|j: int| 0 <= j < s.len() && !#[trigger] range_ok(s[j]) {
        let j = choose|j: int|
            0 <= j < s.len() && !#[trigger] range_ok(s[j]) && forall|k: int|
                0 <= k < j ==> #[trigger] range_ok(s[k]);
        range_detail(s[j], j)
    } else if value_lt(current, s[0].lower_sqrt_price@) || value_lt(
        s.last().upper_sqrt_price@,
        current,
    ) {
        "sqrt_price_current ("@ + decimal_to_string(current) + ") is outside overall bounds ["@
            + decimal_to_string(s[0].lower_sqrt_price@) + ", "@ + decimal_to_string(
            s.last().upper_sqrt_price@,
        ) + "]"@
    } else {
        "current sqrt price "@ + decimal_to_string(current) + " does not fall within any tick range"@
    }
}

/// Inserting at index `j`, found by scanning back over strictly larger keys,
/// is `insert_sorted`.
proof fn lemma_insert_at(s: Seq<TickRange>, e: TickRange, j: int)
    requires
        0 <= j <= s.len(),
        forall|t: int| j <= t < s.len() ==> value_lt(e.lower_sqrt_price@, #[trigger] s[t].lower_sqrt_price@),
        j > 0 ==> !value_lt(e.lower_sqrt_price@, s[j - 1].lower_sqrt_price@),
    ensures
        insert_sorted(s, e) == s.insert(j, e),
    decreases s.len(),
{
    if s.len() == 0 {
        assert(s.insert(j, e) =~= seq![e]);
    } else if j == s.len() {
        assert(s.insert(j, e) =~= s.push(e));
    } else {
        assert(value_lt(e.lower_sqrt_price@, s[s.len() - 1].lower_sqrt_price@));
        lemma_insert_at(s.drop_last(), e, j);
        assert(s.insert(j, e) =~= s.drop_last().insert(j, e).push(s.last()));
    }
}

/// Stable insertion sort of `v` by lower bound.
fn sort_ticks(v: Vec<TickRange>) -> (r: Vec<TickRange>)
    ensures
        r@ == sort_by_lower(v@),
{
    let mut input = v;
    let ghost orig = input@;
    let mut out: Vec<TickRange> = Vec::new();
    let mut i: usize = 0;
    let n = input.len();
    while i < n
        invariant
            n == orig.len(),
            i <= n,
            input@ == orig.subrange(i as int, n as int),
            out@ == sort_by_lower(orig.subrange(0, i as int)),
        decreases n - i,
    {
        let e = input.remove(0);
        assert(e == orig[i as int]);
        let mut j = out.len();
        while j > 0 && dec_lt(&e.lower_sqrt_price, &out[j - 1].lower_sqrt_price)
            invariant
                j <= out@.len(),
                forall|t: int| j <= t < out@.len() ==> value_lt(
                    e.lower_sqrt_price@,
                    #[trigger] out@[t].lower_sqrt_price@,
                ),
            decreases j,
        {
            j = j - 1;
        }
        proof {
            lemma_insert_at(out@, e, j as int);
            assert(orig.subrange(0, i + 1).drop_last() =~= orig.subrange(0, i as int));
            assert(orig.subrange(0, i + 1).last() == e);
        }
        out.insert(j, e);
        i = i + 1;
        proof {
            assert(input@ =~= orig.subrange(i as int, n as int));
        }
    }
    assert(orig.subrange(0, n as int) =~= orig);
    out
}

/// The last index whose range contains `sqrt_p`.
fn rposition_exec(s: &Vec<TickRange>, sqrt_p: &Dec) -> (r: Option<usize>)
    ensures
        match r {
            Some(k) => rposition(s@, sqrt_p@, s@.len()) == Some(k as nat) && k < s@.len(),
            None => rposition(s@, sqrt_p@, s@.len()) is None,
        },
{
    let mut k = s.len();
    while k > 0
        invariant
            k <= s@.len(),
            rposition(s@, sqrt_p@, s@.len()) == rposition(s@, sqrt_p@, k as nat),
        decreases k,
    {
        let t = &s[k - 1];
        if !dec_lt(sqrt_p, &t.lower_sqrt_price) && !dec_lt(&t.upper_sqrt_price, sqrt_p) {
            return Some(k - 1);
        }
        k = k - 1;
    }
    None
}

impl ConcentratedLiquidity {
    /// The walk of `quote` down the tick ranges from range `k` at price
    /// `cur`, with `rem` input left and `total` output so far.
    pub open spec fn walk_spec(&self, k: nat, cur: (int, int), rem: (int, int), total: (int, int)) -> Result<
        (int, int),
        ErrKind,
    >
        decreases k + (if rem.0 > 0 {
            1int
        } else {
            0int
        }),
    {
        if rem.0 <= 0 {
            if total.0 < 0 {
                Err(ErrKind::InvalidReserves)
            } else {
                Ok(total)
            }
        } else if k >= self.tick_ranges@.len() {
            Err(ErrKind::InvalidReserves)
        } else {
            let range = self.tick_ranges@[k as int];
            let l = range.liquidity_gross@;
            let lower = range.lower_sqrt_price@;
            let f = self.fee_retention@;
            match s_div(s_sub(s_div(Some(l), Some(lower)), s_div(Some(l), Some(cur))), Some(f)) {
                None => Err(ErrKind::InvalidReserves),
                Some(max_in) => if !value_lt(max_in, rem) {
                    let next_p = s_div(
                        Some(l),
                        s_add(s_div(Some(l), Some(cur)), s_mul(Some(f), Some(rem))),
                    );
                    match s_add(Some(total), s_mul(Some(l), s_sub(Some(cur), next_p))) {
                        None => Err(ErrKind::InvalidReserves),
                        Some(t2) => self.walk_spec(k, cur, (0, 0), t2),
                    }
                } else {
                    match (
                        s_add(Some(total), s_mul(Some(l), s_sub(Some(cur), Some(lower)))),
                        s_sub(Some(rem), Some(max_in)),
                    ) {
                        (Some(t2), Some(r2)) => if k == 0 {
                            if r2.0 > 0 {
                                Err(ErrKind::InvalidReserves)
                            } else {
                                self.walk_spec(0, lower, r2, t2)
                            }
                        } else {
                            self.walk_spec((k - 1) as nat, lower, r2, t2)
                        },
                        _ => Err(ErrKind::InvalidReserves),
                    }
                },
            }
        }
    }

    /// What `quote` computes.
    pub open spec fn quote_spec(&self, d: (int, int)) -> Result<(int, int), ErrKind> {
        if d.0 < 0 {
            Err(ErrKind::InvalidReserves)
        } else if d.0 == 0 {
            Ok((0, 0))
        } else {
            match rposition(
                self.tick_ranges@,
                self.sqrt_price_current@,
                self.tick_ranges@.len(),
            ) {
                None => Err(ErrKind::InvalidReserves),
                Some(k) => self.walk_spec(k, self.sqrt_price_current@, d, (0, 0)),
            }
        }
    }

    /// The piecewise closed-form search from range `k` at price `cur`, with
    /// `cum` input already consumed by the ranges above.
    pub open spec fn search_spec(&self, p: (int, int), k: nat, cur: (int, int), cum: (int, int)) -> Result<
        (int, int),
        ErrKind,
    >
        decreases k,
    {
        if k >= self.tick_ranges@.len() {
            Err(ErrKind::InvalidReserves)
        } else {
            let range = self.tick_ranges@[k as int];
            let l = range.liquidity_gross@;
            let lower = range.lower_sqrt_price@;
            let f = self.fee_retention@;
            let vx = s_div(Some(l), Some(cur));
            let vy = s_mul(Some(l), Some(cur));
            match s_div(s_mul(Some(f), vy), vx) {
                None => Err(ErrKind::InvalidReserves),
                Some(m) => if !value_lt(p, m) {
                    Ok(cum)
                } else {
                    match (
                        s_div(s_sub(s_sqrt(s_div(s_mul(s_mul(vx, vy), Some(f)), Some(p))), vx), Some(f)),
                        s_div(s_sub(s_div(Some(l), Some(lower)), vx), Some(f)),
                    ) {
                        (Some(u), Some(max_in)) => if !value_lt(max_in, u) {
                            let uz = if value_lt(u, (0, 0)) {
                                (0, 0)
                            } else {
                                u
                            };
                            match s_add(Some(cum), Some(uz)) {
                                Some(c) => Ok(c),
                                None => Err(ErrKind::InvalidReserves),
                            }
                        } else {
                            match s_add(Some(cum), Some(max_in)) {
                                None => Err(ErrKind::InvalidReserves),
                                Some(c2) => if k == 0 {
                                    Ok(c2)
                                } else {
                                    self.search_spec(p, (k - 1) as nat, lower, c2)
                                },
                            }
                        },
                        _ => Err(ErrKind::InvalidReserves),
                    }
                },
            }
        }
    }

    /// What `optimal_size` computes.
    pub open spec fn optimal_size_spec(
        &self,
        p: (int, int),
        fixed: (int, int),
        max_size: Option<(int, int)>,
    ) -> Result<((int, int), (int, int)), ErrKind> {
        let spc = self.sqrt_price_current@;
        if p.0 <= 0 {
            Err(ErrKind::InvalidReserves)
        } else {
            match s_mul(s_mul(Some(self.fee_retention@), Some(spc)), Some(spc)) {
                None => Err(ErrKind::InvalidReserves),
                Some(m0) => if !value_lt(p, m0) {
                    Err(ErrKind::NoArbitrageOpportunity)
                } else {
                    match rposition(self.tick_ranges@, spc, self.tick_ranges@.len()) {
                        None => Err(ErrKind::InvalidReserves),
                        Some(k) => match self.search_spec(p, k, spc, (0, 0)) {
                            Err(e) => Err(e),
                            Ok(u) => conclude_clipped(
                                u,
                                max_size,
                                self.quote_spec(clip_hi(u, max_size)),
                                p,
                                fixed,
                            ),
                        },
                    }
                },
            }
        }
    }

    /// A single-tick position. Returns `InvalidReserves` unless
    /// `liquidity > 0`, `0 < sqrt_price_lower < sqrt_price_upper`, the
    /// current price lies in `[lower, upper]`, and `fee_retention` is in
    /// `(0, 1]`.
    pub fn new(
        liquidity: Dec,
        sqrt_price_lower: Dec,
        sqrt_price_upper: Dec,
        sqrt_price_current: Dec,
        fee_retention: Dec,
    ) -> (r: Result<ConcentratedLiquidity, SizingError>)
        ensures
            r is Ok <==> liquidity@.0 > 0 && sqrt_price_lower@.0 > 0 && value_lt(
                sqrt_price_lower@,
                sqrt_price_upper@,
            ) && !value_lt(sqrt_price_current@, sqrt_price_lower@) && !value_lt(
                sqrt_price_upper@,
                sqrt_price_current@,
            ) && valid_fee(fee_retention@),
            r matches Ok(pool) ==> pool.liquidity@ == liquidity@ && pool.sqrt_price_lower@
                == sqrt_price_lower@ && pool.sqrt_price_upper@ == sqrt_price_upper@
                && pool.sqrt_price_current@ == sqrt_price_current@ && pool.fee_retention@
                == fee_retention@ && pool.tick_ranges@.len() == 1
                && pool.tick_ranges@[0].lower_sqrt_price@ == sqrt_price_lower@
                && pool.tick_ranges@[0].upper_sqrt_price@ == sqrt_price_upper@
                && pool.tick_ranges@[0].liquidity_gross@ == liquidity@
                && pool.tick_ranges@[0].liquidity_net@ == (0int, 0int),
            r matches Err(e) ==> e@ == ErrKind::InvalidReserves && detail_of(e) == new_detail(
                liquidity@,
                sqrt_price_lower@,
                sqrt_price_upper@,
                sqrt_price_current@,
                fee_retention@,
            ),
    {
        if !liquidity.is_positive() {
            return Err(invalid_got("liquidity must be > 0", &liquidity));
        }
        if !sqrt_price_lower.is_positive() {
            return Err(invalid_got("sqrt_price_lower must be > 0", &sqrt_price_lower));
        }
        if !dec_lt(&sqrt_price_lower, &sqrt_price_upper) {
            return Err(
                invalid_text(
                    then_str(
                        then_dec(
                            then_str(with_dec("sqrt_price_upper (", &sqrt_price_upper), ") must be > sqrt_price_lower ("),
                            &sqrt_price_lower,
                        ),
                        ")",
                    ),
                ),
            );
        }
        if dec_lt(&sqrt_price_current, &sqrt_price_lower) || dec_lt(
            &sqrt_price_upper,
            &sqrt_price_current,
        ) {
            return Err(
                invalid_text(
                    then_str(
                        then_dec(
                            then_str(
                                then_dec(
                                    then_str(with_dec("sqrt_price_current (", &sqrt_price_current), ") is outside ["),
                                    &sqrt_price_lower,
                                ),
                                ", ",
                            ),
                            &sqrt_price_upper,
                        ),
                        "]",
                    ),
                ),
            );
        }
        if !fee_retention.is_positive() || dec_lt(&Dec::one(), &fee_retention) {
            return Err(invalid_got("fee_retention must be in (0, 1]", &fee_retention));
        }
        let mut tick_ranges: Vec<TickRange> = Vec::new();
        tick_ranges.push(
            TickRange {
                lower_sqrt_price: sqrt_price_lower.copy(),
                upper_sqrt_price: sqrt_price_upper.copy(),
                liquidity_gross: liquidity.copy(),
                liquidity_net: Dec::zero(),
            },
        );
        Ok(
            ConcentratedLiquidity {
                liquidity,
                sqrt_price_lower,
                sqrt_price_upper,
                sqrt_price_current,
                fee_retention,
                tick_ranges,
            },
        )
    }

    /// A multi-tick pool: the ranges are stably sorted by lower bound; the
    /// overall bounds are the first range's lower and the last range's
    /// upper; the active liquidity is that of the last range containing the
    /// current price. Returns `InvalidReserves` if there are no ranges, the
    /// fee retention is not in `(0, 1]`, a range is malformed, or the current
    /// price lies outside the overall bounds or in no range.
    pub fn new_multi_tick(tick_ranges: Vec<TickRange>, sqrt_price_current: Dec, fee_retention: Dec) -> (r: Result<ConcentratedLiquidity, SizingError>)
        ensures
            ({
                let s = sort_by_lower(tick_ranges@);
                &&& r is Ok <==> s.len() > 0 && valid_fee(fee_retention@) && (forall|i: int|
                    0 <= i < s.len() ==> #[trigger] range_ok(s[i])) && !value_lt(
                    sqrt_price_current@,
                    s[0].lower_sqrt_price@,
                ) && !value_lt(s.last().upper_sqrt_price@, sqrt_price_current@) && rposition(
                    s,
                    sqrt_price_current@,
                    s.len(),
                ) is Some
                &&& r matches Ok(pool) ==> pool.tick_ranges@ == s && pool.sqrt_price_lower@
                    == s[0].lower_sqrt_price@ && pool.sqrt_price_upper@ == s.last().upper_sqrt_price@
                    && pool.sqrt_price_current@ == sqrt_price_current@ && pool.fee_retention@
                    == fee_retention@ && pool.liquidity@ == s[rposition(
                    s,
                    sqrt_price_current@,
                    s.len(),
                )->0 as int].liquidity_gross@
                &&& r matches Err(e) ==> e@ == ErrKind::InvalidReserves && detail_of(e)
                    == multi_tick_detail(s, sqrt_price_current@, fee_retention@)
            }),
    {
        let ghost s0 = sort_by_lower(tick_ranges@);
        let empty = tick_ranges.len() == 0;
        let sorted = sort_ticks(tick_ranges);
        proof {
            lemma_sort_len(tick_ranges@);
        }
        if empty {
            return Err(invalid("tick_ranges must not be empty"));
        }
        if !fee_retention.is_positive() || dec_lt(&Dec::one(), &fee_retention) {
            return Err(invalid_got("fee_retention must be in (0, 1]", &fee_retention));
        }
        let mut i: usize = 0;
        while i < sorted.len()
            invariant
                sorted@ == s0,
                s0 == sort_by_lower(tick_ranges@),
                i <= s0.len(),
                s0.len() > 0,
                valid_fee(fee_retention@),
                forall|j: int| 0 <= j < i ==> #[trigger] range_ok(s0[j]),
            decreases s0.len() - i,
        {
            let range = &sorted[i];
            if !range.lower_sqrt_price.is_positive() {
                proof {
                    lemma_first_bad_range(s0, i as int);
                }
                return Err(
                    invalid_text(
                        then_dec(
                            then_str(with_count("tick range ", i), " lower_sqrt_price must be > 0, got "),
                            &range.lower_sqrt_price,
                        ),
                    ),
                );
            }
            if !dec_lt(&range.lower_sqrt_price, &range.upper_sqrt_price) {
                proof {
                    lemma_first_bad_range(s0, i as int);
                }
                return Err(
                    invalid_text(
                        then_str(
                            then_dec(
                                then_str(
                                    then_dec(
                                        then_str(with_count("tick range ", i), " upper_sqrt_price ("),
                                        &range.upper_sqrt_price,
                                    ),
                                    ") must be > lower_sqrt_price (",
                                ),
                                &range.lower_sqrt_price,
                            ),
                            ")",
                        ),
                    ),
                );
            }
            if !range.liquidity_gross.is_positive() {
                proof {
                    lemma_first_bad_range(s0, i as int);
                }
                return Err(
                    invalid_text(
                        then_dec(
                            then_str(with_count("tick range ", i), " liquidity_gross must be > 0, got "),
                            &range.liquidity_gross,
                        ),
                    ),
                );
            }
            i = i + 1;
        }
        let overall_lower = sorted[0].lower_sqrt_price.copy();
        let overall_upper = sorted[sorted.len() - 1].upper_sqrt_price.copy();
        if dec_lt(&sqrt_price_current, &overall_lower) || dec_lt(&overall_upper, &sqrt_price_current) {
            return Err(
                invalid_text(
                    then_str(
                        then_dec(
                            then_str(
                                then_dec(
                                    then_str(with_dec("sqrt_price_current (", &sqrt_price_current), ") is outside overall bounds ["),
                                    &overall_lower,
                                ),
                                ", ",
                            ),
                            &overall_upper,
                        ),
                        "]",
                    ),
                ),
            );
        }
        let active_idx = match rposition_exec(&sorted, &sqrt_price_current) {
            Some(k) => k,
            None => return Err(
                invalid_text(
                    then_str(
                        with_dec("current sqrt price ", &sqrt_price_current),
                        " does not fall within any tick range",
                    ),
                ),
            ),
        };
        let current_liquidity = sorted[active_idx].liquidity_gross.copy();
        Ok(
            ConcentratedLiquidity {
                liquidity: current_liquidity,
                sqrt_price_lower: overall_lower,
                sqrt_price_upper: overall_upper,
                sqrt_price_current,
                fee_retention,
                tick_ranges: sorted,
            },
        )
    }

    /// The virtual reserves `(L / sqrt(p), L * sqrt(p))` at the current price;
    /// `None` if a step overflows or divides by zero.
    pub fn virtual_reserves(&self) -> (r: Option<(Dec, Dec)>)
        ensures
            match r {
                Some((x, y)) => s_div(Some(self.liquidity@), Some(self.sqrt_price_current@)) == Some(
                    x@,
                ) && s_mul(Some(self.liquidity@), Some(self.sqrt_price_current@)) == Some(y@),
                None => s_div(Some(self.liquidity@), Some(self.sqrt_price_current@)) is None
                    || s_mul(Some(self.liquidity@), Some(self.sqrt_price_current@)) is None,
            },
    {
        let virtual_x = o_div(some(&self.liquidity), some(&self.sqrt_price_current));
        let virtual_y = o_mul(some(&self.liquidity), some(&self.sqrt_price_current));
        match (virtual_x, virtual_y) {
            (Some(x), Some(y)) => Some((x, y)),
            _ => None,
        }
    }
}

impl ConcentratedLiquidity {
    /// The piecewise closed-form search of `optimal_size` from range `k` at
    /// price `cur` with `cum` input consumed so far.
    fn search(&self, p: &Dec, k: usize, cur: Dec, cum: Dec) -> (r: Result<Dec, SizingError>)
        requires
            k < self.tick_ranges@.len(),
        ensures
            rv(r) == self.search_spec(p@, k as nat, cur@, cum@),
        decreases k,
    {
        let range = &self.tick_ranges[k];
        let l = &range.liquidity_gross;
        let lower = &range.lower_sqrt_price;
        let f = &self.fee_retention;
        let (vx, vy) = match (o_div(some(l), some(&cur)), o_mul(some(l), some(&cur))) {
            (Some(a), Some(b)) => (a, b),
            _ => return Err(overflow()),
        };
        let marginal = match o_div(o_mul(some(f), some(&vy)), some(&vx)) {
            Some(m) => m,
            None => return Err(overflow()),
        };
        if !dec_lt(p, &marginal) {
            return Ok(cum);
        }
        let radicand = o_div(o_mul(o_mul(some(&vx), some(&vy)), some(f)), some(p));
        let unconstrained = o_div(o_sub(o_sqrt(radicand), some(&vx)), some(f));
        let max_in = o_div(o_sub(o_div(some(l), some(lower)), some(&vx)), some(f));
        match (unconstrained, max_in) {
            (Some(u), Some(max_in)) => {
                if !dec_lt(&max_in, &u) {
                    let uz = u.max(&Dec::zero());
                    match o_add(some(&cum), Some(uz)) {
                        Some(c) => Ok(c),
                        None => Err(overflow()),
                    }
                } else {
                    let c2 = match o_add(some(&cum), Some(max_in)) {
                        Some(c) => c,
                        None => return Err(overflow()),
                    };
                    if k == 0 {
                        Ok(c2)
                    } else {
                        self.search(p, k - 1, lower.copy(), c2)
                    }
                }
            },
            _ => Err(invalid("failed to compute the in-range optimum")),
        }
    }
}

impl PricingCurve for ConcentratedLiquidity {
    /// Walks down the tick ranges from the active one, filling each range
    /// before crossing into the next lower one; `InvalidReserves` for a
    /// negative size, an input beyond the capacity of every range, a current
    /// price in no range, or a negative output.
    fn quote(&self, delta_in: Dec) -> (r: Result<Dec, SizingError>)
        ensures
            rv(r) == self.quote_spec(delta_in@),
            delta_in@.0 < 0 ==> (r matches Err(e) && detail_of(e) == got(
                "delta_in must be >= 0"@,
                delta_in@,
            )),
    {
        if delta_in.is_negative() {
            return Err(invalid_got("delta_in must be >= 0", &delta_in));
        }
        if delta_in.is_zero() {
            return Ok(Dec::zero());
        }
        let mut k = match rposition_exec(&self.tick_ranges, &self.sqrt_price_current) {
            Some(k) => k,
            None => return Err(invalid("current price not found in tick ranges")),
        };
        let mut remaining = delta_in.copy();
        let mut current_p = self.sqrt_price_current.copy();
        let mut total = Dec::zero();
        while remaining.is_positive()
            invariant
                delta_in@.0 > 0,
                k < self.tick_ranges@.len(),
                self.walk_spec(k as nat, current_p@, remaining@, total@) == self.quote_spec(
                    delta_in@,
                ),
            decreases k + (if remaining@.0 > 0 {
                1int
            } else {
                0int
            }),
        {
            let range = &self.tick_ranges[k];
            let l = &range.liquidity_gross;
            let lower = &range.lower_sqrt_price;
            let f = &self.fee_retention;
            let max_in = match o_div(
                o_sub(o_div(some(l), some(lower)), o_div(some(l), some(&current_p))),
                some(f),
            ) {
                Some(m) => m,
                None => return Err(overflow()),
            };
            if !dec_lt(&max_in, &remaining) {
                let next_p = o_div(
                    some(l),
                    o_add(o_div(some(l), some(&current_p)), o_mul(some(f), some(&remaining))),
                );
                total = match o_add(some(&total), o_mul(some(l), o_sub(some(&current_p), next_p))) {
                    Some(t) => t,
                    None => return Err(overflow()),
                };
                remaining = Dec::zero();
            } else {
                let t2 = o_add(some(&total), o_mul(some(l), o_sub(some(&current_p), some(lower))));
                let r2 = o_sub(some(&remaining), some(&max_in));
                match (t2, r2) {
                    (Some(a), Some(b)) => {
                        total = a;
                        remaining = b;
                    },
                    _ => return Err(overflow()),
                }
                current_p = lower.copy();
                if k == 0 {
                    if remaining.is_positive() {
                        return Err(
                            invalid("trade exceeds total liquidity capacity across all tick ranges"),
                        );
                    }
                } else {
                    k = k - 1;
                }
            }
        }
        if total.is_negative() {
            return Err(invalid("computed negative output"));
        }
        Ok(total)
    }
}

impl SizingAlgorithm for ConcentratedLiquidity {
    /// The piecewise closed-form optimum: within each range the
    /// constant-product optimum on its virtual reserves, crossing into the
    /// next lower range while the optimum lies beyond the current one;
    /// `NoArbitrageOpportunity` unless the pool's initial marginal price
    /// `f * sqrt_p^2` exceeds `P`.
    fn optimal_size(&self, reference_price: Dec, constraints: SizingConstraints) -> (r: Result<
        SizingResult,
        SizingError,
    >)
        ensures
            srv(r) == self.optimal_size_spec(
                reference_price@,
                constraints.fixed_cost@,
                ov(constraints.max_size),
            ),
            r matches Ok(res) ==> res.guarantee_tier == GuaranteeTier::ProvenOptimal
                && res.iterations is None,
            reference_price@.0 <= 0 ==> (r matches Err(e) && e@ == ErrKind::InvalidReserves
                && detail_of(e) == got("reference_price must be > 0"@, reference_price@)),
    {
        if !reference_price.is_positive() {
            return Err(invalid_got("reference_price must be > 0", &reference_price));
        }
        let spc = &self.sqrt_price_current;
        let initial_marginal = match o_mul(o_mul(some(&self.fee_retention), some(spc)), some(spc)) {
            Some(m) => m,
            None => return Err(overflow()),
        };
        if !dec_lt(&reference_price, &initial_marginal) {
            return Err(SizingError::NoArbitrageOpportunity);
        }
        let k = match rposition_exec(&self.tick_ranges, spc) {
            Some(k) => k,
            None => return Err(invalid("current price not found in tick ranges")),
        };
        let chosen = match self.search(&reference_price, k, spc.copy(), Dec::zero()) {
            Ok(c) => c,
            Err(e) => return Err(e),
        };
        let (_, optimal_delta) = match NetProfit::restrict_domain(
            &constraints,
            (Dec::zero(), chosen),
        ) {
            Ok(dd) => dd,
            Err(e) => return Err(e),
        };
        proof {
            crate::profit::lemma_above_zero(optimal_delta@);
        }
        let quoted = self.quote(optimal_delta.copy());
        conclude_exec(
            optimal_delta,
            quoted,
            &reference_price,
            &constraints.fixed_cost,
            GuaranteeTier::ProvenOptimal,
            None,
        )
    }
}

/// Sorting keeps the length.
proof fn lemma_sort_len(s: Seq<TickRange>)
    ensures
        sort_by_lower(s).len() == s.len(),
    decreases s.len(),
{
    if s.len() > 0 {
        lemma_sort_len(s.drop_last());
        lemma_insert_len(sort_by_lower(s.drop_last()), s.last());
    }
}

/// Inserting adds one element.
proof fn lemma_insert_len(s: Seq<TickRange>, e: TickRange)
    ensures
        insert_sorted(s, e).len() == s.len() + 1,
    decreases s.len(),
{
    if s.len() > 0 {
        lemma_insert_len(s.drop_last(), e);
    }
}

} // verus!
