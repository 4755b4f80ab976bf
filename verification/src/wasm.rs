//! The JavaScript-facing entry points: every number arrives as decimal text,
//! and every outcome, success or failure, leaves as one flat record of text.
use crate::curves::balancer_weighted::{all_positive, weights_sum_to_one};
use crate::curves::cpmm::valid_fee;
use crate::curves::{BalancerWeightedPool, ConcentratedLiquidity, Cpmm, Pmm, StableSwap};
use crate::decimal::{decimal_from_str, decimal_parse_error, decimal_to_string, value_lt, Dec};
use crate::error::{wasm_error_spec, wasm_error_text, ErrKind, SizingError};
use crate::profit::srv;
use crate::traits::SizingAlgorithm;
use crate::types::{GuaranteeTier, SizingConstraints, SizingResult};
use vstd::prelude::*;

verus! {

/// The outcome of a sizing call, as text.
pub struct WasmSizingResult {
    /// `true` if a profitable size was found.
    pub ok: bool,
    /// The profit-maximizing trade size; empty unless `ok`.
    pub optimal_delta: String,
    /// Net expected profit at `optimal_delta`; empty unless `ok`.
    pub expected_profit: String,
    /// Short tag naming the guarantee tier; empty unless `ok`.
    pub guarantee_tier: String,
    /// Iteration count of an iterative method.
    pub iterations: Option<u32>,
    /// What went wrong; empty if `ok`.
    pub error: String,
}

impl WasmSizingResult {
    /// `true` if a profitable size was found.
    pub fn ok(&self) -> (r: bool)
        ensures
            r == self.ok,
    {
        self.ok
    }

    /// The profit-maximizing trade size, as decimal text; empty unless `ok`.
    pub fn optimal_delta(&self) -> (r: String)
        ensures
            r@ == self.optimal_delta@,
    {
        self.optimal_delta.clone()
    }

    /// Net expected profit at `optimal_delta`, as decimal text; empty unless
    /// `ok`.
    pub fn expected_profit(&self) -> (r: String)
        ensures
            r@ == self.expected_profit@,
    {
        self.expected_profit.clone()
    }

    /// Short tag naming the guarantee tier.
    pub fn guarantee_tier(&self) -> (r: String)
        ensures
            r@ == self.guarantee_tier@,
    {
        self.guarantee_tier.clone()
    }

    /// Iteration count for iterative methods, `-1` where none applies.
    pub fn iterations(&self) -> (r: i64)
        ensures
            r == match self.iterations {
                Some(n) => n as i64,
                None => -1i64,
            },
    {
        match self.iterations {
            Some(n) => n as i64,
            None => -1,
        }
    }

    /// What went wrong; empty if `ok`.
    pub fn error(&self) -> (r: String)
        ensures
            r@ == self.error@,
    {
        self.error.clone()
    }
}

/// The name of a tier's variant, without its fields.
pub open spec fn tier_tag_text(t: GuaranteeTier) -> Seq<char> {
    match t {
        GuaranteeTier::ProvenOptimal => "ProvenOptimal"@,
        GuaranteeTier::NumericallyGuaranteed { .. } => "NumericallyGuaranteed"@,
        GuaranteeTier::EmpiricallyValidated { .. } => "EmpiricallyValidated"@,
        GuaranteeTier::ComposedFrom(_) => "ComposedFrom"@,
    }
}

/// The name of the tier's variant.
pub fn tier_tag(tier: &GuaranteeTier) -> (r: String)
    ensures
        r@ == tier_tag_text(*tier),
{
    match tier {
        GuaranteeTier::ProvenOptimal => String::from_str("ProvenOptimal"),
        GuaranteeTier::NumericallyGuaranteed { .. } => String::from_str("NumericallyGuaranteed"),
        GuaranteeTier::EmpiricallyValidated { .. } => String::from_str("EmpiricallyValidated"),
        GuaranteeTier::ComposedFrom(_) => String::from_str("ComposedFrom"),
    }
}

/// `r` reports a failure with text `detail`, every other text empty.
pub open spec fn is_failure(r: WasmSizingResult, detail: Seq<char>) -> bool {
    &&& !r.ok
    &&& r.optimal_delta@ == Seq::<char>::empty()
    &&& r.expected_profit@ == Seq::<char>::empty()
    &&& r.guarantee_tier@ == Seq::<char>::empty()
    &&& r.iterations is None
    &&& r.error@ == detail
}

/// A failed result carrying `detail`.
pub fn err_result(detail: String) -> (r: WasmSizingResult)
    ensures
        is_failure(r, detail@),
{
    WasmSizingResult {
        ok: false,
        optimal_delta: String::new(),
        expected_profit: String::new(),
        guarantee_tier: String::new(),
        iterations: None,
        error: detail,
    }
}

/// `r` reports the sizing outcome `o`: its numbers and tier as text, or the
/// error's text.
pub open spec fn reports(r: WasmSizingResult, o: Result<SizingResult, SizingError>) -> bool {
    match o {
        Ok(res) => {
            &&& r.ok
            &&& r.optimal_delta@ == decimal_to_string(res.optimal_delta@)
            &&& r.expected_profit@ == decimal_to_string(res.expected_profit@)
            &&& r.guarantee_tier@ == tier_tag_text(res.guarantee_tier)
            &&& r.iterations == res.iterations
            &&& r.error@ == Seq::<char>::empty()
        },
        Err(e) => is_failure(r, wasm_error_spec(e)),
    }
}

/// The record of a sizing outcome.
pub fn to_wasm_result(o: Result<SizingResult, SizingError>) -> (r: WasmSizingResult)
    ensures
        reports(r, o),
{
    match o {
        Ok(res) => WasmSizingResult {
            ok: true,
            optimal_delta: res.optimal_delta.to_text(),
            expected_profit: res.expected_profit.to_text(),
            guarantee_tier: tier_tag(&res.guarantee_tier),
            iterations: res.iterations,
            error: String::new(),
        },
        Err(e) => err_result(wasm_error_text(&e)),
    }
}

/// `r` reports that a constructor refused its arguments.
pub open spec fn refused(r: WasmSizingResult) -> bool {
    exists|e: SizingError| e@ == ErrKind::InvalidReserves && is_failure(r, #[trigger] wasm_error_spec(e))
}

/// The decimal that `s` denotes, or the text reporting why field `field`
/// could not be read.
pub open spec fn field_spec(s: Seq<char>, field: Seq<char>) -> Result<(int, int), Seq<char>> {
    match decimal_from_str(s) {
        Some(v) => Ok(v),
        None => Err("invalid "@ + field + ": "@ + decimal_parse_error(s)),
    }
}

/// Reads the `(text, field)` pairs in order: their decimals, or the report
/// of the first that cannot be read.
pub open spec fn fields_spec(items: Seq<(Seq<char>, Seq<char>)>) -> Result<Seq<(int, int)>, Seq<char>>
    decreases items.len(),
{
    if items.len() == 0 {
        Ok(Seq::empty())
    } else {
        match fields_spec(items.drop_last()) {
            Err(t) => Err(t),
            Ok(vs) => match field_spec(items.last().0, items.last().1) {
                Ok(v) => Ok(vs.push(v)),
                Err(t) => Err(t),
            },
        }
    }
}

/// The views of `(text, field)` pairs.
pub open spec fn items_view(items: Seq<(&str, &str)>) -> Seq<(Seq<char>, Seq<char>)> {
    items.map_values(|p: (&str, &str)| (p.0@, p.1@))
}

/// Reads decimal text `s` for field `field`.
pub fn parse_decimal(s: &str, field: &str) -> (r: Result<Dec, String>)
    ensures
        match field_spec(s@, field@) {
            Ok(v) => r matches Ok(d) && d@ == v,
            Err(t) => r matches Err(x) && x@ == t,
        },
{
    match Dec::parse_or_error(s) {
        Ok(d) => Ok(d),
        Err(e) => {
            let mut out = String::from_str("invalid ");
            out.append(field);
            out.append(": ");
            out.append(e.as_str());
            Err(out)
        },
    }
}

/// Reads decimal text `s` for field `field`; where it fails, the report
/// also quotes the text.
pub fn parse_decimal_quoting(s: &str, field: &str) -> (r: Result<Dec, String>)
    ensures
        match decimal_from_str(s@) {
            Some(v) => r matches Ok(d) && d@ == v,
            None => r matches Err(x) && x@ == "invalid "@ + field@ + " "@ + crate::text::str_debug(s@)
                + ": "@ + decimal_parse_error(s@),
        },
{
    match Dec::parse_or_error(s) {
        Ok(d) => Ok(d),
        Err(e) => {
            let mut out = String::from_str("invalid ");
            out.append(field);
            out.append(" ");
            let q = crate::text::debug_quoted(s);
            out.append(q.as_str());
            out.append(": ");
            out.append(e.as_str());
            Err(out)
        },
    }
}

/// Reads every `(text, field)` pair in order, stopping at the first that
/// cannot be read.
pub fn parse_fields(items: &Vec<(&str, &str)>) -> (r: Result<Vec<Dec>, String>)
    ensures
        match fields_spec(items_view(items@)) {
            Ok(vs) => r matches Ok(ds) && vs.len() == items@.len() && ds@.len() == vs.len() && forall|i: int|
                0 <= i < vs.len() ==> #[trigger] ds@[i]@ == vs[i],
            Err(t) => r matches Err(x) && x@ == t,
        },
{
    let mut out: Vec<Dec> = Vec::new();
    let mut i: usize = 0;
    while i < items.len()
        invariant
            i <= items@.len(),
            fields_spec(items_view(items@).subrange(0, i as int)) matches Ok(vs) && out@.len()
                == vs.len() && forall|k: int| 0 <= k < vs.len() ==> #[trigger] out@[k]@ == vs[k],
        decreases items@.len() - i,
    {
        let ghost prev = items_view(items@).subrange(0, i as int);
        let ghost next = items_view(items@).subrange(0, i + 1);
        assert(next.drop_last() =~= prev);
        assert(next.last() == (items@[i as int].0@, items@[i as int].1@));
        let (text, field) = items[i];
        match parse_decimal(text, field) {
            Ok(d) => {
                out.push(d);
            },
            Err(t) => {
                proof {
                    lemma_fields_error_persists(items_view(items@), i as int + 1);
                }
                return Err(t);
            },
        }
        i = i + 1;
    }
    assert(items_view(items@).subrange(0, i as int) =~= items_view(items@));
    proof {
        lemma_fields_len(items_view(items@));
    }
    Ok(out)
}

/// Reading succeeds with one decimal per pair.
proof fn lemma_fields_len(items: Seq<(Seq<char>, Seq<char>)>)
    ensures
        fields_spec(items) matches Ok(vs) ==> vs.len() == items.len(),
    decreases items.len(),
{
    if items.len() > 0 {
        lemma_fields_len(items.drop_last());
    }
}

/// Once a prefix of the pairs fails to read, every longer prefix fails with
/// the same report.
proof fn lemma_fields_error_persists(items: Seq<(Seq<char>, Seq<char>)>, n: int)
    requires
        0 <= n <= items.len(),
        fields_spec(items.subrange(0, n)) is Err,
    ensures
        fields_spec(items) == fields_spec(items.subrange(0, n)),
    decreases items.len() - n,
{
    if n < items.len() {
        let longer = items.subrange(0, n + 1);
        assert(longer.drop_last() =~= items.subrange(0, n));
        lemma_fields_error_persists(items, n + 1);
    } else {
        assert(items.subrange(0, n) =~= items);
    }
}

/// The optional `max_size` pair.
pub open spec fn max_item(max_size: Option<Seq<char>>) -> Seq<(Seq<char>, Seq<char>)> {
    match max_size {
        Some(m) => seq![(m, "max_size"@)],
        None => Seq::empty(),
    }
}

/// The cap read at position `i` when one was given.
pub open spec fn cap_at(vs: Seq<(int, int)>, i: int, given: bool) -> Option<(int, int)> {
    if given {
        Some(vs[i])
    } else {
        None
    }
}

/// The view of an optional text.
pub open spec fn opt_text(s: Option<String>) -> Option<Seq<char>> {
    match s {
        Some(t) => Some(t@),
        None => None,
    }
}

/// Appends the optional `max_size` pair.
fn push_max<'a>(items: &mut Vec<(&'a str, &'a str)>, max_size: &'a Option<String>)
    ensures
        items_view(final(items)@) == items_view(old(items)@) + max_item(opt_text(*max_size)),
{
    let ghost before = items_view(items@);
    match max_size {
        Some(m) => {
            items.push((m.as_str(), "max_size"));
            assert(items_view(items@) =~= before + max_item(opt_text(*max_size)));
        },
        None => {
            assert(items_view(items@) =~= before + max_item(opt_text(*max_size)));
        },
    }
}

/// The constraints read from position `i` on: the fixed cost, then the cap
/// if one was given.
fn constraints_at(vals: &Vec<Dec>, i: usize, given: bool) -> (r: SizingConstraints)
    requires
        i < vals@.len(),
        given ==> i + 1 < vals.len(),
    ensures
        r.fixed_cost@ == vals@[i as int]@,
        crate::decimal::ov(r.max_size) == cap_at(vals@.map_values(|d: Dec| d@), i + 1, given),
{
    let cap = if given {
        let j = i + 1;
        Some(vals[j].copy())
    } else {
        None
    };
    SizingConstraints { fixed_cost: vals[i].copy(), max_size: cap }
}

// ---------------------------------------------------------------------------
// Constant product
// ---------------------------------------------------------------------------
/// The pairs read for a constant-product pool, in order.
pub open spec fn cpmm_items(
    x: Seq<char>,
    y: Seq<char>,
    fee_retention: Seq<char>,
    reference_price: Seq<char>,
    fixed_cost: Seq<char>,
    max_size: Option<Seq<char>>,
) -> Seq<(Seq<char>, Seq<char>)> {
    seq![
        (x, "x"@),
        (y, "y"@),
        (fee_retention, "fee_retention"@),
        (reference_price, "reference_price"@),
        (fixed_cost, "fixed_cost"@),
    ] + max_item(max_size)
}

/// `r` reports the sizing of a pool with the constant-product values `vs`.
pub open spec fn cpmm_sized(
    r: WasmSizingResult,
    pool: Cpmm,
    o: Result<SizingResult, SizingError>,
    vs: Seq<(int, int)>,
    given: bool,
) -> bool {
    &&& pool.x@ == vs[0] && pool.y@ == vs[1] && pool.fee_retention@ == vs[2]
    &&& srv(o) == pool.optimal_size_spec(vs[3], vs[4], cap_at(vs, 5, given))
    &&& o matches Ok(res) ==> res.guarantee_tier == GuaranteeTier::ProvenOptimal
    &&& reports(r, o)
}

/// Sizes a constant-product pool given as decimal text: the first field that
/// cannot be read is reported, then a pool the constructor refuses, then the
/// sizing's own outcome.
pub fn cpmm_optimal_size(
    x: &str,
    y: &str,
    fee_retention: &str,
    reference_price: &str,
    fixed_cost: &str,
    max_size: Option<String>,
) -> (r: WasmSizingResult)
    ensures
        match fields_spec(
            cpmm_items(x@, y@, fee_retention@, reference_price@, fixed_cost@, opt_text(max_size)),
        ) {
            Err(t) => is_failure(r, t),
            Ok(vs) => if vs[0].0 > 0 && vs[1].0 > 0 && valid_fee(vs[2]) {
                exists|pool: Cpmm, o: Result<SizingResult, SizingError>| #[trigger]
                    cpmm_sized(r, pool, o, vs, max_size is Some)
            } else {
                refused(r)
            },
        },
{
    let mut items: Vec<(&str, &str)> = Vec::new();
    items.push((x, "x"));
    items.push((y, "y"));
    items.push((fee_retention, "fee_retention"));
    items.push((reference_price, "reference_price"));
    items.push((fixed_cost, "fixed_cost"));
    push_max(&mut items, &max_size);
    assert(items_view(items@) =~= cpmm_items(
        x@,
        y@,
        fee_retention@,
        reference_price@,
        fixed_cost@,
        opt_text(max_size),
    ));
    let vals = match parse_fields(&items) {
        Ok(v) => v,
        Err(t) => return err_result(t),
    };
    let ghost vs = vals@.map_values(|d: Dec| d@);
    assert(fields_spec(items_view(items@)) == Ok::<Seq<(int, int)>, Seq<char>>(vs)) by {
        assert(fields_spec(items_view(items@)) matches Ok(ws) && ws =~= vs);
    }
    let pool = match Cpmm::new(vals[0].copy(), vals[1].copy(), vals[2].copy()) {
        Ok(p) => p,
        Err(e) => {
            let r = err_result(wasm_error_text(&e));
            assert(is_failure(r, wasm_error_spec(e)));
            return r;
        },
    };
    let constraints = constraints_at(&vals, 4, max_size.is_some());
    let o = pool.optimal_size(vals[3].copy(), constraints);
    let ghost og = o;
    let r = to_wasm_result(o);
    assert(cpmm_sized(r, pool, og, vs, max_size is Some));
    r
}

// ---------------------------------------------------------------------------
// Lists of decimals
// ---------------------------------------------------------------------------
/// The pairs reading each text of `texts` as field `field`.
pub open spec fn list_items(texts: Seq<String>, field: Seq<char>) -> Seq<(Seq<char>, Seq<char>)> {
    texts.map_values(|t: String| (t@, field))
}

/// Appends a pair for each text of `texts`, all read as field `field`.
fn push_list<'a>(items: &mut Vec<(&'a str, &'a str)>, texts: &'a Vec<String>, field: &'a str)
    ensures
        items_view(final(items)@) == items_view(old(items)@) + list_items(texts@, field@),
{
    let ghost before = items_view(items@);
    let mut i: usize = 0;
    while i < texts.len()
        invariant
            i <= texts@.len(),
            items_view(items@) == before + list_items(texts@.subrange(0, i as int), field@),
        decreases texts@.len() - i,
    {
        let ghost prev = items@;
        let t = texts[i].as_str();
        items.push((t, field));
        assert(items@ == prev.push((t, field)));
        assert(items_view(items@) =~= items_view(prev).push((texts@[i as int]@, field@)));
        assert(list_items(texts@.subrange(0, i + 1), field@) =~= list_items(
            texts@.subrange(0, i as int),
            field@,
        ).push((texts@[i as int]@, field@)));
        i = i + 1;
    }
    assert(texts@.subrange(0, i as int) =~= texts@);
}

/// The `n` decimals of `vals` from position `from` on.
fn take_range(vals: &Vec<Dec>, from: usize, n: usize) -> (r: Vec<Dec>)
    requires
        from + n <= vals.len(),
    ensures
        r@.len() == n,
        forall|k: int| 0 <= k < n ==> #[trigger] r@[k]@ == vals@[from + k]@,
{
    let mut out: Vec<Dec> = Vec::new();
    let mut k: usize = 0;
    while k < n
        invariant
            k <= n,
            from + n <= vals.len(),
            out@.len() == k,
            forall|j: int| 0 <= j < k ==> #[trigger] out@[j]@ == vals@[from + j]@,
        decreases n - k,
    {
        out.push(vals[from + k].copy());
        k = k + 1;
    }
    out
}

/// The sum of the first `n` values, added from zero.
pub open spec fn sum_views(vs: Seq<(int, int)>, n: nat) -> Option<(int, int)>
    decreases n,
{
    if n == 0 {
        Some((0, 0))
    } else {
        crate::decimal::s_add(sum_views(vs, (n - 1) as nat), Some(vs[n - 1]))
    }
}

/// Decimals whose views are `vs` sum as `vs` does.
proof fn lemma_sum_views(rs: Seq<Dec>, vs: Seq<(int, int)>, n: nat)
    requires
        n <= rs.len(),
        rs.len() == vs.len(),
        forall|k: int| 0 <= k < rs.len() ==> #[trigger] rs[k]@ == vs[k],
    ensures
        crate::curves::stableswap::sum_spec(rs, n) == sum_views(vs, n),
    decreases n,
{
    if n > 0 {
        lemma_sum_views(rs, vs, (n - 1) as nat);
    }
}

/// Every value is positive.
pub open spec fn views_positive(vs: Seq<(int, int)>) -> bool {
    forall|k: int| 0 <= k < vs.len() ==> #[trigger] vs[k].0 > 0
}

// ---------------------------------------------------------------------------
// StableSwap
// ---------------------------------------------------------------------------
/// The pairs read for a StableSwap pool, in order.
pub open spec fn stableswap_items(
    reserves: Seq<String>,
    amplification: Seq<char>,
    fee_retention: Seq<char>,
    reference_price: Seq<char>,
    fixed_cost: Seq<char>,
    max_size: Option<Seq<char>>,
) -> Seq<(Seq<char>, Seq<char>)> {
    list_items(reserves, "reserves[i]"@) + seq![
        (amplification, "amplification"@),
        (fee_retention, "fee_retention"@),
        (reference_price, "reference_price"@),
        (fixed_cost, "fixed_cost"@),
    ] + max_item(max_size)
}

/// `r` reports the sizing of a StableSwap pool with `n` reserves read as
/// `vs`, then its amplification, fee retention, price and constraints.
pub open spec fn stableswap_sized(
    r: WasmSizingResult,
    pool: StableSwap,
    o: Result<SizingResult, SizingError>,
    vs: Seq<(int, int)>,
    n: int,
    given: bool,
) -> bool {
    &&& pool.reserves@.len() == n
    &&& forall|k: int| 0 <= k < n ==> #[trigger] pool.reserves@[k]@ == vs[k]
    &&& pool.amplification@ == vs[n] && pool.fee_retention@ == vs[n + 1]
    &&& srv(o) == pool.optimal_size_spec(vs[n + 2], vs[n + 3], cap_at(vs, n + 4, given))
    &&& o matches Ok(res) ==> res.guarantee_tier == (GuaranteeTier::NumericallyGuaranteed {
        convergence_conditions_met: true,
    })
    &&& reports(r, o)
}

/// Sizes a StableSwap pool given as decimal text, reporting as
/// `cpmm_optimal_size` does.
pub fn stableswap_optimal_size(
    reserves: Vec<String>,
    amplification: &str,
    fee_retention: &str,
    reference_price: &str,
    fixed_cost: &str,
    max_size: Option<String>,
) -> (r: WasmSizingResult)
    ensures
        match fields_spec(
            stableswap_items(
                reserves@,
                amplification@,
                fee_retention@,
                reference_price@,
                fixed_cost@,
                opt_text(max_size),
            ),
        ) {
            Err(t) => is_failure(r, t),
            Ok(vs) => {
                let n = reserves@.len() as int;
                if n >= 2 && views_positive(vs.subrange(0, n)) && !value_lt(vs[n], (1, 0))
                    && valid_fee(vs[n + 1]) {
                    exists|pool: StableSwap, o: Result<SizingResult, SizingError>| #[trigger]
                        stableswap_sized(r, pool, o, vs, n, max_size is Some)
                } else {
                    refused(r)
                }
            },
        },
{
    let n = reserves.len();
    let mut items: Vec<(&str, &str)> = Vec::new();
    push_list(&mut items, &reserves, "reserves[i]");
    items.push((amplification, "amplification"));
    items.push((fee_retention, "fee_retention"));
    items.push((reference_price, "reference_price"));
    items.push((fixed_cost, "fixed_cost"));
    push_max(&mut items, &max_size);
    assert(items_view(items@) =~= stableswap_items(
        reserves@,
        amplification@,
        fee_retention@,
        reference_price@,
        fixed_cost@,
        opt_text(max_size),
    ));
    let vals = match parse_fields(&items) {
        Ok(v) => v,
        Err(t) => return err_result(t),
    };
    let ghost vs = vals@.map_values(|d: Dec| d@);
    assert(fields_spec(items_view(items@)) == Ok::<Seq<(int, int)>, Seq<char>>(vs)) by {
        assert(fields_spec(items_view(items@)) matches Ok(ws) && ws =~= vs);
    }
    let pool_reserves = take_range(&vals, 0, n);
    assert(all_positive(pool_reserves@) == views_positive(vs.subrange(0, n as int))) by {
        if all_positive(pool_reserves@) {
            assert forall|k: int| 0 <= k < n implies #[trigger] vs.subrange(0, n as int)[k].0
                > 0 by {
                assert(pool_reserves@[k]@.0 > 0);
            }
        }
        if views_positive(vs.subrange(0, n as int)) {
            assert forall|k: int| 0 <= k < n implies #[trigger] pool_reserves@[k]@.0 > 0 by {
                assert(vs.subrange(0, n as int)[k].0 > 0);
            }
        }
    }
    let pool = match StableSwap::new(pool_reserves, vals[n].copy(), vals[n + 1].copy()) {
        Ok(p) => p,
        Err(e) => {
            let r = err_result(wasm_error_text(&e));
            assert(is_failure(r, wasm_error_spec(e)));
            return r;
        },
    };
    let constraints = constraints_at(&vals, n + 3, max_size.is_some());
    let o = pool.optimal_size(vals[n + 2].copy(), constraints);
    let ghost og = o;
    let r = to_wasm_result(o);
    assert(stableswap_sized(r, pool, og, vs, n as int, max_size is Some));
    r
}

// ---------------------------------------------------------------------------
// Proactive market maker
// ---------------------------------------------------------------------------
/// The pairs read for a PMM pool, in order.
pub open spec fn pmm_items(
    base_reserve: Seq<char>,
    quote_reserve: Seq<char>,
    oracle_price: Seq<char>,
    k: Seq<char>,
    reference_price: Seq<char>,
    fixed_cost: Seq<char>,
    max_size: Option<Seq<char>>,
) -> Seq<(Seq<char>, Seq<char>)> {
    seq![
        (base_reserve, "base_reserve"@),
        (quote_reserve, "quote_reserve"@),
        (oracle_price, "oracle_price"@),
        (k, "k"@),
        (reference_price, "reference_price"@),
        (fixed_cost, "fixed_cost"@),
    ] + max_item(max_size)
}

/// `r` reports the sizing of a PMM pool with the values `vs`.
pub open spec fn pmm_sized(
    r: WasmSizingResult,
    pool: Pmm,
    o: Result<SizingResult, SizingError>,
    vs: Seq<(int, int)>,
    given: bool,
) -> bool {
    &&& pool.base_reserve@ == vs[0] && pool.quote_reserve@ == vs[1] && pool.oracle_price@ == vs[2]
        && pool.k@ == vs[3]
    &&& srv(o) == pool.optimal_size_spec(vs[4], vs[5], cap_at(vs, 6, given))
    &&& o matches Ok(res) ==> res.guarantee_tier is EmpiricallyValidated
    &&& reports(r, o)
}

/// Sizes a WooFi-style PMM pool given as decimal text, reporting as
/// `cpmm_optimal_size` does.
pub fn pmm_optimal_size(
    base_reserve: &str,
    quote_reserve: &str,
    oracle_price: &str,
    k: &str,
    reference_price: &str,
    fixed_cost: &str,
    max_size: Option<String>,
) -> (r: WasmSizingResult)
    ensures
        match fields_spec(
            pmm_items(
                base_reserve@,
                quote_reserve@,
                oracle_price@,
                k@,
                reference_price@,
                fixed_cost@,
                opt_text(max_size),
            ),
        ) {
            Err(t) => is_failure(r, t),
            Ok(vs) => if vs[0].0 > 0 && vs[1].0 > 0 && vs[2].0 > 0 && vs[3].0 > 0 {
                exists|pool: Pmm, o: Result<SizingResult, SizingError>| #[trigger]
                    pmm_sized(r, pool, o, vs, max_size is Some)
            } else {
                refused(r)
            },
        },
{
    let mut items: Vec<(&str, &str)> = Vec::new();
    items.push((base_reserve, "base_reserve"));
    items.push((quote_reserve, "quote_reserve"));
    items.push((oracle_price, "oracle_price"));
    items.push((k, "k"));
    items.push((reference_price, "reference_price"));
    items.push((fixed_cost, "fixed_cost"));
    push_max(&mut items, &max_size);
    assert(items_view(items@) =~= pmm_items(
        base_reserve@,
        quote_reserve@,
        oracle_price@,
        k@,
        reference_price@,
        fixed_cost@,
        opt_text(max_size),
    ));
    let vals = match parse_fields(&items) {
        Ok(v) => v,
        Err(t) => return err_result(t),
    };
    let ghost vs = vals@.map_values(|d: Dec| d@);
    assert(fields_spec(items_view(items@)) == Ok::<Seq<(int, int)>, Seq<char>>(vs)) by {
        assert(fields_spec(items_view(items@)) matches Ok(ws) && ws =~= vs);
    }
    let pool = match Pmm::new(vals[0].copy(), vals[1].copy(), vals[2].copy(), vals[3].copy()) {
        Ok(p) => p,
        Err(e) => {
            let r = err_result(wasm_error_text(&e));
            assert(is_failure(r, wasm_error_spec(e)));
            return r;
        },
    };
    let constraints = constraints_at(&vals, 5, max_size.is_some());
    let o = pool.optimal_size(vals[4].copy(), constraints);
    let ghost og = o;
    let r = to_wasm_result(o);
    assert(pmm_sized(r, pool, og, vs, max_size is Some));
    r
}

// ---------------------------------------------------------------------------
// Concentrated liquidity
// ---------------------------------------------------------------------------
/// The pairs read for a concentrated-liquidity position, in order.
pub open spec fn clmm_items(
    liquidity: Seq<char>,
    sqrt_price_lower: Seq<char>,
    sqrt_price_upper: Seq<char>,
    sqrt_price_current: Seq<char>,
    fee_retention: Seq<char>,
    reference_price: Seq<char>,
    fixed_cost: Seq<char>,
    max_size: Option<Seq<char>>,
) -> Seq<(Seq<char>, Seq<char>)> {
    seq![
        (liquidity, "liquidity"@),
        (sqrt_price_lower, "sqrt_price_lower"@),
        (sqrt_price_upper, "sqrt_price_upper"@),
        (sqrt_price_current, "sqrt_price_current"@),
        (fee_retention, "fee_retention"@),
        (reference_price, "reference_price"@),
        (fixed_cost, "fixed_cost"@),
    ] + max_item(max_size)
}

/// The position's constructor accepts the values `vs`.
pub open spec fn clmm_accepted(vs: Seq<(int, int)>) -> bool {
    vs[0].0 > 0 && vs[1].0 > 0 && value_lt(vs[1], vs[2]) && !value_lt(vs[3], vs[1]) && !value_lt(
        vs[2],
        vs[3],
    ) && valid_fee(vs[4])
}

/// `r` reports the sizing of a position with the values `vs`.
pub open spec fn clmm_sized(
    r: WasmSizingResult,
    pool: ConcentratedLiquidity,
    o: Result<SizingResult, SizingError>,
    vs: Seq<(int, int)>,
    given: bool,
) -> bool {
    &&& pool.liquidity@ == vs[0] && pool.sqrt_price_lower@ == vs[1] && pool.sqrt_price_upper@
        == vs[2] && pool.sqrt_price_current@ == vs[3] && pool.fee_retention@ == vs[4]
    &&& pool.tick_ranges@.len() == 1 && pool.tick_ranges@[0].lower_sqrt_price@ == vs[1]
        && pool.tick_ranges@[0].upper_sqrt_price@ == vs[2]
        && pool.tick_ranges@[0].liquidity_gross@ == vs[0]
        && pool.tick_ranges@[0].liquidity_net@ == (0int, 0int)
    &&& srv(o) == pool.optimal_size_spec(vs[5], vs[6], cap_at(vs, 7, given))
    &&& o matches Ok(res) ==> res.guarantee_tier == GuaranteeTier::ProvenOptimal
    &&& reports(r, o)
}

/// Sizes a concentrated-liquidity position given as decimal text, reporting
/// as `cpmm_optimal_size` does.
pub fn clmm_optimal_size(
    liquidity: &str,
    sqrt_price_lower: &str,
    sqrt_price_upper: &str,
    sqrt_price_current: &str,
    fee_retention: &str,
    reference_price: &str,
    fixed_cost: &str,
    max_size: Option<String>,
) -> (r: WasmSizingResult)
    ensures
        match fields_spec(
            clmm_items(
                liquidity@,
                sqrt_price_lower@,
                sqrt_price_upper@,
                sqrt_price_current@,
                fee_retention@,
                reference_price@,
                fixed_cost@,
                opt_text(max_size),
            ),
        ) {
            Err(t) => is_failure(r, t),
            Ok(vs) => if clmm_accepted(vs) {
                exists|pool: ConcentratedLiquidity, o: Result<SizingResult, SizingError>| #[trigger]
                    clmm_sized(r, pool, o, vs, max_size is Some)
            } else {
                refused(r)
            },
        },
{
    let mut items: Vec<(&str, &str)> = Vec::new();
    items.push((liquidity, "liquidity"));
    items.push((sqrt_price_lower, "sqrt_price_lower"));
    items.push((sqrt_price_upper, "sqrt_price_upper"));
    items.push((sqrt_price_current, "sqrt_price_current"));
    items.push((fee_retention, "fee_retention"));
    items.push((reference_price, "reference_price"));
    items.push((fixed_cost, "fixed_cost"));
    push_max(&mut items, &max_size);
    assert(items_view(items@) =~= clmm_items(
        liquidity@,
        sqrt_price_lower@,
        sqrt_price_upper@,
        sqrt_price_current@,
        fee_retention@,
        reference_price@,
        fixed_cost@,
        opt_text(max_size),
    ));
    let vals = match parse_fields(&items) {
        Ok(v) => v,
        Err(t) => return err_result(t),
    };
    let ghost vs = vals@.map_values(|d: Dec| d@);
    assert(fields_spec(items_view(items@)) == Ok::<Seq<(int, int)>, Seq<char>>(vs)) by {
        assert(fields_spec(items_view(items@)) matches Ok(ws) && ws =~= vs);
    }
    let pool = match ConcentratedLiquidity::new(
        vals[0].copy(),
        vals[1].copy(),
        vals[2].copy(),
        vals[3].copy(),
        vals[4].copy(),
    ) {
        Ok(p) => p,
        Err(e) => {
            let r = err_result(wasm_error_text(&e));
            assert(is_failure(r, wasm_error_spec(e)));
            return r;
        },
    };
    let constraints = constraints_at(&vals, 6, max_size.is_some());
    let o = pool.optimal_size(vals[5].copy(), constraints);
    let ghost og = o;
    let r = to_wasm_result(o);
    assert(clmm_sized(r, pool, og, vs, max_size is Some));
    r
}

// ---------------------------------------------------------------------------
// Weighted pool
// ---------------------------------------------------------------------------
/// The pairs read for a weighted pool, in order.
pub open spec fn balancer_items(
    reserves: Seq<String>,
    weights: Seq<String>,
    fee_retention: Seq<char>,
    reference_price: Seq<char>,
    fixed_cost: Seq<char>,
    max_size: Option<Seq<char>>,
) -> Seq<(Seq<char>, Seq<char>)> {
    list_items(reserves, "reserves[i]"@) + list_items(weights, "weights[i]"@) + seq![
        (fee_retention, "fee_retention"@),
        (reference_price, "reference_price"@),
        (fixed_cost, "fixed_cost"@),
    ] + max_item(max_size)
}

/// The weights sum (added from zero) to exactly 1.
pub open spec fn weights_sum_one(ws: Seq<(int, int)>) -> bool {
    match sum_views(ws, ws.len()) {
        Some(x) => crate::decimal::value_eq(x, (1, 0)),
        None => false,
    }
}

/// The weighted pool's constructor accepts `n` reserves and `m` weights read
/// as `vs`, then the fee retention, with the two indices.
pub open spec fn balancer_accepted(
    vs: Seq<(int, int)>,
    n: int,
    m: int,
    input_index: usize,
    output_index: usize,
) -> bool {
    &&& n >= 2 && n == m && input_index < n && output_index < n && input_index != output_index
    &&& views_positive(vs.subrange(0, n)) && views_positive(vs.subrange(n, n + m))
    &&& weights_sum_one(vs.subrange(n, n + m))
    &&& valid_fee(vs[n + m])
}

/// `r` reports the sizing of a weighted pool read as `vs`.
pub open spec fn balancer_sized(
    r: WasmSizingResult,
    pool: BalancerWeightedPool,
    o: Result<SizingResult, SizingError>,
    vs: Seq<(int, int)>,
    n: int,
    m: int,
    given: bool,
) -> bool {
    &&& pool.reserves@.len() == n && pool.weights@.len() == m
    &&& forall|k: int| 0 <= k < n ==> #[trigger] pool.reserves@[k]@ == vs[k]
    &&& forall|k: int| 0 <= k < m ==> #[trigger] pool.weights@[k]@ == vs[n + k]
    &&& pool.fee_retention@ == vs[n + m]
    &&& srv(o) == pool.optimal_size_spec(vs[n + m + 1], vs[n + m + 2], cap_at(vs, n + m + 3, given))
    &&& o matches Ok(res) ==> res.guarantee_tier == GuaranteeTier::ProvenOptimal
    &&& reports(r, o)
}

/// Sizes a weighted pool given as decimal text, trading token `input_index`
/// for token `output_index`, reporting as `cpmm_optimal_size` does.
pub fn balancer_optimal_size(
    reserves: Vec<String>,
    weights: Vec<String>,
    fee_retention: &str,
    input_index: usize,
    output_index: usize,
    reference_price: &str,
    fixed_cost: &str,
    max_size: Option<String>,
) -> (r: WasmSizingResult)
    ensures
        match fields_spec(
            balancer_items(
                reserves@,
                weights@,
                fee_retention@,
                reference_price@,
                fixed_cost@,
                opt_text(max_size),
            ),
        ) {
            Err(t) => is_failure(r, t),
            Ok(vs) => {
                let n = reserves@.len() as int;
                let m = weights@.len() as int;
                if balancer_accepted(vs, n, m, input_index, output_index) {
                    exists|pool: BalancerWeightedPool, o: Result<SizingResult, SizingError>|
                        #[trigger] balancer_sized(r, pool, o, vs, n, m, max_size is Some)
                } else {
                    refused(r)
                }
            },
        },
{
    let n = reserves.len();
    let m = weights.len();
    let mut items: Vec<(&str, &str)> = Vec::new();
    push_list(&mut items, &reserves, "reserves[i]");
    push_list(&mut items, &weights, "weights[i]");
    items.push((fee_retention, "fee_retention"));
    items.push((reference_price, "reference_price"));
    items.push((fixed_cost, "fixed_cost"));
    push_max(&mut items, &max_size);
    assert(items_view(items@) =~= balancer_items(
        reserves@,
        weights@,
        fee_retention@,
        reference_price@,
        fixed_cost@,
        opt_text(max_size),
    ));
    let vals = match parse_fields(&items) {
        Ok(v) => v,
        Err(t) => return err_result(t),
    };
    let ghost vs = vals@.map_values(|d: Dec| d@);
    assert(fields_spec(items_view(items@)) == Ok::<Seq<(int, int)>, Seq<char>>(vs)) by {
        assert(fields_spec(items_view(items@)) matches Ok(ws) && ws =~= vs);
    }
    let pool_reserves = take_range(&vals, 0, n);
    let pool_weights = take_range(&vals, n, m);
    proof {
        let rv = vs.subrange(0, n as int);
        let wv = vs.subrange(n as int, n + m);
        assert forall|k: int| 0 <= k < m implies #[trigger] pool_weights@[k]@ == wv[k] by {}
        lemma_sum_views(pool_weights@, wv, m as nat);
        assert(all_positive(pool_reserves@) == views_positive(rv)) by {
            if all_positive(pool_reserves@) {
                assert forall|k: int| 0 <= k < n implies #[trigger] rv[k].0 > 0 by {
                    assert(pool_reserves@[k]@.0 > 0);
                }
            }
            if views_positive(rv) {
                assert forall|k: int| 0 <= k < n implies #[trigger] pool_reserves@[k]@.0 > 0 by {
                    assert(rv[k].0 > 0);
                }
            }
        }
        assert(all_positive(pool_weights@) == views_positive(wv)) by {
            if all_positive(pool_weights@) {
                assert forall|k: int| 0 <= k < m implies #[trigger] wv[k].0 > 0 by {
                    assert(pool_weights@[k]@.0 > 0);
                }
            }
            if views_positive(wv) {
                assert forall|k: int| 0 <= k < m implies #[trigger] pool_weights@[k]@.0 > 0 by {
                    assert(wv[k].0 > 0);
                }
            }
        }
        assert(weights_sum_to_one(pool_weights@) == weights_sum_one(wv));
    }
    let pool = match BalancerWeightedPool::new(
        pool_reserves,
        pool_weights,
        vals[n + m].copy(),
        input_index,
        output_index,
    ) {
        Ok(p) => p,
        Err(e) => {
            let r = err_result(wasm_error_text(&e));
            assert(is_failure(r, wasm_error_spec(e)));
            return r;
        },
    };
    let constraints = constraints_at(&vals, n + m + 2, max_size.is_some());
    let o = pool.optimal_size(vals[n + m + 1].copy(), constraints);
    let ghost og = o;
    let r = to_wasm_result(o);
    assert(balancer_sized(r, pool, og, vs, n as int, m as int, max_size is Some));
    r
}

} // verus!
