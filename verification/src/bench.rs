//! Comparison of the guaranteed sizing methods against a naive grid search:
//! the grid search itself, the accuracy of each grid, and the Markdown
//! report. The harness times the calls; everything it times is here.
use crate::decimal::{
    dec_lt, decimal_to_string, o_div, o_mul, o_sub, ov, s_div, s_mul, s_sub, some, value_lt, Dec,
    MAX_MANTISSA,
};
use crate::route::Leg;
use crate::text::{nat_text, u128_text};
use vstd::prelude::*;

verus! {

/// The grid densities compared: 10, 100, 1,000 and 10,000 points.
pub fn grid_densities() -> (r: Vec<u32>)
    ensures
        r@ == seq![10u32, 100u32, 1000u32, 10000u32],
{
    let mut v: Vec<u32> = Vec::new();
    v.push(10);
    v.push(100);
    v.push(1000);
    v.push(10000);
    assert(v@ =~= seq![10u32, 100u32, 1000u32, 10000u32]);
    v
}

/// The relative difference a grid must get under to count as converged.
pub open spec fn tolerance() -> (int, int) {
    (1, 4)
}

/// The relative difference a grid must get under to count as converged,
/// `1e-4`.
pub fn accuracy_tolerance() -> (r: Dec)
    ensures
        r@ == tolerance(),
{
    Dec::lit(1, 4)
}

// ---------------------------------------------------------------------------
// Grid search
// ---------------------------------------------------------------------------
/// Grid point `i` of `n` over `[0, upper]`: `upper * i / n`.
pub open spec fn grid_point(upper: (int, int), i: int, n: int) -> Option<(int, int)> {
    s_div(s_mul(Some(upper), Some((i, 0))), Some((n, 0)))
}

/// The profit of trading `d` on `leg` against `p`: `None` where a step
/// overflows, `Some(None)` where the leg cannot quote `d`.
pub open spec fn profit_at(leg: Leg, p: (int, int), d: (int, int)) -> Option<Option<(int, int)>> {
    match leg.quote_spec(d) {
        Err(_) => Some(None),
        Ok(q) => match s_sub(Some(q), s_mul(Some(p), Some(d))) {
            None => None,
            Some(v) => Some(Some(v)),
        },
    }
}

/// The best `(delta, profit)` among the first `k` of the `n + 1` grid
/// points, starting from `(0, Decimal::MIN)` and replacing it only by a
/// strictly larger profit; `None` where a step overflows.
pub open spec fn grid_spec(leg: Leg, p: (int, int), upper: (int, int), n: nat, k: nat) -> Option<
    ((int, int), (int, int)),
>
    decreases k,
{
    if k == 0 {
        Some(((0, 0), (-MAX_MANTISSA as int, 0)))
    } else {
        match grid_spec(leg, p, upper, n, (k - 1) as nat) {
            None => None,
            Some(best) => match grid_point(upper, k - 1, n as int) {
                None => None,
                Some(d) => match profit_at(leg, p, d) {
                    None => None,
                    Some(None) => Some(best),
                    Some(Some(v)) => if value_lt(best.1, v) {
                        Some((d, v))
                    } else {
                        Some(best)
                    },
                },
            },
        }
    }
}

/// The profit of trading `d` on `leg` against `p`.
fn grid_profit(leg: &Leg, p: &Dec, d: &Dec) -> (r: Option<Option<Dec>>)
    ensures
        match profit_at(*leg, p@, d@) {
            None => r is None,
            Some(None) => r == Some(None::<Dec>),
            Some(Some(v)) => r matches Some(Some(x)) && x@ == v,
        },
{
    match leg.quote(d.copy()) {
        Err(_) => Some(None),
        Ok(q) => match o_sub(Some(q), o_mul(some(p), some(d))) {
            None => None,
            Some(v) => Some(Some(v)),
        },
    }
}

/// Naive grid search: the profit of trading `upper * i / n` on `leg`
/// against `reference_price` at each `i` in `0..=n`, and the point with the
/// largest (the first such); points the leg cannot quote are skipped.
/// `None` where a step overflows.
pub fn grid_search(leg: &Leg, reference_price: &Dec, upper: &Dec, n: u32) -> (r: Option<(Dec, Dec)>)
    requires
        n > 0,
    ensures
        match grid_spec(*leg, reference_price@, upper@, n as nat, (n + 1) as nat) {
            None => r is None,
            Some(best) => r matches Some(x) && x.0@ == best.0 && x.1@ == best.1,
        },
{
    let mut best_delta = Dec::zero();
    let mut best_profit = Dec::min_value();
    let mut i: u32 = 0;
    while i <= n
        invariant
            i <= n + 1,
            n > 0,
            grid_spec(*leg, reference_price@, upper@, n as nat, i as nat) == Some(
                (best_delta@, best_profit@),
            ),
        decreases n + 1 - i,
    {
        let delta = match o_div(o_mul(some(upper), Some(Dec::from_u64(i as u64))), Some(Dec::from_u64(n as u64))) {
            Some(d) => d,
            None => {
                proof {
                    lemma_grid_overflow_persists(*leg, reference_price@, upper@, n as nat, i as nat + 1, (n + 1) as nat);
                }
                return None;
            },
        };
        match grid_profit(leg, reference_price, &delta) {
            None => {
                proof {
                    lemma_grid_overflow_persists(*leg, reference_price@, upper@, n as nat, i as nat + 1, (n + 1) as nat);
                }
                return None;
            },
            Some(None) => {},
            Some(Some(profit)) => {
                if dec_lt(&best_profit, &profit) {
                    best_profit = profit;
                    best_delta = delta;
                }
            },
        }
        if i == n {
            return Some((best_delta, best_profit));
        }
        i = i + 1;
    }
    Some((best_delta, best_profit))
}

/// Once a prefix of the grid overflows, every longer one does.
proof fn lemma_grid_overflow_persists(leg: Leg, p: (int, int), upper: (int, int), n: nat, k: nat, m: nat)
    requires
        k <= m,
        grid_spec(leg, p, upper, n, k) is None,
    ensures
        grid_spec(leg, p, upper, n, m) is None,
    decreases m - k,
{
    if k < m {
        lemma_grid_overflow_persists(leg, p, upper, n, k + 1, m);
    }
}

/// The upper end of the grid: `2.19` times the guaranteed size, and for a
/// PMM pool no further than `0.999` of its pole `1 / (k * oracle_price)`.
pub open spec fn grid_upper_spec(leg: Leg, guaranteed: (int, int)) -> Option<(int, int)> {
    match s_mul(Some(guaranteed), Some((219, 2))) {
        None => None,
        Some(u) => match leg {
            Leg::Pmm(pool) => match s_mul(
                s_div(Some((1, 0)), s_mul(Some(pool.k@), Some(pool.oracle_price@))),
                Some((999, 3)),
            ) {
                None => None,
                Some(margin) => if value_lt(margin, u) {
                    Some(margin)
                } else {
                    Some(u)
                },
            },
            _ => Some(u),
        },
    }
}

/// The upper end of the grid searched against a guaranteed size.
pub fn grid_upper(leg: &Leg, guaranteed_delta: &Dec) -> (r: Option<Dec>)
    ensures
        ov(r) == grid_upper_spec(*leg, guaranteed_delta@),
{
    let upper = match o_mul(some(guaranteed_delta), Some(Dec::lit(219, 2))) {
        Some(u) => u,
        None => return None,
    };
    match leg {
        Leg::Pmm(pool) => {
            let pole = o_div(Some(Dec::one()), o_mul(some(&pool.k), some(&pool.oracle_price)));
            match o_mul(pole, Some(Dec::lit(999, 3))) {
                None => None,
                Some(margin) => if dec_lt(&margin, &upper) {
                    Some(margin)
                } else {
                    Some(upper)
                },
            }
        },
        _ => Some(upper),
    }
}

// ---------------------------------------------------------------------------
// Accuracy
// ---------------------------------------------------------------------------
/// `|grid - guaranteed|`, divided by `|guaranteed|` unless that is zero.
pub open spec fn relative_diff_spec(grid: (int, int), guaranteed: (int, int)) -> Option<(int, int)> {
    match s_sub(Some(grid), Some(guaranteed)) {
        None => None,
        Some(diff) => {
            let abs_diff = (if diff.0 < 0 {
                -diff.0
            } else {
                diff.0
            }, diff.1);
            if guaranteed.0 == 0 {
                Some(abs_diff)
            } else {
                s_div(
                    Some(abs_diff),
                    Some(
                        (if guaranteed.0 < 0 {
                            -guaranteed.0
                        } else {
                            guaranteed.0
                        }, guaranteed.1),
                    ),
                )
            }
        },
    }
}

/// How far a grid's size is from the guaranteed one, relative to it.
pub fn relative_diff(grid_delta: &Dec, guaranteed_delta: &Dec) -> (r: Option<Dec>)
    ensures
        ov(r) == relative_diff_spec(grid_delta@, guaranteed_delta@),
{
    let diff = match o_sub(some(grid_delta), some(guaranteed_delta)) {
        Some(d) => d.abs(),
        None => return None,
    };
    if guaranteed_delta.is_zero() {
        Some(diff)
    } else {
        o_div(Some(diff), Some(guaranteed_delta.abs()))
    }
}

/// One grid density's outcome.
pub struct GridRow {
    /// The grid density.
    pub n: u32,
    /// The grid's best size.
    pub delta: Dec,
    /// How long the grid search took.
    pub wall_clock_micros: u128,
    /// Its distance from the guaranteed size, relative to it.
    pub relative_diff: Dec,
}

/// The row of a grid of density `n` whose best size was `delta`.
pub fn grid_row(n: u32, delta: Dec, wall_clock_micros: u128, guaranteed_delta: &Dec) -> (r: Option<GridRow>)
    ensures
        match relative_diff_spec(delta@, guaranteed_delta@) {
            None => r is None,
            Some(rd) => r matches Some(row) && row.n == n && row.delta@ == delta@
                && row.wall_clock_micros == wall_clock_micros && row.relative_diff@ == rd,
        },
{
    match relative_diff(&delta, guaranteed_delta) {
        Some(rd) => Some(GridRow { n, delta, wall_clock_micros, relative_diff: rd }),
        None => None,
    }
}

/// The density of the first row within tolerance.
pub open spec fn first_converging(rows: Seq<GridRow>, k: nat) -> Option<u32>
    decreases k,
{
    if k == 0 {
        None
    } else {
        match first_converging(rows, (k - 1) as nat) {
            Some(n) => Some(n),
            None => if value_lt(rows[k - 1].relative_diff@, tolerance()) {
                Some(rows[k - 1].n)
            } else {
                None
            },
        }
    }
}

/// The smallest density, in the order the rows were taken, whose grid came
/// within tolerance of the guaranteed size.
pub fn min_converging_n(rows: &Vec<GridRow>) -> (r: Option<u32>)
    ensures
        r == first_converging(rows@, rows@.len()),
{
    let tol = accuracy_tolerance();
    let mut found: Option<u32> = None;
    let mut i: usize = 0;
    while i < rows.len()
        invariant
            i <= rows@.len(),
            tol@ == tolerance(),
            found == first_converging(rows@, i as nat),
        decreases rows@.len() - i,
    {
        if found.is_none() && dec_lt(&rows[i].relative_diff, &tol) {
            found = Some(rows[i].n);
        }
        i = i + 1;
    }
    found
}

/// One curve's comparison.
pub struct CurveBenchResult {
    /// The curve family's name.
    pub name: String,
    /// The guaranteed method's name.
    pub guaranteed_method: String,
    /// The guaranteed size.
    pub guaranteed_delta: Dec,
    /// The guaranteed method's iteration count, as text.
    pub guaranteed_iterations: String,
    /// How long the guaranteed method took.
    pub guaranteed_wall_clock_micros: u128,
    /// One row per grid density.
    pub grid_rows: Vec<GridRow>,
    /// The first density whose grid converged.
    pub min_converging_n: Option<u32>,
}

/// A curve's comparison, with the first converging density found from its
/// rows.
pub fn bench_result(
    name: String,
    guaranteed_method: String,
    guaranteed_delta: Dec,
    guaranteed_iterations: String,
    guaranteed_wall_clock_micros: u128,
    grid_rows: Vec<GridRow>,
) -> (r: CurveBenchResult)
    ensures
        r.name@ == name@ && r.guaranteed_method@ == guaranteed_method@,
        r.guaranteed_delta@ == guaranteed_delta@,
        r.guaranteed_iterations@ == guaranteed_iterations@,
        r.guaranteed_wall_clock_micros == guaranteed_wall_clock_micros,
        r.grid_rows@ == grid_rows@,
        r.min_converging_n == first_converging(grid_rows@, grid_rows@.len()),
{
    let min_converging_n = min_converging_n(&grid_rows);
    CurveBenchResult {
        name,
        guaranteed_method,
        guaranteed_delta,
        guaranteed_iterations,
        guaranteed_wall_clock_micros,
        grid_rows,
        min_converging_n,
    }
}

/// An iteration count as text, `N/A` where none applies.
pub open spec fn iterations_spec(iterations: Option<u32>) -> Seq<char> {
    match iterations {
        Some(n) => nat_text(n as nat),
        None => "N/A"@,
    }
}

/// An iteration count as text, `N/A` where none applies.
pub fn iterations_text(iterations: Option<u32>) -> (r: String)
    ensures
        r@ == iterations_spec(iterations),
{
    match iterations {
        Some(n) => u128_text(n as u128),
        None => String::from_str("N/A"),
    }
}

// ---------------------------------------------------------------------------
// Report
// ---------------------------------------------------------------------------
/// The report's title and introduction, up to the first table's rows.
pub open spec fn report_head() -> Seq<char> {
    "# Benchmark report\n\nGenerated by the benchmark harness, not written by hand: wall-clock and iteration-count comparison at grid densities 10 / 100 / 1,000 / 10,000, and accuracy against grid density across every curve family.\n\n## Wall-clock and iteration count\n\n| Curve | Method | Guaranteed iterations | Guaranteed wall-clock (µs) | Grid N | Grid wall-clock (µs) |\n|---|---|---|---|---|---|\n"@
}

/// The second table's heading, up to its rows.
pub open spec fn accuracy_head() -> Seq<char> {
    "\n## Accuracy vs. grid density\n\n| Curve | Guaranteed Δx* | Grid N | Grid Δx | Relative diff | Within 1e-4? |\n|---|---|---|---|---|---|\n"@
}

/// Row `i` of a curve in the wall-clock table: the curve's own columns on
/// its first row only.
pub open spec fn clock_row(r: CurveBenchResult, i: int) -> Seq<char> {
    let row = r.grid_rows@[i];
    if i == 0 {
        "| "@ + r.name@ + " | "@ + r.guaranteed_method@ + " | "@ + r.guaranteed_iterations@ + " | "@
            + nat_text(r.guaranteed_wall_clock_micros as nat) + " | "@ + nat_text(row.n as nat)
            + " | "@ + nat_text(row.wall_clock_micros as nat) + " |\n"@
    } else {
        "| | | | | "@ + nat_text(row.n as nat) + " | "@ + nat_text(row.wall_clock_micros as nat)
            + " |\n"@
    }
}

/// The first `k` wall-clock rows of a curve.
pub open spec fn clock_rows(r: CurveBenchResult, k: nat) -> Seq<char>
    decreases k,
{
    if k == 0 {
        Seq::empty()
    } else {
        clock_rows(r, (k - 1) as nat) + clock_row(r, k - 1)
    }
}

/// The wall-clock rows of the first `k` curves.
pub open spec fn clock_table(rs: Seq<CurveBenchResult>, k: nat) -> Seq<char>
    decreases k,
{
    if k == 0 {
        Seq::empty()
    } else {
        clock_table(rs, (k - 1) as nat) + clock_rows(rs[k - 1], rs[k - 1].grid_rows@.len())
    }
}

/// `yes` for a relative difference within tolerance, else `no`.
pub open spec fn within_text(rd: (int, int)) -> Seq<char> {
    if value_lt(rd, tolerance()) {
        "yes"@
    } else {
        "no"@
    }
}

/// Row `i` of a curve in the accuracy table.
pub open spec fn accuracy_row(r: CurveBenchResult, i: int) -> Seq<char> {
    let row = r.grid_rows@[i];
    "| "@ + r.name@ + " | "@ + decimal_to_string(r.guaranteed_delta@) + " | "@ + nat_text(
        row.n as nat,
    ) + " | "@ + decimal_to_string(row.delta@) + " | "@ + decimal_to_string(row.relative_diff@)
        + " | "@ + within_text(row.relative_diff@) + " |\n"@
}

/// The first `k` accuracy rows of a curve.
pub open spec fn accuracy_rows(r: CurveBenchResult, k: nat) -> Seq<char>
    decreases k,
{
    if k == 0 {
        Seq::empty()
    } else {
        accuracy_rows(r, (k - 1) as nat) + accuracy_row(r, k - 1)
    }
}

/// The first converging density as text.
pub open spec fn min_n_text(m: Option<u32>) -> Seq<char> {
    match m {
        Some(n) => nat_text(n as nat),
        None => "none tested converged"@,
    }
}

/// A curve's summary row in the accuracy table.
pub open spec fn summary_row(r: CurveBenchResult) -> Seq<char> {
    "| **"@ + r.name@ + "** | | | **minimum grid N to converge within 1e-4** | | **"@ + min_n_text(
        r.min_converging_n,
    ) + "** |\n"@
}

/// The accuracy rows of the first `k` curves, each followed by its summary.
pub open spec fn accuracy_table(rs: Seq<CurveBenchResult>, k: nat) -> Seq<char>
    decreases k,
{
    if k == 0 {
        Seq::empty()
    } else {
        accuracy_table(rs, (k - 1) as nat) + accuracy_rows(rs[k - 1], rs[k - 1].grid_rows@.len())
            + summary_row(rs[k - 1])
    }
}

/// The whole report.
pub open spec fn report_spec(rs: Seq<CurveBenchResult>) -> Seq<char> {
    report_head() + clock_table(rs, rs.len()) + accuracy_head() + accuracy_table(rs, rs.len())
}

fn clock_row_text(r: &CurveBenchResult, i: usize) -> (t: String)
    requires
        i < r.grid_rows@.len(),
    ensures
        t@ == clock_row(*r, i as int),
{
    let row = &r.grid_rows[i];
    let mut out = if i == 0 {
        String::from_str("| ")
    } else {
        String::from_str("| | | | | ")
    };
    if i == 0 {
        out.append(r.name.as_str());
        out.append(" | ");
        out.append(r.guaranteed_method.as_str());
        out.append(" | ");
        out.append(r.guaranteed_iterations.as_str());
        out.append(" | ");
        let g = u128_text(r.guaranteed_wall_clock_micros);
        out.append(g.as_str());
        out.append(" | ");
    }
    let n = u128_text(row.n as u128);
    out.append(n.as_str());
    out.append(" | ");
    let w = u128_text(row.wall_clock_micros);
    out.append(w.as_str());
    out.append(" |\n");
    proof {
        if i == 0 {
            assert(out@ =~= clock_row(*r, i as int));
        } else {
            assert(out@ =~= clock_row(*r, i as int));
        }
    }
    out
}

fn accuracy_row_text(r: &CurveBenchResult, i: usize) -> (t: String)
    requires
        i < r.grid_rows@.len(),
    ensures
        t@ == accuracy_row(*r, i as int),
{
    let row = &r.grid_rows[i];
    let mut out = String::from_str("| ");
    out.append(r.name.as_str());
    out.append(" | ");
    let g = r.guaranteed_delta.to_text();
    out.append(g.as_str());
    out.append(" | ");
    let n = u128_text(row.n as u128);
    out.append(n.as_str());
    out.append(" | ");
    let d = row.delta.to_text();
    out.append(d.as_str());
    out.append(" | ");
    let rd = row.relative_diff.to_text();
    out.append(rd.as_str());
    out.append(" | ");
    let tol = accuracy_tolerance();
    if dec_lt(&row.relative_diff, &tol) {
        out.append("yes");
    } else {
        out.append("no");
    }
    out.append(" |\n");
    assert(out@ =~= accuracy_row(*r, i as int));
    out
}

fn summary_row_text(r: &CurveBenchResult) -> (t: String)
    ensures
        t@ == summary_row(*r),
{
    let mut out = String::from_str("| **");
    out.append(r.name.as_str());
    out.append("** | | | **minimum grid N to converge within 1e-4** | | **");
    match r.min_converging_n {
        Some(n) => {
            let t = u128_text(n as u128);
            out.append(t.as_str());
        },
        None => {
            out.append("none tested converged");
        },
    }
    out.append("** |\n");
    assert(out@ =~= summary_row(*r));
    out
}

/// The Markdown report: a wall-clock table and an accuracy table, one block
/// of rows per curve.
pub fn render_report(results: &Vec<CurveBenchResult>) -> (r: String)
    ensures
        r@ == report_spec(results@),
{
    let mut out = String::from_str(
        "# Benchmark report\n\nGenerated by the benchmark harness, not written by hand: wall-clock and iteration-count comparison at grid densities 10 / 100 / 1,000 / 10,000, and accuracy against grid density across every curve family.\n\n## Wall-clock and iteration count\n\n| Curve | Method | Guaranteed iterations | Guaranteed wall-clock (µs) | Grid N | Grid wall-clock (µs) |\n|---|---|---|---|---|---|\n",
    );
    let mut c: usize = 0;
    while c < results.len()
        invariant
            c <= results@.len(),
            out@ == report_head() + clock_table(results@, c as nat),
        decreases results@.len() - c,
    {
        let r = &results[c];
        let ghost base = out@;
        let mut i: usize = 0;
        while i < r.grid_rows.len()
            invariant
                i <= r.grid_rows@.len(),
                out@ == base + clock_rows(*r, i as nat),
            decreases r.grid_rows@.len() - i,
        {
            let t = clock_row_text(r, i);
            out.append(t.as_str());
            i = i + 1;
            assert(out@ =~= base + clock_rows(*r, i as nat));
        }
        c = c + 1;
        assert(out@ =~= report_head() + clock_table(results@, c as nat));
    }
    out.append(
        "\n## Accuracy vs. grid density\n\n| Curve | Guaranteed Δx* | Grid N | Grid Δx | Relative diff | Within 1e-4? |\n|---|---|---|---|---|---|\n",
    );
    let ghost head = out@;
    let mut c: usize = 0;
    while c < results.len()
        invariant
            c <= results@.len(),
            out@ == head + accuracy_table(results@, c as nat),
        decreases results@.len() - c,
    {
        let r = &results[c];
        let ghost base = out@;
        let mut i: usize = 0;
        while i < r.grid_rows.len()
            invariant
                i <= r.grid_rows@.len(),
                out@ == base + accuracy_rows(*r, i as nat),
            decreases r.grid_rows@.len() - i,
        {
            let t = accuracy_row_text(r, i);
            out.append(t.as_str());
            i = i + 1;
            assert(out@ =~= base + accuracy_rows(*r, i as nat));
        }
        let t = summary_row_text(r);
        out.append(t.as_str());
        c = c + 1;
        assert(out@ =~= head + accuracy_table(results@, c as nat));
    }
    assert(out@ =~= report_spec(results@));
    out
}

} // verus!
