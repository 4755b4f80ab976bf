use optimal_sizing::bench::{
    bench_result, grid_densities, grid_row, grid_search, grid_upper, iterations_text,
    min_converging_n, relative_diff, render_report, GridRow,
};
use optimal_sizing::curves::{Cpmm, Pmm};
use optimal_sizing::watch::engine::size_leg;
use optimal_sizing::{Dec, Leg, SizingConstraints};
use rust_decimal::Decimal;

fn bn(s: &str) -> Dec {
    Dec::parse(s).unwrap()
}

fn bbig(x: &Dec) -> Decimal {
    Decimal::from_i128_with_scale(x.mantissa(), x.scale())
}

fn cpmm_leg() -> Leg {
    Leg::Cpmm(Cpmm::new(bn("1200000"), bn("800000"), bn("0.997")).unwrap())
}

#[test]
fn grid_search_matches_a_direct_scan() {
    let leg = cpmm_leg();
    let p = bn("0.6");
    let upper = bn("100000");
    let (delta, profit) = grid_search(&leg, &p, &upper, 10).unwrap();
    let mut best = (Decimal::ZERO, Decimal::MIN);
    for i in 0..=10u32 {
        let d = bbig(&upper) * Decimal::from(i) / Decimal::from(10u32);
        let q = bbig(&leg.quote(Dec::parse(&d.to_string()).unwrap()).unwrap());
        let v = q - bbig(&p) * d;
        if v > best.1 {
            best = (d, v);
        }
    }
    assert_eq!(bbig(&delta), best.0);
    assert_eq!(bbig(&profit), best.1);
}

#[test]
fn grid_converges_towards_the_guaranteed_size() {
    let leg = cpmm_leg();
    let p = bn("0.6");
    let guaranteed = size_leg(
        &leg,
        p.clone(),
        SizingConstraints { fixed_cost: bn("0"), max_size: None },
    )
    .unwrap();
    let upper = grid_upper(&leg, &guaranteed.optimal_delta).unwrap();
    assert_eq!(bbig(&upper), bbig(&guaranteed.optimal_delta) * Decimal::new(219, 2));
    let mut rows: Vec<GridRow> = Vec::new();
    for n in grid_densities() {
        let (delta, _) = grid_search(&leg, &p, &upper, n).unwrap();
        rows.push(grid_row(n, delta, 5, &guaranteed.optimal_delta).unwrap());
    }
    assert_eq!(rows.len(), 4);
    assert!(bbig(&rows[3].relative_diff) < bbig(&rows[0].relative_diff));
    let first = min_converging_n(&rows);
    if let Some(n) = first {
        let row = rows.iter().find(|r| r.n == n).unwrap();
        assert!(bbig(&row.relative_diff) < Decimal::new(1, 4));
    }
}

#[test]
fn pmm_grid_stops_short_of_the_pole() {
    let pmm = Pmm::new(bn("1000000"), bn("2000000000"), bn("2000"), bn("0.0000001")).unwrap();
    let leg = Leg::Pmm(pmm);
    let upper = grid_upper(&leg, &bn("10000")).unwrap();
    assert_eq!(bbig(&upper), Decimal::new(4995, 0));
    let wide = grid_upper(&leg, &bn("1")).unwrap();
    assert_eq!(bbig(&wide), Decimal::new(219, 2));
}

#[test]
fn relative_difference_and_first_convergence() {
    assert_eq!(relative_diff(&bn("99"), &bn("100")).unwrap(), bn("0.01"));
    assert_eq!(relative_diff(&bn("-3"), &bn("0")).unwrap(), bn("3"));
    let rows = vec![
        grid_row(10, bn("90"), 1, &bn("100")).unwrap(),
        grid_row(100, bn("99.999"), 2, &bn("100")).unwrap(),
        grid_row(1000, bn("100"), 3, &bn("100")).unwrap(),
    ];
    assert_eq!(min_converging_n(&rows), Some(100));
    assert_eq!(min_converging_n(&rows[..1].iter().map(|r| GridRow {
        n: r.n,
        delta: r.delta.clone(),
        wall_clock_micros: r.wall_clock_micros,
        relative_diff: r.relative_diff.clone(),
    }).collect()), None);
    assert_eq!(iterations_text(Some(42)), "42");
    assert_eq!(iterations_text(None), "N/A");
}

#[test]
fn report_lists_every_row() {
    let rows = vec![
        grid_row(10, bn("90"), 7, &bn("100")).unwrap(),
        grid_row(100, bn("100"), 70, &bn("100")).unwrap(),
    ];
    let result = bench_result(
        "Cpmm".to_string(),
        "Closed form".to_string(),
        bn("100"),
        "N/A (O(1))".to_string(),
        3,
        rows,
    );
    assert_eq!(result.min_converging_n, Some(100));
    let report = render_report(&vec![result]);
    assert!(report.starts_with("# Benchmark report\n"));
    assert!(report.contains("| Cpmm | Closed form | N/A (O(1)) | 3 | 10 | 7 |\n"));
    assert!(report.contains("| | | | | 100 | 70 |\n"));
    assert!(report.contains("| Cpmm | 100 | 10 | 90 | 0.10 | no |\n"), "{report}");
    assert!(report.contains("| Cpmm | 100 | 100 | 100 | 0 | yes |\n"));
    assert!(report.contains("| **Cpmm** | | | **minimum grid N to converge within 1e-4** | | **100** |\n"));
}
