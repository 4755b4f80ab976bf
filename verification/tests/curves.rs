use optimal_sizing::curves::{
    BalancerWeightedPool, ConcentratedLiquidity, Cpmm, CurveCryptoSwap, DodoPmm, Pmm, StableSwap,
    TickRange,
};
use optimal_sizing::{
    gas_aware_fixed_cost, Dec, GuaranteeTier, PricingCurve, SizingAlgorithm, SizingConstraints,
    SizingError, SlippageBound,
};
use rust_decimal::Decimal;
use rust_decimal::MathematicalOps;
use std::str::FromStr;

fn num(s: &str) -> Dec {
    Dec::parse(s).unwrap()
}

fn big(x: &Dec) -> Decimal {
    Decimal::from_i128_with_scale(x.mantissa(), x.scale())
}

fn bigs(s: &str) -> Decimal {
    Decimal::from_str(s).unwrap()
}

fn no_limits() -> SizingConstraints {
    SizingConstraints { fixed_cost: num("0"), max_size: None }
}

// ---------------------------------------------------------------- balancer

#[test]
fn fifty_fifty_pool_matches_cpmm_exactly() {
    let balancer = BalancerWeightedPool::new(
        vec![num("1000000"), num("2000000")],
        vec![num("0.5"), num("0.5")],
        num("0.997"),
        0,
        1,
    )
    .unwrap();
    let cpmm = Cpmm::new(num("1000000"), num("2000000"), num("0.997")).unwrap();

    let b_out = big(&balancer.quote(num("10000")).unwrap());
    let c_out = big(&cpmm.quote(num("10000")).unwrap());
    let diff = (b_out - c_out).abs();
    assert!(diff <= c_out * bigs("0.000000001"));

    let b_opt = balancer.optimal_size(num("1.5"), no_limits()).unwrap();
    let c_opt = cpmm.optimal_size(num("1.5"), no_limits()).unwrap();
    let opt_diff = (big(&b_opt.optimal_delta) - big(&c_opt.optimal_delta)).abs();
    assert!(opt_diff <= big(&c_opt.optimal_delta) * bigs("0.000000001"));
    assert!(matches!(b_opt.guarantee_tier, GuaranteeTier::ProvenOptimal));
}

#[test]
fn asymmetric_80_20_pool_sizing() {
    let balancer = BalancerWeightedPool::new(
        vec![num("800000"), num("200000")],
        vec![num("0.8"), num("0.2")],
        num("0.997"),
        0,
        1,
    )
    .unwrap();
    let res = balancer.optimal_size(num("0.5"), no_limits()).unwrap();
    assert!(res.optimal_delta.is_positive());
    assert!(res.expected_profit.is_positive());
}

// ---------------------------------------------------------------- clmm

#[test]
fn wide_range_matches_equivalent_cpmm() {
    let cl = ConcentratedLiquidity::new(
        num("1000000"),
        num("0.5"),
        num("2.0"),
        num("1.0"),
        num("0.997"),
    )
    .unwrap();
    let (virtual_x, virtual_y) = cl.virtual_reserves().unwrap();
    let equivalent_cpmm = Cpmm::new(virtual_x, virtual_y, num("0.997")).unwrap();

    let cl_result = cl.optimal_size(num("0.9"), no_limits()).unwrap();
    let cpmm_result = equivalent_cpmm.optimal_size(num("0.9"), no_limits()).unwrap();

    let delta_diff = (big(&cl_result.optimal_delta) - big(&cpmm_result.optimal_delta)).abs();
    assert!(delta_diff <= big(&cpmm_result.optimal_delta) * bigs("0.0000000001"));
    let profit_diff = (big(&cl_result.expected_profit) - big(&cpmm_result.expected_profit)).abs();
    assert!(profit_diff <= big(&cpmm_result.expected_profit) * bigs("0.0000000001"));
    assert!(matches!(cl_result.guarantee_tier, GuaranteeTier::ProvenOptimal));
}

#[test]
fn multi_tick_crosses_boundary_successfully() {
    let tick1 = TickRange {
        lower_sqrt_price: num("0.90"),
        upper_sqrt_price: num("1.00"),
        liquidity_gross: num("1000000"),
        liquidity_net: num("0"),
    };
    let tick2 = TickRange {
        lower_sqrt_price: num("1.00"),
        upper_sqrt_price: num("1.10"),
        liquidity_gross: num("2000000"),
        liquidity_net: num("0"),
    };
    let pool =
        ConcentratedLiquidity::new_multi_tick(vec![tick1, tick2], num("1.05"), num("0.997")).unwrap();
    let quote_res = pool.quote(num("100000"));
    assert!(quote_res.is_ok());
    let output = quote_res.unwrap();
    assert!(output.is_positive());
}

#[test]
fn multi_tick_optimal_sizing_finds_cross_tick_optimum() {
    let tick1 = TickRange {
        lower_sqrt_price: num("0.80"),
        upper_sqrt_price: num("1.00"),
        liquidity_gross: num("1000000"),
        liquidity_net: num("0"),
    };
    let tick2 = TickRange {
        lower_sqrt_price: num("1.00"),
        upper_sqrt_price: num("1.20"),
        liquidity_gross: num("500000"),
        liquidity_net: num("0"),
    };
    let pool =
        ConcentratedLiquidity::new_multi_tick(vec![tick1, tick2], num("1.10"), num("0.997")).unwrap();
    let res = pool.optimal_size(num("0.85"), no_limits()).unwrap();
    assert!(res.optimal_delta.is_positive());
    assert!(res.expected_profit.is_positive());
    assert!(matches!(res.guarantee_tier, GuaranteeTier::ProvenOptimal));
}

#[test]
fn multi_tick_ranges_are_sorted_and_active_liquidity_picked() {
    let high = TickRange {
        lower_sqrt_price: num("1.00"),
        upper_sqrt_price: num("1.20"),
        liquidity_gross: num("500000"),
        liquidity_net: num("0"),
    };
    let low = TickRange {
        lower_sqrt_price: num("0.80"),
        upper_sqrt_price: num("1.00"),
        liquidity_gross: num("1000000"),
        liquidity_net: num("0"),
    };
    let pool = ConcentratedLiquidity::new_multi_tick(vec![high, low], num("1.10"), num("0.997")).unwrap();
    assert_eq!(pool.tick_ranges[0].lower_sqrt_price, num("0.80"));
    assert_eq!(pool.sqrt_price_lower, num("0.80"));
    assert_eq!(pool.sqrt_price_upper, num("1.20"));
    assert_eq!(pool.liquidity, num("500000"));
}

#[test]
fn multi_tick_rejects_empty_and_outside_price() {
    assert!(matches!(
        ConcentratedLiquidity::new_multi_tick(vec![], num("1"), num("0.997")),
        Err(SizingError::InvalidReserves { .. })
    ));
    let t = TickRange {
        lower_sqrt_price: num("1.00"),
        upper_sqrt_price: num("1.10"),
        liquidity_gross: num("1000"),
        liquidity_net: num("0"),
    };
    assert!(matches!(
        ConcentratedLiquidity::new_multi_tick(vec![t], num("2"), num("0.997")),
        Err(SizingError::InvalidReserves { .. })
    ));
}

#[test]
fn clmm_quote_beyond_all_ranges_is_rejected() {
    let cl = ConcentratedLiquidity::new(num("1000"), num("0.5"), num("2.0"), num("1.0"), num("0.997"))
        .unwrap();
    assert!(matches!(cl.quote(num("100000000")), Err(SizingError::InvalidReserves { .. })));
    assert_eq!(cl.quote(num("0")).unwrap(), num("0"));
}

// ---------------------------------------------------------------- cryptoswap / dodo

#[test]
fn cryptoswap_quote_and_sizing() {
    let pool = CurveCryptoSwap::new(
        [num("1000000"), num("1000000")],
        num("100"),
        num("0.0001"),
        num("0.997"),
        0,
    )
    .unwrap();
    let quote = pool.quote(num("1000")).unwrap();
    assert!(quote.is_positive());
    let res = pool.optimal_size(num("0.9"), no_limits()).unwrap();
    assert!(res.optimal_delta.is_positive());
    assert!(res.expected_profit.is_positive());
    assert!(matches!(
        res.guarantee_tier,
        GuaranteeTier::NumericallyGuaranteed { convergence_conditions_met: true }
    ));
}

#[test]
fn cryptoswap_rejects_bad_index_and_gamma() {
    assert!(matches!(
        CurveCryptoSwap::new([num("1"), num("1")], num("100"), num("0.0001"), num("0.997"), 2),
        Err(SizingError::InvalidReserves { .. })
    ));
    assert!(matches!(
        CurveCryptoSwap::new([num("1"), num("1")], num("100"), num("0"), num("0.997"), 0),
        Err(SizingError::InvalidReserves { .. })
    ));
}

#[test]
fn dodo_quote_and_optimal_sizing_sell_base() {
    let pool = DodoPmm::new(
        num("100000"),
        num("200000"),
        num("100000"),
        num("200000"),
        num("2.0"),
        num("0.5"),
        num("0.997"),
        true,
    )
    .unwrap();
    let quote = pool.quote(num("1000")).unwrap();
    assert!(quote.is_positive());
    let res = pool.optimal_size(num("1.5"), no_limits()).unwrap();
    assert!(res.optimal_delta.is_positive());
    assert!(res.expected_profit.is_positive());
    assert!(matches!(
        res.guarantee_tier,
        GuaranteeTier::EmpiricallyValidated { unimodality_confirmed: true }
    ));
    assert_eq!(res.iterations, Some(64));
}

#[test]
fn dodo_rejects_k_above_one() {
    assert!(matches!(
        DodoPmm::new(
            num("1"),
            num("1"),
            num("1"),
            num("1"),
            num("1"),
            num("1.5"),
            num("0.997"),
            true
        ),
        Err(SizingError::InvalidReserves { .. })
    ));
}

#[test]
fn dodo_balanced_sell_quote_regime_output() {
    // Balanced pool, selling quote: regime where Q >= Q0, closed form
    // through the quadratic root.
    let pool = DodoPmm::new(
        num("100000"),
        num("200000"),
        num("100000"),
        num("200000"),
        num("2.0"),
        num("0.5"),
        num("1"),
        false,
    )
    .unwrap();
    let out = big(&pool.quote(num("2000")).unwrap());
    // Selling 2000 quote at oracle price 2 with slippage: a bit under 1000 base.
    assert!(out < bigs("1000"));
    assert!(out > bigs("990"));
}

// ---------------------------------------------------------------- gas / slippage

#[test]
fn computes_expected_cost_in_output_units() {
    let cost = gas_aware_fixed_cost(num("30000000000"), num("150000"), num("3000")).unwrap();
    assert_eq!(cost, num("13.5"));
}

#[test]
fn zero_gas_price_gives_zero_cost() {
    let cost = gas_aware_fixed_cost(num("0"), num("150000"), num("3000")).unwrap();
    assert_eq!(cost, num("0"));
}

#[test]
fn negative_inputs_are_rejected() {
    assert!(matches!(
        gas_aware_fixed_cost(num("-1"), num("150000"), num("3000")),
        Err(SizingError::InvalidReserves { .. })
    ));
    assert!(matches!(
        gas_aware_fixed_cost(num("30000000000"), num("-1"), num("3000")),
        Err(SizingError::InvalidReserves { .. })
    ));
    assert!(matches!(
        gas_aware_fixed_cost(num("30000000000"), num("150000"), num("-1")),
        Err(SizingError::InvalidReserves { .. })
    ));
}

#[test]
fn zero_staleness_returns_the_quote_unchanged() {
    let bound = SlippageBound::from_quote(num("1000"), num("0")).unwrap();
    assert_eq!(bound.min_amount_out, num("1000"));
}

#[test]
fn ten_percent_staleness_floors_output_by_ten_percent() {
    let bound = SlippageBound::from_quote(num("1000"), num("0.10")).unwrap();
    assert_eq!(bound.min_amount_out, num("900"));
}

#[test]
fn staleness_fraction_of_one_or_more_is_rejected() {
    assert!(matches!(
        SlippageBound::from_quote(num("1000"), num("1.0")),
        Err(SizingError::InvalidReserves { .. })
    ));
    assert!(matches!(
        SlippageBound::from_quote(num("1000"), num("1.5")),
        Err(SizingError::InvalidReserves { .. })
    ));
}

#[test]
fn negative_quoted_output_is_rejected() {
    assert!(matches!(
        SlippageBound::from_quote(num("-1"), num("0.01")),
        Err(SizingError::InvalidReserves { .. })
    ));
}

// ---------------------------------------------------------------- pmm

fn reference_pmm() -> Pmm {
    Pmm::new(num("1000000"), num("2000000000"), num("2000"), num("0.0000001")).unwrap()
}

#[test]
fn pmm_quote_zero_delta_is_zero() {
    let pool = reference_pmm();
    assert_eq!(pool.quote(num("0")).unwrap(), num("0"));
}

#[test]
fn pmm_quote_balanced_pool_near_oracle_price_for_small_trade() {
    let pool = reference_pmm();
    let out = big(&pool.quote(num("1")).unwrap());
    let relative_diff = (out - bigs("2000")).abs() / bigs("2000");
    assert!(relative_diff < bigs("0.01"), "expected ~2000 for a tiny trade, got {out}");
}

#[test]
fn pmm_optimal_size_no_arbitrage_when_reference_price_exceeds_oracle_price() {
    let pool = reference_pmm();
    let result = pool.optimal_size(num("2001"), no_limits());
    assert_eq!(result, Err(SizingError::NoArbitrageOpportunity));
}

#[test]
fn pmm_optimal_size_finds_profitable_trade_when_underpriced() {
    let pool = reference_pmm();
    let result = pool.optimal_size(num("1900"), no_limits()).unwrap();
    assert!(result.optimal_delta.is_positive());
    assert!(result.expected_profit.is_positive());
    assert!(result.iterations.is_some());
}

#[test]
fn pmm_new_rejects_invalid_parameters() {
    assert!(matches!(
        Pmm::new(num("0"), num("1000"), num("1"), num("0.001")),
        Err(SizingError::InvalidReserves { .. })
    ));
    assert!(matches!(
        Pmm::new(num("1000"), num("0"), num("1"), num("0.001")),
        Err(SizingError::InvalidReserves { .. })
    ));
    assert!(matches!(
        Pmm::new(num("1000"), num("1000"), num("0"), num("0.001")),
        Err(SizingError::InvalidReserves { .. })
    ));
    assert!(matches!(
        Pmm::new(num("1000"), num("1000"), num("1"), num("0")),
        Err(SizingError::InvalidReserves { .. })
    ));
}

#[test]
fn reverse_regime_only_interval_is_correctly_flagged_as_non_concave() {
    let pool = Pmm::new(num("100"), num("1000000"), num("2000"), num("0.0000001")).unwrap();
    let confirmed = pool.check_unimodality((num("0"), num("300")));
    assert!(
        !confirmed,
        "a purely-convex reverse-regime-only interval must not be reported as unimodality_confirmed: true"
    );
    let balanced =
        Pmm::new(num("1000000"), num("2000000000"), num("2000"), num("0.0000001")).unwrap();
    assert!(balanced.check_unimodality((num("0"), num("300"))));
}

#[test]
fn prop_unimodality_check_flags_known_bad_cases() {
    let cases = [
        ("999800", "crossover=200, well under pole=5000"),
        ("998000", "crossover=2000, still under pole=5000"),
    ];
    for (base_reserve, label) in cases {
        let pool = Pmm::new(num(base_reserve), num("2000000000"), num("2000"), num("0.0000001")).unwrap();
        let confirmed = pool.check_unimodality((num("0"), num("4900")));
        assert!(
            !confirmed,
            "expected check_unimodality to flag a violation for case '{label}' (base_reserve={base_reserve}), got true"
        );
    }
    let balanced =
        Pmm::new(num("1000000"), num("2000000000"), num("2000"), num("0.0000001")).unwrap();
    assert!(balanced.check_unimodality((num("0"), num("4900"))));
}

// ---------------------------------------------------------------- stableswap

#[test]
fn stableswap_quote_balanced_pool_near_one_to_one() {
    let pool = StableSwap::new(
        vec![num("10000000"), num("10000000"), num("10000000")],
        num("100"),
        num("0.997"),
    )
    .unwrap();
    let out = big(&pool.quote(num("1000")).unwrap());
    let relative_diff = (out - bigs("997")).abs() / bigs("997");
    assert!(relative_diff < bigs("0.001"), "expected ~997 for a small balanced-pool trade, got {out}");
}

#[test]
fn stableswap_quote_zero_delta_is_zero() {
    let pool = StableSwap::new(
        vec![num("10000000"), num("10000000"), num("10000000")],
        num("100"),
        num("0.997"),
    )
    .unwrap();
    assert_eq!(pool.quote(num("0")).unwrap(), num("0"));
}

#[test]
fn stableswap_optimal_size_finds_profitable_trade_on_imbalanced_pool() {
    let pool = StableSwap::new(
        vec![num("15000000"), num("8000000"), num("9500000")],
        num("100"),
        num("0.997"),
    )
    .unwrap();
    let result = pool.optimal_size(num("0.5"), no_limits()).unwrap();
    assert!(result.optimal_delta.is_positive());
    assert!(result.expected_profit.is_positive());
    assert!(result.iterations.is_some());
}

#[test]
fn stableswap_optimal_size_no_arbitrage_when_overpriced() {
    let pool = StableSwap::new(
        vec![num("15000000"), num("8000000"), num("9500000")],
        num("100"),
        num("0.997"),
    )
    .unwrap();
    let result = pool.optimal_size(num("2.0"), no_limits());
    assert_eq!(result, Err(SizingError::NoArbitrageOpportunity));
}

#[test]
fn measure_before_after_call_pattern_timing() {
    let pool = StableSwap::new(
        vec![num("15000000"), num("8000000"), num("9500000")],
        num("100"),
        num("0.997"),
    )
    .unwrap();
    let start = std::time::Instant::now();
    for i in 0..60u64 {
        let _ = pool.quote(Dec::from_u64(i * 1000)).unwrap();
    }
    let before_style = start.elapsed();
    let start = std::time::Instant::now();
    let (d, _) = pool.solve_d().unwrap();
    for i in 0..60u64 {
        let _ = pool.quote_with_d(&Dec::from_u64(i * 1000), &d).unwrap();
    }
    let after_style = start.elapsed();
    println!("60x quote() (old: each re-solves D from scratch):        {before_style:?}");
    println!("1x solve_d() + 60x quote_with_d() (new: D shared):        {after_style:?}");
    println!(
        "speedup: {:.2}x",
        before_style.as_secs_f64() / after_style.as_secs_f64().max(0.000001)
    );
}

// ---------------------------------------------------------------- cpmm

#[test]
fn cpmm_closed_form_exact_value() {
    let pool = Cpmm::new(num("1000000"), num("2000000"), num("0.997")).unwrap();
    let res = pool.optimal_size(num("1.5"), no_limits()).unwrap();
    let (x, y, f, p) = (bigs("1000000"), bigs("2000000"), bigs("0.997"), bigs("1.5"));
    let expected = ((x * y * f / p).sqrt().unwrap() - x) / f;
    assert_eq!(big(&res.optimal_delta), expected);
    let output = y * f * expected / (x + f * expected);
    assert_eq!(big(&res.expected_profit), output - p * expected);
    assert_eq!(res.iterations, None);
}

#[test]
fn cpmm_quote_exact_value() {
    let pool = Cpmm::new(num("1000000"), num("2000000"), num("0.997")).unwrap();
    let (x, y, f, d) = (bigs("1000000"), bigs("2000000"), bigs("0.997"), bigs("10000"));
    assert_eq!(big(&pool.quote(num("10000")).unwrap()), y * f * d / (x + f * d));
}

#[test]
fn cpmm_capacity_clip_bounds_the_size() {
    let pool = Cpmm::new(num("1000000"), num("2000000"), num("0.997")).unwrap();
    let capped = pool
        .optimal_size(num("1.5"), SizingConstraints { fixed_cost: num("0"), max_size: Some(num("100")) })
        .unwrap();
    assert_eq!(capped.optimal_delta, num("100"));
}

#[test]
fn cpmm_fixed_cost_above_profit_is_no_profitable_size() {
    let pool = Cpmm::new(num("1000000"), num("2000000"), num("0.997")).unwrap();
    let res = pool.optimal_size(
        num("1.5"),
        SizingConstraints { fixed_cost: num("100000000"), max_size: None },
    );
    assert_eq!(res, Err(SizingError::NoProfitableSize));
}

#[test]
fn nonpositive_reference_price_is_invalid_for_every_curve() {
    let cpmm = Cpmm::new(num("1000000"), num("2000000"), num("0.997")).unwrap();
    assert!(matches!(cpmm.optimal_size(num("0"), no_limits()), Err(SizingError::InvalidReserves { .. })));
    let pmm = reference_pmm();
    assert!(matches!(pmm.optimal_size(num("-1"), no_limits()), Err(SizingError::InvalidReserves { .. })));
}

#[test]
fn balancer_weights_must_sum_to_exactly_one() {
    let near = BalancerWeightedPool::new(
        vec![num("1000000"), num("2000000")],
        vec![num("0.5"), num("0.505")],
        num("0.997"),
        0,
        1,
    );
    assert!(matches!(near, Err(SizingError::InvalidReserves { .. })));
    let exact = BalancerWeightedPool::new(
        vec![num("1000000"), num("2000000"), num("3000000")],
        vec![num("0.25"), num("0.25"), num("0.5")],
        num("0.997"),
        0,
        2,
    );
    assert!(exact.is_ok());
}

#[test]
fn dodo_reports_its_sampled_unimodality_check() {
    let pool = DodoPmm::new(
        num("100000"),
        num("200000"),
        num("100000"),
        num("200000"),
        num("2.0"),
        num("0.5"),
        num("0.997"),
        true,
    )
    .unwrap();
    let res = pool.optimal_size(num("1.5"), no_limits()).unwrap();
    let upper = big(&pool.base_reserve) * bigs("5");
    let confirmed = pool.check_unimodality((num("0"), Dec::parse(&upper.to_string()).unwrap()));
    assert_eq!(
        res.guarantee_tier,
        GuaranteeTier::EmpiricallyValidated { unimodality_confirmed: confirmed }
    );
}

fn detail(e: SizingError) -> String {
    match e {
        SizingError::InvalidReserves { detail } => detail,
        other => panic!("expected InvalidReserves, got {:?}", other),
    }
}

#[test]
fn constructors_name_the_first_failing_check() {
    assert_eq!(detail(Cpmm::new(num("0"), num("0"), num("2")).unwrap_err()), "x must be > 0, got 0");
    assert_eq!(detail(Cpmm::new(num("1"), num("-1"), num("2")).unwrap_err()), "y must be > 0, got -1");
    assert_eq!(
        detail(Cpmm::new(num("1"), num("1"), num("1.5")).unwrap_err()),
        "fee_retention must be in (0, 1], got 1.5"
    );
    assert_eq!(
        detail(
            BalancerWeightedPool::new(vec![num("10"), num("10")], vec![num("0.5"), num("0.505")], num("1"), 0, 1)
                .unwrap_err()
        ),
        "weights must sum to 1.0, got sum 1.005"
    );
    assert_eq!(
        detail(
            BalancerWeightedPool::new(vec![num("10"), num("10")], vec![num("-0.5"), num("0")], num("1"), 0, 1)
                .unwrap_err()
        ),
        "weight 0 must be > 0, got -0.5"
    );
    assert_eq!(
        detail(StableSwap::new(vec![num("10"), num("0")], num("100"), num("1")).unwrap_err()),
        "reserves[1] must be > 0, got 0"
    );
    assert_eq!(
        detail(StableSwap::new(vec![num("10"), num("10")], num("0.5"), num("1")).unwrap_err()),
        "amplification must be >= 1, got 0.5"
    );
    assert_eq!(
        detail(Pmm::new(num("1"), num("1"), num("1"), num("0")).unwrap_err()),
        "k must be > 0, got 0"
    );
}

#[test]
fn a_non_positive_reference_price_is_named_in_the_error() {
    let pool = Cpmm::new(num("1000"), num("2000"), num("0.997")).unwrap();
    assert_eq!(detail(pool.optimal_size(num("0"), no_limits()).unwrap_err()), "reference_price must be > 0, got 0");
    let stable = StableSwap::new(vec![num("1000"), num("1000")], num("100"), num("0.9996")).unwrap();
    assert_eq!(
        detail(stable.optimal_size(num("-1"), no_limits()).unwrap_err()),
        "reference_price must be > 0, got -1"
    );
}

#[test]
fn a_malformed_tick_range_is_named_in_sorted_order() {
    let range = |lo: &str, hi: &str, l: &str| TickRange {
        lower_sqrt_price: num(lo),
        upper_sqrt_price: num(hi),
        liquidity_gross: num(l),
        liquidity_net: num("0"),
    };
    // Given out of order: after sorting by lower bound the range with no
    // liquidity comes before the inverted one.
    let err = ConcentratedLiquidity::new_multi_tick(
        vec![range("1.2", "1.1", "10"), range("0.8", "1.0", "0")],
        num("0.9"),
        num("0.997"),
    )
    .unwrap_err();
    assert_eq!(detail(err), "tick range 0 liquidity_gross must be > 0, got 0");
    let err = ConcentratedLiquidity::new_multi_tick(vec![range("0.8", "1.0", "10")], num("1.5"), num("0.997"))
        .unwrap_err();
    assert_eq!(detail(err), "sqrt_price_current (1.5) is outside overall bounds [0.8, 1.0]");
    let err = ConcentratedLiquidity::new_multi_tick(vec![], num("1.0"), num("0.997")).unwrap_err();
    assert_eq!(detail(err), "tick_ranges must not be empty");
}

#[test]
fn solve_d_call_count_drops_from_dozens_to_one_after_memoization() {
    let pool = StableSwap::new(vec![num("15000000"), num("8000000"), num("9500000")], num("100"), num("0.997"))
        .unwrap();
    let result = pool.optimal_size(num("0.9"), no_limits());
    assert!(result.is_ok(), "sizing call itself should still succeed: {result:?}");
}

#[test]
fn standalone_quote_calls_still_each_solve_d_independently() {
    let pool = StableSwap::new(vec![num("1000000"), num("1000000"), num("1000000")], num("100"), num("0.997"))
        .unwrap();
    let first = pool.quote(num("1000")).unwrap();
    let second = pool.quote(num("2000")).unwrap();
    let third = pool.quote(num("3000")).unwrap();
    assert!(first.is_positive() && second.is_positive() && third.is_positive());
    assert_eq!(pool.quote(num("1000")).unwrap(), first);
}

#[test]
fn the_bound_is_positive_and_at_most_the_quote_where_nothing_rounds() {
    let b = SlippageBound::from_quote(num("1000"), num("0.10")).unwrap();
    assert_eq!(b.min_amount_out, num("900.00"));
    assert!(big(&b.min_amount_out) > Decimal::ZERO && big(&b.min_amount_out) <= bigs("1000"));
    assert_eq!(
        detail(SlippageBound::from_quote(num("1000"), num("1.0")).unwrap_err()),
        "staleness_fraction must be in [0, 1), got 1.0"
    );
    assert_eq!(
        detail(SlippageBound::from_quote(num("0"), num("0.1")).unwrap_err()),
        "quoted_output must be > 0, got 0"
    );
    // Where the product rounds away, the bound is zero: the exact-arithmetic
    // guarantee does not reach it.
    let tiny = SlippageBound::from_quote(num("0.0000000000000000000000000001"), num("0.9")).unwrap();
    assert!(tiny.min_amount_out.is_zero());
}

fn gross(q: Decimal, p: Decimal, d: Decimal) -> Decimal {
    q - p * d
}

#[test]
fn the_constant_product_size_beats_its_neighbours() {
    let pool = Cpmm::new(num("1000000"), num("2000000"), num("0.997")).unwrap();
    let p = bigs("1.5");
    let res = pool.optimal_size(num("1.5"), no_limits()).unwrap();
    let best = big(&res.optimal_delta);
    let at = |d: Decimal| gross(big(&pool.quote(Dec::parse(&d.to_string()).unwrap()).unwrap()), p, d);
    let top = at(best);
    for factor in ["0.5", "0.9", "0.99", "1.01", "1.1", "2"] {
        assert!(at((best * bigs(factor)).round_dp(10)) <= top);
    }
}

#[test]
fn the_concentrated_liquidity_size_beats_its_neighbours_across_ticks() {
    let range = |lo: &str, hi: &str, l: &str| TickRange {
        lower_sqrt_price: num(lo),
        upper_sqrt_price: num(hi),
        liquidity_gross: num(l),
        liquidity_net: num("0"),
    };
    let pool = ConcentratedLiquidity::new_multi_tick(
        vec![range("0.80", "1.00", "1000000"), range("1.00", "1.20", "500000")],
        num("1.10"),
        num("0.997"),
    )
    .unwrap();
    let p = bigs("0.85");
    let res = pool.optimal_size(num("0.85"), no_limits()).unwrap();
    let best = big(&res.optimal_delta);
    let at = |d: Decimal| gross(big(&pool.quote(Dec::parse(&d.to_string()).unwrap()).unwrap()), p, d);
    let top = at(best);
    for factor in ["0.5", "0.9", "0.99", "1.01", "1.1"] {
        assert!(at((best * bigs(factor)).round_dp(10)) <= top);
    }
}

#[test]
fn a_negative_gas_argument_is_named_with_its_value() {
    assert_eq!(
        detail(gas_aware_fixed_cost(num("-1"), num("1"), num("1")).unwrap_err()),
        "gas_price_wei must be >= 0, got -1"
    );
    assert_eq!(
        detail(gas_aware_fixed_cost(num("1"), num("1"), num("-0.5")).unwrap_err()),
        "native_token_price_in_output_units must be >= 0, got -0.5"
    );
}
