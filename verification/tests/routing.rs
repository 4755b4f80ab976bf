use optimal_sizing::cli::{default_output_index, default_true, tier_line, LegSpec};
use optimal_sizing::curves::{BalancerWeightedPool, ConcentratedLiquidity, Cpmm};
use optimal_sizing::watch::engine::tier_display;
use optimal_sizing::{
    Dec, GuaranteeTier, Leg, PricingCurve, Route, SizingAlgorithm, SizingConstraints, SizingError,
};

fn rnum(s: &str) -> Dec {
    Dec::parse(s).unwrap()
}

fn free() -> SizingConstraints {
    SizingConstraints { fixed_cost: rnum("0"), max_size: None }
}

#[test]
fn heterogeneous_3_hop_route_cpmm_balancer_clmm() {
    let leg1 = Leg::Cpmm(Cpmm::new(rnum("1000000"), rnum("2000000"), rnum("0.997")).unwrap());
    let leg2 = Leg::BalancerWeighted(
        BalancerWeightedPool::new(
            vec![rnum("2000000"), rnum("1500000")],
            vec![rnum("0.5"), rnum("0.5")],
            rnum("0.997"),
            0,
            1,
        )
        .unwrap(),
    );
    let leg3 = Leg::ConcentratedLiquidity(
        ConcentratedLiquidity::new(
            rnum("5000000"),
            rnum("0.5"),
            rnum("2.0"),
            rnum("1.0"),
            rnum("0.997"),
        )
        .unwrap(),
    );
    let route = Route::new_multi_hop(vec![leg1, leg2, leg3]).unwrap();
    let res = route.optimal_size(rnum("1.0"), free()).unwrap();
    assert!(res.optimal_delta.is_positive());
    assert!(res.expected_profit.is_positive());
    if let GuaranteeTier::ComposedFrom(tiers) = res.guarantee_tier {
        assert_eq!(tiers.len(), 3);
    } else {
        panic!("expected ComposedFrom tier");
    }
}

#[test]
fn route_needs_two_legs() {
    let leg = Leg::Cpmm(Cpmm::new(rnum("1000"), rnum("2000"), rnum("0.997")).unwrap());
    assert!(matches!(Route::new_multi_hop(vec![leg]), Err(SizingError::InvalidReserves { .. })));
}

#[test]
fn route_output_composes_leg_quotes() {
    let a = Cpmm::new(rnum("1000000"), rnum("2000000"), rnum("0.997")).unwrap();
    let b = Cpmm::new(rnum("2000000"), rnum("1000000"), rnum("0.997")).unwrap();
    let mid = a.quote(rnum("1000")).unwrap();
    let expected = b.quote(mid).unwrap();
    let route = Route::new(Leg::Cpmm(a), Leg::Cpmm(b));
    assert_eq!(route.route_output(rnum("1000")).unwrap(), expected);
    assert!(route.route_output(rnum("-2000000")).is_none());
    assert!(matches!(route.leg1(), Leg::Cpmm(_)));
    assert!(matches!(route.leg2(), Leg::Cpmm(_)));
}

#[test]
fn route_without_mispricing_is_no_arbitrage() {
    let a = Cpmm::new(rnum("1000000"), rnum("1000000"), rnum("0.997")).unwrap();
    let b = Cpmm::new(rnum("1000000"), rnum("1000000"), rnum("0.997")).unwrap();
    let route = Route::new(Leg::Cpmm(a), Leg::Cpmm(b));
    assert_eq!(route.optimal_size(rnum("1"), free()), Err(SizingError::NoArbitrageOpportunity));
    assert!(matches!(route.optimal_size(rnum("0"), free()), Err(SizingError::InvalidReserves { .. })));
}

#[test]
fn two_cpmm_route_tiers_are_each_legs_own() {
    let a = Cpmm::new(rnum("1000000"), rnum("2000000"), rnum("0.997")).unwrap();
    let b = Cpmm::new(rnum("2000000"), rnum("3000000"), rnum("0.997")).unwrap();
    let route = Route::new(Leg::Cpmm(a), Leg::Cpmm(b));
    let res = route.optimal_size(rnum("1.0"), free()).unwrap();
    assert_eq!(
        res.guarantee_tier,
        GuaranteeTier::ComposedFrom(vec![GuaranteeTier::ProvenOptimal, GuaranteeTier::ProvenOptimal])
    );
    assert!(res.iterations.is_some());
    assert_eq!(
        tier_display(&res.guarantee_tier),
        "ComposedFrom([ProvenOptimal, ProvenOptimal])"
    );
}

#[test]
fn leg_diagnostic_tier_of_a_cpmm_is_proven_optimal() {
    let leg = Leg::Cpmm(Cpmm::new(rnum("1000000"), rnum("2000000"), rnum("0.997")).unwrap());
    assert_eq!(leg.diagnostic_tier(), Ok(GuaranteeTier::ProvenOptimal));
}

#[test]
fn tier_text_matches_debug_like_display() {
    assert_eq!(tier_display(&GuaranteeTier::ProvenOptimal), "ProvenOptimal");
    assert_eq!(
        tier_line(&GuaranteeTier::NumericallyGuaranteed { convergence_conditions_met: true }),
        "NumericallyGuaranteed { convergence_conditions_met: true }"
    );
    assert_eq!(
        tier_display(&GuaranteeTier::EmpiricallyValidated { unimodality_confirmed: false }),
        "EmpiricallyValidated { unimodality_confirmed: false }"
    );
    assert_eq!(tier_display(&GuaranteeTier::ComposedFrom(vec![])), "ComposedFrom([])");
}

#[test]
fn leg_spec_builds_or_rejects() {
    let spec = LegSpec::Cpmm { x: rnum("1000"), y: rnum("2000"), fee: rnum("0.997") };
    assert!(matches!(spec.to_leg(), Ok(Leg::Cpmm(_))));
    let bad = LegSpec::Cryptoswap {
        reserves: vec![rnum("1"), rnum("2"), rnum("3")],
        a: rnum("100"),
        gamma: rnum("0.0001"),
        fee: rnum("0.997"),
        input_index: 0,
    };
    assert!(matches!(bad.to_leg(), Err(SizingError::InvalidReserves { .. })));
    let bad_fee = LegSpec::Cpmm { x: rnum("1000"), y: rnum("2000"), fee: rnum("1.5") };
    assert!(matches!(bad_fee.to_leg(), Err(SizingError::InvalidReserves { .. })));
    assert_eq!(default_output_index(), 1);
    assert!(default_true());
}

fn as_decimal(d: &Dec) -> rust_decimal::Decimal {
    rust_decimal::Decimal::from_i128_with_scale(d.mantissa(), d.scale())
}

#[test]
fn joined_route_output_is_its_parts_in_turn() {
    let pool = |x: &str, y: &str| Cpmm::new(rnum(x), rnum(y), rnum("0.997")).unwrap();
    let joined = Route::new_multi_hop(vec![
        Leg::Cpmm(pool("1000000", "2000000")),
        Leg::Cpmm(pool("2000000", "1500000")),
        Leg::Cpmm(pool("1500000", "1100000")),
    ])
    .unwrap();
    let first = Route::new(Leg::Cpmm(pool("1000000", "2000000")), Leg::Cpmm(pool("2000000", "1500000")));
    let mid = first.route_output(rnum("2500")).unwrap();
    let expected = pool("1500000", "1100000").quote(mid).unwrap();
    assert_eq!(joined.route_output(rnum("2500")).unwrap(), expected);
}

#[test]
fn a_fixed_cost_shifts_the_profit_and_keeps_the_size() {
    let pool = Cpmm::new(rnum("1000000"), rnum("2000000"), rnum("0.997")).unwrap();
    let without = pool.optimal_size(rnum("1.0"), free()).unwrap();
    let with = pool
        .optimal_size(rnum("1.0"), SizingConstraints { fixed_cost: rnum("25"), max_size: None })
        .unwrap();
    assert_eq!(with.optimal_delta, without.optimal_delta);
    assert_eq!(
        as_decimal(&without.expected_profit) - as_decimal(&with.expected_profit),
        rust_decimal::Decimal::from(25)
    );
}

#[test]
fn a_refused_leg_spec_carries_the_constructors_detail() {
    let bad = LegSpec::Cryptoswap {
        reserves: vec![rnum("1"), rnum("2"), rnum("3")],
        a: rnum("100"),
        gamma: rnum("0.0001"),
        fee: rnum("0.997"),
        input_index: 0,
    };
    assert_eq!(
        bad.to_leg().unwrap_err(),
        SizingError::InvalidReserves { detail: "CryptoSwap requires exactly 2 reserves, got 3".to_string() }
    );
    let bad_fee = LegSpec::Cpmm { x: rnum("1000"), y: rnum("2000"), fee: rnum("1.5") };
    assert_eq!(
        bad_fee.to_leg().unwrap_err(),
        Cpmm::new(rnum("1000"), rnum("2000"), rnum("1.5")).unwrap_err()
    );
    let route = Route::new_multi_hop(vec![]).unwrap_err();
    assert_eq!(
        route,
        SizingError::InvalidReserves { detail: "route must contain at least 2 legs, got 0".to_string() }
    );
}

#[test]
fn a_capped_route_size_stays_within_the_cap() {
    let a = Cpmm::new(rnum("1000000"), rnum("2000000"), rnum("0.997")).unwrap();
    let b = Cpmm::new(rnum("2000000"), rnum("3000000"), rnum("0.997")).unwrap();
    let route = Route::new(Leg::Cpmm(a), Leg::Cpmm(b));
    let cap = rnum("1000");
    let res = route
        .optimal_size(rnum("1.0"), SizingConstraints { fixed_cost: rnum("0"), max_size: Some(rnum("1000")) })
        .unwrap();
    assert!(res.optimal_delta.is_positive());
    assert!(as_decimal(&res.optimal_delta) <= as_decimal(&cap));
}
