use optimal_sizing::error::{error_text, py_error_text, wasm_error_text};
use optimal_sizing::text::u128_text;
use optimal_sizing::wasm::{
    balancer_optimal_size, clmm_optimal_size, cpmm_optimal_size, err_result, parse_decimal,
    parse_decimal_quoting,
    pmm_optimal_size, stableswap_optimal_size, tier_tag,
};
use optimal_sizing::{Dec, GuaranteeTier, SizingError};

fn strings(xs: &[&str]) -> Vec<String> {
    xs.iter().map(|s| s.to_string()).collect()
}

#[test]
fn integer_text_matches_to_string() {
    for n in [0u128, 7, 10, 99, 100, 12345, u64::MAX as u128, u128::MAX] {
        assert_eq!(u128_text(n), n.to_string());
    }
}

#[test]
fn error_text_matches_debug_format() {
    let e = SizingError::InvalidReserves { detail: "x must be > 0".to_string() };
    assert_eq!(error_text(&e), format!("{e:?}"));
    let e = SizingError::DidNotConverge { iterations_attempted: 64 };
    assert_eq!(error_text(&e), "DidNotConverge { iterations_attempted: 64 }");
    assert_eq!(error_text(&SizingError::NoProfitableSize), "NoProfitableSize");
    assert_eq!(error_text(&SizingError::NoArbitrageOpportunity), "NoArbitrageOpportunity");
    let quoted = SizingError::InvalidReserves { detail: "say \"hi\"".to_string() };
    assert_eq!(error_text(&quoted), format!("{quoted:?}"));
}

#[test]
fn tier_tags_name_the_variant() {
    assert_eq!(tier_tag(&GuaranteeTier::ProvenOptimal), "ProvenOptimal");
    assert_eq!(
        tier_tag(&GuaranteeTier::NumericallyGuaranteed { convergence_conditions_met: false }),
        "NumericallyGuaranteed"
    );
    assert_eq!(
        tier_tag(&GuaranteeTier::EmpiricallyValidated { unimodality_confirmed: true }),
        "EmpiricallyValidated"
    );
    assert_eq!(tier_tag(&GuaranteeTier::ComposedFrom(vec![])), "ComposedFrom");
}

#[test]
fn parse_reports_the_field() {
    assert_eq!(parse_decimal("1.25", "x").unwrap(), Dec::parse("1.25").unwrap());
    let err = parse_decimal("abc", "x").unwrap_err();
    assert!(err.starts_with("invalid x: "));
    assert!(err.len() > "invalid x: ".len());
}

#[test]
fn cpmm_entry_point_reports_text() {
    let r = cpmm_optimal_size("1000000", "2000000", "0.997", "1.5", "0", None);
    assert!(r.ok());
    assert_eq!(r.guarantee_tier(), "ProvenOptimal");
    assert_eq!(r.iterations(), -1);
    assert_eq!(r.error(), "");
    assert!(!r.optimal_delta().is_empty());
    let capped = cpmm_optimal_size("1000000", "2000000", "0.997", "1.5", "0", Some("10".into()));
    assert!(capped.ok());
    assert_eq!(capped.optimal_delta(), "10");
    let bad = cpmm_optimal_size("1000000", "oops", "0.997", "1.5", "0", None);
    assert!(!bad.ok());
    assert!(bad.error().starts_with("invalid y: "));
    assert_eq!(bad.optimal_delta(), "");
    let refused = cpmm_optimal_size("0", "2000000", "0.997", "1.5", "0", None);
    assert!(!refused.ok());
    assert!(refused.error().starts_with("InvalidReserves: "));
    let none = cpmm_optimal_size("1000000", "2000000", "0.997", "2.5", "0", None);
    assert_eq!(none.error(), "NoArbitrageOpportunity");
    assert_eq!(none.iterations(), -1);
}

#[test]
fn other_entry_points_size_their_pools() {
    let s = stableswap_optimal_size(
        strings(&["1000000", "1000000"]),
        "100",
        "0.9996",
        "0.99",
        "0",
        None,
    );
    assert!(s.ok(), "{}", s.error());
    assert_eq!(s.guarantee_tier(), "NumericallyGuaranteed");
    assert!(s.iterations() >= 0);
    let bad = stableswap_optimal_size(strings(&["1000000", "x"]), "100", "0.9996", "0.99", "0", None);
    assert!(bad.error().starts_with("invalid reserves[i]: "));

    let p = pmm_optimal_size("1000000", "2000000000", "2000", "0.0000001", "1900", "0", None);
    assert!(p.ok(), "{}", p.error());
    assert_eq!(p.guarantee_tier(), "EmpiricallyValidated");

    let c = clmm_optimal_size("5000000", "0.5", "2.0", "1.0", "0.997", "0.9", "0", None);
    assert!(c.ok(), "{}", c.error());
    assert_eq!(c.guarantee_tier(), "ProvenOptimal");

    let b = balancer_optimal_size(
        strings(&["1000000", "2000000"]),
        strings(&["0.8", "0.2"]),
        "0.997",
        0,
        1,
        "0.6",
        "0",
        None,
    );
    assert!(b.ok(), "{}", b.error());
    let same_index = balancer_optimal_size(
        strings(&["1000000", "2000000"]),
        strings(&["0.8", "0.2"]),
        "0.997",
        0,
        0,
        "0.6",
        "0",
        None,
    );
    assert!(same_index.error().starts_with("InvalidReserves"));
}

#[test]
fn failure_record_is_empty_but_for_the_error() {
    let r = err_result("boom".to_string());
    assert!(!r.ok());
    assert_eq!(r.error(), "boom");
    assert_eq!(r.expected_profit(), "");
    assert_eq!(r.guarantee_tier(), "");
    assert_eq!(r.iterations(), -1);
}

#[test]
fn quoting_parse_names_the_text() {
    assert_eq!(parse_decimal_quoting("2.5", "k").unwrap(), Dec::parse("2.5").unwrap());
    let err = parse_decimal_quoting("two", "k").unwrap_err();
    assert!(err.starts_with("invalid k \"two\": "), "{err}");
}

#[test]
fn binding_error_messages_follow_the_catalog() {
    let invalid = SizingError::InvalidReserves { detail: "x must be > 0".to_string() };
    let stuck = SizingError::DidNotConverge { iterations_attempted: 3 };
    assert_eq!(py_error_text(&invalid), "invalid reserves: x must be > 0");
    assert_eq!(py_error_text(&stuck), "solver failed to converge after 3 iterations");
    assert_eq!(
        py_error_text(&SizingError::NoProfitableSize),
        "NoProfitableSize: trade cannot clear fixed cost threshold"
    );
    assert_eq!(
        py_error_text(&SizingError::NoArbitrageOpportunity),
        "NoArbitrageOpportunity: pool price is not mispriced relative to reference price"
    );
    assert_eq!(wasm_error_text(&invalid), "InvalidReserves: x must be > 0");
    assert_eq!(wasm_error_text(&stuck), "DidNotConverge");
    assert_eq!(wasm_error_text(&SizingError::NoProfitableSize), "NoProfitableSize");
}
