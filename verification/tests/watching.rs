use optimal_sizing::watch::cache::{PoolCache, PoolState, SyncStatus};
use optimal_sizing::watch::config::{default_gas_units, default_one, PoolConfig, RouteConfig, WatchConfig};
use optimal_sizing::watch::engine::{build_leg, evaluate_opportunities, try_evaluate_opportunities};
use optimal_sizing::{Dec, Leg};

fn wnum(s: &str) -> Dec {
    Dec::parse(s).unwrap()
}

fn state(id: &str, block: u64, reserves: Vec<Dec>) -> PoolState {
    PoolState {
        pool_id: id.to_string(),
        last_block_number: block,
        reserves,
        sqrt_price_current: Some(Dec::one()),
        timestamp_ms: 0,
    }
}

fn pool_config(id: &str, curve_type: &str) -> PoolConfig {
    PoolConfig {
        id: id.to_string(),
        address: "0x0".to_string(),
        curve_type: curve_type.to_string(),
        fee_retention: wnum("0.997"),
        amplification: None,
        gamma: None,
        weights: None,
        input_token_index: 0,
        output_token_index: default_one(),
    }
}

#[test]
fn heads_in_sequence_stay_synchronized() {
    let mut cache = PoolCache::new();
    assert_eq!(cache.latest_block(), 0);
    assert!(cache.handle_new_head(100, "0xa".to_string(), "0x9".to_string()));
    assert!(cache.handle_new_head(101, "0xb".to_string(), "0xa".to_string()));
    assert_eq!(cache.latest_block(), 101);
    assert_eq!(cache.sync_status(), SyncStatus::Synchronized);
}

#[test]
fn a_gap_marks_the_cache_stale() {
    let mut cache = PoolCache::new();
    cache.handle_new_head(100, "0xa".to_string(), "0x9".to_string());
    assert!(!cache.handle_new_head(105, "0xf".to_string(), "0xe".to_string()));
    assert_eq!(cache.latest_block(), 105);
    assert_eq!(cache.sync_status(), SyncStatus::Stale);
    assert!(cache.handle_new_head(106, "0x10".to_string(), "0xf".to_string()));
    assert_eq!(cache.sync_status(), SyncStatus::Synchronized);
}

#[test]
fn a_reorg_marks_the_cache_stale() {
    let mut cache = PoolCache::new();
    cache.handle_new_head(100, "0xa".to_string(), "0x9".to_string());
    assert!(!cache.handle_new_head(101, "0xb".to_string(), "0xother".to_string()));
    assert_eq!(cache.sync_status(), SyncStatus::Stale);
    assert_eq!(cache.latest_block(), 101);
}

#[test]
fn old_or_repeated_heads_change_nothing() {
    let mut cache = PoolCache::new();
    cache.handle_new_head(100, "0xa".to_string(), "0x9".to_string());
    cache.handle_new_head(102, "0xc".to_string(), "0xb".to_string());
    assert!(!cache.handle_new_head(101, "0xb".to_string(), "0xa".to_string()));
    assert!(!cache.handle_new_head(102, "0xc".to_string(), "0xb".to_string()));
    assert_eq!(cache.latest_block(), 102);
    assert_eq!(cache.sync_status(), SyncStatus::Stale);
}

#[test]
fn get_after_update_returns_the_state() {
    let mut cache = PoolCache::new();
    assert!(cache.get_pool("p").is_none());
    cache.update_pool(state("p", 7, vec![wnum("1"), wnum("2")]));
    cache.update_pool(state("q", 8, vec![wnum("3")]));
    cache.update_pool(state("p", 9, vec![wnum("5"), wnum("6")]));
    let p = cache.get_pool("p").unwrap();
    assert_eq!(p.last_block_number, 9);
    assert_eq!(p.reserves, vec![wnum("5"), wnum("6")]);
    assert_eq!(cache.get_pool("q").unwrap().last_block_number, 8);
    assert_eq!(SyncStatus::default_status(), SyncStatus::Synchronized);
}

#[test]
fn build_leg_ignores_case_and_rejects_unknown_types() {
    let reserves = vec![wnum("1000000"), wnum("2000000")];
    let upper = pool_config("a", "CPMM");
    assert!(matches!(build_leg(&upper, &reserves, None), Some(Leg::Cpmm(_))));
    let unknown = pool_config("b", "uniswap");
    assert!(build_leg(&unknown, &reserves, None).is_none());
    let short = pool_config("c", "cpmm");
    assert!(build_leg(&short, &reserves[..1], None).is_none());
    let clmm = pool_config("d", "clmm");
    assert!(matches!(build_leg(&clmm, &reserves, Some(wnum("1"))), Some(Leg::ConcentratedLiquidity(_))));
    let balancer = pool_config("e", "Balancer");
    assert!(matches!(build_leg(&balancer, &reserves, None), Some(Leg::BalancerWeighted(_))));
    assert_eq!(default_gas_units(), 150000);
}

#[test]
fn evaluation_reports_the_mispriced_pool() {
    let config = WatchConfig {
        ws_rpc_url: "wss://example".to_string(),
        oracle_ws_url: None,
        min_profit_usd: wnum("5"),
        default_fixed_cost_gas_units: 150000,
        pools: vec![pool_config("cheap", "cpmm"), pool_config("missing", "cpmm")],
        routes: vec![RouteConfig { id: "r".to_string(), legs: vec!["cheap".to_string(), "missing".to_string()] }],
    };
    let mut cache = PoolCache::new();
    cache.handle_new_head(1, "0x1".to_string(), "0x0".to_string());
    cache.update_pool(state("cheap", 1, vec![wnum("1000000"), wnum("2000000")]));
    let events = evaluate_opportunities(&config, &cache, wnum("1.5"), wnum("20"), 42);
    assert_eq!(events.len(), 1);
    let ev = &events[0];
    assert_eq!(ev.event, "OPPORTUNITY_DETECTED");
    assert_eq!(ev.target, "cheap");
    assert_eq!(ev.timestamp_ns, 42);
    assert_eq!(ev.block_number, 1);
    assert_eq!(ev.guarantee_tier, "ProvenOptimal");
    assert_eq!(ev.reference_price, "1.5");
    assert_eq!(ev.gas_cost_usd, "9.000000000");
}

#[test]
fn checked_evaluation_refuses_what_cannot_be_evaluated() {
    let mut bad_index = pool_config("wide", "cpmm");
    bad_index.output_token_index = 5;
    let config = WatchConfig {
        ws_rpc_url: "wss://example".to_string(),
        oracle_ws_url: None,
        min_profit_usd: wnum("5"),
        default_fixed_cost_gas_units: 150000,
        pools: vec![pool_config("cheap", "cpmm"), bad_index],
        routes: vec![],
    };
    let mut cache = PoolCache::new();
    cache.update_pool(state("cheap", 1, vec![wnum("1000000"), wnum("2000000")]));
    let events = try_evaluate_opportunities(&config, &cache, wnum("1.5"), wnum("20"), 7).unwrap();
    assert_eq!(events.len(), 1);
    assert_eq!(events[0].target, "cheap");
    cache.update_pool(state("wide", 1, vec![wnum("1000000"), wnum("2000000")]));
    assert!(try_evaluate_opportunities(&config, &cache, wnum("1.5"), wnum("20"), 7).is_none());
    let huge_gas = Dec::parse("79228162514264337593543950335").unwrap();
    let mut small = PoolCache::new();
    small.update_pool(state("cheap", 1, vec![wnum("1000000"), wnum("2000000")]));
    assert!(try_evaluate_opportunities(&config, &small, wnum("1.5"), huge_gas, 7).is_none());
}

#[test]
fn evaluation_reports_a_profitable_route() {
    let config = WatchConfig {
        ws_rpc_url: "wss://example".to_string(),
        oracle_ws_url: None,
        min_profit_usd: wnum("5"),
        default_fixed_cost_gas_units: 150000,
        pools: vec![pool_config("a", "cpmm"), pool_config("b", "cpmm")],
        routes: vec![RouteConfig { id: "ab".to_string(), legs: vec!["a".to_string(), "b".to_string()] }],
    };
    let mut cache = PoolCache::new();
    cache.handle_new_head(3, "0x3".to_string(), "0x2".to_string());
    cache.update_pool(state("a", 2, vec![wnum("1000000"), wnum("2000000")]));
    cache.update_pool(state("b", 1, vec![wnum("1000000"), wnum("2000000")]));
    let events = evaluate_opportunities(&config, &cache, wnum("1.5"), wnum("20"), 9);
    assert_eq!(events.len(), 3);
    assert_eq!(events[0].target, "a");
    assert_eq!(events[1].target, "b");
    let route = &events[2];
    assert_eq!(route.target, "ab");
    assert_eq!(route.guarantee_tier, "ComposedFrom([ProvenOptimal, ProvenOptimal])");
    assert_eq!(route.pool_state_block, 1);
    assert_eq!(route.block_number, 3);
}

#[test]
fn a_reorg_evicts_the_pool_cache() {
    let mut cache = PoolCache::new();
    cache.handle_new_head(100, "0xa".to_string(), "0x9".to_string());
    cache.update_pool(state("p", 100, vec![wnum("1"), wnum("2")]));
    assert!(!cache.handle_new_head(101, "0xb".to_string(), "0xother".to_string()));
    assert!(cache.get_pool("p").is_none());
    let mut gap = PoolCache::new();
    gap.handle_new_head(100, "0xa".to_string(), "0x9".to_string());
    gap.update_pool(state("p", 100, vec![wnum("1"), wnum("2")]));
    assert!(!gap.handle_new_head(105, "0xf".to_string(), "0xe".to_string()));
    assert!(gap.get_pool("p").is_some());
}

#[test]
fn a_stale_cache_reports_nothing() {
    let config = WatchConfig {
        ws_rpc_url: "wss://example".to_string(),
        oracle_ws_url: None,
        min_profit_usd: wnum("5"),
        default_fixed_cost_gas_units: 150000,
        pools: vec![pool_config("cheap", "cpmm")],
        routes: vec![],
    };
    let mut cache = PoolCache::new();
    cache.handle_new_head(1, "0x1".to_string(), "0x0".to_string());
    cache.update_pool(state("cheap", 1, vec![wnum("1000000"), wnum("2000000")]));
    assert_eq!(evaluate_opportunities(&config, &cache, wnum("1.5"), wnum("20"), 1).len(), 1);
    cache.handle_new_head(5, "0x5".to_string(), "0x4".to_string());
    assert_eq!(cache.sync_status(), SyncStatus::Stale);
    assert!(evaluate_opportunities(&config, &cache, wnum("1.5"), wnum("20"), 1).is_empty());
}
