//! The watcher's configuration.
use crate::decimal::Dec;
use vstd::prelude::*;

verus! {

/// Gas units charged per execution when the configuration names none.
pub const DEFAULT_GAS_UNITS: u64 = 150000;

/// The daemon's configuration.
#[derive(Debug)]
pub struct WatchConfig {
    /// WebSocket RPC endpoint URL.
    pub ws_rpc_url: String,
    /// Reference price oracle WebSocket URL.
    pub oracle_ws_url: Option<String>,
    /// Minimum expected profit, in USD, for an opportunity to be reported.
    pub min_profit_usd: Dec,
    /// Fixed execution cost in gas units.
    pub default_fixed_cost_gas_units: u64,
    /// Watched pools.
    pub pools: Vec<PoolConfig>,
    /// Watched multi-hop routes.
    pub routes: Vec<RouteConfig>,
}

/// The gas units of an execution when the configuration names none.
pub fn default_gas_units() -> (r: u64)
    ensures
        r == DEFAULT_GAS_UNITS,
{
    DEFAULT_GAS_UNITS
}

/// One watched pool.
#[derive(Debug)]
pub struct PoolConfig {
    /// Unique pool identifier.
    pub id: String,
    /// On-chain contract address.
    pub address: String,
    /// Curve type: `cpmm`, `stableswap`, `pmm`, `clmm`, `balancer`, `dodo`
    /// or `cryptoswap` (any case).
    pub curve_type: String,
    /// Fee retention, e.g. `0.997`.
    pub fee_retention: Dec,
    /// Amplification (StableSwap, CryptoSwap).
    pub amplification: Option<Dec>,
    /// Smoothing parameter (CryptoSwap).
    pub gamma: Option<Dec>,
    /// Token weights (Balancer).
    pub weights: Option<Vec<Dec>>,
    /// Input token index.
    pub input_token_index: usize,
    /// Output token index.
    pub output_token_index: usize,
}

/// The output token index when the configuration names none.
pub fn default_one() -> (r: usize)
    ensures
        r == 1,
{
    1
}

/// One watched route: the ids of its pools, in order.
#[derive(Debug)]
pub struct RouteConfig {
    /// Unique route identifier.
    pub id: String,
    /// The pool ids of the legs, in order.
    pub legs: Vec<String>,
}

} // verus!
