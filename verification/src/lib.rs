//! Profit-maximizing trade sizing against constant-product, StableSwap,
//! proactive-market-maker, concentrated-liquidity, weighted, DODO and
//! CryptoSwap curves, with multi-hop routing, Multicall3 batching and a
//! pool-state watcher.
pub mod decimal;
pub mod text;
pub mod error;
pub mod types;
pub mod traits;
pub mod profit;
pub mod gas;
pub mod slippage;
pub mod curves;
pub mod route;
pub mod optimality;
pub mod multicall;
pub mod watch;
pub mod cli;
pub mod integration;
pub mod bench;
pub mod wasm;

pub use decimal::Dec;
pub use error::SizingError;
pub use gas::gas_aware_fixed_cost;
pub use slippage::SlippageBound;
pub use route::{Leg, Route};
pub use traits::{PricingCurve, SizingAlgorithm};
pub use types::{GuaranteeTier, SizingConstraints, SizingResult};
