//! Concrete pricing curves implementing `PricingCurve` and `SizingAlgorithm`.
pub mod balancer_weighted;
pub mod concentrated_liquidity;
pub mod cpmm;
pub mod curve_cryptoswap;
pub mod dodo_pmm;
pub mod pmm;
pub mod stableswap;

pub use balancer_weighted::BalancerWeightedPool;
pub use concentrated_liquidity::{ConcentratedLiquidity, TickRange};
pub use cpmm::Cpmm;
pub use curve_cryptoswap::CurveCryptoSwap;
pub use dodo_pmm::DodoPmm;
pub use pmm::Pmm;
pub use stableswap::StableSwap;
