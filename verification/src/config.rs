//! Engine configuration. Real-valued settings are held in millionths, the
//! edge threshold in billionths (see [`crate::fixed`]); reading the configuration from files and the
//! environment is the application's job.
use vstd::prelude::*;

verus! {

/// Limits that gate every trade.
#[derive(Debug, Clone)]
pub struct RiskConfig {
    /// Smallest edge that may be traded, as a fraction in billionths.
    pub arb_threshold_pct: i64,
    /// Largest size of one position, in millionths of USDC.
    pub max_position_usdc: i64,
    /// Daily loss at which trading stops, in millionths of USDC.
    pub max_daily_loss_usdc: i64,
    /// Largest number of positions open at once.
    pub max_concurrent_positions: usize,
    /// Capital at start, in millionths of USDC.
    pub starting_capital_usdc: i64,
}

#[derive(Debug, Clone)]
pub struct ExecutionConfig {
    pub simulation_mode: bool,
    pub order_timeout_ms: u64,
    /// Tolerated slippage, as a fraction in millionths.
    pub slippage_tolerance_pct: i64,
}

#[derive(Debug, Clone)]
pub struct FeedsConfig {
    pub binance_ws_url: String,
    pub polymarket_api_url: String,
    pub polymarket_poll_interval_ms: u64,
}

#[derive(Debug, Clone)]
pub struct ApiConfig {
    pub polymarket_key: String,
    pub polymarket_secret: String,
    pub polymarket_passphrase: String,
    pub wallet_private_key: String,
}

#[derive(Debug, Clone)]
pub struct Config {
    pub risk: RiskConfig,
    pub execution: ExecutionConfig,
    pub feeds: FeedsConfig,
    pub target_tokens: Vec<String>,
    pub api: ApiConfig,
}

} // verus!
