use polyarb::config::{ApiConfig, Config, ExecutionConfig, FeedsConfig, RiskConfig};
use polyarb::engine::signal::ArbSignal;
use polyarb::risk::{RiskDecision, RiskManager};
use std::sync::Arc;

const UNIT: i64 = 1_000_000;

fn config(max_positions: usize) -> Arc<Config> {
    Arc::new(Config {
        risk: RiskConfig {
            arb_threshold_pct: 3_000_000,
            max_position_usdc: 20 * UNIT,
            max_daily_loss_usdc: 50 * UNIT,
            max_concurrent_positions: max_positions,
            starting_capital_usdc: 500 * UNIT,
        },
        execution: ExecutionConfig { simulation_mode: true, order_timeout_ms: 5000, slippage_tolerance_pct: 1_000 },
        feeds: FeedsConfig { binance_ws_url: "".into(), polymarket_api_url: "".into(), polymarket_poll_interval_ms: 500 },
        target_tokens: vec![],
        api: ApiConfig {
            polymarket_key: "".into(),
            polymarket_secret: "".into(),
            polymarket_passphrase: "".into(),
            wallet_private_key: "".into(),
        },
    })
}

fn buy_yes(token: &str, edge_ppb: i64) -> ArbSignal {
    ArbSignal::BuyYes {
        token_id: token.into(),
        price: 500_000,
        edge_pct: edge_ppb,
        recommended_size_usdc: 20 * UNIT,
        reason: "test".into(),
        created_at_us: 0,
        staleness_ms: 0,
    }
}

fn rejected(reason: &str) -> RiskDecision {
    RiskDecision::Rejected { reason: reason.into() }
}

#[test]
fn no_signal_is_rejected() {
    let rm = RiskManager::new(config(3));
    assert_eq!(rm.evaluate(&ArbSignal::NoSignal), rejected("NoSignal"));
}

#[test]
fn size_is_ten_times_edge_share_of_capital_capped() {
    let rm = RiskManager::new(config(3));
    // 500 * 0.003 * 10 = 15 USDC
    assert_eq!(rm.evaluate(&buy_yes("a", 3_000_000)), RiskDecision::Approved { size_usdc: 15 * UNIT });
    // 500 * 0.00714 * 10 = 35.7 USDC, capped at 20
    assert_eq!(rm.evaluate(&buy_yes("a", 7_142_000)), RiskDecision::Approved { size_usdc: 20 * UNIT });
}

#[test]
fn size_follows_an_edge_finer_than_a_millionth() {
    let rm = RiskManager::new(config(3));
    // 500 * 0.00390625 * 10 = 19.53125 USDC
    assert_eq!(rm.evaluate(&buy_yes("t1", 3_906_250)), RiskDecision::Approved { size_usdc: 19_531_250 });
    // 500 * 0.01 * 10 = 50, capped at 20
    assert_eq!(rm.evaluate(&buy_yes("t1", 10_000_000)), RiskDecision::Approved { size_usdc: 20 * UNIT });
}

#[test]
fn edge_below_threshold_is_rejected() {
    let rm = RiskManager::new(config(3));
    assert_eq!(
        rm.evaluate(&buy_yes("a", 2_500_000)),
        rejected("Edge 0.250% below threshold 0.300%")
    );
}

#[test]
fn open_token_and_position_limit_are_rejected() {
    let mut rm = RiskManager::new(config(2));
    rm.record_fill("a".into(), 15 * UNIT);
    assert_eq!(rm.evaluate(&buy_yes("a", 3_000_000)), rejected("Position already open for token a"));
    rm.record_fill("b".into(), 15 * UNIT);
    assert_eq!(rm.evaluate(&buy_yes("c", 3_000_000)), rejected("Max concurrent positions (2) reached"));
}

#[test]
fn daily_loss_limit_is_rejected() {
    let mut rm = RiskManager::new(config(3));
    rm.record_fill("a".into(), 20 * UNIT);
    rm.record_close("a", -50 * UNIT);
    assert_eq!(rm.evaluate(&buy_yes("b", 3_000_000)), rejected("Daily loss limit hit: -50"));
}

#[test]
fn daily_loss_text_is_shortest_decimal() {
    let mut rm = RiskManager::new(config(3));
    rm.record_fill("a".into(), 20 * UNIT);
    rm.record_close("a", -50_250_000);
    assert_eq!(rm.evaluate(&buy_yes("b", 3_000_000)), rejected("Daily loss limit hit: -50.25"));
}

#[test]
fn zero_size_is_rejected() {
    let mut rm = RiskManager::new(config(3));
    // Lose all capital: available capital ends at zero.
    rm.record_fill("a".into(), 500 * UNIT);
    assert_eq!(rm.evaluate(&buy_yes("b", 3_000_000)), rejected("Calculated size is <= 0"));
}

#[test]
fn fill_then_close_moves_capital_back_with_pnl() {
    let mut rm = RiskManager::new(config(3));
    rm.record_fill("a".into(), 15 * UNIT);
    // 485 available: 485 * 0.004 * 10 = 19.4
    assert_eq!(rm.evaluate(&buy_yes("b", 4_000_000)), RiskDecision::Approved { size_usdc: 19_400_000 });
    rm.record_close("a", 2 * UNIT);
    // 502 available: 502 * 0.003 * 10 = 15.06
    assert_eq!(rm.evaluate(&buy_yes("a", 3_000_000)), RiskDecision::Approved { size_usdc: 15_060_000 });
    // Closing a token with no position changes nothing.
    rm.record_close("zzz", 100 * UNIT);
    assert_eq!(rm.evaluate(&buy_yes("a", 3_000_000)), RiskDecision::Approved { size_usdc: 15_060_000 });
    assert!(rm.fill_fits(15 * UNIT));
    assert!(rm.close_fits("a", 1));
}
