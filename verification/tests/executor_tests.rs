use polyarb::config::{ApiConfig, Config, ExecutionConfig, FeedsConfig, RiskConfig};
use polyarb::engine::signal::ArbSignal;
use polyarb::engine::state::MarketState;
use polyarb::execution::executor::CloseReason;
use polyarb::execution::Executor;
use polyarb::logger::PnlTracker;
use polyarb::risk::{RiskDecision, RiskManager};
use std::sync::Arc;

const UNIT: i64 = 1_000_000;
const WINDOW_SECS: u64 = 1_700_001_000;
const NOW_US: u64 = (WINDOW_SECS + 60) * 1_000_000;

fn config(simulation_mode: bool) -> Arc<Config> {
    Arc::new(Config {
        risk: RiskConfig {
            arb_threshold_pct: 3_000_000,
            max_position_usdc: 20 * UNIT,
            max_daily_loss_usdc: 50 * UNIT,
            max_concurrent_positions: 3,
            starting_capital_usdc: 500 * UNIT,
        },
        execution: ExecutionConfig { simulation_mode, order_timeout_ms: 5000, slippage_tolerance_pct: 1_000 },
        feeds: FeedsConfig { binance_ws_url: "".into(), polymarket_api_url: "".into(), polymarket_poll_interval_ms: 500 },
        target_tokens: vec![],
        api: ApiConfig {
            polymarket_key: "".into(),
            polymarket_secret: "".into(),
            polymarket_passphrase: "".into(),
            wallet_private_key: "".into(),
        },
    })
}

fn executor(simulation_mode: bool) -> Executor {
    let cfg = config(simulation_mode);
    Executor::new(cfg.clone(), RiskManager::new(cfg), PnlTracker::new("logs"))
}

fn buy_yes(token: &str) -> ArbSignal {
    ArbSignal::BuyYes {
        token_id: token.into(),
        price: 400_000,
        edge_pct: 7_142_000,
        recommended_size_usdc: 20 * UNIT,
        reason: "r".into(),
        created_at_us: NOW_US - 2_500,
        staleness_ms: 800,
    }
}

fn market_with(token: &str, yes: i64, no: i64) -> MarketState {
    let mut m = MarketState::new();
    m.update_spot(70_000 * UNIT, NOW_US);
    m.update_contract(token.into(), "q".into(), yes, no, NOW_US);
    m
}

#[test]
fn approved_signal_opens_simulated_position() {
    let mut ex = executor(true);
    let opened = ex.execute(&buy_yes("t"), &RiskDecision::Approved { size_usdc: 20 * UNIT }, false, NOW_US, "2024-01-01T00:00:00.000");
    assert!(opened);
    let pos = ex.position("t").expect("open");
    assert_eq!(pos.entry_price, 400_000);
    assert_eq!(pos.size_usdc, 20 * UNIT);
    assert_eq!(pos.direction, "BuyYes");
    assert_eq!(pos.entry_window_start, WINDOW_SECS);
    assert_eq!(pos.staleness_ms, 800 * UNIT);
    assert_eq!(pos.signal_to_order_ms, 2_500_000); // 2.5 ms
    let rows = ex.take_pending_rows();
    assert_eq!(
        rows,
        vec!["2024-01-01T00:00:00.000,t,BuyYes,20.00,0.400000,0.000000,0.0000,0.007142,800.0,2.5".to_string()]
    );
    // The ledger saw the fill.
    assert_eq!(
        ex.risk_manager().evaluate(&buy_yes("t")),
        RiskDecision::Rejected { reason: "Position already open for token t".into() }
    );
}

#[test]
fn rejected_signal_and_live_mode_do_nothing() {
    let mut ex = executor(true);
    assert!(!ex.execute(&buy_yes("t"), &RiskDecision::Rejected { reason: "no".into() }, false, NOW_US, "ts"));
    let mut live = executor(false);
    assert!(!live.execute(&buy_yes("t"), &RiskDecision::Approved { size_usdc: UNIT }, true, NOW_US, "ts"));
    assert!(live.position("t").is_none());
    // Live mode without the live switches falls back to simulation.
    assert!(live.execute(&buy_yes("t"), &RiskDecision::Approved { size_usdc: UNIT }, false, NOW_US, "ts"));
    assert!(!ex.execute(&ArbSignal::NoSignal, &RiskDecision::Approved { size_usdc: UNIT }, false, NOW_US, "ts"));
}

#[test]
fn take_profit_closes_with_pnl() {
    let mut ex = executor(true);
    ex.execute(&buy_yes("t"), &RiskDecision::Approved { size_usdc: 20 * UNIT }, false, NOW_US, "open");
    // Yes moved from 0.40 to 0.41: +2.5%
    let market = market_with("t", 410_000, 590_000);
    let closed = ex.check_and_close_positions(&market, WINDOW_SECS + 120, "close");
    assert_eq!(closed, vec![("t".to_string(), CloseReason::TakeProfit)]);
    assert!(ex.position("t").is_none());
    let journal = ex.pnl_tracker();
    assert_eq!(journal.trade_count(), 2);
    let exit = journal.trade(1);
    assert_eq!(exit.direction, "BuyYes_CLOSE");
    assert_eq!(exit.exit_price, 410_000);
    // 20 * 0.01 / 0.40 = 0.5 USDC
    assert_eq!(exit.pnl_usdc, 500_000);
    let summary = journal.summary().expect("trades");
    assert_eq!(summary.total_trades, 2);
    assert_eq!(summary.wins, 1);
    assert_eq!(summary.total_pnl_usdc, 500_000);
    // The ledger dropped the position too: 500.5 available, 500.5 * 0.003 * 10 = 15.015
    assert_eq!(
        ex.risk_manager().evaluate(&ArbSignal::BuyYes {
            token_id: "t".into(),
            price: 1,
            edge_pct: 3_000_000,
            recommended_size_usdc: 0,
            reason: "".into(),
            created_at_us: 0,
            staleness_ms: 0,
        }),
        RiskDecision::Approved { size_usdc: 15_015_000 }
    );
}

#[test]
fn small_gain_keeps_position_open() {
    let mut ex = executor(true);
    ex.execute(&buy_yes("t"), &RiskDecision::Approved { size_usdc: 20 * UNIT }, false, NOW_US, "open");
    // +1%: below the 2% take-profit
    let market = market_with("t", 404_000, 596_000);
    assert!(ex.check_and_close_positions(&market, WINDOW_SECS + 120, "x").is_empty());
    assert!(ex.position("t").is_some());
}

#[test]
fn window_expiry_closes_position() {
    let mut ex = executor(true);
    ex.execute(&buy_yes("t"), &RiskDecision::Approved { size_usdc: 20 * UNIT }, false, NOW_US, "open");
    let market = MarketState::new();
    let closed = ex.check_and_close_positions(&market, WINDOW_SECS + 900, "close");
    assert_eq!(closed, vec![("t".to_string(), CloseReason::WindowExpired)]);
    assert_eq!(CloseReason::WindowExpired.as_str(), "Window Expired");
    // The contract is gone: closed at the entry price, no PnL.
    let exit = ex.pnl_tracker().trade(1);
    assert_eq!(exit.exit_price, 400_000);
    assert_eq!(exit.pnl_usdc, 0);
}

#[test]
fn losing_close_reduces_capital() {
    let mut ex = executor(true);
    ex.execute(&buy_yes("t"), &RiskDecision::Approved { size_usdc: 20 * UNIT }, false, NOW_US, "open");
    let market = market_with("t", 300_000, 700_000);
    assert!(ex.close_position(&market, "t", "close"));
    // 20 * (0.30 - 0.40) / 0.40 = -5 USDC
    assert_eq!(ex.pnl_tracker().trade(1).pnl_usdc, -5 * UNIT);
    // 495 available: 495 * 0.003 * 10 = 14.85
    let d = ex.risk_manager().evaluate(&ArbSignal::BuyNo {
        token_id: "u".into(),
        price: 1,
        edge_pct: 3_000_000,
        recommended_size_usdc: 0,
        reason: "".into(),
        created_at_us: 0,
        staleness_ms: 0,
    });
    assert_eq!(d, RiskDecision::Approved { size_usdc: 14_850_000 });
    assert!(!ex.close_position(&market, "t", "again"));
}
