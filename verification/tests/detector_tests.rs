use polyarb::config::{ApiConfig, Config, ExecutionConfig, FeedsConfig, RiskConfig};
use polyarb::engine::detector::{on_price_update, on_snapshot, run_detection};
use polyarb::engine::signal::{ArbSignal, SignalStrength};
use polyarb::engine::state::{compute_implied_btc_price, MarketState};
use polyarb::feeds::binance::PriceUpdate;
use polyarb::feeds::polymarket::{ContractPrice, MarketSnapshot};

const UNIT: i64 = 1_000_000;
// 1_700_001_000 is the start of a 15-minute window.
const WINDOW_START_US: u64 = 1_700_001_000 * 1_000_000;

fn create_test_config(threshold_ppb: i64) -> Config {
    Config {
        risk: RiskConfig {
            arb_threshold_pct: threshold_ppb,
            max_position_usdc: 20 * UNIT,
            max_daily_loss_usdc: 50 * UNIT,
            max_concurrent_positions: 3,
            starting_capital_usdc: 500 * UNIT,
        },
        execution: ExecutionConfig {
            simulation_mode: true,
            order_timeout_ms: 5000,
            slippage_tolerance_pct: 1_000,
        },
        feeds: FeedsConfig {
            binance_ws_url: "".into(),
            polymarket_api_url: "".into(),
            polymarket_poll_interval_ms: 500,
        },
        target_tokens: vec![],
        api: ApiConfig {
            polymarket_key: "".into(),
            polymarket_secret: "".into(),
            polymarket_passphrase: "".into(),
            wallet_private_key: "".into(),
        },
    }
}

/// A state whose window opened at 70,000 and whose spot is now `spot`.
fn state_with_move(spot: i64, now: u64) -> MarketState {
    let mut state = MarketState::new();
    state.update_spot(70_000 * UNIT, WINDOW_START_US + 1_000);
    state.update_spot(spot, now);
    state
}

#[test]
fn test_edge_calculation_accuracy() {
    let btc_spot: f64 = 70_500.0;
    let implied_btc: f64 = 70_000.0;

    let edge_pct = (btc_spot - implied_btc).abs() / btc_spot;

    // Exact edge calculation verification
    // 500 / 70500 = 0.00709219858...
    let expected_edge = 0.00709219858;

    assert!((edge_pct - expected_edge).abs() < 1e-8);
}

fn current_time_us() -> u64 {
    std::time::SystemTime::now()
        .duration_since(std::time::UNIX_EPOCH)
        .unwrap()
        .as_micros() as u64
}

#[test]
fn test_no_signal_when_fresh() {
    let config = create_test_config(3_000_000);
    let mut state = MarketState::new();

    // Setup state
    let now = current_time_us();
    state.update_spot(70_500 * UNIT, now);
    state.update_contract(
        "token_1".to_string(),
        "Will BTC close above $70,000?".to_string(),
        500_000,
        500_000,
        now - 100_000, // 100ms ago (fresh)
    );

    // Trigger detection with a polymarket snapshot
    let snapshot = MarketSnapshot { contracts: vec![] };
    let signals = on_snapshot(&mut state, &config, &snapshot, now);

    // We shouldn't receive any signal because it implies < 200ms staleness
    assert!(signals.is_empty());
}

#[test]
fn test_buy_yes_signal() {
    let config = create_test_config(3_000_000);
    let mut state = MarketState::new();

    // Setup state
    let now = current_time_us();

    // contract implies $70,000, staleness = 800ms
    state.update_contract(
        "token_1".to_string(),
        "Will BTC close above $70,000?".to_string(),
        500_000, // 0.5 yes price corresponds to $70,000
        500_000,
        now - 800_000,
    );

    // Spot is 70,500
    state.update_spot(70_500 * UNIT, now);

    // Trigger detection
    let update = PriceUpdate { source: "bin".into(), price: 70_500 * UNIT, timestamp_us: now };
    let signals = on_price_update(&mut state, &config, &update, now);

    let res = signals.into_iter().next().expect("Should receive a signal");
    match res {
        ArbSignal::BuyYes { token_id, edge_pct, .. } => {
            assert_eq!(token_id, "token_1");
            assert!((edge_pct - 7_090_000).abs() < 100_000); // ~0.71% edge
        }
        _ => panic!("Expected BuyYes signal"),
    }
}

#[test]
fn test_buy_no_signal() {
    let config = create_test_config(3_000_000);
    let mut state = MarketState::new();

    // Setup state
    let now = current_time_us();

    // contract implies $70,000, staleness = 800ms
    state.update_contract(
        "token_2".to_string(),
        "Will BTC close above $70,000?".to_string(),
        500_000, // implies $70,000
        500_000,
        now - 800_000,
    );

    // Spot is 69,500
    state.update_spot(69_500 * UNIT, now);

    let update = PriceUpdate { source: "bin".into(), price: 69_500 * UNIT, timestamp_us: now };
    let signals = on_price_update(&mut state, &config, &update, now);

    let res = signals.into_iter().next().expect("Should receive a signal");
    match res {
        ArbSignal::BuyNo { token_id, edge_pct, .. } => {
            assert_eq!(token_id, "token_2");
            assert!((edge_pct - 7_190_000).abs() < 100_000); // 500 / 69,500 ≈ 0.719%
        }
        _ => panic!("Expected BuyNo signal"),
    }
}

#[test]
fn test_below_threshold() {
    let config = create_test_config(3_000_000); // 0.3%
    let mut state = MarketState::new();

    // Setup state
    let now = current_time_us();

    // Spot is 70,100
    state.update_spot(70_100 * UNIT, now);

    state.update_contract(
        "token_3".to_string(),
        "Will BTC close above $70,000?".to_string(),
        500_000,
        500_000,
        now - 800_000,
    );

    let update = PriceUpdate { source: "bin".into(), price: 70_100 * UNIT, timestamp_us: now };
    let signals = on_price_update(&mut state, &config, &update, now);

    // Should be no signal
    assert!(signals.is_empty());
}

#[test]
fn no_signal_when_contract_is_fresh() {
    let config = create_test_config(3_000_000);
    let now = WINDOW_START_US + 60_000_000;
    let mut state = state_with_move(70_500 * UNIT, now);
    state.update_contract(
        "token_1".to_string(),
        "Will BTC close above $70,000?".to_string(),
        500_000,
        500_000,
        now - 100_000, // 100ms ago (fresh)
    );
    assert!(run_detection(&state, &config, now).is_empty());
}

#[test]
fn buy_yes_when_spot_is_up_and_contract_lags() {
    let config = create_test_config(3_000_000);
    let now = WINDOW_START_US + 60_000_000;
    let mut state = state_with_move(70_500 * UNIT, now);
    state.update_contract(
        "token_1".to_string(),
        "Will BTC close above $70,000?".to_string(),
        500_000,
        500_000,
        now - 800_000,
    );
    let signals = run_detection(&state, &config, now);
    assert_eq!(signals.len(), 1);
    match &signals[0] {
        ArbSignal::BuyYes { token_id, price, edge_pct, recommended_size_usdc, reason, created_at_us, staleness_ms } => {
            assert_eq!(token_id, "token_1");
            assert_eq!(*price, 500_000);
            // 500 / 70,500 = 0.709219...%
            assert_eq!(*edge_pct, 7_092_198);
            assert_eq!(*recommended_size_usdc, 20 * UNIT);
            assert_eq!(reason, "Binance UP 0.71%, Polymarket Yes Prob 0.50");
            assert_eq!(*created_at_us, now);
            assert_eq!(*staleness_ms, 800);
        }
        other => panic!("Expected BuyYes signal, got {:?}", other),
    }
    assert_eq!(signals[0].strength(), Some(SignalStrength::Moderate));
}

#[test]
fn buy_no_when_spot_is_down_and_contract_lags() {
    let config = create_test_config(3_000_000);
    let now = WINDOW_START_US + 60_000_000;
    let mut state = state_with_move(69_500 * UNIT, now);
    state.update_contract(
        "token_2".to_string(),
        "Will BTC close above $70,000?".to_string(),
        500_000,
        480_000,
        now - 800_000,
    );
    let signals = run_detection(&state, &config, now);
    assert_eq!(signals.len(), 1);
    match &signals[0] {
        ArbSignal::BuyNo { token_id, price, edge_pct, reason, .. } => {
            assert_eq!(token_id, "token_2");
            assert_eq!(*price, 480_000);
            // 500 / 69,500 = 0.719424...%
            assert_eq!(*edge_pct, 7_194_244);
            assert_eq!(reason, "Binance DOWN -0.72%, Polymarket Yes Prob 0.50");
        }
        other => panic!("Expected BuyNo signal, got {:?}", other),
    }
}

#[test]
fn edge_is_the_distance_over_spot_to_within_a_billionth() {
    let config = create_test_config(3_000_000);
    let now = WINDOW_START_US + 60_000_000;
    let mut state = MarketState::new();
    state.update_contract(
        "token_1".to_string(),
        "Will BTC close above $70,000?".to_string(),
        500_000,
        500_000,
        now - 800_000,
    );
    state.update_spot(70_500 * UNIT, now);
    let signals = run_detection(&state, &config, now);
    assert_eq!(signals.len(), 1);
    let edge = match &signals[0] {
        ArbSignal::BuyYes { edge_pct, .. } => *edge_pct as f64 / 1e9,
        other => panic!("Expected BuyYes signal, got {:?}", other),
    };
    let expected = (70_500.0f64 - 70_000.0).abs() / 70_500.0;
    assert!((edge - expected).abs() < 1e-8);
    assert!((edge - 0.00709219858).abs() < 1e-8);
}

#[test]
fn no_signal_below_threshold() {
    let config = create_test_config(3_000_000);
    let now = WINDOW_START_US + 60_000_000;
    // 100 / 70,000 = 0.14%, below 0.3%
    let mut state = state_with_move(70_100 * UNIT, now);
    state.update_contract(
        "token_3".to_string(),
        "Will BTC close above $70,000?".to_string(),
        500_000,
        500_000,
        now - 800_000,
    );
    assert!(run_detection(&state, &config, now).is_empty());
}

#[test]
fn no_signal_when_contract_already_priced_the_move() {
    let config = create_test_config(3_000_000);
    let now = WINDOW_START_US + 60_000_000;
    let mut state = state_with_move(70_500 * UNIT, now);
    // Yes already above even odds: nothing to buy on an up move.
    state.update_contract("t".to_string(), "q".to_string(), 600_000, 400_000, now - 800_000);
    assert!(run_detection(&state, &config, now).is_empty());
}

#[test]
fn no_signal_without_prices() {
    let config = create_test_config(3_000_000);
    let mut state = MarketState::new();
    state.update_contract("t".to_string(), "q".to_string(), 100_000, 900_000, 0);
    assert!(run_detection(&state, &config, 10_000_000).is_empty());
}

#[test]
fn one_signal_per_lagging_contract() {
    let config = create_test_config(3_000_000);
    let now = WINDOW_START_US + 60_000_000;
    let mut state = state_with_move(70_500 * UNIT, now);
    state.update_contract("a".to_string(), "q".to_string(), 400_000, 600_000, now - 900_000);
    state.update_contract("b".to_string(), "q".to_string(), 450_000, 550_000, now - 50_000);
    state.update_contract("c".to_string(), "q".to_string(), 300_000, 700_000, now - 300_000);
    let signals = run_detection(&state, &config, now);
    let mut tokens: Vec<String> = signals
        .iter()
        .map(|s| match s {
            ArbSignal::BuyYes { token_id, .. } => token_id.clone(),
            _ => panic!("expected BuyYes"),
        })
        .collect();
    tokens.sort();
    assert_eq!(tokens, vec!["a".to_string(), "c".to_string()]);
}

#[test]
fn spot_update_in_new_window_resets_window_and_contracts() {
    let mut state = MarketState::new();
    state.update_spot(70_000 * UNIT, WINDOW_START_US + 5);
    assert_eq!(state.window_start_timestamp(), 1_700_001_000);
    assert_eq!(state.window_start_price(), 70_000 * UNIT);
    state.update_contract("t".to_string(), "q".to_string(), 500_000, 500_000, WINDOW_START_US);
    // Same window: start price and contracts stay.
    state.update_spot(70_200 * UNIT, WINDOW_START_US + 899_000_000);
    assert_eq!(state.window_start_price(), 70_000 * UNIT);
    assert_eq!(state.spot_price(), 70_200 * UNIT);
    assert_eq!(state.contract_count(), 1);
    // Next window: new start price, contracts dropped.
    state.update_spot(70_300 * UNIT, WINDOW_START_US + 900_000_000);
    assert_eq!(state.window_start_timestamp(), 1_700_001_900);
    assert_eq!(state.window_start_price(), 70_300 * UNIT);
    assert_eq!(state.contract_count(), 0);
}

#[test]
fn handlers_update_state_then_detect() {
    let config = create_test_config(3_000_000);
    let now = WINDOW_START_US + 60_000_000;
    let mut state = MarketState::new();
    let signals = on_price_update(
        &mut state,
        &config,
        &PriceUpdate { source: "bin".into(), price: 70_000 * UNIT, timestamp_us: WINDOW_START_US },
        now,
    );
    assert!(signals.is_empty());
    let snapshot = MarketSnapshot {
        contracts: vec![ContractPrice {
            token_id: "token_1".into(),
            question: "Will BTC go up?".into(),
            yes_price: 450_000,
            no_price: 550_000,
            fetched_at_us: now - 1_000_000,
        }],
    };
    assert!(on_snapshot(&mut state, &config, &snapshot, now).is_empty());
    let stored = state.contract("token_1").expect("stored");
    assert_eq!(stored.yes_price, 450_000);
    // The question names no price: measured against the window start.
    assert_eq!(stored.implied_btc_price, None);
    let signals = on_price_update(
        &mut state,
        &config,
        &PriceUpdate { source: "bin".into(), price: 70_500 * UNIT, timestamp_us: now },
        now,
    );
    assert_eq!(signals.len(), 1);
    assert!(matches!(&signals[0], ArbSignal::BuyYes { token_id, .. } if token_id == "token_1"));
}

#[test]
fn implied_price_is_the_strike_in_the_question() {
    assert_eq!(compute_implied_btc_price("Will BTC close above $70,000?", 500_000), Some(70_000 * UNIT));
    assert_eq!(compute_implied_btc_price("Above $68,250.5 at noon?", 1), Some(68_250_500_000));
    assert_eq!(compute_implied_btc_price("Bitcoin Up or Down?", 500_000), None);
    assert_eq!(compute_implied_btc_price("Costs $?", 500_000), None);
}

#[test]
fn first_spot_price_keeps_known_contracts() {
    let mut state = MarketState::new();
    state.update_contract("t".to_string(), "q".to_string(), 500_000, 500_000, 5);
    state.update_spot(70_000 * UNIT, WINDOW_START_US);
    assert_eq!(state.contract_count(), 1);
}

#[test]
fn signal_strength_thresholds() {
    assert_eq!(SignalStrength::from_edge(3_000_000), SignalStrength::Weak);
    assert_eq!(SignalStrength::from_edge(4_999_999), SignalStrength::Weak);
    assert_eq!(SignalStrength::from_edge(5_000_000), SignalStrength::Moderate);
    assert_eq!(SignalStrength::from_edge(8_000_000), SignalStrength::Moderate);
    assert_eq!(SignalStrength::from_edge(8_000_001), SignalStrength::Strong);
    assert_eq!(ArbSignal::NoSignal.strength(), None);
}
