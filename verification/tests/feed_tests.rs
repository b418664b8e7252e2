use polyarb::feeds::binance::{on_stream_message, price_update_from_trade, StreamAction, StreamMessage};
use polyarb::feeds::polymarket::{build_snapshot, extract_contract, market_slug, GammaMarket, JsonField, JsonScalar};
use polyarb::fixed::{fixed_string, parse_fixed, same_text};
use polyarb::window::{window_start, window_start_of_micros};

fn market(slug: &str, ids: JsonField, prices: JsonField) -> GammaMarket {
    GammaMarket {
        slug: Some(slug.to_string()),
        question: Some("Bitcoin Up or Down?".to_string()),
        accepting_orders: Some(true),
        clob_token_ids: ids,
        outcome_prices: prices,
    }
}

#[test]
fn window_starts_every_fifteen_minutes() {
    assert_eq!(window_start(1_700_001_899), 1_700_001_000);
    assert_eq!(window_start(1_700_001_900), 1_700_001_900);
    assert_eq!(window_start_of_micros(1_700_001_000_999_999), 1_700_001_000);
}

#[test]
fn slug_names_the_window() {
    assert_eq!(market_slug(1_700_001_000), "btc-updown-15m-1700001000");
}

#[test]
fn decimal_text_round_trips() {
    assert_eq!(parse_fixed("70500.12"), Some(70_500_120_000));
    assert_eq!(parse_fixed("-0.5"), Some(-500_000));
    assert_eq!(parse_fixed("+.25"), Some(250_000));
    assert_eq!(parse_fixed("3."), Some(3_000_000));
    assert_eq!(parse_fixed("0.1234567"), Some(123_456));
    assert_eq!(parse_fixed(""), None);
    assert_eq!(parse_fixed("."), None);
    assert_eq!(parse_fixed("1e5"), Some(100_000_000_000));
    assert_eq!(parse_fixed("abc"), None);
    assert_eq!(parse_fixed("99999999999999"), None);
    assert_eq!(fixed_string(70_500_120_000, 2), "70500.12");
    assert_eq!(fixed_string(-1_000, 2), "-0.00");
    assert_eq!(fixed_string(1_005_000, 2), "1.00");
    assert_eq!(fixed_string(20_125_000, 2), "20.12");
    assert_eq!(fixed_string(20_135_000, 2), "20.14");
    assert_eq!(fixed_string(2_500_000, 0), "2");
    assert_eq!(fixed_string(3_500_000, 0), "4");
    assert_eq!(fixed_string(-2_500_000, 0), "-2");
    assert_eq!(fixed_string(20_125_001, 2), "20.13");
    assert_eq!(fixed_string(123_456_789, 0), "123");
    assert!(same_text("abc", "abc"));
    assert!(!same_text("abc", "abd"));
}

#[test]
fn exponent_forms_are_read() {
    assert_eq!(parse_fixed("1e3"), Some(1_000_000_000));
    assert_eq!(parse_fixed("1e-1"), Some(100_000));
    assert_eq!(parse_fixed("2.5E+2"), Some(250_000_000));
    assert_eq!(parse_fixed("-7.05e4"), Some(-70_500_000_000));
    assert_eq!(parse_fixed("1e-7"), Some(0));
    assert_eq!(parse_fixed("1e-999"), Some(0));
    assert_eq!(parse_fixed("0e999"), Some(0));
    assert_eq!(parse_fixed("1e"), None);
    assert_eq!(parse_fixed("1e+"), None);
    assert_eq!(parse_fixed("e5"), None);
    assert_eq!(parse_fixed("1e5.0"), None);
    assert_eq!(parse_fixed("1e999"), None);
    assert_eq!(parse_fixed("1e99999999999999999999999"), None);
}

#[test]
fn binance_trade_priced_with_an_exponent_is_published() {
    let u = price_update_from_trade("1e3", 5).expect("valid");
    assert_eq!(u.price, 1_000_000_000);
}

#[test]
fn market_price_with_an_exponent_is_read() {
    let slug = "btc-updown-15m-1700001000";
    let m = market(
        slug,
        JsonField::List(vec![JsonScalar::Text("y".into())]),
        JsonField::List(vec![JsonScalar::Text("1e-1".into()), JsonScalar::Text("0.9".into())]),
    );
    let c = extract_contract(&m, slug, 1).expect("priced");
    assert_eq!(c.yes_price, 100_000);
    assert_eq!(c.no_price, 900_000);
}

#[test]
fn binance_trade_becomes_price_update() {
    let u = price_update_from_trade("70500.12", 1_700_001_000_123).expect("valid");
    assert_eq!(u.source, "binance");
    assert_eq!(u.price, 70_500_120_000);
    assert_eq!(u.timestamp_us, 1_700_001_000_123_000);
    assert!(price_update_from_trade("not a price", 1).is_none());
}

#[test]
fn market_with_lists_yields_contract() {
    let slug = "btc-updown-15m-1700001000";
    let m = market(
        slug,
        JsonField::List(vec![JsonScalar::Text("yes-token".into()), JsonScalar::Text("no-token".into())]),
        JsonField::List(vec![JsonScalar::Text("0.515".into()), JsonScalar::Number("0.485".into())]),
    );
    let c = extract_contract(&m, slug, 42).expect("contract");
    assert_eq!(c.token_id, "yes-token");
    assert_eq!(c.question, "Bitcoin Up or Down?");
    assert_eq!(c.yes_price, 515_000);
    assert_eq!(c.no_price, 485_000);
    assert_eq!(c.fetched_at_us, 42);
    assert!(extract_contract(&m, "btc-updown-15m-0", 42).is_none());
}

#[test]
fn market_with_json_text_fields_yields_contract() {
    let slug = "btc-updown-15m-1700001000";
    let m = market(
        slug,
        JsonField::Text("[12345678901234567890, \"no\"]".into()),
        JsonField::Text("[\"0.52\", \"0.48\"]".into()),
    );
    let c = extract_contract(&m, slug, 7).expect("contract");
    assert_eq!(c.token_id, "12345678901234567890");
    assert_eq!(c.yes_price, 520_000);
    assert_eq!(c.no_price, 480_000);
    // Numbers in a plain list are no token ids.
    let m2 = market(slug, JsonField::List(vec![JsonScalar::Unsigned(5)]), JsonField::Text("[0.5]".into()));
    assert!(extract_contract(&m2, slug, 7).is_none());
    // A text field that is no JSON list yields nothing.
    let m3 = market(slug, JsonField::Text("oops".into()), JsonField::Text("[0.5]".into()));
    assert!(extract_contract(&m3, slug, 7).is_none());
}

#[test]
fn closed_or_unpriced_markets_yield_nothing() {
    let slug = "btc-updown-15m-1700001000";
    let mut m = market(slug, JsonField::List(vec![JsonScalar::Text("y".into())]), JsonField::List(vec![JsonScalar::Text("0".into())]));
    assert!(extract_contract(&m, slug, 1).is_none());
    m.outcome_prices = JsonField::List(vec![JsonScalar::Text("0.3".into())]);
    let c = extract_contract(&m, slug, 1).expect("priced");
    assert_eq!(c.no_price, 0);
    m.accepting_orders = None;
    assert!(extract_contract(&m, slug, 1).is_none());
}

#[test]
fn snapshot_holds_the_current_window_contracts() {
    let now = 1_700_001_100;
    let good = market(
        "btc-updown-15m-1700001000",
        JsonField::List(vec![JsonScalar::Text("y".into())]),
        JsonField::List(vec![JsonScalar::Text("0.5".into()), JsonScalar::Text("0.5".into())]),
    );
    let other = market(
        "btc-updown-15m-1700000100",
        JsonField::List(vec![JsonScalar::Text("z".into())]),
        JsonField::List(vec![JsonScalar::Text("0.5".into())]),
    );
    let snap = build_snapshot(&vec![other, good], now).expect("one contract");
    assert_eq!(snap.contracts.len(), 1);
    assert_eq!(snap.contracts[0].token_id, "y");
    assert_eq!(snap.contracts[0].fetched_at_us, now * 1_000_000);
    assert!(build_snapshot(&vec![], now).is_none());
}

#[test]
fn stream_messages_are_published_skipped_or_end_the_connection() {
    match on_stream_message(StreamMessage::Trade { price_text: "69500.5".into(), event_time_ms: 2 }) {
        StreamAction::Publish(u) => {
            assert_eq!(u.price, 69_500_500_000);
            assert_eq!(u.timestamp_us, 2_000);
        }
        other => panic!("expected a publish, got {:?}", other),
    }
    assert!(matches!(
        on_stream_message(StreamMessage::Trade { price_text: "NaN".into(), event_time_ms: 2 }),
        StreamAction::Skip
    ));
    assert!(matches!(on_stream_message(StreamMessage::Unreadable), StreamAction::Skip));
    assert!(matches!(on_stream_message(StreamMessage::Closed), StreamAction::Reconnect));
    assert!(matches!(on_stream_message(StreamMessage::Failed), StreamAction::Reconnect));
    assert!(matches!(on_stream_message(StreamMessage::Ignored), StreamAction::Continue));
}
