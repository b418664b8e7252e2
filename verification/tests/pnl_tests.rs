use polyarb::logger::pnl::{csv_row, summary_text, CSV_HEADER};
use polyarb::logger::{PnlTracker, TradeRecord};

fn trade(pnl: i64, edge: i64, staleness: i64) -> TradeRecord {
    TradeRecord {
        timestamp: "2024-01-01T00:00:00.000".into(),
        token_id: "tok".into(),
        direction: "BuyNo_CLOSE".into(),
        size_usdc: 12_345_678,
        entry_price: 480_000,
        exit_price: 500_000,
        pnl_usdc: pnl,
        edge_pct_at_entry: edge,
        staleness_ms: staleness,
        signal_to_order_ms: 1_250_000,
    }
}

#[test]
fn csv_row_formats_each_column() {
    assert_eq!(
        csv_row(&trade(514_403, 7_142_000, 800_000_000)),
        "2024-01-01T00:00:00.000,tok,BuyNo_CLOSE,12.35,0.480000,0.500000,0.5144,0.007142,800.0,1.2"
    );
    assert!(CSV_HEADER.starts_with("timestamp,token_id,direction"));
}

#[test]
fn summary_of_trades() {
    let mut t = PnlTracker::new("logs");
    assert!(t.summary().is_none());
    t.record_trade(trade(2_000_000, 6_000_000, 500_000_000));
    t.record_trade(trade(-1_000_000, 4_000_000, 300_000_000));
    t.record_trade(trade(0, 5_000_000, 100_000_000));
    let s = t.summary().expect("trades");
    assert_eq!(s.total_trades, 3);
    assert_eq!(s.wins, 1);
    assert_eq!(s.total_pnl_usdc, 1_000_000);
    assert_eq!(s.win_rate_pct, 33_333_333);
    assert_eq!(s.avg_edge_pct, 5_000_000);
    assert_eq!(s.avg_staleness_ms, 300_000_000);
    assert_eq!(t.take_pending_rows().len(), 3);
    assert!(t.take_pending_rows().is_empty());
    assert_eq!(t.trade_count(), 3);
    assert_eq!(t.log_dir(), "logs");
}

#[test]
fn summary_text_shows_rate_total_edge_and_staleness() {
    let mut t = PnlTracker::new("logs");
    t.record_trade(trade(10_000_000, 10_000_000, 800_000_000));
    t.record_trade(trade(-5_000_000, 20_000_000, 1_000_000_000));
    let text = summary_text(&t.summary().expect("trades"));
    assert_eq!(text.total_trades, 2);
    assert_eq!(text.win_rate, "50.0%");
    assert_eq!(text.total_pnl, "$5.00");
    assert_eq!(text.avg_edge, "1.5000%");
    assert_eq!(text.avg_staleness, "900ms");
}

#[test]
fn summary_text_of_a_loss_keeps_its_sign() {
    let mut t = PnlTracker::new("logs");
    t.record_trade(trade(-1_250_000, 3_000_000, 2_500_000));
    t.record_trade(trade(-2_000_000, 3_000_000, 2_500_000));
    t.record_trade(trade(1_000_000, 3_000_000, 2_500_000));
    let text = summary_text(&t.summary().expect("trades"));
    assert_eq!(text.win_rate, "33.3%");
    assert_eq!(text.total_pnl, "$-2.25");
    assert_eq!(text.avg_edge, "0.3000%");
    assert_eq!(text.avg_staleness, "2ms");
}
