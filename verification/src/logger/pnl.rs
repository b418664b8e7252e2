//! Trade journal: every entry and exit is kept, framed as a CSV row for the
//! daily trade file, and summarised on demand.
use crate::fixed::{fixed_text, push_fixed, push_fixed_wide};
use vstd::prelude::*;
use vstd::string::*;

verus! {

/// One entry or exit. Amounts and prices are in millionths, the edge in
/// billionths, durations in millionths of a millisecond.
#[derive(Debug)]
pub struct TradeRecord {
    pub timestamp: String,
    pub token_id: String,
    pub direction: String,
    pub size_usdc: i64,
    pub entry_price: i64,
    pub exit_price: i64,
    pub pnl_usdc: i64,
    pub edge_pct_at_entry: i64,
    pub staleness_ms: i64,
    pub signal_to_order_ms: i64,
}

/// A trade record as mathematical values.
pub struct TradeView {
    pub timestamp: Seq<char>,
    pub token_id: Seq<char>,
    pub direction: Seq<char>,
    pub size_usdc: int,
    pub entry_price: int,
    pub exit_price: int,
    pub pnl_usdc: int,
    pub edge_pct_at_entry: int,
    pub staleness_ms: int,
    pub signal_to_order_ms: int,
}

impl View for TradeRecord {
    type V = TradeView;

    open spec fn view(&self) -> TradeView {
        TradeView {
            timestamp: self.timestamp@,
            token_id: self.token_id@,
            direction: self.direction@,
            size_usdc: self.size_usdc as int,
            entry_price: self.entry_price as int,
            exit_price: self.exit_price as int,
            pnl_usdc: self.pnl_usdc as int,
            edge_pct_at_entry: self.edge_pct_at_entry as int,
            staleness_ms: self.staleness_ms as int,
            signal_to_order_ms: self.signal_to_order_ms as int,
        }
    }
}

impl Clone for TradeRecord {
    fn clone(&self) -> (r: Self)
        ensures
            r@ == self@,
    {
        TradeRecord {
            timestamp: self.timestamp.clone(),
            token_id: self.token_id.clone(),
            direction: self.direction.clone(),
            size_usdc: self.size_usdc,
            entry_price: self.entry_price,
            exit_price: self.exit_price,
            pnl_usdc: self.pnl_usdc,
            edge_pct_at_entry: self.edge_pct_at_entry,
            staleness_ms: self.staleness_ms,
            signal_to_order_ms: self.signal_to_order_ms,
        }
    }
}

/// First line of every trade file.
pub const CSV_HEADER: &'static str =
    "timestamp,token_id,direction,size_usdc,entry_price,exit_price,pnl_usdc,edge_pct_at_entry,staleness_ms,signal_to_order_ms";

/// The CSV row of a trade: text fields as they are, then size (2 decimals),
/// entry and exit price (6), PnL (4), edge (6), staleness and signal-to-order
/// delay (1 each).
pub open spec fn csv_row_spec(t: TradeView) -> Seq<char> {
    t.timestamp + seq![','] + t.token_id + seq![','] + t.direction + seq![','] + fixed_text(
        t.size_usdc,
        6,
        2,
    ) + seq![','] + fixed_text(t.entry_price, 6, 6) + seq![','] + fixed_text(t.exit_price, 6, 6)
        + seq![','] + fixed_text(t.pnl_usdc, 6, 4) + seq![','] + fixed_text(
        t.edge_pct_at_entry,
        9,
        6,
    ) + seq![','] + fixed_text(t.staleness_ms, 6, 1) + seq![','] + fixed_text(
        t.signal_to_order_ms,
        6,
        1,
    )
}

/// The CSV row of `trade`.
pub fn csv_row(trade: &TradeRecord) -> (r: String)
    ensures
        r@ == csv_row_spec(trade@),
{
    proof {
        reveal_strlit(",");
    }
    let mut s = trade.timestamp.clone();
    s.append(",");
    s.append(trade.token_id.as_str());
    s.append(",");
    s.append(trade.direction.as_str());
    s.append(",");
    push_fixed(&mut s, trade.size_usdc, 6, 2);
    s.append(",");
    push_fixed(&mut s, trade.entry_price, 6, 6);
    s.append(",");
    push_fixed(&mut s, trade.exit_price, 6, 6);
    s.append(",");
    push_fixed(&mut s, trade.pnl_usdc, 6, 4);
    s.append(",");
    push_fixed(&mut s, trade.edge_pct_at_entry, 9, 6);
    s.append(",");
    push_fixed(&mut s, trade.staleness_ms, 6, 1);
    s.append(",");
    push_fixed(&mut s, trade.signal_to_order_ms, 6, 1);
    assert(s@ =~= csv_row_spec(trade@));
    s
}

/// Sum of `f` over the trades.
pub open spec fn sum_of(ts: Seq<TradeView>, f: spec_fn(TradeView) -> int) -> int
    decreases ts.len(),
{
    if ts.len() == 0 {
        0
    } else {
        sum_of(ts.drop_last(), f) + f(ts.last())
    }
}

/// Number of trades with a positive PnL.
pub open spec fn win_count(ts: Seq<TradeView>) -> int
    decreases ts.len(),
{
    if ts.len() == 0 {
        0
    } else {
        win_count(ts.drop_last()) + if ts.last().pnl_usdc > 0 {
            1int
        } else {
            0int
        }
    }
}

/// `a / b` rounded toward zero, for `b > 0`.
pub open spec fn quotient(a: int, b: int) -> int {
    if a >= 0 {
        a / b
    } else {
        -((-a) / b)
    }
}

/// Totals of a non-empty journal. The win rate is a percentage and the
/// averages are per trade, rounded toward zero; the average edge is in
/// billionths, the other amounts in millionths.
#[derive(Debug, Clone, Copy)]
pub struct PnlSummary {
    pub total_trades: usize,
    pub wins: usize,
    pub total_pnl_usdc: i128,
    pub win_rate_pct: i64,
    pub avg_edge_pct: i64,
    pub avg_staleness_ms: i64,
}

/// What the summary of the trades `ts` holds.
pub open spec fn summary_matches(r: PnlSummary, ts: Seq<TradeView>) -> bool {
    &&& r.total_trades == ts.len()
    &&& r.wins == win_count(ts)
    &&& r.total_pnl_usdc == sum_of(ts, |t: TradeView| t.pnl_usdc)
    &&& r.win_rate_pct == win_count(ts) * 100_000_000 / (ts.len() as int)
    &&& r.avg_edge_pct == quotient(sum_of(ts, |t: TradeView| t.edge_pct_at_entry), ts.len() as int)
    &&& r.avg_staleness_ms == quotient(sum_of(ts, |t: TradeView| t.staleness_ms), ts.len() as int)
}

/// The summary's figures as text: the win rate with one decimal and a `%`,
/// the total PnL in dollars with two decimals, the average edge as a
/// percentage with four decimals, and the average staleness in whole
/// milliseconds.
pub struct SummaryText {
    pub total_trades: usize,
    pub win_rate: String,
    pub total_pnl: String,
    pub avg_edge: String,
    pub avg_staleness: String,
}

pub open spec fn win_rate_text(s: PnlSummary) -> Seq<char> {
    fixed_text(s.win_rate_pct as int, 6, 1) + "%"@
}

pub open spec fn total_pnl_text(s: PnlSummary) -> Seq<char> {
    "$"@ + fixed_text(s.total_pnl_usdc as int, 6, 2)
}

pub open spec fn avg_edge_text(s: PnlSummary) -> Seq<char> {
    fixed_text(s.avg_edge_pct as int, 7, 4) + "%"@
}

pub open spec fn avg_staleness_text(s: PnlSummary) -> Seq<char> {
    fixed_text(s.avg_staleness_ms as int, 6, 0) + "ms"@
}

/// Renders the summary's figures as the text the summary line shows.
pub fn summary_text(s: &PnlSummary) -> (r: SummaryText)
    ensures
        r.total_trades == s.total_trades,
        r.win_rate@ == win_rate_text(*s),
        r.total_pnl@ == total_pnl_text(*s),
        r.avg_edge@ == avg_edge_text(*s),
        r.avg_staleness@ == avg_staleness_text(*s),
{
    proof {
        reveal_strlit("%");
        reveal_strlit("$");
        reveal_strlit("ms");
    }
    let mut win_rate = String::new();
    push_fixed(&mut win_rate, s.win_rate_pct, 6, 1);
    win_rate.append("%");
    let mut total_pnl = String::from_str("$");
    push_fixed_wide(&mut total_pnl, s.total_pnl_usdc, 6, 2);
    let mut avg_edge = String::new();
    push_fixed(&mut avg_edge, s.avg_edge_pct, 7, 4);
    avg_edge.append("%");
    let mut avg_staleness = String::new();
    push_fixed(&mut avg_staleness, s.avg_staleness_ms, 6, 0);
    avg_staleness.append("ms");
    assert(win_rate@ =~= win_rate_text(*s));
    assert(total_pnl@ =~= total_pnl_text(*s));
    assert(avg_edge@ =~= avg_edge_text(*s));
    assert(avg_staleness@ =~= avg_staleness_text(*s));
    SummaryText { total_trades: s.total_trades, win_rate, total_pnl, avg_edge, avg_staleness }
}

/// A journal as mathematical values: the log directory, the trades in the
/// order recorded, and the CSV rows not yet handed out for writing.
pub struct PnlView {
    pub log_dir: Seq<char>,
    pub trades: Seq<TradeView>,
    pub pending_rows: Seq<Seq<char>>,
}

pub struct PnlTracker {
    log_dir: String,
    trades: Vec<TradeRecord>,
    pending_rows: Vec<String>,
}

impl View for PnlTracker {
    type V = PnlView;

    closed spec fn view(&self) -> PnlView {
        PnlView {
            log_dir: self.log_dir@,
            trades: self.trades@.map_values(|t: TradeRecord| t@),
            pending_rows: self.pending_rows@.map_values(|s: String| s@),
        }
    }
}

/// The journal after recording `t`.
pub open spec fn record_spec(p: PnlView, t: TradeView) -> PnlView {
    PnlView {
        log_dir: p.log_dir,
        trades: p.trades.push(t),
        pending_rows: p.pending_rows.push(csv_row_spec(t)),
    }
}

proof fn lemma_sum_bound(ts: Seq<TradeView>, f: spec_fn(TradeView) -> int)
    requires
        forall|i: int| 0 <= i < ts.len() ==> i64::MIN <= #[trigger] f(ts[i]) <= i64::MAX,
    ensures
        ts.len() * i64::MIN <= sum_of(ts, f) <= ts.len() * i64::MAX,
    decreases ts.len(),
{
    if ts.len() > 0 {
        let p = ts.drop_last();
        assert forall|i: int| 0 <= i < p.len() implies i64::MIN <= #[trigger] f(p[i]) <= i64::MAX by {
            assert(p[i] == ts[i]);
        }
        lemma_sum_bound(p, f);
        assert(f(ts.last()) == f(ts[ts.len() - 1]));
    }
}

proof fn lemma_win_count_bound(ts: Seq<TradeView>)
    ensures
        0 <= win_count(ts) <= ts.len(),
    decreases ts.len(),
{
    if ts.len() > 0 {
        lemma_win_count_bound(ts.drop_last());
    }
}

proof fn lemma_quotient_bound(s: int, n: int)
    requires
        n > 0,
        n * i64::MIN <= s <= n * i64::MAX,
    ensures
        i64::MIN <= quotient(s, n) <= i64::MAX,
{
    if s >= 0 {
        assert(s / n <= i64::MAX) by (nonlinear_arith)
            requires
                n > 0,
                0 <= s <= n * i64::MAX,
        ;
        assert(s / n >= 0) by (nonlinear_arith)
            requires
                n > 0,
                0 <= s,
        ;
    } else {
        assert((-s) / n <= -(i64::MIN as int)) by (nonlinear_arith)
            requires
                n > 0,
                0 < -s <= n * (-(i64::MIN as int)),
        ;
        assert((-s) / n >= 0) by (nonlinear_arith)
            requires
                n > 0,
                0 < -s,
        ;
    }
}

impl PnlTracker {
    pub fn new(log_dir: &str) -> (r: Self)
        ensures
            r@.log_dir == log_dir@,
            r@.trades.len() == 0,
            r@.pending_rows.len() == 0,
    {
        let r = PnlTracker {
            log_dir: String::from_str(log_dir),
            trades: Vec::new(),
            pending_rows: Vec::new(),
        };
        assert(r@.trades =~= Seq::empty());
        assert(r@.pending_rows =~= Seq::empty());
        r
    }

    /// The directory the trade files go to.
    pub fn log_dir(&self) -> (r: &str)
        ensures
            r@ == self@.log_dir,
    {
        self.log_dir.as_str()
    }

    /// Number of trades recorded.
    pub fn trade_count(&self) -> (r: usize)
        ensures
            r == self@.trades.len(),
    {
        self.trades.len()
    }

    /// Copy of the `i`-th trade recorded.
    pub fn trade(&self, i: usize) -> (r: TradeRecord)
        requires
            i < self@.trades.len(),
        ensures
            r@ == self@.trades[i as int],
    {
        self.trades[i].clone()
    }

    /// Records a trade and queues its CSV row for the trade file.
    pub fn record_trade(&mut self, trade: TradeRecord)
        ensures
            final(self)@ == record_spec(old(self)@, trade@),
    {
        let row = csv_row(&trade);
        self.pending_rows.push(row);
        self.trades.push(trade);
        assert(self@.trades =~= old(self)@.trades.push(trade@));
        assert(self@.pending_rows =~= old(self)@.pending_rows.push(csv_row_spec(trade@)));
    }

    /// Hands out the queued CSV rows, oldest first, and empties the queue.
    pub fn take_pending_rows(&mut self) -> (r: Vec<String>)
        ensures
            r@.map_values(|s: String| s@) == old(self)@.pending_rows,
            final(self)@.pending_rows.len() == 0,
            final(self)@.trades == old(self)@.trades,
            final(self)@.log_dir == old(self)@.log_dir,
    {
        let mut rows: Vec<String> = Vec::new();
        std::mem::swap(&mut rows, &mut self.pending_rows);
        assert(self@.pending_rows =~= Seq::empty());
        rows
    }

    /// Totals over all trades, `None` while there are none.
    pub fn summary(&self) -> (r: Option<PnlSummary>)
        ensures
            self@.trades.len() == 0 ==> r is None,
            self@.trades.len() > 0 ==> (r matches Some(s) && summary_matches(s, self@.trades)),
    {
        let n = self.trades.len();
        if n == 0 {
            return None;
        }
        let ghost ts = self@.trades;
        let ghost fp = |t: TradeView| t.pnl_usdc;
        let ghost fe = |t: TradeView| t.edge_pct_at_entry;
        let ghost fs = |t: TradeView| t.staleness_ms;
        let mut total_pnl: i128 = 0;
        let mut total_edge: i128 = 0;
        let mut total_staleness: i128 = 0;
        let mut wins: usize = 0;
        let mut i: usize = 0;
        while i < n
            invariant
                0 <= i <= n,
                n == self.trades@.len(),
                ts == self@.trades,
                ts.len() == n,
                forall|j: int| 0 <= j < n ==> #[trigger] ts[j] == self.trades@[j]@,
                total_pnl == sum_of(ts.take(i as int), fp),
                total_edge == sum_of(ts.take(i as int), fe),
                total_staleness == sum_of(ts.take(i as int), fs),
                wins == win_count(ts.take(i as int)),
                fp == (|t: TradeView| t.pnl_usdc),
                fe == (|t: TradeView| t.edge_pct_at_entry),
                fs == (|t: TradeView| t.staleness_ms),
            decreases n - i,
        {
            let t = &self.trades[i];
            let ghost pre = ts.take(i as int);
            proof {
                assert(ts.take(i + 1).drop_last() =~= pre);
                assert(ts.take(i + 1).last() == t@);
                lemma_sum_bound(pre, fp);
                lemma_sum_bound(pre, fe);
                lemma_sum_bound(pre, fs);
                lemma_win_count_bound(pre);
                assert forall|j: int| 0 <= j < pre.len() implies i64::MIN <= #[trigger] fp(pre[j])
                    <= i64::MAX by {
                    assert(pre[j] == ts[j]);
                }
                assert forall|j: int| 0 <= j < pre.len() implies i64::MIN <= #[trigger] fe(pre[j])
                    <= i64::MAX by {
                    assert(pre[j] == ts[j]);
                }
                assert forall|j: int| 0 <= j < pre.len() implies i64::MIN <= #[trigger] fs(pre[j])
                    <= i64::MAX by {
                    assert(pre[j] == ts[j]);
                }
                assert((i as int) * i64::MAX < 0x7fff_ffff_ffff_ffff_0000_0000_0000_0000) by (
                nonlinear_arith)
                    requires
                        i < 0x1_0000_0000_0000_0000,
                ;
                assert((i as int) * i64::MIN > -0x8000_0000_0000_0000_0000_0000_0000_0000) by (
                nonlinear_arith)
                    requires
                        i < 0x1_0000_0000_0000_0000,
                ;
            }
            total_pnl = total_pnl + t.pnl_usdc as i128;
            total_edge = total_edge + t.edge_pct_at_entry as i128;
            total_staleness = total_staleness + t.staleness_ms as i128;
            if t.pnl_usdc > 0 {
                wins = wins + 1;
            }
            i = i + 1;
        }
        proof {
            assert(ts.take(n as int) =~= ts);
            assert forall|j: int| 0 <= j < ts.len() implies i64::MIN <= #[trigger] fe(ts[j])
                <= i64::MAX by {
                assert(ts[j] == self.trades@[j]@);
            }
            assert forall|j: int| 0 <= j < ts.len() implies i64::MIN <= #[trigger] fs(ts[j])
                <= i64::MAX by {
                assert(ts[j] == self.trades@[j]@);
            }
            lemma_sum_bound(ts, fe);
            lemma_sum_bound(ts, fs);
            lemma_win_count_bound(ts);
            lemma_quotient_bound(sum_of(ts, fe), n as int);
            lemma_quotient_bound(sum_of(ts, fs), n as int);
        }
        let nn = n as i128;
        let avg_edge: i128 = if total_edge >= 0 {
            total_edge / nn
        } else {
            -((-total_edge) / nn)
        };
        let avg_staleness: i128 = if total_staleness >= 0 {
            total_staleness / nn
        } else {
            -((-total_staleness) / nn)
        };
        assert((wins as int) * 100_000_000 / (n as int) <= 100_000_000) by (nonlinear_arith)
            requires
                0 <= wins <= n,
                n > 0,
        ;
        let win_rate: i64 = ((wins as u128) * 100_000_000 / (n as u128)) as i64;
        Some(
            PnlSummary {
                total_trades: n,
                wins,
                total_pnl_usdc: total_pnl,
                win_rate_pct: win_rate,
                avg_edge_pct: avg_edge as i64,
                avg_staleness_ms: avg_staleness as i64,
            },
        )
    }
}

} // verus!
