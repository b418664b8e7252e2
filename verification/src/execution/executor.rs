//! Simulated execution: approved signals open simulated positions, which are
//! closed when their window ends or when they have gained 2%.
use crate::config::Config;
use crate::engine::signal::ArbSignal;
use crate::engine::state::{ContractState, MarketState};
use crate::fixed::same_text;
use crate::logger::pnl::{record_spec, PnlTracker, PnlView, TradeRecord, TradeView};
use crate::risk::manager::{
    close_fits, close_spec, fill_fits, fill_spec, fits_i64, RiskDecision, RiskManager, RiskState,
};
use crate::window::{window_start, window_start_of_micros, window_start_spec, window_of_micros};
use dashmap::DashMap;
use std::sync::Arc;
use vstd::prelude::*;
use vstd::string::*;

verus! {

/// A simulated position. Prices and sizes are in millionths, the edge in
/// billionths, durations in millionths of a millisecond.
#[derive(Debug)]
pub struct SimulatedPosition {
    pub token_id: String,
    pub entry_price: i64,
    pub size_usdc: i64,
    pub direction: String,  // "BuyYes" or "BuyNo"
    pub entry_window_start: u64,
    pub edge_at_entry: i64,
    pub staleness_ms: i64,
    pub signal_to_order_ms: i64,
}

impl Clone for SimulatedPosition {
    fn clone(&self) -> (r: Self)
        ensures
            r == *self,
    {
        SimulatedPosition {
            token_id: self.token_id.clone(),
            entry_price: self.entry_price,
            size_usdc: self.size_usdc,
            direction: self.direction.clone(),
            entry_window_start: self.entry_window_start,
            edge_at_entry: self.edge_at_entry,
            staleness_ms: self.staleness_ms,
            signal_to_order_ms: self.signal_to_order_ms,
        }
    }
}

/// The simulated positions held in a position table, keyed by token.
pub uninterp spec fn simulated_table(m: DashMap<String, SimulatedPosition>) -> Map<
    Seq<char>,
    SimulatedPosition,
>;

/// `DashMap::new`: a table with no entries.
#[verifier::external_body]
fn simulated_new() -> (r: DashMap<String, SimulatedPosition>)
    ensures
        simulated_table(r).dom().is_empty(),
{
    DashMap::new()
}

/// `DashMap::insert`: the token's entry becomes `p`, replacing any earlier one.
#[verifier::external_body]
fn simulated_insert(m: &mut DashMap<String, SimulatedPosition>, token_id: String, p: SimulatedPosition)
    ensures
        simulated_table(*final(m)) == simulated_table(*old(m)).insert(token_id@, p),
{
    m.insert(token_id, p);
}

/// `DashMap::remove`: drops the token's entry and hands back its value.
#[verifier::external_body]
fn simulated_remove(m: &mut DashMap<String, SimulatedPosition>, token_id: &str) -> (r: Option<
    SimulatedPosition,
>)
    ensures
        simulated_table(*final(m)) == simulated_table(*old(m)).remove(token_id@),
        r == (if simulated_table(*old(m)).dom().contains(token_id@) {
            Some(simulated_table(*old(m))[token_id@])
        } else {
            None
        }),
{
    m.remove(token_id).map(|entry| entry.1)
}

/// `DashMap::get`: a copy of the token's entry, if it has one.
#[verifier::external_body]
fn simulated_get(m: &DashMap<String, SimulatedPosition>, token_id: &str) -> (r: Option<
    SimulatedPosition,
>)
    ensures
        r == (if simulated_table(*m).dom().contains(token_id@) {
            Some(simulated_table(*m)[token_id@])
        } else {
            None
        }),
{
    m.get(token_id).map(|entry| entry.value().clone())
}

/// `DashMap::iter`: a copy of every entry, each once, in the map's own order.
#[verifier::external_body]
fn simulated_entries(m: &DashMap<String, SimulatedPosition>) -> (r: Vec<(String, SimulatedPosition)>)
    ensures
        r@.len() == simulated_table(*m).dom().len(),
        forall|i: int|
            0 <= i < r@.len() ==> simulated_table(*m).dom().contains(#[trigger] r@[i].0@)
                && simulated_table(*m)[r@[i].0@] == r@[i].1,
        forall|i: int|
            forall|j: int|
                0 <= i < r@.len() && 0 <= j < r@.len() && i != j ==> #[trigger] r@[i].0@
                    != #[trigger] r@[j].0@,
        forall|k: Seq<char>|
            #[trigger] simulated_table(*m).dom().contains(k) ==> exists|i: int|
                0 <= i < r@.len() && r@[i].0@ == k,
{
    m.iter().map(|entry| (entry.key().clone(), entry.value().clone())).collect()
}

/// Why a position is closed.
#[derive(Debug, Clone, Copy, PartialEq, Eq, Structural)]
pub enum CloseReason {
    /// The 15-minute window the position was opened in has ended.
    WindowExpired,
    /// The position's side has gained 2% or more.
    TakeProfit,
}

impl CloseReason {
    pub fn as_str(&self) -> (r: &'static str)
        ensures
            *self == CloseReason::WindowExpired ==> r@ == "Window Expired"@,
            *self == CloseReason::TakeProfit ==> r@ == "Take Profit >2%"@,
    {
        match self {
            CloseReason::WindowExpired => "Window Expired",
            CloseReason::TakeProfit => "Take Profit >2%",
        }
    }
}

/// The state of an executor: its mode, its risk ledger, its trade journal and
/// its open simulated positions.
pub struct ExecutorView {
    pub simulation_mode: bool,
    pub risk: RiskState,
    pub journal: PnlView,
    pub positions: Map<Seq<char>, SimulatedPosition>,
}

/// The price the position's side trades at in `c`: Yes for a "BuyYes"
/// position, No otherwise.
pub open spec fn side_price(direction: Seq<char>, c: ContractState) -> int {
    if direction == "BuyYes"@ {
        c.yes_price as int
    } else {
        c.no_price as int
    }
}

/// `(price - entry) / entry >= 2%`, read as the real-number comparison it
/// denotes (an entry of zero counts as reached for any positive price).
pub open spec fn profit_reached(price: int, entry: int) -> bool {
    if entry > 0 {
        (price - entry) * 1_000_000 >= 20_000 * entry
    } else if entry < 0 {
        (price - entry) * 1_000_000 <= 20_000 * entry
    } else {
        price > 0
    }
}

/// Why position `p` is due to close at second `now_secs`, if it is.
pub open spec fn close_reason_spec(
    p: SimulatedPosition,
    contracts: Map<Seq<char>, ContractState>,
    now_secs: int,
) -> Option<CloseReason> {
    if window_start_spec(now_secs) != p.entry_window_start {
        Some(CloseReason::WindowExpired)
    } else if contracts.dom().contains(p.token_id@) && profit_reached(
        side_price(p.direction@, contracts[p.token_id@]),
        p.entry_price as int,
    ) {
        Some(CloseReason::TakeProfit)
    } else {
        None
    }
}

/// A position is closed for profit only when its side has gained at least
/// 2%: for a positive entry price, a take-profit implies that the contract is
/// known and the price of the position's side (Yes for a BuyYes, No
/// otherwise) is at least 2% above the entry price, so a side trading below
/// its entry never closes for profit. Within the position's window the
/// converse holds too: such a gain closes it for profit, and anything less
/// leaves it open.
pub proof fn law_take_profit_needs_two_percent(
    p: SimulatedPosition,
    contracts: Map<Seq<char>, ContractState>,
    now_secs: int,
)
    requires
        p.entry_price > 0,
    ensures
        close_reason_spec(p, contracts, now_secs) == Some(CloseReason::TakeProfit) ==> {
            &&& contracts.dom().contains(p.token_id@)
            &&& ((if p.direction@ == "BuyYes"@ {
                contracts[p.token_id@].yes_price
            } else {
                contracts[p.token_id@].no_price
            }) - p.entry_price) * 1_000_000 >= 20_000 * p.entry_price
        },
        contracts.dom().contains(p.token_id@) && (if p.direction@ == "BuyYes"@ {
            contracts[p.token_id@].yes_price
        } else {
            contracts[p.token_id@].no_price
        }) < p.entry_price ==> close_reason_spec(p, contracts, now_secs) != Some(
            CloseReason::TakeProfit,
        ),
        window_start_spec(now_secs) == p.entry_window_start && contracts.dom().contains(
            p.token_id@,
        ) ==> (close_reason_spec(p, contracts, now_secs) == Some(CloseReason::TakeProfit) <==> ((
        if p.direction@ == "BuyYes"@ {
            contracts[p.token_id@].yes_price
        } else {
            contracts[p.token_id@].no_price
        }) - p.entry_price) * 1_000_000 >= 20_000 * p.entry_price),
        window_start_spec(now_secs) == p.entry_window_start && !contracts.dom().contains(
            p.token_id@,
        ) ==> close_reason_spec(p, contracts, now_secs) is None,
{
}

/// The price a position on `token` closes at: its side's current price, or
/// its entry price when the contract is no longer known.
pub open spec fn exit_price_spec(
    p: SimulatedPosition,
    contracts: Map<Seq<char>, ContractState>,
    token: Seq<char>,
) -> int {
    if contracts.dom().contains(token) {
        side_price(p.direction@, contracts[token])
    } else {
        p.entry_price as int
    }
}

/// `a / b` rounded toward zero, for `b != 0`.
pub open spec fn div_toward_zero(a: int, b: int) -> int {
    let q = (if a >= 0 {
        a
    } else {
        -a
    }) / (if b >= 0 {
        b
    } else {
        -b
    });
    if (a >= 0) == (b > 0) {
        q
    } else {
        -q
    }
}

/// The PnL of closing `p` at `exit`: the size times the relative price
/// change, rounded toward zero; zero for an entry price of zero.
pub open spec fn pnl_spec(p: SimulatedPosition, exit: int) -> int {
    if p.entry_price == 0 {
        0
    } else {
        div_toward_zero((exit - p.entry_price) * p.size_usdc, p.entry_price as int)
    }
}

/// The journal entry of a close.
pub open spec fn close_trade(
    p: SimulatedPosition,
    exit: int,
    pnl: int,
    timestamp: Seq<char>,
) -> TradeView {
    TradeView {
        timestamp: timestamp,
        token_id: p.token_id@,
        direction: p.direction@ + "_CLOSE"@,
        size_usdc: p.size_usdc as int,
        entry_price: p.entry_price as int,
        exit_price: exit,
        pnl_usdc: pnl,
        edge_pct_at_entry: p.edge_at_entry as int,
        staleness_ms: p.staleness_ms as int,
        signal_to_order_ms: p.signal_to_order_ms as int,
    }
}

/// A position on `token` is open and its close keeps every amount within an
/// `i64`.
pub open spec fn closable(v: ExecutorView, contracts: Map<Seq<char>, ContractState>, token: Seq<char>) -> bool {
    v.positions.dom().contains(token) && {
        let p = v.positions[token];
        let pnl = pnl_spec(p, exit_price_spec(p, contracts, token));
        fits_i64(pnl) && close_fits(v.risk, token, pnl)
    }
}

/// The executor after closing the position on `token` (nothing changes when
/// it is not closable).
pub open spec fn close_position_spec(
    v: ExecutorView,
    contracts: Map<Seq<char>, ContractState>,
    token: Seq<char>,
    timestamp: Seq<char>,
) -> ExecutorView {
    if closable(v, contracts, token) {
        let p = v.positions[token];
        let exit = exit_price_spec(p, contracts, token);
        let pnl = pnl_spec(p, exit);
        ExecutorView {
            simulation_mode: v.simulation_mode,
            risk: close_spec(v.risk, token, pnl),
            journal: record_spec(v.journal, close_trade(p, exit, pnl, timestamp)),
            positions: v.positions.remove(token),
        }
    } else {
        v
    }
}

/// The executor after closing the positions on `tokens` in order.
pub open spec fn close_all_spec(
    v: ExecutorView,
    contracts: Map<Seq<char>, ContractState>,
    tokens: Seq<Seq<char>>,
    timestamp: Seq<char>,
) -> ExecutorView
    decreases tokens.len(),
{
    if tokens.len() == 0 {
        v
    } else {
        close_position_spec(
            close_all_spec(v, contracts, tokens.drop_last(), timestamp),
            contracts,
            tokens.last(),
            timestamp,
        )
    }
}

/// What a simulated buy stores and journals, as seen through the fields that
/// are plain values.
pub open spec fn buy_parts(signal: ArbSignal) -> Option<(String, i64, i64, u64, u64, Seq<char>)> {
    match signal {
        ArbSignal::BuyYes { token_id, price, edge_pct, created_at_us, staleness_ms, .. } => Some(
            (token_id, price, edge_pct, staleness_ms, created_at_us, "BuyYes"@),
        ),
        ArbSignal::BuyNo { token_id, price, edge_pct, created_at_us, staleness_ms, .. } => Some(
            (token_id, price, edge_pct, staleness_ms, created_at_us, "BuyNo"@),
        ),
        ArbSignal::NoSignal => None,
    }
}

/// The signal, if it is a buy, was created no later than `now_us`.
pub open spec fn dated_by(signal: ArbSignal, now_us: int) -> bool {
    match buy_parts(signal) {
        Some((token_id, price, edge, staleness_ms, created_at_us, direction)) => created_at_us
            <= now_us,
        None => true,
    }
}

/// A simulated buy of `size` on `signal` at `now_us` is possible: the signal
/// is a buy, its durations fit in millionths, and the fill keeps the ledger
/// within an `i64`.
pub open spec fn buy_fits(v: ExecutorView, signal: ArbSignal, size: int, now_us: int) -> bool {
    match buy_parts(signal) {
        Some((token_id, price, edge, staleness_ms, created_at_us, direction)) => {
            &&& (now_us - created_at_us) * 1_000 <= i64::MAX
            &&& staleness_ms * 1_000_000 <= i64::MAX
            &&& fill_fits(v.risk, size)
        },
        None => false,
    }
}

/// The executor after a simulated buy of `size` on `signal` at `now_us`
/// (assuming `buy_fits`).
pub open spec fn buy_spec(
    v: ExecutorView,
    signal: ArbSignal,
    size: i64,
    now_us: int,
    timestamp: Seq<char>,
    position: SimulatedPosition,
) -> ExecutorView {
    match buy_parts(signal) {
        Some((token_id, price, edge, staleness_ms, created_at_us, direction)) => {
            let stale = staleness_ms * 1_000_000;
            let delay = (now_us - created_at_us) * 1_000;
            ExecutorView {
                simulation_mode: v.simulation_mode,
                risk: fill_spec(v.risk, token_id, size),
                journal: record_spec(
                    v.journal,
                    TradeView {
                        timestamp: timestamp,
                        token_id: token_id@,
                        direction: direction,
                        size_usdc: size as int,
                        entry_price: price as int,
                        exit_price: 0,
                        pnl_usdc: 0,
                        edge_pct_at_entry: edge as int,
                        staleness_ms: stale,
                        signal_to_order_ms: delay,
                    },
                ),
                positions: v.positions.insert(token_id@, position),
            }
        },
        None => v,
    }
}

/// `position` is the simulated position a buy on `signal` at `now_us` opens.
pub open spec fn position_opened(position: SimulatedPosition, signal: ArbSignal, size: i64, now_us: int) -> bool {
    match buy_parts(signal) {
        Some((token_id, price, edge, staleness_ms, created_at_us, direction)) => {
            &&& position.token_id == token_id
            &&& position.entry_price == price
            &&& position.size_usdc == size
            &&& position.direction@ == direction
            &&& position.entry_window_start == window_of_micros(now_us)
            &&& position.edge_at_entry == edge
            &&& position.staleness_ms == staleness_ms * 1_000_000
            &&& position.signal_to_order_ms == (now_us - created_at_us) * 1_000
        },
        None => false,
    }
}

/// A simulated buy takes the signal's side: on a BuyYes the position opened
/// and the journal entry both say "BuyYes" and carry the signal's token and
/// Yes price; on a BuyNo both say "BuyNo" and carry the signal's token and No
/// price. The position is held under the signal's token.
pub proof fn law_position_side_follows_signal(
    v: ExecutorView,
    signal: ArbSignal,
    size: i64,
    now_us: int,
    timestamp: Seq<char>,
    p: SimulatedPosition,
)
    requires
        position_opened(p, signal, size, now_us),
    ensures
        signal matches ArbSignal::BuyYes { token_id, price, .. } ==> {
            let w = buy_spec(v, signal, size, now_us, timestamp, p);
            &&& p.direction@ == "BuyYes"@
            &&& p.token_id@ == token_id@
            &&& p.entry_price == price
            &&& p.size_usdc == size
            &&& w.positions.dom().contains(token_id@) && w.positions[token_id@] == p
            &&& w.journal.trades.len() == v.journal.trades.len() + 1
            &&& w.journal.trades.last().direction == "BuyYes"@
            &&& w.journal.trades.last().token_id == token_id@
            &&& w.journal.trades.last().entry_price == price
        },
        signal matches ArbSignal::BuyNo { token_id, price, .. } ==> {
            let w = buy_spec(v, signal, size, now_us, timestamp, p);
            &&& p.direction@ == "BuyNo"@
            &&& p.token_id@ == token_id@
            &&& p.entry_price == price
            &&& p.size_usdc == size
            &&& w.positions.dom().contains(token_id@) && w.positions[token_id@] == p
            &&& w.journal.trades.len() == v.journal.trades.len() + 1
            &&& w.journal.trades.last().direction == "BuyNo"@
            &&& w.journal.trades.last().token_id == token_id@
            &&& w.journal.trades.last().entry_price == price
        },
{
}

/// The size a risk decision approves, if it approves.
pub open spec fn approved_size(d: RiskDecision) -> Option<i64> {
    match d {
        RiskDecision::Approved { size_usdc } => Some(size_usdc),
        RiskDecision::Rejected { .. } => None,
    }
}

/// Whether an approved trade is simulated: in simulation mode always, and in
/// live mode unless live trading has been switched on (which is not
/// implemented, so nothing happens then).
pub open spec fn simulates(v: ExecutorView, live_active: bool) -> bool {
    v.simulation_mode || !live_active
}

/// The simulated book and the risk ledger hold the same tokens, each with
/// the same size.
pub open spec fn book_matches_ledger(v: ExecutorView) -> bool {
    &&& v.positions.dom() == v.risk.positions.dom()
    &&& forall|k: Seq<char>| #[trigger]
        v.positions.dom().contains(k) ==> v.positions[k].size_usdc
            == v.risk.positions[k].entry_size_usdc
}

/// Opening a simulated position keeps the book and the ledger in step.
pub proof fn law_buy_keeps_book_in_step(
    v: ExecutorView,
    signal: ArbSignal,
    size: i64,
    now_us: int,
    timestamp: Seq<char>,
    p: SimulatedPosition,
)
    requires
        book_matches_ledger(v),
        position_opened(p, signal, size, now_us),
    ensures
        book_matches_ledger(buy_spec(v, signal, size, now_us, timestamp, p)),
{
    let w = buy_spec(v, signal, size, now_us, timestamp, p);
    assert(w.positions.dom() =~= w.risk.positions.dom());
}

/// Closing a simulated position keeps the book and the ledger in step, and
/// the PnL it journals is exactly what the ledger realises.
pub proof fn law_close_keeps_book_in_step(
    v: ExecutorView,
    contracts: Map<Seq<char>, ContractState>,
    token: Seq<char>,
    timestamp: Seq<char>,
)
    requires
        book_matches_ledger(v),
    ensures
        book_matches_ledger(close_position_spec(v, contracts, token, timestamp)),
        closable(v, contracts, token) ==> {
            let w = close_position_spec(v, contracts, token, timestamp);
            &&& !w.positions.dom().contains(token)
            &&& w.journal.trades.len() == v.journal.trades.len() + 1
            &&& w.risk.daily_pnl - v.risk.daily_pnl == w.journal.trades.last().pnl_usdc
            &&& w.risk.capital - v.risk.capital == v.positions[token].size_usdc
                + w.journal.trades.last().pnl_usdc
        },
{
    let w = close_position_spec(v, contracts, token, timestamp);
    if closable(v, contracts, token) {
        assert(w.positions.dom() =~= w.risk.positions.dom());
    }
}

pub struct Executor {
    config: Arc<Config>,
    risk_manager: RiskManager,
    pnl_tracker: PnlTracker,
    open_positions: DashMap<String, SimulatedPosition>,
}

impl View for Executor {
    type V = ExecutorView;

    closed spec fn view(&self) -> ExecutorView {
        ExecutorView {
            simulation_mode: self.config.execution.simulation_mode,
            risk: self.risk_manager@,
            journal: self.pnl_tracker@,
            positions: simulated_table(self.open_positions),
        }
    }
}

impl Executor {
    /// Well-formed: the ledger is well-formed, and finitely many positions are
    /// open, each stored under its own token.
    pub open spec fn wf(&self) -> bool {
        &&& self.risk_wf()
        &&& self@.positions.dom().finite()
        &&& forall|k: Seq<char>| #[trigger]
            self@.positions.dom().contains(k) ==> self@.positions[k].token_id@ == k
    }

    pub closed spec fn risk_wf(&self) -> bool {
        self.risk_manager.wf()
    }

    pub fn new(config: Arc<Config>, risk_manager: RiskManager, pnl_tracker: PnlTracker) -> (r: Self)
        requires
            risk_manager.wf(),
        ensures
            r.wf(),
            r@.simulation_mode == config.execution.simulation_mode,
            r@.risk == risk_manager@,
            r@.journal == pnl_tracker@,
            r@.positions.dom().is_empty(),
            risk_manager@.positions.dom().is_empty() ==> book_matches_ledger(r@),
    {
        let r = Executor { config, risk_manager, pnl_tracker, open_positions: simulated_new() };
        assert(r@.risk.positions.dom().is_empty() ==> r@.positions.dom() =~= r@.risk.positions.dom());
        r
    }

    /// The risk ledger.
    pub fn risk_manager(&self) -> (r: &RiskManager)
        requires
            self.wf(),
        ensures
            r@ == self@.risk,
            r.wf(),
    {
        &self.risk_manager
    }

    /// The trade journal.
    pub fn pnl_tracker(&self) -> (r: &PnlTracker)
        ensures
            r@ == self@.journal,
    {
        &self.pnl_tracker
    }

    /// Hands out the journal's queued CSV rows, oldest first.
    pub fn take_pending_rows(&mut self) -> (r: Vec<String>)
        requires
            old(self).wf(),
        ensures
            final(self).wf(),
            r@.map_values(|s: String| s@) == old(self)@.journal.pending_rows,
            final(self)@.journal.pending_rows.len() == 0,
            final(self)@.journal.trades == old(self)@.journal.trades,
            final(self)@.risk == old(self)@.risk,
            final(self)@.positions == old(self)@.positions,
            final(self)@.simulation_mode == old(self)@.simulation_mode,
    {
        self.pnl_tracker.take_pending_rows()
    }

    /// Copy of the open position on `token_id`, if there is one.
    pub fn position(&self, token_id: &str) -> (r: Option<SimulatedPosition>)
        ensures
            r == (if self@.positions.dom().contains(token_id@) {
                Some(self@.positions[token_id@])
            } else {
                None
            }),
    {
        simulated_get(&self.open_positions, token_id)
    }

    /// Closes the positions that are due at second `now_secs`: those opened
    /// in an earlier window, and those whose side has gained 2% or more.
    /// Returns every due position, each with its reason, in the order they
    /// were taken up. A due position whose close would take the PnL or the
    /// risk ledger outside an `i64` (it is not `closable`) is listed but
    /// stays open, unchanged.
    pub fn check_and_close_positions(
        &mut self,
        market: &MarketState,
        now_secs: u64,
        timestamp: &str,
    ) -> (r: Vec<(String, CloseReason)>)
        requires
            old(self).wf(),
        ensures
            final(self).wf(),
            forall|i: int|
                #![trigger r@[i]]
                0 <= i < r@.len() ==> old(self)@.positions.dom().contains(r@[i].0@)
                    && close_reason_spec(
                    old(self)@.positions[r@[i].0@],
                    market@.contracts,
                    now_secs as int,
                ) == Some(r@[i].1),
            forall|k: Seq<char>|
                #[trigger] old(self)@.positions.dom().contains(k) && close_reason_spec(
                    old(self)@.positions[k],
                    market@.contracts,
                    now_secs as int,
                ) is Some ==> exists|i: int| 0 <= i < r@.len() && r@[i].0@ == k,
            forall|i: int, j: int| 0 <= i < j < r@.len() ==> (#[trigger] r@[i]).0@ != (#[trigger] r@[j]).0@,
            final(self)@ == close_all_spec(
                old(self)@,
                market@.contracts,
                r@.map_values(|e: (String, CloseReason)| e.0@),
                timestamp@,
            ),
    {
        let current_window = window_start(now_secs);
        let entries = simulated_entries(&self.open_positions);
        let ghost table = self@.positions;
        let ghost contracts = market@.contracts;
        let mut to_close: Vec<(String, CloseReason)> = Vec::new();
        let ghost mut origin: Seq<int> = Seq::empty();
        let mut idx: usize = 0;
        while idx < entries.len()
            invariant
                0 <= idx <= entries@.len(),
                table == self@.positions,
                contracts == market@.contracts,
                current_window == window_start_spec(now_secs as int),
                self.wf(),
                forall|i: int|
                    0 <= i < entries@.len() ==> table.dom().contains(#[trigger] entries@[i].0@)
                        && table[entries@[i].0@] == entries@[i].1,
                forall|i: int|
                    forall|j: int|
                        0 <= i < entries@.len() && 0 <= j < entries@.len() && i != j
                            ==> #[trigger] entries@[i].0@ != #[trigger] entries@[j].0@,
                origin.len() == to_close@.len(),
                forall|i: int|
                    0 <= i < to_close@.len() ==> 0 <= #[trigger] origin[i] < idx
                        && to_close@[i].0@ == entries@[origin[i]].0@ && close_reason_spec(
                        entries@[origin[i]].1,
                        contracts,
                        now_secs as int,
                    ) == Some(to_close@[i].1),
                forall|i: int, j: int| 0 <= i < j < to_close@.len() ==> origin[i] < origin[j],
                forall|j: int|
                    0 <= j < idx && close_reason_spec(#[trigger] entries@[j].1, contracts, now_secs as int)
                        is Some ==> exists|i: int| 0 <= i < to_close@.len() && #[trigger] origin[i] == j,
            decreases entries@.len() - idx,
        {
            let key = &entries[idx].0;
            let pos = &entries[idx].1;
            let reason = if current_window != pos.entry_window_start {
                // 1. Window rollover
                Some(CloseReason::WindowExpired)
            } else {
                // 2. Price move > 2% in favor
                match market.contract(pos.token_id.as_str()) {
                    Some(contract) => {
                        let current_price = if same_text(pos.direction.as_str(), "BuyYes") {
                            contract.yes_price
                        } else {
                            contract.no_price
                        };
                        proof {
                            reveal_strlit("BuyYes");
                        }
                        if Self::profit_reached(current_price, pos.entry_price) {
                            Some(CloseReason::TakeProfit)
                        } else {
                            None
                        }
                    },
                    None => None,
                }
            };
            let ghost old_origin = origin;
            let ghost old_len = to_close@.len();
            match reason {
                Some(why) => {
                    proof {
                        origin = origin.push(idx as int);
                    }
                    to_close.push((key.clone(), why));
                    proof {
                        assert forall|j: int|
                            0 <= j < idx && close_reason_spec(
                                #[trigger] entries@[j].1,
                                contracts,
                                now_secs as int,
                            ) is Some implies exists|i: int|
                                0 <= i < to_close@.len() && #[trigger] origin[i] == j by {
                            let i = choose|i: int| 0 <= i < old_len && #[trigger] old_origin[i] == j;
                            assert(origin[i] == old_origin[i]);
                        }
                        assert(origin[old_len as int] == idx);
                    }
                },
                None => {},
            }
            idx = idx + 1;
        }
        let ghost v0 = self@;
        let ghost tokens = to_close@.map_values(|e: (String, CloseReason)| e.0@);
        let mut c: usize = 0;
        while c < to_close.len()
            invariant
                0 <= c <= to_close@.len(),
                tokens == to_close@.map_values(|e: (String, CloseReason)| e.0@),
                contracts == market@.contracts,
                self.wf(),
                self@ == close_all_spec(v0, contracts, tokens.take(c as int), timestamp@),
            decreases to_close@.len() - c,
        {
            proof {
                assert(tokens.take(c + 1).drop_last() =~= tokens.take(c as int));
                assert(tokens.take(c + 1).last() == to_close@[c as int].0@);
            }
            self.close_position(market, to_close[c].0.as_str(), timestamp);
            c = c + 1;
        }
        proof {
            assert(tokens.take(c as int) =~= tokens);
            assert forall|i: int|
                #![trigger to_close@[i]]
                0 <= i < to_close@.len() implies v0.positions.dom().contains(to_close@[i].0@)
                    && close_reason_spec(
                    v0.positions[to_close@[i].0@],
                    contracts,
                    now_secs as int,
                ) == Some(to_close@[i].1) by {
                let j = origin[i];
                assert(table.dom().contains(entries@[j].0@));
            }
            assert forall|k: Seq<char>|
                #[trigger] v0.positions.dom().contains(k) && close_reason_spec(
                    v0.positions[k],
                    contracts,
                    now_secs as int,
                ) is Some implies exists|i: int| 0 <= i < to_close@.len() && to_close@[i].0@ == k by {
                let j = choose|j: int| 0 <= j < entries@.len() && entries@[j].0@ == k;
                assert(close_reason_spec(entries@[j].1, contracts, now_secs as int) is Some);
                let i = choose|i: int| 0 <= i < to_close@.len() && origin[i] == j;
                assert(to_close@[i].0@ == k);
            }
            assert forall|i: int, j: int| 0 <= i < j < to_close@.len() implies (
            #[trigger] to_close@[i]).0@ != (#[trigger] to_close@[j]).0@ by {
                assert(entries@[origin[i]].0@ != entries@[origin[j]].0@);
            }
        }
        to_close
    }

    /// Carries out a risk decision on a signal: a rejected signal is dropped;
    /// an approved one opens a simulated position (in simulation mode, or in
    /// live mode while live trading is not switched on). Returns whether a
    /// position was opened.
    /// A buy that is simulated must not be dated after `current_time_us`:
    /// its signal-to-order delay would be negative.
    pub fn execute(
        &mut self,
        signal: &ArbSignal,
        risk_decision: &RiskDecision,
        live_active: bool,
        current_time_us: u64,
        timestamp: &str,
    ) -> (r: bool)
        requires
            old(self).wf(),
            approved_size(*risk_decision) is Some && simulates(old(self)@, live_active) ==> dated_by(
                *signal,
                current_time_us as int,
            ),
        ensures
            final(self).wf(),
            r == (approved_size(*risk_decision) matches Some(size) && simulates(old(self)@, live_active)
                && buy_fits(old(self)@, *signal, size as int, current_time_us as int)),
            r ==> (approved_size(*risk_decision) matches Some(size) && exists|p: SimulatedPosition|
                position_opened(p, *signal, size, current_time_us as int) && final(self)@ == buy_spec(
                    old(self)@,
                    *signal,
                    size,
                    current_time_us as int,
                    timestamp@,
                    p,
                )),
            !r ==> final(self)@ == old(self)@,
    {
        let size_usdc = match risk_decision {
            RiskDecision::Approved { size_usdc } => *size_usdc,
            RiskDecision::Rejected { .. } => {
                return false;
            },
        };
        if self.config.execution.simulation_mode || !live_active {
            self.simulate_execution(signal, size_usdc, current_time_us, timestamp)
        } else {
            // Live trading is not implemented.
            false
        }
    }

    fn simulate_execution(
        &mut self,
        signal: &ArbSignal,
        size_usdc: i64,
        current_time_us: u64,
        timestamp: &str,
    ) -> (r: bool)
        requires
            old(self).wf(),
            dated_by(*signal, current_time_us as int),
        ensures
            final(self).wf(),
            r == buy_fits(old(self)@, *signal, size_usdc as int, current_time_us as int),
            r ==> exists|p: SimulatedPosition|
                position_opened(p, *signal, size_usdc, current_time_us as int) && final(self)@
                    == buy_spec(old(self)@, *signal, size_usdc, current_time_us as int, timestamp@, p),
            !r ==> final(self)@ == old(self)@,
    {
        let (token_id, entry_price, edge_pct, direction, staleness_ms, created_at_us) = match signal {
            ArbSignal::BuyYes { token_id, price, edge_pct, created_at_us, staleness_ms, .. } => (
                token_id,
                *price,
                *edge_pct,
                "BuyYes",
                *staleness_ms,
                *created_at_us,
            ),
            ArbSignal::BuyNo { token_id, price, edge_pct, created_at_us, staleness_ms, .. } => (
                token_id,
                *price,
                *edge_pct,
                "BuyNo",
                *staleness_ms,
                *created_at_us,
            ),
            ArbSignal::NoSignal => {
                return false;
            },
        };
        let delay_us = current_time_us - created_at_us;
        if delay_us > 9_223_372_036_854_775 || staleness_ms > 9_223_372_036_854 {
            return false;
        }
        if !self.risk_manager.fill_fits(size_usdc) {
            return false;
        }
        self.risk_manager.record_fill(token_id.clone(), size_usdc);
        let window_start = window_start_of_micros(current_time_us);
        let position = SimulatedPosition {
            token_id: token_id.clone(),
            entry_price,
            size_usdc,
            direction: String::from_str(direction),
            entry_window_start: window_start,
            edge_at_entry: edge_pct,
            staleness_ms: (staleness_ms * 1_000_000) as i64,
            signal_to_order_ms: (delay_us * 1_000) as i64,
        };
        let ghost p = position;
        simulated_insert(&mut self.open_positions, token_id.clone(), position);
        let record = TradeRecord {
            timestamp: String::from_str(timestamp),
            token_id: token_id.clone(),
            direction: String::from_str(direction),
            size_usdc,
            entry_price,
            exit_price: 0,
            pnl_usdc: 0,
            edge_pct_at_entry: edge_pct,
            staleness_ms: (staleness_ms * 1_000_000) as i64,
            signal_to_order_ms: (delay_us * 1_000) as i64,
        };
        self.pnl_tracker.record_trade(record);
        assert(position_opened(p, *signal, size_usdc, current_time_us as int));
        true
    }

    fn profit_reached(price: i64, entry: i64) -> (r: bool)
        ensures
            r == profit_reached(price as int, entry as int),
    {
        let diff: i128 = (price as i128) - (entry as i128);
        let target: i128 = 20_000 * (entry as i128);
        if entry > 0 {
            diff * 1_000_000 >= target
        } else if entry < 0 {
            diff * 1_000_000 <= target
        } else {
            price > 0
        }
    }

    fn close_pnl(p: &SimulatedPosition, exit: i64) -> (r: i128)
        ensures
            r == pnl_spec(*p, exit as int),
    {
        if p.entry_price == 0 {
            return 0;
        }
        let diff: i128 = (exit as i128) - (p.entry_price as i128);
        assert(-0x8000_0000_0000_0000_0000_0000_0000_0000 < diff * (p.size_usdc as int)
            < 0x8000_0000_0000_0000_0000_0000_0000_0000) by (nonlinear_arith)
            requires
                -0x1_0000_0000_0000_0000 < diff < 0x1_0000_0000_0000_0000,
                i64::MIN <= p.size_usdc <= i64::MAX,
        ;
        let a: i128 = diff * (p.size_usdc as i128);
        let b: i128 = p.entry_price as i128;
        let ma: i128 = if a >= 0 {
            a
        } else {
            -a
        };
        let mb: i128 = if b >= 0 {
            b
        } else {
            -b
        };
        let q: i128 = ma / mb;
        assert(q <= ma) by (nonlinear_arith)
            requires
                ma >= 0,
                mb >= 1,
                q == ma / mb,
        ;
        if (a >= 0) == (b > 0) {
            q
        } else {
            -q
        }
    }

    /// Closes the position on `token_id` at its side's current price in
    /// `market`, realising its PnL in the ledger and journalling the exit.
    /// Returns whether a position was closed.
    pub fn close_position(&mut self, market: &MarketState, token_id: &str, timestamp: &str) -> (r: bool)
        requires
            old(self).wf(),
        ensures
            final(self).wf(),
            r == closable(old(self)@, market@.contracts, token_id@),
            final(self)@ == close_position_spec(old(self)@, market@.contracts, token_id@, timestamp@),
    {
        let pos = match simulated_get(&self.open_positions, token_id) {
            Some(p) => p,
            None => {
                return false;
            },
        };
        let current_price = match market.contract(token_id) {
            Some(contract) => {
                proof {
                    reveal_strlit("BuyYes");
                }
                if same_text(pos.direction.as_str(), "BuyYes") {
                    contract.yes_price
                } else {
                    contract.no_price
                }
            },
            // If contract missing, assume neutral exit
            None => pos.entry_price,
        };
        let pnl_wide = Self::close_pnl(&pos, current_price);
        if pnl_wide < i64::MIN as i128 || pnl_wide > i64::MAX as i128 {
            return false;
        }
        let pnl_usdc = pnl_wide as i64;
        if !self.risk_manager.close_fits(token_id, pnl_usdc) {
            return false;
        }
        let _ = simulated_remove(&mut self.open_positions, token_id);
        self.risk_manager.record_close(token_id, pnl_usdc);
        proof {
            reveal_strlit("_CLOSE");
        }
        let mut direction = pos.direction.clone();
        direction.append("_CLOSE");
        let record = TradeRecord {
            timestamp: String::from_str(timestamp),
            token_id: pos.token_id,
            direction,
            size_usdc: pos.size_usdc,
            entry_price: pos.entry_price,
            exit_price: current_price,
            pnl_usdc,
            edge_pct_at_entry: pos.edge_at_entry,
            staleness_ms: pos.staleness_ms,
            signal_to_order_ms: pos.signal_to_order_ms,
        };
        self.pnl_tracker.record_trade(record);
        true
    }
}

} // verus!
