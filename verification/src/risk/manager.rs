//! Risk gate and capital ledger: every signal is approved with a size or
//! rejected with a reason, and fills and closes move capital between the
//! available balance and open positions.
use crate::config::{Config, RiskConfig};
use crate::engine::signal::ArbSignal;
use crate::fixed::{decimal_text, fixed_text, push_decimal, push_fixed, push_shortest, shortest_text};
use dashmap::DashMap;
use std::sync::Arc;
use vstd::prelude::*;
use vstd::string::*;

verus! {

/// An open position: the token and the USDC (millionths) put into it.
#[derive(Debug)]
pub struct Position {
    pub token_id: String,
    pub entry_size_usdc: i64,
}

impl Clone for Position {
    fn clone(&self) -> (r: Self)
        ensures
            r == *self,
    {
        Position { token_id: self.token_id.clone(), entry_size_usdc: self.entry_size_usdc }
    }
}

/// The answer to a signal: a size in millionths of USDC, or the reason for
/// refusing it.
#[derive(Debug, Clone, PartialEq)]
pub enum RiskDecision {
    Approved { size_usdc: i64 },
    Rejected { reason: String },
}

/// A risk decision as a mathematical value.
pub enum RiskVerdict {
    Approve(int),
    Reject(Seq<char>),
}

impl View for RiskDecision {
    type V = RiskVerdict;

    open spec fn view(&self) -> RiskVerdict {
        match self {
            RiskDecision::Approved { size_usdc } => RiskVerdict::Approve(*size_usdc as int),
            RiskDecision::Rejected { reason } => RiskVerdict::Reject(reason@),
        }
    }
}

/// The open positions held in a position table, keyed by token.
pub uninterp spec fn position_table(m: DashMap<String, Position>) -> Map<Seq<char>, Position>;

/// `DashMap::new`: a table with no entries.
#[verifier::external_body]
fn positions_new() -> (r: DashMap<String, Position>)
    ensures
        position_table(r).dom().is_empty(),
{
    DashMap::new()
}

/// `DashMap::len`: the number of entries.
#[verifier::external_body]
fn positions_len(m: &DashMap<String, Position>) -> (r: usize)
    ensures
        r as nat == position_table(*m).dom().len(),
{
    m.len()
}

/// `DashMap::contains_key`: whether the token has an entry.
#[verifier::external_body]
fn positions_contains(m: &DashMap<String, Position>, token_id: &str) -> (r: bool)
    ensures
        r == position_table(*m).dom().contains(token_id@),
{
    m.contains_key(token_id)
}

/// `DashMap::insert`: the token's entry becomes `p`, replacing any earlier one.
#[verifier::external_body]
fn positions_insert(m: &mut DashMap<String, Position>, token_id: String, p: Position)
    ensures
        position_table(*final(m)) == position_table(*old(m)).insert(token_id@, p),
{
    m.insert(token_id, p);
}

/// `DashMap::get`: a copy of the token's entry, if it has one.
#[verifier::external_body]
fn positions_get(m: &DashMap<String, Position>, token_id: &str) -> (r: Option<Position>)
    ensures
        r == (if position_table(*m).dom().contains(token_id@) {
            Some(position_table(*m)[token_id@])
        } else {
            None
        }),
{
    m.get(token_id).map(|entry| entry.value().clone())
}

/// `DashMap::remove`: drops the token's entry and hands back its value.
#[verifier::external_body]
fn positions_remove(m: &mut DashMap<String, Position>, token_id: &str) -> (r: Option<Position>)
    ensures
        position_table(*final(m)) == position_table(*old(m)).remove(token_id@),
        r == (if position_table(*old(m)).dom().contains(token_id@) {
            Some(position_table(*old(m))[token_id@])
        } else {
            None
        }),
{
    m.remove(token_id).map(|entry| entry.1)
}

/// The state of a risk manager: its limits, the day's realised PnL, the open
/// positions, the USDC deployed in them and the USDC still available (all
/// amounts in millionths).
pub struct RiskState {
    pub risk: RiskConfig,
    pub daily_pnl: int,
    pub positions: Map<Seq<char>, Position>,
    pub deployed: int,
    pub capital: int,
}

pub open spec fn fits_i64(v: int) -> bool {
    i64::MIN <= v <= i64::MAX
}

/// `a / b` rounded toward zero, for `b > 0`.
pub open spec fn trunc_div(a: int, b: int) -> int {
    if a >= 0 {
        a / b
    } else {
        -((-a) / b)
    }
}

/// The size offered for an edge: ten times the edge's share of the available
/// capital, at most `max_position_usdc` and never below zero.
pub open spec fn position_size(risk: RiskConfig, capital: int, edge: int) -> int {
    let scaled = trunc_div(capital * edge, 100_000_000);
    let capped = if (risk.max_position_usdc as int) < scaled {
        risk.max_position_usdc as int
    } else {
        scaled
    };
    if capped > 0 {
        capped
    } else {
        0
    }
}

/// What the risk gate answers to `signal` in state `s`. The checks come in
/// this order: no signal, daily loss limit, number of open positions, a
/// position already open on the token, edge below the threshold, and a size
/// that comes out at zero.
pub open spec fn evaluate_spec(s: RiskState, signal: ArbSignal) -> RiskVerdict {
    match (signal.token_spec(), signal.edge_spec()) {
        (Some(token), Some(edge)) => {
            if s.daily_pnl <= -(s.risk.max_daily_loss_usdc as int) {
                RiskVerdict::Reject("Daily loss limit hit: "@ + shortest_text(s.daily_pnl))
            } else if s.positions.dom().len() >= s.risk.max_concurrent_positions {
                RiskVerdict::Reject(
                    "Max concurrent positions ("@ + decimal_text(
                        s.risk.max_concurrent_positions as nat,
                    ) + ") reached"@,
                )
            } else if s.positions.dom().contains(token) {
                RiskVerdict::Reject("Position already open for token "@ + token)
            } else if edge < s.risk.arb_threshold_pct {
                RiskVerdict::Reject(
                    "Edge "@ + fixed_text(edge, 7, 3) + "% below threshold "@ + fixed_text(
                        s.risk.arb_threshold_pct as int,
                        7,
                        3,
                    ) + "%"@,
                )
            } else if position_size(s.risk, s.capital, edge) <= 0 {
                RiskVerdict::Reject("Calculated size is <= 0"@)
            } else {
                RiskVerdict::Approve(position_size(s.risk, s.capital, edge))
            }
        },
        _ => RiskVerdict::Reject("NoSignal"@),
    }
}

/// The state after a fill of `size_usdc` on `token_id`.
pub open spec fn fill_spec(s: RiskState, token_id: String, size_usdc: i64) -> RiskState {
    RiskState {
        risk: s.risk,
        daily_pnl: s.daily_pnl,
        positions: s.positions.insert(
            token_id@,
            Position { token_id: token_id, entry_size_usdc: size_usdc },
        ),
        deployed: s.deployed + size_usdc,
        capital: s.capital - size_usdc,
    }
}

/// The state after closing `token` with realised `pnl`; nothing changes when
/// no position is open on it.
pub open spec fn close_spec(s: RiskState, token: Seq<char>, pnl: int) -> RiskState {
    if s.positions.dom().contains(token) {
        let e = s.positions[token].entry_size_usdc as int;
        RiskState {
            risk: s.risk,
            daily_pnl: s.daily_pnl + pnl,
            positions: s.positions.remove(token),
            deployed: s.deployed - e,
            capital: s.capital + e + pnl,
        }
    } else {
        s
    }
}

/// Whether a fill keeps every amount within an `i64`.
pub open spec fn fill_fits(s: RiskState, size: int) -> bool {
    fits_i64(s.deployed + size) && fits_i64(s.capital - size)
}

/// Whether a close keeps every amount within an `i64`.
pub open spec fn close_fits(s: RiskState, token: Seq<char>, pnl: int) -> bool {
    s.positions.dom().contains(token) ==> {
        let e = s.positions[token].entry_size_usdc as int;
        &&& fits_i64(s.deployed - e)
        &&& fits_i64(s.daily_pnl + pnl)
        &&& fits_i64(s.capital + e + pnl)
    }
}

/// Capital is conserved: what is available plus what is deployed is the
/// starting capital plus the day's realised PnL.
pub open spec fn conserved(s: RiskState) -> bool {
    s.capital + s.deployed == s.risk.starting_capital_usdc + s.daily_pnl
}

pub struct RiskManager {
    config: Arc<Config>,
    daily_pnl: i64,
    open_positions: DashMap<String, Position>,
    total_deployed_usdc: i64,
    available_capital: i64,
}

impl View for RiskManager {
    type V = RiskState;

    closed spec fn view(&self) -> RiskState {
        RiskState {
            risk: self.config.risk,
            daily_pnl: self.daily_pnl as int,
            positions: position_table(self.open_positions),
            deployed: self.total_deployed_usdc as int,
            capital: self.available_capital as int,
        }
    }
}

impl RiskManager {
    /// Well-formed: capital is conserved and finitely many positions are open.
    pub open spec fn wf(&self) -> bool {
        &&& conserved(self@)
        &&& self@.positions.dom().finite()
    }

    pub fn new(config: Arc<Config>) -> (r: Self)
        ensures
            r.wf(),
            r@.risk == config.risk,
            r@.daily_pnl == 0,
            r@.positions.dom().is_empty(),
            r@.deployed == 0,
            r@.capital == config.risk.starting_capital_usdc,
    {
        let starting_capital = config.risk.starting_capital_usdc;
        let r = RiskManager {
            config,
            daily_pnl: 0,
            open_positions: positions_new(),
            total_deployed_usdc: 0,
            available_capital: starting_capital,
        };
        assert(r@.positions.dom() =~= Set::empty());
        r
    }

    /// Approves `signal` with a size or rejects it with a reason.
    pub fn evaluate(&self, signal: &ArbSignal) -> (r: RiskDecision)
        ensures
            r@ == evaluate_spec(self@, *signal),
    {
        let (token_id, edge_pct) = match signal {
            ArbSignal::BuyYes { token_id, edge_pct, .. } => (token_id, *edge_pct),
            ArbSignal::BuyNo { token_id, edge_pct, .. } => (token_id, *edge_pct),
            ArbSignal::NoSignal => {
                return RiskDecision::Rejected { reason: String::from_str("NoSignal") };
            },
        };
        let risk = &self.config.risk;
        // 1. Check daily loss limit
        let current_pnl = self.daily_pnl;
        if (current_pnl as i128) <= -(risk.max_daily_loss_usdc as i128) {
            let mut reason = String::from_str("Daily loss limit hit: ");
            push_shortest(&mut reason, current_pnl);
            return RiskDecision::Rejected { reason };
        }
        // 2. Check max concurrent positions
        if positions_len(&self.open_positions) >= risk.max_concurrent_positions {
            let mut reason = String::from_str("Max concurrent positions (");
            push_decimal(&mut reason, risk.max_concurrent_positions as u128);
            reason.append(") reached");
            assert(reason@ =~= "Max concurrent positions ("@ + decimal_text(
                risk.max_concurrent_positions as nat,
            ) + ") reached"@);
            return RiskDecision::Rejected { reason };
        }
        // 3. Check if position already open on this token
        if positions_contains(&self.open_positions, token_id.as_str()) {
            let mut reason = String::from_str("Position already open for token ");
            reason.append(token_id.as_str());
            return RiskDecision::Rejected { reason };
        }
        // 4. Check signal edge threshold
        if edge_pct < risk.arb_threshold_pct {
            let mut reason = String::from_str("Edge ");
            push_fixed(&mut reason, edge_pct, 7, 3);
            reason.append("% below threshold ");
            push_fixed(&mut reason, risk.arb_threshold_pct, 7, 3);
            reason.append("%");
            assert(reason@ =~= "Edge "@ + fixed_text(edge_pct as int, 7, 3) + "% below threshold "@
                + fixed_text(risk.arb_threshold_pct as int, 7, 3) + "%"@);
            return RiskDecision::Rejected { reason };
        }
        // Size: min(max_position_usdc, available_capital * edge_pct * 10), not below zero
        let size = Self::size_for(risk, self.available_capital, edge_pct);
        if size <= 0 {
            return RiskDecision::Rejected { reason: String::from_str("Calculated size is <= 0") };
        }
        RiskDecision::Approved { size_usdc: size }
    }

    fn size_for(risk: &RiskConfig, capital: i64, edge_pct: i64) -> (r: i64)
        ensures
            r as int == position_size(*risk, capital as int, edge_pct as int),
    {
        assert(-0x4000_0000_0000_0000_0000_0000_0000_0000 <= (capital as int) * (edge_pct as int)
            <= 0x4000_0000_0000_0000_0000_0000_0000_0000) by (nonlinear_arith)
            requires
                i64::MIN <= capital <= i64::MAX,
                i64::MIN <= edge_pct <= i64::MAX,
        ;
        let product: i128 = (capital as i128) * (edge_pct as i128);
        let scaled: i128 = if product >= 0 {
            product / 100_000_000
        } else {
            -((-product) / 100_000_000)
        };
        let capped: i128 = if (risk.max_position_usdc as i128) < scaled {
            risk.max_position_usdc as i128
        } else {
            scaled
        };
        if capped > 0 {
            capped as i64
        } else {
            0
        }
    }

    /// Whether a fill of `size_usdc` keeps every amount within an `i64`.
    pub fn fill_fits(&self, size_usdc: i64) -> (r: bool)
        ensures
            r == fill_fits(self@, size_usdc as int),
    {
        let deployed = (self.total_deployed_usdc as i128) + (size_usdc as i128);
        let capital = (self.available_capital as i128) - (size_usdc as i128);
        i64::MIN as i128 <= deployed && deployed <= i64::MAX as i128 && i64::MIN as i128 <= capital
            && capital <= i64::MAX as i128
    }

    /// Whether closing `token_id` with `pnl_usdc` keeps every amount within an
    /// `i64`.
    pub fn close_fits(&self, token_id: &str, pnl_usdc: i64) -> (r: bool)
        ensures
            r == close_fits(self@, token_id@, pnl_usdc as int),
    {
        match positions_get(&self.open_positions, token_id) {
            None => true,
            Some(p) => {
                let e = p.entry_size_usdc as i128;
                let deployed = (self.total_deployed_usdc as i128) - e;
                let daily = (self.daily_pnl as i128) + (pnl_usdc as i128);
                let capital = (self.available_capital as i128) + e + (pnl_usdc as i128);
                i64::MIN as i128 <= deployed && deployed <= i64::MAX as i128 && i64::MIN as i128
                    <= daily && daily <= i64::MAX as i128 && i64::MIN as i128 <= capital && capital
                    <= i64::MAX as i128
            },
        }
    }

    /// Records a fill: the token's position becomes `size_usdc`, which moves
    /// from available to deployed capital.
    pub fn record_fill(&mut self, token_id: String, size_usdc: i64)
        requires
            old(self).wf(),
            fill_fits(old(self)@, size_usdc as int),
        ensures
            final(self).wf(),
            final(self)@ == fill_spec(old(self)@, token_id, size_usdc),
    {
        let position = Position { token_id: token_id.clone(), entry_size_usdc: size_usdc };
        positions_insert(&mut self.open_positions, token_id, position);
        self.total_deployed_usdc = self.total_deployed_usdc + size_usdc;
        // Deduct from available capital
        self.available_capital = self.available_capital - size_usdc;
    }

    /// Records a close: where a position is open on the token, it is dropped,
    /// its size returns to available capital together with `pnl_usdc`, and
    /// `pnl_usdc` is added to the day's PnL. Otherwise nothing changes.
    pub fn record_close(&mut self, token_id: &str, pnl_usdc: i64)
        requires
            old(self).wf(),
            close_fits(old(self)@, token_id@, pnl_usdc as int),
        ensures
            final(self).wf(),
            final(self)@ == close_spec(old(self)@, token_id@, pnl_usdc as int),
    {
        if let Some(pos) = positions_remove(&mut self.open_positions, token_id) {
            self.total_deployed_usdc = self.total_deployed_usdc - pos.entry_size_usdc;
            self.daily_pnl = self.daily_pnl + pnl_usdc;
            self.available_capital = ((self.available_capital as i128) + (
            pos.entry_size_usdc as i128) + (pnl_usdc as i128)) as i64;
        } else {
            assert(position_table(self.open_positions) =~= position_table(
                old(self).open_positions,
            ));
        }
    }
}

} // verus!
