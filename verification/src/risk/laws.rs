//! Properties of the risk gate and the capital ledger that span several
//! operations.
use crate::engine::signal::ArbSignal;
use crate::risk::manager::{
    close_spec, conserved, evaluate_spec, fill_spec, Position, RiskState, RiskVerdict,
};
use vstd::prelude::*;
use vstd::set::fold::*;

verus! {

/// The (token, size) pairs of a table of open positions.
pub open spec fn size_entries(m: Map<Seq<char>, Position>) -> Set<(Seq<char>, int)> {
    m.dom().map(|k: Seq<char>| (k, m[k].entry_size_usdc as int))
}

pub open spec fn add_size(acc: int, e: (Seq<char>, int)) -> int {
    acc + e.1
}

/// The USDC (millionths) held in all open positions together.
pub open spec fn open_total(m: Map<Seq<char>, Position>) -> int {
    size_entries(m).fold(0, |acc: int, e: (Seq<char>, int)| add_size(acc, e))
}

proof fn lemma_add_size_commutative()
    ensures
        is_fun_commutative(|acc: int, e: (Seq<char>, int)| add_size(acc, e)),
{
}

proof fn lemma_size_entries_insert(m: Map<Seq<char>, Position>, k: Seq<char>, p: Position)
    requires
        !m.dom().contains(k),
    ensures
        size_entries(m.insert(k, p)) == size_entries(m).insert((k, p.entry_size_usdc as int)),
        !size_entries(m).contains((k, p.entry_size_usdc as int)),
{
    let n = m.insert(k, p);
    assert forall|e: (Seq<char>, int)| #[trigger]
        size_entries(n).contains(e) implies size_entries(m).insert(
        (k, p.entry_size_usdc as int),
    ).contains(e) by {
        let x = choose|x: Seq<char>| n.dom().contains(x) && e == (x, n[x].entry_size_usdc as int);
        if x != k {
            assert(m.dom().contains(x) && e == (x, m[x].entry_size_usdc as int));
        }
    }
    assert forall|e: (Seq<char>, int)| #[trigger]
        size_entries(m).insert((k, p.entry_size_usdc as int)).contains(e) implies size_entries(
        n,
    ).contains(e) by {
        if e == (k, p.entry_size_usdc as int) {
            assert(n.dom().contains(k) && e == (k, n[k].entry_size_usdc as int));
        } else {
            let x = choose|x: Seq<char>|
                m.dom().contains(x) && e == (x, m[x].entry_size_usdc as int);
            assert(n.dom().contains(x) && e == (x, n[x].entry_size_usdc as int));
        }
    }
    assert(size_entries(n) =~= size_entries(m).insert((k, p.entry_size_usdc as int)));
}

proof fn lemma_open_total_insert(m: Map<Seq<char>, Position>, k: Seq<char>, p: Position)
    requires
        m.dom().finite(),
        !m.dom().contains(k),
    ensures
        open_total(m.insert(k, p)) == open_total(m) + p.entry_size_usdc,
{
    lemma_size_entries_insert(m, k, p);
    m.dom().lemma_map_finite(|x: Seq<char>| (x, m[x].entry_size_usdc as int));
    lemma_add_size_commutative();
    lemma_fold_insert(
        size_entries(m),
        0,
        |acc: int, e: (Seq<char>, int)| add_size(acc, e),
        (k, p.entry_size_usdc as int),
    );
}

/// A fill on a token with no open position raises the total held in open
/// positions by exactly the fill's size.
pub proof fn law_fill_adds_to_open_total(s: RiskState, token_id: String, size_usdc: i64)
    requires
        s.positions.dom().finite(),
        !s.positions.dom().contains(token_id@),
    ensures
        open_total(fill_spec(s, token_id, size_usdc).positions) == open_total(s.positions)
            + size_usdc,
{
    lemma_open_total_insert(
        s.positions,
        token_id@,
        Position { token_id: token_id, entry_size_usdc: size_usdc },
    );
}

/// Closing an open position lowers the total held in open positions by
/// exactly that position's size; closing a token with no open position
/// changes nothing.
pub proof fn law_close_removes_from_open_total(s: RiskState, token: Seq<char>, pnl: int)
    requires
        s.positions.dom().finite(),
    ensures
        s.positions.dom().contains(token) ==> open_total(close_spec(s, token, pnl).positions)
            == open_total(s.positions) - s.positions[token].entry_size_usdc,
        !s.positions.dom().contains(token) ==> close_spec(s, token, pnl) == s,
{
    if s.positions.dom().contains(token) {
        let rest = s.positions.remove(token);
        let p = s.positions[token];
        assert(rest.insert(token, p) =~= s.positions);
        lemma_open_total_insert(rest, token, p);
    }
}

/// The USDC deployed equals the total held in open positions, from a fresh
/// ledger on, as long as fills only ever go to tokens with no open position
/// (which `evaluate` guarantees for approved signals).
pub proof fn law_deployed_matches_open_positions(
    s: RiskState,
    token_id: String,
    size_usdc: i64,
    close_token: Seq<char>,
    pnl: int,
)
    requires
        s.positions.dom().finite(),
        s.deployed == open_total(s.positions),
    ensures
        !s.positions.dom().contains(token_id@) ==> fill_spec(s, token_id, size_usdc).deployed
            == open_total(fill_spec(s, token_id, size_usdc).positions),
        close_spec(s, close_token, pnl).deployed == open_total(
            close_spec(s, close_token, pnl).positions,
        ),
{
    if !s.positions.dom().contains(token_id@) {
        law_fill_adds_to_open_total(s, token_id, size_usdc);
    }
    law_close_removes_from_open_total(s, close_token, pnl);
}

/// A ledger with nothing open has nothing in open positions.
pub proof fn law_empty_ledger_total(m: Map<Seq<char>, Position>)
    requires
        m.dom().is_empty(),
    ensures
        open_total(m) == 0,
{
    assert(size_entries(m) =~= Set::empty());
    lemma_fold_empty(0, |acc: int, e: (Seq<char>, int)| add_size(acc, e));
}

/// Fills and closes keep capital conserved: available plus deployed capital
/// stays the starting capital plus the realised PnL.
pub proof fn law_ledger_conserves_capital(
    s: RiskState,
    token_id: String,
    size_usdc: i64,
    close_token: Seq<char>,
    pnl: int,
)
    requires
        conserved(s),
    ensures
        conserved(fill_spec(s, token_id, size_usdc)),
        conserved(close_spec(s, close_token, pnl)),
{
}

/// Filling a token with no open position and then closing it with PnL `pnl`
/// leaves the positions and the deployed capital as they were, and adds
/// `pnl` to the available capital and to the day's PnL.
pub proof fn law_fill_then_close(s: RiskState, token_id: String, size_usdc: i64, pnl: int)
    requires
        !s.positions.dom().contains(token_id@),
    ensures
        close_spec(fill_spec(s, token_id, size_usdc), token_id@, pnl) == (RiskState {
            risk: s.risk,
            daily_pnl: s.daily_pnl + pnl,
            positions: s.positions,
            deployed: s.deployed,
            capital: s.capital + pnl,
        }),
{
    let f = fill_spec(s, token_id, size_usdc);
    assert(f.positions.remove(token_id@) =~= s.positions);
}

/// An approved size is positive and at most the largest position size, and
/// approval implies every limit held: PnL above the daily loss limit, fewer
/// open positions than allowed, none on the token, and an edge at the
/// threshold or above.
pub proof fn law_approval_respects_limits(s: RiskState, signal: ArbSignal)
    ensures
        evaluate_spec(s, signal) matches RiskVerdict::Approve(size) ==> {
            &&& 0 < size <= s.risk.max_position_usdc
            &&& s.daily_pnl > -(s.risk.max_daily_loss_usdc as int)
            &&& s.positions.dom().len() < s.risk.max_concurrent_positions
            &&& signal.token_spec() matches Some(t) && !s.positions.dom().contains(t)
            &&& signal.edge_spec() matches Some(e) && e >= s.risk.arb_threshold_pct
        },
{
}

/// Every limit holding implies approval: for a buy signal on a token with no
/// open position, with the day's PnL above the loss limit, fewer positions
/// open than allowed, and an edge at the threshold or above, the signal is
/// approved with ten times the edge's share of the available capital
/// (rounded toward zero), capped at the largest position size, whenever that
/// comes out positive.
pub proof fn law_limits_held_means_approval(
    s: RiskState,
    signal: ArbSignal,
    token: Seq<char>,
    edge: int,
    size: int,
)
    requires
        signal.token_spec() == Some(token),
        signal.edge_spec() == Some(edge),
        s.daily_pnl > -(s.risk.max_daily_loss_usdc as int),
        s.positions.dom().len() < s.risk.max_concurrent_positions,
        !s.positions.dom().contains(token),
        edge >= s.risk.arb_threshold_pct,
        size == ({
            let scaled = if s.capital * edge >= 0 {
                (s.capital * edge) / 100_000_000
            } else {
                -((-(s.capital * edge)) / 100_000_000)
            };
            if s.risk.max_position_usdc < scaled {
                s.risk.max_position_usdc as int
            } else {
                scaled
            }
        }),
        size > 0,
    ensures
        evaluate_spec(s, signal) == RiskVerdict::Approve(size),
{
}

/// Once an approved signal is filled at its approved size, the same signal is
/// rejected: no token is entered twice.
pub proof fn law_no_double_entry(s: RiskState, signal: ArbSignal, token_id: String)
    requires
        signal.token_spec() == Some(token_id@),
        s.positions.dom().finite(),
    ensures
        evaluate_spec(s, signal) matches RiskVerdict::Approve(size) ==> evaluate_spec(
            fill_spec(s, token_id, size as i64),
            signal,
        ) is Reject,
{
    if let RiskVerdict::Approve(size) = evaluate_spec(s, signal) {
        let f = fill_spec(s, token_id, size as i64);
        assert(f.positions.dom().contains(token_id@));
    }
}

} // verus!
