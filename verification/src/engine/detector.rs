//! Signal detection: when the spot price stands more than 0.3% away from the
//! price a contract implies while the contract's price still lags, buy the
//! side the move favours.
use crate::config::Config;
use crate::engine::signal::ArbSignal;
use crate::engine::state::{ContractState, MarketState, MarketView, update_spot_spec, contract_entry_spec};
use crate::feeds::binance::PriceUpdate;
use crate::feeds::polymarket::{ContractPrice, MarketSnapshot};
use crate::fixed::{fixed_text, push_fixed};
use vstd::prelude::*;
use vstd::string::*;

verus! {

/// Age (microseconds) above which a contract price counts as lagging.
pub const STALENESS_LIMIT_US: u64 = 200_000;

/// Yes probability (millionths) that splits the two sides: 0.5.
pub const EVEN_ODDS: i64 = 500_000;

/// The BTC price a contract is measured against: the price it implies (the
/// strike its question names) or, where it names none, the window's start
/// price.
pub open spec fn reference_price(c: ContractState, window: int) -> int {
    match c.implied_btc_price {
        Some(p) => p as int,
        None => window,
    }
}

/// The spot price is more than 0.3% of itself above the reference.
pub open spec fn rises(spot: int, reference: int) -> bool {
    (spot - reference) * 1_000_000 > 3_000 * spot
}

/// The spot price is more than 0.3% of itself below the reference.
pub open spec fn falls(spot: int, reference: int) -> bool {
    (reference - spot) * 1_000_000 > 3_000 * spot
}

/// The edge: the distance between spot and reference as a fraction of the
/// spot price, in billionths (rounded down).
pub open spec fn edge_of_move(spot: int, reference: int) -> int {
    let d = if spot >= reference {
        spot - reference
    } else {
        reference - spot
    };
    (d * 1_000_000_000) / spot
}

/// Microseconds since the contract's last update, zero for one in the future.
pub open spec fn staleness_spec(now: int, last: int) -> int {
    if now > last {
        now - last
    } else {
        0
    }
}

pub open spec fn lagging(c: ContractState, now: int) -> bool {
    staleness_spec(now, c.last_polymarket_update_us as int) > 200_000
}

/// The contract has a positive reference price and its edge fits in an
/// `i64`.
pub open spec fn priced(c: ContractState, spot: int, window: int) -> bool {
    reference_price(c, window) > 0 && edge_of_move(spot, reference_price(c, window)) <= i64::MAX
}

/// Spot is above the contract's reference while its Yes side is still at even
/// odds or below.
pub open spec fn buy_yes_spec(c: ContractState, spot: int, window: int, now: int) -> bool {
    lagging(c, now) && priced(c, spot, window) && rises(spot, reference_price(c, window))
        && c.yes_price <= 500_000
}

/// Spot is below the contract's reference while its Yes side is still at even
/// odds or above.
pub open spec fn buy_no_spec(c: ContractState, spot: int, window: int, now: int) -> bool {
    lagging(c, now) && priced(c, spot, window) && falls(spot, reference_price(c, window))
        && c.yes_price >= 500_000
}

pub open spec fn yes_reason(edge: int, yes_price: int) -> Seq<char> {
    "Binance UP "@ + fixed_text(edge, 7, 2) + "%, Polymarket Yes Prob "@ + fixed_text(
        yes_price,
        6,
        2,
    )
}

pub open spec fn no_reason(edge: int, yes_price: int) -> Seq<char> {
    "Binance DOWN "@ + fixed_text(-edge, 7, 2) + "%, Polymarket Yes Prob "@ + fixed_text(
        yes_price,
        6,
        2,
    )
}

/// `sig` is the signal that detection emits for contract `c`.
pub open spec fn signal_matches(
    sig: ArbSignal,
    c: ContractState,
    spot: int,
    window: int,
    size: int,
    now: int,
) -> bool {
    let edge = edge_of_move(spot, reference_price(c, window));
    let stale_ms = staleness_spec(now, c.last_polymarket_update_us as int) / 1000;
    match sig {
        ArbSignal::BuyYes {
            token_id,
            price,
            edge_pct,
            recommended_size_usdc,
            reason,
            created_at_us,
            staleness_ms,
        } => {
            &&& buy_yes_spec(c, spot, window, now)
            &&& token_id@ == c.token_id@
            &&& price == c.yes_price
            &&& edge_pct == edge
            &&& recommended_size_usdc == size
            &&& reason@ == yes_reason(edge, c.yes_price as int)
            &&& created_at_us == now
            &&& staleness_ms == stale_ms
        },
        ArbSignal::BuyNo {
            token_id,
            price,
            edge_pct,
            recommended_size_usdc,
            reason,
            created_at_us,
            staleness_ms,
        } => {
            &&& buy_no_spec(c, spot, window, now)
            &&& token_id@ == c.token_id@
            &&& price == c.no_price
            &&& edge_pct == edge
            &&& recommended_size_usdc == size
            &&& reason@ == no_reason(edge, c.yes_price as int)
            &&& created_at_us == now
            &&& staleness_ms == stale_ms
        },
        ArbSignal::NoSignal => false,
    }
}

/// A signal is only ever emitted for a contract whose price is more than
/// 200ms old, on the side the spot price favours against the contract's
/// reference price while that side is still at even odds or cheaper, with an
/// edge of at least 0.3%.
pub proof fn law_signal_needs_lag_and_move(
    sig: ArbSignal,
    c: ContractState,
    spot: int,
    window: int,
    size: int,
    now: int,
)
    requires
        spot > 0,
        signal_matches(sig, c, spot, window, size, now),
    ensures
        staleness_spec(now, c.last_polymarket_update_us as int) > 200_000,
        sig is BuyYes ==> spot > reference_price(c, window) && c.yes_price <= 500_000,
        sig is BuyNo ==> spot < reference_price(c, window) && c.yes_price >= 500_000,
        sig.edge_spec() matches Some(e) && e >= 3_000_000,
{
    let r = reference_price(c, window);
    let d = if spot >= r {
        spot - r
    } else {
        r - spot
    };
    assert(d * 1_000_000 > 3_000 * spot);
    assert((d * 1_000_000_000) / spot >= 3_000_000) by (nonlinear_arith)
        requires
            spot > 0,
            d * 1_000_000 > 3_000 * spot,
    ;
}

/// `sig` is the signal for some contract held in `s`.
pub open spec fn has_source(sig: ArbSignal, s: MarketView, size: int, now: int) -> bool {
    exists|k: Seq<char>|
        #[trigger] s.contracts.dom().contains(k) && signal_matches(
            sig,
            s.contracts[k],
            s.spot,
            s.window_price,
            size,
            now,
        )
}

/// What a detection pass over state `s` at time `now` emits, up to order:
/// nothing unless the spot and window start prices are positive; otherwise
/// one signal for each contract that calls for one, and nothing else.
pub open spec fn detected(r: Seq<ArbSignal>, s: MarketView, size: int, now: int) -> bool {
    &&& (s.spot <= 0 || s.window_price <= 0) ==> r.len() == 0
    &&& forall|i: int| 0 <= i < r.len() ==> has_source(#[trigger] r[i], s, size, now)
    &&& s.spot > 0 && s.window_price > 0 ==> forall|k: Seq<char>|
        #[trigger] s.contracts.dom().contains(k) && (buy_yes_spec(
            s.contracts[k],
            s.spot,
            s.window_price,
            now,
        ) || buy_no_spec(s.contracts[k], s.spot, s.window_price, now)) ==> exists|i: int|
            0 <= i < r.len() && signal_matches(
                r[i],
                s.contracts[k],
                s.spot,
                s.window_price,
                size,
                now,
            )
    &&& forall|i: int, j: int|
        0 <= i < j < r.len() ==> (#[trigger] r[i]).token_spec() != (#[trigger] r[j]).token_spec()
}

/// Every move of more than 0.3% of the spot price is signalled: for a
/// contract held in the state whose price is more than 200ms old, whose
/// reference (the strike its question names, else the window's start price)
/// is positive, and whose Yes side is at even odds or cheaper while spot
/// stands more than 0.3% of itself above the reference, a detection pass
/// emits a BuyYes on it at its Yes price, with the edge
/// `(spot - reference) / spot` in billionths and the recommended size; and
/// symmetrically a BuyNo at its No price when spot stands more than 0.3%
/// below the reference while Yes is at even odds or dearer.
pub proof fn law_move_beyond_band_is_signalled(
    r: Seq<ArbSignal>,
    s: MarketView,
    size: int,
    now: int,
    k: Seq<char>,
    reference: int,
)
    requires
        detected(r, s, size, now),
        s.spot > 0,
        s.window_price > 0,
        s.contracts.dom().contains(k),
        now - s.contracts[k].last_polymarket_update_us > 200_000,
        reference == (match s.contracts[k].implied_btc_price {
            Some(p) => p as int,
            None => s.window_price,
        }),
        reference > 0,
    ensures
        (s.spot - reference) * 1_000_000 > 3_000 * s.spot && s.contracts[k].yes_price <= 500_000
            && (s.spot - reference) * 1_000_000_000 / s.spot <= i64::MAX ==> exists|i: int|
            0 <= i < r.len() && (#[trigger] r[i] matches ArbSignal::BuyYes {
                token_id,
                price,
                edge_pct,
                recommended_size_usdc,
                created_at_us,
                ..
            } && token_id@ == s.contracts[k].token_id@ && price == s.contracts[k].yes_price
                && edge_pct == (s.spot - reference) * 1_000_000_000 / s.spot
                && recommended_size_usdc == size && created_at_us == now),
        (reference - s.spot) * 1_000_000 > 3_000 * s.spot && s.contracts[k].yes_price >= 500_000
            && (reference - s.spot) * 1_000_000_000 / s.spot <= i64::MAX ==> exists|i: int|
            0 <= i < r.len() && (#[trigger] r[i] matches ArbSignal::BuyNo {
                token_id,
                price,
                edge_pct,
                recommended_size_usdc,
                created_at_us,
                ..
            } && token_id@ == s.contracts[k].token_id@ && price == s.contracts[k].no_price
                && edge_pct == (reference - s.spot) * 1_000_000_000 / s.spot
                && recommended_size_usdc == size && created_at_us == now),
{
    let c = s.contracts[k];
    if (s.spot - reference) * 1_000_000 > 3_000 * s.spot && c.yes_price <= 500_000 && (s.spot
        - reference) * 1_000_000_000 / s.spot <= i64::MAX {
        assert(buy_yes_spec(c, s.spot, s.window_price, now));
        let i = choose|i: int|
            0 <= i < r.len() && signal_matches(r[i], c, s.spot, s.window_price, size, now);
        assert(!buy_no_spec(c, s.spot, s.window_price, now));
        assert(r[i] is BuyYes);
    }
    if (reference - s.spot) * 1_000_000 > 3_000 * s.spot && c.yes_price >= 500_000 && (reference
        - s.spot) * 1_000_000_000 / s.spot <= i64::MAX {
        assert(buy_no_spec(c, s.spot, s.window_price, now));
        let i = choose|i: int|
            0 <= i < r.len() && signal_matches(r[i], c, s.spot, s.window_price, size, now);
        assert(!buy_yes_spec(c, s.spot, s.window_price, now));
        assert(r[i] is BuyNo);
    }
}

/// The signal, if any, for one contract.
pub fn signal_for_contract(
    c: &ContractState,
    spot: i64,
    window: i64,
    size: i64,
    current_time_us: u64,
) -> (r: Option<ArbSignal>)
    requires
        spot > 0,
    ensures
        match r {
            Some(sig) => signal_matches(
                sig,
                *c,
                spot as int,
                window as int,
                size as int,
                current_time_us as int,
            ),
            None => !buy_yes_spec(*c, spot as int, window as int, current_time_us as int)
                && !buy_no_spec(*c, spot as int, window as int, current_time_us as int),
        },
{
    let staleness_us = current_time_us.saturating_sub(c.last_polymarket_update_us);
    if staleness_us <= STALENESS_LIMIT_US {
        return None;
    }
    // Measure against the price the contract implies, else the window start.
    let reference: i64 = match c.implied_btc_price {
        Some(p) => p,
        None => window,
    };
    if reference <= 0 {
        return None;
    }
    let diff: i128 = (spot as i128) - (reference as i128);
    // 0.3% of the spot price
    let band: i128 = 3_000 * (spot as i128);
    let up = diff * 1_000_000 > band;
    let down = -diff * 1_000_000 > band;
    let yes_prob = c.yes_price;
    let mag: i128 = if diff >= 0 {
        diff
    } else {
        -diff
    };
    let wide_edge: i128 = (mag * 1_000_000_000) / (spot as i128);
    if wide_edge > i64::MAX as i128 {
        return None;
    }
    let edge: i64 = wide_edge as i64;
    if up && yes_prob <= EVEN_ODDS {
        let mut reason = String::from_str("Binance UP ");
        push_fixed(&mut reason, edge, 7, 2);
        reason.append("%, Polymarket Yes Prob ");
        push_fixed(&mut reason, yes_prob, 6, 2);
        assert(reason@ =~= yes_reason(edge as int, yes_prob as int));
        Some(
            ArbSignal::BuyYes {
                token_id: c.token_id.clone(),
                price: c.yes_price,
                edge_pct: edge,
                recommended_size_usdc: size,
                reason,
                created_at_us: current_time_us,
                staleness_ms: staleness_us / 1000,
            },
        )
    } else if down && yes_prob >= EVEN_ODDS {
        let mut reason = String::from_str("Binance DOWN ");
        push_fixed(&mut reason, -edge, 7, 2);
        reason.append("%, Polymarket Yes Prob ");
        push_fixed(&mut reason, yes_prob, 6, 2);
        assert(reason@ =~= no_reason(edge as int, yes_prob as int));
        Some(
            ArbSignal::BuyNo {
                token_id: c.token_id.clone(),
                price: c.no_price,
                edge_pct: edge,
                recommended_size_usdc: size,
                reason,
                created_at_us: current_time_us,
                staleness_ms: staleness_us / 1000,
            },
        )
    } else {
        None
    }
}

/// Runs one detection pass over every contract at time `current_time_us`.
pub fn run_detection(state: &MarketState, config: &Config, current_time_us: u64) -> (r: Vec<
    ArbSignal,
>)
    requires
        state.wf(),
    ensures
        detected(r@, state@, config.risk.max_position_usdc as int, current_time_us as int),
{
    let btc_spot = state.spot_price();
    let btc_window_px = state.window_start_price();
    let mut signals: Vec<ArbSignal> = Vec::new();
    if btc_spot <= 0 || btc_window_px <= 0 {
        return signals;
    }
    let recommended_size = config.risk.max_position_usdc;
    let entries = state.contract_entries();
    let ghost table = state@.contracts;
    let ghost spot = btc_spot as int;
    let ghost window = btc_window_px as int;
    let ghost size = recommended_size as int;
    let ghost now = current_time_us as int;
    let ghost mut origin: Seq<int> = Seq::empty();
    let mut idx: usize = 0;
    while idx < entries.len()
        invariant
            0 <= idx <= entries@.len(),
            spot == btc_spot && window == btc_window_px && size == recommended_size && now
                == current_time_us,
            btc_spot > 0 && btc_window_px > 0,
            table == state@.contracts,
            state.wf(),
            forall|i: int|
                0 <= i < entries@.len() ==> table.dom().contains(#[trigger] entries@[i].0@)
                    && table[entries@[i].0@] == entries@[i].1,
            forall|i: int|
                forall|j: int|
                    0 <= i < entries@.len() && 0 <= j < entries@.len() && i != j
                        ==> #[trigger] entries@[i].0@ != #[trigger] entries@[j].0@,
            origin.len() == signals@.len(),
            forall|i: int|
                0 <= i < signals@.len() ==> 0 <= #[trigger] origin[i] < idx && signal_matches(
                    signals@[i],
                    entries@[origin[i]].1,
                    spot,
                    window,
                    size,
                    now,
                ),
            forall|i: int, j: int| 0 <= i < j < signals@.len() ==> origin[i] < origin[j],
            forall|j: int|
                0 <= j < idx && (buy_yes_spec(#[trigger] entries@[j].1, spot, window, now)
                    || buy_no_spec(entries@[j].1, spot, window, now)) ==> exists|i: int|
                    0 <= i < signals@.len() && #[trigger] origin[i] == j,
        decreases entries@.len() - idx,
    {
        let contract = &entries[idx].1;
        let found = signal_for_contract(
            contract,
            btc_spot,
            btc_window_px,
            recommended_size,
            current_time_us,
        );
        let ghost old_origin = origin;
        let ghost old_len = signals@.len();
        match found {
            Some(sig) => {
                proof {
                    origin = origin.push(idx as int);
                }
                signals.push(sig);
                proof {
                    assert forall|j: int|
                        0 <= j < idx && (buy_yes_spec(#[trigger] entries@[j].1, spot, window, now)
                            || buy_no_spec(entries@[j].1, spot, window, now)) implies exists|i: int|
                            0 <= i < signals@.len() && #[trigger] origin[i] == j by {
                        let i = choose|i: int| 0 <= i < old_len && #[trigger] old_origin[i] == j;
                        assert(origin[i] == old_origin[i]);
                    }
                    assert(origin[old_len as int] == idx);
                }
            },
            None => {},
        }
        idx = idx + 1;
    }
    proof {
        assert forall|i: int| 0 <= i < signals@.len() implies has_source(
            #[trigger] signals@[i],
            state@,
            config.risk.max_position_usdc as int,
            current_time_us as int,
        ) by {
            let j = origin[i];
            let k = entries@[j].0@;
            assert(table.dom().contains(k));
            assert(table[k] == entries@[j].1);
            assert(signal_matches(signals@[i], table[k], spot, window, size, now));
            assert(state@.contracts.dom().contains(k));
            assert(signal_matches(
                signals@[i],
                state@.contracts[k],
                state@.spot,
                state@.window_price,
                config.risk.max_position_usdc as int,
                current_time_us as int,
            ));
        }
        assert forall|k: Seq<char>|
            #[trigger] table.dom().contains(k) && (buy_yes_spec(table[k], spot, window, now)
                || buy_no_spec(table[k], spot, window, now)) implies exists|i: int|
            0 <= i < signals@.len() && signal_matches(
                signals@[i],
                table[k],
                spot,
                window,
                size,
                now,
            ) by {
            let j = choose|j: int| 0 <= j < entries@.len() && entries@[j].0@ == k;
            assert(buy_yes_spec(entries@[j].1, spot, window, now) || buy_no_spec(
                entries@[j].1,
                spot,
                window,
                now,
            ));
            let i = choose|i: int| 0 <= i < signals@.len() && origin[i] == j;
            assert(signal_matches(signals@[i], entries@[origin[i]].1, spot, window, size, now));
        }
        assert forall|i: int, j: int| 0 <= i < j < signals@.len() implies (
        #[trigger] signals@[i]).token_spec() != (#[trigger] signals@[j]).token_spec() by {
            let a = origin[i];
            let b = origin[j];
            assert(signal_matches(signals@[i], entries@[a].1, spot, window, size, now));
            assert(signal_matches(signals@[j], entries@[b].1, spot, window, size, now));
            assert(entries@[a].1.token_id@ == entries@[a].0@);
            assert(entries@[b].1.token_id@ == entries@[b].0@);
            assert(entries@[a].0@ != entries@[b].0@);
        }
    }
    signals
}

/// The market state after storing each contract price of `cs` in turn.
pub open spec fn apply_contracts(s: MarketView, cs: Seq<ContractPrice>) -> MarketView
    decreases cs.len(),
{
    if cs.len() == 0 {
        s
    } else {
        let p = apply_contracts(s, cs.drop_last());
        let c = cs.last();
        MarketView {
            contracts: p.contracts.insert(
                c.token_id@,
                contract_entry_spec(c.token_id, c.question, c.yes_price, c.no_price, c.fetched_at_us),
            ),
            ..p
        }
    }
}

/// Handles a spot price update: records it, then runs a detection pass.
pub fn on_price_update(
    state: &mut MarketState,
    config: &Config,
    update: &PriceUpdate,
    current_time_us: u64,
) -> (r: Vec<ArbSignal>)
    requires
        old(state).wf(),
    ensures
        final(state).wf(),
        final(state)@ == update_spot_spec(old(state)@, update.price as int, update.timestamp_us as int),
        detected(r@, final(state)@, config.risk.max_position_usdc as int, current_time_us as int),
{
    state.update_spot(update.price, update.timestamp_us);
    run_detection(state, config, current_time_us)
}

/// Handles a contract snapshot: records each contract's prices in order,
/// then runs a detection pass.
pub fn on_snapshot(
    state: &mut MarketState,
    config: &Config,
    snapshot: &MarketSnapshot,
    current_time_us: u64,
) -> (r: Vec<ArbSignal>)
    requires
        old(state).wf(),
    ensures
        final(state).wf(),
        final(state)@ == apply_contracts(old(state)@, snapshot.contracts@),
        detected(r@, final(state)@, config.risk.max_position_usdc as int, current_time_us as int),
{
    let ghost start = state@;
    let mut i: usize = 0;
    while i < snapshot.contracts.len()
        invariant
            0 <= i <= snapshot.contracts@.len(),
            state.wf(),
            state@ == apply_contracts(start, snapshot.contracts@.take(i as int)),
        decreases snapshot.contracts@.len() - i,
    {
        let c = &snapshot.contracts[i];
        proof {
            assert(snapshot.contracts@.take(i + 1).drop_last() =~= snapshot.contracts@.take(
                i as int,
            ));
        }
        state.update_contract(
            c.token_id.clone(),
            c.question.clone(),
            c.yes_price,
            c.no_price,
            c.fetched_at_us,
        );
        i = i + 1;
    }
    proof {
        assert(snapshot.contracts@.take(i as int) =~= snapshot.contracts@);
    }
    run_detection(state, config, current_time_us)
}

} // verus!
