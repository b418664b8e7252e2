//! Shared market state: the latest spot price, the spot price at the start of
//! the current 15-minute window, and the latest prices of each contract.
use crate::fixed::{is_digit, parse_fixed, parse_fixed_spec};
use crate::window::{window_of_micros, window_start_of_micros};
use vstd::string::*;
use dashmap::DashMap;
use vstd::prelude::*;

verus! {

/// Latest known prices of one contract (probabilities in millionths).
#[derive(Debug)]
pub struct ContractState {
    pub token_id: String,
    pub question: String,
    pub yes_price: i64,
    pub no_price: i64,
    pub last_polymarket_update_us: u64,
    pub implied_btc_price: Option<i64>,
}

impl Clone for ContractState {
    fn clone(&self) -> (r: Self)
        ensures
            r == *self,
    {
        ContractState {
            token_id: self.token_id.clone(),
            question: self.question.clone(),
            yes_price: self.yes_price,
            no_price: self.no_price,
            last_polymarket_update_us: self.last_polymarket_update_us,
            implied_btc_price: self.implied_btc_price,
        }
    }
}

/// The contracts held in a contract table, keyed by token.
pub uninterp spec fn contract_table(m: DashMap<String, ContractState>) -> Map<
    Seq<char>,
    ContractState,
>;

/// `DashMap::new`: a table with no entries.
#[verifier::external_body]
fn contracts_new() -> (r: DashMap<String, ContractState>)
    ensures
        contract_table(r).dom().is_empty(),
{
    DashMap::new()
}

/// `DashMap::insert`: the token's entry becomes `c`, replacing any earlier one.
#[verifier::external_body]
fn contracts_insert(m: &mut DashMap<String, ContractState>, token_id: String, c: ContractState)
    ensures
        contract_table(*final(m)) == contract_table(*old(m)).insert(token_id@, c),
{
    m.insert(token_id, c);
}

/// `DashMap::clear`: drops every entry.
#[verifier::external_body]
fn contracts_clear(m: &mut DashMap<String, ContractState>)
    ensures
        contract_table(*final(m)).dom().is_empty(),
{
    m.clear();
}

/// `DashMap::get`: a copy of the token's entry, if it has one.
#[verifier::external_body]
fn contracts_get(m: &DashMap<String, ContractState>, token_id: &str) -> (r: Option<
    ContractState,
>)
    ensures
        r == (if contract_table(*m).dom().contains(token_id@) {
            Some(contract_table(*m)[token_id@])
        } else {
            None
        }),
{
    m.get(token_id).map(|entry| entry.value().clone())
}

/// `DashMap::iter`: a copy of every entry, each once, in the map's own order.
#[verifier::external_body]
fn contracts_entries(m: &DashMap<String, ContractState>) -> (r: Vec<(String, ContractState)>)
    ensures
        r@.len() == contract_table(*m).dom().len(),
        forall|i: int|
            0 <= i < r@.len() ==> contract_table(*m).dom().contains(#[trigger] r@[i].0@)
                && contract_table(*m)[r@[i].0@] == r@[i].1,
        forall|i: int|
            forall|j: int|
                0 <= i < r@.len() && 0 <= j < r@.len() && i != j ==> #[trigger] r@[i].0@
                    != #[trigger] r@[j].0@,
        forall|k: Seq<char>|
            #[trigger] contract_table(*m).dom().contains(k) ==> exists|i: int|
                0 <= i < r@.len() && r@[i].0@ == k,
{
    m.iter().map(|entry| (entry.key().clone(), entry.value().clone())).collect()
}

/// Market state as mathematical values.
pub struct MarketView {
    pub spot: int,
    pub spot_updated_us: int,
    pub window_price: int,
    pub window_start: int,
    pub contracts: Map<Seq<char>, ContractState>,
}

#[derive(Debug)]
pub struct MarketState {
    btc_spot_price: i64,
    btc_spot_updated_us: u64,
    btc_window_start_price: i64,
    btc_window_start_timestamp: u64,
    contracts: DashMap<String, ContractState>,
}

impl View for MarketState {
    type V = MarketView;

    closed spec fn view(&self) -> MarketView {
        MarketView {
            spot: self.btc_spot_price as int,
            spot_updated_us: self.btc_spot_updated_us as int,
            window_price: self.btc_window_start_price as int,
            window_start: self.btc_window_start_timestamp as int,
            contracts: contract_table(self.contracts),
        }
    }
}

/// The state after a spot price `price` observed at `timestamp_us`: the spot
/// price always follows; when the observation falls in another 15-minute
/// window than the one tracked, that window is tracked instead and its start
/// price becomes `price`. The contracts of the old window are dropped when
/// there was one (a window start of zero means none is tracked yet, so the
/// first spot price keeps the contracts already known).
pub open spec fn update_spot_spec(s: MarketView, price: int, timestamp_us: int) -> MarketView {
    let w = window_of_micros(timestamp_us);
    if s.window_start != w {
        MarketView {
            spot: price,
            spot_updated_us: timestamp_us,
            window_price: price,
            window_start: w,
            contracts: if s.window_start != 0 {
                Map::empty()
            } else {
                s.contracts
            },
        }
    } else {
        MarketView { spot: price, spot_updated_us: timestamp_us, ..s }
    }
}

/// The entry a contract update stores.
pub open spec fn contract_entry_spec(
    token_id: String,
    question: String,
    yes_price: i64,
    no_price: i64,
    timestamp_us: u64,
) -> ContractState {
    ContractState {
        token_id: token_id,
        question: question,
        yes_price: yes_price,
        no_price: no_price,
        last_polymarket_update_us: timestamp_us,
        implied_btc_price: match strike_spec(question@) {
            Some(p) => Some(p as i64),
            None => None,
        },
    }
}

impl Default for MarketState {
    fn default() -> (r: Self)
        ensures
            r.wf(),
            r@.spot == 0,
            r@.spot_updated_us == 0,
            r@.window_price == 0,
            r@.window_start == 0,
            r@.contracts.dom().is_empty(),
    {
        Self::new()
    }
}

impl MarketState {
    /// Well-formed: finitely many contracts, each stored under its own token.
    pub open spec fn wf(&self) -> bool {
        &&& self@.contracts.dom().finite()
        &&& forall|k: Seq<char>| #[trigger]
            self@.contracts.dom().contains(k) ==> self@.contracts[k].token_id@ == k
    }

    pub fn new() -> (r: Self)
        ensures
            r.wf(),
            r@.spot == 0,
            r@.spot_updated_us == 0,
            r@.window_price == 0,
            r@.window_start == 0,
            r@.contracts.dom().is_empty(),
    {
        MarketState {
            btc_spot_price: 0,
            btc_spot_updated_us: 0,
            btc_window_start_price: 0,
            btc_window_start_timestamp: 0,
            contracts: contracts_new(),
        }
    }

    /// The latest spot price (millionths of USD).
    pub fn spot_price(&self) -> (r: i64)
        ensures
            r == self@.spot,
    {
        self.btc_spot_price
    }

    /// When the latest spot price was observed (microseconds).
    pub fn spot_updated_us(&self) -> (r: u64)
        ensures
            r == self@.spot_updated_us,
    {
        self.btc_spot_updated_us
    }

    /// The start price of the tracked window (millionths of USD).
    pub fn window_start_price(&self) -> (r: i64)
        ensures
            r == self@.window_price,
    {
        self.btc_window_start_price
    }

    /// The start of the tracked window (seconds), 0 while none is tracked.
    pub fn window_start_timestamp(&self) -> (r: u64)
        ensures
            r == self@.window_start,
    {
        self.btc_window_start_timestamp
    }

    /// A copy of the contract held for `token_id`, if there is one.
    pub fn contract(&self, token_id: &str) -> (r: Option<ContractState>)
        ensures
            r == (if self@.contracts.dom().contains(token_id@) {
                Some(self@.contracts[token_id@])
            } else {
                None
            }),
    {
        contracts_get(&self.contracts, token_id)
    }

    /// A copy of every contract held, each once, in no fixed order.
    pub fn contract_entries(&self) -> (r: Vec<(String, ContractState)>)
        ensures
            r@.len() == self@.contracts.dom().len(),
            forall|i: int|
                0 <= i < r@.len() ==> self@.contracts.dom().contains(#[trigger] r@[i].0@)
                    && self@.contracts[r@[i].0@] == r@[i].1,
            forall|i: int|
                forall|j: int|
                    0 <= i < r@.len() && 0 <= j < r@.len() && i != j ==> #[trigger] r@[i].0@
                        != #[trigger] r@[j].0@,
            forall|k: Seq<char>|
                #[trigger] self@.contracts.dom().contains(k) ==> exists|i: int|
                    0 <= i < r@.len() && r@[i].0@ == k,
    {
        contracts_entries(&self.contracts)
    }

    /// The number of contracts held.
    pub fn contract_count(&self) -> (r: usize)
        ensures
            r == self@.contracts.dom().len(),
    {
        contracts_entries(&self.contracts).len()
    }

    /// Records a spot price (millionths of USD) observed at `timestamp_us`.
    pub fn update_spot(&mut self, price: i64, timestamp_us: u64)
        requires
            old(self).wf(),
        ensures
            final(self).wf(),
            final(self)@ == update_spot_spec(old(self)@, price as int, timestamp_us as int),
    {
        self.btc_spot_price = price;
        self.btc_spot_updated_us = timestamp_us;
        // Track 15m window start price
        let window_start = window_start_of_micros(timestamp_us);
        if self.btc_window_start_timestamp != window_start {
            if self.btc_window_start_timestamp != 0 {
                // Clear stale contracts from previous window
                contracts_clear(&mut self.contracts);
                assert(self@.contracts =~= Map::empty());
            }
            self.btc_window_start_timestamp = window_start;
            self.btc_window_start_price = price;
        }
    }

    /// Records the latest prices of a contract.
    pub fn update_contract(
        &mut self,
        token_id: String,
        question: String,
        yes_price: i64,
        no_price: i64,
        timestamp_us: u64,
    )
        requires
            old(self).wf(),
        ensures
            final(self).wf(),
            final(self)@ == (MarketView {
                contracts: old(self)@.contracts.insert(
                    token_id@,
                    contract_entry_spec(token_id, question, yes_price, no_price, timestamp_us),
                ),
                ..old(self)@
            }),
    {
        // For Up/Down markets, yes_price is the probability
        let implied_btc_price = compute_implied_btc_price(question.as_str(), yes_price);
        let entry = ContractState {
            token_id: token_id.clone(),
            question,
            yes_price,
            no_price,
            last_polymarket_update_us: timestamp_us,
            implied_btc_price,
        };
        contracts_insert(&mut self.contracts, token_id, entry);
    }
}

/// Every spot update tracks the window its timestamp falls in.
pub proof fn law_spot_update_tracks_window(s: MarketView, price: int, timestamp_us: int)
    ensures
        update_spot_spec(s, price, timestamp_us).window_start == window_of_micros(timestamp_us),
        update_spot_spec(s, price, timestamp_us).spot == price,
{
}

/// Within one window the start price is the first price seen in it and the
/// contracts are kept; a later update in the same window changes neither.
pub proof fn law_window_start_price_is_first(
    s: MarketView,
    p1: int,
    t1: int,
    p2: int,
    t2: int,
)
    requires
        window_of_micros(t1) == window_of_micros(t2),
    ensures
        update_spot_spec(update_spot_spec(s, p1, t1), p2, t2).window_price == update_spot_spec(
            s,
            p1,
            t1,
        ).window_price,
        update_spot_spec(update_spot_spec(s, p1, t1), p2, t2).contracts == update_spot_spec(
            s,
            p1,
            t1,
        ).contracts,
        s.window_start != window_of_micros(t1) ==> update_spot_spec(
            update_spot_spec(s, p1, t1),
            p2,
            t2,
        ).window_price == p1,
{
}

/// Contracts are dropped exactly when a spot update leaves a tracked window
/// for a new one.
pub proof fn law_contracts_cleared_on_new_window(s: MarketView, price: int, timestamp_us: int)
    ensures
        s.window_start != window_of_micros(timestamp_us) && s.window_start != 0 ==> update_spot_spec(
            s,
            price,
            timestamp_us,
        ).contracts.dom().is_empty(),
        s.window_start == window_of_micros(timestamp_us) || s.window_start == 0 ==> update_spot_spec(
            s,
            price,
            timestamp_us,
        ).contracts == s.contracts,
{
}

/// The characters of a strike written after a `$`: digits and points, with
/// thousands separators (`,`) left out, up to the first other character.
pub open spec fn strike_chars(s: Seq<char>) -> Seq<char>
    decreases s.len(),
{
    if s.len() == 0 {
        seq![]
    } else if s[0] == ',' {
        strike_chars(s.drop_first())
    } else if is_digit(s[0]) || s[0] == '.' {
        seq![s[0]] + strike_chars(s.drop_first())
    } else {
        seq![]
    }
}

/// Position of the first `'$'` in `s`, or `s.len()` where there is none.
pub open spec fn dollar_position(s: Seq<char>) -> nat
    decreases s.len(),
{
    if s.len() == 0 {
        0
    } else if s[0] == '$' {
        0
    } else {
        1 + dollar_position(s.drop_first())
    }
}

/// The BTC price (millionths of USD) a contract's question names: the
/// number after its first `$`, as in "Will BTC close above $70,000?".
pub open spec fn strike_spec(question: Seq<char>) -> Option<int> {
    let k = dollar_position(question);
    if k < question.len() {
        parse_fixed_spec(strike_chars(question.skip((k + 1) as int)))
    } else {
        None
    }
}

proof fn lemma_dollar_position(s: Seq<char>, m: nat)
    requires
        m <= s.len(),
        forall|j: int| 0 <= j < m ==> s[j] != '$',
        m == s.len() || s[m as int] == '$',
    ensures
        dollar_position(s) == m,
    decreases s.len(),
{
    if s.len() > 0 && m > 0 {
        assert(s[0] != '$');
        assert forall|j: int| 0 <= j < m - 1 implies s.drop_first()[j] != '$' by {
            assert(s.drop_first()[j] == s[j + 1]);
        }
        if m < s.len() {
            assert(s.drop_first()[m - 1] == s[m as int]);
        }
        lemma_dollar_position(s.drop_first(), (m - 1) as nat);
    }
}

/// The BTC price a contract implies: the strike its question names ("Will
/// BTC close above $70,000?" implies 70,000), or none where the question
/// names no price; the detector then measures against the window's start
/// price, the strike of an up/down market.
pub fn compute_implied_btc_price(question: &str, _yes_price: i64) -> (r: Option<i64>)
    ensures
        match r {
            Some(p) => strike_spec(question@) == Some(p as int),
            None => strike_spec(question@) is None,
        },
{
    let n = question.unicode_len();
    let mut k: usize = 0;
    while k < n && question.get_char(k) != '$'
        invariant
            k <= n,
            n == question@.len(),
            forall|j: int| 0 <= j < k ==> question@[j] != '$',
        decreases n - k,
    {
        k = k + 1;
    }
    proof {
        lemma_dollar_position(question@, k as nat);
    }
    if k >= n {
        return None;
    }
    let ghost rest = question@.skip(k + 1);
    let mut text = String::new();
    let mut i: usize = k + 1;
    let mut done = false;
    while i < n && !done
        invariant
            k + 1 <= i <= n,
            n == question@.len(),
            rest == question@.skip(k + 1),
            !done ==> strike_chars(rest) == text@ + strike_chars(question@.skip(i as int)),
            done ==> strike_chars(rest) == text@,
        decreases (n - i) as int + if done { 0int } else { 1int },
    {
        let c = question.get_char(i);
        let ghost tail = question@.skip(i as int);
        proof {
            assert(tail[0] == c);
            assert(tail.drop_first() =~= question@.skip(i + 1));
        }
        if c == ',' {
            assert(strike_chars(tail) == strike_chars(question@.skip(i + 1)));
            i = i + 1;
        } else if ('0' <= c && c <= '9') || c == '.' {
            let one = question.substring_char(i, i + 1);
            let ghost before = text@;
            proof {
                assert(one@ =~= seq![c]);
                assert(strike_chars(tail) == seq![c] + strike_chars(question@.skip(i + 1)));
            }
            text.append(one);
            assert(text@ + strike_chars(question@.skip(i + 1)) =~= before + (seq![c]
                + strike_chars(question@.skip(i + 1))));
            i = i + 1;
        } else {
            assert(strike_chars(tail) == Seq::<char>::empty());
            assert(text@ + strike_chars(tail) =~= text@);
            done = true;
        }
    }
    proof {
        if !done {
            assert(question@.skip(i as int) =~= seq![]);
        }
    }
    parse_fixed(text.as_str())
}

} // verus!
