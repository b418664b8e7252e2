//! Contract prices polled from Polymarket's market listing: which market the
//! current window trades, and how a listed market becomes a contract price.
use crate::fixed::{decimal_text, parse_fixed, parse_fixed_spec, push_decimal, same_text};
use crate::window::{window_start, window_start_spec};
use vstd::prelude::*;
use vstd::string::*;

verus! {

/// Prices of one contract: `yes_price` and `no_price` are probabilities in
/// millionths.
#[derive(Debug)]
pub struct ContractPrice {
    pub token_id: String,
    pub question: String,
    pub yes_price: i64,
    pub no_price: i64,
    pub fetched_at_us: u64,
}

impl Clone for ContractPrice {
    fn clone(&self) -> (r: Self)
        ensures
            r == *self,
    {
        ContractPrice {
            token_id: self.token_id.clone(),
            question: self.question.clone(),
            yes_price: self.yes_price,
            no_price: self.no_price,
            fetched_at_us: self.fetched_at_us,
        }
    }
}

/// The contracts of one poll.
#[derive(Debug, Clone)]
pub struct MarketSnapshot {
    pub contracts: Vec<ContractPrice>,
}

/// One element of a JSON list, as far as the listing is read: a string, a
/// number that is a `u64`, any other number (as its text), or anything else.
#[derive(Debug)]
pub enum JsonScalar {
    Text(String),
    Unsigned(u64),
    Number(String),
    Other,
}

pub enum JsonScalarView {
    Text(Seq<char>),
    Unsigned(int),
    Number(Seq<char>),
    Other,
}

impl View for JsonScalar {
    type V = JsonScalarView;

    open spec fn view(&self) -> JsonScalarView {
        match self {
            JsonScalar::Text(s) => JsonScalarView::Text(s@),
            JsonScalar::Unsigned(n) => JsonScalarView::Unsigned(*n as int),
            JsonScalar::Number(t) => JsonScalarView::Number(t@),
            JsonScalar::Other => JsonScalarView::Other,
        }
    }
}

/// A field of a listed market that should hold a list: missing, a JSON list,
/// a string (which may itself hold a JSON list), or anything else.
#[derive(Debug)]
pub enum JsonField {
    Missing,
    List(Vec<JsonScalar>),
    Text(String),
    Other,
}

pub enum JsonFieldView {
    Missing,
    List(Seq<JsonScalarView>),
    Text(Seq<char>),
    Other,
}

impl View for JsonField {
    type V = JsonFieldView;

    open spec fn view(&self) -> JsonFieldView {
        match self {
            JsonField::Missing => JsonFieldView::Missing,
            JsonField::List(v) => JsonFieldView::List(v@.map_values(|x: JsonScalar| x@)),
            JsonField::Text(t) => JsonFieldView::Text(t@),
            JsonField::Other => JsonFieldView::Other,
        }
    }
}

/// The fields of one listed market that are read. `slug` and `question` are
/// present when the field is a string, `accepting_orders` when it is a
/// boolean.
#[derive(Debug)]
pub struct GammaMarket {
    pub slug: Option<String>,
    pub question: Option<String>,
    pub accepting_orders: Option<bool>,
    pub clob_token_ids: JsonField,
    pub outcome_prices: JsonField,
}

/// The elements of the JSON list that `text` holds, `None` where `text` is
/// not a JSON list.
pub uninterp spec fn json_list(text: Seq<char>) -> Option<Seq<JsonScalarView>>;

/// `serde_json::from_str` into a list of values, each read as a
/// [`JsonScalar`]. The result is named: it is a function of the text alone.
#[verifier::external_body]
fn parse_json_list(text: &str) -> (r: Option<Vec<JsonScalar>>)
    ensures
        match r {
            Some(v) => json_list(text@) == Some(v@.map_values(|x: JsonScalar| x@)),
            None => json_list(text@) is None,
        },
{
    match serde_json::from_str::<Vec<serde_json::Value>>(text) {
        Ok(values) => Some(
            values.into_iter().map(|v| match v {
                serde_json::Value::String(s) => JsonScalar::Text(s),
                serde_json::Value::Number(n) => match n.as_u64() {
                    Some(u) => JsonScalar::Unsigned(u),
                    None => JsonScalar::Number(n.to_string()),
                },
                _ => JsonScalar::Other,
            }).collect(),
        ),
        Err(_) => None,
    }
}

/// Token ids of a list: its strings, and, where `with_numbers`, the decimal
/// text of its `u64` numbers.
pub open spec fn ids_of(items: Seq<JsonScalarView>, with_numbers: bool) -> Seq<Seq<char>>
    decreases items.len(),
{
    if items.len() == 0 {
        seq![]
    } else {
        let rest = ids_of(items.drop_last(), with_numbers);
        match items.last() {
            JsonScalarView::Text(s) => rest.push(s),
            JsonScalarView::Unsigned(n) => if with_numbers {
                rest.push(decimal_text(n as nat))
            } else {
                rest
            },
            _ => rest,
        }
    }
}

/// The price (millionths) an element denotes, if any: a number, or a string
/// holding a plain decimal number.
pub open spec fn price_of(x: JsonScalarView) -> Option<int> {
    match x {
        JsonScalarView::Unsigned(n) => if n * 1_000_000 <= i64::MAX {
            Some(n * 1_000_000)
        } else {
            None
        },
        JsonScalarView::Number(t) => parse_fixed_spec(t),
        JsonScalarView::Text(t) => parse_fixed_spec(t),
        JsonScalarView::Other => None,
    }
}

/// The prices of a list, skipping elements that denote none.
pub open spec fn prices_of(items: Seq<JsonScalarView>) -> Seq<int>
    decreases items.len(),
{
    if items.len() == 0 {
        seq![]
    } else {
        let rest = prices_of(items.drop_last());
        match price_of(items.last()) {
            Some(p) => rest.push(p),
            None => rest,
        }
    }
}

/// Token ids of the `clobTokenIds` field: from a list, its strings; from a
/// string holding a JSON list, its strings and `u64` numbers.
pub open spec fn field_token_ids(f: JsonFieldView) -> Seq<Seq<char>> {
    match f {
        JsonFieldView::List(items) => ids_of(items, false),
        JsonFieldView::Text(t) => match json_list(t) {
            Some(items) => ids_of(items, true),
            None => seq![],
        },
        _ => seq![],
    }
}

/// Prices of the `outcomePrices` field: from a list, or from a string
/// holding a JSON list.
pub open spec fn field_prices(f: JsonFieldView) -> Seq<int> {
    match f {
        JsonFieldView::List(items) => prices_of(items),
        JsonFieldView::Text(t) => match json_list(t) {
            Some(items) => prices_of(items),
            None => seq![],
        },
        _ => seq![],
    }
}

pub open spec fn text_or_empty(t: Option<String>) -> Seq<char> {
    match t {
        Some(s) => s@,
        None => seq![],
    }
}

/// The contract a listed market yields for the window whose slug is
/// `current_slug`: its Yes token (the first token id), its question, and its
/// Yes and No prices (the first two prices, zero where missing). A market
/// yields nothing when its slug differs, when it does not accept orders, when
/// it has no Yes token, or when its Yes price is not positive.
pub open spec fn extract_spec(m: GammaMarket, current_slug: Seq<char>) -> Option<
    (Seq<char>, Seq<char>, int, int),
> {
    let ids = field_token_ids(m.clob_token_ids@);
    let prices = field_prices(m.outcome_prices@);
    let yes_token = if ids.len() > 0 {
        ids[0]
    } else {
        seq![]
    };
    let yes_price = if prices.len() > 0 {
        prices[0]
    } else {
        0
    };
    let no_price = if prices.len() > 1 {
        prices[1]
    } else {
        0
    };
    if text_or_empty(m.slug) != current_slug {
        None
    } else if !(m.accepting_orders == Some(true)) {
        None
    } else if yes_token.len() == 0 || yes_price <= 0 {
        None
    } else {
        Some((yes_token, text_or_empty(m.question), yes_price, no_price))
    }
}

/// A listed market yields a contract only when it is the current window's
/// market (its slug is the current slug; a market without a slug counts as
/// having the empty one), it accepts orders (`acceptingOrders` is `true`;
/// `false` or a missing flag yields nothing), and its Yes price is positive.
pub proof fn law_contract_needs_open_market(m: GammaMarket, current_slug: Seq<char>)
    ensures
        extract_spec(m, current_slug) is Some ==> {
            &&& m.accepting_orders == Some(true)
            &&& (m.slug matches Some(t) ==> t@ == current_slug)
            &&& (m.slug is None ==> current_slug.len() == 0)
        },
        extract_spec(m, current_slug) matches Some((token, question, yes, no)) ==> yes > 0
            && token.len() > 0,
        m.accepting_orders != Some(true) ==> extract_spec(m, current_slug) is None,
{
}

/// The slug of the 15-minute BTC market whose window starts at `start`.
pub open spec fn slug_spec(start: int) -> Seq<char> {
    "btc-updown-15m-"@ + decimal_text(start as nat)
}

/// The slug of the 15-minute BTC market whose window starts at
/// `window_start` (UNIX seconds).
pub fn market_slug(window_start: u64) -> (r: String)
    ensures
        r@ == slug_spec(window_start as int),
{
    let mut s = String::from_str("btc-updown-15m-");
    push_decimal(&mut s, window_start as u128);
    s
}

fn ids_from(items: &Vec<JsonScalar>, with_numbers: bool) -> (r: Vec<String>)
    ensures
        r@.map_values(|s: String| s@) == ids_of(items@.map_values(|x: JsonScalar| x@), with_numbers),
{
    let ghost view = items@.map_values(|x: JsonScalar| x@);
    let mut r: Vec<String> = Vec::new();
    let mut i: usize = 0;
    while i < items.len()
        invariant
            0 <= i <= items@.len(),
            view == items@.map_values(|x: JsonScalar| x@),
            r@.map_values(|s: String| s@) == ids_of(view.take(i as int), with_numbers),
        decreases items@.len() - i,
    {
        proof {
            assert(view.take(i + 1).drop_last() =~= view.take(i as int));
            assert(view.take(i + 1).last() == items@[i as int]@);
        }
        let ghost before = r@;
        match &items[i] {
            JsonScalar::Text(s) => {
                r.push(s.clone());
                assert(r@.map_values(|s: String| s@) =~= before.map_values(|s: String| s@).push(s@));
            },
            JsonScalar::Unsigned(n) => {
                if with_numbers {
                    let mut t = String::new();
                    push_decimal(&mut t, *n as u128);
                    r.push(t);
                    assert(r@.map_values(|s: String| s@) =~= before.map_values(|s: String| s@).push(
                        decimal_text(*n as nat),
                    ));
                }
            },
            _ => {},
        }
        i = i + 1;
    }
    assert(view.take(i as int) =~= view);
    r
}

fn price_from(x: &JsonScalar) -> (r: Option<i64>)
    ensures
        match r {
            Some(p) => price_of(x@) == Some(p as int),
            None => price_of(x@) is None,
        },
{
    match x {
        JsonScalar::Unsigned(n) => {
            if *n <= 9_223_372_036_854 {
                Some((*n * 1_000_000) as i64)
            } else {
                None
            }
        },
        JsonScalar::Number(t) => parse_fixed(t.as_str()),
        JsonScalar::Text(t) => parse_fixed(t.as_str()),
        JsonScalar::Other => None,
    }
}

fn prices_from(items: &Vec<JsonScalar>) -> (r: Vec<i64>)
    ensures
        r@.map_values(|p: i64| p as int) == prices_of(items@.map_values(|x: JsonScalar| x@)),
{
    let ghost view = items@.map_values(|x: JsonScalar| x@);
    let mut r: Vec<i64> = Vec::new();
    let mut i: usize = 0;
    while i < items.len()
        invariant
            0 <= i <= items@.len(),
            view == items@.map_values(|x: JsonScalar| x@),
            r@.map_values(|p: i64| p as int) == prices_of(view.take(i as int)),
        decreases items@.len() - i,
    {
        proof {
            assert(view.take(i + 1).drop_last() =~= view.take(i as int));
            assert(view.take(i + 1).last() == items@[i as int]@);
        }
        let ghost before = r@;
        match price_from(&items[i]) {
            Some(p) => {
                r.push(p);
                assert(r@.map_values(|p: i64| p as int) =~= before.map_values(|p: i64| p as int).push(
                    p as int,
                ));
            },
            None => {},
        }
        i = i + 1;
    }
    assert(view.take(i as int) =~= view);
    r
}

fn token_ids_of_field(f: &JsonField) -> (r: Vec<String>)
    ensures
        r@.map_values(|s: String| s@) == field_token_ids(f@),
{
    match f {
        JsonField::List(items) => ids_from(items, false),
        JsonField::Text(t) => match parse_json_list(t.as_str()) {
            Some(items) => ids_from(&items, true),
            None => {
                let r: Vec<String> = Vec::new();
                assert(r@.map_values(|s: String| s@) =~= seq![]);
                r
            },
        },
        _ => {
            let r: Vec<String> = Vec::new();
            assert(r@.map_values(|s: String| s@) =~= seq![]);
            r
        },
    }
}

fn prices_of_field(f: &JsonField) -> (r: Vec<i64>)
    ensures
        r@.map_values(|p: i64| p as int) == field_prices(f@),
{
    match f {
        JsonField::List(items) => prices_from(items),
        JsonField::Text(t) => match parse_json_list(t.as_str()) {
            Some(items) => prices_from(&items),
            None => {
                let r: Vec<i64> = Vec::new();
                assert(r@.map_values(|p: i64| p as int) =~= seq![]);
                r
            },
        },
        _ => {
            let r: Vec<i64> = Vec::new();
            assert(r@.map_values(|p: i64| p as int) =~= seq![]);
            r
        },
    }
}

/// The contract price a listed market yields for the window whose slug is
/// `current_slug`, stamped `fetched_at_us`.
pub fn extract_contract(market: &GammaMarket, current_slug: &str, fetched_at_us: u64) -> (r: Option<
    ContractPrice,
>)
    ensures
        match extract_spec(*market, current_slug@) {
            Some((token, question, yes, no)) => r matches Some(c) && c.token_id@ == token
                && c.question@ == question && c.yes_price == yes && c.no_price == no
                && c.fetched_at_us == fetched_at_us,
            None => r is None,
        },
{
    let slug_matches = match &market.slug {
        Some(s) => same_text(s.as_str(), current_slug),
        None => current_slug.unicode_len() == 0,
    };
    if !slug_matches {
        proof {
            if market.slug is None {
                assert(text_or_empty(market.slug) =~= seq![]);
            }
        }
        return None;
    }
    proof {
        if market.slug is None {
            assert(current_slug@ =~= seq![]);
        }
    }
    let accepting = match market.accepting_orders {
        Some(b) => b,
        None => false,
    };
    if !accepting {
        return None;
    }
    // clobTokenIds: index 0 is the Yes token
    let token_ids = token_ids_of_field(&market.clob_token_ids);
    // outcomePrices: index 0 is Yes, index 1 is No
    let prices = prices_of_field(&market.outcome_prices);
    proof {
        assert(token_ids@.len() == token_ids@.map_values(|s: String| s@).len());
        assert(prices@.len() == prices@.map_values(|p: i64| p as int).len());
        if token_ids@.len() > 0 {
            assert(token_ids@.map_values(|s: String| s@)[0] == token_ids@[0]@);
        }
        if prices@.len() > 0 {
            assert(prices@.map_values(|p: i64| p as int)[0] == prices@[0] as int);
        }
        if prices@.len() > 1 {
            assert(prices@.map_values(|p: i64| p as int)[1] == prices@[1] as int);
        }
    }
    let yes_price: i64 = if prices.len() > 0 {
        prices[0]
    } else {
        0
    };
    let no_price: i64 = if prices.len() > 1 {
        prices[1]
    } else {
        0
    };
    if token_ids.len() == 0 {
        return None;
    }
    let yes_token_id = token_ids[0].clone();
    if yes_token_id.as_str().unicode_len() == 0 || yes_price <= 0 {
        return None;
    }
    let question = match &market.question {
        Some(q) => q.clone(),
        None => String::new(),
    };
    Some(
        ContractPrice {
            token_id: yes_token_id,
            question,
            yes_price,
            no_price,
            fetched_at_us,
        },
    )
}

/// Whether the contract price `c` is what `extract_spec` yields for `m`.
pub open spec fn yields(m: GammaMarket, current_slug: Seq<char>, fetched_at_us: u64, c: ContractPrice) -> bool {
    extract_spec(m, current_slug) matches Some((token, question, yes, no)) && c.token_id@ == token
        && c.question@ == question && c.yes_price == yes && c.no_price == no && c.fetched_at_us
        == fetched_at_us
}

/// The contracts the markets yield, in listing order.
pub open spec fn yielded(ms: Seq<GammaMarket>, current_slug: Seq<char>, fetched_at_us: u64, cs: Seq<
    ContractPrice,
>) -> bool
    decreases ms.len(),
{
    if ms.len() == 0 {
        cs.len() == 0
    } else {
        match extract_spec(ms.last(), current_slug) {
            Some(_) => cs.len() > 0 && yields(ms.last(), current_slug, fetched_at_us, cs.last())
                && yielded(ms.drop_last(), current_slug, fetched_at_us, cs.drop_last()),
            None => yielded(ms.drop_last(), current_slug, fetched_at_us, cs),
        }
    }
}

/// The snapshot of one poll at second `now_secs`: the contracts the listed
/// markets yield for the current window's slug, stamped with `now_secs` in
/// microseconds, or `None` when there are none.
pub fn build_snapshot(markets: &Vec<GammaMarket>, now_secs: u64) -> (r: Option<MarketSnapshot>)
    requires
        now_secs <= u64::MAX / 1_000_000,
    ensures
        match r {
            Some(s) => s.contracts@.len() > 0 && yielded(
                markets@,
                slug_spec(window_start_spec(now_secs as int)),
                (now_secs * 1_000_000) as u64,
                s.contracts@,
            ),
            None => yielded(
                markets@,
                slug_spec(window_start_spec(now_secs as int)),
                (now_secs * 1_000_000) as u64,
                Seq::empty(),
            ),
        },
{
    let timestamp_us = now_secs * 1_000_000;
    // The market of the current 15-minute window
    let current_slug = market_slug(window_start(now_secs));
    let ghost slug = current_slug@;
    let mut contracts: Vec<ContractPrice> = Vec::new();
    let mut i: usize = 0;
    while i < markets.len()
        invariant
            0 <= i <= markets@.len(),
            slug == current_slug@,
            timestamp_us == now_secs * 1_000_000,
            yielded(markets@.take(i as int), slug, timestamp_us, contracts@),
        decreases markets@.len() - i,
    {
        proof {
            assert(markets@.take(i + 1).drop_last() =~= markets@.take(i as int));
            assert(markets@.take(i + 1).last() == markets@[i as int]);
        }
        match extract_contract(&markets[i], current_slug.as_str(), timestamp_us) {
            Some(c) => {
                let ghost before = contracts@;
                contracts.push(c);
                proof {
                    assert(contracts@.drop_last() =~= before);
                }
            },
            None => {},
        }
        i = i + 1;
    }
    proof {
        assert(markets@.take(i as int) =~= markets@);
    }
    if contracts.len() == 0 {
        proof {
            assert(contracts@ =~= Seq::<ContractPrice>::empty());
        }
        None
    } else {
        Some(MarketSnapshot { contracts })
    }
}

} // verus!
