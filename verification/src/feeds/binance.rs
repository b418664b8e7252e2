//! Spot price updates from Binance's trade stream.
use crate::fixed::{parse_fixed, parse_fixed_spec};
use vstd::prelude::*;
use vstd::string::*;

verus! {

/// One spot price observation: `price` in millionths of USD.
#[derive(Debug)]
pub struct PriceUpdate {
    pub source: String,
    pub price: i64,
    pub timestamp_us: u64,
}

impl Clone for PriceUpdate {
    fn clone(&self) -> (r: Self)
        ensures
            r == *self,
    {
        PriceUpdate { source: self.source.clone(), price: self.price, timestamp_us: self.timestamp_us }
    }
}

/// The price update of one trade event: its price text (field `p`) read as a
/// plain decimal number, and its event time (field `E`, milliseconds) in
/// microseconds. `None` where the price text is no plain decimal number that
/// fits, in which case the event is skipped.
pub fn price_update_from_trade(price_text: &str, event_time_ms: u64) -> (r: Option<PriceUpdate>)
    requires
        event_time_ms <= u64::MAX / 1000,
    ensures
        match parse_fixed_spec(price_text@) {
            Some(p) => r matches Some(u) && u.source@ == "binance"@ && u.price == p
                && u.timestamp_us == event_time_ms * 1000,
            None => r is None,
        },
{
    match parse_fixed(price_text) {
        Some(price) => Some(
            PriceUpdate {
                source: String::from_str("binance"),
                price,
                timestamp_us: event_time_ms * 1000,
            },
        ),
        None => None,
    }
}

/// One message from the trade stream, as far as it matters: a trade event
/// (its price text and event time), text that is no trade event, the stream
/// closing, a stream error, or anything else (pings, binary frames).
#[derive(Debug)]
pub enum StreamMessage {
    Trade { price_text: String, event_time_ms: u64 },
    Unreadable,
    Closed,
    Failed,
    Ignored,
}

/// What the feed does with a message.
#[derive(Debug)]
pub enum StreamAction {
    /// Publish this price update.
    Publish(PriceUpdate),
    /// Report the message as unreadable and read on.
    Skip,
    /// Read on.
    Continue,
    /// Drop the connection and reconnect.
    Reconnect,
}

/// Decides what the feed does with one message: a trade event whose price
/// reads is published, an unreadable one skipped, the stream closing or
/// failing ends the connection, and anything else is passed over.
pub fn on_stream_message(msg: StreamMessage) -> (r: StreamAction)
    requires
        msg matches StreamMessage::Trade { event_time_ms, .. } ==> event_time_ms <= u64::MAX / 1000,
    ensures
        match msg {
            StreamMessage::Trade { price_text, event_time_ms } => match parse_fixed_spec(
                price_text@,
            ) {
                Some(p) => r matches StreamAction::Publish(u) && u.source@ == "binance"@ && u.price
                    == p && u.timestamp_us == event_time_ms * 1000,
                None => r is Skip,
            },
            StreamMessage::Unreadable => r is Skip,
            StreamMessage::Closed => r is Reconnect,
            StreamMessage::Failed => r is Reconnect,
            StreamMessage::Ignored => r is Continue,
        },
{
    match msg {
        StreamMessage::Trade { price_text, event_time_ms } => match price_update_from_trade(
            price_text.as_str(),
            event_time_ms,
        ) {
            Some(update) => StreamAction::Publish(update),
            None => StreamAction::Skip,
        },
        StreamMessage::Unreadable => StreamAction::Skip,
        StreamMessage::Closed => StreamAction::Reconnect,
        StreamMessage::Failed => StreamAction::Reconnect,
        StreamMessage::Ignored => StreamAction::Continue,
    }
}

} // verus!
