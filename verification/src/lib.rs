//! Arbitrage engine between a spot BTC price feed and Polymarket's 15-minute
//! up/down markets: market state, signal detection, risk gating, simulated
//! execution and trade accounting.
use vstd::prelude::*;

pub mod config;
pub mod engine;
pub mod execution;
pub mod fixed;
pub mod feeds;
pub mod logger;
pub mod risk;
pub mod window;

verus! {

/// The concurrent map of the `dashmap` crate, which keeps the engine's
/// per-token tables. Its contents are opaque to the verifier; each table's
/// module names them and states what the calls it makes do to them.
#[verifier::external_type_specification]
#[verifier::external_body]
#[verifier::reject_recursive_types(K)]
#[verifier::reject_recursive_types(V)]
#[verifier::reject_recursive_types(S)]
pub struct ExDashMap<K, V, S>(dashmap::DashMap<K, V, S>);

} // verus!
