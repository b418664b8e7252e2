pub mod binance;
pub mod polymarket;

pub use binance::PriceUpdate;
pub use polymarket::{ContractPrice, MarketSnapshot};
