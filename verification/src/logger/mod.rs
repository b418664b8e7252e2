pub mod pnl;

pub use pnl::{PnlTracker, TradeRecord};
