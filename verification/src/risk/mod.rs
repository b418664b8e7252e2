pub mod laws;
pub mod manager;

pub use manager::{Position, RiskDecision, RiskManager};
