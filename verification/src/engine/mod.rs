pub mod detector;
pub mod signal;
pub mod state;
