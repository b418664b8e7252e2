pub mod executor;

pub use executor::Executor;
