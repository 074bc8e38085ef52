pub mod laws;
pub mod liquidation;
pub mod ops;
pub mod pool;
pub mod types;
