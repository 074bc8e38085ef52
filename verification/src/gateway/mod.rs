pub mod errors;
pub mod gateway;
pub mod types;
pub mod laws;
