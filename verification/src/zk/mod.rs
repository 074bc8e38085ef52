pub mod curve;
pub mod errors;
pub mod field;
pub mod host;
pub mod types;
pub mod groth16;
pub mod state;
pub mod registry;
pub mod policy;
pub mod attestation;
pub mod contract;
pub mod laws;
