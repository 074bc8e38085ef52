pub mod address;
pub mod bytes;
pub mod gateway;
pub mod lending;
pub mod table;
pub mod zk;
