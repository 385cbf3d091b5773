//! Client-side core of a multiplexed RPC transport.

pub mod client;
pub mod meta;
pub mod multiplex;
pub mod registry;
pub mod shard;
