//! Connection management for peer-to-peer communication: a verified table of live
//! peer connections bounded by a maximum number of active connections, the
//! decisions taken while establishing a connection to a peer, and the registry of
//! per-peer establishment locks.

pub mod node_id;
pub mod node_map;
pub mod types;
pub mod live_connections;
pub mod manager;
pub mod laws;
