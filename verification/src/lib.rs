//! Keyring: a distributed agent mesh runtime.
//!
//! This library holds the runtime's data model and decision logic with
//! machine-checked contracts: node and keyring identities, content-addressed
//! blobs and documents, the content store over `redb`, hybrid logical clocks
//! and vector clocks, the coordinator's presence and task bookkeeping, the
//! plugin registry, configuration defaults and the sync frame format.

pub mod bytes;
pub mod keyed_map;
pub mod clock;
pub mod crypto;
pub mod identity;
pub mod store;
pub mod crdt;
pub mod coordinator;
pub mod plugin;
pub mod api;
pub mod cli;
pub mod config;
pub mod sync;
pub mod transport;
