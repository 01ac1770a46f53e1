//! Identity: Ed25519 node identities and keyring (trust group) membership.
//!
//! Every node has a cryptographic identity generated at first boot;
//! its `NodeId` is the BLAKE3 digest of its public key.

pub mod keyring_id;
pub mod node;

pub use keyring_id::{KeyringId, KeyringMembership, Role};
pub use node::{NodeId, NodeIdentity};
