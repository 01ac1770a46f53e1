//! Common transport types.

use vstd::prelude::*;

use crate::identity::{KeyringId, NodeId};
use crate::store::document::DocumentId;

verus! {

/// A peer address that can be resolved to a connection.
#[derive(Clone, Debug)]
pub struct PeerAddr {
    pub node_id: Option<NodeId>,
    pub addr: String,
    pub transport: String,
}

/// Sync frame: the unit of communication between nodes.
#[derive(Clone, Debug)]
pub struct SyncFrame {
    pub frame_type: FrameType,
    pub keyring: KeyringId,
    pub document: Option<DocumentId>,
    pub payload: Vec<u8>,
    pub seq: u64,
}

#[derive(Clone, Copy, Debug, PartialEq, Eq)]
pub enum FrameType {
    /// Exchange Merkle roots to find divergence.
    RootExchange,
    /// Request specific hashes for tree traversal.
    HashRequest,
    /// Send delta changes.
    DeltaPayload,
    /// Acknowledge receipt.
    Ack,
    /// Presence announcement.
    Presence,
    /// Ping/pong for health.
    Ping,
    Pong,
}

} // verus!
