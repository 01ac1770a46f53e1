//! Documents: CRDT-enabled, versioned, structured data units.

use vstd::prelude::*;

use crate::bytes::{uuid_text, uuid_to_text};
use crate::clock::{now_timestamp, Timestamp};
use crate::crypto::uuid_v4_bytes;
use crate::identity::{KeyringId, NodeId};
use crate::keyed_map::MapKey;

verus! {

/// Stable document identifier: the 16 bytes of a UUID.
#[derive(Clone, Copy, PartialEq, Eq, Hash, Debug)]
pub struct DocumentId(pub [u8; 16]);

impl MapKey for DocumentId {
    fn key_eq(&self, other: &Self) -> (b: bool) {
        crate::bytes::bytes_eq(&self.0, &other.0)
    }
}

impl DocumentId {
    /// A fresh random (version 4) identifier.
    pub fn new() -> (id: Self)
        ensures
            id.0@[6] & 0xf0u8 == 0x40u8,
            id.0@[8] & 0xc0u8 == 0x80u8,
    {
        DocumentId(uuid_v4_bytes())
    }

    /// The identifier as hyphenated lowercase UUID text.
    pub fn to_text(&self) -> (s: String)
        ensures
            s@ == uuid_text(self.0@),
    {
        uuid_to_text(&self.0)
    }
}

/// Document type: determines the CRDT strategy.
#[derive(Clone, Debug, PartialEq, Eq)]
pub enum DocumentType {
    /// Text/binary file: Automerge for text, last-write-wins for binary.
    File,
    /// Append-only event log.
    Event,
    /// Last-write-wins register (settings, status).
    Register,
    /// Increment/decrement counter.
    Counter,
    /// Add/remove set (tags, memberships).
    AddRemoveSet,
    /// Key-value map.
    KeyValueMap,
    /// Task queue.
    Queue,
}

/// Document metadata (stored in the store's document index).
#[derive(Clone, Debug)]
pub struct DocumentMeta {
    pub id: DocumentId,
    pub doc_type: DocumentType,
    pub keyring: KeyringId,
    /// Tags: a set.
    pub tags: Vec<String>,
    /// Free-form metadata: keys with JSON-encoded values.
    pub metadata: Vec<(String, String)>,
    pub created_at: Timestamp,
    pub updated_at: Timestamp,
    pub author: NodeId,
    pub size: u64,
}

/// A full document with its CRDT state.
#[derive(Clone)]
pub struct Document {
    pub meta: DocumentMeta,
    /// Raw serialized CRDT state.
    pub crdt_state: Vec<u8>,
}

/// What a freshly created document of type `t` holding `value` is.
pub open spec fn fresh_document(d: Document, t: DocumentType, keyring: KeyringId, author: NodeId, value: Seq<u8>) -> bool {
    &&& d.meta.doc_type == t
    &&& d.meta.keyring == keyring
    &&& d.meta.author == author
    &&& d.meta.tags@.len() == 0
    &&& d.meta.metadata@.len() == 0
    &&& d.meta.created_at == d.meta.updated_at
    &&& d.meta.created_at.is_valid()
    &&& d.meta.created_at.secs >= 0
    &&& d.meta.size == value.len()
    &&& d.crdt_state@ == value
    &&& d.meta.id.0@[6] & 0xf0u8 == 0x40u8
    &&& d.meta.id.0@[8] & 0xc0u8 == 0x80u8
}

impl Document {
    fn new_of_type(t: DocumentType, keyring: KeyringId, author: NodeId, value: &[u8]) -> (d: Self)
        ensures
            fresh_document(d, t, keyring, author, value@),
    {
        let id = DocumentId::new();
        let now = now_timestamp();
        Document {
            meta: DocumentMeta {
                id,
                doc_type: t,
                keyring,
                tags: Vec::new(),
                metadata: Vec::new(),
                created_at: now,
                updated_at: now,
                author,
                size: value.len() as u64,
            },
            crdt_state: vstd::slice::slice_to_vec(value),
        }
    }

    /// A new last-write-wins register holding `value`, created now.
    pub fn new_register(keyring: KeyringId, author: NodeId, value: &[u8]) -> (d: Self)
        ensures
            fresh_document(d, DocumentType::Register, keyring, author, value@),
    {
        Self::new_of_type(DocumentType::Register, keyring, author, value)
    }

    /// A new event holding `payload`, created now.
    pub fn new_event(keyring: KeyringId, author: NodeId, payload: &[u8]) -> (d: Self)
        ensures
            fresh_document(d, DocumentType::Event, keyring, author, payload@),
    {
        Self::new_of_type(DocumentType::Event, keyring, author, payload)
    }
}

} // verus!
