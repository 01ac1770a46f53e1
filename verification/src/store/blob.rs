//! Content-addressed blobs: the fundamental storage unit.

use vstd::prelude::*;

use crate::bytes::{bytes_eq, hex_encode, hex_lower};
use crate::clock::{now_timestamp, Timestamp};
use crate::crypto::{blake3_digest, blake3_hash};
use crate::identity::NodeId;
use crate::keyed_map::MapKey;

verus! {

/// BLAKE3 hash: a content address.
#[derive(Clone, Copy, PartialEq, Eq, Hash, Debug)]
pub struct BlobHash(pub [u8; 32]);

impl MapKey for BlobHash {
    fn key_eq(&self, other: &Self) -> (b: bool) {
        bytes_eq(&self.0, &other.0)
    }
}

impl BlobHash {
    /// The content address of `data`.
    pub fn compute(data: &[u8]) -> (h: Self)
        ensures
            h.0@ == blake3_digest(data@),
    {
        BlobHash(blake3_hash(data))
    }

    pub fn as_bytes(&self) -> (b: &[u8; 32])
        ensures
            *b == self.0,
    {
        &self.0
    }

    pub fn from_bytes(bytes: [u8; 32]) -> (h: Self)
        ensures
            h.0 == bytes,
    {
        BlobHash(bytes)
    }

    /// Short form: lowercase hex of the first eight bytes.
    pub fn short(&self) -> (s: String)
        ensures
            s@ == hex_lower(self.0@.take(8)),
    {
        let all: &[u8] = self.0.as_slice();
        let head: &[u8] = &all[0..8];
        assert(head@ =~= self.0@.take(8));
        hex_encode(head)
    }

    /// Full form: lowercase hex of all 32 bytes.
    pub fn to_hex(&self) -> (s: String)
        ensures
            s@ == hex_lower(self.0@),
    {
        hex_encode(self.0.as_slice())
    }
}

/// A content-addressed blob.
#[derive(Clone)]
pub struct Blob {
    pub hash: BlobHash,
    pub data: Vec<u8>,
    pub size: u64,
    /// Creation time.
    pub created: Timestamp,
    pub author: NodeId,
}

impl Blob {
    /// The blob's hash is the content address of its data.
    pub open spec fn is_intact(&self) -> bool {
        self.hash.0@ == blake3_digest(self.data@)
    }

    /// A new blob holding `data`, addressed by its BLAKE3 hash, created now.
    /// A new blob is always intact.
    pub fn new(data: Vec<u8>, author: NodeId) -> (b: Self)
        ensures
            b.data@ == data@,
            b.size == data@.len(),
            b.author == author,
            b.created.is_valid(),
            b.created.secs >= 0,
            b.is_intact(),
    {
        let hash = BlobHash::compute(data.as_slice());
        let size = data.len() as u64;
        Blob { hash, data, size, created: now_timestamp(), author }
    }

    /// Verifies integrity: the stored hash is the address of the stored data.
    pub fn verify(&self) -> (ok: bool)
        ensures
            ok == self.is_intact(),
    {
        let h = BlobHash::compute(self.data.as_slice());
        let ok = bytes_eq(&h.0, &self.hash.0);
        proof {
            if ok {
                assert(self.hash.0@ == h.0@);
            } else {
                assert(self.hash.0 != h.0);
                assert(self.hash.0@ != h.0@) by {
                    if self.hash.0@ == h.0@ {
                        assert(self.hash.0 =~= h.0);
                    }
                }
            }
        }
        ok
    }
}

} // verus!
