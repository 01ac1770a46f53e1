//! Node identity: an Ed25519 keypair and the BLAKE3 node identifier.

use vstd::prelude::*;

use crate::bytes::{hex_encode, hex_lower};
use crate::crypto::{
    blake3_digest, blake3_hash, ed25519_accepts, ed25519_public, ed25519_public_key,
    ed25519_random_secret, ed25519_sign, ed25519_signature, ed25519_verify,
};
use crate::clock::{now_timestamp, Timestamp};
use crate::keyed_map::MapKey;

verus! {

/// 32-byte node identifier: the BLAKE3 digest of the node's public key.
#[derive(Clone, Copy, PartialEq, Eq, Hash, PartialOrd, Ord, Debug)]
pub struct NodeId(pub [u8; 32]);

impl MapKey for NodeId {
    fn key_eq(&self, other: &Self) -> (b: bool) {
        crate::bytes::bytes_eq(&self.0, &other.0)
    }
}

impl NodeId {
    /// The identifier of the node whose public key has these bytes.
    pub fn from_pubkey(pubkey: &[u8; 32]) -> (id: NodeId)
        ensures
            id.0@ == blake3_digest(pubkey@),
    {
        NodeId(blake3_hash(pubkey))
    }

    /// The identifier's bytes.
    pub fn as_bytes(&self) -> (b: &[u8; 32])
        ensures
            *b == self.0,
    {
        &self.0
    }

    /// Short form: lowercase hex of the first eight bytes.
    pub fn short(&self) -> (s: String)
        ensures
            s@ == hex_lower(self.0@.take(8)),
    {
        let all: &[u8] = self.0.as_slice();
        let head: &[u8] = &all[0..8];
        assert(head@ =~= self.0@.take(8));
        hex_encode(head)
    }

    /// Full form: lowercase hex of all 32 bytes.
    pub fn to_hex(&self) -> (s: String)
        ensures
            s@ == hex_lower(self.0@),
    {
        hex_encode(self.0.as_slice())
    }
}

/// Full node identity with signing capability.
pub struct NodeIdentity {
    signing_key: [u8; 32],
    verifying_key: [u8; 32],
    node_id: NodeId,
    name: String,
    created_at: Timestamp,
}

impl NodeIdentity {
    /// The public key and node identifier belong to the secret key.
    #[verifier::type_invariant]
    spec fn keys_agree(self) -> bool {
        &&& self.verifying_key@ == ed25519_public_key(self.signing_key@)
        &&& self.node_id.0@ == blake3_digest(self.verifying_key@)
    }

    /// The secret key's bytes.
    pub closed spec fn spec_secret(&self) -> Seq<u8> {
        self.signing_key@
    }

    /// The public key's bytes.
    pub closed spec fn spec_pubkey(&self) -> Seq<u8> {
        self.verifying_key@
    }

    /// The node identifier.
    pub closed spec fn spec_node_id(&self) -> NodeId {
        self.node_id
    }

    /// The node's human-readable name.
    pub closed spec fn spec_name(&self) -> Seq<char> {
        self.name@
    }

    /// Creation time.
    pub closed spec fn spec_created_at(&self) -> Timestamp {
        self.created_at
    }

    /// Generates a new identity from a fresh random secret key, created now.
    pub fn generate(name: String) -> (id: NodeIdentity)
        ensures
            id.spec_name() == name@,
            id.spec_pubkey() == ed25519_public_key(id.spec_secret()),
            id.spec_node_id().0@ == blake3_digest(id.spec_pubkey()),
            id.spec_created_at().is_valid(),
            id.spec_created_at().secs >= 0,
    {
        let secret = ed25519_random_secret();
        let created_at = now_timestamp();
        Self::from_secret(secret, name, created_at)
    }

    /// Rebuilds an identity from a stored secret key, name and creation time,
    /// deriving the public key and the node identifier.
    pub fn from_secret(secret: [u8; 32], name: String, created_at: Timestamp) -> (id: NodeIdentity)
        ensures
            id.spec_secret() == secret@,
            id.spec_pubkey() == ed25519_public_key(secret@),
            id.spec_node_id().0@ == blake3_digest(ed25519_public_key(secret@)),
            id.spec_name() == name@,
            id.spec_created_at() == created_at,
    {
        let verifying_key = ed25519_public(&secret);
        let node_id = NodeId::from_pubkey(&verifying_key);
        NodeIdentity { signing_key: secret, verifying_key, node_id, name, created_at }
    }

    /// The secret key's bytes, as they are stored on disk.
    pub fn secret_key_bytes(&self) -> (b: [u8; 32])
        ensures
            b@ == self.spec_secret(),
    {
        self.signing_key
    }

    /// Signs arbitrary data with this node's secret key. The signature verifies
    /// under this node's public key.
    pub fn sign(&self, data: &[u8]) -> (sig: [u8; 64])
        ensures
            sig@ == ed25519_signature(self.spec_secret(), data@),
            ed25519_accepts(self.spec_pubkey(), data@, sig@),
    {
        proof {
            use_type_invariant(self);
        }
        ed25519_sign(&self.signing_key, data)
    }

    /// Verifies a signature made by the holder of `pubkey`'s secret key.
    pub fn verify(pubkey: &[u8; 32], data: &[u8], sig: &[u8; 64]) -> (ok: bool)
        ensures
            ok == ed25519_accepts(pubkey@, data@, sig@),
    {
        ed25519_verify(pubkey, data, sig)
    }

    pub fn node_id(&self) -> (id: NodeId)
        ensures
            id == self.spec_node_id(),
    {
        self.node_id
    }

    pub fn name(&self) -> (n: &str)
        ensures
            n@ == self.spec_name(),
    {
        self.name.as_str()
    }

    pub fn pubkey(&self) -> (pk: &[u8; 32])
        ensures
            pk@ == self.spec_pubkey(),
    {
        &self.verifying_key
    }

    pub fn created_at(&self) -> (t: Timestamp)
        ensures
            t == self.spec_created_at(),
    {
        self.created_at
    }
}

} // verus!
