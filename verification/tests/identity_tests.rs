use keyring::clock::Timestamp;
use keyring::identity::{KeyringId, KeyringMembership, NodeId, NodeIdentity, Role};
use keyring::store::BlobHash;

fn unhex(s: &str) -> Vec<u8> {
    (0..s.len()).step_by(2).map(|i| u8::from_str_radix(&s[i..i + 2], 16).unwrap()).collect()
}

fn arr32(s: &str) -> [u8; 32] {
    let v = unhex(s);
    let mut a = [0u8; 32];
    a.copy_from_slice(&v);
    a
}

#[test]
fn node_id_short_and_hex_are_lowercase_hex() {
    let mut bytes = [0u8; 32];
    for (i, b) in bytes.iter_mut().enumerate() {
        *b = (i as u8) * 17;
    }
    let id = NodeId(bytes);
    assert_eq!(id.short(), "00112233445566778899aabbccddeeff"[..16].to_string());
    assert_eq!(id.to_hex().len(), 64);
    assert!(id.to_hex().starts_with("00112233445566778899aabbccddeeff"));
    assert_eq!(id.as_bytes(), &bytes);
}

#[test]
fn node_id_is_blake3_of_public_key() {
    let pk = [7u8; 32];
    let id = NodeId::from_pubkey(&pk);
    assert_eq!(id.0, BlobHash::compute(&pk).0);
    assert_ne!(id.0, pk);
}

#[test]
fn identity_from_rfc8032_secret_derives_known_public_key() {
    let secret = arr32("9d61b19deffd5a60ba844af492ec2cc44449c5697b326919703bac031cae7f60");
    let t = Timestamp { secs: 1_700_000_000, nanos: 123_456_789 };
    let id = NodeIdentity::from_secret(secret, "onyx-key".to_string(), t);
    assert_eq!(id.pubkey(), &arr32("d75a980182b10ab7d54bfed3c964073a0ee172f3daa62325af021a68f707511a"));
    assert_eq!(id.node_id(), NodeId::from_pubkey(id.pubkey()));
    assert_eq!(id.name(), "onyx-key");
    assert_eq!(id.created_at(), t);
    assert_eq!(id.secret_key_bytes(), secret);
}

#[test]
fn identity_signs_rfc8032_empty_message() {
    let secret = arr32("9d61b19deffd5a60ba844af492ec2cc44449c5697b326919703bac031cae7f60");
    let id = NodeIdentity::from_secret(secret, "n".to_string(), Timestamp::epoch());
    let sig = id.sign(b"");
    let expected = unhex("e5564300c360ac729086e2cc806e828a84877f1eb8e5d974d873e065224901555fb8821590a33bacc61e39701cf9b46bd25bf5f0595bbe24655141438e7a100b");
    assert_eq!(sig.to_vec(), expected);
    assert!(NodeIdentity::verify(id.pubkey(), b"", &sig));
}

#[test]
fn generated_identity_signature_verifies_and_rejects_tampering() {
    let id = NodeIdentity::generate("argus-key".to_string());
    assert_eq!(id.name(), "argus-key");
    let sig = id.sign(b"hello mesh");
    assert!(NodeIdentity::verify(id.pubkey(), b"hello mesh", &sig));
    assert!(!NodeIdentity::verify(id.pubkey(), b"hello mesh!", &sig));
    let other = NodeIdentity::generate("other".to_string());
    assert!(!NodeIdentity::verify(other.pubkey(), b"hello mesh", &sig));
    assert_ne!(id.node_id(), other.node_id());
}

#[test]
fn reloading_identity_from_secret_keeps_node_id() {
    let id = NodeIdentity::generate("a".to_string());
    let again = NodeIdentity::from_secret(id.secret_key_bytes(), "a".to_string(), id.created_at());
    assert_eq!(again.node_id(), id.node_id());
    assert_eq!(again.pubkey(), id.pubkey());
}

#[test]
fn system_keyring_has_fixed_uuid() {
    assert_eq!(KeyringId::system().to_text(), "00000000-0000-4000-8000-000000000001");
    assert_eq!(KeyringId::system(), KeyringId::system());
}

#[test]
fn new_keyring_ids_are_version_4_and_distinct() {
    let a = KeyringId::new();
    let b = KeyringId::new();
    assert_eq!(a.0[6] & 0xf0, 0x40);
    assert_eq!(a.0[8] & 0xc0, 0x80);
    assert_ne!(a, b);
    let text = a.to_text();
    assert_eq!(text.len(), 36);
    assert_eq!(&text[14..15], "4");
}

#[test]
fn keyring_creator_is_admin() {
    let creator = NodeId([1u8; 32]);
    let ring = KeyringMembership::new("ben-personal".to_string(), creator);
    assert_eq!(ring.name, "ben-personal");
    assert!(ring.has_member(&creator));
    assert_eq!(ring.role_of(&creator), Some(&Role::Admin));
    assert_eq!(ring.members.len(), 1);
}

#[test]
fn keyring_invite_then_role_of_gives_role() {
    let creator = NodeId([1u8; 32]);
    let guest = NodeId([2u8; 32]);
    let mut ring = KeyringMembership::new("r".to_string(), creator);
    assert!(!ring.has_member(&guest));
    assert_eq!(ring.role_of(&guest), None);
    ring.invite(guest, Role::Reader);
    assert_eq!(ring.role_of(&guest), Some(&Role::Reader));
    ring.invite(guest, Role::Restricted(vec!["Event".to_string()]));
    assert_eq!(ring.role_of(&guest), Some(&Role::Restricted(vec!["Event".to_string()])));
    assert_eq!(ring.role_of(&creator), Some(&Role::Admin));
    assert_eq!(ring.members.len(), 2);
}

#[test]
fn keyring_revoke_removes_only_that_member() {
    let creator = NodeId([1u8; 32]);
    let guest = NodeId([2u8; 32]);
    let mut ring = KeyringMembership::new("r".to_string(), creator);
    ring.invite(guest, Role::Member);
    ring.revoke(&guest);
    assert!(!ring.has_member(&guest));
    assert!(ring.has_member(&creator));
    ring.revoke(&NodeId([9u8; 32]));
    assert_eq!(ring.members.len(), 1);
}

#[test]
fn keyring_last_change_naming_a_node_decides_its_role() {
    let creator = NodeId([1u8; 32]);
    let a = NodeId([2u8; 32]);
    let b = NodeId([3u8; 32]);
    let mut ring = KeyringMembership::new("r".to_string(), creator);
    ring.invite(a, Role::Reader);
    ring.invite(b, Role::Member);
    ring.revoke(&b);
    ring.invite(a, Role::Admin);
    ring.revoke(&NodeId([7u8; 32]));
    assert_eq!(ring.role_of(&a), Some(&Role::Admin));
    assert!(ring.has_member(&a));
    assert_eq!(ring.role_of(&b), None);
    assert!(!ring.has_member(&b));
    assert_eq!(ring.role_of(&creator), Some(&Role::Admin));
    for n in [creator, a, b, NodeId([7u8; 32])] {
        assert_eq!(ring.has_member(&n), ring.role_of(&n).is_some());
    }
}
