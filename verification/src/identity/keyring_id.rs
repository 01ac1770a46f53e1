//! Keyring membership: trust groups for scoped data sharing.

use vstd::prelude::*;

use crate::bytes::{uuid_text, uuid_to_text};
use crate::clock::{now_timestamp, Timestamp};
use crate::crypto::uuid_v4_bytes;
use crate::identity::node::NodeId;
use crate::keyed_map::{KeyedMap, MapKey};

verus! {

/// Unique keyring identifier: the 16 bytes of a UUID.
#[derive(Clone, Copy, PartialEq, Eq, Hash, Debug)]
pub struct KeyringId(pub [u8; 16]);

impl MapKey for KeyringId {
    fn key_eq(&self, other: &Self) -> (b: bool) {
        crate::bytes::bytes_eq(&self.0, &other.0)
    }
}

/// The bytes of the `__system__` keyring's identifier, a fixed version-4 UUID.
pub open spec fn system_keyring_bytes() -> Seq<u8> {
    seq![
        0x00u8, 0x00u8, 0x00u8, 0x00u8, 0x00u8, 0x00u8, 0x40u8, 0x00u8,
        0x80u8, 0x00u8, 0x00u8, 0x00u8, 0x00u8, 0x00u8, 0x00u8, 0x01u8,
    ]
}

impl KeyringId {
    /// A fresh random (version 4) identifier.
    pub fn new() -> (id: Self)
        ensures
            id.0@[6] & 0xf0u8 == 0x40u8,
            id.0@[8] & 0xc0u8 == 0x80u8,
    {
        KeyringId(uuid_v4_bytes())
    }

    /// The special `__system__` keyring used for coordination.
    pub fn system() -> (id: Self)
        ensures
            id.0@ == system_keyring_bytes(),
    {
        let id = KeyringId([
            0x00, 0x00, 0x00, 0x00, 0x00, 0x00, 0x40, 0x00,
            0x80, 0x00, 0x00, 0x00, 0x00, 0x00, 0x00, 0x01,
        ]);
        assert(id.0@ =~= system_keyring_bytes());
        id
    }

    /// The identifier as hyphenated lowercase UUID text.
    pub fn to_text(&self) -> (s: String)
        ensures
            s@ == uuid_text(self.0@),
    {
        uuid_to_text(&self.0)
    }
}

/// Role within a keyring.
#[derive(Clone, Debug, PartialEq, Eq)]
pub enum Role {
    /// Full access: read, write, invite, revoke.
    Admin,
    /// Read and write.
    Member,
    /// Read only.
    Reader,
    /// May only sync the listed document types.
    Restricted(Vec<String>),
}

/// A keyring: a named trust group and the roles of its members.
#[derive(Clone, Debug)]
pub struct KeyringMembership {
    pub id: KeyringId,
    pub name: String,
    pub members: KeyedMap<NodeId, Role>,
    /// Creation time.
    pub created_at: Timestamp,
}

impl KeyringMembership {
    /// Well-formedness: no node is listed twice.
    pub open spec fn wf(&self) -> bool {
        self.members.wf()
    }

    /// A new keyring with a fresh identifier, created now, whose only member
    /// is its creator, as admin.
    pub fn new(name: String, creator: NodeId) -> (k: Self)
        ensures
            k.wf(),
            k.name@ == name@,
            k.members@ == Map::<NodeId, Role>::empty().insert(creator, Role::Admin),
            k.id.0@[6] & 0xf0u8 == 0x40u8,
            k.id.0@[8] & 0xc0u8 == 0x80u8,
            k.created_at.is_valid(),
            k.created_at.secs >= 0,
    {
        let mut members = KeyedMap::new();
        members.insert(creator, Role::Admin);
        KeyringMembership { id: KeyringId::new(), name, members, created_at: now_timestamp() }
    }

    /// Grants `role` to `node`, replacing any role it had.
    pub fn invite(&mut self, node: NodeId, role: Role)
        requires
            old(self).wf(),
        ensures
            final(self).wf(),
            final(self).members@ == old(self).members@.insert(node, role),
            final(self).id == old(self).id,
            final(self).name == old(self).name,
            final(self).created_at == old(self).created_at,
    {
        self.members.insert(node, role);
    }

    /// Removes `node` from the keyring.
    pub fn revoke(&mut self, node: &NodeId)
        requires
            old(self).wf(),
        ensures
            final(self).wf(),
            final(self).members@ == old(self).members@.remove(*node),
            final(self).id == old(self).id,
            final(self).name == old(self).name,
            final(self).created_at == old(self).created_at,
    {
        let _ = self.members.remove(node);
    }

    /// Whether `node` is a member.
    #[verifier::allow_in_spec]
    pub fn has_member(&self, node: &NodeId) -> bool
        requires
            self.wf(),
        returns
            self.members@.contains_key(*node),
    {
        self.members.contains_key(node)
    }

    /// The role of `node`, if it is a member.
    #[verifier::allow_in_spec]
    pub fn role_of(&self, node: &NodeId) -> Option<&Role>
        requires
            self.wf(),
        returns
            if self.members@.contains_key(*node) {
                Some(&self.members@[*node])
            } else {
                None
            },
    {
        self.members.get(node)
    }
}

/// `has_member` and `role_of` agree: a node is a member exactly when it has
/// a role.
pub proof fn law_member_iff_has_role(k: KeyringMembership, node: NodeId)
    requires
        k.wf(),
    ensures
        k.has_member(&node) == k.role_of(&node) is Some,
{
}

/// The members after the changes `cs`, made in order on `members`: a change
/// `(node, Some(role))` is `invite(node, role)`, and `(node, None)` is
/// `revoke(node)`.
pub open spec fn after_changes(members: Map<NodeId, Role>, cs: Seq<(NodeId, Option<Role>)>) -> Map<NodeId, Role>
    decreases cs.len(),
{
    if cs.len() == 0 {
        members
    } else {
        let prev = after_changes(members, cs.drop_last());
        match cs.last().1 {
            Some(role) => prev.insert(cs.last().0, role),
            None => prev.remove(cs.last().0),
        }
    }
}

/// The last change naming a node decides its membership: after a run of
/// invites and revokes, a node that change `i` invited with a role, and no
/// later change named, is a member with that role (a re-invite replaces an
/// earlier role); a node that change `i` revoked, and no later change named,
/// is no member.
pub proof fn law_last_change_decides(members: Map<NodeId, Role>, cs: Seq<(NodeId, Option<Role>)>, i: int)
    requires
        0 <= i < cs.len(),
        forall|j: int| i < j < cs.len() ==> (#[trigger] cs[j]).0 != cs[i].0,
    ensures
        after_changes(members, cs).contains_key(cs[i].0) == cs[i].1 is Some,
        cs[i].1 matches Some(role) ==> after_changes(members, cs)[cs[i].0] == role,
    decreases cs.len(),
{
    assert(cs.last() == cs[cs.len() - 1]);
    if i < cs.len() - 1 {
        let rest = cs.drop_last();
        assert forall|j: int| i < j < rest.len() implies (#[trigger] rest[j]).0 != rest[i].0 by {
            assert(rest[j] == cs[j]);
        }
        law_last_change_decides(members, rest, i);
        assert(rest[i] == cs[i]);
    }
}

/// The same, read through the keyring: in a keyring whose members are those
/// after a run of changes, a node that change `i` invited with `role`, and no
/// later change named, `has_member` and has `role_of` exactly that role; a
/// node that change `i` revoked, and no later change named, is no member.
pub proof fn law_keyring_last_change_decides(
    k: KeyringMembership,
    members: Map<NodeId, Role>,
    cs: Seq<(NodeId, Option<Role>)>,
    i: int,
)
    requires
        k.wf(),
        k.members@ == after_changes(members, cs),
        0 <= i < cs.len(),
        forall|j: int| i < j < cs.len() ==> (#[trigger] cs[j]).0 != cs[i].0,
    ensures
        k.has_member(&cs[i].0) == cs[i].1 is Some,
        cs[i].1 matches Some(role) ==> k.role_of(&cs[i].0) == Some(&role),
        cs[i].1 is None ==> k.role_of(&cs[i].0) is None,
{
    law_last_change_decides(members, cs, i);
}

/// A node that no change of a run names keeps its membership and its role.
pub proof fn law_unnamed_node_unchanged(members: Map<NodeId, Role>, cs: Seq<(NodeId, Option<Role>)>, node: NodeId)
    requires
        forall|j: int| 0 <= j < cs.len() ==> (#[trigger] cs[j]).0 != node,
    ensures
        after_changes(members, cs).contains_key(node) == members.contains_key(node),
        members.contains_key(node) ==> after_changes(members, cs)[node] == members[node],
    decreases cs.len(),
{
    if cs.len() > 0 {
        let rest = cs.drop_last();
        assert forall|j: int| 0 <= j < rest.len() implies (#[trigger] rest[j]).0 != node by {
            assert(rest[j] == cs[j]);
        }
        law_unnamed_node_unchanged(members, rest, node);
        assert(cs.last() == cs[cs.len() - 1]);
    }
}

/// After `invite(node, role)`, `node` is a member with exactly `role`, and
/// every other node keeps its membership and role.
pub proof fn law_invite_grants_role(members: Map<NodeId, Role>, node: NodeId, role: Role, other: NodeId)
    ensures
        members.insert(node, role).contains_key(node),
        members.insert(node, role)[node] == role,
        other != node ==> members.insert(node, role).contains_key(other) == members.contains_key(other),
        other != node && members.contains_key(other) ==> members.insert(node, role)[other] == members[other],
{
}

/// After `revoke(node)`, `node` is no member, and every other node keeps its
/// membership and role.
pub proof fn law_revoke_removes_member(members: Map<NodeId, Role>, node: NodeId, other: NodeId)
    ensures
        !members.remove(node).contains_key(node),
        other != node ==> members.remove(node).contains_key(other) == members.contains_key(other),
        other != node && members.contains_key(other) ==> members.remove(node)[other] == members[other],
{
}

} // verus!
