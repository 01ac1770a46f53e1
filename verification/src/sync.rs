//! Sync engine: per-peer sync cursors and divergence detection between
//! Merkle roots.
//!
//! Algorithm: exchange Merkle roots for shared keyrings, find the documents
//! whose roots differ, exchange only deltas; CRDTs converge.

use vstd::prelude::*;

use crate::clock::Timestamp;
use crate::identity::NodeId;
use crate::keyed_map::{KeyedMap, MapKey};
use crate::store::blob::BlobHash;
use crate::store::document::DocumentId;

verus! {

/// Sync cursor: tracks per-peer sync progress.
#[derive(Clone, Debug)]
pub struct SyncCursor {
    pub node_id: NodeId,
    pub last_sync: Timestamp,
    pub roots: KeyedMap<DocumentId, BlobHash>,
}

/// Sync mode.
#[derive(Clone, Copy, Debug)]
pub enum SyncMode {
    /// On local change: under a second.
    Push,
    /// On reconnect: seconds.
    Pull,
    /// Timer-based, with the period between syncs.
    Periodic(std::time::Duration),
    /// User/agent command.
    Manual,
    /// Random peer contact (large meshes).
    Gossip,
}

/// The roots of document `id` differ between `local` and `remote`: it is
/// known on one side only, or both know it with different roots.
pub open spec fn diverges(local: Map<DocumentId, BlobHash>, remote: Map<DocumentId, BlobHash>, id: DocumentId) -> bool {
    if local.contains_key(id) {
        !remote.contains_key(id) || local[id] != remote[id]
    } else {
        remote.contains_key(id)
    }
}

proof fn lemma_push_contains<T>(s: Seq<T>, x: T)
    ensures
        s.push(x).contains(x),
        forall|y: T| s.contains(y) ==> #[trigger] s.push(x).contains(y),
{
    assert(s.push(x)[s.len() as int] == x);
    assert forall|y: T| s.contains(y) implies #[trigger] s.push(x).contains(y) by {
        let w = choose|w: int| 0 <= w < s.len() && s[w] == y;
        assert(s.push(x)[w] == y);
    }
}

/// Sync manager: orchestrates sync across transports.
pub struct SyncManager {
    mode: SyncMode,
    cursors: KeyedMap<NodeId, SyncCursor>,
}

impl SyncManager {
    pub closed spec fn spec_mode(&self) -> SyncMode {
        self.mode
    }

    /// The cursors of the peers synced with.
    pub closed spec fn spec_cursors(&self) -> Map<NodeId, SyncCursor> {
        self.cursors@
    }

    /// A manager in `mode` that has synced with no peer yet.
    pub fn new(mode: SyncMode) -> (m: Self)
        ensures
            m.spec_mode() == mode,
            m.spec_cursors() == Map::<NodeId, SyncCursor>::empty(),
    {
        SyncManager { mode, cursors: KeyedMap::new() }
    }

    /// The documents whose roots differ between `local_roots` and
    /// `remote_roots` (known on one side only, or with different roots),
    /// each listed once.
    pub fn find_divergence(
        &self,
        local_roots: &KeyedMap<DocumentId, BlobHash>,
        remote_roots: &KeyedMap<DocumentId, BlobHash>,
    ) -> (ids: Vec<DocumentId>)
        requires
            local_roots.wf(),
            remote_roots.wf(),
        ensures
            forall|i: int| 0 <= i < ids@.len() ==> diverges(local_roots@, remote_roots@, #[trigger] ids@[i]),
            forall|id: DocumentId| diverges(local_roots@, remote_roots@, id) ==> #[trigger] ids@.contains(id),
            forall|i: int, j: int| 0 <= i < ids@.len() && 0 <= j < ids@.len() && i != j ==> ids@[i] != ids@[j],
    {
        let ghost l = local_roots@;
        let ghost r = remote_roots@;
        let ghost ls = local_roots.entries();
        let ghost rs = remote_roots.entries();
        proof {
            local_roots.lemma_view();
            remote_roots.lemma_view();
        }
        let mut ids: Vec<DocumentId> = Vec::new();
        let n = local_roots.len();
        let mut i: usize = 0;
        while i < n
            invariant
                0 <= i <= n,
                n == ls.len(),
                ls == local_roots.entries(),
                l == local_roots@,
                r == remote_roots@,
                remote_roots.wf(),
                crate::keyed_map::unique_keys(ls),
                forall|j: int| 0 <= j < ls.len() ==> #[trigger] l.contains_key(ls[j].0) && l[ls[j].0] == ls[j].1,
                forall|k: int| 0 <= k < ids@.len() ==> diverges(l, r, #[trigger] ids@[k]) && l.contains_key(ids@[k]),
                forall|k: int| 0 <= k < ids@.len() ==> exists|j: int| 0 <= j < i && ls[j].0 == #[trigger] ids@[k],
                forall|j: int| 0 <= j < i && diverges(l, r, #[trigger] ls[j].0) ==> ids@.contains(ls[j].0),
                forall|a: int, b: int| 0 <= a < ids@.len() && 0 <= b < ids@.len() && a != b ==> ids@[a] != ids@[b],
            decreases n - i,
        {
            let (id, root) = *local_roots.entry(i);
            assert(l.contains_key(ls[i as int].0));
            let differs = match remote_roots.get(&id) {
                Some(other) => !other.key_eq(&root),
                None => true,
            };
            if differs {
                proof {
                    assert forall|k: int| 0 <= k < ids@.len() implies ids@[k] != id by {
                        let j = choose|j: int| 0 <= j < i && ls[j].0 == ids@[k];
                        assert(j != i);
                    }
                }
                let ghost before = ids@;
                ids.push(id);
                proof {
                    lemma_push_contains(before, id);
                    assert(ids@[ids@.len() - 1] == ls[i as int].0);
                }
            }
            i = i + 1;
        }
        let ghost local_part = ids@.len();
        let m = remote_roots.len();
        let mut k: usize = 0;
        while k < m
            invariant
                0 <= k <= m,
                m == rs.len(),
                rs == remote_roots.entries(),
                l == local_roots@,
                r == remote_roots@,
                local_roots.wf(),
                crate::keyed_map::unique_keys(rs),
                forall|j: int| 0 <= j < rs.len() ==> #[trigger] r.contains_key(rs[j].0) && r[rs[j].0] == rs[j].1,
                forall|j: int| 0 <= j < ls.len() ==> #[trigger] l.contains_key(ls[j].0),
                forall|id: DocumentId| #[trigger] l.contains_key(id) ==> exists|j: int| 0 <= j < ls.len() && ls[j].0 == id,
                local_part <= ids@.len(),
                forall|x: int| 0 <= x < ids@.len() ==> diverges(l, r, #[trigger] ids@[x]),
                forall|x: int| 0 <= x < local_part ==> l.contains_key(#[trigger] ids@[x]),
                forall|x: int| local_part <= x < ids@.len() ==> !l.contains_key(#[trigger] ids@[x]),
                forall|x: int| local_part <= x < ids@.len() ==> exists|j: int| 0 <= j < k && rs[j].0 == #[trigger] ids@[x],
                forall|j: int| 0 <= j < ls.len() && diverges(l, r, #[trigger] ls[j].0) ==> ids@.contains(ls[j].0),
                forall|j: int| 0 <= j < k && !l.contains_key(#[trigger] rs[j].0) ==> ids@.contains(rs[j].0),
                forall|a: int, b: int| 0 <= a < ids@.len() && 0 <= b < ids@.len() && a != b ==> ids@[a] != ids@[b],
            decreases m - k,
        {
            let (id, _root) = *remote_roots.entry(k);
            assert(r.contains_key(rs[k as int].0));
            if !local_roots.contains_key(&id) {
                proof {
                    assert forall|x: int| 0 <= x < ids@.len() implies ids@[x] != id by {
                        if x >= local_part {
                            let j = choose|j: int| 0 <= j < k && rs[j].0 == ids@[x];
                            assert(j != k);
                        }
                    }
                }
                let ghost before = ids@;
                ids.push(id);
                proof {
                    lemma_push_contains(before, id);
                    assert(ids@[ids@.len() - 1] == rs[k as int].0);
                }
            }
            k = k + 1;
        }
        proof {
            assert forall|id: DocumentId| diverges(l, r, id) implies #[trigger] ids@.contains(id) by {
                if l.contains_key(id) {
                    let j = choose|j: int| 0 <= j < ls.len() && ls[j].0 == id;
                    assert(diverges(l, r, ls[j].0));
                } else {
                    assert(r.contains_key(id));
                    remote_roots.lemma_view();
                    let j = choose|j: int| 0 <= j < rs.len() && rs[j].0 == id;
                    assert(!l.contains_key(rs[j].0));
                }
            }
        }
        ids
    }
}

} // verus!
