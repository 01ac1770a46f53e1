//! Coordinator: presence, task bookkeeping and routing candidates.
//!
//! Coordination state is just records kept per node and per task; scoring
//! the candidates of a task by their (floating-point) resource figures is
//! left to the caller.

use vstd::prelude::*;

use crate::clock::Timestamp;
use crate::crdt::Hlc;
use crate::identity::{KeyringId, NodeId};
use crate::keyed_map::KeyedMap;

verus! {

/// Node presence status.
#[derive(Clone, Copy, Debug, PartialEq, Eq)]
pub enum NodeStatus {
    Online,
    Offline,
    Busy,
    Away,
}

/// Resource figures a node reports. They are 32-bit floats, carried here as
/// their IEEE-754 bit patterns (`f32::to_bits`); the library never computes
/// with them.
#[derive(Clone, Copy, Debug, PartialEq, Eq)]
pub struct Resources {
    pub cpu_usage_bits: u32,
    pub memory_gb_bits: u32,
    pub disk_gb_bits: u32,
}

/// Node presence information.
#[derive(Clone, Debug)]
pub struct Presence {
    pub node_id: NodeId,
    pub status: NodeStatus,
    /// Capabilities: a set, in which order and repeats carry no meaning.
    pub capabilities: Vec<String>,
    pub resources: Resources,
    pub last_seen: Hlc,
    pub heartbeat: u64,
}

/// Task priority, lowest first.
#[derive(Clone, Copy, Debug, PartialEq, Eq, PartialOrd, Ord)]
pub enum Priority {
    Low,
    Normal,
    High,
    Critical,
}

/// Lifecycle of a task.
#[derive(Clone, Debug)]
pub enum TaskStatus {
    Pending,
    Claimed(NodeId),
    Running(NodeId),
    Done(Vec<u8>),
    Failed(String),
}

/// A task for distributed execution.
#[derive(Clone, Debug)]
pub struct Task {
    /// The 16 bytes of the task's UUID.
    pub id: [u8; 16],
    pub task_type: String,
    /// Capabilities a node must have: a set.
    pub requires: Vec<String>,
    /// Capabilities that make a node preferable: a set.
    pub prefers: Vec<String>,
    pub payload: Vec<u8>,
    pub priority: Priority,
    pub deadline: Option<Timestamp>,
    pub status: TaskStatus,
    pub created_by: NodeId,
    pub created_at: Hlc,
}

/// Scheduled task template.
#[derive(Clone, Debug)]
pub struct Schedule {
    /// The 16 bytes of the schedule's UUID.
    pub id: [u8; 16],
    pub cron: String,
    pub task_type: String,
    /// Capabilities a node must have: a set.
    pub requires: Vec<String>,
    pub timezone: String,
    pub owner: KeyringId,
    pub enabled: bool,
}

/// `after` is `before` once `heartbeat(capabilities, resources)` has run on
/// it and returned `p`: the coordinator stays well formed, with the same
/// node and tasks; `p` is this node's presence, online, with those
/// capabilities and resources, seen now (logical time 0), counted one more
/// than the record it replaces (1 for the first); the record is kept for the
/// node, in place of its old one or after all others, and every other
/// node's record is unchanged.
pub open spec fn records_heartbeat(
    before: Coordinator,
    after: Coordinator,
    capabilities: Seq<String>,
    resources: Resources,
    p: Presence,
) -> bool {
    let me = before.spec_node_id();
    &&& after.wf()
    &&& after.spec_node_id() == me
    &&& after.spec_tasks() == before.spec_tasks()
    &&& p.node_id == me
    &&& p.status == NodeStatus::Online
    &&& p.capabilities@ == capabilities
    &&& p.resources == resources
    &&& p.last_seen.node == me
    &&& p.last_seen.logical == 0
    &&& p.heartbeat == if before.presences().contains_key(me) {
        (before.presences()[me].heartbeat + 1) as u64
    } else {
        1
    }
    &&& after.presences().dom() == before.presences().dom().insert(me)
    &&& forall|n: NodeId|
        n != me && #[trigger] before.presences().contains_key(n) ==> after.presences()[n] == before.presences()[n]
    &&& {
        let q = after.presences()[me];
        &&& q.node_id == p.node_id
        &&& q.status == p.status
        &&& q.capabilities@ == p.capabilities@
        &&& q.resources == p.resources
        &&& q.last_seen == p.last_seen
        &&& q.heartbeat == p.heartbeat
        &&& before.presences().contains_key(me) ==> exists|i: int|
            0 <= i < before.presence_order().len() && before.presence_order()[i].node_id == me
                && after.presence_order() == before.presence_order().update(i, q)
        &&& !before.presences().contains_key(me) ==> after.presence_order() == before.presence_order().push(q)
    }
}

/// `s` appears among `list`.
pub open spec fn lists_string(list: Seq<String>, s: Seq<char>) -> bool {
    exists|j: int| 0 <= j < list.len() && list[j]@ == s
}

/// Every string of `needles` appears among `hay`.
pub open spec fn all_listed(needles: Seq<String>, hay: Seq<String>) -> bool {
    forall|i: int| 0 <= i < needles.len() ==> lists_string(hay, #[trigger] needles[i]@)
}

/// A presence is online.
pub open spec fn is_online() -> spec_fn(Presence) -> bool {
    |p: Presence| p.status == NodeStatus::Online
}

/// A presence is online and has every capability the task requires.
pub open spec fn can_run(task: Task) -> spec_fn(Presence) -> bool {
    |p: Presence| p.status == NodeStatus::Online && all_listed(task.requires@, p.capabilities@)
}

/// The presence records of a sequence of entries, in order.
pub open spec fn presence_values(s: Seq<(NodeId, Presence)>) -> Seq<Presence> {
    s.map_values(|e: (NodeId, Presence)| e.1)
}

/// How many distinct strings of `prefers` appear among `caps`: the size of
/// the intersection of the two as sets, repeats counted once.
pub open spec fn distinct_shared(prefers: Seq<String>, caps: Seq<String>) -> nat
    decreases prefers.len(),
{
    if prefers.len() == 0 {
        0
    } else {
        let last = prefers.last();
        let rest = prefers.drop_last();
        distinct_shared(rest, caps) + if lists_string(caps, last@) && !lists_string(rest, last@) {
            1nat
        } else {
            0nat
        }
    }
}

/// Whether `needle` is listed among the first `n` strings of `list`.
fn listed_before(list: &Vec<String>, n: usize, needle: &String) -> (b: bool)
    requires
        n <= list@.len(),
    ensures
        b == lists_string(list@.take(n as int), needle@),
{
    let mut j: usize = 0;
    while j < n
        invariant
            0 <= j <= n,
            n <= list@.len(),
            forall|k: int| 0 <= k < j ==> list@[k]@ != needle@,
        decreases n - j,
    {
        if list[j] == *needle {
            assert(list@.take(n as int)[j as int] == list@[j as int]);
            return true;
        }
        j = j + 1;
    }
    proof {
        if lists_string(list@.take(n as int), needle@) {
            let k = choose|k: int| 0 <= k < n && list@.take(n as int)[k]@ == needle@;
            assert(list@.take(n as int)[k] == list@[k]);
        }
    }
    false
}

/// Whether `needle` is listed in `hay`.
fn has_string(hay: &Vec<String>, needle: &String) -> (b: bool)
    ensures
        b == lists_string(hay@, needle@),
{
    let mut j: usize = 0;
    while j < hay.len()
        invariant
            0 <= j <= hay@.len(),
            forall|k: int| 0 <= k < j ==> hay@[k]@ != needle@,
        decreases hay@.len() - j,
    {
        if hay[j] == *needle {
            return true;
        }
        j = j + 1;
    }
    false
}

/// Whether every string of `needles` is listed in `hay`.
fn has_all(needles: &Vec<String>, hay: &Vec<String>) -> (b: bool)
    ensures
        b == all_listed(needles@, hay@),
{
    let mut i: usize = 0;
    while i < needles.len()
        invariant
            0 <= i <= needles@.len(),
            forall|k: int| 0 <= k < i ==> lists_string(hay@, #[trigger] needles@[k]@),
        decreases needles@.len() - i,
    {
        if !has_string(hay, &needles[i]) {
            return false;
        }
        i = i + 1;
    }
    true
}

/// The presences of `s`, in order, that are online and, when a task is
/// given, have every capability it requires.
fn select_presences<'a>(s: &'a KeyedMap<NodeId, Presence>, task: Option<&Task>) -> (r: Vec<&'a Presence>)
    ensures
        r@.map_values(|p: &Presence| *p) == match task {
            Some(t) => presence_values(s.entries()).filter(can_run(*t)),
            None => presence_values(s.entries()).filter(is_online()),
        },
{
    let ghost pred = match task {
        Some(t) => can_run(*t),
        None => is_online(),
    };
    let ghost all = presence_values(s.entries());
    let mut out: Vec<&'a Presence> = Vec::new();
    let n = s.len();
    let mut i: usize = 0;
    proof {
        assert(all.take(0) =~= Seq::<Presence>::empty());
        assert(out@.map_values(|p: &Presence| *p) =~= Seq::<Presence>::empty());
    }
    while i < n
        invariant
            0 <= i <= n,
            n == s.entries().len(),
            all == presence_values(s.entries()),
            pred == (match task {
                Some(t) => can_run(*t),
                None => is_online(),
            }),
            out@.map_values(|p: &Presence| *p) == all.take(i as int).filter(pred),
        decreases n - i,
    {
        let ghost prev = out@.map_values(|p: &Presence| *p);
        let e = s.entry(i);
        let p: &'a Presence = &e.1;
        let online = match p.status {
            NodeStatus::Online => true,
            _ => false,
        };
        let keep = match task {
            Some(t) => online && has_all(&t.requires, &p.capabilities),
            None => online,
        };
        proof {
            assert(all[i as int] == *p);
            assert(keep == pred(*p));
        }
        if keep {
            out.push(p);
        }
        proof {
            let t = all.take(i as int + 1);
            assert(t.drop_last() =~= all.take(i as int));
            assert(t.last() == *p);
            reveal_with_fuel(Seq::<Presence>::filter, 1);
            assert(t.filter(pred) == (if pred(t.last()) {
                t.drop_last().filter(pred).push(t.last())
            } else {
                t.drop_last().filter(pred)
            }));
            if keep {
                assert(out@.map_values(|p: &Presence| *p) =~= prev.push(*p));
            } else {
                assert(out@.map_values(|p: &Presence| *p) =~= prev);
            }
        }
        i = i + 1;
    }
    proof {
        assert(all.take(n as int) =~= all);
    }
    out
}

/// Coordinator: the presence of known nodes and the submitted tasks.
pub struct Coordinator {
    node_id: NodeId,
    presence_map: KeyedMap<NodeId, Presence>,
    tasks: KeyedMap<[u8; 16], Task>,
}

impl Coordinator {
    /// This node's identifier.
    pub closed spec fn spec_node_id(&self) -> NodeId {
        self.node_id
    }

    /// Known presence records by node.
    pub closed spec fn presences(&self) -> Map<NodeId, Presence> {
        self.presence_map@
    }

    /// Known presence records in the order they were first recorded.
    pub closed spec fn presence_order(&self) -> Seq<Presence> {
        presence_values(self.presence_map.entries())
    }

    /// Submitted tasks by id.
    pub closed spec fn spec_tasks(&self) -> Map<[u8; 16], Task> {
        self.tasks@
    }

    /// Well-formedness: no node and no task is recorded twice, and each
    /// presence record is filed under its own node.
    pub closed spec fn wf(&self) -> bool {
        &&& self.presence_map.wf()
        &&& self.tasks.wf()
        &&& forall|i: int|
            0 <= i < self.presence_map.entries().len() ==> #[trigger] self.presence_map.entries()[i].0
                == self.presence_map.entries()[i].1.node_id
    }

    /// The presence order lists the known presence records, each once: every
    /// listed record is the one kept for its node, and every node with a
    /// record is listed.
    pub proof fn lemma_presence_order(&self)
        requires
            self.wf(),
        ensures
            forall|i: int|
                0 <= i < self.presence_order().len() ==> #[trigger] self.presences().contains_key(
                    self.presence_order()[i].node_id,
                ) && self.presences()[self.presence_order()[i].node_id] == self.presence_order()[i],
            forall|n: NodeId|
                #[trigger] self.presences().contains_key(n) ==> exists|i: int|
                    0 <= i < self.presence_order().len() && self.presence_order()[i].node_id == n,
            forall|i: int, j: int|
                0 <= i < self.presence_order().len() && 0 <= j < self.presence_order().len() && i != j
                    ==> self.presence_order()[i].node_id != self.presence_order()[j].node_id,
    {
        self.presence_map.lemma_view();
        let es = self.presence_map.entries();
        assert forall|i: int| 0 <= i < self.presence_order().len() implies #[trigger] self.presences().contains_key(
            self.presence_order()[i].node_id,
        ) && self.presences()[self.presence_order()[i].node_id] == self.presence_order()[i] by {
            assert(self.presence_order()[i] == es[i].1);
            assert(es[i].0 == es[i].1.node_id);
            assert(self.presences().contains_key(es[i].0));
        }
        assert forall|n: NodeId| #[trigger] self.presences().contains_key(n) implies exists|i: int|
            0 <= i < self.presence_order().len() && self.presence_order()[i].node_id == n by {
            let i = choose|i: int| 0 <= i < es.len() && es[i].0 == n;
            assert(self.presence_order()[i] == es[i].1);
            assert(es[i].0 == es[i].1.node_id);
        }
        assert forall|i: int, j: int|
            0 <= i < self.presence_order().len() && 0 <= j < self.presence_order().len() && i != j
                implies self.presence_order()[i].node_id != self.presence_order()[j].node_id by {
            assert(es[i].0 == es[i].1.node_id);
            assert(es[j].0 == es[j].1.node_id);
            assert(self.presence_order()[i] == es[i].1);
            assert(self.presence_order()[j] == es[j].1);
        }
    }

    /// A coordinator for `node_id` that knows no presence and no task.
    pub fn new(node_id: NodeId) -> (c: Self)
        ensures
            c.wf(),
            c.spec_node_id() == node_id,
            c.presences() == Map::<NodeId, Presence>::empty(),
            c.presence_order() == Seq::<Presence>::empty(),
            c.spec_tasks() == Map::<[u8; 16], Task>::empty(),
    {
        let c = Coordinator { node_id, presence_map: KeyedMap::new(), tasks: KeyedMap::new() };
        assert(c.presence_order() =~= Seq::<Presence>::empty());
        c
    }

    /// Records this node's own presence (online, now) with the given
    /// capabilities and resources, counting heartbeats from 1; returns the
    /// record.
    pub fn heartbeat(&mut self, capabilities: Vec<String>, resources: Resources) -> (p: Presence)
        requires
            old(self).wf(),
            old(self).presences().contains_key(old(self).spec_node_id()) ==> old(self).presences()[old(
                self,
            ).spec_node_id()].heartbeat < u64::MAX,
        ensures
            records_heartbeat(*old(self), *final(self), capabilities@, resources, p),
    {
        let ghost old_entries = self.presence_map.entries();
        let heartbeat: u64 = match self.presence_map.get(&self.node_id) {
            Some(prev) => prev.heartbeat + 1,
            None => 1,
        };
        let last_seen = Hlc::now(self.node_id);
        let copy = capabilities.clone();
        proof {
            assert(copy@ =~= capabilities@);
        }
        let stored = Presence {
            node_id: self.node_id,
            status: NodeStatus::Online,
            capabilities: copy,
            resources,
            last_seen,
            heartbeat,
        };
        let ghost q = stored;
        self.presence_map.insert(self.node_id, stored);
        proof {
            let es = self.presence_map.entries();
            assert(self.presences()[self.node_id] == q);
            if old(self).presence_map@.contains_key(self.node_id) {
                let i = choose|i: int|
                    0 <= i < old_entries.len() && old_entries[i].0 == self.node_id && es == old_entries.update(
                        i,
                        (self.node_id, q),
                    );
                assert(presence_values(es) =~= presence_values(old_entries).update(i, q));
                assert(old_entries[i].0 == old_entries[i].1.node_id);
                assert(presence_values(old_entries)[i] == old_entries[i].1);
                assert(0 <= i < old(self).presence_order().len() && old(self).presence_order()[i].node_id
                    == self.node_id && self.presence_order() == old(self).presence_order().update(i, q));
            } else {
                assert(presence_values(es) =~= presence_values(old_entries).push(q));
            }
            assert forall|j: int| 0 <= j < es.len() implies #[trigger] es[j].0 == es[j].1.node_id by {
                if old(self).presence_map@.contains_key(self.node_id) {
                    let i = choose|i: int|
                        0 <= i < old_entries.len() && old_entries[i].0 == self.node_id && es
                            == old_entries.update(i, (self.node_id, q));
                    if j != i {
                        assert(es[j] == old_entries[j]);
                    }
                } else if j < old_entries.len() {
                    assert(es[j] == old_entries[j]);
                }
            }
        }
        Presence {
            node_id: self.node_id,
            status: NodeStatus::Online,
            capabilities,
            resources,
            last_seen,
            heartbeat,
        }
    }

    /// The nodes that can run `task`: those online with every required
    /// capability, in the order they were first recorded. The routing choice
    /// among them is made by resource score.
    pub fn route_candidates(&self, task: &Task) -> (r: Vec<&Presence>)
        requires
            self.wf(),
        ensures
            r@.map_values(|p: &Presence| *p) == self.presence_order().filter(can_run(*task)),
    {
        select_presences(&self.presence_map, Some(task))
    }

    /// How many of the task's preferred capabilities the node has: the size
    /// of the intersection of the two sets.
    pub fn preferred_matches(task: &Task, node: &Presence) -> (n: usize)
        ensures
            n == distinct_shared(task.prefers@, node.capabilities@),
    {
        let prefers = &task.prefers;
        let caps = &node.capabilities;
        let mut count: usize = 0;
        let mut i: usize = 0;
        proof {
            assert(prefers@.take(0) =~= Seq::<String>::empty());
        }
        while i < prefers.len()
            invariant
                0 <= i <= prefers@.len(),
                count == distinct_shared(prefers@.take(i as int), caps@),
                count <= i,
            decreases prefers@.len() - i,
        {
            let shared = has_string(caps, &prefers[i]);
            let repeated = listed_before(prefers, i, &prefers[i]);
            proof {
                let t = prefers@.take(i as int + 1);
                assert(t.drop_last() =~= prefers@.take(i as int));
                assert(t.last() == prefers@[i as int]);
            }
            if shared && !repeated {
                count = count + 1;
            }
            i = i + 1;
        }
        proof {
            assert(prefers@.take(i as int) =~= prefers@);
        }
        count
    }

    /// Submits a task, replacing any task with the same id.
    pub fn submit_task(&mut self, task: Task)
        requires
            old(self).wf(),
        ensures
            final(self).wf(),
            final(self).spec_node_id() == old(self).spec_node_id(),
            final(self).presences() == old(self).presences(),
            final(self).presence_order() == old(self).presence_order(),
            final(self).spec_tasks() == old(self).spec_tasks().insert(task.id, task),
    {
        self.tasks.insert(task.id, task);
    }

    /// The presences of online nodes, in the order they were first recorded.
    pub fn online_peers(&self) -> (r: Vec<&Presence>)
        requires
            self.wf(),
        ensures
            r@.map_values(|p: &Presence| *p) == self.presence_order().filter(is_online()),
    {
        select_presences(&self.presence_map, None)
    }
}

/// After `new(node)` and the `n` heartbeats of `hs` (each a coordinator
/// state with the record it returned, the arguments it was called with, and
/// the state it left), the coordinator still belongs to `node`, knows one
/// presence, its own, online and counted `n`, and the last heartbeat
/// returned that count.
proof fn lemma_heartbeats_from_new(
    start: Coordinator,
    cs: Seq<Coordinator>,
    caps: Seq<Seq<String>>,
    res: Seq<Resources>,
    ps: Seq<Presence>,
    n: int,
)
    requires
        start.wf(),
        start.presences() == Map::<NodeId, Presence>::empty(),
        cs.len() == ps.len(),
        caps.len() == ps.len(),
        res.len() == ps.len(),
        ps.len() <= u64::MAX,
        forall|i: int|
            0 <= i < ps.len() ==> records_heartbeat(
                if i == 0 {
                    start
                } else {
                    cs[i - 1]
                },
                #[trigger] cs[i],
                caps[i],
                res[i],
                ps[i],
            ),
        1 <= n <= ps.len(),
    ensures
        cs[n - 1].spec_node_id() == start.spec_node_id(),
        cs[n - 1].presences().dom() == set![start.spec_node_id()],
        cs[n - 1].presences()[start.spec_node_id()].heartbeat == n,
        cs[n - 1].presences()[start.spec_node_id()].status == NodeStatus::Online,
        ps[n - 1].heartbeat == n,
    decreases n,
{
    let me = start.spec_node_id();
    assert(records_heartbeat(if n - 1 == 0 { start } else { cs[n - 2] }, cs[n - 1], caps[n - 1], res[n - 1], ps[n - 1]));
    if n == 1 {
        assert(cs[0].presences().dom() =~= set![me]);
    } else {
        lemma_heartbeats_from_new(start, cs, caps, res, ps, n - 1);
        assert(cs[n - 1].presences().dom() =~= set![me]);
    }
}

/// Heartbeats on a new coordinator: after `new(node)` and `n >= 1`
/// heartbeats, the last returned a record of `node`, online, with the
/// capabilities and resources it was given, counted `n`; the coordinator
/// knows exactly one presence, that record, and it is the only online peer
/// (`online_peers` lists the online records in recorded order).
pub proof fn law_heartbeats_from_new(
    start: Coordinator,
    cs: Seq<Coordinator>,
    caps: Seq<Seq<String>>,
    res: Seq<Resources>,
    ps: Seq<Presence>,
)
    requires
        start.wf(),
        start.presences() == Map::<NodeId, Presence>::empty(),
        cs.len() == ps.len(),
        caps.len() == ps.len(),
        res.len() == ps.len(),
        1 <= ps.len() <= u64::MAX,
        forall|i: int|
            0 <= i < ps.len() ==> records_heartbeat(
                if i == 0 {
                    start
                } else {
                    cs[i - 1]
                },
                #[trigger] cs[i],
                caps[i],
                res[i],
                ps[i],
            ),
    ensures
        ({
            let me = start.spec_node_id();
            let last = cs.last();
            let p = ps.last();
            let q = last.presences()[me];
            &&& p.node_id == me
            &&& p.status == NodeStatus::Online
            &&& p.capabilities@ == caps.last()
            &&& p.resources == res.last()
            &&& p.heartbeat == ps.len()
            &&& p.last_seen.node == me && p.last_seen.logical == 0
            &&& last.presences().dom() == set![me]
            &&& q.node_id == me && q.status == NodeStatus::Online && q.heartbeat == ps.len()
            &&& q.capabilities@ == p.capabilities@ && q.resources == p.resources && q.last_seen == p.last_seen
            &&& last.presence_order() == seq![q]
            &&& last.presence_order().filter(is_online()) == seq![q]
        }),
{
    let me = start.spec_node_id();
    let k = ps.len() as int;
    lemma_heartbeats_from_new(start, cs, caps, res, ps, k);
    let last = cs[k - 1];
    assert(records_heartbeat(if k - 1 == 0 { start } else { cs[k - 2] }, last, caps[k - 1], res[k - 1], ps[k - 1]));
    let q = last.presences()[me];
    last.lemma_presence_order();
    let order = last.presence_order();
    assert(last.presences().contains_key(me));
    let w = choose|i: int| 0 <= i < order.len() && order[i].node_id == me;
    assert(order.len() == 1) by {
        if order.len() > 1 {
            let other = if w == 0 { 1int } else { 0int };
            assert(last.presences().contains_key(order[other].node_id));
            assert(order[other].node_id == me);
        }
    }
    assert(w == 0);
    assert(order[0] == q);
    assert(order =~= seq![q]);
    reveal_with_fuel(Seq::<Presence>::filter, 2);
    assert(seq![q].drop_last() =~= Seq::<Presence>::empty());
    assert(order.filter(is_online()) =~= seq![q]);
}

} // verus!
