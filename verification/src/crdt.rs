//! CRDT engine: hybrid logical clocks, Merkle-DAG changes and vector clocks.

use vstd::prelude::*;

use crate::clock::now_millis;
use crate::identity::NodeId;
use crate::keyed_map::{entries_map, lemma_push_entry, unique_keys, KeyedMap};
use crate::store::blob::BlobHash;

verus! {

/// Hybrid Logical Clock: captures causality across nodes.
#[derive(Clone, Copy, Debug, PartialEq, Eq, PartialOrd, Ord)]
pub struct Hlc {
    /// Physical time (milliseconds since the Unix epoch).
    pub physical: u64,
    /// Logical counter.
    pub logical: u32,
    /// Node that generated this timestamp.
    pub node: NodeId,
}

/// `a` is strictly later than `b`: a greater physical time, or the same
/// physical time and a greater logical counter.
pub open spec fn hlc_later(a: Hlc, b: Hlc) -> bool {
    a.physical > b.physical || (a.physical == b.physical && a.logical > b.logical)
}

/// The larger of two physical times.
pub open spec fn max_u64(a: u64, b: u64) -> u64 {
    if a >= b { a } else { b }
}

/// Merging `a` with `b` when the physical clock does not move past both
/// needs a logical counter below `u32::MAX` to step from: that of the larger
/// physical time, or the larger of the two when the physical times agree.
pub open spec fn can_merge(a: Hlc, b: Hlc) -> bool {
    if a.physical == b.physical {
        a.logical < u32::MAX && b.logical < u32::MAX
    } else if a.physical > b.physical {
        a.logical < u32::MAX
    } else {
        b.logical < u32::MAX
    }
}

/// The clock that merging `a` with a received `b` yields at physical time
/// `now`, stamped with `node`.
pub open spec fn merged_hlc(a: Hlc, b: Hlc, node: NodeId, now: u64) -> Hlc {
    if now > a.physical && now > b.physical {
        Hlc { physical: now, logical: 0, node }
    } else if a.physical == b.physical {
        Hlc {
            physical: a.physical,
            logical: (if a.logical >= b.logical { a.logical } else { b.logical } + 1) as u32,
            node,
        }
    } else if a.physical > b.physical {
        Hlc { physical: a.physical, logical: (a.logical + 1) as u32, node }
    } else {
        Hlc { physical: b.physical, logical: (b.logical + 1) as u32, node }
    }
}

impl Hlc {
    /// A clock reading the current physical time, with logical counter 0.
    pub fn now(node: NodeId) -> (h: Self)
        ensures
            h.logical == 0,
            h.node == node,
    {
        Hlc { physical: now_millis(), logical: 0, node }
    }

    /// Merges with a received clock at the current physical time: the result is
    /// strictly later than both clocks.
    pub fn merge(&self, other: &Hlc, node: NodeId) -> (h: Self)
        requires
            can_merge(*self, *other),
        ensures
            exists|now: u64| h == merged_hlc(*self, *other, node, now),
            hlc_later(h, *self),
            hlc_later(h, *other),
            h.node == node,
    {
        let now = now_millis();
        self.merge_at(other, node, now)
    }

    /// Merges with a received clock, given the current physical time `now`:
    /// take the largest physical time; when the physical clock does not lead,
    /// step the logical counter past the counters that share that time.
    pub fn merge_at(&self, other: &Hlc, node: NodeId, now: u64) -> (h: Self)
        requires
            (now > self.physical && now > other.physical) || can_merge(*self, *other),
        ensures
            h == merged_hlc(*self, *other, node, now),
            hlc_later(h, *self),
            hlc_later(h, *other),
            h.physical == max_u64(now, max_u64(self.physical, other.physical)),
    {
        if now > self.physical && now > other.physical {
            Hlc { physical: now, logical: 0, node }
        } else if self.physical == other.physical {
            let top = if self.logical >= other.logical { self.logical } else { other.logical };
            Hlc { physical: self.physical, logical: top + 1, node }
        } else if self.physical > other.physical {
            Hlc { physical: self.physical, logical: self.logical + 1, node }
        } else {
            Hlc { physical: other.physical, logical: other.logical + 1, node }
        }
    }
}

/// A change in the Merkle DAG.
#[derive(Clone, Debug)]
pub struct Change {
    pub hash: BlobHash,
    pub parents: Vec<BlobHash>,
    pub author: NodeId,
    pub timestamp: Hlc,
    /// Serialized CRDT operation.
    pub operation: Vec<u8>,
    /// Ed25519 signature.
    pub signature: Vec<u8>,
}

/// A node's counter in a vector clock; absent nodes count 0.
pub open spec fn count(m: Map<NodeId, u64>, n: NodeId) -> u64 {
    if m.contains_key(n) { m[n] } else { 0 }
}

/// Pointwise maximum of two vector clocks, over the union of their nodes.
pub open spec fn vc_merge(a: Map<NodeId, u64>, b: Map<NodeId, u64>) -> Map<NodeId, u64> {
    Map::new(
        |n: NodeId| a.contains_key(n) || b.contains_key(n),
        |n: NodeId| max_u64(count(a, n), count(b, n)),
    )
}

/// Every counter of `a` is at most the matching counter of `b`.
pub open spec fn vc_leq(a: Map<NodeId, u64>, b: Map<NodeId, u64>) -> bool {
    forall|n: NodeId| count(a, n) <= count(b, n)
}

/// `a` happened before `b`: no counter of `a` exceeds `b`'s, and some is smaller.
pub open spec fn vc_before(a: Map<NodeId, u64>, b: Map<NodeId, u64>) -> bool {
    vc_leq(a, b) && exists|n: NodeId| count(a, n) < count(b, n)
}

/// Vector clock for causal ordering.
#[derive(Clone, Debug)]
pub struct VectorClock {
    pub clocks: KeyedMap<NodeId, u64>,
}

impl Default for VectorClock {
    /// An empty clock: every counter is 0.
    fn default() -> (v: Self)
        ensures
            v.wf(),
            v.clocks@ == Map::<NodeId, u64>::empty(),
    {
        VectorClock { clocks: KeyedMap::new() }
    }
}

impl VectorClock {
    /// Well-formedness: no node is listed twice.
    pub open spec fn wf(&self) -> bool {
        self.clocks.wf()
    }

    /// Increments `node`'s counter (from 0 if it had none).
    pub fn increment(&mut self, node: NodeId)
        requires
            old(self).wf(),
            count(old(self).clocks@, node) < u64::MAX,
        ensures
            final(self).wf(),
            final(self).clocks@ == old(self).clocks@.insert(node, (count(old(self).clocks@, node) + 1) as u64),
    {
        let cur: u64 = match self.clocks.get(&node) {
            Some(c) => *c,
            None => 0,
        };
        self.clocks.insert(node, cur + 1);
    }

    /// Merges `other` into this clock: each counter becomes the larger of the two.
    pub fn merge(&mut self, other: &VectorClock)
        requires
            old(self).wf(),
            other.wf(),
        ensures
            final(self).wf(),
            final(self).clocks@ == vc_merge(old(self).clocks@, other.clocks@),
    {
        let ghost start = self.clocks@;
        let ghost es = other.clocks.entries();
        proof {
            other.clocks.lemma_view();
            assert(es.take(0) =~= Seq::<(NodeId, u64)>::empty());
            assert(entries_map(es.take(0)) =~= Map::<NodeId, u64>::empty());
            assert(vc_merge(start, Map::<NodeId, u64>::empty()) =~= start);
        }
        let n = other.clocks.len();
        let mut i: usize = 0;
        while i < n
            invariant
                0 <= i <= n,
                n == es.len(),
                es == other.clocks.entries(),
                unique_keys(es),
                self.wf(),
                self.clocks@ == vc_merge(start, entries_map(es.take(i as int))),
            decreases n - i,
        {
            let (node, c) = *other.clocks.entry(i);
            let ghost prefix = es.take(i as int);
            proof {
                assert(es.take(i as int + 1) =~= prefix.push((node, c)));
                assert(unique_keys(prefix));
                assert(!crate::keyed_map::has_key(prefix, node)) by {
                    if crate::keyed_map::has_key(prefix, node) {
                        let j = choose|j: int| 0 <= j < prefix.len() && prefix[j].0 == node;
                        assert(es[j].0 == es[i as int].0);
                    }
                }
                lemma_push_entry(prefix, node, c);
            }
            let ghost pm = entries_map(prefix);
            let cur: Option<u64> = match self.clocks.get(&node) {
                Some(v) => Some(*v),
                None => None,
            };
            match cur {
                Some(v) => {
                    if c > v {
                        self.clocks.insert(node, c);
                    }
                },
                None => {
                    self.clocks.insert(node, c);
                },
            }
            proof {
                assert(!pm.contains_key(node));
                assert(self.clocks@ =~= vc_merge(start, pm.insert(node, c)));
            }
            i = i + 1;
        }
        proof {
            assert(es.take(n as int) =~= es);
        }
    }

    /// True if this clock happened before `other`.
    pub fn happened_before(&self, other: &VectorClock) -> (b: bool)
        requires
            self.wf(),
            other.wf(),
        ensures
            b == vc_before(self.clocks@, other.clocks@),
    {
        let ghost a = self.clocks@;
        let ghost bm = other.clocks@;
        let ghost os = other.clocks.entries();
        let ghost ss = self.clocks.entries();
        proof {
            other.clocks.lemma_view();
            self.clocks.lemma_view();
        }
        let mut dominated = false;
        let n = other.clocks.len();
        let mut i: usize = 0;
        while i < n
            invariant
                0 <= i <= n,
                n == os.len(),
                os == other.clocks.entries(),
                a == self.clocks@,
                bm == other.clocks@,
                self.wf(),
                forall|j: int| 0 <= j < os.len() ==> #[trigger] bm.contains_key(os[j].0) && bm[os[j].0] == os[j].1,
                forall|j: int| 0 <= j < i ==> count(a, #[trigger] os[j].0) <= os[j].1,
                dominated == exists|j: int| 0 <= j < i && count(a, #[trigger] os[j].0) < os[j].1,
            decreases n - i,
        {
            let (node, c) = *other.clocks.entry(i);
            let self_count: u64 = match self.clocks.get(&node) {
                Some(v) => *v,
                None => 0,
            };
            assert(bm.contains_key(os[i as int].0));
            if self_count > c {
                assert(count(a, node) > count(bm, node));
                return false;
            }
            if self_count < c {
                dominated = true;
            }
            i = i + 1;
        }
        let m = self.clocks.len();
        let mut k: usize = 0;
        while k < m
            invariant
                0 <= k <= m,
                m == ss.len(),
                ss == self.clocks.entries(),
                a == self.clocks@,
                bm == other.clocks@,
                other.wf(),
                forall|j: int| 0 <= j < ss.len() ==> #[trigger] a.contains_key(ss[j].0) && a[ss[j].0] == ss[j].1,
                forall|j: int| 0 <= j < k ==> ss[j].1 <= count(bm, #[trigger] ss[j].0),
            decreases m - k,
        {
            let (node, c) = *self.clocks.entry(k);
            let other_count: u64 = match other.clocks.get(&node) {
                Some(v) => *v,
                None => 0,
            };
            assert(a.contains_key(ss[k as int].0));
            if c > other_count {
                assert(count(a, node) > count(bm, node));
                return false;
            }
            k = k + 1;
        }
        proof {
            assert forall|x: NodeId| count(a, x) <= count(bm, x) by {
                if bm.contains_key(x) {
                    let j = choose|j: int| 0 <= j < os.len() && os[j].0 == x;
                    assert(count(a, os[j].0) <= os[j].1);
                } else if a.contains_key(x) {
                    let j = choose|j: int| 0 <= j < ss.len() && ss[j].0 == x;
                    assert(ss[j].1 <= count(bm, ss[j].0));
                }
            }
            if exists|x: NodeId| count(a, x) < count(bm, x) {
                let x = choose|x: NodeId| count(a, x) < count(bm, x);
                assert(bm.contains_key(x));
                let j = choose|j: int| 0 <= j < os.len() && os[j].0 == x;
                assert(count(a, os[j].0) < os[j].1);
            }
            if dominated {
                let j = choose|j: int| 0 <= j < n && count(a, #[trigger] os[j].0) < os[j].1;
                assert(count(a, os[j].0) < count(bm, os[j].0));
            }
        }
        dominated
    }
}

/// Merging vector clocks is commutative.
pub proof fn law_vc_merge_commutative(a: Map<NodeId, u64>, b: Map<NodeId, u64>)
    ensures
        vc_merge(a, b) == vc_merge(b, a),
{
    assert(vc_merge(a, b) =~= vc_merge(b, a));
}

/// Merging vector clocks is associative.
pub proof fn law_vc_merge_associative(a: Map<NodeId, u64>, b: Map<NodeId, u64>, c: Map<NodeId, u64>)
    ensures
        vc_merge(vc_merge(a, b), c) == vc_merge(a, vc_merge(b, c)),
{
    assert(vc_merge(vc_merge(a, b), c) =~= vc_merge(a, vc_merge(b, c)));
}

/// Merging a vector clock with itself changes nothing.
pub proof fn law_vc_merge_idempotent(a: Map<NodeId, u64>)
    ensures
        vc_merge(a, a) == a,
{
    assert(vc_merge(a, a) =~= a);
}

/// The merge is the least upper bound: it dominates both clocks, and any
/// clock that dominates both dominates the merge.
pub proof fn law_vc_merge_least_upper_bound(a: Map<NodeId, u64>, b: Map<NodeId, u64>, c: Map<NodeId, u64>)
    ensures
        vc_leq(a, vc_merge(a, b)),
        vc_leq(b, vc_merge(a, b)),
        vc_leq(a, c) && vc_leq(b, c) ==> vc_leq(vc_merge(a, b), c),
{
    let m = vc_merge(a, b);
    assert forall|n: NodeId| count(a, n) <= count(m, n) && count(b, n) <= count(m, n) by {
        if a.contains_key(n) || b.contains_key(n) {
            assert(m.contains_key(n));
        }
    }
    if vc_leq(a, c) && vc_leq(b, c) {
        assert forall|n: NodeId| count(m, n) <= count(c, n) by {
            assert(count(a, n) <= count(c, n));
            assert(count(b, n) <= count(c, n));
        }
    }
}

/// No clock happened before itself.
pub proof fn law_vc_before_irreflexive(a: Map<NodeId, u64>)
    ensures
        !vc_before(a, a),
{
}

/// Happened-before is transitive.
pub proof fn law_vc_before_transitive(a: Map<NodeId, u64>, b: Map<NodeId, u64>, c: Map<NodeId, u64>)
    requires
        vc_before(a, b),
        vc_before(b, c),
    ensures
        vc_before(a, c),
{
    let n = choose|n: NodeId| count(a, n) < count(b, n);
    assert(count(b, n) <= count(c, n));
    assert forall|x: NodeId| count(a, x) <= count(c, x) by {
        assert(count(a, x) <= count(b, x));
        assert(count(b, x) <= count(c, x));
    }
}

/// Two clocks never each happened before the other.
pub proof fn law_vc_before_asymmetric(a: Map<NodeId, u64>, b: Map<NodeId, u64>)
    ensures
        !(vc_before(a, b) && vc_before(b, a)),
{
    if vc_before(a, b) && vc_before(b, a) {
        let n = choose|n: NodeId| count(a, n) < count(b, n);
        assert(count(b, n) <= count(a, n));
    }
}

/// Incrementing a node's counter yields a clock that the old one happened before.
pub proof fn law_vc_increment_advances(a: Map<NodeId, u64>, node: NodeId)
    requires
        count(a, node) < u64::MAX,
    ensures
        vc_before(a, a.insert(node, (count(a, node) + 1) as u64)),
{
    let b = a.insert(node, (count(a, node) + 1) as u64);
    assert forall|x: NodeId| count(a, x) <= count(b, x) by {
        if x != node {
            assert(b.contains_key(x) == a.contains_key(x));
        }
    }
    assert(count(a, node) < count(b, node));
}

/// Merging a clock into one it happened before leaves every counter of
/// the later clock as it was.
pub proof fn law_vc_merge_into_later(a: Map<NodeId, u64>, b: Map<NodeId, u64>)
    requires
        vc_leq(a, b),
    ensures
        forall|n: NodeId| #[trigger] count(vc_merge(a, b), n) == count(b, n),
{
    assert forall|n: NodeId| #[trigger] count(vc_merge(a, b), n) == count(b, n) by {
        assert(count(a, n) <= count(b, n));
    }
}

} // verus!
