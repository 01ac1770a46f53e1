use keyring::crdt::{Hlc, VectorClock};
use keyring::identity::NodeId;

fn node(b: u8) -> NodeId {
    NodeId([b; 32])
}

fn hlc(physical: u64, logical: u32, n: u8) -> Hlc {
    Hlc { physical, logical, node: node(n) }
}

fn later(a: &Hlc, b: &Hlc) -> bool {
    a.physical > b.physical || (a.physical == b.physical && a.logical > b.logical)
}

#[test]
fn hlc_now_starts_logical_at_zero() {
    let h = Hlc::now(node(1));
    assert_eq!(h.logical, 0);
    assert_eq!(h.node, node(1));
    assert!(h.physical > 1_600_000_000_000);
}

#[test]
fn hlc_merge_at_fresh_physical_time_resets_logical() {
    let a = hlc(100, 7, 1);
    let b = hlc(200, 3, 2);
    assert_eq!(a.merge_at(&b, node(9), 300), hlc(300, 0, 9));
}

#[test]
fn hlc_merge_at_equal_physical_takes_max_logical_plus_one() {
    let a = hlc(100, 7, 1);
    let b = hlc(100, 3, 2);
    assert_eq!(a.merge_at(&b, node(9), 50), hlc(100, 8, 9));
    assert_eq!(b.merge_at(&a, node(9), 100), hlc(100, 8, 9));
}

#[test]
fn hlc_merge_at_local_ahead_steps_local_logical() {
    let a = hlc(200, 4, 1);
    let b = hlc(100, 9, 2);
    assert_eq!(a.merge_at(&b, node(9), 150), hlc(200, 5, 9));
}

#[test]
fn hlc_merge_at_remote_ahead_steps_remote_logical() {
    let a = hlc(100, 4, 1);
    let b = hlc(200, 9, 2);
    assert_eq!(a.merge_at(&b, node(9), 200), hlc(200, 10, 9));
}

#[test]
fn hlc_merge_is_later_than_both() {
    let a = Hlc::now(node(1));
    let b = hlc(a.physical + 1_000_000, 5, 2);
    let m = a.merge(&b, node(1));
    assert!(later(&m, &a));
    assert!(later(&m, &b));
    assert_eq!(m.node, node(1));
    let c = a.merge(&hlc(0, 0, 3), node(1));
    assert!(later(&c, &a));
}

#[test]
fn hlc_orders_by_physical_then_logical() {
    assert!(hlc(1, 9, 9) < hlc(2, 0, 0));
    assert!(hlc(2, 0, 9) < hlc(2, 1, 0));
}

fn count(v: &VectorClock, n: NodeId) -> u64 {
    v.clocks.get(&n).copied().unwrap_or(0)
}

#[test]
fn vector_clock_increment_counts_from_zero() {
    let mut v = VectorClock::default();
    assert_eq!(count(&v, node(1)), 0);
    v.increment(node(1));
    v.increment(node(1));
    v.increment(node(2));
    assert_eq!(count(&v, node(1)), 2);
    assert_eq!(count(&v, node(2)), 1);
    assert_eq!(v.clocks.len(), 2);
}

#[test]
fn vector_clock_merge_takes_pointwise_max() {
    let mut a = VectorClock::default();
    a.increment(node(1));
    a.increment(node(1));
    a.increment(node(2));
    let mut b = VectorClock::default();
    b.increment(node(2));
    b.increment(node(2));
    b.increment(node(2));
    b.increment(node(3));
    a.merge(&b);
    assert_eq!(count(&a, node(1)), 2);
    assert_eq!(count(&a, node(2)), 3);
    assert_eq!(count(&a, node(3)), 1);
    assert_eq!(a.clocks.len(), 3);
}

#[test]
fn vector_clock_merge_converges_in_either_order() {
    let mut a = VectorClock::default();
    a.increment(node(1));
    a.increment(node(2));
    let mut b = VectorClock::default();
    b.increment(node(2));
    b.increment(node(2));
    b.increment(node(3));
    let mut ab = VectorClock::default();
    ab.merge(&a);
    ab.merge(&b);
    let mut ba = VectorClock::default();
    ba.merge(&b);
    ba.merge(&a);
    for n in [1u8, 2, 3, 4] {
        assert_eq!(count(&ab, node(n)), count(&ba, node(n)));
    }
    let mut aa = VectorClock::default();
    aa.merge(&a);
    aa.merge(&a);
    for n in [1u8, 2, 3] {
        assert_eq!(count(&aa, node(n)), count(&a, node(n)));
    }
}

#[test]
fn vector_clock_happened_before() {
    let mut a = VectorClock::default();
    a.increment(node(1));
    let mut b = VectorClock::default();
    b.merge(&a);
    b.increment(node(2));
    assert!(a.happened_before(&b));
    assert!(!b.happened_before(&a));
    assert!(!a.happened_before(&a));
    let mut c = VectorClock::default();
    c.increment(node(3));
    assert!(!a.happened_before(&c));
    assert!(!c.happened_before(&a));
    let empty = VectorClock::default();
    assert!(empty.happened_before(&a));
    assert!(!empty.happened_before(&VectorClock::default()));
}
