use keyring::coordinator::{Coordinator, NodeStatus, Presence, Priority, Resources, Task, TaskStatus};
use keyring::crdt::Hlc;
use keyring::identity::NodeId;

fn res() -> Resources {
    Resources { cpu_usage_bits: 0.25f32.to_bits(), memory_gb_bits: 8.0f32.to_bits(), disk_gb_bits: 100.0f32.to_bits() }
}

fn strings(xs: &[&str]) -> Vec<String> {
    xs.iter().map(|s| s.to_string()).collect()
}

fn task(requires: &[&str], prefers: &[&str]) -> Task {
    Task {
        id: [9u8; 16],
        task_type: "summarize".to_string(),
        requires: strings(requires),
        prefers: strings(prefers),
        payload: vec![1, 2, 3],
        priority: Priority::Normal,
        deadline: None,
        status: TaskStatus::Pending,
        created_by: NodeId([1u8; 32]),
        created_at: Hlc { physical: 1, logical: 0, node: NodeId([1u8; 32]) },
    }
}

#[test]
fn heartbeat_counts_up_from_one() {
    let me = NodeId([1u8; 32]);
    let mut c = Coordinator::new(me);
    let p1 = c.heartbeat(strings(&["gpu"]), res());
    assert_eq!(p1.heartbeat, 1);
    assert_eq!(p1.node_id, me);
    assert_eq!(p1.status, NodeStatus::Online);
    assert_eq!(p1.capabilities, strings(&["gpu"]));
    assert_eq!(p1.resources, res());
    assert_eq!(p1.last_seen.logical, 0);
    let p2 = c.heartbeat(strings(&["gpu", "llm"]), res());
    assert_eq!(p2.heartbeat, 2);
    assert_eq!(c.online_peers().len(), 1);
    assert_eq!(c.online_peers()[0].capabilities, strings(&["gpu", "llm"]));
}

#[test]
fn online_peers_is_empty_before_any_heartbeat() {
    let c = Coordinator::new(NodeId([1u8; 32]));
    assert!(c.online_peers().is_empty());
}

#[test]
fn route_candidates_need_every_required_capability() {
    let mut c = Coordinator::new(NodeId([1u8; 32]));
    c.heartbeat(strings(&["gpu", "llm"]), res());
    assert_eq!(c.route_candidates(&task(&["gpu"], &[])).len(), 1);
    assert_eq!(c.route_candidates(&task(&[], &[])).len(), 1);
    assert!(c.route_candidates(&task(&["gpu", "tpu"], &[])).is_empty());
}

#[test]
fn preferred_matches_counts_shared_capabilities() {
    let p = Presence {
        node_id: NodeId([1u8; 32]),
        status: NodeStatus::Online,
        capabilities: strings(&["gpu", "llm", "ssd"]),
        resources: res(),
        last_seen: Hlc { physical: 0, logical: 0, node: NodeId([1u8; 32]) },
        heartbeat: 1,
    };
    assert_eq!(Coordinator::preferred_matches(&task(&[], &["llm", "ssd", "tpu"]), &p), 2);
    assert_eq!(Coordinator::preferred_matches(&task(&[], &[]), &p), 0);
}

#[test]
fn submit_task_keeps_presence() {
    let mut c = Coordinator::new(NodeId([1u8; 32]));
    c.heartbeat(strings(&["gpu"]), res());
    c.submit_task(task(&["gpu"], &[]));
    c.submit_task(task(&["gpu"], &["llm"]));
    assert_eq!(c.online_peers().len(), 1);
}

#[test]
fn preferred_matches_counts_each_capability_once() {
    let p = Presence {
        node_id: NodeId([1u8; 32]),
        status: NodeStatus::Online,
        capabilities: strings(&["gpu", "llm", "llm"]),
        resources: res(),
        last_seen: Hlc { physical: 0, logical: 0, node: NodeId([1u8; 32]) },
        heartbeat: 1,
    };
    assert_eq!(Coordinator::preferred_matches(&task(&[], &["llm", "llm", "gpu", "tpu"]), &p), 2);
}

#[test]
fn after_heartbeats_the_node_is_the_one_online_peer() {
    let me = NodeId([7u8; 32]);
    let mut c = Coordinator::new(me);
    for k in 1..=3u64 {
        let p = c.heartbeat(strings(&["gpu"]), res());
        assert_eq!(p.heartbeat, k);
        let peers = c.online_peers();
        assert_eq!(peers.len(), 1);
        assert_eq!(peers[0].node_id, me);
        assert_eq!(peers[0].heartbeat, k);
        assert_eq!(peers[0].last_seen, p.last_seen);
    }
}
