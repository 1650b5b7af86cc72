use kubelet_adapters::kube_client::InMemoryNodeReporter;
use kubelet_adapters::kube_status::{PodLifecycleState, PodPhase};
use kubelet_adapters::node_status::{
    NodeCondition, NodeConditionStatus, NodeConditionType, NodeStatus, NodeStatusCollector,
    SystemFacts,
};
use kubelet_adapters::types::{PodRef, PodUID, Timestamp};

fn now() -> Timestamp {
    Timestamp { secs: 1_750_000_000, nanos: 0 }
}

fn node_status(name: &str) -> NodeStatus {
    let facts = SystemFacts {
        package_version: String::new(),
        operating_system: String::new(),
        architecture: String::new(),
        proc_version: None,
        os_release: None,
        machine_id: None,
    };
    NodeStatusCollector::new(name, 110, 4000, 1 << 30, 1 << 30).collect(vec![], facts, now())
}

#[test]
fn test_report_node_status() {
    let mut reporter = InMemoryNodeReporter::new();
    reporter.report_node_status(node_status("node1")).unwrap();
    assert_eq!(reporter.node_report_count(), 1);
    assert_eq!(reporter.node_status_reports[0].name, "node1");
}

#[test]
fn test_report_pod_status() {
    let mut reporter = InMemoryNodeReporter::new();
    let pod_ref = PodRef::new("default", "my-pod");
    let uid = PodUID::new("uid-123");
    let state = PodLifecycleState {
        phase: PodPhase::Pending,
        reason: None,
        conditions: vec![],
        container_statuses: vec![],
        init_container_statuses: vec![],
        ephemeral_container_statuses: vec![],
        start_time: None,
        pod_ip: None,
        host_ip: None,
        observed_generation: None,
    };
    reporter.report_pod_status(pod_ref, uid, state).unwrap();
    assert_eq!(reporter.pod_report_count(), 1);
}

#[test]
fn test_renew_node_lease() {
    let mut reporter = InMemoryNodeReporter::new();
    reporter.renew_node_lease("node1", 40).unwrap();
    reporter.renew_node_lease("node1", 40).unwrap();
    assert_eq!(reporter.lease_renewal_count(), 2);
}

#[test]
fn test_patch_node_conditions() {
    let mut reporter = InMemoryNodeReporter::new();
    let cond = NodeCondition {
        condition_type: NodeConditionType::Ready,
        status: NodeConditionStatus::True,
        last_heartbeat_time: now(),
        last_transition_time: now(),
        reason: "KubeletReady".to_string(),
        message: "ready".to_string(),
    };
    reporter.patch_node_conditions("node1", vec![cond]).unwrap();
    let patches = &reporter.condition_patches;
    assert_eq!(patches.len(), 1);
    assert_eq!(patches[0].node_name, "node1");
}

#[test]
fn deleting_a_pod_leaves_the_reports() {
    let mut reporter = InMemoryNodeReporter::default();
    reporter.delete_pod(&PodRef::new("default", "p"), &PodUID::new("u")).unwrap();
    assert_eq!(reporter.pod_report_count(), 0);
}
