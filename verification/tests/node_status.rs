use kubelet_adapters::node_status::{
    find_pretty_name, kernel_version, os_image, NodeAddress, NodeAddressType, NodeCondition,
    NodeConditionDeriver, NodeConditionStatus, NodeConditionType, NodeStatus, NodeStatusCollector,
    SystemFacts,
};
use kubelet_adapters::types::Timestamp;

fn now() -> Timestamp {
    Timestamp { secs: 1_750_000_000, nanos: 0 }
}

fn make_collector() -> NodeStatusCollector {
    NodeStatusCollector::new(
        "test-node",
        110,
        (4.0 * 1000.0) as u64,
        8 * 1024 * 1024 * 1024,
        100 * 1024 * 1024 * 1024,
    )
}

fn make_addresses() -> Vec<NodeAddress> {
    vec![
        NodeAddress {
            address_type: NodeAddressType::InternalIP,
            address: "10.0.0.1".to_string(),
        },
        NodeAddress {
            address_type: NodeAddressType::Hostname,
            address: "test-node".to_string(),
        },
    ]
}

fn facts() -> SystemFacts {
    SystemFacts {
        package_version: "0.1.0".to_string(),
        operating_system: "linux".to_string(),
        architecture: "x86_64".to_string(),
        proc_version: Some("Linux version 6.1.0 (gcc)".to_string()),
        os_release: Some("PRETTY_NAME=\"Debian 12\"\n".to_string()),
        machine_id: Some("abc\n".to_string()),
    }
}

fn collect() -> NodeStatus {
    make_collector().collect(make_addresses(), facts(), now())
}

fn find(conditions: &[NodeCondition], t: NodeConditionType) -> &NodeCondition {
    conditions.iter().find(|c| c.condition_type == t).unwrap()
}

#[test]
fn test_collect_sets_capacity() {
    let status = collect();
    assert_eq!(status.capacity.cpu_millicores as f64 / 1000.0, 4.0);
    assert_eq!(status.capacity.memory_bytes, 8 * 1024 * 1024 * 1024);
    assert_eq!(status.capacity.pods, 110);
}

#[test]
fn test_collect_sets_allocatable_less_than_capacity() {
    let status = collect();
    assert!(status.allocatable.memory_bytes < status.capacity.memory_bytes);
    assert!(status.allocatable.cpu_millicores < status.capacity.cpu_millicores);
}

#[test]
fn test_collect_populates_addresses() {
    let status = collect();
    assert_eq!(status.addresses.len(), 2);
}

#[test]
fn test_collect_sets_system_info() {
    let status = collect();
    assert!(!status.system_info.kubelet_version.is_empty());
    assert!(!status.system_info.operating_system.is_empty());
    assert_eq!(status.system_info.kernel_version, "6.1.0");
    assert_eq!(status.system_info.os_image, "Debian 12");
}

#[test]
fn test_condition_deriver_no_pressure_ready() {
    let deriver = NodeConditionDeriver::new(false, false, false, false);
    let conditions = deriver.build_conditions(now());
    let ready = find(&conditions, NodeConditionType::Ready);
    assert_eq!(ready.status, NodeConditionStatus::True);
}

#[test]
fn test_condition_deriver_memory_pressure_not_ready() {
    let deriver = NodeConditionDeriver::new(true, false, false, false);
    let conditions = deriver.build_conditions(now());
    let ready = find(&conditions, NodeConditionType::Ready);
    assert_eq!(ready.status, NodeConditionStatus::False);
    let mem = find(&conditions, NodeConditionType::MemoryPressure);
    assert_eq!(mem.status, NodeConditionStatus::True);
}

#[test]
fn test_condition_deriver_pleg_stale_not_ready() {
    let deriver = NodeConditionDeriver::new(false, false, false, false).with_pleg_health(false);
    let conditions = deriver.build_conditions(now());
    let ready = find(&conditions, NodeConditionType::Ready);
    assert_eq!(ready.status, NodeConditionStatus::False);
}

#[test]
fn test_condition_deriver_disk_pressure() {
    let deriver = NodeConditionDeriver::new(false, true, false, false);
    let conditions = deriver.build_conditions(now());
    let disk = find(&conditions, NodeConditionType::DiskPressure);
    assert_eq!(disk.status, NodeConditionStatus::True);
}

#[test]
fn test_condition_deriver_all_good_no_pressure() {
    let deriver = NodeConditionDeriver::new(false, false, false, false);
    let conditions = deriver.build_conditions(now());
    for cond in &conditions {
        match cond.condition_type {
            NodeConditionType::Ready => assert_eq!(cond.status, NodeConditionStatus::True),
            _ => assert_eq!(cond.status, NodeConditionStatus::False),
        }
    }
}

#[test]
fn test_node_status_has_last_updated() {
    let before = now();
    let status = collect();
    assert!(status.last_updated.as_nanos() >= before.as_nanos());
}

#[test]
fn nine_tenths_are_allocatable() {
    let status = collect();
    assert_eq!(status.allocatable.cpu_millicores, 3600);
    assert_eq!(status.allocatable.pods, 110);
    assert!(!status.is_ready());
}

#[test]
fn readiness_needs_everything() {
    for i in 0..16 {
        let d = NodeConditionDeriver::new(i & 1 != 0, i & 2 != 0, i & 4 != 0, i & 8 != 0);
        let conditions = d.build_conditions(now());
        let ready = find(&conditions, NodeConditionType::Ready).status;
        assert_eq!(ready == NodeConditionStatus::True, i == 0);
    }
}

#[test]
fn facts_may_be_missing() {
    assert_eq!(kernel_version(&None), "unknown");
    assert_eq!(os_image(&None, "linux"), "linux");
    assert_eq!(find_pretty_name("NAME=x\n"), None);
    assert_eq!(find_pretty_name("PRETTY_NAME=\"A\"\n"), Some("A".to_string()));
    assert_eq!(NodeConditionType::PIDPressure.name(), "PIDPressure");
    assert_eq!(NodeAddressType::InternalIP.name(), "InternalIP");
}

#[test]
fn phases_follow_the_ready_condition() {
    let mut status = collect();
    assert_eq!(status.phase_str(), "NotReady");
    status.conditions = NodeConditionDeriver::new(false, false, false, false).build_conditions(now());
    assert_eq!(status.phase_str(), "Ready");
}
