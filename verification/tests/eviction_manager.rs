use kubelet_adapters::eviction::manager::{
    evictable, EvictablePod, EvictionManager, EvictionRanker, EvictionReason, PodResourceUsage,
};
use kubelet_adapters::eviction::NodeResources;
use kubelet_adapters::strmap::StrMap;
use kubelet_adapters::types::{
    ContainerSpec, ImagePullPolicy, PodRef, PodSpec, PodUID, QosClass, ResourceQuantity,
    ResourceRequirements, RestartPolicy,
};

fn base_resources(mem_available: u64, total_mem: u64) -> NodeResources {
    NodeResources {
        available_memory_bytes: mem_available,
        total_memory_bytes: total_mem,
        available_disk_bytes: 50 * 1024 * 1024 * 1024,
        total_disk_bytes: 100 * 1024 * 1024 * 1024,
        available_pids: 10000,
        total_pids: 32768,
    }
}

fn make_pod(uid: &str) -> EvictablePod {
    EvictablePod {
        uid: PodUID::new(uid),
        qos: QosClass::BestEffort,
        restart_policy: RestartPolicy::Always,
        memory_request_bytes: 0,
    }
}

fn hard_thresholds(mem: &str) -> StrMap<String> {
    let mut m = StrMap::new();
    m.insert("memory.available".to_string(), mem.to_string());
    m
}

fn manager(mem: &str, grace_ms: Option<u64>) -> EvictionManager {
    EvictionManager::new(&hard_thresholds(mem), &StrMap::new(), grace_ms)
}

fn low() -> NodeResources {
    base_resources(50 * 1024 * 1024, 8 * 1024 * 1024 * 1024)
}

#[test]
fn test_best_effort_ranked_first() {
    let be_pod = make_pod("be-uid");
    let mut gu = make_pod("gu-uid");
    gu.qos = QosClass::Guaranteed;
    gu.memory_request_bytes = 128_000_000;
    let pods = vec![gu, be_pod];
    let usage = StrMap::new();
    let ranked = EvictionRanker::rank_for_memory(&pods, &usage);
    assert_eq!(ranked[0].0, PodUID::new("be-uid"), "BestEffort should be first");
    assert_eq!(ranked[0].1, QosClass::BestEffort);
    assert_eq!(ranked[1].0, PodUID::new("gu-uid"));
    assert_eq!(ranked[1].1, QosClass::Guaranteed);
}

#[test]
fn test_higher_memory_usage_evicted_first_within_qos() {
    let pods = vec![make_pod("uid-low"), make_pod("uid-high")];
    let mut usage = StrMap::new();
    usage.insert(
        "uid-low".to_string(),
        PodResourceUsage { memory_bytes: 100_000, ..Default::default() },
    );
    usage.insert(
        "uid-high".to_string(),
        PodResourceUsage { memory_bytes: 500_000_000, ..Default::default() },
    );
    let ranked = EvictionRanker::rank_for_memory(&pods, &usage);
    assert_eq!(ranked[0].0, PodUID::new("uid-high"), "Higher usage evicted first");
}

#[test]
fn test_no_pressure_no_evictions() {
    let mut mgr = manager("100Mi", None);
    let resources = base_resources(500 * 1024 * 1024, 8 * 1024 * 1024 * 1024);
    let decisions = mgr.evaluate(&resources, &vec![make_pod("uid-1")], &StrMap::new(), 0);
    assert!(decisions.is_empty());
}

#[test]
fn test_memory_pressure_evicts_pod() {
    let mut mgr = manager("100Mi", None);
    let resources = base_resources(50 * 1024 * 1024, 8 * 1024 * 1024 * 1024);
    let decisions = mgr.evaluate(&resources, &vec![make_pod("uid-1")], &StrMap::new(), 0);
    assert_eq!(decisions.len(), 1);
    assert!(matches!(decisions[0].reason, EvictionReason::MemoryPressure));
    assert_eq!(decisions[0].pod_uid, PodUID::new("uid-1"));
}

#[test]
fn test_best_effort_gets_zero_grace_period() {
    let mut mgr = manager("100Mi", None);
    let resources = base_resources(50 * 1024 * 1024, 8 * 1024 * 1024 * 1024);
    let decisions = mgr.evaluate(&resources, &vec![make_pod("uid-be")], &StrMap::new(), 0);
    assert_eq!(decisions[0].grace_period_ms, 0);
}

#[test]
fn test_grace_period_override_applied() {
    let mut mgr = manager("100Mi", Some(5 * 1000));
    let resources = base_resources(50 * 1024 * 1024, 8 * 1024 * 1024 * 1024);
    let decisions = mgr.evaluate(&resources, &vec![make_pod("uid-1")], &StrMap::new(), 0);
    assert_eq!(decisions[0].grace_period_ms, 5 * 1000);
}

#[test]
fn test_already_evicted_pod_not_re_evicted_immediately() {
    let mut mgr = manager("100Mi", None);
    mgr.min_eviction_reclaim_ms = 3600 * 1000;
    let resources = base_resources(50 * 1024 * 1024, 8 * 1024 * 1024 * 1024);
    let pods = vec![make_pod("uid-1")];
    let d1 = mgr.evaluate(&resources, &pods, &StrMap::new(), 7);
    assert_eq!(d1.len(), 1);
    let d2 = mgr.evaluate(&resources, &pods, &StrMap::new(), 8);
    assert!(d2.is_empty(), "Should not re-evict immediately");
}

#[test]
fn test_eviction_reason_display() {
    assert_eq!(
        EvictionReason::MemoryPressure.message(),
        "EvictionThresholdMet: memory.available"
    );
    assert_eq!(
        EvictionReason::DiskPressure.message(),
        "EvictionThresholdMet: nodefs.available"
    );
}

#[test]
fn test_has_pressure() {
    let mgr = manager("100Mi", None);
    let high_mem = base_resources(500 * 1024 * 1024, 8 * 1024 * 1024 * 1024);
    let low_mem = base_resources(50 * 1024 * 1024, 8 * 1024 * 1024 * 1024);
    assert!(!mgr.has_pressure(&high_mem));
    assert!(mgr.has_pressure(&low_mem));
}

#[test]
fn test_rank_for_disk_by_disk_usage() {
    let pods = vec![make_pod("uid-small"), make_pod("uid-large")];
    let mut usage = StrMap::new();
    usage.insert(
        "uid-small".to_string(),
        PodResourceUsage { disk_bytes: 100_000, ..Default::default() },
    );
    usage.insert(
        "uid-large".to_string(),
        PodResourceUsage { disk_bytes: 10_000_000_000, ..Default::default() },
    );
    let ranked = EvictionRanker::rank_for_disk(&pods, &usage);
    assert_eq!(ranked[0].0, PodUID::new("uid-large"));
}

#[test]
fn evicted_pods_may_go_again_after_a_while() {
    let mut mgr = manager("100Mi", None);
    let pods = vec![make_pod("uid-1")];
    assert_eq!(mgr.evaluate(&low(), &pods, &StrMap::new(), 1_000).len(), 1);
    assert!(mgr.evaluate(&low(), &pods, &StrMap::new(), 30_999).is_empty());
    assert_eq!(mgr.evaluate(&low(), &pods, &StrMap::new(), 31_000).len(), 1);
}

#[test]
fn usage_above_the_request_counts() {
    let mut asks = make_pod("asks");
    asks.qos = QosClass::Burstable;
    asks.memory_request_bytes = 900;
    let mut takes = make_pod("takes");
    takes.qos = QosClass::Burstable;
    let mut usage = StrMap::new();
    usage.insert("asks".to_string(), PodResourceUsage { memory_bytes: 1000, ..Default::default() });
    usage.insert("takes".to_string(), PodResourceUsage { memory_bytes: 500, ..Default::default() });
    let ranked = EvictionRanker::rank_for_memory(&vec![asks, takes], &usage);
    assert_eq!(ranked[0].0, PodUID::new("takes"));
}

#[test]
fn reasons_have_messages() {
    assert_eq!(EvictionReason::PIDPressure.message(), "EvictionThresholdMet: pid.available");
    let r = EvictionReason::NodeConditionPressure("X".to_string());
    assert!(r.message().contains("X"));
}

#[test]
fn disk_pressure_evicts_too() {
    let mut hard = StrMap::new();
    hard.insert("nodefs.available".to_string(), "60Gi".to_string());
    let mut mgr = EvictionManager::new(&hard, &StrMap::new(), None);
    let d = mgr.evaluate(&low(), &vec![make_pod("uid-1")], &StrMap::new(), 0);
    assert_eq!(d.len(), 1);
    assert!(matches!(d[0].reason, EvictionReason::DiskPressure));
    assert!(mgr.pressure(&low()).disk_pressure);
}

#[test]
fn guaranteed_pods_are_evicted_for_memory_only() {
    let mut gu = make_pod("gu");
    gu.qos = QosClass::Guaranteed;
    let mut bu = make_pod("bu");
    bu.qos = QosClass::Burstable;
    let pods = vec![gu, bu];
    assert_eq!(EvictionRanker::rank_for_memory(&pods, &StrMap::new()).len(), 2);
    let for_disk = EvictionRanker::rank_for_disk(&pods, &StrMap::new());
    assert_eq!(for_disk.len(), 1);
    assert_eq!(for_disk[0].0, PodUID::new("bu"));
}

#[test]
fn evictions_follow_the_order_of_the_classes() {
    let mut mgr = manager("100Mi", None);
    let mut gu = make_pod("gu");
    gu.qos = QosClass::Guaranteed;
    let mut bu = make_pod("bu");
    bu.qos = QosClass::Burstable;
    let pods = vec![gu, bu, make_pod("be")];
    for (uid, grace_ms) in [("be", 0), ("bu", 10_000), ("gu", 30_000)] {
        let d = mgr.evaluate(&low(), &pods, &StrMap::new(), 5);
        assert_eq!(d.len(), 1);
        assert_eq!(d[0].pod_uid, PodUID::new(uid));
        assert_eq!(d[0].grace_period_ms, grace_ms);
    }
    assert!(mgr.evaluate(&low(), &pods, &StrMap::new(), 5).is_empty());
}

fn container_with_memory(bytes: i64) -> ContainerSpec {
    let mut requests = StrMap::new();
    requests.insert("memory".to_string(), ResourceQuantity::memory_bytes(bytes));
    ContainerSpec {
        name: "c".to_string(),
        image: "nginx".to_string(),
        command: vec![],
        args: vec![],
        working_dir: None,
        ports: vec![],
        env: vec![],
        env_from: vec![],
        resources: ResourceRequirements { requests, limits: StrMap::new() },
        volume_mounts: vec![],
        liveness_probe: None,
        readiness_probe: None,
        startup_probe: None,
        lifecycle: None,
        image_pull_policy: ImagePullPolicy::IfNotPresent,
        security_context: None,
        termination_message_path: None,
        termination_message_policy: None,
        stdin: None,
        stdin_once: None,
        tty: None,
        restart_policy: None,
    }
}

#[test]
fn the_request_of_a_pod_is_that_of_its_containers() {
    let mut pod = PodSpec::bare(
        PodUID::new("u"),
        PodRef::new("default", "web"),
        "node1".to_string(),
    );
    pod.restart_policy = RestartPolicy::OnFailure;
    pod.containers = vec![container_with_memory(100), container_with_memory(20)];
    pod.init_containers = vec![container_with_memory(3)];
    let e = evictable(&pod, QosClass::Burstable);
    assert_eq!(e.uid.0, "u");
    assert_eq!(e.qos, QosClass::Burstable);
    assert_eq!(e.restart_policy, RestartPolicy::OnFailure);
    assert_eq!(e.memory_request_bytes, 123);
}

#[test]
fn the_pod_furthest_above_its_request_goes_first() {
    let pod = |uid: &str, bytes: i64| {
        let mut pod =
            PodSpec::bare(PodUID::new(uid), PodRef::new("default", uid), "node1".to_string());
        pod.containers = vec![container_with_memory(bytes)];
        evictable(&pod, QosClass::Burstable)
    };
    let used = |memory_bytes: u64| PodResourceUsage { memory_bytes, ..Default::default() };
    let mut usage = StrMap::new();
    usage.insert("modest".to_string(), used(900));
    usage.insert("greedy".to_string(), used(500));
    let ranked =
        EvictionRanker::rank_for_memory(&vec![pod("modest", 800), pod("greedy", 100)], &usage);
    assert_eq!(ranked[0].0 .0, "greedy");
    assert_eq!(ranked[1].0 .0, "modest");
}
