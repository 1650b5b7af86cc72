use kubelet_adapters::admission::{
    parse_cpu_millis, parse_cpu_overhead_millis, parse_memory_bytes, parse_memory_overhead_bytes,
    pod_cpu_millis, pod_memory_bytes, pod_tolerates_taint, AdmissionController, AdmissionResult,
    NodeAllocatable, NodeTaint, ResourceUsage, TaintEffect,
};
use kubelet_adapters::strmap::StrMap;
use kubelet_adapters::types::{
    ContainerPort, ContainerSpec, ImagePullPolicy, PodRef, PodSpec, PodUID, Protocol,
    ResourceClaimRef, ResourceQuantity, ResourceRequirements, RestartPolicy, Toleration,
    TolerationOperator,
};

fn base_allocatable() -> NodeAllocatable {
    NodeAllocatable {
        cpu_millicores: 4000,
        memory_bytes: 8 * 1024 * 1024 * 1024,
        max_pods: 110,
    }
}

fn empty_pod(name: &str) -> PodSpec {
    PodSpec::bare(
        PodUID::new(&format!("uid-{}", name)),
        PodRef::new("default", name),
        "node1".to_string(),
    )
}

fn container(ports: Vec<ContainerPort>, resources: ResourceRequirements) -> ContainerSpec {
    ContainerSpec {
        name: "app".to_string(),
        image: "nginx".to_string(),
        command: vec![],
        args: vec![],
        working_dir: None,
        ports,
        env: vec![],
        env_from: vec![],
        resources,
        volume_mounts: vec![],
        liveness_probe: None,
        readiness_probe: None,
        startup_probe: None,
        lifecycle: None,
        image_pull_policy: ImagePullPolicy::IfNotPresent,
        security_context: None,
        termination_message_path: None,
        termination_message_policy: None,
        stdin: None,
        stdin_once: None,
        tty: None,
        restart_policy: Some(RestartPolicy::Always),
    }
}

fn pod_with_resources(name: &str, cpu_millis: i64, mem_bytes: i64) -> PodSpec {
    let mut p = empty_pod(name);
    let mut requests = StrMap::new();
    requests.insert("cpu".to_string(), ResourceQuantity::cpu_millicores(cpu_millis));
    requests.insert("memory".to_string(), ResourceQuantity::memory_bytes(mem_bytes));
    p.containers = vec![container(
        vec![],
        ResourceRequirements { requests, limits: StrMap::new() },
    )];
    p
}

fn host_port(port: u16, protocol: Protocol) -> ContainerPort {
    ContainerPort {
        name: None,
        container_port: 80,
        host_port: Some(port),
        protocol,
        host_ip: None,
    }
}

fn controller() -> AdmissionController {
    AdmissionController::new(base_allocatable(), StrMap::new(), vec![])
}

fn reason(r: AdmissionResult) -> String {
    match r {
        AdmissionResult::Reject(m) => m,
        AdmissionResult::Admit => panic!("admitted"),
    }
}

#[test]
fn test_admit_pod_within_resources() {
    let ctrl = controller();
    let pod = pod_with_resources("app", 500, 256 * 1024 * 1024);
    let usage = ResourceUsage::default();
    let rcs = vec![];
    assert!(matches!(ctrl.admit_pod(&pod, &usage, &rcs), AdmissionResult::Admit));
}

#[test]
fn test_reject_pod_insufficient_cpu() {
    let ctrl = controller();
    let pod = pod_with_resources("hungry", 8000, 256 * 1024 * 1024);
    let usage = ResourceUsage::default();
    let rcs = vec![];
    assert!(matches!(ctrl.admit_pod(&pod, &usage, &rcs), AdmissionResult::Reject(_)));
}

#[test]
fn test_reject_pod_max_pods_reached() {
    let ctrl = controller();
    let usage = ResourceUsage { pod_count: 110, ..Default::default() };
    let pod = empty_pod("overflow");
    let rcs = vec![];
    assert!(matches!(ctrl.admit_pod(&pod, &usage, &rcs), AdmissionResult::Reject(_)));
}

#[test]
fn test_reject_pod_port_conflict() {
    let ctrl = controller();
    let mut usage = ResourceUsage::default();
    usage.reserve_port(8080, Protocol::TCP, "uid-existing".to_string());
    let mut pod = empty_pod("conflict");
    pod.containers = vec![container(
        vec![host_port(8080, Protocol::TCP)],
        ResourceRequirements::default(),
    )];
    let rcs = vec![];
    assert!(matches!(ctrl.admit_pod(&pod, &usage, &rcs), AdmissionResult::Reject(_)));
}

#[test]
fn test_reject_unknown_runtime_class() {
    let ctrl = controller();
    let mut pod = empty_pod("gvisor-pod");
    pod.runtime_class_name = Some("gvisor".to_string());
    let usage = ResourceUsage::default();
    let rcs = vec![];
    assert!(matches!(ctrl.admit_pod(&pod, &usage, &rcs), AdmissionResult::Reject(_)));
    let rcs = vec!["gvisor".to_string()];
    assert!(matches!(ctrl.admit_pod(&pod, &usage, &rcs), AdmissionResult::Admit));
}

#[test]
fn test_reject_node_selector_mismatch() {
    let mut labels = StrMap::new();
    labels.insert("zone".to_string(), "us-east-1a".to_string());
    let ctrl = AdmissionController::new(base_allocatable(), labels, vec![]);
    let mut pod = empty_pod("zonal");
    pod.node_selector.insert("zone".to_string(), "us-west-2a".to_string());
    let usage = ResourceUsage::default();
    let rcs = vec![];
    assert!(matches!(ctrl.admit_pod(&pod, &usage, &rcs), AdmissionResult::Reject(_)));
    pod.node_selector.insert("zone".to_string(), "us-east-1a".to_string());
    assert!(matches!(ctrl.admit_pod(&pod, &usage, &rcs), AdmissionResult::Admit));
}

#[test]
fn test_resource_usage_add_remove() {
    let pod = pod_with_resources("app", 500, 256 * 1024 * 1024);
    let mut usage = ResourceUsage::default();
    usage.add_pod(&pod);
    assert_eq!(usage.cpu_millicores, 500);
    assert_eq!(usage.memory_bytes, 256 * 1024 * 1024);
    usage.remove_pod(&pod);
    assert_eq!(usage.cpu_millicores, 0);
}

#[test]
fn test_parse_cpu_millis() {
    assert_eq!(parse_cpu_millis(Some(500)), 500);
    assert_eq!(parse_cpu_millis(Some(2000)), 2000);
    assert_eq!(parse_cpu_millis(None), 0);
}

#[test]
fn test_parse_memory_bytes() {
    assert_eq!(parse_memory_bytes(Some(256 * 1024 * 1024)), 256 * 1024 * 1024);
    assert_eq!(parse_memory_bytes(Some(1024 * 1024 * 1024)), 1024 * 1024 * 1024);
    assert_eq!(parse_memory_bytes(Some(1024 * 1024)), 1024 * 1024);
}

fn claim(prepared: bool) -> ResourceClaimRef {
    ResourceClaimRef {
        name: "gpu-claim".to_string(),
        resource_class_name: Some("nvidia.com/gpu".to_string()),
        allocated: true,
        prepared,
    }
}

#[test]
fn test_reject_unprepared_dra_claim() {
    let ctrl = controller();
    let mut pod = empty_pod("dra-unprepared");
    pod.resource_claims = vec![ResourceClaimRef {
        name: "gpu-claim".to_string(),
        resource_class_name: Some("nvidia.com/gpu".to_string()),
        allocated: true,
        prepared: false,
    }];
    let usage = ResourceUsage::default();
    let rcs = vec![];
    assert!(matches!(ctrl.admit_pod(&pod, &usage, &rcs), AdmissionResult::Reject(_)));
}

#[test]
fn test_admit_prepared_dra_claim() {
    let ctrl = controller();
    let mut pod = empty_pod("dra-prepared");
    pod.resource_claims = vec![ResourceClaimRef {
        name: "gpu-claim".to_string(),
        resource_class_name: Some("nvidia.com/gpu".to_string()),
        allocated: true,
        prepared: true,
    }];
    let usage = ResourceUsage::default();
    let rcs = vec![];
    assert!(matches!(ctrl.admit_pod(&pod, &usage, &rcs), AdmissionResult::Admit));
}

fn gvisor_overhead(memory: &str) -> StrMap<StrMap<String>> {
    let mut overhead = StrMap::new();
    overhead.insert("cpu".to_string(), "100m".to_string());
    overhead.insert("memory".to_string(), memory.to_string());
    let mut all = StrMap::new();
    all.insert("gvisor".to_string(), overhead);
    all
}

#[test]
fn test_admission_rejects_when_runtime_overhead_exceeds_memory() {
    let ctrl = controller();
    let mut pod = pod_with_resources("overhead-pod", 500, 256 * 1024 * 1024);
    pod.runtime_class_name = Some("gvisor".to_string());
    let rcs = vec!["gvisor".to_string()];
    let usage = ResourceUsage { memory_bytes: 7 * 1024 * 1024 * 1024, ..Default::default() };
    let runtime_overheads = gvisor_overhead("1Gi");
    assert!(matches!(
        ctrl.admit_with_runtime_overhead(&pod, &usage, &rcs, &runtime_overheads),
        AdmissionResult::Reject(_)
    ));
    let runtime_overheads = gvisor_overhead("512Mi");
    assert!(matches!(
        ctrl.admit_with_runtime_overhead(&pod, &usage, &rcs, &runtime_overheads),
        AdmissionResult::Admit
    ));
}

#[test]
fn resources_fit_exactly() {
    let ctrl = controller();
    let usage = ResourceUsage { cpu_millicores: 3500, ..Default::default() };
    let rcs = vec![];
    let fits = pod_with_resources("fits", 500, 0);
    assert!(matches!(ctrl.admit_pod(&fits, &usage, &rcs), AdmissionResult::Admit));
    let over = pod_with_resources("over", 501, 0);
    assert!(matches!(ctrl.admit_pod(&over, &usage, &rcs), AdmissionResult::Reject(_)));
}

#[test]
fn requests_of_all_containers_are_added() {
    let mut pod = pod_with_resources("sum", 500, 1024);
    let mut requests = StrMap::new();
    requests.insert("cpu".to_string(), ResourceQuantity::cpu_millicores(250));
    pod.containers.push(container(
        vec![],
        ResourceRequirements { requests, limits: StrMap::new() },
    ));
    assert_eq!(pod_cpu_millis(&pod), 750);
    assert_eq!(pod_memory_bytes(&pod), 1024);
}

#[test]
fn negative_requests_count_as_none() {
    assert_eq!(parse_cpu_millis(Some(-1)), 0);
    assert_eq!(parse_memory_bytes(Some(-1)), 0);
    assert_eq!(parse_memory_bytes(None), 0);
}

#[test]
fn overheads_are_parsed() {
    assert_eq!(parse_cpu_overhead_millis(Some(&"100m".to_string())), 100);
    assert_eq!(parse_cpu_overhead_millis(Some(&"2".to_string())), 2000);
    assert_eq!(parse_cpu_overhead_millis(Some(&"x".to_string())), 0);
    assert_eq!(parse_cpu_overhead_millis(None), 0);
    assert_eq!(parse_memory_overhead_bytes(Some(&"1Gi".to_string())), 1024 * 1024 * 1024);
    assert_eq!(parse_memory_overhead_bytes(Some(&"3Ki".to_string())), 3072);
    assert_eq!(parse_memory_overhead_bytes(Some(&"77".to_string())), 77);
    assert_eq!(parse_memory_overhead_bytes(None), 0);
}

#[test]
fn removing_a_pod_with_overhead_undoes_adding_it() {
    let mut pod = pod_with_resources("undo", 500, 1 << 20);
    pod.runtime_class_name = Some("gvisor".to_string());
    pod.containers[0].ports = vec![host_port(9090, Protocol::UDP)];
    let overheads = gvisor_overhead("1Mi");
    let mut usage = ResourceUsage { cpu_millicores: 7, memory_bytes: 9, ..Default::default() };
    usage.add_pod_with_overhead(&pod, &overheads);
    assert_eq!(usage.cpu_millicores, 507);
    assert_eq!(usage.overhead_cpu_millicores, 100);
    assert_eq!(usage.overhead_memory_bytes, 1 << 20);
    assert_eq!(usage.pod_count, 1);
    assert_eq!(usage.host_ports.len(), 1);
    usage.remove_pod_with_overhead(&pod, &overheads);
    assert_eq!(usage.cpu_millicores, 7);
    assert_eq!(usage.memory_bytes, 9);
    assert_eq!(usage.overhead_cpu_millicores, 0);
    assert_eq!(usage.overhead_memory_bytes, 0);
    assert_eq!(usage.pod_count, 0);
    assert!(usage.host_ports.is_empty());
}

#[test]
fn ports_of_other_protocols_do_not_conflict() {
    let ctrl = controller();
    let mut usage = ResourceUsage::default();
    usage.reserve_port(8080, Protocol::UDP, "uid-existing".to_string());
    let mut pod = empty_pod("other");
    pod.containers = vec![container(
        vec![host_port(8080, Protocol::TCP)],
        ResourceRequirements::default(),
    )];
    assert!(matches!(ctrl.admit_pod(&pod, &usage, &vec![]), AdmissionResult::Admit));
}

#[test]
fn untolerated_taints_reject() {
    let taint = NodeTaint {
        key: "dedicated".to_string(),
        value: Some("gpu".to_string()),
        effect: TaintEffect::NoSchedule,
    };
    let mut pod = empty_pod("tainted");
    assert!(!pod_tolerates_taint(&pod, &taint));
    let ctrl = AdmissionController::new(base_allocatable(), StrMap::new(), vec![taint]);
    let usage = ResourceUsage::default();
    assert!(reason(ctrl.admit_pod(&pod, &usage, &vec![])).contains("dedicated"));
    pod.tolerations.push(Toleration {
        key: Some("dedicated".to_string()),
        operator: TolerationOperator::Equal,
        value: Some("gpu".to_string()),
        effect: None,
    });
    assert!(matches!(ctrl.admit_pod(&pod, &usage, &vec![]), AdmissionResult::Admit));
}

#[test]
fn prepared_claims_are_asked_for_by_name() {
    let ctrl = controller();
    let mut pod = empty_pod("claims");
    pod.resource_claims = vec![claim(true), claim(false)];
    let r = ctrl.admit_pod(&pod, &ResourceUsage::default(), &vec![]);
    assert!(reason(r).contains("gpu-claim"));
}

#[test]
fn rejections_name_the_taint() {
    let taint = |value: Option<&str>, effect: TaintEffect| NodeTaint {
        key: "dedicated".to_string(),
        value: value.map(String::from),
        effect,
    };
    let why = |t: NodeTaint| -> String {
        let ctrl = AdmissionController::new(base_allocatable(), StrMap::new(), vec![t]);
        reason(ctrl.admit_pod(&empty_pod("p"), &ResourceUsage::default(), &vec![]))
    };
    assert_eq!(
        why(taint(Some("a\"b"), TaintEffect::NoSchedule)),
        "pod does not tolerate taint dedicated=Some(\"a\\\"b\"):NoSchedule"
    );
    assert_eq!(
        why(taint(None, TaintEffect::NoExecute)),
        "pod does not tolerate taint dedicated=None:NoExecute"
    );
}

#[test]
fn a_full_node_rejects_before_anything_is_added_up() {
    let usage = ResourceUsage {
        pod_count: 110,
        cpu_millicores: u64::MAX,
        memory_bytes: u64::MAX,
        overhead_cpu_millicores: 1,
        overhead_memory_bytes: 1,
        ..Default::default()
    };
    let r = controller().admit_pod(&pod_with_resources("late", 1, 1), &usage, &vec![]);
    assert!(matches!(r, AdmissionResult::Reject(m) if m == "max pods exceeded: 110 / 110"));
    let usage = ResourceUsage {
        cpu_millicores: 4000,
        memory_bytes: u64::MAX,
        overhead_memory_bytes: 1,
        ..Default::default()
    };
    let r = controller().admit_pod(&pod_with_resources("late", 1, 1), &usage, &vec![]);
    let short = "insufficient CPU: requested 1m, available 0m";
    assert!(matches!(r, AdmissionResult::Reject(m) if m == short));
}

#[test]
fn a_pod_that_is_too_large_is_taken_away_again() {
    let mut usage = ResourceUsage::default();
    usage.add_pod(&pod_with_resources("a", 3000, 1000));
    usage.add_pod(&pod_with_resources("b", 9000, 2000));
    assert_eq!(usage.cpu_millicores, 12000);
    usage.remove_pod(&pod_with_resources("b", 9000, 2000));
    assert_eq!((usage.pod_count, usage.cpu_millicores, usage.memory_bytes), (1, 3000, 1000));
}
