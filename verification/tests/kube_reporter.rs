use kubelet_adapters::k8s::{
    K8sContainer, K8sContainerBase, K8sDnsConfig, K8sHttpGet, K8sMeta, K8sNameRef, K8sPod,
    K8sPodEvent, K8sPodSpec, K8sPort, K8sProbe,
};
use kubelet_adapters::json::JsonValue;
use kubelet_adapters::kube_reporter::{
    k8s_probe_to_spec, pod_event_to_updates, pod_to_spec, KubePodSource, PodWatchAction,
    PodWatchInput,
};
use kubelet_adapters::kube_status::{
    build_node_apply_patch, build_node_status_patch, conditions_patched, container_event,
    delete_pod_result, format_lease_renew_time, is_not_found, lease_patch, lease_renewed,
    lifecycle_to_phase, node_conditions_patch, node_report_step, node_status_patch_at,
    pod_status_patch, pod_status_reported, ApiOutcome, KubeConnectMode, NodeReportRequest, NodeReportStep,
    PodLifecycleState, PodPhase,
};
use kubelet_adapters::node_status::{
    NodeAllocatable, NodeCapacity, NodeCondition, NodeConditionStatus, NodeConditionType,
    NodeStatus, NodeSystemInfo,
};
use kubelet_adapters::strmap::StrMap;
use kubelet_adapters::types::{
    ContainerPort, DnsPolicy, PodOperation, PodRef, PodUID, ProbeHandler, Protocol, Timestamp,
};

fn now() -> Timestamp {
    Timestamp { secs: 1_750_000_000, nanos: 0 }
}

fn system_info() -> NodeSystemInfo {
    NodeSystemInfo {
        kubelet_version: String::new(),
        operating_system: String::new(),
        architecture: String::new(),
        kernel_version: String::new(),
        os_image: String::new(),
        machine_id: String::new(),
        system_uuid: String::new(),
        boot_id: String::new(),
        container_runtime_version: String::new(),
        kube_proxy_version: String::new(),
    }
}

fn node_status() -> NodeStatus {
    NodeStatus {
        name: "node1".to_string(),
        conditions: vec![NodeCondition {
            condition_type: NodeConditionType::Ready,
            status: NodeConditionStatus::True,
            reason: "KubeletReady".to_string(),
            message: "kubelet is ready".to_string(),
            last_heartbeat_time: now(),
            last_transition_time: now(),
        }],
        capacity: NodeCapacity {
            cpu_millicores: (4.0 * 1000.0) as u64,
            memory_bytes: 8 * 1024 * 1024 * 1024,
            pods: 110,
            ephemeral_storage_bytes: 100 * 1024 * 1024 * 1024,
            hugepages: StrMap::new(),
            extended_resources: StrMap::new(),
        },
        allocatable: NodeAllocatable {
            cpu_millicores: 0,
            memory_bytes: 0,
            pods: 0,
            ephemeral_storage_bytes: 0,
        },
        addresses: vec![],
        system_info: system_info(),
        last_updated: now(),
    }
}

#[test]
fn test_build_node_status_patch_has_conditions() {
    let patch = build_node_status_patch(&node_status(), now()).unwrap();
    let status = patch.get("status").unwrap();
    let conditions = status.get("conditions").unwrap().as_array().unwrap();
    assert_eq!(conditions[0].get("type").unwrap().as_str().unwrap(), "Ready");
    assert_eq!(conditions[0].get("status").unwrap().as_str().unwrap(), "True");
    let endpoint = status.get("daemonEndpoints").unwrap().get("kubeletEndpoint").unwrap();
    assert_eq!(endpoint.get("Port").unwrap().as_u64(), Some(10250));
}

#[test]
fn node_patches_tell_the_moment() {
    let heartbeat = |patch: &JsonValue| {
        let conditions = patch.get("status").unwrap().get("conditions").unwrap();
        let first = &conditions.as_array().unwrap()[0];
        first.get("lastHeartbeatTime").unwrap().as_str().unwrap().to_string()
    };
    let whole = build_node_status_patch(&node_status(), now()).unwrap();
    assert_eq!(heartbeat(&whole), "2025-06-15T15:06:40+00:00");
    let part = Timestamp { secs: 1_750_000_000, nanos: 5_000_000 };
    let part = build_node_status_patch(&node_status(), part).unwrap();
    assert_eq!(heartbeat(&part), "2025-06-15T15:06:40.005+00:00");
    let far = Timestamp { secs: i64::MAX, nanos: 0 };
    assert!(build_node_status_patch(&node_status(), far).is_none());
    assert_eq!(heartbeat(&node_status_patch_at(&node_status(), "noon")), "noon");
}

fn lifecycle(phase: PodPhase) -> PodLifecycleState {
    PodLifecycleState {
        phase,
        reason: None,
        conditions: vec![],
        container_statuses: vec![],
        init_container_statuses: vec![],
        ephemeral_container_statuses: vec![],
        start_time: None,
        pod_ip: None,
        host_ip: None,
        observed_generation: None,
    }
}

#[test]
fn test_lifecycle_to_phase() {
    let mut state = lifecycle(PodPhase::Running);
    assert_eq!(lifecycle_to_phase(&state), "Running");
    state.phase = PodPhase::Pending;
    assert_eq!(lifecycle_to_phase(&state), "Pending");
    state.phase = PodPhase::Succeeded;
    assert_eq!(lifecycle_to_phase(&state), "Succeeded");
}

#[test]
fn test_kube_connect_mode_detect_no_panic() {
    let _ = KubeConnectMode::detect(false, None, None, false);
}

#[test]
fn test_format_lease_renew_time_uses_microseconds() {
    // 2026-05-19 at 11:46:40.
    let days = 365 * 56 + 14 + 31 + 28 + 31 + 30 + 18;
    let secs = days * 86_400 + (11 * 60 + 46) * 60 + 40;
    let ts = Timestamp { secs, nanos: 315_402_804 };
    assert_eq!(format_lease_renew_time(ts).unwrap(), "2026-05-19T11:46:40.315402Z");
}

fn port(name: &str, container_port: u16) -> ContainerPort {
    ContainerPort {
        name: Some(name.to_string()),
        container_port,
        host_port: None,
        protocol: Protocol::TCP,
        host_ip: None,
    }
}

fn http_probe(path: &str, port: K8sPort) -> K8sProbe {
    K8sProbe {
        exec_action: None,
        http_get: Some(K8sHttpGet {
            path: Some(path.to_string()),
            port,
            host: None,
            scheme: Some("HTTP".to_string()),
        }),
        tcp_socket: None,
        grpc: None,
        initial_delay_seconds: None,
        period_seconds: None,
        timeout_seconds: None,
        success_threshold: None,
        failure_threshold: None,
    }
}

#[test]
fn test_k8s_probe_named_port_resolved_from_container_ports() {
    let ports = vec![port("http-metrics", 9402), port("http-healthz", 9403)];
    let mut k8s_probe = http_probe("/livez", K8sPort::Name("http-healthz".to_string()));
    k8s_probe.initial_delay_seconds = Some(10);
    k8s_probe.period_seconds = Some(10);
    k8s_probe.timeout_seconds = Some(15);
    k8s_probe.failure_threshold = Some(8);
    let probe = k8s_probe_to_spec(&k8s_probe, &ports).unwrap();
    assert_eq!(probe.failure_threshold, 8);
    match probe.handler {
        ProbeHandler::HttpGet { port, path, .. } => {
            assert_eq!(port, 9403, "Named port 'http-healthz' must resolve to 9403, not 80");
            assert_eq!(path, "/livez");
        }
        other => panic!("Expected HttpGet, got {:?}", other),
    }
}

#[test]
fn test_k8s_probe_numeric_port_unchanged() {
    let probe = http_probe("/healthz", K8sPort::Int(8080));
    let result = k8s_probe_to_spec(&probe, &vec![]).unwrap();
    match result.handler {
        ProbeHandler::HttpGet { port, .. } => assert_eq!(port, 8080),
        other => panic!("Expected HttpGet, got {:?}", other),
    }
}

fn container(name: &str, image: &str) -> K8sContainer {
    K8sContainer {
        base: K8sContainerBase {
            name: name.to_string(),
            image: Some(image.to_string()),
            image_pull_policy: None,
            command: None,
            args: None,
            env: None,
            env_from: None,
            volume_mounts: None,
            working_dir: None,
            stdin: None,
            tty: None,
            termination_message_path: None,
            termination_message_policy: None,
            security_context: None,
        },
        resources: None,
        ports: None,
        liveness_probe: None,
        readiness_probe: None,
        startup_probe: None,
        restart_policy: None,
        lifecycle: None,
    }
}

fn pod_spec(containers: Vec<K8sContainer>, node_name: Option<&str>) -> K8sPodSpec {
    K8sPodSpec {
        containers,
        init_containers: None,
        ephemeral_containers: None,
        volumes: None,
        restart_policy: None,
        node_selector: None,
        readiness_gates: None,
        node_name: node_name.map(|n| n.to_string()),
        active_deadline_seconds: None,
        service_account_name: None,
        automount_service_account_token: None,
        termination_grace_period_seconds: None,
        priority: None,
        runtime_class_name: None,
        security_context: None,
        host_network: None,
        host_pid: None,
        host_ipc: None,
        host_aliases: None,
        image_pull_secrets: None,
        enable_service_links: None,
        share_process_namespace: None,
        dns_policy: None,
        dns_config: None,
        hostname: None,
        subdomain: None,
    }
}

fn pod(name: &str, namespace: &str, uid: &str, spec: K8sPodSpec) -> K8sPod {
    K8sPod {
        metadata: K8sMeta {
            uid: Some(uid.to_string()),
            name: Some(name.to_string()),
            namespace: Some(namespace.to_string()),
            deletion_timestamp: None,
            annotations: None,
            labels: None,
            generation: None,
        },
        spec: Some(spec),
        start_time: None,
    }
}

#[test]
fn test_pod_to_spec_preserves_image_pull_secrets() {
    let image = "us-east1-docker.pkg.dev/proj/workloads/myapp:v1";
    let mut spec = pod_spec(vec![container("app", image)], Some("node1"));
    spec.image_pull_secrets = Some(vec![
        K8sNameRef { name: Some("gcp-pull-secret".to_string()) },
        K8sNameRef { name: Some("fallback-secret".to_string()) },
    ]);
    let pod = pod("my-pod", "default", "uid-abc", spec);
    let spec = pod_to_spec(&pod, "node1").unwrap();
    assert_eq!(spec.image_pull_secrets.len(), 2);
    assert_eq!(spec.image_pull_secrets[0].name, "gcp-pull-secret");
    assert_eq!(spec.image_pull_secrets[1].name, "fallback-secret");
}

#[test]
fn test_pod_to_spec_no_image_pull_secrets_is_empty() {
    let spec = pod_spec(vec![container("app", "nginx:1.25")], Some("node1"));
    let pod = pod("public-pod", "default", "uid-pub", spec);
    let spec = pod_to_spec(&pod, "node1").unwrap();
    assert!(spec.image_pull_secrets.is_empty());
}

fn dns_test_pod(dns_policy: Option<&str>) -> K8sPod {
    let image = "registry.k8s.io/coredns/coredns:v1.11.1";
    let mut spec = pod_spec(vec![container("coredns", image)], Some("node1"));
    spec.dns_policy = dns_policy.map(|p| p.to_string());
    pod("dns-test-pod", "kube-system", "uid-dns-test", spec)
}

#[test]
fn test_pod_to_spec_dns_policy_default() {
    let spec = pod_to_spec(&dns_test_pod(Some("Default")), "node1").unwrap();
    let dns = spec.dns_config.unwrap();
    assert!(
        matches!(dns.policy, DnsPolicy::Default),
        "dnsPolicy:Default must map to DnsPolicy::Default, got {:?}",
        dns.policy
    );
}

#[test]
fn test_pod_to_spec_dns_policy_cluster_first() {
    let spec = pod_to_spec(&dns_test_pod(Some("ClusterFirst")), "node1").unwrap();
    let dns = spec.dns_config.unwrap();
    assert!(
        matches!(dns.policy, DnsPolicy::ClusterFirst),
        "dnsPolicy:ClusterFirst must map to DnsPolicy::ClusterFirst"
    );
}

#[test]
fn test_pod_to_spec_dns_policy_none() {
    let spec = pod_to_spec(&dns_test_pod(Some("None")), "node1").unwrap();
    let dns = spec.dns_config.unwrap();
    assert!(matches!(dns.policy, DnsPolicy::NonePolicy));
}

#[test]
fn test_pod_to_spec_dns_policy_cluster_first_with_host_net() {
    let spec = pod_to_spec(&dns_test_pod(Some("ClusterFirstWithHostNet")), "node1").unwrap();
    let dns = spec.dns_config.unwrap();
    assert!(matches!(dns.policy, DnsPolicy::ClusterFirstWithHostNet));
}

#[test]
fn test_pod_to_spec_dns_policy_missing_defaults_to_cluster_first() {
    let spec = pod_to_spec(&dns_test_pod(None), "node1").unwrap();
    let dns = spec.dns_config.unwrap();
    assert!(matches!(dns.policy, DnsPolicy::ClusterFirst));
}

#[test]
fn test_pod_to_spec_dns_config_extra_nameservers_preserved() {
    let mut spec = pod_spec(vec![container("app", "nginx:latest")], Some("node1"));
    spec.dns_policy = Some("None".to_string());
    spec.dns_config = Some(K8sDnsConfig {
        nameservers: Some(vec!["1.1.1.1".to_string(), "8.8.8.8".to_string()]),
        searches: Some(vec!["example.com".to_string()]),
        options: None,
    });
    let pod = pod("custom-dns-pod", "default", "uid-custom-dns", spec);
    let spec = pod_to_spec(&pod, "node1").unwrap();
    let dns = spec.dns_config.unwrap();
    assert!(matches!(dns.policy, DnsPolicy::NonePolicy));
    assert_eq!(dns.nameservers, vec!["1.1.1.1", "8.8.8.8"]);
    assert_eq!(dns.searches, vec!["example.com"]);
}

#[test]
fn test_pod_to_spec_propagates_metadata_generation() {
    let spec = pod_spec(vec![container("c", "nginx:latest")], None);
    let mut pod = pod("test-pod", "default", "abc-123", spec);
    pod.metadata.generation = Some(3);
    let spec = pod_to_spec(&pod, "node1").unwrap();
    assert_eq!(spec.generation, Some(3));
}

#[test]
fn test_pod_to_spec_generation_none_when_missing() {
    let spec = pod_spec(vec![container("c", "nginx:latest")], None);
    let mut pod = pod("test-pod", "default", "abc-123", spec);
    pod.metadata.generation = None;
    let spec = pod_to_spec(&pod, "node1").unwrap();
    assert_eq!(spec.generation, None);
}

fn node_pod(uid: &str) -> K8sPod {
    pod("p", "default", uid, pod_spec(vec![container("c", "i")], Some("node1")))
}

#[test]
fn events_become_updates() {
    let deleted = pod_event_to_updates(&K8sPodEvent::Deleted(node_pod("u")), "node1");
    assert_eq!(deleted.len(), 1);
    assert_eq!(deleted[0].op, PodOperation::Remove);
    let applied = pod_event_to_updates(&K8sPodEvent::Applied(node_pod("u")), "node1");
    assert_eq!(applied.len(), 1);
    assert_eq!(applied[0].pod.uid.0, "u");
    let all = K8sPodEvent::Restarted(vec![node_pod("a"), node_pod("b")]);
    assert_eq!(pod_event_to_updates(&all, "node1").len(), 2);
}

fn reconnect(source: &mut KubePodSource, input: PodWatchInput) -> u64 {
    match source.step(&input) {
        PodWatchAction::Reconnect { wait_seconds } => wait_seconds,
        other => panic!("{:?}", other),
    }
}

#[test]
fn watches_back_off_on_errors() {
    let mut source = KubePodSource::new("node1");
    let mut waits = Vec::new();
    for i in 0..8 {
        let input =
            if i % 2 == 0 { PodWatchInput::StreamFailed } else { PodWatchInput::ListTimedOut };
        waits.push(reconnect(&mut source, input));
    }
    assert_eq!(waits, vec![5, 10, 20, 40, 80, 160, 300, 300]);
    assert_eq!(reconnect(&mut source, PodWatchInput::StreamEnded), 5);
    assert!(matches!(source.step(&PodWatchInput::ListFailed), PodWatchAction::Emit(_)));
    assert!(matches!(source.step(&PodWatchInput::Listed(vec![])), PodWatchAction::Emit(_)));
    assert_eq!(source.failures, 8);
    let event = PodWatchInput::Event(K8sPodEvent::Restarted(vec![]));
    assert!(matches!(source.step(&event), PodWatchAction::Emit(_)));
    assert_eq!(reconnect(&mut source, PodWatchInput::StreamFailed), 5);
    source.failures = u32::MAX;
    assert_eq!(reconnect(&mut source, PodWatchInput::StreamFailed), 300);
    assert_eq!(source.failures, u32::MAX);
}

#[test]
fn watches_reconnect_when_they_end() {
    let mut source = KubePodSource::new("node1");
    assert_eq!(source.name(), "kube-api-watcher");
    assert_eq!(source.field_selector(), "spec.nodeName=node1");
    assert_eq!(reconnect(&mut source, PodWatchInput::StreamEnded), 5);
    match source.step(&PodWatchInput::Listed(vec![node_pod("a")])) {
        PodWatchAction::Emit(updates) => assert_eq!(updates.len(), 1),
        other => panic!("{:?}", other),
    }
}

#[test]
fn connections_are_detected_in_order() {
    let mode = KubeConnectMode::detect(true, Some("/k".to_string()), None, true);
    assert!(matches!(mode, KubeConnectMode::InCluster));
    let mode = KubeConnectMode::detect(false, Some("/k".to_string()), None, false);
    assert!(matches!(mode, KubeConnectMode::Kubeconfig { path } if path == "/k"));
    let mode = KubeConnectMode::detect(false, None, Some("/home/a".to_string()), true);
    assert!(matches!(mode, KubeConnectMode::Kubeconfig { path } if path == "/home/a/.kube/config"));
    let mode = KubeConnectMode::detect(false, None, Some("/home/a".to_string()), false);
    assert!(matches!(mode, KubeConnectMode::Standalone));
}

#[test]
fn missing_nodes_are_created() {
    let missing = ApiOutcome::Refused { code: 404, why: "gone".to_string() };
    assert!(is_not_found(&missing));
    assert!(!is_not_found(&ApiOutcome::Done));
    assert!(matches!(
        node_report_step(NodeReportRequest::PatchStatus, &ApiOutcome::Done),
        NodeReportStep::Finished
    ));
    assert!(matches!(
        node_report_step(NodeReportRequest::PatchStatus, &missing),
        NodeReportStep::Next(NodeReportRequest::CreateNode)
    ));
    assert!(matches!(
        node_report_step(NodeReportRequest::CreateNode, &ApiOutcome::Done),
        NodeReportStep::Next(NodeReportRequest::PatchAgain)
    ));
    let failed = ApiOutcome::Failed { why: "down".to_string() };
    assert!(matches!(
        node_report_step(NodeReportRequest::PatchAgain, &failed),
        NodeReportStep::Error(_)
    ));
    let r = PodRef::new("ns", "p");
    assert!(delete_pod_result(&r, &missing).is_ok());
    assert!(delete_pod_result(&r, &failed).is_err());
}

#[test]
fn pods_are_patched_and_events_named() {
    let mut state = lifecycle(PodPhase::Running);
    state.pod_ip = Some("10.0.0.9".to_string());
    let patch = pod_status_patch(&PodRef::new("ns", "p"), &state);
    assert_eq!(patch.name, "p");
    assert_eq!(patch.namespace, "ns");
    assert_eq!(patch.phase, "Running");
    assert_eq!(patch.pod_ips, vec!["10.0.0.9".to_string()]);
    let uid = PodUID::new("u");
    let e = container_event("node1", &PodRef::new("ns", "p"), &uid, "c", "Normal", "Started", "m");
    assert_eq!(e.name, "p.started");
    assert_eq!(e.field_path, "spec.containers{c}");
    assert_eq!(e.host, "node1");
    assert_eq!(e.count, 1);
}

#[test]
fn nodes_are_labelled_with_their_architecture() {
    let label = |arch: &str, key: &str| -> String {
        let patch = build_node_apply_patch(&node_status(), "linux", arch);
        let meta = patch.get("metadata").unwrap();
        meta.get("labels").unwrap().get(key).unwrap().as_str().unwrap().clone()
    };
    assert_eq!(label("x86_64", "kubernetes.io/arch"), "amd64");
    assert_eq!(label("x86_64", "beta.kubernetes.io/arch"), "amd64");
    assert_eq!(label("x86_64", "kubernetes.io/os"), "linux");
    assert_eq!(label("x86_64", "beta.kubernetes.io/os"), "linux");
    assert_eq!(label("x86_64", "kubernetes.io/hostname"), "node1");
    assert_eq!(label("aarch64", "kubernetes.io/arch"), "arm64");
    assert_eq!(label("riscv64", "kubernetes.io/arch"), "riscv64");
    let patch = build_node_apply_patch(&node_status(), "linux", "x86_64");
    assert_eq!(patch.get("spec").unwrap().as_object().unwrap().len(), 0);
    assert_eq!(patch.get("kind").unwrap().as_str().unwrap(), "Node");
}

#[test]
fn leases_and_conditions_are_framed() {
    let lease = lease_patch("node1", 40, "2026-01-01T00:00:00.000000Z");
    assert_eq!(lease.get("kind").unwrap().as_str().unwrap(), "Lease");
    let meta = lease.get("metadata").unwrap();
    assert_eq!(meta.get("namespace").unwrap().as_str().unwrap(), "kube-node-lease");
    let spec = lease.get("spec").unwrap();
    assert_eq!(spec.get("holderIdentity").unwrap().as_str().unwrap(), "node1");
    assert_eq!(spec.get("leaseDurationSeconds").unwrap().as_u64(), Some(40));
    assert_eq!(
        spec.get("renewTime").unwrap().as_str().unwrap(),
        "2026-01-01T00:00:00.000000Z"
    );
    let patch = node_conditions_patch("node1", vec![JsonValue::Bool(true)]);
    let status = patch.get("status").unwrap();
    let conditions = status.get("conditions").unwrap().as_array().unwrap();
    assert_eq!(conditions.len(), 1);
    assert_eq!(conditions[0].as_bool(), Some(true));
}

#[test]
fn failed_reports_say_which_request_failed() {
    let refused = ApiOutcome::Refused { code: 500, why: "down".to_string() };
    assert!(pod_status_reported(&ApiOutcome::Done).is_ok());
    assert_eq!(pod_status_reported(&refused).unwrap_err().message(), "PATCH pod status: down");
    assert!(conditions_patched(&ApiOutcome::Done).is_ok());
    assert_eq!(conditions_patched(&refused).unwrap_err().message(), "PATCH node conditions: down");
    let failed = ApiOutcome::Failed { why: "timeout".to_string() };
    assert!(lease_renewed(&ApiOutcome::Done).is_ok());
    assert_eq!(lease_renewed(&failed).unwrap_err().message(), "renew lease: timeout");
}

#[test]
fn mirrors_and_dying_pods_are_never_added() {
    let mut mirror = node_pod("mirror");
    let mut annotations: StrMap<String> = StrMap::new();
    annotations.insert("kubernetes.io/config.mirror".to_string(), "x".to_string());
    mirror.metadata.annotations = Some(annotations);
    let mut dying = node_pod("dying");
    dying.metadata.deletion_timestamp = Some(now());
    let pods = vec![mirror, dying, node_pod("alive")];
    let listed = match KubePodSource::new("node1").step(&PodWatchInput::Listed(pods)) {
        PodWatchAction::Emit(updates) => updates,
        PodWatchAction::Reconnect { .. } => panic!("the watch goes on"),
    };
    assert_eq!(listed.len(), 1);
    assert_eq!(listed[0].op, PodOperation::Reconcile);
    assert_eq!(listed[0].pod.uid, PodUID::new("alive"));

    let mut dying = node_pod("dying");
    dying.metadata.deletion_timestamp = Some(now());
    let event = K8sPodEvent::Restarted(vec![dying, node_pod("alive")]);
    let updates = pod_event_to_updates(&event, "node1");
    assert_eq!(updates.len(), 2);
    assert_eq!(updates[0].op, PodOperation::Remove);
    assert_eq!(updates[0].pod.uid, PodUID::new("dying"));
    assert_eq!(updates[1].op, PodOperation::Add);
}
