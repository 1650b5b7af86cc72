use kubelet_adapters::json::{JsonNumber, JsonValue};
use kubelet_adapters::kube_watcher::{
    parse_dns_policy, parse_probe, parse_resource_requirements, pod_spec_from_map,
    LoggingNodeReporter, SimulatedApiPodSource,
};
use kubelet_adapters::strmap::StrMap;
use kubelet_adapters::types::{
    DnsPolicy, PodOperation, PodRef, PodSpec, PodUID, ProbeHandler, ResourceQuantity, RestartPolicy,
    VolumeSource,
};

fn convert(v: serde_json::Value) -> JsonValue {
    match v {
        serde_json::Value::Null => JsonValue::Null,
        serde_json::Value::Bool(b) => JsonValue::Bool(b),
        serde_json::Value::Number(n) => JsonValue::Number(match (n.as_u64(), n.as_i64()) {
            (Some(u), _) => JsonNumber::PosInt(u),
            (None, Some(i)) => JsonNumber::NegInt(i),
            (None, None) => JsonNumber::Float(n.to_string()),
        }),
        serde_json::Value::String(s) => JsonValue::Str(s),
        serde_json::Value::Array(a) => JsonValue::Array(a.into_iter().map(convert).collect()),
        serde_json::Value::Object(o) => {
            let mut m = StrMap::new();
            for (k, v) in o {
                m.insert(k, convert(v));
            }
            JsonValue::Object(m)
        }
    }
}

fn json(text: &str) -> JsonValue {
    convert(serde_json::from_str(text).unwrap())
}

fn sample_pod_json(uid: &str, name: &str, image: &str, restart: &str) -> JsonValue {
    json(&format!(
        r#"{{
            "metadata": {{
                "name": "{name}",
                "namespace": "default",
                "uid": "{uid}",
                "labels": {{ "app": "{name}" }},
                "annotations": {{}}
            }},
            "spec": {{
                "containers": [
                    {{ "name": "app", "image": "{image}", "command": ["sleep", "3600"] }}
                ],
                "nodeName": "node1",
                "restartPolicy": "{restart}",
                "terminationGracePeriodSeconds": 30
            }}
        }}"#
    ))
}

#[test]
fn test_pod_spec_from_map_basic() {
    let json = sample_pod_json("uid-1", "my-pod", "nginx:1.25", "Always");
    let spec = pod_spec_from_map(&json, "node1").unwrap();
    assert_eq!(spec.pod_ref.name, "my-pod");
    assert_eq!(spec.pod_ref.namespace, "default");
    assert_eq!(spec.uid.0, "uid-1");
    assert_eq!(spec.containers.len(), 1);
    assert_eq!(spec.containers[0].image, "nginx:1.25");
}

#[test]
fn test_pod_spec_from_map_restart_policy() {
    let json = sample_pod_json("uid-2", "batch", "alpine", "Never");
    let spec = pod_spec_from_map(&json, "node1").unwrap();
    assert_eq!(spec.restart_policy, RestartPolicy::Never);
}

#[test]
fn test_pod_spec_from_map_labels_and_annotations() {
    let json = sample_pod_json("uid-3", "labeled-pod", "alpine", "Always");
    let spec = pod_spec_from_map(&json, "node1").unwrap();
    assert_eq!(spec.labels.get("app"), Some(&"labeled-pod".to_string()));
}

#[test]
fn test_pod_spec_from_map_missing_uid_returns_none() {
    let json = json(r#"{ "metadata": { "name": "no-uid" }, "spec": { "containers": [] } }"#);
    let spec = pod_spec_from_map(&json, "node1");
    assert!(spec.is_none());
}

#[test]
fn test_pod_spec_from_map_grace_period() {
    let json = sample_pod_json("uid-4", "pod", "img", "Always");
    let spec = pod_spec_from_map(&json, "node1").unwrap();
    assert_eq!(spec.termination_grace_period_seconds, 30);
}

#[test]
fn test_pod_spec_command_args() {
    let json = sample_pod_json("uid-5", "sleeper", "alpine", "Always");
    let spec = pod_spec_from_map(&json, "node1").unwrap();
    assert_eq!(spec.containers[0].command, vec!["sleep", "3600"]);
}

#[test]
fn test_simulated_source_emits_initial_pods() {
    let uid = PodUID::new("sim-uid");
    let pod = PodSpec::bare(
        uid.copied(),
        PodRef::new("default", "sim-pod"),
        "node1".to_string(),
    );
    let source = SimulatedApiPodSource::new("node1", vec![pod], 3600 * 1000);
    assert_eq!(source.initial_pods[0].uid, uid);
    assert_eq!(source.operation(true), PodOperation::Add);
    assert_eq!(source.operation(false), PodOperation::Reconcile);
}

#[test]
fn test_logging_reporter_does_not_fail() {
    let reporter = LoggingNodeReporter::new("node1");
    assert_eq!(reporter.node_name, "node1");
}

#[test]
fn test_pod_spec_from_map_image_pull_secrets_parsed() {
    let json = json(
        r#"{
            "metadata": { "name": "my-pod", "namespace": "default", "uid": "uid-pull" },
            "spec": {
                "containers": [{ "name": "app", "image": "us-east1-docker.pkg.dev/proj/workloads/myapp:v1" }],
                "nodeName": "node1",
                "imagePullSecrets": [
                    { "name": "gcp-pull-secret" },
                    { "name": "registry-token" }
                ]
            }
        }"#,
    );
    let spec = pod_spec_from_map(&json, "node1").unwrap();
    assert_eq!(spec.image_pull_secrets.len(), 2);
    assert_eq!(spec.image_pull_secrets[0].name, "gcp-pull-secret");
    assert_eq!(spec.image_pull_secrets[1].name, "registry-token");
}

#[test]
fn test_pod_spec_from_map_no_image_pull_secrets_is_empty() {
    let json = json(
        r#"{
            "metadata": { "name": "pub-pod", "namespace": "default", "uid": "uid-pub" },
            "spec": {
                "containers": [{ "name": "app", "image": "nginx:1.25" }],
                "nodeName": "node1"
            }
        }"#,
    );
    let spec = pod_spec_from_map(&json, "node1").unwrap();
    assert!(spec.image_pull_secrets.is_empty());
}

#[test]
fn test_pod_spec_from_map_empty_image_pull_secrets_array() {
    let json = json(
        r#"{
            "metadata": { "name": "empty-pod", "namespace": "default", "uid": "uid-empty" },
            "spec": {
                "containers": [{ "name": "app", "image": "nginx:1.25" }],
                "nodeName": "node1",
                "imagePullSecrets": []
            }
        }"#,
    );
    let spec = pod_spec_from_map(&json, "node1").unwrap();
    assert!(spec.image_pull_secrets.is_empty());
}

#[test]
fn pods_without_node_get_the_own_one() {
    let own = json(r#"{ "metadata": { "name": "p", "uid": "u" }, "spec": { "containers": [] } }"#);
    let spec = pod_spec_from_map(&own, "node2").unwrap();
    assert_eq!(spec.node_name, "node2");
    assert_eq!(spec.pod_ref.namespace, "default");
    let other = sample_pod_json("uid-6", "p", "i", "Always");
    assert_eq!(pod_spec_from_map(&other, "node2").unwrap().node_name, "node1");
}

#[test]
fn probes_find_named_ports() {
    let c = json(
        r#"{
            "metadata": { "name": "p", "uid": "u" },
            "spec": { "containers": [{
                "name": "app", "image": "i",
                "ports": [{ "name": "web", "containerPort": 8080 }],
                "livenessProbe": { "httpGet": { "path": "/h", "port": "web" }, "periodSeconds": 7 },
                "readinessProbe": { "tcpSocket": { "port": 99 } }
            }] }
        }"#,
    );
    let spec = pod_spec_from_map(&c, "node1").unwrap();
    let live = spec.containers[0].liveness_probe.as_ref().unwrap();
    assert_eq!(live.period_seconds, 7);
    assert!(matches!(&live.handler, ProbeHandler::HttpGet { port: 8080, path, .. } if path == "/h"));
    let ready = spec.containers[0].readiness_probe.as_ref().unwrap();
    assert!(matches!(ready.handler, ProbeHandler::TcpSocket { port: 99, .. }));
    assert!(parse_probe(None, &vec![]).is_none());
}

#[test]
fn resources_are_quantities() {
    let r = json(r#"{ "requests": { "cpu": "250m", "memory": "64Mi" }, "limits": { "cpu": "1" } }"#);
    let r = parse_resource_requirements(Some(&r));
    assert_eq!(*r.requests.get("cpu").unwrap(), ResourceQuantity::cpu_millicores(250));
    assert_eq!(*r.requests.get("memory").unwrap(), ResourceQuantity::memory_bytes(64 << 20));
    assert_eq!(*r.limits.get("cpu").unwrap(), ResourceQuantity::cpu_millicores(1000));
}

#[test]
fn volumes_have_sources() {
    let p = json(
        r#"{
            "metadata": { "name": "p", "uid": "u" },
            "spec": {
                "containers": [{ "name": "app", "image": "i" }],
                "volumes": [
                    { "name": "a", "emptyDir": {} },
                    { "name": "b", "configMap": { "name": "cm", "items": [{ "key": "k", "path": "p" }] } },
                    { "name": "c", "unknown": {} }
                ]
            }
        }"#,
    );
    let spec = pod_spec_from_map(&p, "node1").unwrap();
    assert!(matches!(spec.volumes[0].source, VolumeSource::EmptyDir { .. }));
    assert!(
        matches!(&spec.volumes[1].source, VolumeSource::ConfigMap { name, items, .. } if name == "cm" && items.len() == 1)
    );
}

#[test]
fn dns_policies_by_name() {
    assert_eq!(parse_dns_policy(&Some("Default".to_string())), Some(DnsPolicy::Default));
    assert_eq!(parse_dns_policy(&Some("None".to_string())), Some(DnsPolicy::NonePolicy));
}

#[test]
fn reporters_have_no_name_at_first() {
    assert_eq!(LoggingNodeReporter::default().node_name, "");
}
