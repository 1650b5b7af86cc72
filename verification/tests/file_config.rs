use kubelet_adapters::file_config::{
    static_pod_uid, FilePodSource, KnownManifests, ManifestContainer, ManifestHostPath,
    ManifestMetadata, ManifestSpec, ManifestVolume, ManifestVolumeMount, PodManifest,
};
use kubelet_adapters::types::{ImagePullPolicy, PodOperation, RestartPolicy, VolumeSource};

fn source() -> FilePodSource {
    FilePodSource::new("/etc/kubernetes/manifests", "test-node", 100)
}

fn container(name: &str, image: &str) -> ManifestContainer {
    ManifestContainer {
        name: name.to_string(),
        image: image.to_string(),
        command: None,
        args: None,
        volume_mounts: None,
        image_pull_policy: None,
    }
}

fn manifest(name: Option<&str>, namespace: &str, containers: Vec<ManifestContainer>) -> PodManifest {
    PodManifest {
        metadata: ManifestMetadata {
            name: name.map(|n| n.to_string()),
            namespace: Some(namespace.to_string()),
            uid: None,
            annotations: None,
            labels: None,
        },
        spec: ManifestSpec {
            containers: Some(containers),
            init_containers: None,
            volumes: None,
            restart_policy: None,
            host_network: None,
            node_name: None,
            host_aliases: None,
        },
    }
}

#[test]
fn test_parse_yaml_manifest() {
    let src = source();
    let m = manifest(Some("test-pod"), "kube-system", vec![container("nginx", "nginx:1.25")]);
    let pod = src.parse_manifest(&Some(m), "test-pod.yaml");
    assert!(pod.is_some());
    let pod = pod.unwrap();
    assert_eq!(pod.pod_ref.name, "test-pod-test-node");
    assert_eq!(pod.pod_ref.namespace, "kube-system");
    assert_eq!(pod.containers.len(), 1);
    assert_eq!(pod.containers[0].image, "nginx:1.25");
}

#[test]
fn test_parse_json_manifest() {
    let src = source();
    assert!(FilePodSource::is_json("pod.json"));
    let m = manifest(Some("json-pod"), "default", vec![container("app", "alpine:3.18")]);
    let pod = src.parse_manifest(&Some(m), "pod.json");
    assert!(pod.is_some());
    let pod = pod.unwrap();
    assert_eq!(pod.pod_ref.name, "json-pod-test-node");
    assert_eq!(pod.containers[0].image, "alpine:3.18");
}

#[test]
fn test_parse_manifest_preserves_host_network_true() {
    let src = source();
    let mut m = manifest(
        Some("kube-apiserver"),
        "kube-system",
        vec![container("kube-apiserver", "registry.k8s.io/kube-apiserver:v1.32.0")],
    );
    m.spec.host_network = Some(true);
    let pod = src.parse_manifest(&Some(m), "kube-apiserver.yaml");
    assert!(pod.is_some());
    assert!(pod.unwrap().host_network);
}

#[test]
fn test_parse_manifest_preserves_hostpath_volumes_and_mounts() {
    let src = source();
    let mut c = container("kube-scheduler", "registry.k8s.io/kube-scheduler:v1.32.0");
    c.command = Some(vec![
        "kube-scheduler".to_string(),
        "--config=/etc/kubernetes/scheduler.conf".to_string(),
    ]);
    c.volume_mounts = Some(vec![ManifestVolumeMount {
        name: "kubeconfig".to_string(),
        mount_path: "/etc/kubernetes/scheduler.conf".to_string(),
        sub_path: None,
        read_only: Some(true),
    }]);
    let mut m = manifest(Some("kube-scheduler"), "kube-system", vec![c]);
    m.spec.volumes = Some(vec![ManifestVolume {
        name: "kubeconfig".to_string(),
        host_path: Some(ManifestHostPath {
            path: "/etc/kubernetes/scheduler.conf".to_string(),
            path_type: Some("File".to_string()),
        }),
        empty_dir: None,
        config_map: None,
        secret: None,
        persistent_volume_claim: None,
        projected: None,
    }]);
    let pod = src.parse_manifest(&Some(m), "kube-scheduler.yaml").expect("manifest should parse");

    assert_eq!(pod.volumes.len(), 1);
    assert_eq!(pod.volumes[0].name, "kubeconfig");
    match &pod.volumes[0].source {
        VolumeSource::HostPath { path, path_type } => {
            assert_eq!(path, "/etc/kubernetes/scheduler.conf");
            assert_eq!(path_type.as_deref(), Some("File"));
        }
        other => panic!("expected HostPath volume source, got: {:?}", other),
    }

    assert_eq!(pod.containers.len(), 1);
    assert_eq!(pod.containers[0].volume_mounts.len(), 1);
    let vm = &pod.containers[0].volume_mounts[0];
    assert_eq!(vm.name, "kubeconfig");
    assert_eq!(vm.mount_path, "/etc/kubernetes/scheduler.conf");
    assert!(vm.read_only);
}

#[test]
fn test_parse_invalid_yaml_returns_none() {
    let src = source();
    // The text "not: valid: yaml: {{{" is no manifest.
    let result = src.parse_manifest(&None, "bad.yaml");
    assert!(result.is_none());
}

#[test]
fn test_parse_uses_filename_as_fallback_name() {
    let src = source();
    let m = manifest(None, "default", vec![]);
    let pod = src.parse_manifest(&Some(m), "my-static-pod.yaml");
    assert!(pod.is_some());
    assert_eq!(pod.unwrap().pod_ref.name, "my-static-pod-test-node");
}

#[test]
fn test_run_picks_up_manifest_file() {
    let src = FilePodSource::new("/manifests", "node1", 50);
    let path = "/manifests/nginx.yaml";
    assert!(FilePodSource::is_manifest(path));
    let m = manifest(Some("nginx"), "default", vec![container("nginx", "nginx:latest")]);
    let pod = src.parse_manifest(&Some(m), path).unwrap();
    let mut known = KnownManifests::new();
    let update = src.observe(&mut known, path, pod);
    assert_eq!(update.pod.pod_ref.name, "nginx-node1");
    assert_eq!(update.op, PodOperation::Add);
}

fn read(src: &FilePodSource, known: &mut KnownManifests, path: &str, uid: Option<&str>) -> PodOperation {
    let mut m = manifest(Some("p"), "default", vec![]);
    m.metadata.uid = uid.map(|u| u.to_string());
    let pod = src.parse_manifest(&Some(m), path).unwrap();
    src.observe(known, path, pod).op
}

#[test]
fn manifests_are_added_reconciled_updated_and_removed() {
    let src = source();
    let mut known = KnownManifests::new();
    assert_eq!(read(&src, &mut known, "/m/a.yaml", None), PodOperation::Add);
    assert_eq!(read(&src, &mut known, "/m/a.yaml", None), PodOperation::Reconcile);
    assert_eq!(read(&src, &mut known, "/m/a.yaml", Some("u-1")), PodOperation::Update);
    assert!(src.forget_missing(&mut known, &vec!["/m/a.yaml".to_string()]).is_empty());
    let gone = src.forget_missing(&mut known, &vec![]);
    assert_eq!(gone.len(), 1);
    assert_eq!(gone[0].op, PodOperation::Remove);
    assert_eq!(gone[0].pod.uid.0, "u-1");
    assert_eq!(gone[0].pod.pod_ref.name, "p-test-node");
    assert_eq!(gone[0].pod.pod_ref.namespace, "default");
    assert_eq!(read(&src, &mut known, "/m/a.yaml", Some("u-1")), PodOperation::Add);
}

#[test]
fn the_removed_pod_is_the_one_that_was_added() {
    let src = source();
    let mut known = KnownManifests::new();
    let m = manifest(Some("etcd"), "kube-system", vec![]);
    let pod = src.parse_manifest(&Some(m), "/m/00-etcd.yaml").unwrap();
    let added = src.observe(&mut known, "/m/00-etcd.yaml", pod);
    let gone = src.forget_missing(&mut known, &vec![]);
    assert_eq!(gone.len(), 1);
    assert_eq!(gone[0].op, PodOperation::Remove);
    assert_eq!(gone[0].pod.uid, added.pod.uid);
    assert_eq!(gone[0].pod.pod_ref, added.pod.pod_ref);
    assert_eq!(gone[0].pod.pod_ref.namespace, "kube-system");
    assert_eq!(gone[0].pod.pod_ref.name, "etcd-test-node");
    assert!(src.forget_missing(&mut known, &vec![]).is_empty());
}

#[test]
fn derived_identifiers_are_stable() {
    let a = static_pod_uid(&None, "/m/a.yaml");
    assert_eq!(a, static_pod_uid(&None, "/m/a.yaml"));
    assert_ne!(a, static_pod_uid(&None, "/m/b.yaml"));
    assert_eq!(a.0.len(), 36);
    assert_eq!(a.0.as_bytes()[14], b'5');
    assert_eq!(static_pod_uid(&Some("x".to_string()), "/m/a.yaml").0, "x");
    let expected = uuid::Uuid::new_v5(&uuid::Uuid::NAMESPACE_URL, b"/m/a.yaml").to_string();
    assert_eq!(a.0, expected);
}

#[test]
fn only_manifest_files_are_read() {
    assert!(FilePodSource::is_manifest("/m/a.yml"));
    assert!(FilePodSource::is_manifest("/m/a.json"));
    assert!(!FilePodSource::is_manifest("/m/a.txt"));
    assert!(!FilePodSource::is_manifest("/m/yaml"));
    assert!(!FilePodSource::is_json("/m/a.yaml"));
    assert_eq!(source().name(), "file");
}

#[test]
fn policies_of_a_manifest() {
    let src = source();
    let mut c = container("c", "i");
    c.image_pull_policy = Some("Always".to_string());
    let mut m = manifest(Some("p"), "default", vec![c]);
    m.spec.restart_policy = Some("OnFailure".to_string());
    let pod = src.parse_manifest(&Some(m), "/m/p.yaml").unwrap();
    assert_eq!(pod.containers[0].image_pull_policy, ImagePullPolicy::Always);
    assert_eq!(pod.restart_policy, RestartPolicy::OnFailure);
}
