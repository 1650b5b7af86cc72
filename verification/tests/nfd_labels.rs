use kubelet_adapters::nfd::labels::{
    features_to_extended_resources, features_to_labels, labels_written, write_node_labels,
};
use kubelet_adapters::nfd::NodeFeatures;
use kubelet_adapters::strmap::StrMap;

fn sample_features() -> NodeFeatures {
    let mut hugepages = StrMap::new();
    hugepages.insert("2048".to_string(), 10);
    NodeFeatures {
        cpu_flags: vec!["avx2".to_string(), "aes".to_string(), "sse4_2".to_string()],
        cpu_cores: 4,
        cpu_threads: 8,
        cpu_model: "Intel Core i7".to_string(),
        memory_bytes: 16 * 1024 * 1024 * 1024,
        hugepages,
        kernel_version: "6.8.0-100-generic".to_string(),
        os_image: "ubuntu".to_string(),
        architecture: "x86_64".to_string(),
        nvidia_gpu_count: 2,
        container_runtime_version: "containerd://1.7.0".to_string(),
        extended_resources: Default::default(),
        labels: Default::default(),
    }
}

fn get<'a>(labels: &'a StrMap<String>, k: &str) -> &'a str {
    labels.get(k).unwrap()
}

#[test]
fn test_features_to_labels_cpu_flags() {
    let features = sample_features();
    let labels = features_to_labels(&features);
    assert!(labels.contains_key("feature.node.kubernetes.io/cpu-avx2"));
    assert_eq!(get(&labels, "feature.node.kubernetes.io/cpu-avx2"), "true");
}

#[test]
fn test_features_to_labels_kernel_version() {
    let features = sample_features();
    let labels = features_to_labels(&features);
    assert!(labels.contains_key("feature.node.kubernetes.io/kernel-version.full"));
    assert!(labels.contains_key("feature.node.kubernetes.io/kernel-version.major"));
    assert_eq!(get(&labels, "feature.node.kubernetes.io/kernel-version.major"), "6");
}

#[test]
fn test_features_to_labels_gpu() {
    let features = sample_features();
    let labels = features_to_labels(&features);
    assert_eq!(get(&labels, "nvidia.com/gpu.present"), "true");
    assert_eq!(get(&labels, "nvidia.com/gpu.count"), "2");
}

#[test]
fn test_features_to_labels_hugepages() {
    let features = sample_features();
    let labels = features_to_labels(&features);
    assert!(labels.contains_key("feature.node.kubernetes.io/hugepages-2048kB"));
}

#[test]
fn test_features_to_extended_resources() {
    let features = sample_features();
    let resources = features_to_extended_resources(&features);
    assert_eq!(*resources.get("nvidia.com/gpu").unwrap(), 2);
    assert_eq!(*resources.get("hugepages-2048kB").unwrap(), 10);
}

#[test]
fn test_multithreading_label() {
    let features = sample_features();
    let labels = features_to_labels(&features);
    assert_eq!(get(&labels, "feature.node.kubernetes.io/cpu-hardware_multithreading"), "true");
}

#[test]
fn flags_lose_their_underscores() {
    let labels = features_to_labels(&sample_features());
    assert!(labels.contains_key("feature.node.kubernetes.io/cpu-sse4-2"));
    assert!(!labels.contains_key("feature.node.kubernetes.io/cpu-sse4_2"));
}

#[test]
fn nodes_without_devices_announce_none() {
    let mut f = sample_features();
    f.nvidia_gpu_count = 0;
    f.cpu_threads = 4;
    f.hugepages.insert("2048".to_string(), 0);
    let labels = features_to_labels(&f);
    assert!(!labels.contains_key("nvidia.com/gpu.present"));
    assert!(!labels.contains_key("feature.node.kubernetes.io/hugepages-2048kB"));
    assert_eq!(get(&labels, "feature.node.kubernetes.io/cpu-hardware_multithreading"), "false");
    assert!(features_to_extended_resources(&f).is_empty());
}

#[test]
fn labels_are_sent_as_a_patch() {
    let mut labels = StrMap::new();
    labels.insert("a".to_string(), "b".to_string());
    assert!(write_node_labels("node1", &labels, false).is_none());
    let patch = write_node_labels("node1", &labels, true).unwrap();
    assert_eq!(patch.get("kind").unwrap().as_str().unwrap(), "Node");
    let metadata = patch.get("metadata").unwrap();
    assert_eq!(metadata.get("name").unwrap().as_str().unwrap(), "node1");
    assert_eq!(metadata.get("labels").unwrap().get("a").unwrap().as_str().unwrap(), "b");
    assert!(labels_written(&Ok(())).is_ok());
    let e = labels_written(&Err("x".to_string())).unwrap_err();
    assert_eq!(e.message(), "PATCH node labels: x");
}
