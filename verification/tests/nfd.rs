use kubelet_adapters::nfd::{
    detect_nvidia_gpus, FeatureScanner, HugepageDir, NodeFeatures, SystemFacts,
};

fn facts() -> SystemFacts {
    SystemFacts {
        cpuinfo: Some(
            "processor\t: 0
vendor_id\t: GenuineIntel
cpu family\t: 6
model name\t: Intel(R) Core(TM) i7-9750H CPU @ 2.60GHz
core id\t\t: 0
flags\t\t: fpu vme de pse avx avx2 aes

processor\t: 1
core id\t\t: 1
model name\t: Intel(R) Core(TM) i7-9750H CPU @ 2.60GHz
flags\t\t: fpu vme de pse avx avx2 aes

"
            .to_string(),
        ),
        meminfo: Some("MemTotal:       16384000 kB\nMemFree:        8000000 kB\n".to_string()),
        hugepages: Some(vec![HugepageDir {
            name: "hugepages-2048kB".to_string(),
            count: Some("4\n".to_string()),
        }]),
        version: Some("Linux version 6.1.0-generic (gcc version 12.2.0)".to_string()),
        os_release: None,
        arch: "x86_64".to_string(),
        os: "linux".to_string(),
    }
}

fn scan() -> NodeFeatures {
    FeatureScanner::with_root("/root").scan(&facts())
}

#[test]
fn test_scan_cpu_flags() {
    let features = scan();
    assert!(features.cpu_flags.contains(&"avx".to_string()));
    assert!(features.cpu_flags.contains(&"avx2".to_string()));
    assert!(features.cpu_flags.contains(&"aes".to_string()));
}

#[test]
fn test_scan_cpu_thread_count() {
    let features = scan();
    assert_eq!(features.cpu_threads, 2);
}

#[test]
fn test_scan_memory() {
    let features = scan();
    assert_eq!(features.memory_bytes, 16384000 * 1024);
}

#[test]
fn test_scan_hugepages() {
    let features = scan();
    assert_eq!(*features.hugepages.get("2048kB").unwrap(), 4);
}

#[test]
fn test_scan_kernel_version() {
    let features = scan();
    assert_eq!(features.kernel_version, "6.1.0-generic");
}

#[test]
fn test_features_to_labels() {
    let mut features = NodeFeatures {
        cpu_flags: vec!["avx".to_string(), "avx2".to_string()],
        architecture: "amd64".to_string(),
        ..Default::default()
    };
    features.hugepages.insert("2048kB".to_string(), 8);
    let labels = features.to_labels();
    assert!(labels.contains_key("feature.node.kubernetes.io/cpu-cpuid.AVX"));
    assert!(labels.contains_key("feature.node.kubernetes.io/cpu-cpuid.AVX2"));
    assert!(labels.contains_key("feature.node.kubernetes.io/memory-numa.hugepages-2048kB"));
}

#[test]
fn test_extended_resources_empty() {
    let features = NodeFeatures::default();
    assert!(features.to_extended_resources().is_empty());
}

#[test]
fn test_extended_resources_with_gpu() {
    let mut features = NodeFeatures::default();
    features.extended_resources.insert("nvidia.com/gpu".to_string(), 2);
    let resources = features.to_extended_resources();
    assert_eq!(*resources.get("nvidia.com/gpu").unwrap(), 2);
}

#[test]
fn test_cpu_model_extracted() {
    let features = scan();
    assert!(features.cpu_model.contains("i7-9750H"));
}

#[test]
fn test_detect_nvidia_gpus_zero_without_driver() {
    let count = detect_nvidia_gpus(&None);
    assert_eq!(count, 0);
    assert_eq!(detect_nvidia_gpus(&Some(vec!["0000:01:00.0".to_string()])), 1);
}

#[test]
fn cores_are_counted_once() {
    let mut f = facts();
    f.cpuinfo = Some("processor: 0\ncore id: 0\nprocessor: 1\ncore id: 0\n".to_string());
    let features = FeatureScanner::new().scan(&f);
    assert_eq!(features.cpu_threads, 2);
    assert_eq!(features.cpu_cores, 1);
    f.cpuinfo = Some("processor: 0\nprocessor: 1\nFeatures : fp asimd\n".to_string());
    let features = FeatureScanner::new().scan(&f);
    assert_eq!(features.cpu_cores, 2);
    assert_eq!(features.cpu_flags, vec!["fp".to_string(), "asimd".to_string()]);
}

#[test]
fn systems_that_tell_nothing() {
    let f = SystemFacts {
        cpuinfo: None,
        meminfo: None,
        hugepages: None,
        version: None,
        os_release: None,
        arch: "riscv64".to_string(),
        os: "linux".to_string(),
    };
    let features = FeatureScanner::new().scan(&f);
    assert_eq!(features.cpu_threads, 0);
    assert_eq!(features.memory_bytes, 0);
    assert_eq!(features.kernel_version, "");
    assert_eq!(features.os_image, "linux");
    assert_eq!(features.architecture, "riscv64");
    assert!(features.hugepages.is_empty());
}

#[test]
fn operating_systems_have_pretty_names() {
    let mut f = facts();
    f.os_release = Some("NAME=x\nPRETTY_NAME=\"Debian 12\"\n".to_string());
    assert_eq!(FeatureScanner::new().scan(&f).os_image, "Debian 12");
    f.os_release = Some("PRETTY_NAME=\"\"\n".to_string());
    assert_eq!(FeatureScanner::new().scan(&f).os_image, "linux");
    f.version = Some("Linux".to_string());
    assert_eq!(FeatureScanner::new().scan(&f).kernel_version, "unknown");
}

#[test]
fn labels_tell_counts_and_architecture() {
    let mut features = NodeFeatures {
        architecture: "amd64".to_string(),
        ..Default::default()
    };
    features.hugepages.insert("2048kB".to_string(), 8);
    features.hugepages.insert("1048576kB".to_string(), 0);
    features.labels.insert("own".to_string(), "label".to_string());
    let labels = features.to_labels();
    let prefix = "feature.node.kubernetes.io";
    let pages = format!("{}/memory-numa.hugepages-2048kB", prefix);
    assert_eq!(labels.get(&pages).unwrap(), "8");
    let id = format!("{}/system-os_release.ID", prefix);
    assert_eq!(labels.get(&id).unwrap(), "amd64");
    assert_eq!(labels.get("own").unwrap(), "label");
    assert_eq!(labels.len(), 3);
}

#[test]
fn files_are_below_the_root() {
    let s = FeatureScanner::with_root("/r");
    assert_eq!(s.cpuinfo_path(), "/r/proc/cpuinfo");
    assert_eq!(s.meminfo_path(), "/r/proc/meminfo");
    assert_eq!(s.version_path(), "/r/proc/version");
    assert_eq!(s.hugepages_path(), "/r/sys/kernel/mm/hugepages");
    assert_eq!(FeatureScanner::default().cpuinfo_path(), "/proc/cpuinfo");
}
