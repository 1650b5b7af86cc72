use kubelet_adapters::cgroup::{
    shares_to_weight, weight_to_shares, CgroupManager, CgroupPath, CgroupResources,
};
use kubelet_adapters::fileops::FileOp;
use kubelet_adapters::types::{PodUID, QosClass};
use std::collections::BTreeSet;

fn writes(ops: &[FileOp]) -> Vec<(String, String)> {
    let mut out = Vec::new();
    for op in ops {
        if let FileOp::Write { path, content } = op {
            let name = path.rsplit('/').next().unwrap().to_string();
            out.push((name, content.clone()));
        }
    }
    out
}

fn apply(dirs: &mut BTreeSet<String>, ops: &[FileOp]) {
    for op in ops {
        match op {
            FileOp::CreateDir { path } => {
                dirs.insert(path.clone());
            }
            FileOp::RemoveDir { path } => {
                dirs.remove(path);
            }
            _ => {}
        }
    }
}

#[test]
fn test_cgroup_path_structure() {
    let paths = CgroupPath::new("/sys/fs/cgroup");
    assert_eq!(paths.kubepods(), "/sys/fs/cgroup/kubepods.slice");
}

#[test]
fn test_qos_slice_names() {
    let paths = CgroupPath::new("/sys/fs/cgroup");
    assert!(paths.qos_slice(&QosClass::Guaranteed).contains("guaranteed"));
    assert!(paths.qos_slice(&QosClass::Burstable).contains("burstable"));
    assert!(paths.qos_slice(&QosClass::BestEffort).contains("besteffort"));
}

#[test]
fn test_pod_slice_contains_uid() {
    let paths = CgroupPath::new("/sys/fs/cgroup");
    let uid = PodUID::new("abc-123-def");
    let slice_str = paths.pod_slice(&QosClass::Guaranteed, &uid);
    assert!(slice_str.contains("abc") && slice_str.contains("guaranteed"));
}

#[test]
fn test_container_scope() {
    let paths = CgroupPath::new("/sys/fs/cgroup");
    let uid = PodUID::new("test-uid");
    let scope = paths.container_scope(&QosClass::Burstable, &uid, "deadbeef123");
    assert!(scope.contains("cri-containerd-deadbeef123"));
}

#[test]
fn test_shares_to_weight_normal() {
    assert_eq!(shares_to_weight(1024), 100);
}

#[test]
fn test_shares_to_weight_min() {
    assert_eq!(shares_to_weight(2), 1);
}

#[test]
fn test_weight_to_shares_normal() {
    assert_eq!(weight_to_shares(100), 1024);
}

#[test]
fn test_cgroup_resources_for_best_effort() {
    let r = CgroupResources::for_qos(&QosClass::BestEffort);
    assert_eq!(r.cpu_shares, Some(2));
    assert_eq!(r.oom_score_adj, Some(1000));
    assert!(r.memory_limit_bytes.is_none());
}

#[test]
fn test_cgroup_resources_for_guaranteed() {
    let r = CgroupResources::for_qos(&QosClass::Guaranteed);
    assert_eq!(r.oom_score_adj, Some(-997));
}

#[test]
fn test_create_pod_cgroup_dry_run() {
    let mgr = CgroupManager::new("/sys/fs/cgroup", true);
    let uid = PodUID::new("uid-cg-1");
    assert!(mgr.create_pod_cgroup(&QosClass::Burstable, &uid).is_empty());
}

fn limits() -> CgroupResources {
    CgroupResources {
        cpu_quota_us: Some(50_000),
        cpu_period_us: Some(100_000),
        cpu_shares: Some(1024),
        memory_limit_bytes: Some(512 * 1024 * 1024),
        ..Default::default()
    }
}

#[test]
fn test_apply_resources_dry_run() {
    let mgr = CgroupManager::new("/sys/fs/cgroup", true);
    let uid = PodUID::new("uid-cg-2");
    let resources = CgroupResources {
        cpu_quota_us: Some(50_000),
        cpu_period_us: Some(100_000),
        cpu_shares: Some(1024),
        memory_limit_bytes: Some(512 * 1024 * 1024),
        ..Default::default()
    };
    assert!(mgr.apply_resources(&QosClass::Guaranteed, &uid, "ctr-abc", &resources).is_empty());
}

#[test]
fn test_create_and_remove_pod_cgroup_real() {
    let mgr = CgroupManager::new("/tmp/cgroup", false);
    let uid = PodUID::new("uid-cg-3");
    let mut dirs = BTreeSet::new();
    apply(&mut dirs, &mgr.create_pod_cgroup(&QosClass::BestEffort, &uid));
    let cgroup_path = mgr.paths.pod_slice(&QosClass::BestEffort, &uid);
    assert!(dirs.contains(&cgroup_path));
    apply(&mut dirs, &mgr.remove_pod_cgroup(&QosClass::BestEffort, &uid, true));
    assert!(!dirs.contains(&cgroup_path));
}

#[test]
fn limits_are_written_to_their_files() {
    let mgr = CgroupManager::new("/sys/fs/cgroup", false);
    let uid = PodUID::new("uid-cg-4");
    let ops = mgr.apply_resources(&QosClass::Guaranteed, &uid, "ctr-abc", &limits());
    assert!(matches!(&ops[0], FileOp::CreateDir { path } if path.contains("ctr-abc")));
    assert_eq!(
        writes(&ops),
        vec![
            ("cpu.max".to_string(), "50000 100000".to_string()),
            ("cpu.weight".to_string(), "100".to_string()),
            ("memory.max".to_string(), "536870912".to_string()),
        ]
    );
}

#[test]
fn no_limit_is_written_as_max() {
    let mgr = CgroupManager::new("/sys/fs/cgroup", false);
    let uid = PodUID::new("uid-cg-5");
    let resources = CgroupResources {
        cpu_quota_us: Some(-1),
        cpu_period_us: Some(100_000),
        memory_high_bytes: Some(-1),
        pids_max: Some(64),
        ..Default::default()
    };
    let ops = mgr.apply_resources(&QosClass::Burstable, &uid, "c", &resources);
    assert_eq!(
        writes(&ops),
        vec![
            ("cpu.max".to_string(), "max 100000".to_string()),
            ("memory.high".to_string(), "max".to_string()),
            ("pids.max".to_string(), "64".to_string()),
        ]
    );
}

#[test]
fn the_swap_limit_is_written() {
    let mgr = CgroupManager::new("/sys/fs/cgroup", false);
    let uid = PodUID::new("uid-cg-7");
    let swap = |bytes: i64| CgroupResources { memory_swap_bytes: Some(bytes), ..Default::default() };
    let ops = mgr.apply_resources(&QosClass::Burstable, &uid, "c", &swap(1_048_576));
    assert_eq!(writes(&ops), vec![("memory.swap.max".to_string(), "1048576".to_string())]);
    let ops = mgr.apply_resources(&QosClass::Burstable, &uid, "c", &swap(0));
    assert_eq!(writes(&ops), vec![("memory.swap.max".to_string(), "0".to_string())]);
    let ops = mgr.apply_resources(&QosClass::Burstable, &uid, "c", &swap(-1));
    assert_eq!(writes(&ops), vec![("memory.swap.max".to_string(), "max".to_string())]);
}

#[test]
fn pod_memory_limits_include_the_overhead() {
    let mgr = CgroupManager::new("/sys/fs/cgroup", false);
    let uid = PodUID::new("uid-cg-6");
    let ops = mgr.create_pod_cgroup_with_memory_limit(&QosClass::Burstable, &uid, 1000, 24);
    assert_eq!(writes(&ops), vec![("memory.max".to_string(), "1024".to_string())]);
    let ops = mgr.create_pod_cgroup_with_memory_limit(&QosClass::Burstable, &uid, 0, 0);
    assert!(writes(&ops).is_empty());
    let ops = mgr.create_pod_cgroup_with_memory_limit(&QosClass::Burstable, &uid, i64::MAX, 1);
    assert_eq!(writes(&ops), vec![("memory.max".to_string(), i64::MAX.to_string())]);
}

#[test]
fn nothing_is_removed_that_is_not_there() {
    let mgr = CgroupManager::new("/sys/fs/cgroup", false);
    assert!(mgr.remove_pod_cgroup(&QosClass::Burstable, &PodUID::new("x"), false).is_empty());
}

#[test]
fn weights_are_limited() {
    assert_eq!(shares_to_weight(0), 1);
    assert_eq!(shares_to_weight(u64::MAX), 10000);
    assert_eq!(weight_to_shares(1), 10);
    assert!(shares_to_weight(512) <= shares_to_weight(513));
}

#[test]
fn control_files_are_below_their_group() {
    let mgr = CgroupManager::new("/sys/fs/cgroup", false);
    assert_eq!(mgr.control_file("/a/b", "memory.current"), "/a/b/memory.current");
    assert_eq!(mgr.read_cgroup_file(" 12\n"), "12");
    assert_eq!(mgr.cgroup_root(), "/sys/fs/cgroup");
}
