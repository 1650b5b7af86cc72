use kubelet_adapters::memory_manager::{
    arrange_numa_nodes, discover_numa_nodes, free_memory_kib, numa_cpulist, numa_id,
    numa_meminfo_kib, numa_node, single_numa_node, total_memory_kib, MemoryManager,
    MemoryManagerPolicy, NumaDir, NumaDirs, NumaNode,
};
use kubelet_adapters::types::{PodUID, QosClass};

const GIB: u64 = 1024 * 1024 * 1024;

fn node(id: u32, total_bytes: u64, free_bytes: u64, cpus: Vec<u32>) -> NumaNode {
    NumaNode { id, total_bytes, free_bytes, cpus }
}

fn make_mgr_with_nodes(policy: &str) -> MemoryManager {
    MemoryManager::new(
        policy,
        vec![
            node(0, 8 * 1024 * 1024 * 1024, 8 * 1024 * 1024 * 1024, vec![0, 1, 2, 3]),
            node(1, 8 * 1024 * 1024 * 1024, 4 * 1024 * 1024 * 1024, vec![4, 5, 6, 7]),
        ],
    )
}

#[test]
fn test_none_policy_returns_all_nodes() {
    let mut mgr = make_mgr_with_nodes("None");
    let result = mgr
        .assign(&PodUID::new("uid-1"), "app", QosClass::Guaranteed, 1024 * 1024 * 1024)
        .unwrap();
    assert!(result.contains('0'));
    assert_eq!(result, "0,1");
}

#[test]
fn test_static_policy_guaranteed_pinned() {
    let mut mgr = make_mgr_with_nodes("Static");
    let result = mgr
        .assign(&PodUID::new("uid-2"), "app", QosClass::Guaranteed, 512 * 1024 * 1024)
        .unwrap();
    assert!(!result.is_empty());
    assert_eq!(mgr.assignment_count(), 1);
}

#[test]
fn test_static_policy_burstable_shared() {
    let mut mgr = make_mgr_with_nodes("Static");
    let result = mgr
        .assign(&PodUID::new("uid-3"), "app", QosClass::Burstable, 256 * 1024 * 1024)
        .unwrap();
    assert_eq!(result, "0,1");
    assert_eq!(mgr.assignment_count(), 0);
}

#[test]
fn test_release_returns_memory() {
    let mut mgr = make_mgr_with_nodes("Static");
    let uid = PodUID::new("uid-rel");
    mgr.assign(&uid, "app", QosClass::Guaranteed, 1024 * 1024 * 1024).unwrap();
    assert_eq!(mgr.numa_nodes[0].free_bytes, 7 * GIB);
    mgr.release(&uid, "app");
    assert_eq!(mgr.assignment_count(), 0);
    assert_eq!(mgr.numa_nodes[0].free_bytes, 8 * GIB);
}

#[test]
fn test_static_policy_idempotent() {
    let mut mgr = make_mgr_with_nodes("Static");
    let uid = PodUID::new("uid-idem");
    let r1 = mgr.assign(&uid, "app", QosClass::Guaranteed, 512 * 1024 * 1024).unwrap();
    let r2 = mgr.assign(&uid, "app", QosClass::Guaranteed, 512 * 1024 * 1024).unwrap();
    assert_eq!(r1, r2);
    assert_eq!(mgr.assignment_count(), 1);
}

#[test]
fn test_insufficient_memory_fails() {
    let mut mgr = MemoryManager::new("Static", vec![node(0, 1024, 100, vec![0])]);
    let result = mgr.assign(
        &PodUID::new("uid-oom"),
        "app",
        QosClass::Guaranteed,
        1024 * 1024 * 1024,
    );
    assert!(result.is_err());
    assert_eq!(mgr.numa_nodes[0].free_bytes, 100);
}

#[test]
fn node_files_are_read() {
    let text = "Node 0 MemTotal:       16384 kB\nNode 0 MemFree:        4096 kB\n";
    assert_eq!(numa_meminfo_kib(text, "MemTotal:"), Some(16384));
    assert_eq!(numa_meminfo_kib(text, "MemFree:"), Some(4096));
    assert_eq!(numa_meminfo_kib(text, "Nothing:"), None);
    assert_eq!(numa_cpulist("0-2,5\n"), vec![0, 1, 2, 5]);
    assert_eq!(numa_id("node3"), Some(3));
    assert_eq!(numa_id("cpu3"), None);
}

#[test]
fn nodes_are_in_the_order_of_their_numbers() {
    let nodes = vec![node(1, 1, 1, vec![]), node(0, 2, 2, vec![])];
    let arranged = arrange_numa_nodes(nodes);
    assert_eq!(arranged[0].id, 0);
    assert_eq!(arranged[1].id, 1);
    assert!(arrange_numa_nodes(vec![]).is_empty());
}

fn dir(name: &str, meminfo: Option<&str>, cpulist: Option<&str>) -> NumaDir {
    NumaDir {
        name: name.to_string(),
        meminfo: meminfo.map(|s| s.to_string()),
        cpulist: cpulist.map(|s| s.to_string()),
    }
}

#[test]
fn directories_are_read_as_nodes() {
    let text = "Node 1 MemTotal: 16 kB\nNode 1 MemFree: 4 kB\n";
    let n = numa_node(&dir("node1", Some(text), Some("4-6\n"))).unwrap();
    assert_eq!((n.id, n.total_bytes, n.free_bytes), (1, 16384, 4096));
    assert_eq!(n.cpus, vec![4, 5, 6]);
    let n = numa_node(&dir("node2", None, None)).unwrap();
    assert_eq!((n.id, n.total_bytes, n.free_bytes), (2, 0, 0));
    assert!(n.cpus.is_empty());
    assert!(numa_node(&dir("power", Some(text), None)).is_none());
}

#[test]
fn machines_without_nodes_are_one_node() {
    let meminfo = Some("MemTotal: 8 kB\nMemAvailable: 2 kB\n".to_string());
    let n = single_numa_node(&meminfo, Some(3));
    assert_eq!((n.id, n.total_bytes, n.free_bytes), (0, 8192, 2048));
    assert_eq!(n.cpus, vec![0, 1, 2]);
    let n = single_numa_node(&None, None);
    assert_eq!((n.total_bytes, n.free_bytes), (8 * GIB, 4 * GIB));
    assert_eq!(n.cpus, vec![0]);

    assert_eq!(discover_numa_nodes(&NumaDirs::Absent, &meminfo, None)[0].total_bytes, 8192);
    assert!(discover_numa_nodes(&NumaDirs::Unreadable, &meminfo, None).is_empty());
    let other = NumaDirs::Found(vec![dir("power", None, None)]);
    assert_eq!(discover_numa_nodes(&other, &meminfo, None).len(), 1);
    let found = NumaDirs::Found(vec![
        dir("node1", None, Some("2-3")),
        dir("online", None, None),
        dir("node0", None, Some("0-1")),
    ]);
    let nodes = discover_numa_nodes(&found, &meminfo, None);
    assert_eq!(nodes.len(), 2);
    assert_eq!(nodes[0].cpus, vec![0, 1]);
    assert_eq!(nodes[1].cpus, vec![2, 3]);
}

#[test]
fn memory_of_the_whole_system() {
    let text = Some("MemTotal: 2048 kB\nMemAvailable: 1024 kB\nMemFree: 512 kB\n".to_string());
    assert_eq!(total_memory_kib(&text), 2048);
    assert!(free_memory_kib(&text) > 0);
    assert_eq!(MemoryManagerPolicy::parse("Static"), MemoryManagerPolicy::Static);
    assert_eq!(MemoryManagerPolicy::parse("x"), MemoryManagerPolicy::NonePolicy);
}

#[test]
fn utilization_is_the_part_that_is_not_free() {
    let u = node(0, 8 * GIB, 6 * GIB, vec![]).utilization();
    assert_eq!(u.used as f64 / u.total as f64, 0.25);
    let u = node(0, 8 * GIB, 0, vec![]).utilization();
    assert_eq!(u.used as f64 / u.total as f64, 1.0);
    let u = node(0, 0, 0, vec![]).utilization();
    assert_eq!(u.used as f64 / u.total as f64, 0.0);
    assert_eq!(make_mgr_with_nodes("Static").numa_node_count(), 2);
}

#[test]
fn memory_is_pinned_to_the_least_utilized_node() {
    let uid = PodUID::new("uid-best");
    let assign = |nodes: Vec<NumaNode>, bytes: u64| {
        MemoryManager::new("Static", nodes).assign(&uid, "app", QosClass::Guaranteed, bytes)
    };
    let nodes = || vec![node(0, 8 * GIB, 4 * GIB, vec![]), node(1, 8 * GIB, 8 * GIB, vec![])];
    assert_eq!(assign(nodes(), GIB).unwrap(), "1");
    assert_eq!(assign(nodes(), 6 * GIB).unwrap(), "1");
    assert!(assign(nodes(), 9 * GIB).is_err());
    // A quarter of a large node is more than a fifth of a small one.
    let nodes = vec![node(0, 40 * GIB, 30 * GIB, vec![]), node(1, 5 * GIB, 4 * GIB, vec![])];
    assert_eq!(assign(nodes, GIB).unwrap(), "1");
    // Only a node with enough free memory comes into question.
    let nodes = vec![node(0, 40 * GIB, 30 * GIB, vec![]), node(1, 5 * GIB, 4 * GIB, vec![])];
    assert_eq!(assign(nodes, 5 * GIB).unwrap(), "0");
    // Among equals the first one is taken.
    let nodes = vec![node(3, 8 * GIB, 4 * GIB, vec![]), node(5, 4 * GIB, 2 * GIB, vec![])];
    assert_eq!(assign(nodes, GIB).unwrap(), "3");
    assert!(node(0, 0, 0, vec![]).is_less_used(&node(1, 2, 1, vec![])));
    assert!(!node(0, u64::MAX, 1, vec![]).is_less_used(&node(1, u64::MAX, 1, vec![])));
}
