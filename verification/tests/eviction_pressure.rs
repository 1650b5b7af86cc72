use kubelet_adapters::eviction::pressure::{
    collect_signals, evaluate_pressure, parse_bytes, threshold_exceeded, FsStat, KernelFacts,
    PressureConditions, ResourceSignals,
};
use kubelet_adapters::strmap::StrMap;

#[test]
fn test_threshold_exceeded_absolute_bytes() {
    assert!(threshold_exceeded(50 * 1024 * 1024, 0, "100Mi"));
    assert!(!threshold_exceeded(200 * 1024 * 1024, 0, "100Mi"));
}

#[test]
fn pressure_test_threshold_exceeded_percentage() {
    let total = 100 * 1024 * 1024 * 1024u64;
    let avail = total / 20;
    assert!(threshold_exceeded(avail, total, "10%"));
    let avail15 = total * 15 / 100;
    assert!(!threshold_exceeded(avail15, total, "10%"));
}

#[test]
fn test_evaluate_pressure_memory() {
    let mut eviction_hard = StrMap::new();
    eviction_hard.insert("memory.available".to_string(), "200Mi".to_string());
    let signals = ResourceSignals {
        memory_available_bytes: 50 * 1024 * 1024,
        ..Default::default()
    };
    let conditions = evaluate_pressure(&signals, &eviction_hard);
    assert!(conditions.memory_pressure);
}

#[test]
fn test_evaluate_pressure_no_pressure() {
    let mut eviction_hard = StrMap::new();
    eviction_hard.insert("memory.available".to_string(), "100Mi".to_string());
    let signals = ResourceSignals {
        memory_available_bytes: 4 * 1024 * 1024 * 1024,
        ..Default::default()
    };
    let conditions = evaluate_pressure(&signals, &eviction_hard);
    assert!(!conditions.memory_pressure);
}

fn nothing() -> KernelFacts {
    KernelFacts { meminfo: None, nodefs: None, imagefs: None, pid_max: None, proc_names: vec![] }
}

#[test]
fn test_collect_signals_no_panic() {
    // Facts that a node without "/var/lib/kubelet" and "/var/lib/containerd" gives.
    let _ = collect_signals(&nothing());
}

#[test]
fn test_parse_bytes_formats() {
    assert_eq!(parse_bytes("100Mi"), 100 * 1024 * 1024);
    assert_eq!(parse_bytes("1Gi"), 1024 * 1024 * 1024);
    assert_eq!(parse_bytes("500Ki"), 500 * 1024);
}

#[test]
fn signals_come_from_the_kernel() {
    let facts = KernelFacts {
        meminfo: Some("MemTotal: 9 kB\nMemAvailable:    2048 kB\n".to_string()),
        nodefs: Some(FsStat {
            block_bytes: 4096,
            blocks_available: 10,
            inodes_free: 7,
            blocks_total: 100,
        }),
        imagefs: Some(FsStat {
            block_bytes: 512,
            blocks_available: 4,
            inodes_free: 1,
            blocks_total: 8,
        }),
        pid_max: Some("100\n".to_string()),
        proc_names: vec!["1".to_string(), "22".to_string(), "self".to_string()],
    };
    let s = collect_signals(&facts);
    assert_eq!(s.memory_available_bytes, 2048 * 1024);
    assert_eq!(s.nodefs_available_bytes, 40960);
    assert_eq!(s.nodefs_total_bytes, 409600);
    assert_eq!(s.nodefs_inodes_free, 7);
    assert_eq!(s.imagefs_available_bytes, 2048);
    assert_eq!(s.imagefs_total_bytes, 4096);
    assert_eq!(s.pid_available, 98);
}

#[test]
fn without_thresholds_there_is_no_pressure() {
    let c = evaluate_pressure(&ResourceSignals::default(), &StrMap::new());
    assert_eq!(c, PressureConditions::default());
}

#[test]
fn disk_and_process_pressure() {
    let mut hard = StrMap::new();
    hard.insert("nodefs.available".to_string(), "10%".to_string());
    hard.insert("pid.available".to_string(), "10".to_string());
    let signals = ResourceSignals {
        nodefs_available_bytes: 9,
        nodefs_total_bytes: 100,
        pid_available: 10,
        ..Default::default()
    };
    let c = evaluate_pressure(&signals, &hard);
    assert!(c.disk_pressure);
    assert!(!c.pid_pressure);
}
