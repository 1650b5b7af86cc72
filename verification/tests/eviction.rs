use kubelet_adapters::decimal::parse_decimal;
use kubelet_adapters::eviction::{
    parse_quantity, EvictionEvaluator, EvictionThreshold, NodeResources, ResourcePressure,
    ThresholdValue,
};
use kubelet_adapters::strmap::StrMap;

fn absolute(t: EvictionThreshold) -> u64 {
    match t.value {
        ThresholdValue::Absolute(n) => n,
        other => panic!("{:?}", other),
    }
}

fn hard(resource: &str, value: &str) -> StrMap<String> {
    let mut m = StrMap::new();
    m.insert(resource.to_string(), value.to_string());
    m
}

fn resources(available_memory_bytes: u64) -> NodeResources {
    NodeResources {
        available_memory_bytes,
        total_memory_bytes: 8 * 1024 * 1024 * 1024,
        available_disk_bytes: 50 * 1024 * 1024 * 1024,
        total_disk_bytes: 100 * 1024 * 1024 * 1024,
        available_pids: 10000,
        total_pids: 32768,
    }
}

#[test]
fn test_parse_percentage_threshold() {
    let t = EvictionThreshold::parse("memory.available", "10%").unwrap();
    assert_eq!(t.resource, "memory.available");
    match t.value {
        // The tenth part of a thousand.
        ThresholdValue::Percentage(p) => assert_eq!(p.times(1000, 2), (1000.0 * 0.1) as u64),
        other => panic!("{:?}", other),
    }
}

#[test]
fn test_parse_mebibyte_threshold() {
    let t = EvictionThreshold::parse("memory.available", "100Mi").unwrap();
    assert_eq!(absolute(t), 100 * 1024 * 1024);
}

#[test]
fn test_parse_gibibyte_threshold() {
    let t = EvictionThreshold::parse("nodefs.available", "1Gi").unwrap();
    assert_eq!(absolute(t), 1024 * 1024 * 1024);
}

#[test]
fn test_parse_kibibyte_threshold() {
    let t = EvictionThreshold::parse("memory.available", "512Ki").unwrap();
    assert_eq!(absolute(t), 512 * 1024);
}

#[test]
fn test_parse_raw_bytes() {
    let t = EvictionThreshold::parse("memory.available", "1073741824").unwrap();
    assert_eq!(absolute(t), 1073741824);
}

#[test]
fn test_threshold_exceeded_absolute() {
    let t = EvictionThreshold {
        resource: "memory.available".to_string(),
        value: ThresholdValue::Absolute(100 * 1024 * 1024),
    };
    assert!(t.is_exceeded(50 * 1024 * 1024, 8 * 1024 * 1024 * 1024));
    assert!(!t.is_exceeded(200 * 1024 * 1024, 8 * 1024 * 1024 * 1024));
}

#[test]
fn mod_test_threshold_exceeded_percentage() {
    let t = EvictionThreshold {
        resource: "nodefs.available".to_string(),
        value: ThresholdValue::Percentage(parse_decimal(&format!("{}", 100.0 * 0.10)).unwrap()),
    };
    let total = 100 * 1024 * 1024 * 1024u64;
    assert!(t.is_exceeded(5 * 1024 * 1024 * 1024, total));
    assert!(!t.is_exceeded(15 * 1024 * 1024 * 1024, total));
}

#[test]
fn test_parse_quantity_ki() {
    assert_eq!(parse_quantity("1Ki"), Some(1024));
    assert_eq!(parse_quantity("1Mi"), Some(1024 * 1024));
    assert_eq!(parse_quantity("1Gi"), Some(1024 * 1024 * 1024));
}

#[test]
fn test_evaluator_no_pressure() {
    let evaluator = EvictionEvaluator::new(&hard("memory.available", "100Mi"), &StrMap::new());
    let resources = NodeResources {
        available_memory_bytes: 500 * 1024 * 1024,
        total_memory_bytes: 8 * 1024 * 1024 * 1024,
        available_disk_bytes: 50 * 1024 * 1024 * 1024,
        total_disk_bytes: 100 * 1024 * 1024 * 1024,
        available_pids: 10000,
        total_pids: 32768,
    };
    let pressure = evaluator.evaluate(&resources);
    assert!(!pressure.memory_pressure);
    assert!(!pressure.disk_pressure);
}

#[test]
fn test_evaluator_memory_pressure() {
    let evaluator = EvictionEvaluator::new(&hard("memory.available", "100Mi"), &StrMap::new());
    let resources = NodeResources {
        available_memory_bytes: 50 * 1024 * 1024,
        total_memory_bytes: 8 * 1024 * 1024 * 1024,
        available_disk_bytes: 50 * 1024 * 1024 * 1024,
        total_disk_bytes: 100 * 1024 * 1024 * 1024,
        available_pids: 10000,
        total_pids: 32768,
    };
    let pressure = evaluator.evaluate(&resources);
    assert!(pressure.memory_pressure);
}

#[test]
fn quantities_may_be_fractions() {
    assert_eq!(parse_quantity("1.5Gi"), Some(1536 * 1024 * 1024));
    assert_eq!(parse_quantity("0.5Ki"), Some(512));
    assert_eq!(parse_quantity("nonsense"), None);
    assert_eq!(parse_quantity("12"), Some(12));
}

#[test]
fn disk_and_process_thresholds() {
    let e = EvictionEvaluator::new(&hard("nodefs.available", "60%"), &StrMap::new());
    assert!(e.evaluate(&resources(0)).disk_pressure);
    let e = EvictionEvaluator::new(&hard("nodefs.available", "50%"), &StrMap::new());
    assert!(!e.evaluate(&resources(0)).disk_pressure);
    let e = EvictionEvaluator::new(&hard("pid.available", "20000"), &StrMap::new());
    assert!(e.evaluate(&resources(0)).pid_pressure);
    let e = EvictionEvaluator::new(&StrMap::new(), &StrMap::new());
    assert_eq!(e.evaluate(&resources(0)), ResourcePressure::default());
}

#[test]
fn more_memory_means_less_pressure() {
    let e = EvictionEvaluator::new(&hard("memory.available", "1Gi"), &StrMap::new());
    let gi = 1024 * 1024 * 1024;
    assert!(e.evaluate(&resources(gi - 1)).memory_pressure);
    assert!(!e.evaluate(&resources(gi)).memory_pressure);
    assert!(!e.evaluate(&resources(gi + 1)).memory_pressure);
}

#[test]
fn decimals_are_exact() {
    assert_eq!(parse_decimal("2.50").unwrap().times(100, 0), 250);
    assert_eq!(parse_decimal("1e3").unwrap().times(1, 0), 1000);
    assert_eq!(parse_decimal("-5").unwrap().times(1, 0), 0);
    assert_eq!(parse_decimal("inf").unwrap().times(1, 0), u64::MAX);
    assert_eq!(parse_decimal("NaN").unwrap().times(1, 0), 0);
    assert!(parse_decimal("1.2.3").is_none());
    assert!(parse_decimal("").is_none());
}
