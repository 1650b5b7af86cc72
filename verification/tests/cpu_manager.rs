use kubelet_adapters::cpu_manager::{CpuManager, CpuManagerPolicy, CpuSet};
use kubelet_adapters::fileops::FileOp;
use kubelet_adapters::json::JsonValue;
use kubelet_adapters::types::{PodUID, QosClass};

#[test]
fn test_cpuset_parse_single() {
    let cs = CpuSet::parse("0").unwrap();
    assert_eq!(cs.len(), 1);
    assert!(cs.contains(0));
}

#[test]
fn test_cpuset_parse_range() {
    let cs = CpuSet::parse("0-3").unwrap();
    assert_eq!(cs.len(), 4);
    assert!(cs.contains(2));
}

#[test]
fn test_cpuset_parse_mixed() {
    let cs = CpuSet::parse("0-1,4,6-7").unwrap();
    assert_eq!(cs.len(), 5);
    assert!(cs.contains(4));
    assert!(!cs.contains(2));
}

#[test]
fn test_cpuset_to_string_single() {
    let cs = CpuSet::new(vec![5]);
    assert_eq!(cs.to_cpuset_string(), "5");
}

#[test]
fn test_cpuset_to_string_range() {
    let cs = CpuSet::from_range(0, 3);
    assert_eq!(cs.to_cpuset_string(), "0-3");
}

#[test]
fn test_cpuset_to_string_mixed() {
    let cs = CpuSet::new(vec![0, 1, 4, 6, 7]);
    assert_eq!(cs.to_cpuset_string(), "0-1,4,6-7");
}

#[test]
fn test_cpuset_take() {
    let mut pool = CpuSet::from_range(0, 7);
    let taken = pool.take(2).unwrap();
    assert_eq!(taken.len(), 2);
    assert_eq!(pool.len(), 6);
}

#[test]
fn test_cpuset_take_too_many_returns_none() {
    let mut pool = CpuSet::from_range(0, 1);
    assert!(pool.take(5).is_none());
    assert_eq!(pool.len(), 2);
}

#[test]
fn test_none_policy_returns_all_cpus() {
    let total = CpuSet::from_range(0, 7);
    let mut mgr = CpuManager::new("none", total.copied(), CpuSet::new(vec![]));
    let assigned = mgr
        .assign(&PodUID::new("uid-1"), "nginx", QosClass::BestEffort, 250)
        .unwrap();
    assert_eq!(assigned.len(), 8);
}

#[test]
fn test_static_policy_guaranteed_exclusive() {
    let total = CpuSet::from_range(0, 7);
    let reserved = CpuSet::new(vec![0, 1]);
    let mut mgr = CpuManager::new("static", total, reserved);
    let assigned = mgr
        .assign(&PodUID::new("uid-g"), "app", QosClass::Guaranteed, 2000)
        .unwrap();
    assert_eq!(assigned.len(), 2);
    assert!(mgr.assignment_count() == 1);
    assert_eq!(mgr.available_count(), 4);
    assert_eq!(assigned.to_vec(), vec![2, 3]);
}

#[test]
fn test_static_policy_burstable_shares_pool() {
    let total = CpuSet::from_range(0, 7);
    let mut mgr = CpuManager::new("static", total.copied(), CpuSet::new(vec![]));
    let assigned = mgr
        .assign(&PodUID::new("uid-b"), "app", QosClass::Burstable, 500)
        .unwrap();
    assert_eq!(assigned.len(), 8);
    assert_eq!(mgr.assignment_count(), 0);
}

#[test]
fn test_static_policy_release_returns_cpus() {
    let total = CpuSet::from_range(0, 7);
    let mut mgr = CpuManager::new("static", total, CpuSet::new(vec![]));
    let uid = PodUID::new("uid-rel");
    mgr.assign(&uid, "app", QosClass::Guaranteed, 2000).unwrap();
    assert_eq!(mgr.available_count(), 6);
    mgr.release(&uid, "app");
    assert_eq!(mgr.available_count(), 8);
}

#[test]
fn test_static_policy_insufficient_cpus_errors() {
    let total = CpuSet::from_range(0, 1);
    let mut mgr = CpuManager::new("static", total, CpuSet::new(vec![]));
    let result = mgr.assign(&PodUID::new("uid-big"), "app", QosClass::Guaranteed, 4000);
    assert!(result.is_err());
    assert_eq!(mgr.available_count(), 2);
}

#[test]
fn test_cpuset_roundtrip_parse_format() {
    let original = "0-1,4,6-7";
    let cs = CpuSet::parse(original).unwrap();
    assert_eq!(cs.to_cpuset_string(), original);
}

#[test]
fn test_save_checkpoint() {
    let total = CpuSet::from_range(0, 3);
    let mgr = CpuManager::new("static", total, CpuSet::new(vec![]));
    let ops = mgr.save_checkpoint("/var/lib/kubelet/cpu_manager_state");
    assert_eq!(ops.len(), 1);
    let loaded = match &ops[0] {
        FileOp::Write { path, content } => {
            assert_eq!(path, "/var/lib/kubelet/cpu_manager_state");
            CpuManager::load_checkpoint(&Some(content.clone()))
        }
        other => panic!("{:?}", other),
    };
    assert!(loaded.is_some());
    let val = loaded.unwrap();
    assert_eq!(val.get("policyName").unwrap().as_str().unwrap(), "static");
}

fn saved(mgr: &CpuManager) -> String {
    match &mgr.save_checkpoint("/s")[0] {
        FileOp::Write { content, .. } => content.clone(),
        other => panic!("{:?}", other),
    }
}

#[test]
fn saved_states_hold_the_assignments() {
    let mut mgr = CpuManager::new("static", CpuSet::from_range(0, 3), CpuSet::default());
    mgr.assign(&PodUID::new("u"), "c\"1", QosClass::Guaranteed, 2000).unwrap();
    let text = saved(&mgr);
    assert_eq!(
        text,
        "{\n  \"cpuAssignments\": [\n    {\n      \"container_name\": \"c\\\"1\",\n      \
         \"cpus\": [\n        0,\n        1\n      ],\n      \"exclusive\": true,\n      \
         \"pod_uid\": \"u\"\n    }\n  ],\n  \"defaultCpuSet\": \"2-3\",\n  \
         \"policyName\": \"static\"\n}"
    );
    let val = CpuManager::load_checkpoint(&Some(text)).unwrap();
    assert_eq!(val.get("defaultCpuSet").unwrap().as_str().unwrap(), "2-3");
    let all = val.get("cpuAssignments").unwrap().as_array().unwrap();
    assert_eq!(all.len(), 1);
    assert_eq!(all[0].get("container_name").unwrap().as_str().unwrap(), "c\"1");
    let cpus = all[0].get("cpus").unwrap().as_array().unwrap();
    assert_eq!(cpus.iter().map(|c| c.as_u64().unwrap()).collect::<Vec<u64>>(), vec![0, 1]);
    assert_eq!(all[0].get("exclusive").unwrap().as_bool(), Some(true));
}

#[test]
fn states_that_cannot_be_read_are_none() {
    assert!(CpuManager::load_checkpoint(&None).is_none());
    assert!(CpuManager::load_checkpoint(&Some("{\"policyName\":".to_string())).is_none());
    assert!(CpuManager::load_checkpoint(&Some("[".repeat(128) + &"]".repeat(128))).is_none());
    assert!(CpuManager::load_checkpoint(&Some("[".repeat(127) + &"]".repeat(127))).is_some());
    let e = CpuManager::checkpoint_saved(&Err("disk full".to_string())).unwrap_err();
    assert_eq!(e.message(), "save cpumanager checkpoint: disk full");
    assert!(CpuManager::checkpoint_saved(&Ok(())).is_ok());
}

#[test]
fn numbers_of_a_state_are_kept() {
    let text = "{\"a\": 1.5, \"b\": -7, \"c\": 18446744073709551615, \"d\": null}".to_string();
    let val = CpuManager::load_checkpoint(&Some(text)).unwrap();
    match val.get("a").unwrap() {
        JsonValue::Number(n) => assert_eq!(format!("{:?}", n), "Float(\"1.5\")"),
        other => panic!("{:?}", other),
    }
    assert_eq!(val.get("b").unwrap().as_i64(), Some(-7));
    assert_eq!(val.get("c").unwrap().as_u64(), Some(u64::MAX));
    assert!(matches!(val.get("d"), Some(JsonValue::Null)));
}

#[test]
fn checkpoints_collapse_the_shared_cpus() {
    let total = CpuSet::new(vec![0, 1, 3, 4, 5, 7]);
    let mgr = CpuManager::new("static", total, CpuSet::empty());
    let state = mgr.checkpoint();
    let shared = state.get("defaultCpuSet").unwrap().as_str().unwrap();
    assert_eq!(shared, &mgr.shared_pool().to_cpuset_string());
    assert_eq!(shared, "0-1,3-5,7");
}

#[test]
fn sets_forget_order_and_repetition() {
    let cs = CpuSet::new(vec![7, 0, 7, 3]);
    assert_eq!(cs.to_vec(), vec![0, 3, 7]);
    assert_eq!(cs.to_cpuset_string(), "0,3,7");
}

#[test]
fn broken_texts_are_no_sets() {
    assert!(CpuSet::parse("x").is_err());
    assert!(CpuSet::parse("1-x").is_err());
    assert!(CpuSet::parse("1-2-3").is_err());
    assert!(CpuSet::parse("").unwrap().is_empty());
}

#[test]
fn unions_and_differences() {
    let a = CpuSet::from_range(0, 3);
    let b = CpuSet::new(vec![2, 5]);
    assert_eq!(a.union(&b).to_cpuset_string(), "0-3,5");
    assert_eq!(a.difference(&b).to_cpuset_string(), "0-1,3");
    assert!(CpuSet::empty().is_empty());
}

#[test]
fn exclusive_cpus_are_given_once() {
    let mut mgr = CpuManager::new("static", CpuSet::from_range(0, 7), CpuSet::new(vec![0]));
    let a = mgr.assign(&PodUID::new("a"), "x", QosClass::Guaranteed, 2000).unwrap();
    let b = mgr.assign(&PodUID::new("b"), "y", QosClass::Guaranteed, 3000).unwrap();
    for c in a.to_vec() {
        assert!(!b.contains(c));
        assert_ne!(c, 0);
    }
    let shared = mgr.shared_pool();
    for c in b.to_vec() {
        assert!(!shared.contains(c));
    }
    assert_eq!(mgr.total_count(), 8);
    assert_eq!(mgr.reserved_count(), 1);
}

#[test]
fn fractional_requests_share_the_pool() {
    let mut mgr = CpuManager::new("static", CpuSet::from_range(0, 3), CpuSet::new(vec![]));
    let s = mgr.assign(&PodUID::new("a"), "x", QosClass::Guaranteed, 1500).unwrap();
    assert_eq!(s.len(), 4);
    assert_eq!(mgr.assignment_count(), 0);
}

#[test]
fn policies_by_name() {
    assert_eq!(CpuManagerPolicy::parse("static"), CpuManagerPolicy::Static);
    assert_eq!(CpuManagerPolicy::parse("other"), CpuManagerPolicy::NonePolicy);
    let mgr = CpuManager::new("static", CpuSet::empty(), CpuSet::empty());
    assert_eq!(mgr.policy().name(), "static");
    assert_eq!(CpuManager::detect_host_cpus(Some(4)).to_cpuset_string(), "0-3");
}
