use kubelet_adapters::dra::{DraManager, ResourceClaim};

fn claim(name: &str, allocated: bool) -> ResourceClaim {
    ResourceClaim {
        namespace: "default".to_string(),
        name: name.to_string(),
        class_name: "nvidia.com/gpu".to_string(),
        allocated,
        prepared: false,
    }
}

#[test]
fn test_prepare_and_unprepare_claim() {
    let mut manager = DraManager::new("/var/lib/kubelet/plugins");
    manager.register_claim(ResourceClaim {
        namespace: "default".to_string(),
        name: "gpu-a".to_string(),
        class_name: "nvidia.com/gpu".to_string(),
        allocated: true,
        prepared: false,
    });
    manager.prepare_resources("default", "gpu-a").unwrap();
    assert!(manager.is_prepared("default", "gpu-a"));
    manager.unprepare_resources("default", "gpu-a");
    assert!(!manager.is_prepared("default", "gpu-a"));
}

#[test]
fn claims_have_to_be_known_and_allocated() {
    let mut manager = DraManager::new("/var/lib/kubelet/plugins");
    assert!(manager.prepare_resources("default", "gpu-a").is_err());
    manager.register_claim(claim("gpu-b", false));
    assert!(manager.prepare_resources("default", "gpu-b").is_err());
    assert!(!manager.is_prepared("default", "gpu-b"));
    assert_eq!(manager.plugin_root(), "/var/lib/kubelet/plugins");
}

#[test]
fn unpreparing_restores_what_preparing_changed() {
    let mut manager = DraManager::new("/plugins");
    manager.register_claim(claim("gpu-c", true));
    manager.prepare_resources("default", "gpu-c").unwrap();
    manager.prepare_resources("default", "gpu-c").unwrap();
    assert!(manager.claims.get("default/gpu-c").unwrap().prepared);
    assert_eq!(manager.prepared_claims.len(), 1);
    manager.unprepare_resources("default", "gpu-c");
    assert!(!manager.claims.get("default/gpu-c").unwrap().prepared);
    assert!(manager.claims.get("default/gpu-c").unwrap().allocated);
    assert_eq!(manager.prepared_claims.len(), 0);
}
