use kubelet_adapters::network::NoopNetworkPlugin;
use kubelet_adapters::strmap::StrMap;

#[test]
fn test_setup_pod_returns_attachment() {
    let plugin = NoopNetworkPlugin;
    let att = plugin.setup_pod("uid-1", "default", "my-pod", "sandbox-1", &StrMap::new()).unwrap();
    assert_eq!(att.sandbox_id, "sandbox-1");
    assert_eq!(att.interface_name, "eth0");
    assert!(!att.ip_addresses.is_empty());
}

#[test]
fn test_teardown_pod_succeeds() {
    let plugin = NoopNetworkPlugin;
    plugin.teardown_pod("uid-1", "default", "my-pod", "sandbox-1").unwrap();
}

#[test]
fn test_pod_network_status() {
    let plugin = NoopNetworkPlugin;
    let status = plugin.pod_network_status("uid-1", "default", "my-pod", "sandbox-1").unwrap();
    assert!(status.is_some());
}

#[test]
fn test_plugin_name() {
    let plugin = NoopNetworkPlugin;
    assert_eq!(plugin.name(), "noop");
}
