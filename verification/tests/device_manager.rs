use kubelet_adapters::device_manager::{
    proto_device_to_local, with_registration, AllocateResponse, Device, DeviceHealth, DeviceManager, DeviceSpec,
    ListReply, Mount, PluginEndpoint, ProtoContainerAllocateResponse, ProtoDevice, WatchEvent,
};
use kubelet_adapters::strmap::StrMap;
use kubelet_adapters::types::PodUID;

fn proto_gpu_device(id: &str, healthy: bool) -> ProtoDevice {
    ProtoDevice {
        id: id.to_string(),
        health: if healthy { "Healthy".to_string() } else { "Unhealthy".to_string() },
        topology: Some(vec![0]),
    }
}

fn gpu_allocate_response(device_id: &str) -> ProtoContainerAllocateResponse {
    let mut envs = StrMap::new();
    envs.insert("NVIDIA_VISIBLE_DEVICES".to_string(), device_id.to_string());
    let mut annotations = StrMap::new();
    annotations.insert("plugin.kubelet.rs/test".to_string(), "true".to_string());
    ProtoContainerAllocateResponse {
        envs,
        mounts: vec![Mount {
            container_path: "/usr/lib/libnvidia.so".to_string(),
            host_path: "/host/usr/lib/libnvidia.so".to_string(),
            read_only: true,
        }],
        devices: vec![DeviceSpec {
            container_path: "/dev/nvidia0".to_string(),
            host_path: "/dev/nvidia0".to_string(),
            permissions: "rw".to_string(),
        }],
        annotations,
    }
}

fn gpu_device(id: &str, healthy: bool) -> Device {
    Device {
        id: id.to_string(),
        health: if healthy { DeviceHealth::Healthy } else { DeviceHealth::Unhealthy },
        numa_node: Some(0),
    }
}

fn plain_device(id: &str, health: DeviceHealth) -> Device {
    Device { id: id.to_string(), health, numa_node: None }
}

/// Allocates as a plugin does that always grants what it is asked for.
fn grant(mgr: &mut DeviceManager, uid: &PodUID, container: &str, resource: &str, n: usize) -> Vec<String> {
    let pending = mgr.allocate(uid, container, resource, n).unwrap();
    let ids = pending.device_ids.clone();
    let reply = Ok(vec![gpu_allocate_response(&ids.join(","))]);
    let outcome = mgr.plugins.get(resource).unwrap().call_allocate(reply);
    mgr.finish_allocation(uid, container, resource, pending.device_ids, outcome).unwrap();
    ids
}

#[test]
fn test_register_plugin() {
    let mut mgr = DeviceManager::new("/var/lib/kubelet/device-plugins");
    mgr.register_plugin("nvidia.com/gpu", "/var/lib/kubelet/device-plugins/kubelet.sock");
    assert_eq!(mgr.plugin_count(), 1);
}

#[test]
fn test_update_devices() {
    let mut mgr = DeviceManager::new("/dp");
    mgr.register_plugin("nvidia.com/gpu", "/dp/kubelet.sock");
    mgr.update_devices(
        "nvidia.com/gpu",
        vec![gpu_device("GPU-0", true), gpu_device("GPU-1", true), gpu_device("GPU-2", false)],
    );
    let resources = mgr.extended_resources();
    assert_eq!(*resources.get("nvidia.com/gpu").unwrap(), 2);
}

#[test]
fn test_allocate_success() {
    let mut mgr = DeviceManager::new("/dp");
    mgr.register_plugin("nvidia.com/gpu", "/dp/nvidia.com-gpu.sock");
    let reply = ListReply::Update(vec![
        proto_gpu_device("GPU-0", true),
        proto_gpu_device("GPU-1", true),
    ]);
    mgr.refresh_plugin_devices("nvidia.com/gpu", reply).unwrap();

    let uid = PodUID::new("uid-gpu");
    let pending = mgr.allocate(&uid, "train", "nvidia.com/gpu", 1).unwrap();
    assert_eq!(pending.socket_path, "/dp/nvidia.com-gpu.sock");
    assert_eq!(pending.device_ids, vec!["GPU-0".to_string()]);
    let outcome = mgr
        .plugins
        .get("nvidia.com/gpu")
        .unwrap()
        .call_allocate(Ok(vec![gpu_allocate_response("GPU-0")]));
    let resp = mgr
        .finish_allocation(&uid, "train", "nvidia.com/gpu", pending.device_ids, outcome)
        .unwrap();
    assert_eq!(resp.envs.get("NVIDIA_VISIBLE_DEVICES"), Some(&"GPU-0".to_string()));
    assert_eq!(resp.mounts.len(), 1);
    assert_eq!(resp.devices.len(), 1);
    assert_eq!(resp.annotations.get("plugin.kubelet.rs/test"), Some(&"true".to_string()));
}

#[test]
fn test_allocate_insufficient_devices_fails() {
    let mut mgr = DeviceManager::new("/dp");
    mgr.register_plugin("nvidia.com/gpu", "/dp/kubelet.sock");
    mgr.update_devices("nvidia.com/gpu", vec![gpu_device("GPU-0", true)]);
    let result = mgr.allocate(&PodUID::new("uid-big"), "train", "nvidia.com/gpu", 2);
    assert!(result.is_err());
    assert_eq!(
        result.unwrap_err().message(),
        "not enough 'nvidia.com/gpu' devices: need 2, available 1"
    );
}

#[test]
fn test_allocate_unknown_resource_fails() {
    let mut mgr = DeviceManager::new("/dp");
    let result = mgr.allocate(&PodUID::new("uid-1"), "app", "example.com/fpga", 1);
    assert!(result.is_err());
}

#[test]
fn test_deallocate_pod() {
    let mut mgr = DeviceManager::new("/dp");
    mgr.register_plugin("nvidia.com/gpu", "/dp/nvidia.com-gpu.sock");
    let reply = ListReply::Update(vec![proto_gpu_device("GPU-0", true)]);
    mgr.refresh_plugin_devices("nvidia.com/gpu", reply).unwrap();
    let uid = PodUID::new("uid-dealloc");
    grant(&mut mgr, &uid, "app", "nvidia.com/gpu", 1);
    assert_eq!(mgr.plugins.get("nvidia.com/gpu").unwrap().available_count(), 0);
    mgr.deallocate_pod(&uid);
    assert!(!mgr.pod_allocations.contains_key("uid-dealloc"));
    assert_eq!(mgr.plugins.get("nvidia.com/gpu").unwrap().available_count(), 1);
}

#[test]
fn test_refresh_plugin_devices_uses_list_and_watch() {
    let mut mgr = DeviceManager::new("/dp");
    mgr.register_plugin("example.com/fpga", "/dp/example.com-fpga.sock");
    let reply = ListReply::Update(vec![
        proto_gpu_device("fpga0", true),
        proto_gpu_device("fpga1", false),
    ]);
    mgr.refresh_plugin_devices("example.com/fpga", reply).unwrap();
    let resources = mgr.extended_resources();
    assert_eq!(*resources.get("example.com/fpga").unwrap(), 1);
}

#[test]
fn test_plugin_endpoint_available_count() {
    let mut ep = PluginEndpoint::new("test/res", "/tmp/test.sock");
    ep.devices = vec![
        plain_device("d0", DeviceHealth::Healthy),
        plain_device("d1", DeviceHealth::Healthy),
        plain_device("d2", DeviceHealth::Unhealthy),
    ];
    assert_eq!(ep.available_count(), 2);
    assert_eq!(ep.healthy_count(), 2);
}

#[test]
fn test_checkpoint_persistence_and_rediscovery() {
    let mut mgr = DeviceManager::new("/dp");
    mgr.register_plugin("nvidia.com/gpu", "/dp/ds-gpu.sock");
    assert!(mgr.registry_checkpoint_path().ends_with("device_plugin_registry.json"));
    let entries = with_registration(None, "nvidia.com/gpu", "/dp/ds-gpu.sock");
    assert!(entries.contains_key("nvidia.com/gpu"), "checkpoint must contain registered resource");

    let mut mgr2 = DeviceManager::new("/dp");
    assert_eq!(mgr2.plugin_count(), 0, "starts empty");
    let known = mgr2.rediscover_plugins(&entries, &vec!["/dp/ds-gpu.sock".to_string()]);
    assert_eq!(known, vec![("nvidia.com/gpu".to_string(), "/dp/ds-gpu.sock".to_string())]);
    assert_eq!(mgr2.plugin_count(), 1, "plugin must be re-registered from checkpoint");
}

#[test]
fn test_rediscovery_skips_missing_socket() {
    let entries = with_registration(None, "vendor.io/stale", "/dp/stale.sock");
    let mut mgr = DeviceManager::new("/dp");
    assert!(mgr.rediscover_plugins(&entries, &vec![]).is_empty());
    assert_eq!(mgr.plugin_count(), 0, "stale socket must be skipped");
}

#[test]
fn devices_are_given_to_one_container_only() {
    let mut mgr = DeviceManager::new("/dp");
    mgr.register_plugin("r", "/dp/r.sock");
    mgr.update_devices("r", vec![gpu_device("a", true), gpu_device("b", true)]);
    let first = grant(&mut mgr, &PodUID::new("p1"), "c", "r", 1);
    let second = grant(&mut mgr, &PodUID::new("p2"), "c", "r", 1);
    assert_ne!(first, second);
    assert!(mgr.allocate(&PodUID::new("p3"), "c", "r", 1).is_err());
}

#[test]
fn failed_allocations_free_their_devices() {
    let mut mgr = DeviceManager::new("/dp");
    mgr.register_plugin("r", "/dp/r.sock");
    mgr.update_devices("r", vec![gpu_device("a", true)]);
    let uid = PodUID::new("p1");
    let pending = mgr.allocate(&uid, "c", "r", 1).unwrap();
    assert_eq!(mgr.plugins.get("r").unwrap().available_count(), 0);
    let outcome = mgr.plugins.get("r").unwrap().call_allocate(Err("down".to_string()));
    assert!(mgr.finish_allocation(&uid, "c", "r", pending.device_ids, outcome).is_err());
    assert_eq!(mgr.plugins.get("r").unwrap().available_count(), 1);
}

#[test]
fn a_container_keeps_what_it_was_given_before() {
    let mut mgr = DeviceManager::new("/dp");
    mgr.register_plugin("r", "/dp/r.sock");
    mgr.update_devices("r", vec![gpu_device("GPU-0", true), gpu_device("GPU-1", true)]);
    let uid = PodUID::new("p");
    assert_eq!(grant(&mut mgr, &uid, "c", "r", 1), vec!["GPU-0".to_string()]);
    assert_eq!(mgr.plugins.get("r").unwrap().available_count(), 1);
    assert_eq!(grant(&mut mgr, &uid, "c", "r", 1), vec!["GPU-1".to_string()]);
    assert_eq!(mgr.plugins.get("r").unwrap().available_count(), 0);
    assert!(mgr.allocate(&PodUID::new("p2"), "c2", "r", 1).is_err());
    mgr.deallocate_pod(&uid);
    assert_eq!(mgr.plugins.get("r").unwrap().available_count(), 2);
}

#[test]
fn a_failed_request_keeps_the_earlier_grant() {
    let mut mgr = DeviceManager::new("/dp");
    mgr.register_plugin("r", "/dp/r.sock");
    mgr.update_devices("r", vec![gpu_device("GPU-0", true), gpu_device("GPU-1", true)]);
    let uid = PodUID::new("p");
    grant(&mut mgr, &uid, "c", "r", 1);
    let pending = mgr.allocate(&uid, "c", "r", 1).unwrap();
    assert_eq!(pending.device_ids, vec!["GPU-1".to_string()]);
    assert_eq!(mgr.plugins.get("r").unwrap().available_count(), 0);
    let outcome = mgr.plugins.get("r").unwrap().call_allocate(Err("down".to_string()));
    assert!(mgr.finish_allocation(&uid, "c", "r", pending.device_ids, outcome).is_err());
    assert_eq!(mgr.plugins.get("r").unwrap().available_count(), 1);
    let other = mgr.allocate(&PodUID::new("p2"), "c2", "r", 1).unwrap();
    assert_eq!(other.device_ids, vec!["GPU-1".to_string()]);
}

#[test]
fn plugins_have_to_answer() {
    let ep = PluginEndpoint::new("r", "/dp/r.sock");
    assert!(ep.call_allocate(Ok(vec![])).is_err());
    assert!(ep.list_and_watch_once(ListReply::CallFailed("x".to_string())).is_err());
    assert!(ep.list_and_watch_once(ListReply::StreamFailed("x".to_string())).is_err());
    let devices = ep.list_and_watch_once(ListReply::Update(vec![proto_gpu_device("d", true)]));
    assert_eq!(devices.unwrap()[0].id, "d");
}

#[test]
fn watches_end_with_their_stream() {
    let mut mgr = DeviceManager::new("/dp");
    mgr.register_plugin("r", "/dp/r.sock");
    let update = WatchEvent::Update(vec![proto_gpu_device("d", true)]);
    assert!(mgr.watch_step("r", update));
    assert_eq!(*mgr.extended_resources().get("r").unwrap(), 1);
    assert!(!mgr.watch_step("r", WatchEvent::Ended));
    assert!(!mgr.watch_step("r", WatchEvent::Failed("x".to_string())));
}

#[test]
fn unknown_health_counts_as_unhealthy() {
    let mut d = proto_gpu_device("d", true);
    d.health = "whatever".to_string();
    d.topology = None;
    let local = proto_device_to_local(d);
    assert_eq!(local.health, DeviceHealth::Unhealthy);
    assert_eq!(local.numa_node, None);
    assert_eq!(proto_device_to_local(proto_gpu_device("e", true)).numa_node, Some(0));
}

#[test]
fn sockets_are_registered_by_their_names() {
    let mut mgr = DeviceManager::new("/dp");
    mgr.scan_and_register(&vec![
        "/dp/vendor-res.sock".to_string(),
        "/dp/kubelet.sock".to_string(),
        "/dp/notes.txt".to_string(),
    ]);
    assert_eq!(mgr.plugin_count(), 1);
    assert_eq!(mgr.plugin_socket("vendor/res").unwrap(), "/dp/vendor-res.sock");
    assert!(mgr.plugin_socket("nothing").is_err());
}

#[test]
fn only_new_sockets_are_registered() {
    let mut mgr = DeviceManager::new("/dp");
    let paths = vec!["/dp/vendor-res.sock".to_string()];
    mgr.scan_and_register(&paths);
    mgr.update_devices("vendor/res", vec![gpu_device("a", true), gpu_device("b", true)]);
    grant(&mut mgr, &PodUID::new("p"), "c", "vendor/res", 1);
    assert!(mgr.scan_and_register(&paths).is_empty());
    assert_eq!(mgr.plugins.get("vendor/res").unwrap().available_count(), 1);
    mgr.scan_and_register(&vec!["/other/vendor-res.sock".to_string()]);
    assert_eq!(mgr.plugin_socket("vendor/res").unwrap(), "/other/vendor-res.sock");
    assert_eq!(mgr.plugins.get("vendor/res").unwrap().available_count(), 0);
}

#[test]
fn scans_tell_what_they_registered() {
    let mut mgr = DeviceManager::new("/dp");
    mgr.register_plugin("by/hand", "/dp/vendor-res.sock");
    let pair = |p: &str| ("vendor/res".to_string(), p.to_string());
    let paths = vec!["/dp/vendor-res.sock".to_string()];
    assert_eq!(mgr.scan_and_register(&paths), vec![pair("/dp/vendor-res.sock")]);
    assert_eq!(mgr.plugin_count(), 2);
    let both = vec!["/x/vendor-res.sock".to_string(), "/dp/vendor-res.sock".to_string()];
    let registered = mgr.scan_and_register(&both);
    assert_eq!(registered, vec![pair("/x/vendor-res.sock"), pair("/dp/vendor-res.sock")]);
    let none = AllocateResponse::default();
    assert!(none.envs.is_empty() && none.devices.is_empty() && none.mounts.is_empty());
}
