use kubelet_adapters::csi::proto::{
    AccessMode, AccessType, NodeGetInfoResponse, NodePublishVolumeRequest, NodeStageVolumeRequest,
    NodeUnpublishVolumeRequest, NodeUnstageVolumeRequest, VolumeCapability,
};
use kubelet_adapters::csi::{
    CsiClient, CsiPlugin, CsiPluginRegistry, CsiVolumeContext, CsiVolumeManager, PluginDirEntry,
};
use kubelet_adapters::error::KubeletError;
use kubelet_adapters::strmap::StrMap;

fn make_plugin(name: &str) -> CsiPlugin {
    CsiPlugin {
        name: name.to_string(),
        socket_path: format!("/plugins/{}.sock", name.replace('/', "-")),
        node_id: "node1".to_string(),
        max_volumes_per_node: 128,
        accessible_topology: StrMap::new(),
    }
}

fn context(volume_id: &str, driver: &str, staging: Option<&str>) -> CsiVolumeContext {
    let mut volume_attributes = StrMap::new();
    volume_attributes.insert("csi.storage.k8s.io/driver".to_string(), driver.to_string());
    CsiVolumeContext {
        volume_id: volume_id.to_string(),
        volume_attributes,
        target_path: "/pods/target".to_string(),
        staging_target_path: staging.map(|s| s.to_string()),
        read_only: false,
        access_type: AccessType::Mount,
        fs_type: None,
        mount_flags: vec![],
        secrets: StrMap::new(),
    }
}

fn entry(path: &str, is_dir: bool, has_socket: bool) -> PluginDirEntry {
    PluginDirEntry { path: path.to_string(), is_dir, has_socket }
}

#[test]
fn test_register_and_get_plugin() {
    let mut registry = CsiPluginRegistry::new("/plugins");
    registry.register(make_plugin("ebs.csi.aws.com"));
    assert!(registry.get("ebs.csi.aws.com").is_some());
    assert_eq!(registry.plugin_count(), 1);
}

#[test]
fn test_deregister_plugin() {
    let mut registry = CsiPluginRegistry::new("/plugins");
    registry.register(make_plugin("pd.csi.storage.gke.io"));
    registry.deregister("pd.csi.storage.gke.io");
    assert!(registry.get("pd.csi.storage.gke.io").is_none());
    assert_eq!(registry.plugin_count(), 0);
}

#[test]
fn test_scan_detects_socket() {
    let mut registry = CsiPluginRegistry::new("/plugins");
    registry.scan(&vec![entry("/plugins/my.csi.driver", true, true)]);
    assert_eq!(registry.plugin_count(), 1);
    assert!(registry.get("my.csi.driver").is_some());
    assert_eq!(
        registry.get("my.csi.driver").unwrap().socket_path,
        "/plugins/my.csi.driver/csi.sock"
    );
}

#[test]
fn test_scan_empty_dir() {
    let mut registry = CsiPluginRegistry::new("/plugins");
    registry.scan(&vec![]);
    assert_eq!(registry.plugin_count(), 0);
}

#[test]
fn test_publish_volume_creates_dir() {
    let mut mgr = CsiVolumeManager::new("/plugins");
    mgr.registry.register(make_plugin("test-driver"));
    let ctx = context("vol-1", "test-driver", None);
    let call = mgr.publish_volume(&ctx).unwrap();
    assert_eq!(call.socket_path, "/plugins/test-driver.sock");
    assert_eq!(call.request.target_path, "/pods/target");
    assert!(!mgr.is_published("vol-1"));
    mgr.finish_publish(&ctx, Ok(())).unwrap();
    assert!(mgr.is_published("vol-1"));
    assert_eq!(mgr.mounted_count(), 1);
}

#[test]
fn test_unpublish_volume() {
    let mut mgr = CsiVolumeManager::new("/plugins");
    mgr.registry.register(make_plugin("test-driver"));
    let ctx = context("vol-2", "test-driver", None);
    mgr.publish_volume(&ctx).unwrap();
    mgr.finish_publish(&ctx, Ok(())).unwrap();
    let call = mgr.unpublish_volume("vol-2", "/pods/target", &vec![]);
    assert_eq!(call.request.volume_id, "vol-2");
    mgr.finish_unpublish("vol-2", Ok(())).unwrap();
    assert!(!mgr.is_published("vol-2"));
}

#[test]
fn test_stage_unknown_driver_fails() {
    let mgr = CsiVolumeManager::new("/plugins");
    let ctx = context("vol-bad", "nonexistent", Some("/pods/staging"));
    assert!(mgr.stage_volume(&ctx).is_err());
}

#[test]
fn test_access_type_eq() {
    assert_eq!(AccessType::Mount, AccessType::Mount);
    assert_ne!(AccessType::Mount, AccessType::Block);
}

#[test]
fn scanning_twice_changes_nothing() {
    let entries = vec![
        entry("/plugins/a", true, true),
        entry("/plugins/b", true, false),
        entry("/plugins/c", false, true),
    ];
    let mut registry = CsiPluginRegistry::new("/plugins");
    registry.scan(&entries);
    assert_eq!(registry.plugin_count(), 1);
    registry.scan(&entries);
    assert_eq!(registry.plugin_count(), 1);
    assert_eq!(registry.list()[0].name, "a");
}

#[test]
fn staged_volumes_are_published_from_their_place() {
    let mut mgr = CsiVolumeManager::new("/plugins");
    mgr.registry.register(make_plugin("test-driver"));
    let ctx = context("vol-3", "test-driver", Some("/pods/staging"));
    let call = mgr.stage_volume(&ctx).unwrap();
    assert_eq!(call.request.staging_target_path, "/pods/staging");
    assert!(!mgr.is_staged("vol-3"));
    mgr.finish_stage(&ctx, Ok(())).unwrap();
    assert!(mgr.is_staged("vol-3"));
    let publish = mgr.publish_volume(&ctx).unwrap();
    assert_eq!(publish.request.staging_target_path, "/pods/staging");
    assert_eq!(publish.request.volume_capability.access_type, AccessType::Mount);
}

#[test]
fn failed_calls_change_nothing() {
    let mut mgr = CsiVolumeManager::new("/plugins");
    mgr.registry.register(make_plugin("test-driver"));
    let ctx = context("vol-4", "test-driver", Some("/pods/staging"));
    let e = mgr.finish_stage(&ctx, Err(KubeletError::Storage("s".to_string()))).unwrap_err();
    assert_eq!(e.message(), "s");
    assert!(!mgr.is_staged("vol-4"));
    assert!(mgr.finish_publish(&ctx, Err(KubeletError::Storage("p".to_string()))).is_err());
    assert!(!mgr.is_published("vol-4"));
    mgr.finish_publish(&ctx, Ok(())).unwrap();
    assert!(mgr.finish_unpublish("vol-4", Err(KubeletError::Storage("u".to_string()))).is_err());
}

#[test]
fn volumes_are_unpublished_by_their_driver() {
    let mut mgr = CsiVolumeManager::new("/plugins");
    mgr.registry.register(make_plugin("first"));
    mgr.registry.register(make_plugin("second"));
    mgr.finish_publish(&context("vol-5", "second", None), Ok(())).unwrap();
    let call = mgr.unpublish_volume("vol-5", "/pods/target", &vec![]);
    assert_eq!(call.socket_path, "/plugins/second.sock");
    let call = mgr.unpublish_volume("vol-6", "/pods/target", &vec![]);
    assert_eq!(call.socket_path, "/plugins/first.sock");
    mgr.registry.deregister("second");
    let call = mgr.unpublish_volume("vol-5", "/pods/target", &vec![]);
    assert_eq!(call.socket_path, "/plugins/first.sock");
}

#[test]
fn volumes_without_driver_cannot_be_published() {
    let mgr = CsiVolumeManager::new("/plugins");
    let mut ctx = context("vol-5", "d", None);
    ctx.volume_attributes = StrMap::new();
    assert!(CsiVolumeManager::driver_name(&ctx).is_none());
    assert!(mgr.publish_volume(&ctx).is_err());
}

#[test]
fn nodes_identify_themselves() {
    let client = CsiClient::new("/plugins/a.sock");
    assert_eq!(client.node_get_info(&Some("host-a".to_string())).node_id, "host-a");
    assert!(!client.node_get_info(&None).node_id.is_empty());
    assert_eq!(AccessMode::default(), AccessMode::Unknown);
    assert_eq!(AccessType::default(), AccessType::Mount);
}

#[test]
fn messages_are_empty_at_first() {
    let c = VolumeCapability::default();
    assert_eq!(c.access_mode, AccessMode::Unknown);
    assert_eq!(c.access_type, AccessType::Mount);
    assert!(c.fs_type.is_empty() && c.mount_flags.is_empty());
    let publish = NodePublishVolumeRequest::default();
    assert!(!publish.readonly && publish.target_path.is_empty() && publish.secrets.is_empty());
    assert!(NodeStageVolumeRequest::default().volume_context.is_empty());
    assert!(NodeUnpublishVolumeRequest::default().volume_id.is_empty());
    assert!(NodeUnstageVolumeRequest::default().staging_target_path.is_empty());
    assert_eq!(NodeGetInfoResponse::default().max_volumes_per_node, 0);
}
