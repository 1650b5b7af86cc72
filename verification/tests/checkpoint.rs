use kubelet_adapters::checkpoint::{CheckpointManager, PodCheckpoint};
use kubelet_adapters::fileops::FileOp;
use std::collections::BTreeMap;

/// Files by path.
struct Disk {
    files: BTreeMap<String, String>,
}

impl Disk {
    fn new() -> Self {
        Disk { files: BTreeMap::new() }
    }

    fn apply(&mut self, ops: Vec<FileOp>) {
        for op in ops {
            match op {
                FileOp::Write { path, content } => {
                    self.files.insert(path, content);
                }
                FileOp::Rename { from, to } => {
                    let content = self.files.remove(&from).unwrap();
                    self.files.insert(to, content);
                }
                FileOp::RemoveFile { path } => {
                    self.files.remove(&path).unwrap();
                }
                other => panic!("{:?}", other),
            }
        }
    }

    fn paths(&self) -> Vec<String> {
        self.files.keys().cloned().collect()
    }

    fn read(&self, m: &CheckpointManager, key: &str) -> Option<String> {
        self.files.get(&m.path_for(key)).cloned()
    }
}

fn payload(value: &str, count: u32) -> String {
    format!("{{\"value\":\"{}\",\"count\":{}}}", value, count)
}

fn mgr(dir: &str) -> CheckpointManager {
    CheckpointManager::new(dir)
}

#[test]
fn test_write_and_read_roundtrip() {
    let mut disk = Disk::new();
    let m = mgr("/ck");
    let payload = payload("hello", 42);
    disk.apply(m.write("test-key", &payload));
    assert_eq!(disk.read(&m, "test-key"), Some(payload));
    assert_eq!(disk.files.len(), 1);
}

#[test]
fn test_read_nonexistent_returns_none() {
    let disk = Disk::new();
    let m = mgr("/ck");
    assert!(disk.read(&m, "missing").is_none());
}

#[test]
fn test_exists() {
    let mut disk = Disk::new();
    let m = mgr("/ck");
    assert!(!m.checkpoint_exists("k1", &disk.paths()));
    disk.apply(m.write("k1", &payload("x", 0)));
    assert!(m.checkpoint_exists("k1", &disk.paths()));
}

#[test]
fn test_delete() {
    let mut disk = Disk::new();
    let m = mgr("/ck");
    disk.apply(m.write("del-key", &payload("y", 1)));
    disk.apply(m.delete("del-key", true));
    assert!(!m.checkpoint_exists("del-key", &disk.paths()));
    assert!(m.delete("del-key", false).is_empty());
}

#[test]
fn test_list_returns_all_keys() {
    let mut disk = Disk::new();
    let m = mgr("/ck");
    for i in 0..5 {
        disk.apply(m.write(&format!("key-{}", i), &payload("v", i)));
    }
    let mut keys = m.list(&disk.paths());
    keys.sort();
    assert_eq!(keys.len(), 5);
    assert_eq!(keys[0], "key-0");
}

#[test]
fn test_overwrite_updates_value() {
    let mut disk = Disk::new();
    let m = mgr("/ck");
    disk.apply(m.write("k", &payload("first", 1)));
    disk.apply(m.write("k", &payload("second", 2)));
    assert_eq!(disk.read(&m, "k"), Some(payload("second", 2)));
}

#[test]
fn test_key_with_slash_is_sanitized() {
    let mut disk = Disk::new();
    let m = mgr("/ck");
    let payload = payload("ns/name", 0);
    disk.apply(m.write("default/my-pod", &payload));
    assert!(m.checkpoint_exists("default/my-pod", &disk.paths()));
    assert_eq!(disk.read(&m, "default/my-pod"), Some(payload));
    assert_eq!(m.path_for("default/my-pod"), "/ck/default_my-pod.json");
}

#[test]
fn test_pod_checkpoint_roundtrip() {
    let mut cp = PodCheckpoint::new("uid-abc", "my-pod", "default");
    assert!(cp.sandbox_id.is_none());
    cp.sandbox_id = Some("sandbox-123".to_string());
    cp.container_ids.insert("nginx".to_string(), "ctr-456".to_string());
    cp.restart_counts.insert("nginx".to_string(), 3);
    assert_eq!(cp.sandbox_id, Some("sandbox-123".to_string()));
    assert_eq!(cp.container_ids.get("nginx").unwrap(), "ctr-456");
    assert_eq!(*cp.restart_counts.get("nginx").unwrap(), 3);
    assert_eq!(cp.uid, "uid-abc");
    assert_eq!(cp.name, "my-pod");
    assert_eq!(cp.namespace, "default");
}

#[test]
fn test_list_empty_dir() {
    let m = mgr("/ck");
    assert!(m.list(&vec![]).is_empty());
}

#[test]
fn test_creates_dir_if_missing() {
    let mut disk = Disk::new();
    let m = CheckpointManager::new("/ck/a/b/c");
    disk.apply(m.write("k", &payload("v", 0)));
    assert!(m.checkpoint_exists("k", &disk.paths()));
}

#[test]
fn other_files_are_not_listed() {
    let m = mgr("/ck");
    let paths = vec![
        "/ck/a.json".to_string(),
        "/ck/b.tmp".to_string(),
        "/ck/json".to_string(),
        "/ck/c.d.json".to_string(),
    ];
    assert_eq!(m.list(&paths), vec!["a".to_string(), "c.d".to_string()]);
}

#[test]
fn writing_leaves_other_checkpoints_alone() {
    let mut disk = Disk::new();
    let m = mgr("/ck");
    disk.apply(m.write("a", &payload("1", 1)));
    disk.apply(m.write("b", &payload("2", 2)));
    disk.apply(m.delete("a", true));
    assert_eq!(disk.read(&m, "b"), Some(payload("2", 2)));
    assert!(disk.read(&m, "a").is_none());
}
