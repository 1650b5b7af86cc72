use kubelet_adapters::log_manager::{
    parse_log_max_size, ContainerLogManager, LogEntry, LogFile, LogManager,
};
use kubelet_adapters::types::Timestamp;
use std::collections::BTreeMap;

fn now() -> Timestamp {
    Timestamp { secs: 0, nanos: 7 }
}

fn stdout(message: &str) -> LogEntry {
    LogEntry::stdout(message, now()).unwrap()
}

/// Files by path, with the log of a container among them.
struct Disk {
    files: BTreeMap<String, String>,
}

impl Disk {
    fn new() -> Self {
        Disk { files: BTreeMap::new() }
    }

    fn listing(&self, dir: &str) -> Vec<LogFile> {
        self.files
            .iter()
            .filter_map(|(path, content)| {
                let name = path.strip_prefix(dir)?.strip_prefix('/')?.to_string();
                Some(LogFile { name, size: content.len() as u64 })
            })
            .collect()
    }

    fn open(&mut self, mut m: ContainerLogManager) -> ContainerLogManager {
        self.files.entry(m.current_log_path()).or_default();
        m.opened(&Ok(())).unwrap();
        m
    }

    fn write(&mut self, m: &mut ContainerLogManager, entry: &LogEntry) {
        let w = m.write(entry);
        if let Some(r) = w.rotation {
            for old in m.surplus_files(&self.listing(&m.log_dir)) {
                self.files.remove(&old);
            }
            self.files.insert(r.create, String::new());
            m.finish_rotation(&Ok(())).unwrap();
        }
        assert!(m.open);
        self.files.get_mut(&m.current_log_path()).unwrap().push_str(&w.line);
        m.finish_write(&w.line, &Ok(())).unwrap();
    }
}

fn manager(dir: &str, max: u64, files: u32) -> ContainerLogManager {
    ContainerLogManager::new(dir, max, files, &Ok(vec![])).unwrap()
}

#[test]
fn test_log_entry_stdout() {
    let e = stdout("hello world");
    assert_eq!(e.stream, "stdout");
    assert!(e.log.ends_with('\n'));
}

#[test]
fn test_log_entry_json() {
    let e = stdout("test message");
    let json = e.to_json_line();
    let parsed: serde_json::Value = serde_json::from_str(json.trim()).unwrap();
    assert_eq!(parsed["stream"], "stdout");
    assert!(parsed["log"].as_str().unwrap().contains("test message"));
}

#[test]
fn test_container_log_manager_write() {
    let mut disk = Disk::new();
    let mut mgr = disk.open(manager("/logs/ns_pod_uid/app", 1024 * 1024, 5));
    disk.write(&mut mgr, &stdout("Hello, logs!"));
    let content = disk.files.get(&mgr.current_log_path()).unwrap();
    let parsed: serde_json::Value = serde_json::from_str(content.trim()).unwrap();
    assert!(parsed["log"].as_str().unwrap().contains("Hello, logs!"));
}

#[test]
fn test_container_log_manager_rotation() {
    let mut disk = Disk::new();
    let mut mgr = disk.open(manager("/logs", 10, 3));
    for i in 0..5 {
        disk.write(&mut mgr, &stdout(&format!("line {}", i)));
    }
    assert!(mgr.current_index >= 1);
    assert_eq!(disk.files.len(), 3);
}

#[test]
fn test_parse_log_max_size() {
    assert_eq!(parse_log_max_size("10Mi"), 10 * 1024 * 1024);
    assert_eq!(parse_log_max_size("100Ki"), 100 * 1024);
    assert_eq!(parse_log_max_size("1Gi"), 1024 * 1024 * 1024);
    assert_eq!(parse_log_max_size("5242880"), 5242880);
}

#[test]
fn test_log_manager_directory_structure() {
    let mgr = LogManager::new("/var/log/pods", 10 * 1024 * 1024, 5);
    let log_dir = mgr.container_log_dir("default", "my-pod", "uid-1", "app");
    assert!(log_dir.contains("default_my-pod_uid-1/app"));
}

#[test]
fn test_log_manager_for_container() {
    let mut disk = Disk::new();
    let mgr = LogManager::new("/var/log/pods", 1024 * 1024, 5);
    let m = mgr.for_container("default", "nginx", "uid-2", "nginx", &Ok(vec![])).unwrap();
    let mut ctr_mgr = disk.open(m);
    disk.write(&mut ctr_mgr, &LogEntry::stderr("an error occurred", now()).unwrap());
    let sizes = disk.files.values().map(|f| f.len() as u64).collect();
    let size = mgr.log_size_bytes(&sizes);
    assert!(size > 0);
    assert_eq!(size, ctr_mgr.current_size);
}

#[test]
fn test_log_manager_remove_pod_logs() {
    let mgr = LogManager::new("/var/log/pods", 1024 * 1024, 5);
    assert_eq!(mgr.pod_log_dir("default", "pod1", "uid-3"), "/var/log/pods/default_pod1_uid-3");
    mgr.remove_pod_logs(&Some(Ok(()))).unwrap();
    mgr.remove_pod_logs(&None).unwrap();
    let e = mgr.remove_pod_logs(&Some(Err("busy".to_string()))).unwrap_err();
    assert_eq!(e.message(), "remove pod logs: busy");
}

#[test]
fn entries_carry_nanoseconds() {
    let e = stdout("x\n");
    assert_eq!(e.log, "x\n");
    assert_eq!(e.time, "1970-01-01T00:00:00.000000007Z");
    assert!(LogEntry::stdout("x", Timestamp { secs: i64::MAX, nanos: 0 }).is_none());
}

#[test]
fn lines_are_quoted() {
    let e = LogEntry {
        log: "a\"b\\\u{1}\n".to_string(),
        stream: "stderr".to_string(),
        time: "t".to_string(),
    };
    assert_eq!(
        e.to_json_line(),
        "{\"log\":\"a\\\"b\\\\\\u0001\\n\",\"stream\":\"stderr\",\"time\":\"t\"}\n"
    );
}

#[test]
fn lines_of_the_runtime_are_read() {
    let line = "2026-05-29T10:41:44.977387624+01:00 stdout F mount type...";
    let e = LogEntry::parse_line(line, None).unwrap();
    assert_eq!(e.time, "2026-05-29T10:41:44.977387624+01:00");
    assert_eq!(e.stream, "stdout");
    assert_eq!(e.log, "mount type...\n");
    assert_eq!(LogEntry::parse_line("t stderr F", None).unwrap().log, "\n");
    assert!(LogEntry::parse_line("t stdin F x", None).is_none());
    assert!(LogEntry::parse_line("t stdout", None).is_none());
    assert!(LogEntry::parse_line("", None).is_none());
    let own = LogEntry::parse_line("{}", Some(stdout("kept"))).unwrap();
    assert_eq!(own.log, "kept\n");
}

#[test]
fn the_last_file_is_continued() {
    let file = |name: &str, size: u64| LogFile { name: name.to_string(), size };
    let files = vec![file("2.log", 20), file("10.log", 7), file("x.log", 9), file("11.txt", 1)];
    let m = ContainerLogManager::new("/l", 100, 3, &Ok(files)).unwrap();
    assert_eq!(m.current_index, 10);
    assert_eq!(m.current_size, 7);
    assert_eq!(m.current_log_path(), "/l/10.log");
    let present = vec!["/l/8.log".to_string(), "/l/10.log".to_string(), "/l/2.log".to_string()];
    assert_eq!(m.log_files(&present), vec!["/l/8.log".to_string(), "/l/10.log".to_string()]);
}

#[test]
fn failures_are_told() {
    let e = ContainerLogManager::new("/l", 1, 1, &Err("ro".to_string())).unwrap_err();
    assert_eq!(e.message(), "create log dir: ro");
    let mut m = manager("/l", 1000, 2);
    assert_eq!(m.opened(&Err("no".to_string())).unwrap_err().message(), "open log file: no");
    assert!(!m.open);
    m.opened(&Ok(())).unwrap();
    let w = m.write(&stdout("x"));
    assert!(w.rotation.is_none());
    let e = m.finish_write(&w.line, &Err("full".to_string())).unwrap_err();
    assert_eq!(e.message(), "write log: full");
    assert_eq!(m.current_size, 0);
    let r = m.rotate();
    assert_eq!(r.create, "/l/1.log");
    let e = m.finish_rotation(&Err("no".to_string())).unwrap_err();
    assert_eq!(e.message(), "open rotated log: no");
    assert!(m.finish_write(&w.line, &Ok(())).is_ok());
    assert_eq!(m.current_size, 0);
    assert_eq!(m.rotate().create, "/l/2.log");
}

#[test]
fn only_the_last_files_are_kept() {
    let mut disk = Disk::new();
    for n in 0..10 {
        disk.files.insert(format!("/l/{}.log", n), String::new());
    }
    disk.files.insert("/l/notes.txt".to_string(), String::new());
    let listing = Ok(disk.listing("/l"));
    let mut mgr = disk.open(ContainerLogManager::new("/l", 10, 3, &listing).unwrap());
    assert_eq!(mgr.current_index, 9);
    disk.write(&mut mgr, &stdout("a line"));
    let names: Vec<&String> = disk.files.keys().collect();
    assert_eq!(names, vec!["/l/10.log", "/l/8.log", "/l/9.log", "/l/notes.txt"]);
}

#[test]
fn unreadable_sizes_have_defaults() {
    assert_eq!(parse_log_max_size("xKi"), 10 * 1024);
    assert_eq!(parse_log_max_size("xMi"), 10 * 1024 * 1024);
    assert_eq!(parse_log_max_size("xGi"), 1024 * 1024 * 1024);
    assert_eq!(parse_log_max_size("x"), 10 * 1024 * 1024);
}
