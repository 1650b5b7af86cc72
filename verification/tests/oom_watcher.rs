use kubelet_adapters::oom_watcher::{OomEvent, OomScoreManager, OomWatcher, WriteOutcome};
use kubelet_adapters::types::{PodUID, QosClass, Timestamp};

fn now() -> Timestamp {
    Timestamp { secs: 1_750_000_000, nanos: 0 }
}

fn event(process_name: &str, pod_uid: Option<PodUID>) -> OomEvent {
    OomEvent {
        timestamp: now(),
        container_id: None,
        pod_uid,
        process_name: process_name.to_string(),
        message: "OOM".to_string(),
    }
}

#[test]
fn test_record_and_count() {
    let mut watcher = OomWatcher::new(10);
    watcher.record(event("nginx", None));
    assert_eq!(watcher.event_count(), 1);
}

#[test]
fn test_capacity_evicts_oldest() {
    let mut watcher = OomWatcher::new(3);
    for i in 0..5 {
        watcher.record(event(&format!("proc-{}", i), None));
    }
    assert_eq!(watcher.event_count(), 3);
    let first = watcher.recent()[0];
    assert_eq!(first.process_name, "proc-4");
}

#[test]
fn test_events_for_pod() {
    let mut watcher = OomWatcher::new(10);
    let uid = PodUID::new("uid-oom");
    watcher.record(event("app", Some(uid.copied())));
    watcher.record(event("other", None));
    let pod_events = watcher.events_for_pod(&uid);
    assert_eq!(pod_events.len(), 1);
    assert_eq!(pod_events[0].process_name, "app");
}

#[test]
fn test_parse_kmsg_oom_line() {
    let line = "kernel: Out of memory: Killed process 1234 (nginx) total-vm:123kB, anon-rss:456kB";
    let event = OomWatcher::parse_kmsg_line(line, now()).unwrap();
    assert_eq!(event.process_name, "nginx");
}

#[test]
fn test_parse_kmsg_non_oom_line() {
    let result = OomWatcher::parse_kmsg_line("kernel: CPU0: Temperature above threshold", now());
    assert!(result.is_none());
}

#[test]
fn test_parse_kmsg_oom_kill_line() {
    let line = "oom-kill:constraint=CONSTRAINT_NONE,nodemask=(null),cpuset=/,mems_allowed=0";
    let event = OomWatcher::parse_kmsg_line(line, now());
    assert!(event.is_some());
}

#[test]
fn every_line_that_tells_of_a_kill_is_read() {
    let name = |line: &str| {
        let event = OomWatcher::parse_kmsg_line(line, now()).unwrap();
        assert_eq!(event.message, line);
        event.process_name
    };
    assert_eq!(name("a) Out of memory: Killed process 1 (nginx)"), "nginx");
    assert_eq!(name(") oom-kill ("), "unknown");
    assert_eq!(name("Out of memory: (nginx"), "unknown");
    assert_eq!(name("Out of memory: nginx)"), "unknown");
    assert_eq!(name("Out of memory"), "unknown");
    assert_eq!(name("oom-kill () (b)"), "");
}

#[test]
fn test_recent_order_newest_first() {
    let mut watcher = OomWatcher::new(10);
    for i in 0..3 {
        watcher.record(event(&format!("p{}", i), None));
    }
    let names: Vec<&str> = watcher.recent().iter().map(|e| e.process_name.as_str()).collect();
    assert_eq!(names, vec!["p2", "p1", "p0"]);
}

#[test]
fn test_oom_score_for_guaranteed_and_besteffort() {
    let mgr = OomScoreManager::new();
    assert_eq!(mgr.score_for_qos(&QosClass::Guaranteed, None, None), -997);
    assert_eq!(mgr.score_for_qos(&QosClass::BestEffort, None, None), 1000);
}

#[test]
fn test_oom_score_for_burstable_range() {
    let mgr = OomScoreManager::new();
    let s = mgr.score_for_qos(
        &QosClass::Burstable,
        Some(512 * 1024 * 1024),
        Some(8 * 1024 * 1024 * 1024),
    );
    assert!((2..=999).contains(&s));
    assert_eq!(s, 938);
}

#[test]
fn scores_go_down_with_the_request() {
    let mgr = OomScoreManager::default();
    let score = |r: u64| mgr.score_for_qos(&QosClass::Burstable, Some(r), Some(1000));
    assert_eq!(score(0), 999);
    assert_eq!(score(1000), 2);
    assert_eq!(score(5000), 2);
    assert!(score(400) >= score(500));
}

#[test]
fn scores_are_written_to_the_process() {
    assert_eq!(OomScoreManager::score_path(12), "/proc/12/oom_score_adj");
    assert_eq!(OomScoreManager::score_text(-997), "-997");
    let mgr = OomScoreManager::new();
    assert_eq!(mgr.apply_to_pid(WriteOutcome::Done), Ok(true));
    assert_eq!(mgr.apply_to_pid(WriteOutcome::PermissionDenied), Ok(false));
    assert!(mgr.apply_to_pid(WriteOutcome::Failed("x".to_string())).is_err());
    assert_eq!(OomWatcher::read_oom_score_adj(&Some(" -5\n".to_string())), Some(-5));
    assert_eq!(OomWatcher::read_oom_score_adj(&Some("x".to_string())), None);
    assert_eq!(OomWatcher::read_oom_score_adj(&None), None);
}
