use kubelet_adapters::active_deadline::ActiveDeadlineController;
use kubelet_adapters::types::{PodUID, Timestamp};

const SECOND: i128 = 1_000_000_000;

fn at(secs: i64) -> Timestamp {
    Timestamp { secs, nanos: 0 }
}

fn now() -> Timestamp {
    at(1_750_000_000)
}

fn ago(secs: i64) -> Timestamp {
    at(1_750_000_000 - secs)
}

#[test]
fn test_register_and_track() {
    let mut ctrl = ActiveDeadlineController::new();
    ctrl.register(PodUID::new("uid-1"), now(), 60);
    assert_eq!(ctrl.tracked_count(), 1);
}

#[test]
fn test_deregister_removes_pod() {
    let mut ctrl = ActiveDeadlineController::new();
    let uid = PodUID::new("uid-2");
    ctrl.register(uid.copied(), now(), 60);
    ctrl.deregister(&uid);
    assert_eq!(ctrl.tracked_count(), 0);
}

#[test]
fn test_not_expired_for_future_deadline() {
    let mut ctrl = ActiveDeadlineController::new();
    ctrl.register(PodUID::new("uid-3"), now(), 3600);
    assert!(ctrl.expired_pods(now()).is_empty());
}

#[test]
fn test_expired_for_past_deadline() {
    let mut ctrl = ActiveDeadlineController::new();
    let uid = PodUID::new("uid-4");
    ctrl.register(uid.copied(), ago(120), 60);
    let expired = ctrl.expired_pods(now());
    assert_eq!(expired.len(), 1);
    assert_eq!(expired[0], uid);
}

#[test]
fn test_time_remaining_for_tracked_pod() {
    let mut ctrl = ActiveDeadlineController::new();
    ctrl.register(PodUID::new("uid-5"), now(), 3600);
    let remaining = ctrl.time_remaining(&PodUID::new("uid-5"), at(1_750_000_001)).unwrap();
    assert!(remaining > 3500 * SECOND);
    assert!(remaining <= 3600 * SECOND);
    assert_eq!(remaining, 3599 * SECOND);
}

#[test]
fn test_time_remaining_zero_for_expired() {
    let mut ctrl = ActiveDeadlineController::new();
    let uid = PodUID::new("uid-6");
    ctrl.register(uid.copied(), ago(120), 60);
    let remaining = ctrl.time_remaining(&uid, now()).unwrap();
    assert_eq!(remaining, 0);
}

#[test]
fn test_time_remaining_none_for_untracked() {
    let ctrl = ActiveDeadlineController::new();
    assert!(ctrl.time_remaining(&PodUID::new("unknown"), now()).is_none());
}

#[test]
fn test_multiple_pods_only_expired_returned() {
    let mut ctrl = ActiveDeadlineController::new();
    ctrl.register(PodUID::new("alive"), now(), 3600);
    ctrl.register(PodUID::new("dead"), ago(200), 60);
    let expired = ctrl.expired_pods(now());
    assert_eq!(expired.len(), 1);
    assert_eq!(expired[0], PodUID::new("dead"));
}

#[test]
fn registering_again_replaces_the_deadline() {
    let mut ctrl = ActiveDeadlineController::default();
    ctrl.register(PodUID::new("uid-7"), ago(120), 60);
    ctrl.register(PodUID::new("uid-7"), now(), 60);
    assert_eq!(ctrl.tracked_count(), 1);
    assert!(ctrl.expired_pods(now()).is_empty());
    assert_eq!(ctrl.time_remaining(&PodUID::new("uid-7"), now()), Some(60 * SECOND));
}

#[test]
fn expired_pods_only_after_the_deadline_itself() {
    let mut ctrl = ActiveDeadlineController::new();
    ctrl.register(PodUID::new("uid-8"), now(), 60);
    assert!(ctrl.expired_pods(at(1_750_000_060)).is_empty());
    assert_eq!(ctrl.time_remaining(&PodUID::new("uid-8"), at(1_750_000_060)), Some(0));
    let after = Timestamp { secs: 1_750_000_060, nanos: 1 };
    assert_eq!(ctrl.expired_pods(after).len(), 1);
}

#[test]
fn expired_pods_stay_expired_without_time_left() {
    let mut ctrl = ActiveDeadlineController::new();
    ctrl.register(PodUID::new("uid-9"), now(), 60);
    for later in [1_750_000_061, 1_750_000_900, 1_760_000_000] {
        assert_eq!(ctrl.expired_pods(at(later)).len(), 1);
        assert_eq!(ctrl.time_remaining(&PodUID::new("uid-9"), at(later)), Some(0));
    }
    ctrl.deregister(&PodUID::new("uid-9"));
    assert!(ctrl.expired_pods(at(1_760_000_000)).is_empty());
}
