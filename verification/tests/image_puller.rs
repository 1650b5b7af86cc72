use kubelet_adapters::error::KubeletError;
use kubelet_adapters::image_puller::{
    ImageBackoff, ImagePuller, MirrorPodManager, PodGarbageCollector, PullStep,
};
use kubelet_adapters::json::JsonValue;
use kubelet_adapters::kube_status::ApiOutcome;
use kubelet_adapters::mock_runtime::MockRuntime;
use kubelet_adapters::types::{ImagePullPolicy, Timestamp};

const SECOND: u64 = 1_000_000_000;

fn ago(secs: i64) -> Timestamp {
    Timestamp { secs: 1_750_000_000 - secs, nanos: 0 }
}

/// Takes the steps with a runtime.
fn ensure(
    puller: &mut ImagePuller,
    runtime: &mut MockRuntime,
    image: &str,
    policy: ImagePullPolicy,
    now: u64,
) -> Result<String, KubeletError> {
    let local = if puller.needs_status(&policy) {
        runtime.image_status(image).map(|i| i.id.clone())
    } else {
        None
    };
    match puller.ensure_image(image, &policy, &local, now) {
        PullStep::Present(id) => Ok(id),
        PullStep::Refused(e) => Err(e),
        PullStep::Pull => {
            let outcome = runtime.pull_image(image, "0123");
            puller.finish_pull(image, outcome, now)
        }
    }
}

#[test]
fn test_image_puller_never_policy_missing_fails() {
    let mut runtime = MockRuntime::new();
    let mut puller = ImagePuller::new();
    let result = ensure(&mut puller, &mut runtime, "nonexistent:latest", ImagePullPolicy::Never, 0);
    assert!(result.is_err());
}

#[test]
fn test_image_puller_always_pulls() {
    let mut runtime = MockRuntime::new();
    let mut puller = ImagePuller::new();
    let result = ensure(&mut puller, &mut runtime, "nginx:latest", ImagePullPolicy::Always, 0);
    assert!(result.is_ok());
}

#[test]
fn test_backoff_increments_on_failure() {
    let mut runtime = MockRuntime::new_failing();
    let mut puller = ImagePuller::new();
    let _ = ensure(&mut puller, &mut runtime, "bad:image", ImagePullPolicy::Always, 0);
    assert_eq!(puller.failure_count("bad:image"), 1);
    let result = ensure(&mut puller, &mut runtime, "bad:image", ImagePullPolicy::Always, 1);
    assert!(result.is_err());
    assert_eq!(puller.failure_count("bad:image"), 1);
}

#[test]
fn test_pod_gc_collects_oldest_beyond_threshold() {
    let gc = PodGarbageCollector::new("/var/lib/kubelet/pods", 2);
    let terminated = vec![
        ("uid-1".to_string(), ago(300)),
        ("uid-2".to_string(), ago(200)),
        ("uid-3".to_string(), ago(100)),
        ("uid-4".to_string(), ago(50)),
    ];
    let to_gc = gc.collect(&terminated);
    assert_eq!(to_gc.len(), 2);
    assert!(to_gc.contains(&"uid-1".to_string()));
    assert!(to_gc.contains(&"uid-2".to_string()));
}

#[test]
fn test_pod_gc_within_threshold_nothing_collected() {
    let gc = PodGarbageCollector::new("/var/lib/kubelet/pods", 10);
    let terminated = vec![("uid-1".to_string(), ago(0)), ("uid-2".to_string(), ago(0))];
    assert!(gc.collect(&terminated).is_empty());
}

#[test]
fn test_pod_gc_remove_dir() {
    let gc = PodGarbageCollector::new("/var/lib/kubelet/pods", 0);
    assert_eq!(gc.pod_dir("uid-test"), "/var/lib/kubelet/pods/uid-test");
    gc.remove_pod_dir("uid-test", &Some(Ok(()))).unwrap();
    gc.remove_pod_dir("uid-test", &None).unwrap();
    assert!(gc.remove_pod_dir("uid-test", &Some(Err("busy".to_string()))).is_err());
}

#[test]
fn waits_double_up_to_five_minutes() {
    let mut b = ImageBackoff::new(0);
    assert!(b.should_retry(0));
    let mut waits = Vec::new();
    for _ in 0..7 {
        b.record_failure(0);
        waits.push(b.next_retry / SECOND as u128);
    }
    assert_eq!(waits, vec![10, 20, 40, 80, 160, 300, 300]);
    assert!(!b.should_retry(299 * SECOND));
    assert!(b.should_retry(300 * SECOND));
    b.record_success(0);
    assert_eq!(b.failure_count, 0);
    assert!(b.should_retry(0));
}

#[test]
fn waits_pass_the_end_of_the_clock() {
    let mut b = ImageBackoff::new(u64::MAX);
    b.record_failure(u64::MAX);
    assert_eq!(b.next_retry, u64::MAX as u128 + 10 * SECOND as u128);
    assert!(!b.should_retry(u64::MAX));

    let mut runtime = MockRuntime::new_failing();
    let mut puller = ImagePuller::new();
    let first = ensure(&mut puller, &mut runtime, "bad", ImagePullPolicy::Always, u64::MAX);
    assert_eq!(first.unwrap_err().message(), "mock pull failure for image 'bad'");
    let e = ensure(&mut puller, &mut runtime, "bad", ImagePullPolicy::Always, u64::MAX - 1);
    assert_eq!(
        e.unwrap_err().message(),
        "image 'bad' is in pull backoff (retry in 10.000000001s, failures: 1)"
    );
}

#[test]
fn backoffs_tell_how_long() {
    let mut runtime = MockRuntime::new_failing();
    let mut puller = ImagePuller::new();
    let first = ensure(&mut puller, &mut runtime, "bad", ImagePullPolicy::Always, 0).unwrap_err();
    assert_eq!(first.message(), "mock pull failure for image 'bad'");
    let e = ensure(&mut puller, &mut runtime, "bad", ImagePullPolicy::Always, SECOND / 2);
    assert_eq!(
        e.unwrap_err().message(),
        "image 'bad' is in pull backoff (retry in 9.5s, failures: 1)"
    );
    assert_eq!(puller.backoff_count(), 1);
    puller.clear_backoff("bad");
    assert_eq!(puller.failure_count("bad"), 0);
}

#[test]
fn present_images_are_not_pulled() {
    let mut runtime = MockRuntime::new();
    let mut puller = ImagePuller::new();
    let pulled = runtime.pull_image("nginx", "77").unwrap();
    let r = ensure(&mut puller, &mut runtime, "nginx", ImagePullPolicy::IfNotPresent, 0);
    assert_eq!(r.unwrap(), pulled);
    assert_eq!(runtime.list_images().len(), 1);
    let r = ensure(&mut puller, &mut runtime, "nginx", ImagePullPolicy::Never, 0);
    assert_eq!(r.unwrap(), pulled);
}

#[test]
fn mirror_pods_need_a_connection() {
    let spec = || JsonValue::Null;
    assert!(MirrorPodManager::new("node1", false)
        .create_mirror_pod("uid", "p", "ns", spec())
        .is_none());
    let m = MirrorPodManager::new("node1", true);
    let pod = m.create_mirror_pod("uid", "p", "ns", spec()).unwrap();
    assert_eq!(pod.get("kind").unwrap().as_str().unwrap(), "Pod");
    let metadata = pod.get("metadata").unwrap();
    assert_eq!(metadata.get("namespace").unwrap().as_str().unwrap(), "ns");
    assert!(m.mirror_pod_created(&ApiOutcome::Done).is_ok());
    let conflict = ApiOutcome::Refused { code: 409, why: "exists".to_string() };
    assert!(m.mirror_pod_created(&conflict).is_ok());
    let refused = ApiOutcome::Refused { code: 500, why: "no".to_string() };
    assert!(m.mirror_pod_created(&refused).is_err());
    let gone = ApiOutcome::Refused { code: 404, why: "gone".to_string() };
    assert!(m.delete_mirror_pod(&gone).is_ok());
    assert!(m.delete_mirror_pod(&ApiOutcome::Failed { why: "x".to_string() }).is_err());
}

#[test]
fn a_success_is_recorded_at_any_time() {
    let mut puller = ImagePuller::new();
    let down = || Err(KubeletError::Runtime("down".to_string()));
    assert!(puller.finish_pull("img", down(), 0).is_err());
    assert_eq!(puller.failure_count("img"), 1);
    assert_eq!(puller.finish_pull("img", Ok("id".to_string()), u64::MAX).unwrap(), "id");
    assert_eq!(puller.failure_count("img"), 0);
}
