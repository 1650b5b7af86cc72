use kubelet_adapters::container_builder::{build_container_config, ResolvedEnv};
use kubelet_adapters::mock_runtime::{
    ContainerID, CreateSandboxConfig, MockRuntime, RuntimeContainerState, SandboxState,
};
use kubelet_adapters::strmap::StrMap;
use kubelet_adapters::types::{
    ContainerSpec, ImagePullPolicy, PodRef, PodSpec, PodUID, ResourceRequirements, Timestamp,
};

fn now() -> Timestamp {
    Timestamp { secs: 1_750_000_000, nanos: 0 }
}

fn dummy_container_spec(name: &str) -> ContainerSpec {
    ContainerSpec {
        name: name.to_string(),
        image: "nginx:latest".to_string(),
        command: vec![],
        args: vec![],
        working_dir: None,
        ports: vec![],
        env: vec![],
        resources: ResourceRequirements::default(),
        volume_mounts: vec![],
        liveness_probe: None,
        readiness_probe: None,
        startup_probe: None,
        image_pull_policy: ImagePullPolicy::IfNotPresent,
        security_context: None,
        termination_message_path: None,
        termination_message_policy: None,
        lifecycle: None,
        env_from: vec![],
        stdin: None,
        stdin_once: None,
        tty: None,
        restart_policy: None,
    }
}

fn sandbox_config(pod_uid: &str) -> CreateSandboxConfig {
    CreateSandboxConfig {
        pod_uid: pod_uid.to_string(),
        pod_name: "test".to_string(),
        pod_namespace: "default".to_string(),
        labels: StrMap::new(),
    }
}

fn create(rt: &mut MockRuntime, pod_uid: &str, sandbox_id: &str, id: &str) -> ContainerID {
    let pod = PodSpec::bare(
        PodUID::new(pod_uid),
        PodRef::new("default", "test"),
        "node1".to_string(),
    );
    let ctr = dummy_container_spec("app");
    let config = build_container_config(&pod, &ctr, sandbox_id, &ResolvedEnv::new(), "/tmp", "test");
    rt.create_container(&config, id, now())
}

#[test]
fn test_run_and_list_sandbox() {
    let mut rt = MockRuntime::new();
    let id = rt.run_pod_sandbox(sandbox_config("uid-1"), "sb-1", now());
    let sandboxes = rt.list_pod_sandboxes();
    assert_eq!(sandboxes.len(), 1);
    assert_eq!(sandboxes[0].1.id, id);
    assert_eq!(rt.sandbox_count(), 1);
}

#[test]
fn test_create_and_start_container() {
    let mut rt = MockRuntime::new();
    let sandbox_id = rt.run_pod_sandbox(sandbox_config("uid-2"), "sb-2", now());
    let cid = create(&mut rt, "uid-2", &sandbox_id, "c-2");
    rt.start_container(&cid, 77, now()).unwrap();
    let status = rt.container_status(&cid).unwrap();
    assert_eq!(status.state, RuntimeContainerState::Running);
    assert_eq!(status.pid, Some(77));
    assert_eq!(rt.start_calls, 1);
}

#[test]
fn test_stop_container() {
    let mut rt = MockRuntime::new();
    let sandbox_id = rt.run_pod_sandbox(sandbox_config("uid-3"), "sb-3", now());
    let cid = create(&mut rt, "uid-3", &sandbox_id, "c-3");
    rt.start_container(&cid, 1, now()).unwrap();
    rt.stop_container(&cid, now());
    let status = rt.container_status(&cid).unwrap();
    assert_eq!(status.state, RuntimeContainerState::Exited);
    assert_eq!(status.exit_code, Some(0));
}

#[test]
fn test_fail_on_start() {
    let mut rt = MockRuntime::new();
    rt.set_fail_on_start(true);
    let sandbox_id = rt.run_pod_sandbox(sandbox_config("uid-4"), "sb-4", now());
    let cid = create(&mut rt, "uid-4", &sandbox_id, "c-4");
    let result = rt.start_container(&cid, 1, now());
    assert!(result.is_err());
    assert_eq!(rt.start_calls, 0);
}

#[test]
fn test_remove_container() {
    let mut rt = MockRuntime::new();
    let sandbox_id = rt.run_pod_sandbox(sandbox_config("uid-5"), "sb-5", now());
    let cid = create(&mut rt, "uid-5", &sandbox_id, "c-5");
    assert_eq!(rt.container_count(), 1);
    rt.remove_container(&cid);
    assert_eq!(rt.container_count(), 0);
}

#[test]
fn test_exec_sync() {
    let mut rt = MockRuntime::new();
    let sandbox_id = rt.run_pod_sandbox(sandbox_config("uid-6"), "sb-6", now());
    let cid = create(&mut rt, "uid-6", &sandbox_id, "c-6");
    let command = vec!["echo".to_string(), "hello".to_string()];
    let result = rt.exec_sync(&cid, &command);
    assert_eq!(result.exit_code, 0);
    assert!(!result.stdout.is_empty());
    assert_eq!(result.stdout, format!("mock exec: {:?}", command).into_bytes());
}

#[test]
fn test_pull_and_list_images() {
    let mut rt = MockRuntime::new();
    rt.pull_image("nginx:1.25", "01").unwrap();
    rt.pull_image("alpine:3.18", "02").unwrap();
    let images = rt.list_images();
    assert_eq!(images.len(), 2);
}

#[test]
fn test_image_status_found() {
    let mut rt = MockRuntime::new();
    rt.pull_image("nginx:latest", "01").unwrap();
    let info = rt.image_status("nginx:latest");
    assert!(info.is_some());
    assert_eq!(info.unwrap().id, "sha256:01");
}

#[test]
fn test_image_status_not_found() {
    let rt = MockRuntime::new();
    let info = rt.image_status("nginx:latest");
    assert!(info.is_none());
}

#[test]
fn commands_are_shown_with_escapes() {
    let rt = MockRuntime::new();
    let command = vec!["a\"b".to_string(), "\n".to_string(), String::new()];
    let result = rt.exec_sync(&ContainerID("c".to_string()), &command);
    assert_eq!(result.stdout, format!("mock exec: {:?}", command).into_bytes());
    let none = rt.exec_sync(&ContainerID("c".to_string()), &vec![]);
    assert_eq!(none.stdout, b"mock exec: []".to_vec());
}

#[test]
fn containers_may_exit_at_once() {
    let mut rt = MockRuntime::new();
    rt.set_exit_on_start(Some(7));
    let cid = create(&mut rt, "u", "s", "c");
    rt.start_container(&cid, 1, now()).unwrap();
    let status = rt.container_status(&cid).unwrap();
    assert_eq!(status.state, RuntimeContainerState::Exited);
    assert_eq!(status.exit_code, Some(7));
    assert_eq!(status.finished_at, Some(now()));
}

#[test]
fn attaching_needs_a_running_container() {
    let mut rt = MockRuntime::new();
    let unknown = ContainerID("x".to_string());
    assert_eq!(rt.attach_sync(&unknown).unwrap_err().message(), "container not found");
    let cid = create(&mut rt, "u", "s", "c");
    assert!(rt.attach_sync(&cid).unwrap_err().message().contains("not running"));
    rt.start_container(&cid, 1, now()).unwrap();
    assert_eq!(rt.attach_sync(&cid).unwrap().stdout, b"mock attach: c".to_vec());
}

#[test]
fn sandboxes_are_stopped_and_removed() {
    let mut rt = MockRuntime::new();
    rt.run_pod_sandbox(sandbox_config("u"), "s", now());
    rt.run_pod_sandbox(sandbox_config("v"), "t", now());
    rt.stop_pod_sandbox("s");
    assert_eq!(rt.pod_sandbox_status("s").unwrap().state, SandboxState::NotReady);
    assert_eq!(rt.pod_sandbox_status("t").unwrap().state, SandboxState::Ready);
    rt.stop_pod_sandbox("unknown");
    rt.remove_pod_sandbox("s");
    assert!(rt.pod_sandbox_status("s").is_none());
    assert_eq!(rt.sandbox_count(), 1);
    assert_eq!(rt.create_sandbox_calls, 2);
}

#[test]
fn images_are_removed() {
    let mut rt = MockRuntime::new();
    let id = rt.pull_image("nginx", "01").unwrap();
    rt.remove_image(&id);
    assert!(rt.list_images().is_empty());
    assert!(MockRuntime::new_failing().pull_image("nginx", "01").is_err());
}

#[test]
fn every_container_uses_the_same() {
    let rt = MockRuntime::new();
    let s = rt.container_stats(&ContainerID("c".to_string()), now()).unwrap();
    assert_eq!(s.memory_usage_bytes, 10 * 1024 * 1024);
    assert_eq!(s.timestamp, Some(now()));
}

#[test]
fn places_are_used_again_under_a_new_name() {
    let mut rt = MockRuntime::new();
    for i in 0..50 {
        rt.pull_image(&format!("image-{}", i), &format!("{}", i)).unwrap();
    }
    for i in 0..49 {
        rt.remove_image(&format!("sha256:{}", i));
    }
    let left = rt.list_images();
    assert_eq!(left.len(), 1);
    assert_eq!(left[0].0, "sha256:49");
    assert_eq!(left[0].1.repo_tags, vec!["image-49".to_string()]);
    assert_eq!(rt.container_count(), 0);
    assert!(rt.list_containers().is_empty());
}
