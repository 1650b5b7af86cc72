use kubelet_adapters::error::KubeletError;
use kubelet_adapters::lifecycle::{
    run_post_start, run_pre_stop, HookAction, HookOutcome, LifecycleHookExecutor,
};
use kubelet_adapters::mock_runtime::{ContainerID, MockRuntime};
use kubelet_adapters::types::LifecycleHandler;

#[test]
fn test_exec_hook_success() {
    let runtime = MockRuntime::new();
    let cid = ContainerID("test-container-123".to_string());
    let handler = LifecycleHandler::Exec {
        command: vec!["echo".to_string(), "hello".to_string()],
    };
    let executor = LifecycleHookExecutor::new(5 * 1000);
    let outcome = match executor.execute(&handler) {
        HookAction::Exec { command, timeout_secs } => {
            assert_eq!(timeout_secs, 5);
            let r = runtime.exec_sync(&cid, &command);
            HookOutcome::Exited { exit_code: r.exit_code, stderr: r.stderr }
        }
        other => panic!("{:?}", other),
    };
    assert!(executor.hook_result(&handler, outcome).is_ok());
}

#[test]
fn test_tcp_hook_failure_on_no_listener() {
    let handler = LifecycleHandler::TcpSocket { port: 19999, host: None };
    let executor = LifecycleHookExecutor::new(100);
    match executor.execute(&handler) {
        HookAction::TcpConnect { address } => assert!(address.ends_with(":19999")),
        other => panic!("{:?}", other),
    }
    let refused = HookOutcome::ConnectFailed("refused".to_string());
    assert!(executor.hook_result(&handler, refused).is_err());
    assert!(executor.hook_result(&handler, HookOutcome::TimedOut).is_err());
    assert!(executor.hook_result(&handler, HookOutcome::Connected).is_ok());
}

#[test]
fn test_pre_stop_never_panics_on_error() {
    let handler = LifecycleHandler::TcpSocket { port: 19998, host: None };
    let executor = run_pre_stop(100);
    assert_eq!(executor.timeout_ms, 100);
    let _ = executor.hook_result(&handler, HookOutcome::TimedOut);
}

#[test]
fn test_sleep_hook_completes_within_duration() {
    let handler = LifecycleHandler::Sleep { seconds: 0 };
    let executor = LifecycleHookExecutor::new(5 * 1000);
    assert!(matches!(executor.execute(&handler), HookAction::Sleep { seconds: 0 }));
    assert!(executor.hook_result(&handler, HookOutcome::Slept).is_ok());
}

#[test]
fn test_sleep_hook_times_out_when_exceeds_grace_period() {
    let handler = LifecycleHandler::Sleep { seconds: 60 };
    let executor = LifecycleHookExecutor::new(50);
    let result = executor.hook_result(&handler, HookOutcome::TimedOut);
    assert!(result.is_err());
    let e = result.unwrap_err();
    let msg = e.message();
    assert!(
        msg.contains("timed out") || msg.contains("grace period"),
        "unexpected error: {msg}"
    );
}

#[test]
fn test_sleep_hook_as_pre_stop_completes_gracefully() {
    let handler = LifecycleHandler::Sleep { seconds: 0 };
    let executor = run_pre_stop(5 * 1000);
    assert!(executor.hook_result(&handler, HookOutcome::Slept).is_ok());
}

#[test]
fn http_hooks_take_only_success() {
    let handler = LifecycleHandler::HttpGet {
        path: "/ready".to_string(),
        port: 8080,
        host: None,
        scheme: "HTTP".to_string(),
    };
    let executor = run_post_start();
    match executor.execute(&handler) {
        HookAction::HttpGet { url } => assert!(url.ends_with(":8080/ready"), "{}", url),
        other => panic!("{:?}", other),
    }
    let ok = HookOutcome::Answered { code: 200, status: "200 OK".to_string() };
    assert!(executor.hook_result(&handler, ok).is_ok());
    let bad = HookOutcome::Answered { code: 503, status: "503".to_string() };
    assert!(executor.hook_result(&handler, bad).is_err());
    let failed = HookOutcome::RequestFailed("x".to_string());
    assert!(executor.hook_result(&handler, failed).is_err());
    let client = HookOutcome::ClientFailed("x".to_string());
    assert!(executor.hook_result(&handler, client).is_err());
}

#[test]
fn failing_commands_are_quoted() {
    let handler = LifecycleHandler::Exec { command: vec!["false".to_string()] };
    let executor = run_post_start();
    let outcome = HookOutcome::Exited { exit_code: 3, stderr: b"no \xff".to_vec() };
    let e = executor.hook_result(&handler, outcome).unwrap_err();
    assert!(e.message().contains('3'));
    assert!(e.message().contains("no \u{fffd}"));
    let down = HookOutcome::RuntimeFailed(KubeletError::Runtime("down".to_string()));
    assert!(executor.hook_result(&handler, down).is_err());
}
