use kubelet_adapters::error::KubeletError;
use kubelet_adapters::kube_client::InMemoryNodeReporter;
use kubelet_adapters::lease::{LeaseController, LeaseState, NodeLease};
use kubelet_adapters::types::Timestamp;

fn at_ms(ms: i64) -> Timestamp {
    Timestamp { secs: 1_750_000_000 + ms / 1000, nanos: (ms % 1000) as u32 * 1_000_000 }
}

fn make_controller(max_retries: u32) -> LeaseController {
    LeaseController::new("test-node", 40, max_retries, at_ms(0))
}

fn renew(c: &mut LeaseController, reporter: &mut InMemoryNodeReporter, now: Timestamp) {
    c.start_renewal();
    let outcome = reporter.renew_node_lease("test-node", 40);
    c.acquire_or_renew(&outcome, now);
}

fn fail(c: &mut LeaseController) {
    c.start_renewal();
    c.acquire_or_renew(&Err(KubeletError::NodeStatus("down".to_string())), at_ms(0));
}

#[test]
fn test_initial_state_is_active() {
    let controller = make_controller(3);
    assert_eq!(controller.current_state(), LeaseState::Active);
}

#[test]
fn test_successful_renewal_stays_active() {
    let mut reporter = InMemoryNodeReporter::new();
    let mut controller = make_controller(3);
    renew(&mut controller, &mut reporter, at_ms(5));
    assert_eq!(controller.current_state(), LeaseState::Active);
    assert_eq!(reporter.lease_renewal_count(), 1);
}

#[test]
fn test_lease_renewed_updates_renew_time() {
    let mut reporter = InMemoryNodeReporter::new();
    let mut controller = make_controller(40);
    let before = controller.current_lease().renew_time;
    renew(&mut controller, &mut reporter, at_ms(10));
    let after = controller.current_lease().renew_time;
    assert!(after.as_nanos() > before.as_nanos(), "renew_time should advance after renewal");
}

#[test]
fn test_multiple_renewals_accumulate() {
    let mut reporter = InMemoryNodeReporter::new();
    let mut controller = make_controller(5);
    for i in 0..5 {
        renew(&mut controller, &mut reporter, at_ms(i));
    }
    assert_eq!(reporter.lease_renewal_count(), 5);
    assert_eq!(controller.current_state(), LeaseState::Active);
}

#[test]
fn test_lease_not_expired_after_renewal() {
    let mut reporter = InMemoryNodeReporter::new();
    let mut controller = make_controller(40);
    renew(&mut controller, &mut reporter, at_ms(7));
    assert!(!controller.current_lease().is_expired(at_ms(7)));
}

#[test]
fn leases_are_lost_after_too_many_failures() {
    let mut c = make_controller(3);
    fail(&mut c);
    assert_eq!(c.current_state(), LeaseState::Degraded { consecutive_failures: 1 });
    fail(&mut c);
    assert_eq!(c.current_state(), LeaseState::Degraded { consecutive_failures: 2 });
    fail(&mut c);
    assert_eq!(c.current_state(), LeaseState::Lost);
    let mut reporter = InMemoryNodeReporter::new();
    renew(&mut c, &mut reporter, at_ms(1));
    assert_eq!(c.current_state(), LeaseState::Active);
    fail(&mut c);
    assert_eq!(c.current_state(), LeaseState::Degraded { consecutive_failures: 1 });
}

#[test]
fn leases_expire_after_their_duration() {
    let mut lease = NodeLease::new("n", 40, at_ms(0));
    assert!(!lease.is_expired(at_ms(40_000)));
    assert!(lease.is_expired(at_ms(40_001)));
    assert_eq!(lease.time_until_renewal(at_ms(0)), 10_000_000_000);
    lease.renew(at_ms(40_001));
    assert!(!lease.is_expired(at_ms(40_001)));
}

#[test]
fn renewals_wait_for_a_quarter_of_the_duration() {
    let c = make_controller(3);
    assert_eq!(c.next_wait_ms(at_ms(0)), 10_000);
}

#[test]
fn failed_renewals_are_tried_again_after_waits_that_double() {
    let mut c = make_controller(20);
    let mut waits = Vec::new();
    for _ in 0..9 {
        fail(&mut c);
        waits.push(c.next_wait_ms(at_ms(60_000)));
    }
    assert_eq!(waits, vec![100, 200, 400, 800, 1_600, 3_200, 6_400, 10_000, 10_000]);
    assert_eq!(c.next_wait_ms(at_ms(0)), 10_000);
    let mut reporter = InMemoryNodeReporter::new();
    renew(&mut c, &mut reporter, at_ms(60_000));
    assert_eq!(c.next_wait_ms(at_ms(60_000)), 10_000);
    assert_eq!(c.next_wait_ms(at_ms(67_500)), 2_000);
    assert_eq!(c.next_wait_ms(at_ms(69_500)), 100);
    fail(&mut c);
    assert_eq!(c.next_wait_ms(at_ms(69_500)), 100);
}

#[test]
fn lost_leases_are_tried_again_at_the_usual_pace() {
    let mut c = make_controller(1);
    fail(&mut c);
    assert_eq!(c.current_state(), LeaseState::Lost);
    assert_eq!(c.next_wait_ms(at_ms(60_000)), 10_000);
    let mut short = LeaseController::new("test-node", 3, 5, at_ms(0));
    for _ in 0..4 {
        fail(&mut short);
        assert_eq!(short.next_wait_ms(at_ms(0)), 100);
    }
}
