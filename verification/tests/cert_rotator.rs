use kubelet_adapters::cert_rotator::{
    AgeFraction, CertInfo, CertRotator, RotationAction, RotationState, SignError,
};
use kubelet_adapters::error::KubeletError;
use kubelet_adapters::fileops::FileOp;
use kubelet_adapters::types::Timestamp;

const DAY: i64 = 86_400;
const NOW: i64 = 1_750_000_000;

fn at(secs: i64) -> Timestamp {
    Timestamp { secs, nanos: 0 }
}

fn info(before_days: i64, after_days: i64, common_name: &str) -> CertInfo {
    CertInfo {
        not_before: at(NOW + before_days * DAY),
        not_after: at(NOW + after_days * DAY),
        common_name: common_name.to_string(),
    }
}

#[test]
fn test_cert_info_rotation_state_valid() {
    let info = info(-10, 355, "system:node:node1");
    assert_eq!(info.rotation_state(at(NOW)), RotationState::Valid);
}

#[test]
fn test_cert_info_rotation_state_needs_rotation() {
    let info = info(-280, 85, "system:node:node1");
    assert_eq!(info.rotation_state(at(NOW)), RotationState::NeedsRotation);
}

#[test]
fn test_cert_info_rotation_state_expired() {
    let info = info(-366, -1, "system:node:node1");
    assert_eq!(info.rotation_state(at(NOW)), RotationState::MissingOrExpired);
}

#[test]
fn test_cert_info_age_fraction() {
    let info = info(-30, 60, "node1");
    let age = info.age_fraction(at(NOW));
    let age = age.elapsed as f64 / age.total as f64;
    assert!((0.32..0.35).contains(&age));
}

#[test]
fn test_load_cert_info_missing_returns_none() {
    let rotator = CertRotator::new("node1", "/pki/nonexistent.crt", "/pki/nonexistent.key");
    let info = rotator.load_cert_info(None);
    assert!(info.is_none());
}

#[test]
fn the_age_is_cut_off_at_both_ends() {
    let i = info(-30, 60, "node1");
    let early = i.age_fraction(at(NOW - 31 * DAY));
    assert_eq!(early, AgeFraction { elapsed: 0, total: 90 * DAY as u128 });
    let late = i.age_fraction(at(NOW + 61 * DAY));
    assert_eq!(late, AgeFraction { elapsed: 90 * DAY as u128, total: 90 * DAY as u128 });
}

#[test]
fn rotation_begins_after_seven_tenths() {
    let i = info(0, 100, "node1");
    assert_eq!(i.rotation_state(at(NOW + 70 * DAY - 1)), RotationState::Valid);
    assert_eq!(i.rotation_state(at(NOW + 70 * DAY)), RotationState::NeedsRotation);
    assert_eq!(i.rotation_state(at(NOW + 100 * DAY)), RotationState::MissingOrExpired);
}

#[test]
fn the_remaining_time_is_exact() {
    let i = info(0, 1, "node1");
    assert_eq!(i.time_remaining(at(NOW)), DAY as i128 * 1_000_000_000);
}

#[test]
fn certificates_are_taken_to_live_a_year() {
    let rotator = CertRotator::new("node1", "/pki/kubelet.crt", "/pki/kubelet.key");
    let info = rotator.load_cert_info(Some(at(NOW))).unwrap();
    assert_eq!(info.not_before, at(NOW));
    assert_eq!(info.not_after, at(NOW + 365 * DAY));
    assert_eq!(info.common_name, "system:node:node1");
}

#[test]
fn rotation_follows_the_state() {
    let rotator = CertRotator::new("node1", "/pki/kubelet.crt", "/pki/kubelet.key");
    assert_eq!(rotator.check_and_rotate(&None, at(NOW)), RotationAction::SelfSign);
    let valid = Some(info(-10, 355, "n"));
    assert_eq!(rotator.check_and_rotate(&valid, at(NOW)), RotationAction::Keep);
    let old = Some(info(-280, 85, "n"));
    assert_eq!(rotator.check_and_rotate(&old, at(NOW)), RotationAction::Request);
    let gone = Some(info(-366, -1, "n"));
    assert_eq!(rotator.check_and_rotate(&gone, at(NOW)), RotationAction::SelfSign);
}

#[test]
fn names_that_a_certificate_cannot_hold_become_localhost() {
    assert_eq!(CertRotator::new("node1", "c", "k").dns_name(), "node1");
    assert_eq!(CertRotator::new("knoten-\u{fc}", "c", "k").dns_name(), "localhost");
    let request = CertRotator::new("node1", "c", "k").self_signed_request();
    assert_eq!(request.common_name, "system:node:node1");
    assert_eq!(request.organization, "system:nodes");
    assert_eq!(request.dns_name, "node1");
    assert_eq!(request.ip, [127, 0, 0, 1]);
}

/// The files that some changes leave behind.
fn left_by(ops: &[FileOp]) -> Vec<(String, String)> {
    let mut files: Vec<(String, String)> = Vec::new();
    for op in ops {
        match op {
            FileOp::Write { path, content } => files.push((path.clone(), content.clone())),
            FileOp::Rename { from, to } => {
                let i = files.iter().position(|f| f.0 == *from).unwrap();
                files[i].0 = to.clone();
            }
            _ => {}
        }
    }
    files
}

#[test]
fn test_generate_self_signed_creates_files() {
    let rotator = CertRotator::new("node1", "/pki/kubelet.crt", "/pki/kubelet.key");
    let files = left_by(&rotator.generate_self_signed().unwrap());
    let text = |path: &str| files.iter().find(|f| f.0 == path).map(|f| f.1.clone());
    assert!(text("/pki/kubelet.crt").is_some());
    assert!(text("/pki/kubelet.key").is_some());
    assert!(text("/pki/kubelet.crt").unwrap().contains("BEGIN CERTIFICATE"));
    assert!(text("/pki/kubelet.key").unwrap().contains("PRIVATE KEY"));
    assert_eq!(files.len(), 2);
    assert!(CertRotator::new("knoten-\u{fc}", "c", "k").generate_self_signed().is_ok());
}

#[test]
fn certificates_are_written_before_they_are_swapped_in() {
    let rotator = CertRotator::new("node1", "/pki/kubelet.crt", "/pki/kubelet.key");
    let shown: Vec<String> =
        rotator.swap_certificate("C", "K").iter().map(|op| format!("{:?}", op)).collect();
    assert_eq!(
        shown,
        vec![
            "CreateDir { path: \"/pki\" }",
            "Write { path: \"/pki/kubelet.crt.tmp\", content: \"C\" }",
            "Write { path: \"/pki/kubelet.key.tmp\", content: \"K\" }",
            "Rename { from: \"/pki/kubelet.crt.tmp\", to: \"/pki/kubelet.crt\" }",
            "Rename { from: \"/pki/kubelet.key.tmp\", to: \"/pki/kubelet.key\" }",
        ]
    );
}

#[test]
fn failures_of_a_swap_are_told_apart() {
    let rotator = CertRotator::new("node1", "/pki/kubelet.crt", "/pki/kubelet.key");
    let said = |n: usize| match rotator.certificate_swapped(&Some((n, "x".to_string()))) {
        Err(KubeletError::Tls(m)) => m,
        other => panic!("{:?}", other),
    };
    assert_eq!(said(0), "create cert dir: x");
    assert_eq!(said(1), "write cert: x");
    assert_eq!(said(2), "write key: x");
    assert_eq!(said(3), "rename cert: x");
    assert_eq!(said(4), "rename key: x");
    assert!(rotator.certificate_swapped(&None).is_ok());
    let tls = |e: SignError| match rotator.finish_self_signed(Err(e)) {
        Err(KubeletError::Tls(m)) => m,
        other => panic!("{:?}", other),
    };
    assert_eq!(tls(SignError::Key("x".to_string())), "generate key: x");
    assert_eq!(tls(SignError::Certificate("x".to_string())), "self-sign cert: x");
}
