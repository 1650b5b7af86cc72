use kubelet_adapters::bootstrap::{
    build_kubeconfig, certificate_request, client_cert_path, combined_pem, ensure_kubeconfig,
    finish_request, keep_certificate, new_certificate_request, poll_for_issued_certificate,
    sanitize_for_name, write_kubeconfig, BootstrapStep, CsrCondition, CsrStatus, NamedCluster,
    PollAction, RequestError,
};
use kubelet_adapters::error::KubeletError;
use kubelet_adapters::json::JsonValue;
use kubelet_adapters::strmap::StrMap;
use kubelet_adapters::types::Timestamp;

fn at(secs: i64) -> Timestamp {
    Timestamp { secs, nanos: 0 }
}

#[test]
fn test_sanitize_for_name() {
    assert_eq!(sanitize_for_name("Node_1.example.com"), "node-1.example.com");
}

#[test]
fn test_ensure_kubeconfig_noop_when_already_exists() {
    assert_eq!(ensure_kubeconfig(true, None), BootstrapStep::Configured);
}

#[test]
fn test_ensure_kubeconfig_noop_when_no_bootstrap_configured() {
    assert_eq!(ensure_kubeconfig(false, None), BootstrapStep::NotConfigured);
}

#[test]
fn test_ensure_kubeconfig_noop_when_bootstrap_file_missing() {
    assert_eq!(ensure_kubeconfig(false, Some(false)), BootstrapStep::BootstrapMissing);
}

#[test]
fn bootstrap_credentials_are_exchanged() {
    assert_eq!(ensure_kubeconfig(false, Some(true)), BootstrapStep::Exchange);
}

#[test]
fn sanitized_names_are_lower_case() {
    assert_eq!(sanitize_for_name("ABC"), "abc");
    assert_eq!(sanitize_for_name("a b/c"), "a-b-c");
    assert_eq!(sanitize_for_name(""), "");
}

#[test]
fn certificate_requests_name_the_node() {
    let r = certificate_request("Node1", "u-1");
    assert_eq!(r.name, "kube-air-node1-u-1");
    assert_eq!(r.common_name, "system:node:Node1");
    assert_eq!(r.organization, "system:nodes");
    assert_eq!(r.signer_name, "kubernetes.io/kube-apiserver-client-kubelet");
    assert!(r.usages.contains(&"client auth".to_string()));
}

fn condition(type_: &str, status: &str, message: Option<&str>) -> CsrCondition {
    CsrCondition {
        type_: type_.to_string(),
        status: status.to_string(),
        message: message.map(|m| m.to_string()),
    }
}

fn status(certificate: Option<Vec<u8>>, conditions: Vec<CsrCondition>) -> Option<CsrStatus> {
    Some(CsrStatus { certificate, conditions: Some(conditions) })
}

#[test]
fn issued_certificates_are_taken() {
    let s = status(Some(b"PEM".to_vec()), vec![]);
    match poll_for_issued_certificate("csr-1", &s, at(5), at(60)) {
        PollAction::Issued(t) => assert_eq!(t, "PEM"),
        other => panic!("{:?}", other),
    }
}

#[test]
fn certificates_that_are_not_text_fail() {
    let s = status(Some(vec![0xff, 0xfe]), vec![]);
    match poll_for_issued_certificate("csr-1", &s, at(5), at(60)) {
        PollAction::Fail(e) => assert!(e.message().contains("utf-8")),
        other => panic!("{:?}", other),
    }
}

#[test]
fn denied_requests_fail_with_their_message() {
    let s = status(None, vec![condition("Denied", "True", Some("no such node"))]);
    match poll_for_issued_certificate("csr-1", &s, at(5), at(60)) {
        PollAction::Fail(e) => {
            assert!(e.message().contains("csr-1"));
            assert!(e.message().contains("no such node"));
        }
        other => panic!("{:?}", other),
    }
}

#[test]
fn pending_requests_wait_until_the_deadline() {
    assert!(matches!(poll_for_issued_certificate("csr-1", &None, at(5), at(60)), PollAction::Wait));
    let s = status(None, vec![condition("Approved", "True", None)]);
    assert!(matches!(poll_for_issued_certificate("csr-1", &s, at(5), at(60)), PollAction::Wait));
    assert!(matches!(
        poll_for_issued_certificate("csr-1", &None, at(61), at(60)),
        PollAction::Fail(_)
    ));
}

#[test]
fn certificate_and_key_are_joined() {
    assert_eq!(client_cert_path("/var/lib/pki"), "/var/lib/pki/kubelet-client-current.pem");
    let both = combined_pem("CERT\n", "KEY\n");
    assert!(both.starts_with("CERT"));
    assert!(both.ends_with("KEY\n"));
}

#[test]
fn kubeconfigs_refer_to_the_certificate() {
    let clusters = vec![NamedCluster {
        name: "prod".to_string(),
        cluster: JsonValue::Object(StrMap::new()),
    }];
    let doc = build_kubeconfig(clusters, "node1", "/pki/current.pem").unwrap();
    assert_eq!(doc.clusters.len(), 1);
    assert_eq!(doc.users[0].client_certificate, "/pki/current.pem");
    assert_eq!(doc.users[0].client_key, "/pki/current.pem");
    assert_eq!(doc.contexts[0].cluster, "prod");
    assert_eq!(doc.contexts[0].user, doc.users[0].name);
    assert_eq!(doc.current_context, doc.contexts[0].name);
}

#[test]
fn kubeconfigs_need_a_cluster() {
    assert!(matches!(build_kubeconfig(vec![], "node1", "/x"), Err(KubeletError::Auth(_))));
}

#[test]
fn requests_are_signed_with_a_new_key() {
    let a = new_certificate_request("Node1").unwrap();
    let b = new_certificate_request("Node1").unwrap();
    assert!(a.request.name.starts_with("kube-air-node1-"));
    assert_eq!(a.request.name.len(), "kube-air-node1-".len() + 36);
    assert_ne!(a.request.name, b.request.name);
    assert_eq!(a.request.common_name, "system:node:Node1");
    assert!(a.csr_pem.contains("BEGIN CERTIFICATE REQUEST"));
    assert!(a.key_pem.contains("PRIVATE KEY"));
    assert_ne!(a.key_pem, b.key_pem);
}

#[test]
fn failures_of_a_request_are_told_apart() {
    let said = |e: RequestError| match finish_request(certificate_request("n", "u"), Err(e)) {
        Err(KubeletError::Tls(m)) => m,
        other => panic!("{:?}", other),
    };
    assert_eq!(said(RequestError::Key("x".to_string())), "generate bootstrap key pair: x");
    assert_eq!(said(RequestError::Request("x".to_string())), "serialize CSR: x");
    assert_eq!(said(RequestError::Encoding("x".to_string())), "encode CSR as PEM: x");
}

#[test]
fn private_files_are_closed_before_they_take_their_names() {
    let shown: Vec<String> =
        keep_certificate("/pki", "CERT", "KEY").iter().map(|op| format!("{:?}", op)).collect();
    assert_eq!(
        shown,
        vec![
            "CreateDir { path: \"/pki\" }",
            "Write { path: \"/pki/kubelet-client-current.pem.tmp\", content: \"CERT\\nKEY\" }",
            "Restrict { path: \"/pki/kubelet-client-current.pem.tmp\" }",
            "Rename { from: \"/pki/kubelet-client-current.pem.tmp\", \
             to: \"/pki/kubelet-client-current.pem\" }",
        ]
    );
    let shown: Vec<String> =
        write_kubeconfig("kubelet.conf", "y").iter().map(|op| format!("{:?}", op)).collect();
    assert_eq!(shown[0], "CreateDir { path: \"\" }");
    assert_eq!(shown[1], "Write { path: \"kubelet.conf.tmp\", content: \"y\" }");
    assert_eq!(write_kubeconfig("/", "y").len(), 3);
}
