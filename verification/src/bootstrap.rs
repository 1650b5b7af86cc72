//! The exchange of a bootstrap token for the client certificate of the node.
//!
//! A node that has no kubeconfig of its own asks for a certificate with the
//! credentials of a bootstrap kubeconfig, waits until the certificate is
//! issued, and keeps it with a kubeconfig that refers to it.
use crate::error::KubeletError;
use crate::fileops::{
    after_ops, holds_text, lemma_after_next, ops, push_op, unchanged, FileOp, Files, Op,
};
use crate::json::JsonValue;
use crate::paths::{
    join_path, parent, parent_of, path_join, path_with_extension, with_extension,
};
use crate::text::{
    cat2, cat3, cat4, cat5, chars_of, dec, decimal, same, small, to_small, utf8_error_text,
    utf8_text,
};
use crate::types::Timestamp;
use rcgen::{CertificateParams, DistinguishedName, DnType, KeyPair};
use vstd::prelude::*;
use vstd::utf8::{decode_utf8, valid_utf8};

verus! {

/// The signer of client certificates of nodes.
pub const SIGNER_NAME: &'static str = "kubernetes.io/kube-apiserver-client-kubelet";

/// For how many seconds a request waits to be approved and signed.
pub const CSR_APPROVAL_TIMEOUT_SECS: u64 = 60;

/// How many seconds pass between two looks at a request.
pub const CSR_POLL_INTERVAL_SECS: u64 = 2;

/// What is done about the kubeconfig of a node.
#[derive(Debug, Clone, Copy, PartialEq, Eq, Structural)]
pub enum BootstrapStep {
    /// There is a kubeconfig: nothing is done.
    Configured,
    /// There is no bootstrap kubeconfig to start from.
    NotConfigured,
    /// The bootstrap kubeconfig cannot be found.
    BootstrapMissing,
    /// The certificate is asked for.
    Exchange,
}

/// Says what is done about the kubeconfig of a node. `bootstrap` says whether
/// the configured bootstrap kubeconfig is there, where one is configured.
pub fn ensure_kubeconfig(kubeconfig_present: bool, bootstrap: Option<bool>) -> (r: BootstrapStep)
    ensures
        r == if kubeconfig_present {
            BootstrapStep::Configured
        } else {
            match bootstrap {
                None => BootstrapStep::NotConfigured,
                Some(false) => BootstrapStep::BootstrapMissing,
                Some(true) => BootstrapStep::Exchange,
            }
        },
{
    if kubeconfig_present {
        return BootstrapStep::Configured;
    }
    match bootstrap {
        None => BootstrapStep::NotConfigured,
        Some(present) => if present {
            BootstrapStep::Exchange
        } else {
            BootstrapStep::BootstrapMissing
        },
    }
}

// ---------------------------------------------------------------------------
// The request
// ---------------------------------------------------------------------------

/// The name under which a node is known to the cluster.
pub open spec fn node_user_of(node_name: Seq<char>) -> Seq<char> {
    "system:node:"@ + node_name
}

/// The name under which a node is known to the cluster.
pub fn node_user(node_name: &str) -> (r: String)
    ensures
        r@ == node_user_of(node_name@),
{
    cat2("system:node:", node_name)
}

/// Whether a character is an ASCII letter or digit, a hyphen or a dot.
pub open spec fn name_char(c: char) -> bool {
    ('a' <= c && c <= 'z') || ('A' <= c && c <= 'Z') || ('0' <= c && c <= '9') || c == '-' || c
        == '.'
}

/// `s` in small letters, with hyphens for the characters that names cannot
/// have.
pub open spec fn sanitized(s: Seq<char>) -> Seq<char> {
    s.map_values(
        |c: char|
            if name_char(c) {
                small(c)
            } else {
                '-'
            },
    )
}

/// A node's name as part of the name of an object.
pub fn sanitize_for_name(node_name: &str) -> (r: String)
    ensures
        r@ == sanitized(node_name@),
{
    let v = chars_of(node_name);
    let mut out = String::new();
    let mut i: usize = 0;
    while i < v.len()
        invariant
            i <= v@.len(),
            v@ == node_name@,
            out@ == sanitized(v@).take(i as int),
        decreases v@.len() - i,
    {
        let c = v[i];
        if ('a' <= c && c <= 'z') || ('A' <= c && c <= 'Z') || ('0' <= c && c <= '9') || c == '-'
            || c == '.' {
            out.push(to_small(c));
        } else {
            out.push('-');
        }
        i = i + 1;
        assert(out@ =~= sanitized(v@).take(i as int));
    }
    assert(out@ =~= sanitized(v@));
    out
}

/// A request for a certificate.
#[derive(Debug)]
pub struct CertificateRequest {
    pub name: String,
    /// The name and the organization of the subject.
    pub common_name: String,
    pub organization: String,
    pub signer_name: String,
    pub usages: Vec<String>,
}

/// The request of a node for its client certificate.
pub open spec fn request_is(
    r: CertificateRequest,
    node_name: Seq<char>,
    unique: Seq<char>,
) -> bool {
    &&& r.name@ == "kube-air-"@ + sanitized(node_name) + "-"@ + unique
    &&& r.common_name@ == node_user_of(node_name)
    &&& r.organization@ == "system:nodes"@
    &&& r.signer_name@ == SIGNER_NAME@
    &&& r.usages@.len() == 3
    &&& r.usages@[0]@ == "digital signature"@
    &&& r.usages@[1]@ == "key encipherment"@
    &&& r.usages@[2]@ == "client auth"@
}

/// The request of a node for its client certificate; `unique` keeps its name
/// apart from those of other requests.
pub fn certificate_request(node_name: &str, unique: &str) -> (r: CertificateRequest)
    ensures
        request_is(r, node_name@, unique@),
{
    let safe = sanitize_for_name(node_name);
    let mut usages: Vec<String> = Vec::new();
    usages.push("digital signature".to_owned());
    usages.push("key encipherment".to_owned());
    usages.push("client auth".to_owned());
    CertificateRequest {
        name: cat4("kube-air-", safe.as_str(), "-", unique),
        common_name: node_user(node_name),
        organization: "system:nodes".to_owned(),
        signer_name: SIGNER_NAME.to_owned(),
        usages,
    }
}

/// A request with its text and its key.
#[derive(Debug)]
pub struct SignedRequest {
    pub request: CertificateRequest,
    /// The request and the key in PEM notation.
    pub csr_pem: String,
    pub key_pem: String,
}

/// Why a request could not be made.
#[derive(Debug)]
pub enum RequestError {
    /// There is no key.
    Key(String),
    /// The request could not be signed.
    Request(String),
    /// The request could not be put into PEM notation.
    Encoding(String),
}

/// The name and the organization of the subject that a certificate request in
/// PEM notation asks for.
pub uninterp spec fn request_subject(pem: Seq<char>) -> (Seq<char>, Seq<char>);

/// Calls `KeyPair::generate` and `CertificateParams::serialize_request` of rcgen
/// and hands out the request and the key as `pem` and `serialize_pem` write
/// them. Key and signature are left to chance, so that nothing is claimed of
/// the texts but the subject of the request: it is the one that was asked for.
#[verifier::external_body]
fn sign_request(common_name: &str, organization: &str) -> (r: Result<
    (String, String),
    RequestError,
>)
    ensures
        r matches Ok(made) ==> request_subject(made.0@) == (common_name@, organization@),
{
    let key = KeyPair::generate().map_err(|e| RequestError::Key(e.to_string()))?;
    let mut params = CertificateParams::default();
    params.distinguished_name = DistinguishedName::new();
    params.distinguished_name.push(DnType::CommonName, common_name);
    params.distinguished_name.push(DnType::OrganizationName, organization);
    let csr = params.serialize_request(&key).map_err(|e| RequestError::Request(e.to_string()))?;
    let pem = csr.pem().map_err(|e| RequestError::Encoding(e.to_string()))?;
    Ok((pem, key.serialize_pem()))
}

/// Calls `Uuid::new_v4` of uuid. The identifier is left to chance, so that
/// nothing is claimed of it.
#[verifier::external_body]
fn fresh_id() -> (r: String) {
    uuid::Uuid::new_v4().to_string()
}

/// What follows an attempt to sign a request: the request with its text and its
/// key, or why there is none.
pub fn finish_request(
    request: CertificateRequest,
    outcome: Result<(String, String), RequestError>,
) -> (r: Result<SignedRequest, KubeletError>)
    ensures
        match outcome {
            Ok(made) => r == Ok::<SignedRequest, KubeletError>(
                SignedRequest { request, csr_pem: made.0, key_pem: made.1 },
            ),
            Err(RequestError::Key(e)) => r matches Err(KubeletError::Tls(m)) && m@
                == "generate bootstrap key pair: "@ + e@,
            Err(RequestError::Request(e)) => r matches Err(KubeletError::Tls(m)) && m@
                == "serialize CSR: "@ + e@,
            Err(RequestError::Encoding(e)) => r matches Err(KubeletError::Tls(m)) && m@
                == "encode CSR as PEM: "@ + e@,
        },
{
    match outcome {
        Ok(made) => Ok(SignedRequest { request, csr_pem: made.0, key_pem: made.1 }),
        Err(RequestError::Key(e)) => Err(
            KubeletError::Tls(cat2("generate bootstrap key pair: ", e.as_str())),
        ),
        Err(RequestError::Request(e)) => Err(
            KubeletError::Tls(cat2("serialize CSR: ", e.as_str())),
        ),
        Err(RequestError::Encoding(e)) => Err(
            KubeletError::Tls(cat2("encode CSR as PEM: ", e.as_str())),
        ),
    }
}

/// Makes the request of a node for its client certificate, with a new key.
pub fn new_certificate_request(node_name: &str) -> (r: Result<SignedRequest, KubeletError>)
    ensures
        match r {
            Ok(s) => {
                &&& exists|unique: Seq<char>| #[trigger]
                    request_is(s.request, node_name@, unique)
                &&& request_subject(s.csr_pem@) == (node_user_of(node_name@), "system:nodes"@)
            },
            Err(e) => e is Tls,
        },
{
    let unique = fresh_id();
    let request = certificate_request(node_name, unique.as_str());
    let outcome = sign_request(request.common_name.as_str(), request.organization.as_str());
    let ghost made = outcome;
    let r = finish_request(request, outcome);
    proof {
        if r is Ok {
            assert(made is Ok);
            assert(request_is(r->Ok_0.request, node_name@, unique@));
        }
    }
    r
}

// ---------------------------------------------------------------------------
// Waiting for the certificate
// ---------------------------------------------------------------------------

/// A condition of a request.
#[derive(Debug)]
pub struct CsrCondition {
    pub type_: String,
    pub status: String,
    pub message: Option<String>,
}

/// The state of a request.
#[derive(Debug)]
pub struct CsrStatus {
    pub certificate: Option<Vec<u8>>,
    pub conditions: Option<Vec<CsrCondition>>,
}

/// What a look at a request brings.
#[derive(Debug)]
pub enum PollAction {
    /// The certificate is issued.
    Issued(String),
    /// The exchange failed.
    Fail(KubeletError),
    /// The request is looked at again after the interval.
    Wait,
}

/// Whether a condition ends the wait.
pub open spec fn is_final(c: CsrCondition) -> bool {
    c.status@ == "True"@ && (c.type_@ == "Denied"@ || c.type_@ == "Failed"@)
}

/// What a condition that ends the wait says.
pub open spec fn refusal_text(csr_name: Seq<char>, c: CsrCondition) -> Seq<char> {
    "CertificateSigningRequest "@ + csr_name + (if c.type_@ == "Denied"@ {
        " was denied: "@
    } else {
        " signing failed: "@
    }) + match c.message {
        Some(m) => m@,
        None => Seq::empty(),
    }
}

/// The first condition that ends the wait.
pub open spec fn first_final(conditions: Seq<CsrCondition>) -> Option<CsrCondition>
    decreases conditions.len(),
{
    if conditions.len() == 0 {
        None
    } else if is_final(conditions[0]) {
        Some(conditions[0])
    } else {
        first_final(conditions.skip(1))
    }
}

pub open spec fn conditions_of(status: Option<CsrStatus>) -> Seq<CsrCondition> {
    match status {
        Some(s) => match s.conditions {
            Some(c) => c@,
            None => Seq::empty(),
        },
        None => Seq::empty(),
    }
}

pub open spec fn timeout_text(csr_name: Seq<char>) -> Seq<char> {
    "timed out after "@ + dec(CSR_APPROVAL_TIMEOUT_SECS as nat)
        + "s waiting for CertificateSigningRequest "@ + csr_name + " to be approved"@
}

/// What a look at a request brings: the certificate comes first, then a
/// refusal, then the end of the wait.
pub open spec fn poll_is(
    csr_name: Seq<char>,
    status: Option<CsrStatus>,
    now: int,
    deadline: int,
    r: PollAction,
) -> bool {
    match status {
        Some(CsrStatus { certificate: Some(bytes), conditions: _ }) => if valid_utf8(bytes@) {
            r matches PollAction::Issued(s) && s@ == decode_utf8(bytes@)
        } else {
            r matches PollAction::Fail(KubeletError::Tls(m)) && m@
                == "issued certificate is not valid UTF-8: "@ + utf8_error_text(bytes@)
        },
        _ => match first_final(conditions_of(status)) {
            Some(c) => r matches PollAction::Fail(KubeletError::Auth(m)) && m@ == refusal_text(
                csr_name,
                c,
            ),
            None => if now >= deadline {
                r matches PollAction::Fail(KubeletError::Timeout(m)) && m@ == timeout_text(csr_name)
            } else {
                r is Wait
            },
        },
    }
}

fn find_final(conditions: &Vec<CsrCondition>) -> (r: Option<usize>)
    ensures
        match r {
            Some(i) => i < conditions@.len() && first_final(conditions@) == Some(
                conditions@[i as int],
            ) && is_final(conditions@[i as int]),
            None => first_final(conditions@) is None,
        },
{
    let mut i: usize = 0;
    assert(conditions@.skip(0) =~= conditions@);
    while i < conditions.len()
        invariant
            i <= conditions@.len(),
            first_final(conditions@) == first_final(conditions@.skip(i as int)),
        decreases conditions@.len() - i,
    {
        let c = &conditions[i];
        assert(conditions@.skip(i as int)[0] == conditions@[i as int]);
        assert(conditions@.skip(i as int).skip(1) =~= conditions@.skip(i + 1));
        if same(c.status.as_str(), "True") && (same(c.type_.as_str(), "Denied") || same(
            c.type_.as_str(),
            "Failed",
        )) {
            return Some(i);
        }
        i = i + 1;
    }
    None
}

/// Says what a look at a request brings. `status` is missing where the request
/// has none yet or could not be read.
pub fn poll_for_issued_certificate(
    csr_name: &str,
    status: &Option<CsrStatus>,
    now: Timestamp,
    deadline: Timestamp,
) -> (r: PollAction)
    ensures
        poll_is(csr_name@, *status, now.ns(), deadline.ns(), r),
{
    if let Some(s) = status {
        if let Some(bytes) = &s.certificate {
            return match utf8_text(bytes) {
                Ok(pem) => PollAction::Issued(pem),
                Err(e) => PollAction::Fail(
                    KubeletError::Tls(
                        cat2("issued certificate is not valid UTF-8: ", e.as_str()),
                    ),
                ),
            };
        }
        if let Some(conditions) = &s.conditions {
            if let Some(i) = find_final(conditions) {
                let c = &conditions[i];
                let verb = if same(c.type_.as_str(), "Denied") {
                    " was denied: "
                } else {
                    " signing failed: "
                };
                let message = match &c.message {
                    Some(m) => m.clone(),
                    None => String::new(),
                };
                proof {
                    if c.message is None {
                        assert(message@ =~= Seq::<char>::empty());
                    }
                }
                return PollAction::Fail(
                    KubeletError::Auth(
                        cat4("CertificateSigningRequest ", csr_name, verb, message.as_str()),
                    ),
                );
            }
        }
    }
    if now.as_nanos() >= deadline.as_nanos() {
        let secs = decimal(CSR_APPROVAL_TIMEOUT_SECS);
        return PollAction::Fail(
            KubeletError::Timeout(
                cat5(
                    "timed out after ",
                    secs.as_str(),
                    "s waiting for CertificateSigningRequest ",
                    csr_name,
                    " to be approved",
                ),
            ),
        );
    }
    PollAction::Wait
}

// ---------------------------------------------------------------------------
// What is kept
// ---------------------------------------------------------------------------

/// The file of the client certificate and its key.
pub fn client_cert_path(cert_dir: &str) -> (r: String)
    ensures
        r@ == path_join(cert_dir@, "kubelet-client-current.pem"@),
{
    join_path(cert_dir, "kubelet-client-current.pem")
}

/// The certificate and the key as the text of one file.
pub fn combined_pem(certificate: &str, key: &str) -> (r: String)
    ensures
        r@ == certificate@ + "\n"@ + key@,
{
    cat3(certificate, "\n", key)
}

/// The changes that write a file that only its owner may read: its text is
/// written to a file of another name, which is closed to others before it takes
/// the name.
pub open spec fn private_ops(path: Seq<char>, ext: Seq<char>, content: Seq<char>) -> Seq<Op> {
    let tmp = path_with_extension(path, ext);
    seq![Op::Write(tmp, content), Op::Restrict(tmp), Op::Rename(tmp, path)]
}

fn push_private(out: &mut Vec<FileOp>, path: &str, ext: &str, content: String)
    ensures
        ops(final(out)@) == ops(old(out)@) + private_ops(path@, ext@, content@),
{
    let ghost before = ops(out@);
    let tmp = with_extension(path, ext);
    push_op(out, FileOp::Write { path: tmp.clone(), content });
    push_op(out, FileOp::Restrict { path: tmp.clone() });
    push_op(out, FileOp::Rename { from: tmp, to: path.to_owned() });
    assert(ops(out@) =~= before + private_ops(path@, ext@, content@));
}

/// What keeps an issued certificate and its key in the directory of
/// certificates.
pub fn keep_certificate(cert_dir: &str, certificate: &str, key: &str) -> (r: Vec<FileOp>)
    ensures
        ops(r@) == seq![Op::CreateDir(cert_dir@)] + private_ops(
            path_join(cert_dir@, "kubelet-client-current.pem"@),
            "pem.tmp"@,
            certificate@ + "\n"@ + key@,
        ),
{
    let mut out: Vec<FileOp> = Vec::new();
    assert(ops(out@) =~= Seq::<Op>::empty());
    push_op(&mut out, FileOp::CreateDir { path: cert_dir.to_owned() });
    assert(ops(out@) =~= seq![Op::CreateDir(cert_dir@)]);
    let path = client_cert_path(cert_dir);
    push_private(&mut out, path.as_str(), "pem.tmp", combined_pem(certificate, key));
    out
}

/// What writes the kubeconfig of the node.
pub fn write_kubeconfig(path: &str, text: &str) -> (r: Vec<FileOp>)
    ensures
        ops(r@) == (match parent_of(path@) {
            Some(dir) => seq![Op::CreateDir(dir)],
            None => Seq::<Op>::empty(),
        }) + private_ops(path@, "conf.tmp"@, text@),
{
    let mut out: Vec<FileOp> = Vec::new();
    assert(ops(out@) =~= Seq::<Op>::empty());
    if let Some(dir) = parent(path) {
        push_op(&mut out, FileOp::CreateDir { path: dir });
        assert(ops(out@) =~= seq![Op::CreateDir(parent_of(path@)->0)]);
    }
    push_private(&mut out, path, "conf.tmp", text.to_owned());
    out
}

/// A private file is replaced whole: it is as it was until the last change, and
/// then holds the new text.
pub proof fn law_private_files_are_replaced_whole(
    files: Files,
    path: Seq<char>,
    ext: Seq<char>,
    content: Seq<char>,
    n: int,
)
    requires
        path_with_extension(path, ext) != path,
        0 <= n <= 3,
    ensures
        n < 3 ==> unchanged(files, after_ops(files, private_ops(path, ext, content).take(n)), path),
        n == 3 ==> holds_text(
            after_ops(files, private_ops(path, ext, content).take(n)),
            path,
            content,
        ),
{
    let all = private_ops(path, ext, content);
    assert(all.take(0) =~= Seq::<Op>::empty());
    assert(after_ops(files, all.take(0)) == files);
    lemma_after_next(files, all, 0);
    lemma_after_next(files, all, 1);
    lemma_after_next(files, all, 2);
}

/// A cluster of a kubeconfig.
#[derive(Debug)]
pub struct NamedCluster {
    pub name: String,
    /// The server and the means to trust it.
    pub cluster: JsonValue,
}

/// A user that is known by a certificate.
#[derive(Debug)]
pub struct NamedUser {
    pub name: String,
    pub client_certificate: String,
    pub client_key: String,
}

/// A user of a cluster.
#[derive(Debug)]
pub struct NamedContext {
    pub name: String,
    pub cluster: String,
    pub user: String,
}

/// A kubeconfig.
#[derive(Debug)]
pub struct KubeconfigDoc {
    pub clusters: Vec<NamedCluster>,
    pub users: Vec<NamedUser>,
    pub contexts: Vec<NamedContext>,
    pub current_context: String,
}

/// The kubeconfig of a node in a cluster: the node is its only user and known
/// by the certificate on disk.
pub open spec fn kubeconfig_is(
    cluster: NamedCluster,
    node_name: Seq<char>,
    cert_path: Seq<char>,
    k: KubeconfigDoc,
) -> bool {
    &&& k.clusters@ == seq![cluster]
    &&& k.users@.len() == 1
    &&& k.users@[0].name@ == node_user_of(node_name)
    &&& k.users@[0].client_certificate@ == cert_path
    &&& k.users@[0].client_key@ == cert_path
    &&& k.contexts@.len() == 1
    &&& k.contexts@[0].name@ == "default-context"@
    &&& k.contexts@[0].cluster@ == cluster.name@
    &&& k.contexts@[0].user@ == node_user_of(node_name)
    &&& k.current_context@ == "default-context"@
}

/// Builds the kubeconfig of a node: the first cluster of the bootstrap
/// kubeconfig, with the issued certificate in place of the bootstrap
/// credentials.
pub fn build_kubeconfig(
    clusters: Vec<NamedCluster>,
    node_name: &str,
    client_cert_path: &str,
) -> (r: Result<KubeconfigDoc, KubeletError>)
    ensures
        if clusters@.len() > 0 {
            r matches Ok(k) && kubeconfig_is(clusters@[0], node_name@, client_cert_path@, k)
        } else {
            r matches Err(KubeletError::Auth(m)) && m@ == "bootstrap kubeconfig has no clusters"@
        },
{
    let mut clusters = clusters;
    if clusters.len() == 0 {
        return Err(KubeletError::Auth("bootstrap kubeconfig has no clusters".to_owned()));
    }
    let cluster = clusters.remove(0);
    let mut contexts: Vec<NamedContext> = Vec::new();
    contexts.push(
        NamedContext {
            name: "default-context".to_owned(),
            cluster: cluster.name.clone(),
            user: node_user(node_name),
        },
    );
    let mut users: Vec<NamedUser> = Vec::new();
    users.push(
        NamedUser {
            name: node_user(node_name),
            client_certificate: client_cert_path.to_owned(),
            client_key: client_cert_path.to_owned(),
        },
    );
    let mut kept: Vec<NamedCluster> = Vec::new();
    kept.push(cluster);
    assert(kept@ =~= seq![cluster]);
    Ok(
        KubeconfigDoc {
            clusters: kept,
            users,
            contexts,
            current_context: "default-context".to_owned(),
        },
    )
}

/// A sanitized name holds only small letters, digits, hyphens and dots, and
/// sanitizing it again changes nothing.
pub proof fn law_sanitized_names_are_plain(s: Seq<char>)
    ensures
        sanitized(sanitized(s)) == sanitized(s),
        forall|i: int|
            0 <= i < s.len() ==> name_char(#[trigger] sanitized(s)[i]) && !('A' <= sanitized(s)[i]
                && sanitized(s)[i] <= 'Z'),
{
    assert forall|i: int| 0 <= i < s.len() implies name_char(#[trigger] sanitized(s)[i]) && !('A'
        <= sanitized(s)[i] && sanitized(s)[i] <= 'Z') by {
        let c = s[i];
        if 'A' <= c && c <= 'Z' {
            assert('a' <= small(c) && small(c) <= 'z');
        }
    }
    assert(sanitized(sanitized(s)) =~= sanitized(s));
}

/// The user of a node has the node's name behind the prefix for nodes, so that
/// two nodes never have the same.
pub proof fn law_node_users_are_told_apart(a: Seq<char>, b: Seq<char>)
    ensures
        node_user_of(a).take(12) == "system:node:"@,
        node_user_of(a).skip(12) == a,
        node_user_of(a) == node_user_of(b) <==> a == b,
{
    reveal_strlit("system:node:");
    assert("system:node:"@.len() == 12);
    assert(node_user_of(a).take(12) =~= "system:node:"@);
    assert(node_user_of(a).skip(12) =~= a);
    assert(node_user_of(b).skip(12) =~= b);
}

/// A name keeps its length; small letters, digits, hyphens and points stay as
/// they are, capital letters become small, and all else becomes a hyphen.
pub proof fn law_sanitized_names_keep_what_is_plain(s: Seq<char>, i: int)
    requires
        0 <= i < s.len(),
    ensures
        sanitized(s).len() == s.len(),
        'a' <= s[i] <= 'z' || '0' <= s[i] <= '9' || s[i] == '-' || s[i] == '.' ==> sanitized(s)[i]
            == s[i],
        'A' <= s[i] <= 'Z' ==> sanitized(s)[i] as int == s[i] as int + ('a' as int - 'A' as int),
        !('a' <= s[i] <= 'z' || 'A' <= s[i] <= 'Z' || '0' <= s[i] <= '9' || s[i] == '.')
            ==> sanitized(s)[i] == '-',
{
}

/// What is asked for is a client certificate for the node, as a member of the
/// group of nodes.
pub proof fn law_request_is_for_the_node(
    r: CertificateRequest,
    node_name: Seq<char>,
    unique: Seq<char>,
)
    requires
        request_is(r, node_name, unique),
    ensures
        r.common_name@ == "system:node:"@ + node_name,
        r.organization@ == "system:nodes"@,
        r.signer_name@ == "kubernetes.io/kube-apiserver-client-kubelet"@,
        exists|i: int| 0 <= i < r.usages@.len() && (#[trigger] r.usages@[i])@ == "client auth"@,
        exists|i: int|
            0 <= i < r.usages@.len() && (#[trigger] r.usages@[i])@ == "digital signature"@,
        exists|i: int|
            0 <= i < r.usages@.len() && (#[trigger] r.usages@[i])@ == "key encipherment"@,
{
    assert(r.usages@[0]@ == "digital signature"@);
    assert(r.usages@[1]@ == "key encipherment"@);
    assert(r.usages@[2]@ == "client auth"@);
}

/// The condition that ends an exchange is the first that holds and says that
/// the request was denied or failed; where none does, it goes on.
pub proof fn law_first_refusal_counts(conditions: Seq<CsrCondition>, i: int)
    requires
        0 <= i < conditions.len(),
        conditions[i].status@ == "True"@,
        conditions[i].type_@ == "Denied"@ || conditions[i].type_@ == "Failed"@,
        forall|j: int|
            0 <= j < i ==> (#[trigger] conditions[j]).status@ != "True"@ || (conditions[j].type_@
                != "Denied"@ && conditions[j].type_@ != "Failed"@),
    ensures
        first_final(conditions) == Some(conditions[i]),
    decreases i,
{
    if i > 0 {
        let rest = conditions.skip(1);
        assert(conditions[0].status@ != "True"@ || (conditions[0].type_@ != "Denied"@
            && conditions[0].type_@ != "Failed"@));
        assert(rest[i - 1] == conditions[i]);
        assert forall|j: int| 0 <= j < i - 1 implies (#[trigger] rest[j]).status@ != "True"@ || (
        rest[j].type_@ != "Denied"@ && rest[j].type_@ != "Failed"@) by {
            assert(rest[j] == conditions[j + 1]);
        }
        law_first_refusal_counts(rest, i - 1);
    }
}

/// A request that is merely approved, or of which a refusal does not hold, is
/// not refused.
pub proof fn law_no_refusal_goes_on(conditions: Seq<CsrCondition>)
    requires
        forall|j: int|
            0 <= j < conditions.len() ==> (#[trigger] conditions[j]).status@ != "True"@
                || conditions[j].type_@ == "Approved"@,
    ensures
        first_final(conditions) is None,
    decreases conditions.len(),
{
    if conditions.len() > 0 {
        reveal_strlit("Approved");
        reveal_strlit("Denied");
        reveal_strlit("Failed");
        assert("Approved"@.len() == 8 && "Denied"@.len() == 6 && "Failed"@.len() == 6);
        let rest = conditions.skip(1);
        assert(conditions[0].status@ != "True"@ || conditions[0].type_@ == "Approved"@);
        assert forall|j: int| 0 <= j < rest.len() implies (#[trigger] rest[j]).status@ != "True"@
            || rest[j].type_@ == "Approved"@ by {
            assert(rest[j] == conditions[j + 1]);
        }
        law_no_refusal_goes_on(rest);
    }
}

/// A certificate that was issued ends the exchange with success, whatever else
/// is said; without one a refusal ends it, then the deadline, and else it is
/// waited for.
pub proof fn law_polls_end_as_they_should(
    csr_name: Seq<char>,
    status: Option<CsrStatus>,
    now: int,
    deadline: int,
    r: PollAction,
)
    requires
        poll_is(csr_name, status, now, deadline, r),
    ensures
        status is Some && status->0.certificate is Some && valid_utf8(
            status->0.certificate->0@,
        ) ==> r is Issued && r->Issued_0@ == decode_utf8(status->0.certificate->0@),
        r is Issued ==> status is Some && status->0.certificate is Some,
        r is Wait ==> now < deadline && (status is None || status->0.certificate is None),
        (status is None || status->0.certificate is None) && first_final(conditions_of(status))
            is None && now < deadline ==> r is Wait,
        (status is None || status->0.certificate is None) && first_final(conditions_of(status))
            is Some ==> r is Fail && r->Fail_0 is Auth,
        (status is None || status->0.certificate is None) && first_final(conditions_of(status))
            is None && now >= deadline ==> r is Fail && r->Fail_0 is Timeout,
{
}

/// The kubeconfig that is written names the cluster that it started from, the
/// node as user, and the one file that holds certificate and key.
pub proof fn law_kubeconfig_names_node_and_cluster(
    cluster: NamedCluster,
    node_name: Seq<char>,
    cert_path: Seq<char>,
    k: KubeconfigDoc,
)
    requires
        kubeconfig_is(cluster, node_name, cert_path, k),
    ensures
        k.clusters@.len() == 1 && k.clusters@[0] == cluster,
        k.contexts@.len() == 1 && k.users@.len() == 1,
        k.contexts@[0].cluster@ == k.clusters@[0].name@,
        k.contexts@[0].user@ == k.users@[0].name@,
        k.contexts@[0].user@ == "system:node:"@ + node_name,
        k.current_context@ == k.contexts@[0].name@,
        k.users@[0].client_certificate@ == cert_path,
        k.users@[0].client_key@ == cert_path,
{
}

/// A request that is not granted is told by its name, with what became of it
/// and why.
pub proof fn law_refusals_name_their_request(csr_name: Seq<char>, c: CsrCondition)
    ensures
        c.type_@ == "Denied"@ ==> (c.message matches Some(m) ==> refusal_text(csr_name, c)
            == "CertificateSigningRequest "@ + csr_name + " was denied: "@ + m@),
        c.type_@ == "Failed"@ ==> (c.message matches Some(m) ==> refusal_text(csr_name, c)
            == "CertificateSigningRequest "@ + csr_name + " signing failed: "@ + m@),
        timeout_text(csr_name) == "timed out after "@ + dec(60)
            + "s waiting for CertificateSigningRequest "@ + csr_name + " to be approved"@,
{
    reveal_strlit("Denied");
    reveal_strlit("Failed");
    assert("Denied"@[0] == 'D' && "Failed"@[0] == 'F');
}

/// A request has the name of its node in its own name.
pub proof fn law_request_is_named_after_the_node(
    r: CertificateRequest,
    node_name: Seq<char>,
    unique: Seq<char>,
)
    requires
        request_is(r, node_name, unique),
    ensures
        r.name@ == "kube-air-"@ + sanitized(node_name) + "-"@ + unique,
        r.usages@.len() == 3,
{
}

/// A certificate that is no text is an error, and so are a refusal and a wait
/// beyond the limit.
pub proof fn law_poll_errors_are_told(
    csr_name: Seq<char>,
    status: Option<CsrStatus>,
    now: int,
    deadline: int,
    r: PollAction,
)
    requires
        poll_is(csr_name, status, now, deadline, r),
    ensures
        status matches Some(s) ==> (s.certificate matches Some(bytes) ==> (!valid_utf8(bytes@) ==> {
            &&& r is Fail
            &&& r->Fail_0 is Tls
            &&& r->Fail_0->Tls_0@ == "issued certificate is not valid UTF-8: "@ + utf8_error_text(bytes@)
        })),
        status is None && now >= deadline ==> r is Fail && r->Fail_0 is Timeout,
        status is None && now < deadline ==> r is Wait,
{
}

} // verus!
