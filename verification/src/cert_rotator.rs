//! When the certificate of a node is replaced.
//!
//! A certificate is replaced when it is missing, when it has expired, and once
//! it has lived through seven tenths of its lifetime. The new certificate and
//! its key are written to files of other names first, which then take the place
//! of the old ones.
use crate::bootstrap::{node_user, node_user_of};
use crate::error::KubeletError;
use crate::fileops::{
    after_ops, holds_text, lemma_after_next, ops, push_op, unchanged, FileOp, Files, Op,
};
use crate::paths::{
    law_extensions_are_replaced, parent, parent_of, path_with_extension, with_extension,
};
use crate::text::cat2;
use crate::types::Timestamp;
use rcgen::{CertificateParams, DistinguishedName, DnType, Ia5String, KeyPair, SanType};
use vstd::prelude::*;

verus! {

/// Whether a certificate has to be replaced.
#[derive(Debug, Clone, Copy, PartialEq, Eq, Structural)]
pub enum RotationState {
    Valid,
    /// Most of the lifetime has passed.
    NeedsRotation,
    MissingOrExpired,
}

/// When a certificate is valid, and for whom.
#[derive(Debug)]
pub struct CertInfo {
    pub not_before: Timestamp,
    pub not_after: Timestamp,
    pub common_name: String,
}

/// A part of a lifetime, in seconds.
#[derive(Debug, Clone, Copy, PartialEq, Eq, Structural)]
pub struct AgeFraction {
    pub elapsed: u128,
    pub total: u128,
}

/// Whole seconds of a time span, towards zero.
pub open spec fn whole_seconds(ns: int) -> int {
    if ns >= 0 {
        ns / 1_000_000_000
    } else {
        -((-ns) / 1_000_000_000)
    }
}

fn seconds_of(ns: i128) -> (r: i128)
    requires
        ns > i128::MIN,
    ensures
        r == whole_seconds(ns as int),
{
    if ns >= 0 {
        ns / 1_000_000_000
    } else {
        -((-ns) / 1_000_000_000)
    }
}

impl CertInfo {
    /// The lifetime in whole seconds.
    pub open spec fn lifetime(self) -> int {
        whole_seconds(self.not_after.ns() - self.not_before.ns())
    }

    /// The seconds of the lifetime that have passed: none before it begins,
    /// all after it ends.
    pub open spec fn elapsed(self, now: int) -> int {
        let e = whole_seconds(now - self.not_before.ns());
        if e < 0 {
            0
        } else if e > self.lifetime() {
            self.lifetime()
        } else {
            e
        }
    }

    /// The part of the lifetime that has passed; all of it where there is no
    /// lifetime.
    pub fn age_fraction(&self, now: Timestamp) -> (r: AgeFraction)
        ensures
            r == if self.lifetime() <= 0 {
                (AgeFraction { elapsed: 1, total: 1 })
            } else {
                (AgeFraction {
                    elapsed: self.elapsed(now.ns()) as u128,
                    total: self.lifetime() as u128,
                })
            },
    {
        let total: i128 = seconds_of(self.not_after.as_nanos() - self.not_before.as_nanos());
        if total <= 0 {
            return AgeFraction { elapsed: 1, total: 1 };
        }
        let passed: i128 = seconds_of(now.as_nanos() - self.not_before.as_nanos());
        let elapsed: i128 = if passed < 0 {
            0
        } else if passed > total {
            total
        } else {
            passed
        };
        AgeFraction { elapsed: elapsed as u128, total: total as u128 }
    }

    /// Whether the certificate has to be replaced.
    pub open spec fn state_at(self, now: int) -> RotationState {
        if now >= self.not_after.ns() {
            RotationState::MissingOrExpired
        } else if self.lifetime() <= 0 || 10 * self.elapsed(now) >= 7 * self.lifetime() {
            RotationState::NeedsRotation
        } else {
            RotationState::Valid
        }
    }

    /// Whether the certificate has to be replaced.
    pub fn rotation_state(&self, now: Timestamp) -> (r: RotationState)
        ensures
            r == self.state_at(now.ns()),
    {
        if now.as_nanos() >= self.not_after.as_nanos() {
            return RotationState::MissingOrExpired;
        }
        let age = self.age_fraction(now);
        if 10 * age.elapsed >= 7 * age.total {
            RotationState::NeedsRotation
        } else {
            RotationState::Valid
        }
    }

    /// The nanoseconds until the certificate expires; zero afterwards.
    pub fn time_remaining(&self, now: Timestamp) -> (r: i128)
        ensures
            r == if self.not_after.ns() < now.ns() {
                0
            } else {
                self.not_after.ns() - now.ns()
            },
    {
        let left: i128 = self.not_after.as_nanos() - now.as_nanos();
        if left < 0 {
            0
        } else {
            left
        }
    }
}

/// How a certificate is replaced.
#[derive(Debug, Clone, Copy, PartialEq, Eq, Structural)]
pub enum RotationAction {
    /// The certificate stays.
    Keep,
    /// A new certificate is asked for.
    Request,
    /// The node signs a certificate itself.
    SelfSign,
}

/// Whether `s` has ASCII characters alone.
pub open spec fn is_ascii_text(s: Seq<char>) -> bool {
    forall|i: int| 0 <= i < s.len() ==> (#[trigger] s[i] as u32) < 128
}

/// Calls `rcgen::Ia5String::try_from`, which takes exactly the texts of ASCII
/// characters.
#[verifier::external_body]
fn is_ia5(s: &str) -> (r: bool)
    ensures
        r == is_ascii_text(s@),
{
    Ia5String::try_from(s).is_ok()
}

/// What a certificate says that a node signs itself.
#[derive(Debug)]
pub struct SelfSignedRequest {
    /// The name and the organization of the subject.
    pub common_name: String,
    pub organization: String,
    /// The host name and the address for which the certificate is valid.
    pub dns_name: String,
    pub ip: [u8; 4],
}

/// Why a certificate could not be made.
#[derive(Debug)]
pub enum SignError {
    /// There is no key.
    Key(String),
    /// The certificate could not be signed.
    Certificate(String),
}

/// What a certificate in PEM notation says: the name and the organization of
/// its subject, and the host name and the address for which it is valid.
pub uninterp spec fn certified(pem: Seq<char>) -> (Seq<char>, Seq<char>, Seq<char>, Seq<u8>);

/// What a certificate says that was made for a request.
pub open spec fn requested(r: SelfSignedRequest) -> (Seq<char>, Seq<char>, Seq<char>, Seq<u8>) {
    (r.common_name@, r.organization@, r.dns_name@, r.ip@)
}

/// Calls `KeyPair::generate` and `CertificateParams::self_signed` of rcgen and
/// hands out the certificate and the key as `pem` and `serialize_pem` write
/// them. Key and signature are left to chance, so that nothing is claimed of
/// the texts but what the certificate says: its subject and its alternative
/// names are those that were asked for.
#[verifier::external_body]
fn self_sign(request: &SelfSignedRequest) -> (r: Result<(String, String), SignError>)
    requires
        is_ascii_text(request.dns_name@),
    ensures
        r matches Ok(made) ==> certified(made.0@) == requested(*request),
{
    let mut params = CertificateParams::default();
    params.distinguished_name = DistinguishedName::new();
    params.distinguished_name.push(DnType::CommonName, request.common_name.as_str());
    params.distinguished_name.push(DnType::OrganizationName, request.organization.as_str());
    let dns = Ia5String::try_from(request.dns_name.as_str());
    params.subject_alt_names = vec![
        SanType::DnsName(dns.map_err(|e| SignError::Certificate(e.to_string()))?),
        SanType::IpAddress(request.ip.into()),
    ];
    let key = KeyPair::generate().map_err(|e| SignError::Key(e.to_string()))?;
    let cert = params.self_signed(&key).map_err(|e| SignError::Certificate(e.to_string()))?;
    Ok((cert.pem(), key.serialize_pem()))
}

/// Where a certificate and a key are written first.
pub open spec fn cert_temp(cert_path: Seq<char>) -> Seq<char> {
    path_with_extension(cert_path, "crt.tmp"@)
}

pub open spec fn key_temp(key_path: Seq<char>) -> Seq<char> {
    path_with_extension(key_path, "key.tmp"@)
}

/// The change that sees to the directory of a certificate, where it has one.
pub open spec fn dir_ops(cert_path: Seq<char>) -> Seq<Op> {
    match parent_of(cert_path) {
        Some(dir) => seq![Op::CreateDir(dir)],
        None => Seq::empty(),
    }
}

/// The changes that put a certificate and its key in place of the old ones:
/// both are written before either takes its name.
pub open spec fn swap_ops(
    cert_path: Seq<char>,
    key_path: Seq<char>,
    cert_pem: Seq<char>,
    key_pem: Seq<char>,
) -> Seq<Op> {
    dir_ops(cert_path) + seq![
        Op::Write(cert_temp(cert_path), cert_pem),
        Op::Write(key_temp(key_path), key_pem),
        Op::Rename(cert_temp(cert_path), cert_path),
        Op::Rename(key_temp(key_path), key_path),
    ]
}

/// What is said of a failure of the `n`-th change, counted from the end.
pub open spec fn swap_step(from_end: int) -> Seq<char> {
    if from_end == 1 {
        "rename key: "@
    } else if from_end == 2 {
        "rename cert: "@
    } else if from_end == 3 {
        "write key: "@
    } else if from_end == 4 {
        "write cert: "@
    } else {
        "create cert dir: "@
    }
}

/// Replaces the certificate of a node.
#[derive(Debug)]
pub struct CertRotator {
    pub node_name: String,
    pub cert_path: String,
    pub key_path: String,
}

/// How many seconds a certificate is taken to live.
pub const ASSUMED_LIFETIME_SECS: i64 = 31_536_000;

impl CertRotator {
    pub fn new(node_name: &str, cert_path: &str, key_path: &str) -> (r: Self)
        ensures
            r.node_name@ == node_name@,
            r.cert_path@ == cert_path@,
            r.key_path@ == key_path@,
    {
        CertRotator {
            node_name: node_name.to_owned(),
            cert_path: cert_path.to_owned(),
            key_path: key_path.to_owned(),
        }
    }

    /// What is known of a certificate by the time at which its file was
    /// written; nothing where there is no file. A certificate is taken to live
    /// for a year.
    pub fn load_cert_info(&self, modified: Option<Timestamp>) -> (r: Option<CertInfo>)
        requires
            modified matches Some(t) ==> t.secs <= i64::MAX - ASSUMED_LIFETIME_SECS,
        ensures
            match modified {
                Some(t) => r matches Some(i) && i.not_before == t && i.not_after == (Timestamp {
                    secs: (t.secs + ASSUMED_LIFETIME_SECS) as i64,
                    nanos: t.nanos,
                }) && i.not_after.secs == t.secs + 31_536_000 && i.common_name@ == node_user_of(
                    self.node_name@,
                ),
                None => r is None,
            },
    {
        match modified {
            Some(t) => Some(
                CertInfo {
                    not_before: t,
                    not_after: Timestamp { secs: t.secs + ASSUMED_LIFETIME_SECS, nanos: t.nanos },
                    common_name: node_user(self.node_name.as_str()),
                },
            ),
            None => None,
        }
    }

    /// How the certificate is replaced.
    pub fn check_and_rotate(&self, info: &Option<CertInfo>, now: Timestamp) -> (r: RotationAction)
        ensures
            r == match *info {
                None => RotationAction::SelfSign,
                Some(i) => match i.state_at(now.ns()) {
                    RotationState::Valid => RotationAction::Keep,
                    RotationState::NeedsRotation => RotationAction::Request,
                    RotationState::MissingOrExpired => RotationAction::SelfSign,
                },
            },
    {
        match info {
            None => RotationAction::SelfSign,
            Some(i) => match i.rotation_state(now) {
                RotationState::Valid => RotationAction::Keep,
                RotationState::NeedsRotation => RotationAction::Request,
                RotationState::MissingOrExpired => RotationAction::SelfSign,
            },
        }
    }

    /// The host name for which a certificate is valid: that of the node, where
    /// a certificate can hold it.
    pub fn dns_name(&self) -> (r: String)
        ensures
            r@ == if is_ascii_text(self.node_name@) {
                self.node_name@
            } else {
                "localhost"@
            },
    {
        if is_ia5(self.node_name.as_str()) {
            self.node_name.clone()
        } else {
            "localhost".to_owned()
        }
    }

    /// What the certificate says that the node signs itself.
    pub fn self_signed_request(&self) -> (r: SelfSignedRequest)
        ensures
            r.common_name@ == node_user_of(self.node_name@),
            r.organization@ == "system:nodes"@,
            r.dns_name@ == if is_ascii_text(self.node_name@) {
                self.node_name@
            } else {
                "localhost"@
            },
            is_ascii_text(r.dns_name@),
            r.ip@ == seq![127u8, 0, 0, 1],
    {
        proof {
            reveal_strlit("localhost");
            assert(is_ascii_text("localhost"@));
        }
        let ip: [u8; 4] = [127, 0, 0, 1];
        assert(ip@ =~= seq![127u8, 0, 0, 1]);
        SelfSignedRequest {
            common_name: node_user(self.node_name.as_str()),
            organization: "system:nodes".to_owned(),
            dns_name: self.dns_name(),
            ip,
        }
    }

    /// What puts a certificate and its key in place of the old ones.
    pub fn swap_certificate(&self, cert_pem: &str, key_pem: &str) -> (r: Vec<FileOp>)
        ensures
            ops(r@) == swap_ops(self.cert_path@, self.key_path@, cert_pem@, key_pem@),
    {
        let cert_path = self.cert_path.as_str();
        let key_path = self.key_path.as_str();
        let cert_tmp = with_extension(cert_path, "crt.tmp");
        let key_tmp = with_extension(key_path, "key.tmp");
        let mut out: Vec<FileOp> = Vec::new();
        assert(ops(out@) =~= Seq::<Op>::empty());
        if let Some(dir) = parent(cert_path) {
            push_op(&mut out, FileOp::CreateDir { path: dir });
        }
        assert(ops(out@) =~= dir_ops(cert_path@));
        push_op(&mut out, FileOp::Write { path: cert_tmp.clone(), content: cert_pem.to_owned() });
        push_op(&mut out, FileOp::Write { path: key_tmp.clone(), content: key_pem.to_owned() });
        push_op(&mut out, FileOp::Rename { from: cert_tmp, to: self.cert_path.clone() });
        push_op(&mut out, FileOp::Rename { from: key_tmp, to: self.key_path.clone() });
        assert(ops(out@) =~= swap_ops(cert_path@, key_path@, cert_pem@, key_pem@));
        out
    }

    /// What follows an attempt to make a certificate: the changes that put it
    /// in place, or why there is none.
    pub fn finish_self_signed(&self, outcome: Result<(String, String), SignError>) -> (r: Result<
        Vec<FileOp>,
        KubeletError,
    >)
        ensures
            match outcome {
                Ok(made) => r matches Ok(v) && ops(v@) == swap_ops(
                    self.cert_path@,
                    self.key_path@,
                    made.0@,
                    made.1@,
                ),
                Err(SignError::Key(e)) => r matches Err(KubeletError::Tls(m)) && m@
                    == "generate key: "@ + e@,
                Err(SignError::Certificate(e)) => r matches Err(KubeletError::Tls(m)) && m@
                    == "self-sign cert: "@ + e@,
            },
    {
        match outcome {
            Ok(made) => Ok(self.swap_certificate(made.0.as_str(), made.1.as_str())),
            Err(SignError::Key(e)) => Err(KubeletError::Tls(cat2("generate key: ", e.as_str()))),
            Err(SignError::Certificate(e)) => Err(
                KubeletError::Tls(cat2("self-sign cert: ", e.as_str())),
            ),
        }
    }

    /// Makes a certificate that the node signs itself, and says what puts it in
    /// place.
    pub fn generate_self_signed(&self) -> (r: Result<Vec<FileOp>, KubeletError>)
        ensures
            match r {
                Ok(v) => exists|cert_pem: Seq<char>, key_pem: Seq<char>|
                    {
                        &&& ops(v@) == #[trigger] swap_ops(
                            self.cert_path@,
                            self.key_path@,
                            cert_pem,
                            key_pem,
                        )
                        &&& certified(cert_pem) == (
                            node_user_of(self.node_name@),
                            "system:nodes"@,
                            if is_ascii_text(self.node_name@) {
                                self.node_name@
                            } else {
                                "localhost"@
                            },
                            seq![127u8, 0, 0, 1],
                        )
                    },
                Err(e) => e is Tls,
            },
    {
        let request = self.self_signed_request();
        let outcome = self_sign(&request);
        self.finish_self_signed(outcome)
    }

    /// The failure to put a certificate in place, where one of the changes
    /// failed: its number and why.
    pub fn certificate_swapped(&self, failed: &Option<(usize, String)>) -> (r: Result<
        (),
        KubeletError,
    >)
        requires
            failed matches Some((n, _)) ==> n < dir_ops(self.cert_path@).len() + 4,
        ensures
            match *failed {
                None => r is Ok,
                Some((n, e)) => r matches Err(KubeletError::Tls(m)) && m@ == swap_step(
                    dir_ops(self.cert_path@).len() + 4 - n,
                ) + e@,
            },
    {
        match failed {
            None => Ok(()),
            Some((n, e)) => {
                let all: usize = match parent(self.cert_path.as_str()) {
                    Some(_) => 5,
                    None => 4,
                };
                let from_end: usize = all - *n;
                let step = if from_end == 1 {
                    "rename key: "
                } else if from_end == 2 {
                    "rename cert: "
                } else if from_end == 3 {
                    "write key: "
                } else if from_end == 4 {
                    "write cert: "
                } else {
                    "create cert dir: "
                };
                Err(KubeletError::Tls(cat2(step, e.as_str())))
            },
        }
    }
}

/// A certificate and its key are swapped in whole: until both are written the
/// old files are as they were, at no point does either hold anything but its
/// old text or its new one, and in the end both hold the new ones.
pub proof fn law_certificates_are_swapped_whole(
    files: Files,
    cert_path: Seq<char>,
    key_path: Seq<char>,
    cert_pem: Seq<char>,
    key_pem: Seq<char>,
    n: int,
)
    requires
        cert_path != key_path || cert_pem == key_pem,
        cert_temp(cert_path) != key_temp(key_path),
        cert_temp(cert_path) != cert_path,
        cert_temp(cert_path) != key_path,
        key_temp(key_path) != cert_path,
        key_temp(key_path) != key_path,
        0 <= n <= swap_ops(cert_path, key_path, cert_pem, key_pem).len(),
    ensures
        ({
            let all = swap_ops(cert_path, key_path, cert_pem, key_pem);
            let then = after_ops(files, all.take(n));
            &&& n <= all.len() - 2 ==> unchanged(files, then, cert_path) && unchanged(
                files,
                then,
                key_path,
            )
            &&& unchanged(files, then, cert_path) || holds_text(then, cert_path, cert_pem)
            &&& unchanged(files, then, key_path) || holds_text(then, key_path, key_pem)
            &&& n == all.len() ==> holds_text(then, cert_path, cert_pem) && holds_text(
                then,
                key_path,
                key_pem,
            )
        }),
{
    let all = swap_ops(cert_path, key_path, cert_pem, key_pem);
    let d = dir_ops(cert_path).len() as int;
    assert(all.take(0) =~= Seq::<Op>::empty());
    assert(after_ops(files, all.take(0)) == files);
    if d == 1 {
        lemma_after_next(files, all, 0);
    }
    assert(after_ops(files, all.take(d)) == files);
    lemma_after_next(files, all, d);
    lemma_after_next(files, all, d + 1);
    lemma_after_next(files, all, d + 2);
    lemma_after_next(files, all, d + 3);
    assert(all[d] == Op::Write(cert_temp(cert_path), cert_pem));
    assert(all[d + 1] == Op::Write(key_temp(key_path), key_pem));
    assert(all[d + 2] == Op::Rename(cert_temp(cert_path), cert_path));
    assert(all[d + 3] == Op::Rename(key_temp(key_path), key_path));
    assert(n == 0 || n == d || n == d + 1 || n == d + 2 || n == d + 3 || n == d + 4);
}

/// A certificate that has to be replaced stays so: its state never goes back
/// as time passes.
pub proof fn law_rotation_state_never_goes_back(c: CertInfo, a: int, b: int)
    requires
        a <= b,
    ensures
        c.state_at(a) == RotationState::MissingOrExpired ==> c.state_at(b)
            == RotationState::MissingOrExpired,
        c.state_at(b) == RotationState::Valid ==> c.state_at(a) == RotationState::Valid,
{
    let x = a - c.not_before.ns();
    let y = b - c.not_before.ns();
    assert(whole_seconds(x) <= whole_seconds(y)) by {
        if x >= 0 {
            assert(x / 1_000_000_000 <= y / 1_000_000_000);
        } else if y < 0 {
            assert((-y) / 1_000_000_000 <= (-x) / 1_000_000_000);
        } else {
            assert((-x) / 1_000_000_000 >= 0);
        }
    }
}

/// A certificate that lives for some seconds is valid for the first seven
/// tenths of them, is to be renewed from then on, and has expired at their end.
pub proof fn law_renewal_is_at_seven_tenths(c: CertInfo, lifetime: nat, passed: int)
    requires
        lifetime > 0,
        c.not_after.ns() == c.not_before.ns() + lifetime * 1_000_000_000,
    ensures
        ({
            let now = c.not_before.ns() + passed * 1_000_000_000;
            &&& passed < 0 ==> c.state_at(now) is Valid
            &&& 0 <= passed && 10 * passed < 7 * lifetime ==> c.state_at(now) is Valid
            &&& 7 * lifetime <= 10 * passed && passed < lifetime ==> c.state_at(
                now,
            ) is NeedsRotation
            &&& passed >= lifetime ==> c.state_at(now) is MissingOrExpired
        }),
{
    let now = c.not_before.ns() + passed * 1_000_000_000;
    assert(whole_seconds((lifetime as int) * 1_000_000_000) == lifetime);
    assert(c.lifetime() == lifetime);
    assert(now - c.not_before.ns() == passed * 1_000_000_000);
    assert(whole_seconds(passed * 1_000_000_000) == passed);
}

/// Where swapping the certificate fails is told by the step: writing or
/// renaming, of the certificate or of the key.
pub proof fn law_failed_steps_have_their_names(
    cert_path: Seq<char>,
    key_path: Seq<char>,
    cert_pem: Seq<char>,
    key_pem: Seq<char>,
    n: int,
)
    requires
        cert_temp(cert_path) != key_temp(key_path),
        0 <= n < swap_ops(cert_path, key_path, cert_pem, key_pem).len(),
    ensures
        ({
            let all = swap_ops(cert_path, key_path, cert_pem, key_pem);
            let step = swap_step(all.len() - n);
            &&& all.len() == dir_ops(cert_path).len() + 4
            &&& all[n] == Op::Write(cert_temp(cert_path), cert_pem) && n >= dir_ops(
                cert_path,
            ).len() ==> step == "write cert: "@
            &&& all[n] == Op::Write(key_temp(key_path), key_pem) && n >= dir_ops(cert_path).len()
                ==> step == "write key: "@
            &&& all[n] == Op::Rename(cert_temp(cert_path), cert_path) ==> step == "rename cert: "@
            &&& all[n] == Op::Rename(key_temp(key_path), key_path) ==> step == "rename key: "@
            &&& all[n] is CreateDir ==> step == "create cert dir: "@
        }),
{
    let d = dir_ops(cert_path);
    let all = swap_ops(cert_path, key_path, cert_pem, key_pem);
    assert(all.len() == d.len() + 4);
    assert(all[d.len() as int] == Op::Write(cert_temp(cert_path), cert_pem));
    assert(all[d.len() as int + 1] == Op::Write(key_temp(key_path), key_pem));
    assert(all[d.len() as int + 2] == Op::Rename(cert_temp(cert_path), cert_path));
    assert(all[d.len() as int + 3] == Op::Rename(key_temp(key_path), key_path));
    if n < d.len() {
        assert(all[n] == d[n]);
    }
}

/// A name of small letters, digits and hyphens can stand in a certificate; one
/// with another character than ASCII cannot.
pub proof fn law_plain_names_can_be_certified(name: Seq<char>, i: int)
    requires
        0 <= i < name.len(),
    ensures
        (forall|j: int|
            0 <= j < name.len() ==> 'a' <= #[trigger] name[j] <= 'z' || '0' <= name[j] <= '9'
                || name[j] == '-') ==> is_ascii_text(name),
        name[i] as u32 >= 128 ==> !is_ascii_text(name),
{
}

/// What is written first stands beside the file that it will replace.
pub proof fn law_temporary_files_stand_beside(dir: Seq<char>, stem: Seq<char>, ext: Seq<char>)
    requires
        stem.len() > 0,
        stem != "."@,
        ext.len() > 0,
        !ext.contains('.'),
        !ext.contains('/'),
        !stem.contains('/'),
    ensures
        cert_temp(dir + seq!['/'] + (stem + seq!['.'] + ext)) == dir + seq!['/'] + (stem + seq!['.']
            + "crt.tmp"@),
        key_temp(dir + seq!['/'] + (stem + seq!['.'] + ext)) == dir + seq!['/'] + (stem + seq!['.']
            + "key.tmp"@),
{
    reveal_strlit("crt.tmp");
    reveal_strlit("key.tmp");
    assert("crt.tmp"@.len() == 7 && "key.tmp"@.len() == 7);
    law_extensions_are_replaced(dir, stem, ext, "crt.tmp"@);
    law_extensions_are_replaced(dir, stem, ext, "key.tmp"@);
}

/// A certificate that ends before it begins is never valid.
pub proof fn law_reversed_certificates_are_never_valid(c: CertInfo, now: int)
    requires
        c.not_after.ns() <= c.not_before.ns(),
    ensures
        !(c.state_at(now) is Valid),
        now >= c.not_after.ns() ==> c.state_at(now) is MissingOrExpired,
{
}

} // verus!
