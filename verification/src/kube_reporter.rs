//! Pods as the typed objects of the API server describe them, and the status
//! that the agent reports back.
use crate::backoff::{backoff, backoff_wait, law_backoff_doubles};
use crate::k8s::{
    K8sCapabilities, K8sContainer, K8sContainerBase, K8sContainerPort, K8sDnsConfig, K8sDnsOption,
    K8sDownwardFile, K8sEnvFrom, K8sEnvRef, K8sEnvVar, K8sEnvVarSource, K8sEphemeralContainer,
    K8sExec, K8sHostAlias, K8sKeyToPath, K8sLifecycle, K8sLifecycleHandler, K8sNameRef, K8sPod,
    K8sPodEvent, K8sPodSecurityContext, K8sPodSpec, K8sPort, K8sProbe, K8sProfile, K8sProjection,
    K8sReadinessGate, K8sResourceField, K8sResources, K8sSecurityContext, K8sSysctl, K8sVolume,
    K8sVolumeMount,
};
use crate::kube_watcher::{
    find_named_port, keep_nonempty, law_policies_are_read_by_name, named_dns_policy, named_port, nonempty, parse_dns_policy,
    parse_protocol, parse_pull_policy, parse_restart_policy, protocol_of, pull_policy_of,
    restart_policy_of, text_or,
};
use crate::lists::{collect_some, kept, lemma_kept_from, map_all, mapped};
use crate::quantity::{k8s_quantity_for_key, parse_k8s_quantity_for_key};
use crate::strmap::{collect_entries, copy_text_map, lookup, map_kept, StrMap};
use crate::text::{copy_strings, opt_same, opt_text};
use crate::types::{
    is_bare, AppArmorSpec, Capabilities, ContainerPort, ContainerSpec, DnsConfig, DnsOption,
    DnsPolicy, DownwardAPIVolumeFile, EnvFromRef, EnvFromSource, EnvVar, EnvVarSource, HostAlias,
    KeyToPath, Lifecycle, LifecycleHandler, LocalObjectReference, PodOperation, PodRef,
    PodSecurityContext, PodSpec, PodUID, PodUpdate, Probe, ProbeHandler, ProjectedVolumeSource,
    ReadinessGate, ResourceFieldRef, ResourceQuantity, ResourceRequirements, RestartPolicy,
    SeccompSpec, SecurityContext, Sysctl, VolumeMount, VolumeSource, VolumeSpec,
};
use vstd::prelude::*;

verus! {

// ---------------------------------------------------------------------------
// Optional parts
// ---------------------------------------------------------------------------

/// The items of an optional list; none where there is no list.
pub open spec fn items_of<T>(v: Option<Vec<T>>) -> Seq<T> {
    match v {
        Some(x) => x@,
        None => Seq::empty(),
    }
}

/// The entries of an optional map; none where there is no map.
pub open spec fn entries_of<V>(m: Option<StrMap<V>>) -> Map<Seq<char>, V> {
    match m {
        Some(x) => x@,
        None => Map::empty(),
    }
}

pub open spec fn flag(b: Option<bool>) -> bool {
    b == Some(true)
}

pub open spec fn to_u32(n: Option<i64>) -> Option<u32> {
    match n {
        Some(x) => Some(x as u32),
        None => None,
    }
}

pub open spec fn to_u64(n: Option<i64>) -> Option<u64> {
    match n {
        Some(x) => Some(x as u64),
        None => None,
    }
}

/// The number, or `default`, as an unsigned 32-bit number.
pub open spec fn u32_or(n: Option<i32>, default: i32) -> u32 {
    match n {
        Some(x) => x as u32,
        None => default as u32,
    }
}

fn as_flag(b: Option<bool>) -> (r: bool)
    ensures
        r == flag(b),
{
    match b {
        Some(x) => x,
        None => false,
    }
}

fn as_u32(n: Option<i64>) -> (r: Option<u32>)
    ensures
        r == to_u32(n),
{
    match n {
        Some(x) => Some(#[verifier::truncate] (x as u32)),
        None => None,
    }
}

fn as_u64(n: Option<i64>) -> (r: Option<u64>)
    ensures
        r == to_u64(n),
{
    match n {
        Some(x) => Some(#[verifier::truncate] (x as u64)),
        None => None,
    }
}

fn as_u32_or(n: Option<i32>, default: i32) -> (r: u32)
    ensures
        r == u32_or(n, default),
{
    match n {
        Some(x) => #[verifier::truncate] (x as u32),
        None => #[verifier::truncate] (default as u32),
    }
}

fn strings(v: &Option<Vec<String>>) -> (r: Vec<String>)
    ensures
        r@ == items_of(*v),
{
    match v {
        Some(x) => copy_strings(x),
        None => Vec::new(),
    }
}

fn string_or(v: &Option<String>, default: &str) -> (r: String)
    ensures
        r@ == text_or(opt_text(*v), default@),
{
    match v {
        Some(x) => x.clone(),
        None => default.to_owned(),
    }
}

fn string_or_empty(v: &Option<String>) -> (r: String)
    ensures
        r@ == text_or(opt_text(*v), Seq::empty()),
{
    match v {
        Some(x) => x.clone(),
        None => String::new(),
    }
}

fn text_entries(m: &Option<StrMap<String>>) -> (r: StrMap<String>)
    ensures
        r@ == entries_of(*m),
{
    match m {
        Some(x) => copy_text_map(x),
        None => StrMap::new(),
    }
}

// ---------------------------------------------------------------------------
// Environment
// ---------------------------------------------------------------------------

/// The source of an environment variable: the first of the four kinds that is
/// present.
pub open spec fn k8s_env_source_is(s: K8sEnvVarSource, r: Option<EnvVarSource>) -> bool {
    if let Some(f) = s.field_ref {
        r matches Some(EnvVarSource::FieldRef { field_path }) && field_path == f
    } else if let Some(f) = s.resource_field_ref {
        r matches Some(EnvVarSource::ResourceFieldRef { container_name, resource })
            && container_name == f.container_name && resource == f.resource
    } else if let Some(f) = s.config_map_key_ref {
        r matches Some(EnvVarSource::ConfigMapKeyRef { name, key, optional }) && name@ == text_or(
            opt_text(f.name),
            Seq::empty(),
        ) && key == f.key && optional == flag(f.optional)
    } else if let Some(f) = s.secret_key_ref {
        r matches Some(EnvVarSource::SecretKeyRef { name, key, optional }) && name@ == text_or(
            opt_text(f.name),
            Seq::empty(),
        ) && key == f.key && optional == flag(f.optional)
    } else {
        r is None
    }
}

fn k8s_env_source_to_spec(s: &K8sEnvVarSource) -> (r: Option<EnvVarSource>)
    ensures
        k8s_env_source_is(*s, r),
{
    if let Some(f) = &s.field_ref {
        Some(EnvVarSource::FieldRef { field_path: f.clone() })
    } else if let Some(f) = &s.resource_field_ref {
        Some(
            EnvVarSource::ResourceFieldRef {
                container_name: f.container_name.clone(),
                resource: f.resource.clone(),
            },
        )
    } else if let Some(f) = &s.config_map_key_ref {
        Some(
            EnvVarSource::ConfigMapKeyRef {
                name: string_or_empty(&f.name),
                key: f.key.clone(),
                optional: as_flag(f.optional),
            },
        )
    } else if let Some(f) = &s.secret_key_ref {
        Some(
            EnvVarSource::SecretKeyRef {
                name: string_or_empty(&f.name),
                key: f.key.clone(),
                optional: as_flag(f.optional),
            },
        )
    } else {
        None
    }
}

pub open spec fn k8s_env_is(e: K8sEnvVar, r: EnvVar) -> bool {
    &&& r.name == e.name
    &&& r.value == e.value
    &&& match e.value_from {
        Some(s) => k8s_env_source_is(s, r.value_from),
        None => r.value_from is None,
    }
}

pub open spec fn k8s_env_rel() -> spec_fn(K8sEnvVar, EnvVar) -> bool {
    |e: K8sEnvVar, r: EnvVar| k8s_env_is(e, r)
}

fn k8s_env_to_spec(e: &K8sEnvVar) -> (r: EnvVar)
    ensures
        k8s_env_is(*e, r),
{
    EnvVar {
        name: e.name.clone(),
        value: e.value.clone(),
        value_from: match &e.value_from {
            Some(s) => k8s_env_source_to_spec(s),
            None => None,
        },
    }
}

pub open spec fn k8s_env_ref_is(v: Option<K8sEnvRef>, r: Option<EnvFromRef>) -> bool {
    match v {
        Some(f) => r matches Some(x) && x.name@ == text_or(opt_text(f.name), Seq::empty())
            && x.optional == flag(f.optional),
        None => r is None,
    }
}

fn k8s_env_ref_to_spec(v: &Option<K8sEnvRef>) -> (r: Option<EnvFromRef>)
    ensures
        k8s_env_ref_is(*v, r),
{
    match v {
        Some(f) => Some(
            EnvFromRef { name: string_or_empty(&f.name), optional: as_flag(f.optional) },
        ),
        None => None,
    }
}

pub open spec fn k8s_env_from_is(e: K8sEnvFrom, r: EnvFromSource) -> bool {
    &&& r.prefix == e.prefix
    &&& k8s_env_ref_is(e.config_map_ref, r.config_map_ref)
    &&& k8s_env_ref_is(e.secret_ref, r.secret_ref)
}

pub open spec fn k8s_env_from_rel() -> spec_fn(K8sEnvFrom, EnvFromSource) -> bool {
    |e: K8sEnvFrom, r: EnvFromSource| k8s_env_from_is(e, r)
}

fn k8s_env_from_to_spec(e: &K8sEnvFrom) -> (r: EnvFromSource)
    ensures
        k8s_env_from_is(*e, r),
{
    EnvFromSource {
        prefix: e.prefix.clone(),
        config_map_ref: k8s_env_ref_to_spec(&e.config_map_ref),
        secret_ref: k8s_env_ref_to_spec(&e.secret_ref),
    }
}

pub open spec fn k8s_mount_is(m: K8sVolumeMount, r: VolumeMount) -> bool {
    &&& r.name == m.name
    &&& r.mount_path == m.mount_path
    &&& r.sub_path == m.sub_path
    &&& r.sub_path_expr == m.sub_path_expr
    &&& r.read_only == flag(m.read_only)
}

pub open spec fn k8s_mount_rel() -> spec_fn(K8sVolumeMount, VolumeMount) -> bool {
    |m: K8sVolumeMount, r: VolumeMount| k8s_mount_is(m, r)
}

fn k8s_mount_to_spec(m: &K8sVolumeMount) -> (r: VolumeMount)
    ensures
        k8s_mount_is(*m, r),
{
    VolumeMount {
        name: m.name.clone(),
        mount_path: m.mount_path.clone(),
        sub_path: m.sub_path.clone(),
        sub_path_expr: m.sub_path_expr.clone(),
        read_only: as_flag(m.read_only),
    }
}

// ---------------------------------------------------------------------------
// Ports, probes and hooks
// ---------------------------------------------------------------------------

pub open spec fn k8s_container_port_is(p: K8sContainerPort, r: ContainerPort) -> bool {
    &&& r.name == p.name
    &&& r.container_port == p.container_port as u16
    &&& r.host_port == match p.host_port {
        Some(n) => Some(n as u16),
        None => None,
    }
    &&& r.protocol == protocol_of(opt_text(p.protocol))
    &&& r.host_ip == p.host_ip
}

pub open spec fn k8s_container_port_rel() -> spec_fn(K8sContainerPort, ContainerPort) -> bool {
    |p: K8sContainerPort, r: ContainerPort| k8s_container_port_is(p, r)
}

fn k8s_container_port_to_spec(p: &K8sContainerPort) -> (r: ContainerPort)
    ensures
        k8s_container_port_is(*p, r),
{
    ContainerPort {
        name: p.name.clone(),
        container_port: #[verifier::truncate] (p.container_port as u16),
        host_port: match p.host_port {
            Some(n) => Some(#[verifier::truncate] (n as u16)),
            None => None,
        },
        protocol: parse_protocol(&p.protocol),
        host_ip: p.host_ip.clone(),
    }
}

/// The number of a port; a name stands for the first of the container's ports
/// that has it, or for zero.
pub open spec fn k8s_port_number(p: K8sPort, ports: Seq<ContainerPort>) -> u16 {
    match p {
        K8sPort::Int(n) => n as u16,
        K8sPort::Name(s) => match named_port(ports, s@) {
            Some(n) => n,
            None => 0,
        },
    }
}

/// Resolves a port given by number or by name.
pub fn resolve_intorstring_port(port: &K8sPort, container_ports: &Vec<ContainerPort>) -> (r: u16)
    ensures
        r == k8s_port_number(*port, container_ports@),
{
    match port {
        K8sPort::Int(n) => #[verifier::truncate] (*n as u16),
        K8sPort::Name(s) => match find_named_port(container_ports, s.as_str()) {
            Some(n) => n,
            None => 0,
        },
    }
}

pub open spec fn exec_command(e: K8sExec) -> Seq<String> {
    items_of(e.command)
}

pub open spec fn k8s_probe_handler_is(
    p: K8sProbe,
    ports: Seq<ContainerPort>,
    r: Option<ProbeHandler>,
) -> bool {
    if let Some(e) = p.exec_action {
        r matches Some(ProbeHandler::Exec { command }) && command@ == exec_command(e)
    } else if let Some(h) = p.http_get {
        r matches Some(ProbeHandler::HttpGet { path, port, host, scheme }) && path@ == text_or(
            opt_text(h.path),
            "/"@,
        ) && port == k8s_port_number(h.port, ports) && host == h.host && scheme@ == text_or(
            opt_text(h.scheme),
            "HTTP"@,
        )
    } else if let Some(t) = p.tcp_socket {
        r matches Some(ProbeHandler::TcpSocket { port, host }) && port == k8s_port_number(
            t.port,
            ports,
        ) && host == t.host
    } else if let Some(g) = p.grpc {
        r matches Some(ProbeHandler::Grpc { port, service }) && port == g.port as u16 && service
            == g.service
    } else {
        r is None
    }
}

fn k8s_probe_handler(p: &K8sProbe, container_ports: &Vec<ContainerPort>) -> (r: Option<
    ProbeHandler,
>)
    ensures
        k8s_probe_handler_is(*p, container_ports@, r),
{
    if let Some(e) = &p.exec_action {
        Some(ProbeHandler::Exec { command: strings(&e.command) })
    } else if let Some(h) = &p.http_get {
        Some(
            ProbeHandler::HttpGet {
                path: string_or(&h.path, "/"),
                port: resolve_intorstring_port(&h.port, container_ports),
                host: h.host.clone(),
                scheme: string_or(&h.scheme, "HTTP"),
            },
        )
    } else if let Some(t) = &p.tcp_socket {
        Some(
            ProbeHandler::TcpSocket {
                port: resolve_intorstring_port(&t.port, container_ports),
                host: t.host.clone(),
            },
        )
    } else if let Some(g) = &p.grpc {
        Some(
            ProbeHandler::Grpc {
                port: #[verifier::truncate] (g.port as u16),
                service: g.service.clone(),
            },
        )
    } else {
        None
    }
}

/// A probe: there is one where it has a handler.
pub open spec fn k8s_probe_is(p: K8sProbe, ports: Seq<ContainerPort>, r: Option<Probe>) -> bool {
    match r {
        Some(x) => {
            &&& k8s_probe_handler_is(p, ports, Some(x.handler))
            &&& x.initial_delay_seconds == u32_or(p.initial_delay_seconds, 0)
            &&& x.period_seconds == u32_or(p.period_seconds, 10)
            &&& x.timeout_seconds == u32_or(p.timeout_seconds, 1)
            &&& x.success_threshold == u32_or(p.success_threshold, 1)
            &&& x.failure_threshold == u32_or(p.failure_threshold, 3)
        },
        None => k8s_probe_handler_is(p, ports, None),
    }
}

/// Converts a probe.
pub fn k8s_probe_to_spec(p: &K8sProbe, container_ports: &Vec<ContainerPort>) -> (r: Option<Probe>)
    ensures
        k8s_probe_is(*p, container_ports@, r),
{
    match k8s_probe_handler(p, container_ports) {
        Some(handler) => Some(
            Probe {
                handler,
                initial_delay_seconds: as_u32_or(p.initial_delay_seconds, 0),
                period_seconds: as_u32_or(p.period_seconds, 10),
                timeout_seconds: as_u32_or(p.timeout_seconds, 1),
                success_threshold: as_u32_or(p.success_threshold, 1),
                failure_threshold: as_u32_or(p.failure_threshold, 3),
            },
        ),
        None => None,
    }
}

pub open spec fn opt_probe_is(
    p: Option<K8sProbe>,
    ports: Seq<ContainerPort>,
    r: Option<Probe>,
) -> bool {
    match p {
        Some(x) => k8s_probe_is(x, ports, r),
        None => r is None,
    }
}

fn opt_probe(p: &Option<K8sProbe>, container_ports: &Vec<ContainerPort>) -> (r: Option<Probe>)
    ensures
        opt_probe_is(*p, container_ports@, r),
{
    match p {
        Some(x) => k8s_probe_to_spec(x, container_ports),
        None => None,
    }
}

/// The port of a hook; a name stands for `named`.
pub open spec fn hook_port(p: K8sPort, named: u16) -> u16 {
    match p {
        K8sPort::Int(n) => n as u16,
        K8sPort::Name(_) => named,
    }
}

fn hook_port_number(p: &K8sPort, named: u16) -> (r: u16)
    ensures
        r == hook_port(*p, named),
{
    match p {
        K8sPort::Int(n) => #[verifier::truncate] (*n as u16),
        K8sPort::Name(_) => named,
    }
}

/// What a lifecycle hook does: the first of the four kinds that is present.
pub open spec fn k8s_hook_is(h: K8sLifecycleHandler, r: Option<LifecycleHandler>) -> bool {
    if let Some(e) = h.exec_action {
        r matches Some(LifecycleHandler::Exec { command }) && command@ == exec_command(e)
    } else if let Some(g) = h.http_get {
        r matches Some(LifecycleHandler::HttpGet { path, port, host, scheme }) && path@ == text_or(
            opt_text(g.path),
            "/"@,
        ) && port == hook_port(g.port, 80) && host == g.host && scheme@ == text_or(
            opt_text(g.scheme),
            "HTTP"@,
        )
    } else if let Some(t) = h.tcp_socket {
        r matches Some(LifecycleHandler::TcpSocket { port, host }) && port == hook_port(t.port, 0)
            && host == t.host
    } else if let Some(n) = h.sleep_seconds {
        r matches Some(LifecycleHandler::Sleep { seconds }) && seconds == if n < 0 {
            0
        } else {
            n as int
        }
    } else {
        r is None
    }
}

/// Converts a lifecycle hook.
pub fn k8s_lifecycle_handler_to_spec(h: &K8sLifecycleHandler) -> (r: Option<LifecycleHandler>)
    ensures
        k8s_hook_is(*h, r),
{
    if let Some(e) = &h.exec_action {
        Some(LifecycleHandler::Exec { command: strings(&e.command) })
    } else if let Some(g) = &h.http_get {
        Some(
            LifecycleHandler::HttpGet {
                path: string_or(&g.path, "/"),
                port: hook_port_number(&g.port, 80),
                host: g.host.clone(),
                scheme: string_or(&g.scheme, "HTTP"),
            },
        )
    } else if let Some(t) = &h.tcp_socket {
        Some(
            LifecycleHandler::TcpSocket {
                port: hook_port_number(&t.port, 0),
                host: t.host.clone(),
            },
        )
    } else if let Some(n) = h.sleep_seconds {
        Some(
            LifecycleHandler::Sleep {
                seconds: if n < 0 {
                    0
                } else {
                    n as u64
                },
            },
        )
    } else {
        None
    }
}

pub open spec fn opt_hook_is(
    h: Option<K8sLifecycleHandler>,
    r: Option<LifecycleHandler>,
) -> bool {
    match h {
        Some(x) => k8s_hook_is(x, r),
        None => r is None,
    }
}

pub open spec fn k8s_lifecycle_is(l: Option<K8sLifecycle>, r: Option<Lifecycle>) -> bool {
    match l {
        Some(x) => r matches Some(y) && opt_hook_is(x.post_start, y.post_start) && opt_hook_is(
            x.pre_stop,
            y.pre_stop,
        ),
        None => r is None,
    }
}

fn k8s_lifecycle_to_spec(l: &Option<K8sLifecycle>) -> (r: Option<Lifecycle>)
    ensures
        k8s_lifecycle_is(*l, r),
{
    match l {
        Some(x) => Some(
            Lifecycle {
                post_start: match &x.post_start {
                    Some(h) => k8s_lifecycle_handler_to_spec(h),
                    None => None,
                },
                pre_stop: match &x.pre_stop {
                    Some(h) => k8s_lifecycle_handler_to_spec(h),
                    None => None,
                },
            },
        ),
        None => None,
    }
}

// ---------------------------------------------------------------------------
// Security contexts
// ---------------------------------------------------------------------------

pub open spec fn k8s_seccomp_is(p: Option<K8sProfile>, r: Option<SeccompSpec>) -> bool {
    match p {
        Some(x) => r matches Some(y) && y.type_ == x.type_ && y.localhost_profile
            == x.localhost_profile,
        None => r is None,
    }
}

fn k8s_seccomp_to_spec(p: &Option<K8sProfile>) -> (r: Option<SeccompSpec>)
    ensures
        k8s_seccomp_is(*p, r),
{
    match p {
        Some(x) => Some(
            SeccompSpec {
                type_: x.type_.clone(),
                localhost_profile: x.localhost_profile.clone(),
            },
        ),
        None => None,
    }
}

pub open spec fn k8s_apparmor_is(p: Option<K8sProfile>, r: Option<AppArmorSpec>) -> bool {
    match p {
        Some(x) => r matches Some(y) && y.type_ == x.type_ && y.localhost_profile
            == x.localhost_profile,
        None => r is None,
    }
}

fn k8s_apparmor_to_spec(p: &Option<K8sProfile>) -> (r: Option<AppArmorSpec>)
    ensures
        k8s_apparmor_is(*p, r),
{
    match p {
        Some(x) => Some(
            AppArmorSpec {
                type_: x.type_.clone(),
                localhost_profile: x.localhost_profile.clone(),
            },
        ),
        None => None,
    }
}

pub open spec fn k8s_capabilities_are(
    c: Option<K8sCapabilities>,
    r: Option<Capabilities>,
) -> bool {
    match c {
        Some(x) => r matches Some(y) && y.add@ == items_of(x.add) && y.drop@ == items_of(x.drop),
        None => r is None,
    }
}

fn k8s_capabilities_to_spec(c: &Option<K8sCapabilities>) -> (r: Option<Capabilities>)
    ensures
        k8s_capabilities_are(*c, r),
{
    match c {
        Some(x) => Some(Capabilities { add: strings(&x.add), drop: strings(&x.drop) }),
        None => None,
    }
}

pub open spec fn k8s_security_is(
    v: Option<K8sSecurityContext>,
    r: Option<SecurityContext>,
) -> bool {
    match v {
        Some(s) => {
            &&& r matches Some(x)
            &&& x.run_as_user == to_u32(s.run_as_user)
            &&& x.run_as_group == to_u32(s.run_as_group)
            &&& x.run_as_non_root == s.run_as_non_root
            &&& x.privileged == s.privileged
            &&& x.read_only_root_filesystem == s.read_only_root_filesystem
            &&& x.allow_privilege_escalation == s.allow_privilege_escalation
            &&& k8s_capabilities_are(s.capabilities, x.capabilities)
            &&& k8s_seccomp_is(s.seccomp_profile, x.seccomp_profile)
            &&& k8s_apparmor_is(s.app_armor_profile, x.apparmor_profile)
            &&& x.proc_mount == s.proc_mount
        },
        None => r is None,
    }
}

fn k8s_security_to_spec(v: &Option<K8sSecurityContext>) -> (r: Option<SecurityContext>)
    ensures
        k8s_security_is(*v, r),
{
    match v {
        Some(s) => Some(
            SecurityContext {
                run_as_user: as_u32(s.run_as_user),
                run_as_group: as_u32(s.run_as_group),
                run_as_non_root: s.run_as_non_root,
                privileged: s.privileged,
                read_only_root_filesystem: s.read_only_root_filesystem,
                allow_privilege_escalation: s.allow_privilege_escalation,
                capabilities: k8s_capabilities_to_spec(&s.capabilities),
                seccomp_profile: k8s_seccomp_to_spec(&s.seccomp_profile),
                apparmor_profile: k8s_apparmor_to_spec(&s.app_armor_profile),
                proc_mount: s.proc_mount.clone(),
            },
        ),
        None => None,
    }
}

pub open spec fn k8s_sysctl_is(s: K8sSysctl, r: Sysctl) -> bool {
    r.name == s.name && r.value == s.value
}

pub open spec fn k8s_sysctl_rel() -> spec_fn(K8sSysctl, Sysctl) -> bool {
    |s: K8sSysctl, r: Sysctl| k8s_sysctl_is(s, r)
}

fn k8s_sysctl_to_spec(s: &K8sSysctl) -> (r: Sysctl)
    ensures
        k8s_sysctl_is(*s, r),
{
    Sysctl { name: s.name.clone(), value: s.value.clone() }
}

pub open spec fn group_of_rel() -> spec_fn(i64, u32) -> bool {
    |g: i64, r: u32| r == g as u32
}

fn group_of(g: &i64) -> (r: u32)
    ensures
        r == *g as u32,
{
    #[verifier::truncate]
    (*g as u32)
}

pub open spec fn k8s_pod_security_is(
    v: Option<K8sPodSecurityContext>,
    r: Option<PodSecurityContext>,
) -> bool {
    match v {
        Some(s) => {
            &&& r matches Some(x)
            &&& x.run_as_user == to_u32(s.run_as_user)
            &&& x.run_as_group == to_u32(s.run_as_group)
            &&& x.run_as_non_root == s.run_as_non_root
            &&& x.fs_group == to_u32(s.fs_group)
            &&& mapped(items_of(s.supplemental_groups), x.supplemental_groups@, group_of_rel())
            &&& x.fs_group_change_policy == s.fs_group_change_policy
            &&& mapped(items_of(s.sysctls), x.sysctls@, k8s_sysctl_rel())
            &&& k8s_seccomp_is(s.seccomp_profile, x.seccomp_profile)
        },
        None => r is None,
    }
}

fn k8s_pod_security_to_spec(v: &Option<K8sPodSecurityContext>) -> (r: Option<PodSecurityContext>)
    ensures
        k8s_pod_security_is(*v, r),
{
    match v {
        Some(s) => Some(
            PodSecurityContext {
                run_as_user: as_u32(s.run_as_user),
                run_as_group: as_u32(s.run_as_group),
                run_as_non_root: s.run_as_non_root,
                fs_group: as_u32(s.fs_group),
                supplemental_groups: match &s.supplemental_groups {
                    Some(items) => map_all(items, group_of, Ghost(group_of_rel())),
                    None => Vec::new(),
                },
                fs_group_change_policy: s.fs_group_change_policy.clone(),
                sysctls: match &s.sysctls {
                    Some(items) => map_all(items, k8s_sysctl_to_spec, Ghost(k8s_sysctl_rel())),
                    None => Vec::new(),
                },
                seccomp_profile: k8s_seccomp_to_spec(&s.seccomp_profile),
            },
        ),
        None => None,
    }
}

// ---------------------------------------------------------------------------
// Volumes
// ---------------------------------------------------------------------------

pub open spec fn k8s_key_is(i: K8sKeyToPath, r: KeyToPath) -> bool {
    r.key == i.key && r.path == i.path && r.mode == i.mode
}

pub open spec fn k8s_key_rel() -> spec_fn(K8sKeyToPath, KeyToPath) -> bool {
    |i: K8sKeyToPath, r: KeyToPath| k8s_key_is(i, r)
}

/// Converts a key and the path under which it is mounted.
pub fn k8s_key_to_path(item: &K8sKeyToPath) -> (r: KeyToPath)
    ensures
        k8s_key_is(*item, r),
{
    KeyToPath { key: item.key.clone(), path: item.path.clone(), mode: item.mode }
}

fn k8s_keys(items: &Option<Vec<K8sKeyToPath>>) -> (r: Vec<KeyToPath>)
    ensures
        mapped(items_of(*items), r@, k8s_key_rel()),
{
    match items {
        Some(v) => map_all(v, k8s_key_to_path, Ghost(k8s_key_rel())),
        None => Vec::new(),
    }
}

pub open spec fn k8s_resource_field_is(
    f: Option<K8sResourceField>,
    r: Option<ResourceFieldRef>,
) -> bool {
    match f {
        Some(x) => r matches Some(y) && y.container_name == x.container_name && y.resource
            == x.resource && y.divisor == x.divisor,
        None => r is None,
    }
}

pub open spec fn k8s_downward_is(i: K8sDownwardFile, r: DownwardAPIVolumeFile) -> bool {
    &&& r.path == i.path
    &&& r.field_ref == i.field_ref
    &&& k8s_resource_field_is(i.resource_field_ref, r.resource_field_ref)
    &&& r.mode == i.mode
}

pub open spec fn k8s_downward_rel() -> spec_fn(K8sDownwardFile, DownwardAPIVolumeFile) -> bool {
    |i: K8sDownwardFile, r: DownwardAPIVolumeFile| k8s_downward_is(i, r)
}

/// Converts a file that shows a field of the pod.
pub fn k8s_downward_api_file(item: &K8sDownwardFile) -> (r: DownwardAPIVolumeFile)
    ensures
        k8s_downward_is(*item, r),
{
    DownwardAPIVolumeFile {
        path: item.path.clone(),
        field_ref: item.field_ref.clone(),
        resource_field_ref: match &item.resource_field_ref {
            Some(x) => Some(
                ResourceFieldRef {
                    container_name: x.container_name.clone(),
                    resource: x.resource.clone(),
                    divisor: x.divisor.clone(),
                },
            ),
            None => None,
        },
        mode: item.mode,
    }
}

fn k8s_downward_files(items: &Option<Vec<K8sDownwardFile>>) -> (r: Vec<DownwardAPIVolumeFile>)
    ensures
        mapped(items_of(*items), r@, k8s_downward_rel()),
{
    match items {
        Some(v) => map_all(v, k8s_downward_api_file, Ghost(k8s_downward_rel())),
        None => Vec::new(),
    }
}

/// A projected source: the first of the four kinds that is present.
pub open spec fn k8s_projection_from(p: K8sProjection, r: Option<ProjectedVolumeSource>) -> bool {
    if let Some(t) = p.service_account_token {
        r matches Some(
            ProjectedVolumeSource::ServiceAccountToken { audience, expiration_seconds, path },
        ) && audience == t.audience && expiration_seconds == to_u64(t.expiration_seconds) && path
            == t.path
    } else if let Some(c) = p.config_map {
        r matches Some(ProjectedVolumeSource::ConfigMap { name, items, optional }) && name@
            == text_or(opt_text(c.name), Seq::empty()) && mapped(
            items_of(c.items),
            items@,
            k8s_key_rel(),
        ) && optional == flag(c.optional)
    } else if let Some(c) = p.secret {
        r matches Some(ProjectedVolumeSource::Secret { name, items, optional }) && name@ == text_or(
            opt_text(c.name),
            Seq::empty(),
        ) && mapped(items_of(c.items), items@, k8s_key_rel()) && optional == flag(c.optional)
    } else if let Some(d) = p.downward_api {
        r matches Some(ProjectedVolumeSource::DownwardAPI { items }) && mapped(
            items_of(d.items),
            items@,
            k8s_downward_rel(),
        )
    } else {
        r is None
    }
}

pub open spec fn k8s_projection_rel() -> spec_fn(K8sProjection, Option<ProjectedVolumeSource>) -> bool {
    |p: K8sProjection, r: Option<ProjectedVolumeSource>| k8s_projection_from(p, r)
}

fn k8s_projection_to_spec(p: &K8sProjection) -> (r: Option<ProjectedVolumeSource>)
    ensures
        k8s_projection_from(*p, r),
{
    if let Some(t) = &p.service_account_token {
        Some(
            ProjectedVolumeSource::ServiceAccountToken {
                audience: t.audience.clone(),
                expiration_seconds: as_u64(t.expiration_seconds),
                path: t.path.clone(),
            },
        )
    } else if let Some(c) = &p.config_map {
        Some(
            ProjectedVolumeSource::ConfigMap {
                name: string_or_empty(&c.name),
                items: k8s_keys(&c.items),
                optional: as_flag(c.optional),
            },
        )
    } else if let Some(c) = &p.secret {
        Some(
            ProjectedVolumeSource::Secret {
                name: string_or_empty(&c.name),
                items: k8s_keys(&c.items),
                optional: as_flag(c.optional),
            },
        )
    } else if let Some(d) = &p.downward_api {
        Some(ProjectedVolumeSource::DownwardAPI { items: k8s_downward_files(&d.items) })
    } else {
        None
    }
}

/// The source of a volume: the first of the kinds that is present.
pub open spec fn k8s_volume_source_is(v: K8sVolume, r: Option<VolumeSource>) -> bool {
    if let Some(h) = v.host_path {
        r matches Some(VolumeSource::HostPath { path, path_type }) && path == h.path && path_type
            == h.type_
    } else if let Some(e) = v.empty_dir {
        r matches Some(VolumeSource::EmptyDir { medium, size_limit }) && medium == e.medium
            && size_limit is None
    } else if let Some(c) = v.config_map {
        r matches Some(VolumeSource::ConfigMap { name, items, optional, default_mode }) && name@
            == text_or(opt_text(c.name), Seq::empty()) && mapped(
            items_of(c.items),
            items@,
            k8s_key_rel(),
        ) && optional == flag(c.optional) && default_mode == c.default_mode
    } else if let Some(c) = v.secret {
        r matches Some(VolumeSource::Secret { secret_name, items, optional, default_mode })
            && secret_name@ == text_or(opt_text(c.name), Seq::empty()) && mapped(
            items_of(c.items),
            items@,
            k8s_key_rel(),
        ) && optional == flag(c.optional) && default_mode == c.default_mode
    } else if let Some(c) = v.persistent_volume_claim {
        r matches Some(VolumeSource::PersistentVolumeClaim { claim_name, read_only }) && claim_name
            == c.claim_name && read_only == flag(c.read_only)
    } else if let Some(p) = v.projected {
        r matches Some(VolumeSource::Projected { sources, default_mode }) && kept(
            items_of(p.sources),
            sources@,
            k8s_projection_rel(),
        ) && default_mode == p.default_mode
    } else if let Some(d) = v.downward_api {
        r matches Some(VolumeSource::DownwardAPI { items, default_mode }) && mapped(
            items_of(d.items),
            items@,
            k8s_downward_rel(),
        ) && default_mode == d.default_mode
    } else {
        r is None
    }
}

fn k8s_volume_source(v: &K8sVolume) -> (r: Option<VolumeSource>)
    ensures
        k8s_volume_source_is(*v, r),
{
    if let Some(h) = &v.host_path {
        Some(VolumeSource::HostPath { path: h.path.clone(), path_type: h.type_.clone() })
    } else if let Some(e) = &v.empty_dir {
        Some(VolumeSource::EmptyDir { medium: e.medium.clone(), size_limit: None })
    } else if let Some(c) = &v.config_map {
        Some(
            VolumeSource::ConfigMap {
                name: string_or_empty(&c.name),
                items: k8s_keys(&c.items),
                optional: as_flag(c.optional),
                default_mode: c.default_mode,
            },
        )
    } else if let Some(c) = &v.secret {
        Some(
            VolumeSource::Secret {
                secret_name: string_or_empty(&c.name),
                items: k8s_keys(&c.items),
                optional: as_flag(c.optional),
                default_mode: c.default_mode,
            },
        )
    } else if let Some(c) = &v.persistent_volume_claim {
        Some(
            VolumeSource::PersistentVolumeClaim {
                claim_name: c.claim_name.clone(),
                read_only: as_flag(c.read_only),
            },
        )
    } else if let Some(p) = &v.projected {
        Some(
            VolumeSource::Projected {
                sources: match &p.sources {
                    Some(items) => collect_some(
                        items,
                        k8s_projection_to_spec,
                        Ghost(k8s_projection_rel()),
                    ),
                    None => Vec::new(),
                },
                default_mode: p.default_mode,
            },
        )
    } else if let Some(d) = &v.downward_api {
        Some(
            VolumeSource::DownwardAPI {
                items: k8s_downward_files(&d.items),
                default_mode: d.default_mode,
            },
        )
    } else {
        None
    }
}

/// A volume: there is one where its source is of a known kind.
pub open spec fn k8s_volume_from(v: K8sVolume, r: Option<VolumeSpec>) -> bool {
    match r {
        Some(x) => x.name == v.name && k8s_volume_source_is(v, Some(x.source)),
        None => k8s_volume_source_is(v, None),
    }
}

pub open spec fn k8s_volume_rel() -> spec_fn(K8sVolume, Option<VolumeSpec>) -> bool {
    |v: K8sVolume, r: Option<VolumeSpec>| k8s_volume_from(v, r)
}

/// Converts a volume.
pub fn k8s_volume_to_spec(v: &K8sVolume) -> (r: Option<VolumeSpec>)
    ensures
        k8s_volume_from(*v, r),
{
    match k8s_volume_source(v) {
        Some(source) => Some(VolumeSpec { name: v.name.clone(), source }),
        None => None,
    }
}

// ---------------------------------------------------------------------------
// Containers
// ---------------------------------------------------------------------------

/// The quantity of a resource; entries that are no quantities are left out.
pub open spec fn k8s_quantity_rel() -> spec_fn(Seq<char>, String, Option<ResourceQuantity>) -> bool {
    |k: Seq<char>, v: String, r: Option<ResourceQuantity>| r == k8s_quantity_for_key(k, v@)
}

fn k8s_quantity_value(k: &String, v: &String) -> (r: Option<ResourceQuantity>)
    ensures
        r == k8s_quantity_for_key(k@, v@),
{
    parse_k8s_quantity_for_key(k.as_str(), v.as_str())
}

fn k8s_quantities(m: &Option<StrMap<String>>) -> (r: StrMap<ResourceQuantity>)
    ensures
        map_kept(entries_of(*m), r@, k8s_quantity_rel()),
{
    match m {
        Some(x) => collect_entries(x, k8s_quantity_value, Ghost(k8s_quantity_rel())),
        None => StrMap::new(),
    }
}

pub open spec fn k8s_resources_are(v: Option<K8sResources>, r: ResourceRequirements) -> bool {
    match v {
        Some(x) => map_kept(entries_of(x.requests), r.requests@, k8s_quantity_rel()) && map_kept(
            entries_of(x.limits),
            r.limits@,
            k8s_quantity_rel(),
        ),
        None => r.requests@ == Map::<Seq<char>, ResourceQuantity>::empty() && r.limits@ == Map::<
            Seq<char>,
            ResourceQuantity,
        >::empty(),
    }
}

fn k8s_resources_to_spec(v: &Option<K8sResources>) -> (r: ResourceRequirements)
    ensures
        k8s_resources_are(*v, r),
{
    match v {
        Some(x) => ResourceRequirements {
            requests: k8s_quantities(&x.requests),
            limits: k8s_quantities(&x.limits),
        },
        None => ResourceRequirements { requests: StrMap::new(), limits: StrMap::new() },
    }
}

/// What every kind of container takes over.
pub open spec fn k8s_base_is(c: K8sContainerBase, r: ContainerSpec) -> bool {
    &&& r.name == c.name
    &&& r.image@ == text_or(opt_text(c.image), Seq::empty())
    &&& r.image_pull_policy == pull_policy_of(opt_text(c.image_pull_policy))
    &&& r.command@ == items_of(c.command)
    &&& r.args@ == items_of(c.args)
    &&& mapped(items_of(c.env), r.env@, k8s_env_rel())
    &&& mapped(items_of(c.env_from), r.env_from@, k8s_env_from_rel())
    &&& mapped(items_of(c.volume_mounts), r.volume_mounts@, k8s_mount_rel())
    &&& r.working_dir == c.working_dir
    &&& r.stdin == c.stdin
    &&& r.tty == c.tty
    &&& r.termination_message_path == c.termination_message_path
    &&& r.termination_message_policy == c.termination_message_policy
    &&& k8s_security_is(c.security_context, r.security_context)
    &&& r.stdin_once is None
}

/// An ephemeral container has no resources, ports, probes, hooks and no
/// restart policy of its own.
pub open spec fn k8s_ephemeral_is(c: K8sEphemeralContainer, r: ContainerSpec) -> bool {
    &&& k8s_base_is(c.base, r)
    &&& r.resources.requests@ == Map::<Seq<char>, ResourceQuantity>::empty()
    &&& r.resources.limits@ == Map::<Seq<char>, ResourceQuantity>::empty()
    &&& r.ports@.len() == 0
    &&& r.liveness_probe is None
    &&& r.readiness_probe is None
    &&& r.startup_probe is None
    &&& r.lifecycle is None
    &&& r.restart_policy is None
}

pub open spec fn k8s_ephemeral_rel() -> spec_fn(K8sEphemeralContainer, ContainerSpec) -> bool {
    |c: K8sEphemeralContainer, r: ContainerSpec| k8s_ephemeral_is(c, r)
}

fn k8s_base_to_spec(c: &K8sContainerBase) -> (r: ContainerSpec)
    ensures
        k8s_base_is(*c, r),
        r.resources.requests@ == Map::<Seq<char>, ResourceQuantity>::empty(),
        r.resources.limits@ == Map::<Seq<char>, ResourceQuantity>::empty(),
        r.ports@.len() == 0,
        r.liveness_probe is None,
        r.readiness_probe is None,
        r.startup_probe is None,
        r.lifecycle is None,
        r.restart_policy is None,
{
    ContainerSpec {
        name: c.name.clone(),
        image: string_or_empty(&c.image),
        command: strings(&c.command),
        args: strings(&c.args),
        working_dir: c.working_dir.clone(),
        ports: Vec::new(),
        env: match &c.env {
            Some(items) => map_all(items, k8s_env_to_spec, Ghost(k8s_env_rel())),
            None => Vec::new(),
        },
        resources: ResourceRequirements { requests: StrMap::new(), limits: StrMap::new() },
        volume_mounts: match &c.volume_mounts {
            Some(items) => map_all(items, k8s_mount_to_spec, Ghost(k8s_mount_rel())),
            None => Vec::new(),
        },
        liveness_probe: None,
        readiness_probe: None,
        startup_probe: None,
        image_pull_policy: parse_pull_policy(&c.image_pull_policy),
        security_context: k8s_security_to_spec(&c.security_context),
        termination_message_path: c.termination_message_path.clone(),
        termination_message_policy: c.termination_message_policy.clone(),
        lifecycle: None,
        env_from: match &c.env_from {
            Some(items) => map_all(items, k8s_env_from_to_spec, Ghost(k8s_env_from_rel())),
            None => Vec::new(),
        },
        stdin: c.stdin,
        stdin_once: None,
        tty: c.tty,
        restart_policy: None,
    }
}

/// Converts an ephemeral container.
pub fn k8s_ephemeral_container_to_spec(c: &K8sEphemeralContainer) -> (r: ContainerSpec)
    ensures
        k8s_ephemeral_is(*c, r),
{
    k8s_base_to_spec(&c.base)
}

/// The restart policy that a single container names; none where it names none
/// of the three.
pub open spec fn k8s_container_restart(t: Option<Seq<char>>) -> Option<RestartPolicy> {
    if t == Some("Never"@) {
        Some(RestartPolicy::Never)
    } else if t == Some("OnFailure"@) {
        Some(RestartPolicy::OnFailure)
    } else if t == Some("Always"@) {
        Some(RestartPolicy::Always)
    } else {
        None
    }
}

fn container_restart(t: &Option<String>) -> (r: Option<RestartPolicy>)
    ensures
        r == k8s_container_restart(opt_text(*t)),
{
    if opt_same(t, "Never") {
        Some(RestartPolicy::Never)
    } else if opt_same(t, "OnFailure") {
        Some(RestartPolicy::OnFailure)
    } else if opt_same(t, "Always") {
        Some(RestartPolicy::Always)
    } else {
        None
    }
}

pub open spec fn k8s_container_is(c: K8sContainer, r: ContainerSpec) -> bool {
    &&& k8s_base_is(c.base, r)
    &&& k8s_resources_are(c.resources, r.resources)
    &&& mapped(items_of(c.ports), r.ports@, k8s_container_port_rel())
    &&& opt_probe_is(c.liveness_probe, r.ports@, r.liveness_probe)
    &&& opt_probe_is(c.readiness_probe, r.ports@, r.readiness_probe)
    &&& opt_probe_is(c.startup_probe, r.ports@, r.startup_probe)
    &&& r.restart_policy == k8s_container_restart(opt_text(c.restart_policy))
    &&& k8s_lifecycle_is(c.lifecycle, r.lifecycle)
}

pub open spec fn k8s_container_rel() -> spec_fn(K8sContainer, ContainerSpec) -> bool {
    |c: K8sContainer, r: ContainerSpec| k8s_container_is(c, r)
}

/// Converts a container. Named ports of probes resolve against its own ports.
pub fn k8s_container_to_spec(c: &K8sContainer) -> (r: ContainerSpec)
    ensures
        k8s_container_is(*c, r),
        c.resources matches Some(x) ==> (x.requests matches Some(m) ==> {
            &&& forall|k: Seq<char>| #[trigger]
                m@.contains_key(k) ==> match k8s_quantity_for_key(k, m@[k]@) {
                    Some(q) => r.resources.requests@.contains_key(k) && r.resources.requests@[k] == q,
                    None => !r.resources.requests@.contains_key(k),
                }
            &&& forall|k: Seq<char>| #[trigger]
                r.resources.requests@.contains_key(k) ==> m@.contains_key(k)
        }),
        (c.resources is None || c.resources->0.requests is None) ==> r.resources.requests@ == Map::<
            Seq<char>,
            ResourceQuantity,
        >::empty(),
        c.resources matches Some(x) ==> (x.limits matches Some(m) ==> {
            &&& forall|k: Seq<char>| #[trigger]
                m@.contains_key(k) ==> match k8s_quantity_for_key(k, m@[k]@) {
                    Some(q) => r.resources.limits@.contains_key(k) && r.resources.limits@[k] == q,
                    None => !r.resources.limits@.contains_key(k),
                }
            &&& forall|k: Seq<char>| #[trigger]
                r.resources.limits@.contains_key(k) ==> m@.contains_key(k)
        }),
        (c.resources is None || c.resources->0.limits is None) ==> r.resources.limits@ == Map::<
            Seq<char>,
            ResourceQuantity,
        >::empty(),
{
    let ports = match &c.ports {
        Some(items) => map_all(items, k8s_container_port_to_spec, Ghost(k8s_container_port_rel())),
        None => Vec::new(),
    };
    let mut r = k8s_base_to_spec(&c.base);
    r.liveness_probe = opt_probe(&c.liveness_probe, &ports);
    r.readiness_probe = opt_probe(&c.readiness_probe, &ports);
    r.startup_probe = opt_probe(&c.startup_probe, &ports);
    r.resources = k8s_resources_to_spec(&c.resources);
    r.restart_policy = container_restart(&c.restart_policy);
    r.lifecycle = k8s_lifecycle_to_spec(&c.lifecycle);
    r.ports = ports;
    proof {
        law_requests_and_limits_keep_apart(*c, r);
    }
    r
}

// ---------------------------------------------------------------------------
// Pods
// ---------------------------------------------------------------------------

pub open spec fn k8s_host_alias_is(h: K8sHostAlias, r: HostAlias) -> bool {
    r.ip@ == text_or(opt_text(h.ip), Seq::empty()) && r.hostnames@ == items_of(h.hostnames)
}

pub open spec fn k8s_host_alias_rel() -> spec_fn(K8sHostAlias, HostAlias) -> bool {
    |h: K8sHostAlias, r: HostAlias| k8s_host_alias_is(h, r)
}

fn k8s_host_alias_to_spec(h: &K8sHostAlias) -> (r: HostAlias)
    ensures
        k8s_host_alias_is(*h, r),
{
    HostAlias { ip: string_or_empty(&h.ip), hostnames: strings(&h.hostnames) }
}

pub open spec fn k8s_name_ref_is(n: K8sNameRef, r: LocalObjectReference) -> bool {
    r.name@ == text_or(opt_text(n.name), Seq::empty())
}

pub open spec fn k8s_name_ref_rel() -> spec_fn(K8sNameRef, LocalObjectReference) -> bool {
    |n: K8sNameRef, r: LocalObjectReference| k8s_name_ref_is(n, r)
}

fn k8s_name_ref_to_spec(n: &K8sNameRef) -> (r: LocalObjectReference)
    ensures
        k8s_name_ref_is(*n, r),
{
    LocalObjectReference { name: string_or_empty(&n.name) }
}

pub open spec fn k8s_gate_is(g: K8sReadinessGate, r: ReadinessGate) -> bool {
    r.condition_type == g.condition_type
}

pub open spec fn k8s_gate_rel() -> spec_fn(K8sReadinessGate, ReadinessGate) -> bool {
    |g: K8sReadinessGate, r: ReadinessGate| k8s_gate_is(g, r)
}

fn k8s_gate_to_spec(g: &K8sReadinessGate) -> (r: ReadinessGate)
    ensures
        k8s_gate_is(*g, r),
{
    ReadinessGate { condition_type: g.condition_type.clone() }
}

/// An option of the resolver: it needs a name.
pub open spec fn k8s_dns_option_from(o: K8sDnsOption, r: Option<DnsOption>) -> bool {
    match o.name {
        Some(n) => r matches Some(x) && x.name == n && x.value == o.value,
        None => r is None,
    }
}

pub open spec fn k8s_dns_option_rel() -> spec_fn(K8sDnsOption, Option<DnsOption>) -> bool {
    |o: K8sDnsOption, r: Option<DnsOption>| k8s_dns_option_from(o, r)
}

fn k8s_dns_option_to_spec(o: &K8sDnsOption) -> (r: Option<DnsOption>)
    ensures
        k8s_dns_option_from(*o, r),
{
    match &o.name {
        Some(n) => Some(DnsOption { name: n.clone(), value: o.value.clone() }),
        None => None,
    }
}

/// The DNS policy that a pod names, or the policy that holds anyway.
pub open spec fn k8s_dns_policy(t: Option<Seq<char>>) -> DnsPolicy {
    match named_dns_policy(t) {
        Some(p) => p,
        None => DnsPolicy::ClusterFirst,
    }
}

/// The DNS settings of a pod. They are always present: a policy, and what is
/// configured besides.
pub open spec fn k8s_dns_is(
    policy: Option<Seq<char>>,
    extra: Option<K8sDnsConfig>,
    r: Option<DnsConfig>,
) -> bool {
    &&& r matches Some(x)
    &&& x.policy == k8s_dns_policy(policy)
    &&& match extra {
        Some(d) => x.nameservers@ == items_of(d.nameservers) && x.searches@ == items_of(d.searches)
            && kept(items_of(d.options), x.options@, k8s_dns_option_rel()),
        None => x.nameservers@.len() == 0 && x.searches@.len() == 0 && x.options@.len() == 0,
    }
}

fn k8s_dns_to_spec(policy: &Option<String>, extra: &Option<K8sDnsConfig>) -> (r: Option<DnsConfig>)
    ensures
        k8s_dns_is(opt_text(*policy), *extra, r),
{
    let policy = match parse_dns_policy(policy) {
        Some(p) => p,
        None => DnsPolicy::ClusterFirst,
    };
    match extra {
        Some(d) => Some(
            DnsConfig {
                policy,
                nameservers: strings(&d.nameservers),
                searches: strings(&d.searches),
                options: match &d.options {
                    Some(items) => collect_some(
                        items,
                        k8s_dns_option_to_spec,
                        Ghost(k8s_dns_option_rel()),
                    ),
                    None => Vec::new(),
                },
            },
        ),
        None => Some(
            DnsConfig {
                policy,
                nameservers: Vec::new(),
                searches: Vec::new(),
                options: Vec::new(),
            },
        ),
    }
}

/// Whether the pod is the API server's copy of a pod that the node runs from a
/// file.
pub open spec fn is_mirror(pod: K8sPod) -> bool {
    entries_of(pod.metadata.annotations).contains_key("kubernetes.io/config.mirror"@)
}

/// Everything of a pod but its name and identifier.
pub open spec fn k8s_pod_parts_are(
    pod: K8sPod,
    s: K8sPodSpec,
    node_name: Seq<char>,
    p: PodSpec,
) -> bool {
    &&& p.pod_ref.namespace@ == text_or(opt_text(pod.metadata.namespace), "default"@)
    &&& p.node_name@ == text_or(opt_text(s.node_name), node_name)
    &&& mapped(s.containers@, p.containers@, k8s_container_rel())
    &&& mapped(items_of(s.init_containers), p.init_containers@, k8s_container_rel())
    &&& mapped(items_of(s.ephemeral_containers), p.ephemeral_containers@, k8s_ephemeral_rel())
    &&& kept(items_of(s.volumes), p.volumes@, k8s_volume_rel())
    &&& p.restart_policy == restart_policy_of(opt_text(s.restart_policy))
    &&& p.active_deadline_seconds == to_u64(s.active_deadline_seconds)
    &&& p.service_account_name@ == text_or(opt_text(s.service_account_name), Seq::empty())
    &&& p.automount_service_account_token == s.automount_service_account_token
    &&& p.termination_grace_period_seconds == match s.termination_grace_period_seconds {
        Some(n) => n as u64,
        None => 30u64,
    }
    &&& p.node_selector@ == entries_of(s.node_selector)
    &&& p.priority == s.priority
    &&& p.runtime_class_name == s.runtime_class_name
    &&& mapped(items_of(s.readiness_gates), p.readiness_gates@, k8s_gate_rel())
    &&& p.labels@ == entries_of(pod.metadata.labels)
    &&& p.annotations@ == entries_of(pod.metadata.annotations)
    &&& k8s_pod_security_is(s.security_context, p.security_context)
    &&& p.host_network == flag(s.host_network)
    &&& p.host_pid == flag(s.host_pid)
    &&& p.host_ipc == flag(s.host_ipc)
    &&& mapped(items_of(s.host_aliases), p.host_aliases@, k8s_host_alias_rel())
    &&& p.observed_start_time == pod.start_time
    &&& mapped(items_of(s.image_pull_secrets), p.image_pull_secrets@, k8s_name_ref_rel())
    &&& p.enable_service_links == s.enable_service_links
    &&& p.share_process_namespace == s.share_process_namespace
    &&& k8s_dns_is(opt_text(s.dns_policy), s.dns_config, p.dns_config)
    &&& opt_text(p.hostname) == nonempty(opt_text(s.hostname))
    &&& opt_text(p.subdomain) == nonempty(opt_text(s.subdomain))
    &&& p.generation == pod.metadata.generation
    &&& p.tolerations@.len() == 0
    &&& p.resource_claims@.len() == 0
}

/// A pod: it needs a name, an identifier and a specification, and must not be
/// the copy of a pod that the node runs from a file.
pub open spec fn k8s_pod_is(pod: K8sPod, node_name: Seq<char>, r: Option<PodSpec>) -> bool {
    match (pod.metadata.uid, pod.metadata.name, pod.spec) {
        (Some(uid), Some(name), Some(s)) => if is_mirror(pod) {
            r is None
        } else {
            r matches Some(p) && p.uid.0 == uid && p.pod_ref.name == name && k8s_pod_parts_are(
                pod,
                s,
                node_name,
                p,
            )
        },
        _ => r is None,
    }
}

/// Converts a pod. The node defaults to `node_name`.
pub fn pod_to_spec(pod: &K8sPod, node_name: &str) -> (r: Option<PodSpec>)
    ensures
        k8s_pod_is(*pod, node_name@, r),
{
    let uid = match &pod.metadata.uid {
        Some(u) => u.clone(),
        None => {
            return None;
        },
    };
    let name = match &pod.metadata.name {
        Some(n) => n.clone(),
        None => {
            return None;
        },
    };
    if let Some(annotations) = &pod.metadata.annotations {
        if annotations.contains_key("kubernetes.io/config.mirror") {
            return None;
        }
    }
    let s = match &pod.spec {
        Some(s) => s,
        None => {
            return None;
        },
    };
    let init_containers = match &s.init_containers {
        Some(items) => map_all(items, k8s_container_to_spec, Ghost(k8s_container_rel())),
        None => Vec::new(),
    };
    let ephemeral_containers = match &s.ephemeral_containers {
        Some(items) => map_all(items, k8s_ephemeral_container_to_spec, Ghost(k8s_ephemeral_rel())),
        None => Vec::new(),
    };
    let volumes = match &s.volumes {
        Some(items) => collect_some(items, k8s_volume_to_spec, Ghost(k8s_volume_rel())),
        None => Vec::new(),
    };
    let readiness_gates = match &s.readiness_gates {
        Some(items) => map_all(items, k8s_gate_to_spec, Ghost(k8s_gate_rel())),
        None => Vec::new(),
    };
    let host_aliases = match &s.host_aliases {
        Some(items) => map_all(items, k8s_host_alias_to_spec, Ghost(k8s_host_alias_rel())),
        None => Vec::new(),
    };
    let image_pull_secrets = match &s.image_pull_secrets {
        Some(items) => map_all(items, k8s_name_ref_to_spec, Ghost(k8s_name_ref_rel())),
        None => Vec::new(),
    };
    Some(
        PodSpec {
            uid: PodUID(uid),
            pod_ref: PodRef { namespace: string_or(&pod.metadata.namespace, "default"), name },
            containers: map_all(&s.containers, k8s_container_to_spec, Ghost(k8s_container_rel())),
            init_containers,
            ephemeral_containers,
            volumes,
            node_name: string_or(&s.node_name, node_name),
            host_network: as_flag(s.host_network),
            host_pid: as_flag(s.host_pid),
            host_ipc: as_flag(s.host_ipc),
            dns_config: k8s_dns_to_spec(&s.dns_policy, &s.dns_config),
            restart_policy: parse_restart_policy(&s.restart_policy),
            termination_grace_period_seconds: match s.termination_grace_period_seconds {
                Some(n) => #[verifier::truncate] (n as u64),
                None => 30,
            },
            service_account_name: string_or_empty(&s.service_account_name),
            priority: s.priority,
            tolerations: Vec::new(),
            node_selector: text_entries(&s.node_selector),
            annotations: text_entries(&pod.metadata.annotations),
            labels: text_entries(&pod.metadata.labels),
            runtime_class_name: s.runtime_class_name.clone(),
            security_context: k8s_pod_security_to_spec(&s.security_context),
            readiness_gates,
            active_deadline_seconds: as_u64(s.active_deadline_seconds),
            automount_service_account_token: s.automount_service_account_token,
            image_pull_secrets,
            enable_service_links: s.enable_service_links,
            share_process_namespace: s.share_process_namespace,
            resource_claims: Vec::new(),
            host_aliases,
            hostname: keep_nonempty(s.hostname.clone()),
            subdomain: keep_nonempty(s.subdomain.clone()),
            observed_start_time: pod.start_time,
            generation: pod.metadata.generation,
        },
    )
}

// ---------------------------------------------------------------------------
// Watching
// ---------------------------------------------------------------------------

/// The update that removes a pod; there is one where the pod has a name and an
/// identifier.
pub open spec fn removal_from(pod: K8sPod, node_name: Seq<char>, r: Option<PodUpdate>) -> bool {
    match (nonempty(opt_text(pod.metadata.uid)), nonempty(opt_text(pod.metadata.name))) {
        (Some(uid), Some(name)) => r matches Some(u) && u.op == PodOperation::Remove && u.pod.uid.0@
            == uid && u.pod.pod_ref.name@ == name && u.pod.pod_ref.namespace@ == text_or(
            opt_text(pod.metadata.namespace),
            "default"@,
        ) && u.pod.node_name@ == node_name && is_bare(u.pod),
        _ => r is None,
    }
}

fn removal(pod: &K8sPod, node_name: &str) -> (r: Option<PodUpdate>)
    ensures
        removal_from(*pod, node_name@, r),
{
    match (
        keep_nonempty(pod.metadata.uid.clone()),
        keep_nonempty(pod.metadata.name.clone()),
    ) {
        (Some(uid), Some(name)) => Some(
            PodUpdate {
                op: PodOperation::Remove,
                pod: PodSpec::bare(
                    PodUID(uid),
                    PodRef { namespace: string_or(&pod.metadata.namespace, "default"), name },
                    node_name.to_owned(),
                ),
            },
        ),
        _ => None,
    }
}

/// The update of a pod under the given operation; there is one where there is
/// a pod.
pub open spec fn update_from(
    pod: K8sPod,
    node_name: Seq<char>,
    op: PodOperation,
    r: Option<PodUpdate>,
) -> bool {
    match r {
        Some(u) => u.op == op && k8s_pod_is(pod, node_name, Some(u.pod)),
        None => k8s_pod_is(pod, node_name, None),
    }
}

/// What a pod that the watch shows asks for: its removal where it is being
/// deleted, else its addition.
pub open spec fn change_from(pod: K8sPod, node_name: Seq<char>, r: Option<PodUpdate>) -> bool {
    if pod.metadata.deletion_timestamp is Some {
        removal_from(pod, node_name, r)
    } else {
        update_from(pod, node_name, PodOperation::Add, r)
    }
}

pub open spec fn change_rel(node_name: Seq<char>) -> spec_fn(K8sPod, Option<PodUpdate>) -> bool {
    |pod: K8sPod, r: Option<PodUpdate>| change_from(pod, node_name, r)
}

fn change(pod: &K8sPod, node_name: &str) -> (r: Option<PodUpdate>)
    ensures
        change_from(*pod, node_name@, r),
{
    if pod.metadata.deletion_timestamp.is_some() {
        removal(pod, node_name)
    } else {
        match pod_to_spec(pod, node_name) {
            Some(spec) => Some(PodUpdate { pod: spec, op: PodOperation::Add }),
            None => None,
        }
    }
}

/// `r` holds what `o` holds, if anything.
pub open spec fn just<T>(o: Option<T>, r: Seq<T>) -> bool {
    match o {
        Some(x) => r.len() == 1 && r[0] == x,
        None => r.len() == 0,
    }
}

/// The updates that an event of the watch asks for.
pub open spec fn updates_are(event: K8sPodEvent, node_name: Seq<char>, r: Seq<PodUpdate>) -> bool {
    match event {
        K8sPodEvent::Applied(pod) => exists|o: Option<PodUpdate>|
            just(o, r) && #[trigger] change_from(pod, node_name, o),
        K8sPodEvent::Deleted(pod) => exists|o: Option<PodUpdate>|
            just(o, r) && #[trigger] removal_from(pod, node_name, o),
        K8sPodEvent::Restarted(pods) => kept(pods@, r, change_rel(node_name)),
    }
}

fn as_list<T>(o: Option<T>) -> (r: Vec<T>)
    ensures
        just(o, r@),
{
    let mut r: Vec<T> = Vec::new();
    if let Some(x) = o {
        r.push(x);
    }
    r
}

/// Turns an event of the watch into updates.
pub fn pod_event_to_updates(event: &K8sPodEvent, node_name: &str) -> (r: Vec<PodUpdate>)
    ensures
        updates_are(*event, node_name@, r@),
{
    match event {
        K8sPodEvent::Applied(pod) => {
            let o = change(pod, node_name);
            let ghost g = o;
            let r = as_list(o);
            assert(just(g, r@) && change_from(*pod, node_name@, g));
            r
        },
        K8sPodEvent::Deleted(pod) => {
            let o = removal(pod, node_name);
            let ghost g = o;
            let r = as_list(o);
            assert(just(g, r@) && removal_from(*pod, node_name@, g));
            r
        },
        K8sPodEvent::Restarted(pods) => {
            let f = |p: &K8sPod| -> (o: Option<PodUpdate>)
                ensures
                    change_from(*p, node_name@, o),
                { change(p, node_name) };
            collect_some(pods, f, Ghost(change_rel(node_name@)))
        },
    }
}

/// What a pod of a full listing asks for: nothing where it is being deleted,
/// else that it be reconciled.
pub open spec fn relist_from(pod: K8sPod, node_name: Seq<char>, r: Option<PodUpdate>) -> bool {
    if pod.metadata.deletion_timestamp is Some {
        r is None
    } else {
        update_from(pod, node_name, PodOperation::Reconcile, r)
    }
}

pub open spec fn relist_rel(node_name: Seq<char>) -> spec_fn(K8sPod, Option<PodUpdate>) -> bool {
    |pod: K8sPod, r: Option<PodUpdate>| relist_from(pod, node_name, r)
}

fn relist(pod: &K8sPod, node_name: &str) -> (r: Option<PodUpdate>)
    ensures
        relist_from(*pod, node_name@, r),
{
    if pod.metadata.deletion_timestamp.is_some() {
        None
    } else {
        match pod_to_spec(pod, node_name) {
            Some(spec) => Some(PodUpdate { pod: spec, op: PodOperation::Reconcile }),
            None => None,
        }
    }
}

/// The pods that an event shows.
pub open spec fn event_pods(event: K8sPodEvent) -> Seq<K8sPod> {
    match event {
        K8sPodEvent::Applied(pod) => seq![pod],
        K8sPodEvent::Deleted(pod) => seq![pod],
        K8sPodEvent::Restarted(pods) => pods@,
    }
}

/// Whether the node is to run the pod: it is not being deleted and is no copy of
/// a pod that the node runs from a file.
pub open spec fn is_to_run(pod: K8sPod) -> bool {
    pod.metadata.deletion_timestamp is None && !is_mirror(pod)
}

/// An event of the watch only adds and removes pods. Every pod that it adds is
/// one that it shows, that is not being deleted and that is no copy of a pod
/// from a file.
pub proof fn law_watch_adds_only_pods_to_run(
    event: K8sPodEvent,
    node_name: Seq<char>,
    r: Seq<PodUpdate>,
    k: int,
)
    requires
        updates_are(event, node_name, r),
        0 <= k < r.len(),
    ensures
        r[k].op == PodOperation::Add || r[k].op == PodOperation::Remove,
        r[k].op == PodOperation::Add ==> exists|i: int|
            0 <= i < event_pods(event).len() && is_to_run(#[trigger] event_pods(event)[i])
                && k8s_pod_is(event_pods(event)[i], node_name, Some(r[k].pod)),
{
    match event {
        K8sPodEvent::Applied(pod) => {
            assert(event_pods(event)[0] == pod);
        },
        K8sPodEvent::Deleted(pod) => {},
        K8sPodEvent::Restarted(pods) => {
            lemma_kept_from(pods@, r, change_rel(node_name), k);
            let i = choose|i: int|
                0 <= i < pods@.len() && change_rel(node_name)(#[trigger] pods@[i], Some(r[k]));
            assert(event_pods(event)[i] == pods@[i]);
            assert(change_from(pods@[i], node_name, Some(r[k])));
        },
    }
}

/// A full listing only reconciles pods, and only ones that it shows, that are
/// not being deleted and that are no copies of pods from files.
pub proof fn law_relist_only_reconciles(
    pods: Seq<K8sPod>,
    node_name: Seq<char>,
    r: Seq<PodUpdate>,
    k: int,
)
    requires
        kept(pods, r, relist_rel(node_name)),
        0 <= k < r.len(),
    ensures
        r[k].op == PodOperation::Reconcile,
        exists|i: int|
            0 <= i < pods.len() && is_to_run(#[trigger] pods[i]) && k8s_pod_is(
                pods[i],
                node_name,
                Some(r[k].pod),
            ),
{
    lemma_kept_from(pods, r, relist_rel(node_name), k);
    let i = choose|i: int|
        0 <= i < pods.len() && relist_rel(node_name)(#[trigger] pods[i], Some(r[k]));
    assert(relist_from(pods[i], node_name, Some(r[k])));
}

/// What the watch on the API server has seen.
#[derive(Debug)]
pub enum PodWatchInput {
    /// The periodic listing came back.
    Listed(Vec<K8sPod>),
    /// The periodic listing failed.
    ListFailed,
    /// The periodic listing did not come back in time.
    ListTimedOut,
    /// The stream of events ended.
    StreamEnded,
    /// The stream of events failed.
    StreamFailed,
    /// The stream brought an event.
    Event(K8sPodEvent),
}

/// What is to be done next.
#[derive(Debug)]
pub enum PodWatchAction {
    /// Pass the updates on and go on watching.
    Emit(Vec<PodUpdate>),
    /// Open the stream anew after a pause.
    Reconnect { wait_seconds: u64 },
}

/// Seconds between two listings.
pub const RELIST_SECONDS: u64 = 30;

/// Seconds after which a listing counts as lost.
pub const RELIST_TIMEOUT_SECONDS: u64 = 15;

/// Seconds before a stream is opened anew at the earliest.
pub const RECONNECT_SECONDS: u64 = 5;

/// Seconds before a stream is opened anew at the latest.
pub const MAX_RECONNECT_SECONDS: u64 = 300;

/// A pod source that watches the API server.
#[derive(Debug)]
pub struct KubePodSource {
    pub node_name: String,
    /// How many errors there have been since the last event.
    pub failures: u32,
}

/// The seconds before a stream is opened anew, after as many errors in a row
/// and one more: five, doubled with each error, up to five minutes.
pub open spec fn reconnect_seconds(failures: nat) -> nat {
    backoff(RECONNECT_SECONDS as nat, failures, MAX_RECONNECT_SECONDS as nat)
}

/// Whether what the watch has seen is an error that ends the stream.
pub open spec fn is_watch_error(input: PodWatchInput) -> bool {
    input is ListTimedOut || input is StreamFailed
}

/// The errors in a row after what the watch has seen: an event ends the row.
/// They are counted up to the largest number that the count can hold.
pub open spec fn failures_after(failures: u32, input: PodWatchInput) -> int {
    if is_watch_error(input) {
        if failures < u32::MAX {
            failures + 1
        } else {
            u32::MAX as int
        }
    } else if input is Event {
        0
    } else {
        failures as int
    }
}

/// What is to be done about what the watch has seen. An error calls for a wait
/// that grows with the errors in a row, a stream that just ended for the
/// shortest one.
pub open spec fn watch_action_is(
    failures: u32,
    node_name: Seq<char>,
    input: PodWatchInput,
    r: PodWatchAction,
) -> bool {
    match input {
        PodWatchInput::Listed(pods) => r matches PodWatchAction::Emit(u) && kept(
            pods@,
            u@,
            relist_rel(node_name),
        ),
        PodWatchInput::ListFailed => r matches PodWatchAction::Emit(u) && u@.len() == 0,
        PodWatchInput::StreamEnded => r matches PodWatchAction::Reconnect { wait_seconds }
            && wait_seconds == RECONNECT_SECONDS,
        PodWatchInput::ListTimedOut | PodWatchInput::StreamFailed =>
            r matches PodWatchAction::Reconnect { wait_seconds } && wait_seconds
                == reconnect_seconds(failures as nat),
        PodWatchInput::Event(e) => r matches PodWatchAction::Emit(u) && updates_are(
            e,
            node_name,
            u@,
        ),
    }
}

/// The `k`-th error in a row calls for a wait of five seconds times two to the
/// power of `k - 1`, or of five minutes where that is less. `counts` are the
/// errors in a row before each of them.
pub proof fn law_reconnects_back_off(
    counts: Seq<u32>,
    inputs: Seq<PodWatchInput>,
    actions: Seq<PodWatchAction>,
    node_name: Seq<char>,
    k: nat,
)
    requires
        0 < k <= inputs.len() < u32::MAX,
        counts.len() == inputs.len(),
        actions.len() == inputs.len(),
        counts[0] == 0,
        forall|i: int| 0 <= i < inputs.len() ==> is_watch_error(#[trigger] inputs[i]),
        forall|i: int|
            0 <= i < inputs.len() - 1 ==> counts[i + 1] == failures_after(
                counts[i],
                #[trigger] inputs[i],
            ),
        forall|i: int|
            0 <= i < inputs.len() ==> watch_action_is(
                counts[i],
                node_name,
                #[trigger] inputs[i],
                actions[i],
            ),
    ensures
        counts[k - 1] == k - 1,
        actions[k - 1] matches PodWatchAction::Reconnect { wait_seconds } && wait_seconds == ({
            let secs = RECONNECT_SECONDS * vstd::arithmetic::power2::pow2((k - 1) as nat);
            if secs < MAX_RECONNECT_SECONDS {
                secs
            } else {
                MAX_RECONNECT_SECONDS as int
            }
        }),
    decreases k,
{
    if k > 1 {
        law_reconnects_back_off(counts, inputs, actions, node_name, (k - 1) as nat);
        assert(is_watch_error(inputs[k - 2]));
        assert(counts[k - 2 + 1] == failures_after(counts[k - 2], inputs[k - 2]));
    }
    assert(is_watch_error(inputs[k - 1]));
    assert(watch_action_is(counts[k - 1], node_name, inputs[k - 1], actions[k - 1]));
}

impl KubePodSource {
    pub fn new(node_name: &str) -> (r: Self)
        ensures
            r.node_name@ == node_name@,
            r.failures == 0,
    {
        KubePodSource { node_name: node_name.to_owned(), failures: 0 }
    }

    /// The name under which the source is known.
    pub fn name(&self) -> (r: &'static str)
        ensures
            r@ == "kube-api-watcher"@,
    {
        "kube-api-watcher"
    }

    /// The selector of the pods that are assigned to this node.
    pub fn field_selector(&self) -> (r: String)
        ensures
            r@ == "spec.nodeName="@ + self.node_name@,
    {
        crate::text::cat2("spec.nodeName=", self.node_name.as_str())
    }

    /// What is to be done about what the watch has seen.
    pub fn step(&mut self, input: &PodWatchInput) -> (r: PodWatchAction)
        ensures
            final(self).node_name == old(self).node_name,
            final(self).failures == failures_after(old(self).failures, *input),
            watch_action_is(old(self).failures, old(self).node_name@, *input, r),
    {
        let failures: u32 = self.failures;
        match input {
            PodWatchInput::Listed(pods) => PodWatchAction::Emit(
                relist_all(pods, self.node_name.as_str()),
            ),
            PodWatchInput::ListFailed => PodWatchAction::Emit(Vec::new()),
            PodWatchInput::StreamEnded => PodWatchAction::Reconnect {
                wait_seconds: RECONNECT_SECONDS,
            },
            PodWatchInput::ListTimedOut | PodWatchInput::StreamFailed => {
                if failures < u32::MAX {
                    self.failures = failures + 1;
                }
                PodWatchAction::Reconnect {
                    wait_seconds: backoff_wait(
                        RECONNECT_SECONDS,
                        failures,
                        MAX_RECONNECT_SECONDS,
                    ),
                }
            },
            PodWatchInput::Event(e) => {
                self.failures = 0;
                PodWatchAction::Emit(pod_event_to_updates(e, self.node_name.as_str()))
            },
        }
    }
}

/// The updates that a full listing calls for.
fn relist_all(pods: &Vec<K8sPod>, node_name: &str) -> (r: Vec<PodUpdate>)
    ensures
        kept(pods@, r@, relist_rel(node_name@)),
{
    let f = |p: &K8sPod| -> (o: Option<PodUpdate>)
        ensures
            relist_from(*p, node_name@, o),
        { relist(p, node_name) };
    collect_some(pods, f, Ghost(relist_rel(node_name@)))
}

// ---------------------------------------------------------------------------
// What conversion keeps
// ---------------------------------------------------------------------------

/// What a container requests becomes what it requests and what limits it
/// becomes its limits: each quantity that can be read stands under its own key,
/// nothing else does, and where there are none there are none.
pub proof fn law_requests_and_limits_keep_apart(c: K8sContainer, r: ContainerSpec)
    requires
        k8s_container_is(c, r),
    ensures
        c.resources matches Some(x) ==> (x.requests matches Some(m) ==> {
            &&& forall|k: Seq<char>| #[trigger]
                m@.contains_key(k) ==> match k8s_quantity_for_key(k, m@[k]@) {
                    Some(q) => r.resources.requests@.contains_key(k) && r.resources.requests@[k] == q,
                    None => !r.resources.requests@.contains_key(k),
                }
            &&& forall|k: Seq<char>| #[trigger]
                r.resources.requests@.contains_key(k) ==> m@.contains_key(k)
        }),
        (c.resources is None || c.resources->0.requests is None) ==> r.resources.requests@ == Map::<
            Seq<char>,
            ResourceQuantity,
        >::empty(),
        c.resources matches Some(x) ==> (x.limits matches Some(m) ==> {
            &&& forall|k: Seq<char>| #[trigger]
                m@.contains_key(k) ==> match k8s_quantity_for_key(k, m@[k]@) {
                    Some(q) => r.resources.limits@.contains_key(k) && r.resources.limits@[k] == q,
                    None => !r.resources.limits@.contains_key(k),
                }
            &&& forall|k: Seq<char>| #[trigger]
                r.resources.limits@.contains_key(k) ==> m@.contains_key(k)
        }),
        (c.resources is None || c.resources->0.limits is None) ==> r.resources.limits@ == Map::<
            Seq<char>,
            ResourceQuantity,
        >::empty(),
{
    if let Some(x) = c.resources {
        if let Some(m) = x.requests {
            assert forall|k: Seq<char>| #[trigger] m@.contains_key(k) implies match k8s_quantity_for_key(
                k,
                m@[k]@,
            ) {
                Some(q) => r.resources.requests@.contains_key(k) && r.resources.requests@[k] == q,
                None => !r.resources.requests@.contains_key(k),
            } by {
                assert(k8s_quantity_rel()(k, m@[k], lookup(r.resources.requests@, k)));
            }
        } else {
            assert(r.resources.requests@ =~= Map::<Seq<char>, ResourceQuantity>::empty());
        }
        if let Some(m) = x.limits {
            assert forall|k: Seq<char>| #[trigger] m@.contains_key(k) implies match k8s_quantity_for_key(
                k,
                m@[k]@,
            ) {
                Some(q) => r.resources.limits@.contains_key(k) && r.resources.limits@[k] == q,
                None => !r.resources.limits@.contains_key(k),
            } by {
                assert(k8s_quantity_rel()(k, m@[k], lookup(r.resources.limits@, k)));
            }
        } else {
            assert(r.resources.limits@ =~= Map::<Seq<char>, ResourceQuantity>::empty());
        }
    }
}

/// The containers of a pod that was taken over ask for what the containers of
/// the object ask for: the request of the i-th stands with the i-th.
pub proof fn law_pod_requests_are_taken_over(
    pod: K8sPod,
    node_name: Seq<char>,
    p: PodSpec,
    i: int,
    k: Seq<char>,
)
    requires
        k8s_pod_is(pod, node_name, Some(p)),
    ensures
        pod.spec matches Some(s) && p.containers@.len() == s.containers@.len() && (0 <= i
            < s.containers@.len() ==> {
            &&& p.containers@[i].name@ == s.containers@[i].base.name@
            &&& s.containers@[i].resources matches Some(x) ==> {
                &&& x.requests matches Some(m) ==> (m@.contains_key(k) && k8s_quantity_for_key(
                    k,
                    m@[k]@,
                ) is Some ==> p.containers@[i].resources.requests@.contains_key(k)
                    && Some(p.containers@[i].resources.requests@[k]) == k8s_quantity_for_key(
                    k,
                    m@[k]@,
                ))
                &&& x.limits matches Some(m) ==> (m@.contains_key(k) && k8s_quantity_for_key(
                    k,
                    m@[k]@,
                ) is Some ==> p.containers@[i].resources.limits@.contains_key(k)
                    && Some(p.containers@[i].resources.limits@[k]) == k8s_quantity_for_key(
                    k,
                    m@[k]@,
                ))
                &&& x.limits is None ==> !p.containers@[i].resources.limits@.contains_key(k)
                &&& x.requests is None ==> !p.containers@[i].resources.requests@.contains_key(k)
            }
        }),
{
    let s = pod.spec->0;
    if 0 <= i < s.containers@.len() {
        assert(k8s_container_rel()(s.containers@[i], p.containers@[i]));
        law_requests_and_limits_keep_apart(s.containers@[i], p.containers@[i]);
    }
}

/// The source of a variable keeps its kind and its parts: what refers to a
/// config map does not come to refer to a secret, nor a name to a key.
pub proof fn law_env_sources_keep_their_kind(s: K8sEnvVarSource, r: Option<EnvVarSource>)
    requires
        k8s_env_source_is(s, r),
    ensures
        s.field_ref matches Some(f) ==> r matches Some(EnvVarSource::FieldRef { field_path })
            && field_path@ == f@,
        s.field_ref is None ==> (s.resource_field_ref matches Some(f) ==> r matches Some(
            EnvVarSource::ResourceFieldRef { container_name, resource },
        ) && container_name == f.container_name && resource@ == f.resource@),
        s.field_ref is None && s.resource_field_ref is None ==> (s.config_map_key_ref matches Some(
            f,
        ) ==> r matches Some(EnvVarSource::ConfigMapKeyRef { name, key, optional }) && (
        f.name matches Some(n) ==> name@ == n@) && key@ == f.key@ && (optional <==> f.optional
            == Some(true))),
        s.field_ref is None && s.resource_field_ref is None && s.config_map_key_ref is None ==> (
        s.secret_key_ref matches Some(f) ==> r matches Some(
            EnvVarSource::SecretKeyRef { name, key, optional },
        ) && (f.name matches Some(n) ==> name@ == n@) && key@ == f.key@ && (optional <==> f.optional
            == Some(true))),
        s.field_ref is None && s.resource_field_ref is None && s.config_map_key_ref is None
            && s.secret_key_ref is None ==> r is None,
{
}

/// What a container has of its own is taken over: its image and its command,
/// its variables by name and value, its mounts by name and place, each in
/// order.
pub proof fn law_container_keeps_its_parts(c: K8sContainerBase, r: ContainerSpec)
    requires
        k8s_base_is(c, r),
    ensures
        r.name@ == c.name@,
        c.image matches Some(i) ==> r.image@ == i@,
        c.command matches Some(v) ==> r.command@ == v@,
        c.command is None ==> r.command@.len() == 0,
        c.args matches Some(v) ==> r.args@ == v@,
        c.args is None ==> r.args@.len() == 0,
        c.env is None ==> r.env@.len() == 0,
        c.env matches Some(v) ==> r.env@.len() == v@.len() && forall|i: int|
            0 <= i < v@.len() ==> (#[trigger] r.env@[i]).name == v@[i].name && r.env@[i].value
                == v@[i].value && (v@[i].value_from is None ==> r.env@[i].value_from is None),
        c.env_from matches Some(v) ==> r.env_from@.len() == v@.len() && forall|i: int|
            0 <= i < v@.len() ==> (#[trigger] r.env_from@[i]).prefix == v@[i].prefix && (
            r.env_from@[i].config_map_ref is Some <==> v@[i].config_map_ref is Some) && (
            r.env_from@[i].secret_ref is Some <==> v@[i].secret_ref is Some),
        c.volume_mounts matches Some(v) ==> r.volume_mounts@.len() == v@.len() && forall|i: int|
            0 <= i < v@.len() ==> (#[trigger] r.volume_mounts@[i]).name == v@[i].name
                && r.volume_mounts@[i].mount_path == v@[i].mount_path && r.volume_mounts@[i].sub_path
                == v@[i].sub_path && r.volume_mounts@[i].sub_path_expr == v@[i].sub_path_expr && (
            r.volume_mounts@[i].read_only <==> v@[i].read_only == Some(true)),
        r.working_dir == c.working_dir,
        r.stdin == c.stdin,
        r.tty == c.tty,
        r.termination_message_path == c.termination_message_path,
        r.termination_message_policy == c.termination_message_policy,
        r.security_context is Some <==> c.security_context is Some,
{
    assert forall|i: int| 0 <= i < items_of(c.env).len() implies k8s_env_is(
        items_of(c.env)[i],
        #[trigger] r.env@[i],
    ) by {
        assert(k8s_env_rel()(items_of(c.env)[i], r.env@[i]));
    }
    assert forall|i: int| 0 <= i < items_of(c.env_from).len() implies k8s_env_from_is(
        items_of(c.env_from)[i],
        #[trigger] r.env_from@[i],
    ) by {
        assert(k8s_env_from_rel()(items_of(c.env_from)[i], r.env_from@[i]));
    }
    assert forall|i: int| 0 <= i < items_of(c.volume_mounts).len() implies k8s_mount_is(
        items_of(c.volume_mounts)[i],
        #[trigger] r.volume_mounts@[i],
    ) by {
        assert(k8s_mount_rel()(items_of(c.volume_mounts)[i], r.volume_mounts@[i]));
    }
}

/// A reference to a whole config map or secret keeps its name and whether it
/// may be missing.
pub proof fn law_env_refs_keep_their_names(f: K8sEnvRef, r: Option<EnvFromRef>)
    requires
        k8s_env_ref_is(Some(f), r),
    ensures
        r matches Some(x) && (f.name matches Some(n) ==> x.name@ == n@) && (f.name is None
            ==> x.name@.len() == 0) && (x.optional <==> f.optional == Some(true)),
{
}

/// A source of variables keeps the config map as config map and the secret as
/// secret.
pub proof fn law_env_from_keeps_its_kind(e: K8sEnvFrom, r: EnvFromSource)
    requires
        k8s_env_from_is(e, r),
    ensures
        e.config_map_ref matches Some(f) ==> (f.name matches Some(n) ==> r.config_map_ref->0.name@
            == n@),
        e.secret_ref matches Some(f) ==> (f.name matches Some(n) ==> r.secret_ref->0.name@ == n@),
        e.config_map_ref is None ==> r.config_map_ref is None,
        e.secret_ref is None ==> r.secret_ref is None,
        r.prefix == e.prefix,
{
}

/// A port keeps its number, its host port and its protocol; without a protocol
/// it is a TCP port.
pub proof fn law_ports_keep_their_numbers(p: K8sContainerPort, r: ContainerPort)
    requires
        k8s_container_port_is(p, r),
    ensures
        r.name == p.name,
        0 <= p.container_port <= u16::MAX ==> r.container_port == p.container_port,
        p.host_port is None ==> r.host_port is None,
        p.host_port matches Some(n) ==> (0 <= n <= u16::MAX ==> r.host_port is Some && r.host_port->0 == n),
        r.host_ip == p.host_ip,
        p.protocol is None ==> r.protocol is TCP,
        p.protocol matches Some(t) ==> {
            &&& t@ == "TCP"@ ==> r.protocol is TCP
            &&& t@ == "UDP"@ ==> r.protocol is UDP
            &&& t@ == "SCTP"@ ==> r.protocol is SCTP
        },
{
    law_policies_are_read_by_name(opt_text(p.protocol));
}

/// A probe keeps its kind, its target and its own times and thresholds, each
/// with its own default.
pub proof fn law_probes_keep_their_parts(p: K8sProbe, ports: Seq<ContainerPort>, r: Option<Probe>)
    requires
        k8s_probe_is(p, ports, r),
    ensures
        r is None <==> p.exec_action is None && p.http_get is None && p.tcp_socket is None
            && p.grpc is None,
        r matches Some(x) ==> {
            &&& p.exec_action matches Some(e) ==> x.handler is Exec && (e.command matches Some(v)
                ==> x.handler->Exec_command@ == v@)
            &&& p.exec_action is None ==> (p.http_get matches Some(h) ==> {
                &&& x.handler is HttpGet
                &&& h.path matches Some(t) ==> x.handler->HttpGet_path@ == t@
                &&& h.path is None ==> x.handler->HttpGet_path@ == "/"@
                &&& h.scheme matches Some(t) ==> x.handler->HttpGet_scheme@ == t@
                &&& h.scheme is None ==> x.handler->HttpGet_scheme@ == "HTTP"@
                &&& x.handler->HttpGet_host == h.host
                &&& h.port matches K8sPort::Int(n) ==> (0 <= n <= u16::MAX
                    ==> x.handler->HttpGet_port == n)
            })
            &&& p.exec_action is None && p.http_get is None ==> (p.tcp_socket matches Some(t) ==> {
                &&& x.handler is TcpSocket
                &&& x.handler->TcpSocket_host == t.host
                &&& t.port matches K8sPort::Int(n) ==> (0 <= n <= u16::MAX
                    ==> x.handler->TcpSocket_port == n)
            })
            &&& p.exec_action is None && p.http_get is None && p.tcp_socket is None ==> (
            p.grpc matches Some(g) ==> {
                &&& x.handler is Grpc
                &&& x.handler->Grpc_service == g.service
                &&& 0 <= g.port <= u16::MAX ==> x.handler->Grpc_port == g.port
            })
            &&& p.initial_delay_seconds is None ==> x.initial_delay_seconds == 0
            &&& p.period_seconds is None ==> x.period_seconds == 10
            &&& p.timeout_seconds is None ==> x.timeout_seconds == 1
            &&& p.success_threshold is None ==> x.success_threshold == 1
            &&& p.failure_threshold is None ==> x.failure_threshold == 3
            &&& p.initial_delay_seconds matches Some(n) ==> (n >= 0 ==> x.initial_delay_seconds
                == n)
            &&& p.period_seconds matches Some(n) ==> (n >= 0 ==> x.period_seconds == n)
            &&& p.timeout_seconds matches Some(n) ==> (n >= 0 ==> x.timeout_seconds == n)
            &&& p.success_threshold matches Some(n) ==> (n >= 0 ==> x.success_threshold == n)
            &&& p.failure_threshold matches Some(n) ==> (n >= 0 ==> x.failure_threshold == n)
        },
{
}

/// A port that is given by name is the number of the first port of that name.
pub proof fn law_named_ports_are_looked_up(port: String, ports: Seq<ContainerPort>, i: int)
    requires
        0 <= i < ports.len(),
        ports[i].name matches Some(n) && n@ == port@,
        forall|j: int|
            0 <= j < i ==> !((#[trigger] ports[j]).name matches Some(n) && n@ == port@),
    ensures
        k8s_port_number(K8sPort::Name(port), ports) == ports[i].container_port,
    decreases i,
{
    if i > 0 {
        assert(!(ports[0].name matches Some(n) && n@ == port@));
        let rest = ports.skip(1);
        assert(rest[i - 1] == ports[i]);
        assert forall|j: int| 0 <= j < i - 1 implies !((#[trigger] rest[j]).name matches Some(n)
            && n@ == port@) by {
            assert(rest[j] == ports[j + 1]);
        }
        law_named_ports_are_looked_up(port, rest, i - 1);
    }
}

/// A container keeps each of its probes as what it is for, and each of its
/// hooks for its own moment.
pub proof fn law_probes_and_hooks_keep_their_places(c: K8sContainer, r: ContainerSpec)
    requires
        k8s_container_is(c, r),
    ensures
        c.liveness_probe is None ==> r.liveness_probe is None,
        c.readiness_probe is None ==> r.readiness_probe is None,
        c.startup_probe is None ==> r.startup_probe is None,
        c.liveness_probe matches Some(p) ==> (p.exec_action is Some ==> r.liveness_probe is Some && (
        p.failure_threshold matches Some(n) ==> (n >= 0 ==> r.liveness_probe->0.failure_threshold
            == n))),
        c.readiness_probe matches Some(p) ==> (p.exec_action is Some ==> r.readiness_probe is Some
            && (p.failure_threshold matches Some(n) ==> (n >= 0
            ==> r.readiness_probe->0.failure_threshold == n))),
        c.startup_probe matches Some(p) ==> (p.exec_action is Some ==> r.startup_probe is Some && (
        p.failure_threshold matches Some(n) ==> (n >= 0 ==> r.startup_probe->0.failure_threshold
            == n))),
        c.lifecycle is None ==> r.lifecycle is None,
        c.lifecycle matches Some(l) ==> {
            &&& r.lifecycle is Some
            &&& l.post_start is None ==> r.lifecycle->0.post_start is None
            &&& l.pre_stop is None ==> r.lifecycle->0.pre_stop is None
            &&& l.post_start matches Some(h) ==> (h.exec_action is Some ==> r.lifecycle->0.post_start is Some
                && r.lifecycle->0.post_start->0 is Exec && (h.exec_action->0.command is Some
                ==> r.lifecycle->0.post_start->0->Exec_command@ == h.exec_action->0.command->0@))
            &&& l.pre_stop matches Some(h) ==> (h.exec_action is Some ==> r.lifecycle->0.pre_stop is Some
                && r.lifecycle->0.pre_stop->0 is Exec && (h.exec_action->0.command is Some
                ==> r.lifecycle->0.pre_stop->0->Exec_command@ == h.exec_action->0.command->0@))
        },
        c.restart_policy is None ==> r.restart_policy is None,
        c.restart_policy matches Some(t) ==> {
            &&& t@ == "Never"@ ==> r.restart_policy == Some(RestartPolicy::Never)
            &&& t@ == "OnFailure"@ ==> r.restart_policy == Some(RestartPolicy::OnFailure)
            &&& t@ == "Always"@ ==> r.restart_policy == Some(RestartPolicy::Always)
        },
        c.ports is None ==> r.ports@.len() == 0,
        c.ports matches Some(v) ==> r.ports@.len() == v@.len() && forall|i: int|
            0 <= i < v@.len() ==> (#[trigger] r.ports@[i]).name == v@[i].name,
{
    if let Some(p) = c.liveness_probe {
        law_probes_keep_their_parts(p, r.ports@, r.liveness_probe);
    }
    if let Some(p) = c.readiness_probe {
        law_probes_keep_their_parts(p, r.ports@, r.readiness_probe);
    }
    if let Some(p) = c.startup_probe {
        law_probes_keep_their_parts(p, r.ports@, r.startup_probe);
    }
    reveal_strlit("Never");
    reveal_strlit("OnFailure");
    reveal_strlit("Always");
    assert("Never"@.len() == 5 && "OnFailure"@.len() == 9 && "Always"@.len() == 6);
    if let Some(v) = c.ports {
        assert forall|i: int| 0 <= i < v@.len() implies (#[trigger] r.ports@[i]).name
            == v@[i].name by {
            assert(k8s_container_port_rel()(v@[i], r.ports@[i]));
        }
    }
}

/// A hook keeps its kind and its target; a pause is as long as asked for.
pub proof fn law_hooks_keep_their_kind(h: K8sLifecycleHandler, r: Option<LifecycleHandler>)
    requires
        k8s_hook_is(h, r),
    ensures
        h.exec_action is Some ==> r is Some && r->0 is Exec,
        h.exec_action is None ==> (h.http_get matches Some(g) ==> {
            &&& r matches Some(x) && x is HttpGet && x->HttpGet_host == g.host
            &&& g.path is None ==> r->0->HttpGet_path@ == "/"@
            &&& g.path matches Some(t) ==> r->0->HttpGet_path@ == t@
            &&& g.scheme is None ==> r->0->HttpGet_scheme@ == "HTTP"@
            &&& g.scheme matches Some(t) ==> r->0->HttpGet_scheme@ == t@
            &&& g.port matches K8sPort::Int(n) ==> (0 <= n <= u16::MAX ==> r->0->HttpGet_port == n)
        }),
        h.exec_action is None && h.http_get is None ==> (h.tcp_socket matches Some(t) ==> {
            &&& r matches Some(x) && x is TcpSocket && x->TcpSocket_host == t.host
            &&& t.port matches K8sPort::Int(n) ==> (0 <= n <= u16::MAX ==> r->0->TcpSocket_port
                == n)
        }),
        h.exec_action is None && h.http_get is None && h.tcp_socket is None ==> (
        h.sleep_seconds matches Some(n) ==> r matches Some(LifecycleHandler::Sleep { seconds }) && (n
            >= 0 ==> seconds == n) && (n < 0 ==> seconds == 0)),
        h.exec_action is None && h.http_get is None && h.tcp_socket is None && h.sleep_seconds
            is None ==> r is None,
{
}

/// What a container says of its rights is taken over, each under its own name.
pub proof fn law_container_rights_are_taken_over(
    s: K8sSecurityContext,
    r: Option<SecurityContext>,
)
    requires
        k8s_security_is(Some(s), r),
    ensures
        r matches Some(x) && {
            &&& s.run_as_user is None ==> x.run_as_user is None
            &&& s.run_as_group is None ==> x.run_as_group is None
            &&& s.run_as_user matches Some(n) ==> (0 <= n <= u32::MAX ==> x.run_as_user is Some && x.run_as_user->0 == n)
            &&& s.run_as_group matches Some(n) ==> (0 <= n <= u32::MAX ==> x.run_as_group is Some && x.run_as_group->0 == n)
            &&& x.run_as_non_root == s.run_as_non_root
            &&& x.privileged == s.privileged
            &&& x.read_only_root_filesystem == s.read_only_root_filesystem
            &&& x.allow_privilege_escalation == s.allow_privilege_escalation
            &&& s.capabilities is None ==> x.capabilities is None
            &&& s.capabilities matches Some(c) ==> {
                &&& x.capabilities is Some
                &&& c.add matches Some(v) ==> x.capabilities->0.add@ == v@
                &&& c.drop matches Some(v) ==> x.capabilities->0.drop@ == v@
                &&& c.add is None ==> x.capabilities->0.add@.len() == 0
                &&& c.drop is None ==> x.capabilities->0.drop@.len() == 0
            }
            &&& s.seccomp_profile matches Some(p) ==> x.seccomp_profile matches Some(q) && q.type_@
                == p.type_@ && q.localhost_profile == p.localhost_profile
            &&& s.seccomp_profile is None ==> x.seccomp_profile is None
            &&& s.app_armor_profile matches Some(p) ==> x.apparmor_profile matches Some(q)
                && q.type_@ == p.type_@ && q.localhost_profile == p.localhost_profile
            &&& s.app_armor_profile is None ==> x.apparmor_profile is None
            &&& x.proc_mount == s.proc_mount
        },
{
}

/// What a pod says of its rights is taken over, each under its own name.
pub proof fn law_pod_rights_are_taken_over(
    s: K8sPodSecurityContext,
    r: Option<PodSecurityContext>,
)
    requires
        k8s_pod_security_is(Some(s), r),
    ensures
        r matches Some(x) && {
            &&& s.run_as_user is None ==> x.run_as_user is None
            &&& s.run_as_group is None ==> x.run_as_group is None
            &&& s.fs_group is None ==> x.fs_group is None
            &&& s.run_as_user matches Some(n) ==> (0 <= n <= u32::MAX ==> x.run_as_user is Some && x.run_as_user->0 == n)
            &&& s.run_as_group matches Some(n) ==> (0 <= n <= u32::MAX ==> x.run_as_group is Some && x.run_as_group->0 == n)
            &&& s.fs_group matches Some(n) ==> (0 <= n <= u32::MAX ==> x.fs_group is Some && x.fs_group->0 == n)
            &&& x.run_as_non_root == s.run_as_non_root
            &&& x.fs_group_change_policy == s.fs_group_change_policy
            &&& s.supplemental_groups matches Some(v) ==> x.supplemental_groups@.len() == v@.len()
                && forall|i: int|
                0 <= i < v@.len() && 0 <= v@[i] <= u32::MAX ==> #[trigger] x.supplemental_groups@[i]
                    == v@[i]
            &&& s.sysctls matches Some(v) ==> x.sysctls@.len() == v@.len() && forall|i: int|
                0 <= i < v@.len() ==> (#[trigger] x.sysctls@[i]).name == v@[i].name
                    && x.sysctls@[i].value == v@[i].value
            &&& s.seccomp_profile matches Some(p) ==> x.seccomp_profile matches Some(q) && q.type_@
                == p.type_@ && q.localhost_profile == p.localhost_profile
        },
{
    let x = r->0;
    if let Some(v) = s.supplemental_groups {
        assert forall|i: int|
            0 <= i < v@.len() && 0 <= v@[i] <= u32::MAX implies #[trigger] x.supplemental_groups@[i]
            == v@[i] by {
            assert(group_of_rel()(v@[i], x.supplemental_groups@[i]));
        }
    }
    if let Some(v) = s.sysctls {
        assert forall|i: int| 0 <= i < v@.len() implies (#[trigger] x.sysctls@[i]).name == v@[i].name
            && x.sysctls@[i].value == v@[i].value by {
            assert(k8s_sysctl_rel()(v@[i], x.sysctls@[i]));
        }
    }
}

/// A volume keeps its name, its kind and its parts; what is optional is so
/// only where the object says so.
pub proof fn law_volumes_keep_their_kind(v: K8sVolume, r: Option<VolumeSpec>)
    requires
        k8s_volume_from(v, r),
    ensures
        r matches Some(x) ==> x.name@ == v.name@,
        v.host_path matches Some(h) ==> r matches Some(x) && x.source is HostPath
            && x.source->HostPath_path@ == h.path@ && x.source->HostPath_path_type == h.type_,
        v.host_path is None ==> (v.empty_dir matches Some(e) ==> r matches Some(x)
            && x.source is EmptyDir && x.source->EmptyDir_medium == e.medium),
        v.host_path is None && v.empty_dir is None ==> (v.config_map matches Some(c) ==> {
            &&& r matches Some(x) && x.source is ConfigMap && x.source->ConfigMap_default_mode
                == c.default_mode
            &&& c.name matches Some(n) ==> r->0.source->ConfigMap_name@ == n@
            &&& r->0.source->ConfigMap_optional <==> c.optional == Some(true)
            &&& c.items matches Some(items) ==> r->0.source->ConfigMap_items@.len() == items@.len()
                && forall|i: int|
                0 <= i < items@.len() ==> (#[trigger] r->0.source->ConfigMap_items@[i]).key
                    == items@[i].key && r->0.source->ConfigMap_items@[i].path == items@[i].path
                    && r->0.source->ConfigMap_items@[i].mode == items@[i].mode
        }),
        v.host_path is None && v.empty_dir is None && v.config_map is None ==> (
        v.secret matches Some(c) ==> {
            &&& r matches Some(x) && x.source is Secret && x.source->Secret_default_mode
                == c.default_mode
            &&& c.name matches Some(n) ==> r->0.source->Secret_secret_name@ == n@
            &&& r->0.source->Secret_optional <==> c.optional == Some(true)
            &&& c.items matches Some(items) ==> r->0.source->Secret_items@.len() == items@.len()
                && forall|i: int|
                0 <= i < items@.len() ==> (#[trigger] r->0.source->Secret_items@[i]).key
                    == items@[i].key && r->0.source->Secret_items@[i].path == items@[i].path
                    && r->0.source->Secret_items@[i].mode == items@[i].mode
        }),
        v.host_path is None && v.empty_dir is None && v.config_map is None && v.secret is None ==> (
        v.persistent_volume_claim matches Some(c) ==> r matches Some(x)
            && x.source is PersistentVolumeClaim && x.source->PersistentVolumeClaim_claim_name@
            == c.claim_name@ && (x.source->PersistentVolumeClaim_read_only <==> c.read_only
            == Some(true))),
        v.host_path is None && v.empty_dir is None && v.config_map is None && v.secret is None
            && v.persistent_volume_claim is None ==> (v.projected matches Some(p) ==> r matches Some(
            x,
        ) && x.source is Projected && x.source->Projected_default_mode == p.default_mode),
        v.host_path is None && v.empty_dir is None && v.config_map is None && v.secret is None
            && v.persistent_volume_claim is None && v.projected is None ==> (
        v.downward_api matches Some(d) ==> r matches Some(x) && x.source is DownwardAPI
            && x.source->DownwardAPI_default_mode == d.default_mode),
        v.host_path is None && v.empty_dir is None && v.config_map is None && v.secret is None
            && v.persistent_volume_claim is None && v.projected is None && v.downward_api is None
            ==> r is None,
{
    if v.host_path is None && v.empty_dir is None {
        if let Some(c) = v.config_map {
            if let Some(items) = c.items {
                let out = r->0.source->ConfigMap_items@;
                assert forall|i: int| 0 <= i < items@.len() implies k8s_key_is(
                    items@[i],
                    #[trigger] out[i],
                ) by {
                    assert(k8s_key_rel()(items@[i], out[i]));
                }
            }
        } else if let Some(c) = v.secret {
            if let Some(items) = c.items {
                let out = r->0.source->Secret_items@;
                assert forall|i: int| 0 <= i < items@.len() implies k8s_key_is(
                    items@[i],
                    #[trigger] out[i],
                ) by {
                    assert(k8s_key_rel()(items@[i], out[i]));
                }
            }
        }
    }
}

/// A part of a projected volume keeps its kind, its name and its parts.
pub proof fn law_projections_keep_their_kind(p: K8sProjection, r: Option<ProjectedVolumeSource>)
    requires
        k8s_projection_from(p, r),
    ensures
        p.service_account_token matches Some(t) ==> {
            &&& r matches Some(x) && x is ServiceAccountToken && x->ServiceAccountToken_path@
                == t.path@ && x->ServiceAccountToken_audience == t.audience
            &&& t.expiration_seconds is None ==> r->0->ServiceAccountToken_expiration_seconds
                is None
            &&& t.expiration_seconds matches Some(n) ==> (n >= 0
                ==> r->0->ServiceAccountToken_expiration_seconds is Some && r->0->ServiceAccountToken_expiration_seconds->0 == n)
        },
        p.service_account_token is None ==> (p.config_map matches Some(c) ==> r matches Some(x)
            && x is ConfigMap && (c.name matches Some(n) ==> x->ConfigMap_name@ == n@) && (
        x->ConfigMap_optional <==> c.optional == Some(true))),
        p.service_account_token is None && p.config_map is None ==> (p.secret matches Some(c)
            ==> r matches Some(x) && x is Secret && (c.name matches Some(n) ==> x->Secret_name@
            == n@) && (x->Secret_optional <==> c.optional == Some(true))),
        p.service_account_token is None && p.config_map is None && p.secret is None ==> (
        p.downward_api is Some ==> r is Some && r->0 is DownwardAPI),
        p.service_account_token is None && p.config_map is None && p.secret is None
            && p.downward_api is None ==> r is None,
{
}

/// A file of the pod's own fields keeps its path, its field and its mode.
pub proof fn law_downward_files_keep_their_parts(i: K8sDownwardFile, r: DownwardAPIVolumeFile)
    requires
        k8s_downward_is(i, r),
    ensures
        r.path@ == i.path@,
        r.field_ref == i.field_ref,
        r.mode == i.mode,
        i.resource_field_ref is None ==> r.resource_field_ref is None,
        i.resource_field_ref matches Some(f) ==> r.resource_field_ref matches Some(x) && x.resource@
            == f.resource@ && x.container_name == f.container_name && x.divisor == f.divisor,
{
}

/// A pod is taken over with its own identity, its containers of each kind in
/// order, and its own settings; one that mirrors a pod of this node, or lacks
/// an identity or a description, is not.
pub proof fn law_pod_keeps_its_parts(pod: K8sPod, node_name: Seq<char>, r: Option<PodSpec>)
    requires
        k8s_pod_is(pod, node_name, r),
    ensures
        pod.metadata.uid is None || pod.metadata.name is None || pod.spec is None ==> r is None,
        pod.metadata.annotations matches Some(m) ==> (m@.contains_key(
            "kubernetes.io/config.mirror"@,
        ) ==> r is None),
        pod.metadata.uid is Some && pod.metadata.name is Some && pod.spec is Some && (
        pod.metadata.annotations matches Some(m) ==> !m@.contains_key(
            "kubernetes.io/config.mirror"@,
        )) ==> r is Some,
        r matches Some(p) ==> {
            let s = pod.spec->0;
            &&& p.uid.0@ == pod.metadata.uid->0@
            &&& p.pod_ref.name@ == pod.metadata.name->0@
            &&& pod.metadata.namespace matches Some(n) ==> p.pod_ref.namespace@ == n@
            &&& pod.metadata.namespace is None ==> p.pod_ref.namespace@ == "default"@
            &&& s.node_name matches Some(n) ==> p.node_name@ == n@
            &&& s.node_name is None ==> p.node_name@ == node_name
            &&& p.containers@.len() == s.containers@.len()
            &&& forall|i: int|
                0 <= i < s.containers@.len() ==> (#[trigger] p.containers@[i]).name
                    == s.containers@[i].base.name
            &&& s.init_containers is None ==> p.init_containers@.len() == 0
            &&& s.init_containers matches Some(v) ==> p.init_containers@.len() == v@.len()
                && forall|i: int|
                0 <= i < v@.len() ==> (#[trigger] p.init_containers@[i]).name == v@[i].base.name
            &&& s.ephemeral_containers is None ==> p.ephemeral_containers@.len() == 0
            &&& s.ephemeral_containers matches Some(v) ==> p.ephemeral_containers@.len() == v@.len()
                && forall|i: int|
                0 <= i < v@.len() ==> (#[trigger] p.ephemeral_containers@[i]).name
                    == v@[i].base.name
            &&& s.restart_policy is None ==> p.restart_policy is Always
            &&& s.restart_policy matches Some(t) ==> (t@ == "Never"@ ==> p.restart_policy is Never)
                && (t@ == "OnFailure"@ ==> p.restart_policy is OnFailure) && (t@ == "Always"@
                ==> p.restart_policy is Always)
            &&& s.active_deadline_seconds is None ==> p.active_deadline_seconds is None
            &&& s.active_deadline_seconds matches Some(n) ==> (n >= 0
                ==> p.active_deadline_seconds is Some && p.active_deadline_seconds->0 == n)
            &&& s.termination_grace_period_seconds is None ==> p.termination_grace_period_seconds
                == 30
            &&& s.termination_grace_period_seconds matches Some(n) ==> (n >= 0
                ==> p.termination_grace_period_seconds == n)
            &&& s.service_account_name matches Some(n) ==> p.service_account_name@ == n@
            &&& s.node_selector matches Some(m) ==> p.node_selector@ == m@
            &&& s.node_selector is None ==> p.node_selector@ == Map::<Seq<char>, String>::empty()
            &&& pod.metadata.labels matches Some(m) ==> p.labels@ == m@
            &&& pod.metadata.annotations matches Some(m) ==> p.annotations@ == m@
            &&& p.priority == s.priority
            &&& p.runtime_class_name == s.runtime_class_name
            &&& p.automount_service_account_token == s.automount_service_account_token
            &&& p.enable_service_links == s.enable_service_links
            &&& p.share_process_namespace == s.share_process_namespace
            &&& p.host_network <==> s.host_network == Some(true)
            &&& p.host_pid <==> s.host_pid == Some(true)
            &&& p.host_ipc <==> s.host_ipc == Some(true)
            &&& p.observed_start_time == pod.start_time
            &&& p.generation == pod.metadata.generation
            &&& s.hostname matches Some(t) ==> (t@.len() > 0 ==> p.hostname is Some && p.hostname->0@ == t@) && (t@.len() == 0 ==> p.hostname is None)
            &&& s.subdomain matches Some(t) ==> (t@.len() > 0 ==> p.subdomain is Some && p.subdomain->0@ == t@) && (t@.len() == 0 ==> p.subdomain is None)
            &&& s.hostname is None ==> p.hostname is None
            &&& s.subdomain is None ==> p.subdomain is None
            &&& s.security_context is Some <==> p.security_context is Some
        },
{
    if let Some(p) = r {
        let s = pod.spec->0;
        law_policies_are_read_by_name(opt_text(s.restart_policy));
        assert forall|i: int| 0 <= i < s.containers@.len() implies (#[trigger] p.containers@[i]).name
            == s.containers@[i].base.name by {
            assert(k8s_container_rel()(s.containers@[i], p.containers@[i]));
        }
        assert forall|i: int| 0 <= i < items_of(s.init_containers).len() implies (
        #[trigger] p.init_containers@[i]).name == items_of(s.init_containers)[i].base.name by {
            assert(k8s_container_rel()(items_of(s.init_containers)[i], p.init_containers@[i]));
        }
        assert forall|i: int| 0 <= i < items_of(s.ephemeral_containers).len() implies (
        #[trigger] p.ephemeral_containers@[i]).name == items_of(
            s.ephemeral_containers,
        )[i].base.name by {
            assert(k8s_ephemeral_rel()(
                items_of(s.ephemeral_containers)[i],
                p.ephemeral_containers@[i],
            ));
        }
    }
}

/// What a pod lists besides its containers is taken over item by item: gates
/// by their condition, host names by their address, pull secrets by name, and
/// each server and search domain of its resolver.
pub proof fn law_pod_lists_are_taken_over(
    pod: K8sPod,
    s: K8sPodSpec,
    node_name: Seq<char>,
    p: PodSpec,
)
    requires
        k8s_pod_parts_are(pod, s, node_name, p),
    ensures
        s.readiness_gates matches Some(v) ==> p.readiness_gates@.len() == v@.len() && forall|i: int|
            0 <= i < v@.len() ==> (#[trigger] p.readiness_gates@[i]).condition_type
                == v@[i].condition_type,
        s.host_aliases matches Some(v) ==> p.host_aliases@.len() == v@.len() && forall|i: int|
            0 <= i < v@.len() ==> opt_text(v@[i].ip) == None::<Seq<char>> || (
            #[trigger] p.host_aliases@[i]).ip@ == v@[i].ip->0@,
        s.image_pull_secrets matches Some(v) ==> p.image_pull_secrets@.len() == v@.len() && forall|
            i: int,
        |
            0 <= i < v@.len() && v@[i].name is Some ==> (#[trigger] p.image_pull_secrets@[i]).name@
                == v@[i].name->0@,
        p.dns_config is Some,
        s.dns_config matches Some(d) ==> {
            &&& d.nameservers matches Some(v) ==> p.dns_config->0.nameservers@ == v@
            &&& d.searches matches Some(v) ==> p.dns_config->0.searches@ == v@
        },
        s.dns_policy is None ==> p.dns_config->0.policy is ClusterFirst,
        s.dns_policy matches Some(t) ==> {
            &&& t@ == "Default"@ ==> p.dns_config->0.policy is Default
            &&& t@ == "None"@ ==> p.dns_config->0.policy is NonePolicy
            &&& t@ == "ClusterFirst"@ ==> p.dns_config->0.policy is ClusterFirst
            &&& t@ == "ClusterFirstWithHostNet"@
                ==> p.dns_config->0.policy is ClusterFirstWithHostNet
        },
{
    reveal_strlit("Default");
    reveal_strlit("None");
    reveal_strlit("ClusterFirst");
    reveal_strlit("ClusterFirstWithHostNet");
    assert("Default"@.len() == 7 && "None"@.len() == 4 && "ClusterFirst"@.len() == 12
        && "ClusterFirstWithHostNet"@.len() == 23);
    if let Some(v) = s.readiness_gates {
        assert forall|i: int| 0 <= i < v@.len() implies (
        #[trigger] p.readiness_gates@[i]).condition_type == v@[i].condition_type by {
            assert(k8s_gate_rel()(v@[i], p.readiness_gates@[i]));
        }
    }
    if let Some(v) = s.host_aliases {
        assert forall|i: int| 0 <= i < v@.len() implies opt_text(v@[i].ip) == None::<Seq<char>> || (
        #[trigger] p.host_aliases@[i]).ip@ == v@[i].ip->0@ by {
            assert(k8s_host_alias_rel()(v@[i], p.host_aliases@[i]));
        }
    }
    if let Some(v) = s.image_pull_secrets {
        assert forall|i: int| 0 <= i < v@.len() && v@[i].name is Some implies (
        #[trigger] p.image_pull_secrets@[i]).name@ == v@[i].name->0@ by {
            assert(k8s_name_ref_rel()(v@[i], p.image_pull_secrets@[i]));
        }
    }
}

/// An applied pod is added, or removed where it is to be deleted; a deleted
/// one is removed. What is removed goes by its own identity.
pub proof fn law_events_have_their_operations(
    pod: K8sPod,
    node_name: Seq<char>,
    added: Seq<PodUpdate>,
    removed: Seq<PodUpdate>,
)
    requires
        updates_are(K8sPodEvent::Applied(pod), node_name, added),
        updates_are(K8sPodEvent::Deleted(pod), node_name, removed),
    ensures
        added.len() <= 1,
        removed.len() <= 1,
        pod.metadata.deletion_timestamp is None && added.len() == 1 ==> added[0].op is Add
            && added[0].pod.uid.0@ == pod.metadata.uid->0@,
        pod.metadata.deletion_timestamp is Some && added.len() == 1 ==> added[0].op is Remove,
        removed.len() == 1 ==> removed[0].op is Remove,
        pod.metadata.uid is Some && pod.metadata.name is Some && pod.metadata.uid->0@.len() > 0
            && pod.metadata.name->0@.len() > 0 ==> removed.len() == 1 && removed[0].pod.uid.0@
            == pod.metadata.uid->0@ && removed[0].pod.pod_ref.name@ == pod.metadata.name->0@,
        pod.metadata.deletion_timestamp is None && pod.metadata.uid is Some && pod.metadata.name
            is Some && pod.spec is Some && pod.metadata.annotations is None ==> added.len() == 1,
{
    let o = choose|o: Option<PodUpdate>| just(o, added) && #[trigger] change_from(pod, node_name, o);
    let d = choose|d: Option<PodUpdate>|
        just(d, removed) && #[trigger] removal_from(pod, node_name, d);
}

/// The pause before the stream is opened anew grows with each error and starts
/// over with the next event; a stream that merely ended is opened after the
/// shortest one.
pub proof fn law_watch_errors_are_counted(failures: u32, input: PodWatchInput)
    ensures
        (input is ListTimedOut || input is StreamFailed) && failures < u32::MAX ==> failures_after(
            failures,
            input,
        ) == failures + 1,
        input is Event ==> failures_after(failures, input) == 0,
        input is Listed || input is ListFailed || input is StreamEnded ==> failures_after(
            failures,
            input,
        ) == failures,
{
}

/// A failed listing brings no update and keeps the stream; a stream that ended
/// or failed is opened anew, and so after a listing that did not come back.
pub proof fn law_watch_goes_on_or_reconnects(
    failures: u32,
    node_name: Seq<char>,
    input: PodWatchInput,
    r: PodWatchAction,
)
    requires
        watch_action_is(failures, node_name, input, r),
    ensures
        r is Emit <==> input is Listed || input is ListFailed || input is Event,
        r is Reconnect <==> input is StreamEnded || input is StreamFailed || input is ListTimedOut,
        input is ListFailed ==> r->Emit_0@.len() == 0,
        input is StreamEnded ==> r->wait_seconds == RECONNECT_SECONDS,
{
}

/// The stream is opened anew after five seconds at first, and never after more
/// than three hundred.
pub proof fn law_reconnects_are_within_bounds(failures: nat)
    ensures
        reconnect_seconds(0) == 5,
        5 <= reconnect_seconds(failures) <= 300,
    decreases failures,
{
    law_backoff_doubles(5, 0, 300);
    if failures > 0 {
        law_reconnects_are_within_bounds((failures - 1) as nat);
        law_backoff_doubles(5, (failures - 1) as nat, 300);
    }
}

/// A container that is added to a running pod has no resources, ports, probes
/// or hooks.
pub proof fn law_ephemeral_containers_are_otherwise_empty(
    c: K8sEphemeralContainer,
    r: ContainerSpec,
    key: Seq<char>,
)
    requires
        k8s_ephemeral_is(c, r),
    ensures
        r.name == c.base.name,
        !r.resources.requests@.contains_key(key),
        !r.resources.limits@.contains_key(key),
        r.ports@.len() == 0,
        r.liveness_probe is None,
        r.readiness_probe is None,
        r.startup_probe is None,
        r.lifecycle is None,
        r.restart_policy is None,
{
}

/// Without settings of its own the resolver of a pod has none, and a pod is
/// read without tolerations and claims.
pub proof fn law_unset_parts_of_a_pod_are_empty(
    pod: K8sPod,
    s: K8sPodSpec,
    node_name: Seq<char>,
    p: PodSpec,
)
    requires
        k8s_pod_parts_are(pod, s, node_name, p),
    ensures
        p.tolerations@.len() == 0,
        p.resource_claims@.len() == 0,
        s.dns_config is None ==> p.dns_config is Some && p.dns_config->0.nameservers@.len() == 0
            && p.dns_config->0.searches@.len() == 0 && p.dns_config->0.options@.len() == 0,
{
}

/// A hook on a port that is only named goes to the usual one.
pub proof fn law_named_hook_ports_have_stand_ins(
    h: K8sLifecycleHandler,
    r: Option<LifecycleHandler>,
)
    requires
        k8s_hook_is(h, r),
        h.exec_action is None,
    ensures
        h.http_get matches Some(g) ==> (g.port is Name ==> r is Some && r->0 is HttpGet
            && r->0->HttpGet_port == 80),
        h.http_get is None ==> (h.tcp_socket matches Some(t) ==> (t.port is Name ==> r is Some
            && r->0 is TcpSocket && r->0->TcpSocket_port == 0)),
{
}

} // verus!
