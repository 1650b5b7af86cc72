//! Pods as the API server describes them in JSON.
//!
//! A pod object is read member by member. What is required decides whether
//! there is a pod at all; list items that lack a required member are left out;
//! everything else falls back to a default.
use crate::json::{
    array_items, boolean, field, get_array, get_bool, get_flag, get_i64, get_text, get_text_or,
    get_u64, opt_deref, opt_field, signed, text, unsigned, JsonValue,
};
use crate::lists::{collect_some, kept, lemma_kept_has, map_all, mapped};
use crate::quantity::{k8s_quantity_for_key, parse_k8s_quantity_for_key};
use crate::strmap::{collect_entries, lookup, map_kept, StrMap};
use crate::text::{
    dec, lemma_dec_suffixed, natural_upto, opt_same, opt_text, parse_natural, texts,
};
use crate::types::{
    AppArmorSpec, Capabilities, ContainerPort, ContainerSpec, DnsConfig, DnsOption, DnsPolicy,
    DownwardAPIVolumeFile, EnvFromRef, EnvFromSource, EnvVar, EnvVarSource, HostAlias,
    ImagePullPolicy, KeyToPath, LocalObjectReference, PodOperation, PodRef, PodSecurityContext,
    PodSpec, PodUID, Probe, ProbeHandler, ProjectedVolumeSource, Protocol, ResourceClaimRef,
    ResourceFieldRef, ResourceQuantity, ResourceRequirements, RestartPolicy, SeccompSpec,
    SecurityContext, Sysctl, VolumeMount, VolumeSource, VolumeSpec,
};
use vstd::prelude::*;

verus! {

// ---------------------------------------------------------------------------
// Words of the API
// ---------------------------------------------------------------------------

/// The text, or `default` where there is none.
pub open spec fn text_or(t: Option<Seq<char>>, default: Seq<char>) -> Seq<char> {
    match t {
        Some(s) => s,
        None => default,
    }
}

/// The text, where it is not empty.
pub open spec fn nonempty(t: Option<Seq<char>>) -> Option<Seq<char>> {
    match t {
        Some(s) => if s.len() > 0 {
            Some(s)
        } else {
            None
        },
        None => None,
    }
}

pub open spec fn pull_policy_of(t: Option<Seq<char>>) -> ImagePullPolicy {
    if t == Some("Always"@) {
        ImagePullPolicy::Always
    } else if t == Some("Never"@) {
        ImagePullPolicy::Never
    } else {
        ImagePullPolicy::IfNotPresent
    }
}

/// The restart policy that a pod names; any other word means `Always`.
pub open spec fn restart_policy_of(t: Option<Seq<char>>) -> RestartPolicy {
    if t == Some("Never"@) {
        RestartPolicy::Never
    } else if t == Some("OnFailure"@) {
        RestartPolicy::OnFailure
    } else {
        RestartPolicy::Always
    }
}

pub open spec fn protocol_of(t: Option<Seq<char>>) -> Protocol {
    if t == Some("UDP"@) {
        Protocol::UDP
    } else if t == Some("SCTP"@) {
        Protocol::SCTP
    } else {
        Protocol::TCP
    }
}

pub fn parse_pull_policy(t: &Option<String>) -> (r: ImagePullPolicy)
    ensures
        r == pull_policy_of(opt_text(*t)),
{
    if opt_same(t, "Always") {
        ImagePullPolicy::Always
    } else if opt_same(t, "Never") {
        ImagePullPolicy::Never
    } else {
        ImagePullPolicy::IfNotPresent
    }
}

pub fn parse_restart_policy(t: &Option<String>) -> (r: RestartPolicy)
    ensures
        r == restart_policy_of(opt_text(*t)),
{
    if opt_same(t, "Never") {
        RestartPolicy::Never
    } else if opt_same(t, "OnFailure") {
        RestartPolicy::OnFailure
    } else {
        RestartPolicy::Always
    }
}

pub fn parse_protocol(t: &Option<String>) -> (r: Protocol)
    ensures
        r == protocol_of(opt_text(*t)),
{
    if opt_same(t, "UDP") {
        Protocol::UDP
    } else if opt_same(t, "SCTP") {
        Protocol::SCTP
    } else {
        Protocol::TCP
    }
}

/// A copy of a text that is not empty.
pub fn keep_nonempty(t: Option<String>) -> (r: Option<String>)
    ensures
        opt_text(r) == nonempty(opt_text(t)),
{
    match t {
        Some(s) => if s.as_str().is_empty() {
            None
        } else {
            Some(s)
        },
        None => None,
    }
}

pub open spec fn opt_u32(n: Option<u64>) -> Option<u32> {
    match n {
        Some(x) => Some(x as u32),
        None => None,
    }
}

pub open spec fn opt_i32(n: Option<i64>) -> Option<i32> {
    match n {
        Some(x) => Some(x as i32),
        None => None,
    }
}

pub open spec fn opt_u16(n: Option<u64>) -> Option<u16> {
    match n {
        Some(x) => Some(x as u16),
        None => None,
    }
}

pub open spec fn unsigned_or(n: Option<u64>, default: u64) -> u64 {
    match n {
        Some(x) => x,
        None => default,
    }
}

fn get_u32(v: &JsonValue, k: &str) -> (r: Option<u32>)
    ensures
        r == opt_u32(unsigned(field(*v, k@))),
{
    match get_u64(v, k) {
        Some(n) => Some(#[verifier::truncate] (n as u32)),
        None => None,
    }
}

fn get_u16(v: &JsonValue, k: &str) -> (r: Option<u16>)
    ensures
        r == opt_u16(unsigned(field(*v, k@))),
{
    match get_u64(v, k) {
        Some(n) => Some(#[verifier::truncate] (n as u16)),
        None => None,
    }
}

fn get_i32(v: &JsonValue, k: &str) -> (r: Option<i32>)
    ensures
        r == opt_i32(signed(field(*v, k@))),
{
    match get_i64(v, k) {
        Some(n) => Some(#[verifier::truncate] (n as i32)),
        None => None,
    }
}

fn get_u64_or(v: &JsonValue, k: &str, default: u64) -> (r: u64)
    ensures
        r == unsigned_or(unsigned(field(*v, k@)), default),
{
    match get_u64(v, k) {
        Some(n) => n,
        None => default,
    }
}

fn get_u32_or(v: &JsonValue, k: &str, default: u64) -> (r: u32)
    ensures
        r == unsigned_or(unsigned(field(*v, k@)), default) as u32,
{
    let n: u64 = get_u64_or(v, k, default);
    #[verifier::truncate]
    (n as u32)
}

// ---------------------------------------------------------------------------
// Lists and maps of texts
// ---------------------------------------------------------------------------

/// The texts among the items, in order.
pub open spec fn texts_in(items: Seq<JsonValue>) -> Seq<Seq<char>>
    decreases items.len(),
{
    if items.len() == 0 {
        Seq::empty()
    } else {
        match text(Some(items.last())) {
            Some(t) => texts_in(items.drop_last()).push(t),
            None => texts_in(items.drop_last()),
        }
    }
}

/// The strings of the array that is the member `k` of `v`.
pub fn parse_strings(v: &JsonValue, k: &str) -> (r: Vec<String>)
    ensures
        texts(r@) == texts_in(array_items(field(*v, k@))),
{
    let mut r: Vec<String> = Vec::new();
    match get_array(v, k) {
        Some(items) => {
            let mut i: usize = 0;
            assert(texts(r@) =~= Seq::<Seq<char>>::empty());
            while i < items.len()
                invariant
                    i <= items@.len(),
                    texts(r@) == texts_in(items@.take(i as int)),
                decreases items@.len() - i,
            {
                let ghost before = r@;
                assert(items@.take(i + 1).drop_last() =~= items@.take(i as int));
                match items[i].as_str() {
                    Some(s) => {
                        r.push(s.clone());
                        assert(texts(r@) =~= texts(before).push(s@));
                    },
                    None => {},
                }
                i = i + 1;
            }
            assert(items@.take(i as int) =~= items@);
        },
        None => {
            assert(texts(r@) =~= Seq::<Seq<char>>::empty());
        },
    }
    r
}

/// The value of a label or annotation: its text, or nothing.
pub open spec fn label_rel() -> spec_fn(Seq<char>, JsonValue, Option<String>) -> bool {
    |k: Seq<char>, v: JsonValue, r: Option<String>|
        opt_text(r) == Some(text_or(text(Some(v)), Seq::empty()))
}

fn label_value(k: &String, v: &JsonValue) -> (r: Option<String>)
    ensures
        opt_text(r) == Some(text_or(text(Some(*v)), Seq::empty())),
{
    match v.as_str() {
        Some(s) => Some(s.clone()),
        None => Some(String::new()),
    }
}

/// `out` holds the members of the object `v`, each with its text.
pub open spec fn labels_are(v: Option<JsonValue>, out: Map<Seq<char>, String>) -> bool {
    match v {
        Some(JsonValue::Object(m)) => map_kept(m@, out, label_rel()),
        _ => out == Map::<Seq<char>, String>::empty(),
    }
}

fn parse_labels(v: &JsonValue, k: &str) -> (r: StrMap<String>)
    ensures
        labels_are(field(*v, k@), r@),
{
    match v.get(k) {
        Some(x) => match x.as_object() {
            Some(m) => collect_entries(m, label_value, Ghost(label_rel())),
            None => StrMap::new(),
        },
        None => StrMap::new(),
    }
}

// ---------------------------------------------------------------------------
// Environment
// ---------------------------------------------------------------------------

/// Whether the source of an environment variable has what it requires.
pub open spec fn env_source_valid(vf: JsonValue) -> bool {
    if let Some(f) = field(vf, "fieldRef"@) {
        text(field(f, "fieldPath"@)) is Some
    } else if let Some(f) = field(vf, "resourceFieldRef"@) {
        text(field(f, "resource"@)) is Some
    } else if let Some(f) = field(vf, "configMapKeyRef"@) {
        text(field(f, "name"@)) is Some && text(field(f, "key"@)) is Some
    } else if let Some(f) = field(vf, "secretKeyRef"@) {
        text(field(f, "name"@)) is Some && text(field(f, "key"@)) is Some
    } else {
        true
    }
}

/// The source of an environment variable: the first of the four kinds that is
/// present.
pub open spec fn env_source_is(vf: JsonValue, r: Option<EnvVarSource>) -> bool {
    if let Some(f) = field(vf, "fieldRef"@) {
        r matches Some(EnvVarSource::FieldRef { field_path }) && Some(field_path@) == text(
            field(f, "fieldPath"@),
        )
    } else if let Some(f) = field(vf, "resourceFieldRef"@) {
        r matches Some(EnvVarSource::ResourceFieldRef { container_name, resource }) && Some(
            resource@,
        ) == text(field(f, "resource"@)) && opt_text(container_name) == text(
            field(f, "containerName"@),
        )
    } else if let Some(f) = field(vf, "configMapKeyRef"@) {
        r matches Some(EnvVarSource::ConfigMapKeyRef { name, key, optional }) && Some(name@)
            == text(field(f, "name"@)) && Some(key@) == text(field(f, "key"@)) && optional == (
        boolean(field(f, "optional"@)) == Some(true))
    } else if let Some(f) = field(vf, "secretKeyRef"@) {
        r matches Some(EnvVarSource::SecretKeyRef { name, key, optional }) && Some(name@) == text(
            field(f, "name"@),
        ) && Some(key@) == text(field(f, "key"@)) && optional == (boolean(field(f, "optional"@))
            == Some(true))
    } else {
        r is None
    }
}

/// An environment variable: it needs a name, and a source that is complete
/// where it has one.
pub open spec fn env_var_from(e: JsonValue, r: Option<EnvVar>) -> bool {
    match text(field(e, "name"@)) {
        Some(n) => match field(e, "valueFrom"@) {
            Some(vf) => if env_source_valid(vf) {
                r matches Some(x) && x.name@ == n && opt_text(x.value) == text(field(e, "value"@))
                    && env_source_is(vf, x.value_from)
            } else {
                r is None
            },
            None => r matches Some(x) && x.name@ == n && opt_text(x.value) == text(
                field(e, "value"@),
            ) && x.value_from is None,
        },
        None => r is None,
    }
}

pub open spec fn env_var_rel() -> spec_fn(JsonValue, Option<EnvVar>) -> bool {
    |e: JsonValue, r: Option<EnvVar>| env_var_from(e, r)
}

/// The source of an environment variable; nothing where it is incomplete.
fn parse_env_source(vf: &JsonValue) -> (r: Option<Option<EnvVarSource>>)
    ensures
        match r {
            Some(x) => env_source_valid(*vf) && env_source_is(*vf, x),
            None => !env_source_valid(*vf),
        },
{
    if let Some(f) = vf.get("fieldRef") {
        match get_text(f, "fieldPath") {
            Some(field_path) => Some(Some(EnvVarSource::FieldRef { field_path })),
            None => None,
        }
    } else if let Some(f) = vf.get("resourceFieldRef") {
        match get_text(f, "resource") {
            Some(resource) => Some(
                Some(
                    EnvVarSource::ResourceFieldRef {
                        container_name: get_text(f, "containerName"),
                        resource,
                    },
                ),
            ),
            None => None,
        }
    } else if let Some(f) = vf.get("configMapKeyRef") {
        match (get_text(f, "name"), get_text(f, "key")) {
            (Some(name), Some(key)) => Some(
                Some(
                    EnvVarSource::ConfigMapKeyRef { name, key, optional: get_flag(f, "optional") },
                ),
            ),
            _ => None,
        }
    } else if let Some(f) = vf.get("secretKeyRef") {
        match (get_text(f, "name"), get_text(f, "key")) {
            (Some(name), Some(key)) => Some(
                Some(EnvVarSource::SecretKeyRef { name, key, optional: get_flag(f, "optional") }),
            ),
            _ => None,
        }
    } else {
        Some(None)
    }
}

fn parse_env_var(e: &JsonValue) -> (r: Option<EnvVar>)
    ensures
        env_var_from(*e, r),
{
    let name = match get_text(e, "name") {
        Some(n) => n,
        None => {
            return None;
        },
    };
    let value = get_text(e, "value");
    let value_from = match e.get("valueFrom") {
        Some(vf) => match parse_env_source(vf) {
            Some(s) => s,
            None => {
                return None;
            },
        },
        None => None,
    };
    Some(EnvVar { name, value, value_from })
}

/// The environment variables of a container.
pub fn parse_env_vars(c: &JsonValue) -> (r: Vec<EnvVar>)
    ensures
        kept(array_items(field(*c, "env"@)), r@, env_var_rel()),
{
    match get_array(c, "env") {
        Some(items) => collect_some(items, parse_env_var, Ghost(env_var_rel())),
        None => Vec::new(),
    }
}

/// A reference to a config map or secret by name.
pub open spec fn env_ref_is(v: Option<JsonValue>, r: Option<EnvFromRef>) -> bool {
    match text(opt_field(v, "name"@)) {
        Some(n) => r matches Some(x) && x.name@ == n && x.optional == (boolean(
            opt_field(v, "optional"@),
        ) == Some(true)),
        None => r is None,
    }
}

pub open spec fn env_from_is(e: JsonValue, r: EnvFromSource) -> bool {
    &&& opt_text(r.prefix) == text(field(e, "prefix"@))
    &&& env_ref_is(field(e, "configMapRef"@), r.config_map_ref)
    &&& env_ref_is(field(e, "secretRef"@), r.secret_ref)
}

pub open spec fn env_from_rel() -> spec_fn(JsonValue, EnvFromSource) -> bool {
    |e: JsonValue, r: EnvFromSource| env_from_is(e, r)
}

fn parse_env_ref(v: Option<&JsonValue>) -> (r: Option<EnvFromRef>)
    ensures
        env_ref_is(opt_deref(v), r),
{
    match v {
        Some(x) => match get_text(x, "name") {
            Some(name) => Some(EnvFromRef { name, optional: get_flag(x, "optional") }),
            None => None,
        },
        None => None,
    }
}

fn parse_env_from_item(e: &JsonValue) -> (r: EnvFromSource)
    ensures
        env_from_is(*e, r),
{
    EnvFromSource {
        prefix: get_text(e, "prefix"),
        config_map_ref: parse_env_ref(e.get("configMapRef")),
        secret_ref: parse_env_ref(e.get("secretRef")),
    }
}

/// The config maps and secrets whose entries become environment variables.
pub fn parse_env_from(c: &JsonValue) -> (r: Vec<EnvFromSource>)
    ensures
        mapped(array_items(field(*c, "envFrom"@)), r@, env_from_rel()),
{
    match get_array(c, "envFrom") {
        Some(items) => map_all(items, parse_env_from_item, Ghost(env_from_rel())),
        None => Vec::new(),
    }
}

// ---------------------------------------------------------------------------
// Ports and probes
// ---------------------------------------------------------------------------

/// A container port: it needs a number.
pub open spec fn port_from(p: JsonValue, r: Option<ContainerPort>) -> bool {
    match unsigned(field(p, "containerPort"@)) {
        Some(n) => r matches Some(x) && x.container_port == n as u16 && opt_text(x.name) == text(
            field(p, "name"@),
        ) && x.host_port == opt_u16(unsigned(field(p, "hostPort"@))) && x.protocol == protocol_of(
            text(field(p, "protocol"@)),
        ) && opt_text(x.host_ip) == text(field(p, "hostIP"@)),
        None => r is None,
    }
}

pub open spec fn port_rel() -> spec_fn(JsonValue, Option<ContainerPort>) -> bool {
    |p: JsonValue, r: Option<ContainerPort>| port_from(p, r)
}

fn parse_port(p: &JsonValue) -> (r: Option<ContainerPort>)
    ensures
        port_from(*p, r),
{
    match get_u16(p, "containerPort") {
        Some(container_port) => Some(
            ContainerPort {
                name: get_text(p, "name"),
                container_port,
                host_port: get_u16(p, "hostPort"),
                protocol: parse_protocol(&get_text(p, "protocol")),
                host_ip: get_text(p, "hostIP"),
            },
        ),
        None => None,
    }
}

/// The ports of a container.
pub fn parse_container_ports(c: &JsonValue) -> (r: Vec<ContainerPort>)
    ensures
        kept(array_items(field(*c, "ports"@)), r@, port_rel()),
{
    match get_array(c, "ports") {
        Some(items) => collect_some(items, parse_port, Ghost(port_rel())),
        None => Vec::new(),
    }
}

/// The number of the first port with the given name.
pub open spec fn named_port(ports: Seq<ContainerPort>, name: Seq<char>) -> Option<u16>
    decreases ports.len(),
{
    if ports.len() == 0 {
        None
    } else if opt_text(ports[0].name) == Some(name) {
        Some(ports[0].container_port)
    } else {
        named_port(ports.skip(1), name)
    }
}

/// The number of the first port with the given name.
pub fn find_named_port(ports: &Vec<ContainerPort>, name: &str) -> (r: Option<u16>)
    ensures
        r == named_port(ports@, name@),
{
    let mut i: usize = 0;
    assert(ports@.skip(0) =~= ports@);
    while i < ports.len()
        invariant
            i <= ports@.len(),
            named_port(ports@, name@) == named_port(ports@.skip(i as int), name@),
        decreases ports@.len() - i,
    {
        assert(ports@.skip(i as int)[0] == ports@[i as int]);
        assert(ports@.skip(i as int).skip(1) =~= ports@.skip(i + 1));
        if opt_same(&ports[i].name, name) {
            return Some(ports[i].container_port);
        }
        i = i + 1;
    }
    None
}

/// A port given by number, by a number in a text, or by the name of one of the
/// container's ports.
pub open spec fn port_number(v: JsonValue, ports: Seq<ContainerPort>) -> Option<u16> {
    match unsigned(Some(v)) {
        Some(n) => Some(n as u16),
        None => match text(Some(v)) {
            Some(t) => match natural_upto(t, 65535) {
                Some(n) => Some(n as u16),
                None => named_port(ports, t),
            },
            None => None,
        },
    }
}

/// Resolves a port that may be a number or a name.
pub fn resolve_port(port_val: &JsonValue, ports: &Vec<ContainerPort>) -> (r: Option<u16>)
    ensures
        r == port_number(*port_val, ports@),
{
    if let Some(n) = port_val.as_u64() {
        return Some(#[verifier::truncate] (n as u16));
    }
    if let Some(name) = port_val.as_str() {
        if let Some(n) = parse_natural(name.as_str(), 65535) {
            return Some(n as u16);
        }
        return find_named_port(ports, name.as_str());
    }
    None
}

/// What a probe does: the first of the four kinds that is present, complete
/// only with a port that resolves where it needs one.
pub open spec fn probe_handler_is(
    v: JsonValue,
    ports: Seq<ContainerPort>,
    r: Option<ProbeHandler>,
) -> bool {
    if let Some(h) = field(v, "httpGet"@) {
        match opt_port(field(h, "port"@), ports) {
            Some(p) => r matches Some(ProbeHandler::HttpGet { path, port, host, scheme }) && port
                == p && path@ == text_or(text(field(h, "path"@)), "/"@) && opt_text(host) == text(
                field(h, "host"@),
            ) && scheme@ == text_or(text(field(h, "scheme"@)), "HTTP"@),
            None => r is None,
        }
    } else if let Some(t) = field(v, "tcpSocket"@) {
        match opt_port(field(t, "port"@), ports) {
            Some(p) => r matches Some(ProbeHandler::TcpSocket { port, host }) && port == p
                && opt_text(host) == text(field(t, "host"@)),
            None => r is None,
        }
    } else if let Some(e) = field(v, "exec"@) {
        r matches Some(ProbeHandler::Exec { command }) && texts(command@) == texts_in(
            array_items(field(e, "command"@)),
        )
    } else if let Some(g) = field(v, "grpc"@) {
        match unsigned(field(g, "port"@)) {
            Some(p) => r matches Some(ProbeHandler::Grpc { port, service }) && port == p as u16
                && opt_text(service) == text(field(g, "service"@)),
            None => r is None,
        }
    } else {
        r is None
    }
}

pub open spec fn opt_port(v: Option<JsonValue>, ports: Seq<ContainerPort>) -> Option<u16> {
    match v {
        Some(x) => port_number(x, ports),
        None => None,
    }
}

fn resolve_opt_port(v: Option<&JsonValue>, ports: &Vec<ContainerPort>) -> (r: Option<u16>)
    ensures
        r == opt_port(opt_deref(v), ports@),
{
    match v {
        Some(x) => resolve_port(x, ports),
        None => None,
    }
}

fn parse_probe_handler(v: &JsonValue, ports: &Vec<ContainerPort>) -> (r: Option<ProbeHandler>)
    ensures
        probe_handler_is(*v, ports@, r),
{
    if let Some(h) = v.get("httpGet") {
        match resolve_opt_port(h.get("port"), ports) {
            Some(port) => Some(
                ProbeHandler::HttpGet {
                    path: get_text_or(h, "path", "/"),
                    port,
                    host: get_text(h, "host"),
                    scheme: get_text_or(h, "scheme", "HTTP"),
                },
            ),
            None => None,
        }
    } else if let Some(t) = v.get("tcpSocket") {
        match resolve_opt_port(t.get("port"), ports) {
            Some(port) => Some(ProbeHandler::TcpSocket { port, host: get_text(t, "host") }),
            None => None,
        }
    } else if let Some(e) = v.get("exec") {
        Some(ProbeHandler::Exec { command: parse_strings(e, "command") })
    } else if let Some(g) = v.get("grpc") {
        match get_u16(g, "port") {
            Some(port) => Some(ProbeHandler::Grpc { port, service: get_text(g, "service") }),
            None => None,
        }
    } else {
        None
    }
}

/// A probe: there is one where its handler is complete.
pub open spec fn probe_is(
    v: Option<JsonValue>,
    ports: Seq<ContainerPort>,
    r: Option<Probe>,
) -> bool {
    match v {
        Some(x) => match r {
            Some(p) => {
                &&& probe_handler_is(x, ports, Some(p.handler))
                &&& p.initial_delay_seconds == unsigned_or(
                    unsigned(field(x, "initialDelaySeconds"@)),
                    0,
                ) as u32
                &&& p.period_seconds == unsigned_or(unsigned(field(x, "periodSeconds"@)), 10) as u32
                &&& p.timeout_seconds == unsigned_or(
                    unsigned(field(x, "timeoutSeconds"@)),
                    1,
                ) as u32
                &&& p.success_threshold == unsigned_or(
                    unsigned(field(x, "successThreshold"@)),
                    1,
                ) as u32
                &&& p.failure_threshold == unsigned_or(
                    unsigned(field(x, "failureThreshold"@)),
                    3,
                ) as u32
            },
            None => probe_handler_is(x, ports, None),
        },
        None => r is None,
    }
}

/// Reads a probe.
pub fn parse_probe(v: Option<&JsonValue>, ports: &Vec<ContainerPort>) -> (r: Option<Probe>)
    ensures
        probe_is(opt_deref(v), ports@, r),
{
    match v {
        Some(x) => match parse_probe_handler(x, ports) {
            Some(handler) => Some(
                Probe {
                    handler,
                    initial_delay_seconds: get_u32_or(x, "initialDelaySeconds", 0),
                    period_seconds: get_u32_or(x, "periodSeconds", 10),
                    timeout_seconds: get_u32_or(x, "timeoutSeconds", 1),
                    success_threshold: get_u32_or(x, "successThreshold", 1),
                    failure_threshold: get_u32_or(x, "failureThreshold", 3),
                },
            ),
            None => None,
        },
        None => None,
    }
}

// ---------------------------------------------------------------------------
// Security contexts
// ---------------------------------------------------------------------------

pub open spec fn seccomp_is(v: Option<JsonValue>, r: Option<SeccompSpec>) -> bool {
    match text(opt_field(v, "type"@)) {
        Some(t) => r matches Some(x) && x.type_@ == t && opt_text(x.localhost_profile) == text(
            opt_field(v, "localhostProfile"@),
        ),
        None => r is None,
    }
}

/// Reads a seccomp profile; it needs a type.
pub fn parse_seccomp(sc: Option<&JsonValue>) -> (r: Option<SeccompSpec>)
    ensures
        seccomp_is(opt_deref(sc), r),
{
    match sc {
        Some(v) => match get_text(v, "type") {
            Some(type_) => Some(
                SeccompSpec { type_, localhost_profile: get_text(v, "localhostProfile") },
            ),
            None => None,
        },
        None => None,
    }
}

pub open spec fn apparmor_is(v: Option<JsonValue>, r: Option<AppArmorSpec>) -> bool {
    match text(opt_field(v, "type"@)) {
        Some(t) => r matches Some(x) && x.type_@ == t && opt_text(x.localhost_profile) == text(
            opt_field(v, "localhostProfile"@),
        ),
        None => r is None,
    }
}

/// Reads an AppArmor profile; it needs a type.
pub fn parse_apparmor(sc: Option<&JsonValue>) -> (r: Option<AppArmorSpec>)
    ensures
        apparmor_is(opt_deref(sc), r),
{
    match sc {
        Some(v) => match get_text(v, "type") {
            Some(type_) => Some(
                AppArmorSpec { type_, localhost_profile: get_text(v, "localhostProfile") },
            ),
            None => None,
        },
        None => None,
    }
}

pub open spec fn capabilities_are(v: Option<JsonValue>, r: Option<Capabilities>) -> bool {
    match v {
        Some(c) => r matches Some(x) && texts(x.add@) == texts_in(array_items(field(c, "add"@)))
            && texts(x.drop@) == texts_in(array_items(field(c, "drop"@))),
        None => r is None,
    }
}

fn parse_capabilities(v: Option<&JsonValue>) -> (r: Option<Capabilities>)
    ensures
        capabilities_are(opt_deref(v), r),
{
    match v {
        Some(c) => Some(
            Capabilities { add: parse_strings(c, "add"), drop: parse_strings(c, "drop") },
        ),
        None => None,
    }
}

pub open spec fn container_security_is(v: JsonValue, x: SecurityContext) -> bool {
    &&& x.run_as_user == opt_u32(unsigned(field(v, "runAsUser"@)))
    &&& x.run_as_group == opt_u32(unsigned(field(v, "runAsGroup"@)))
    &&& x.run_as_non_root == boolean(field(v, "runAsNonRoot"@))
    &&& x.privileged == boolean(field(v, "privileged"@))
    &&& x.read_only_root_filesystem == boolean(field(v, "readOnlyRootFilesystem"@))
    &&& x.allow_privilege_escalation == boolean(field(v, "allowPrivilegeEscalation"@))
    &&& capabilities_are(field(v, "capabilities"@), x.capabilities)
    &&& seccomp_is(field(v, "seccompProfile"@), x.seccomp_profile)
    &&& apparmor_is(field(v, "appArmorProfile"@), x.apparmor_profile)
    &&& opt_text(x.proc_mount) == text(field(v, "procMount"@))
}

/// Reads the security context of a container.
pub fn parse_container_security_context(sc: Option<&JsonValue>) -> (r: Option<SecurityContext>)
    ensures
        match (sc, r) {
            (Some(v), Some(x)) => container_security_is(*v, x),
            (None, None) => true,
            _ => false,
        },
{
    match sc {
        Some(v) => Some(
            SecurityContext {
                run_as_user: get_u32(v, "runAsUser"),
                run_as_group: get_u32(v, "runAsGroup"),
                run_as_non_root: get_bool(v, "runAsNonRoot"),
                privileged: get_bool(v, "privileged"),
                read_only_root_filesystem: get_bool(v, "readOnlyRootFilesystem"),
                allow_privilege_escalation: get_bool(v, "allowPrivilegeEscalation"),
                capabilities: parse_capabilities(v.get("capabilities")),
                seccomp_profile: parse_seccomp(v.get("seccompProfile")),
                apparmor_profile: parse_apparmor(v.get("appArmorProfile")),
                proc_mount: get_text(v, "procMount"),
            },
        ),
        None => None,
    }
}

/// A group identifier; items that are no numbers are left out.
pub open spec fn group_rel() -> spec_fn(JsonValue, Option<u32>) -> bool {
    |v: JsonValue, r: Option<u32>| r == opt_u32(unsigned(Some(v)))
}

fn parse_group(v: &JsonValue) -> (r: Option<u32>)
    ensures
        r == opt_u32(unsigned(Some(*v))),
{
    match v.as_u64() {
        Some(n) => Some(#[verifier::truncate] (n as u32)),
        None => None,
    }
}

/// A kernel parameter: it needs a name and a value.
pub open spec fn sysctl_from(v: JsonValue, r: Option<Sysctl>) -> bool {
    match (text(field(v, "name"@)), text(field(v, "value"@))) {
        (Some(n), Some(t)) => r matches Some(x) && x.name@ == n && x.value@ == t,
        _ => r is None,
    }
}

pub open spec fn sysctl_rel() -> spec_fn(JsonValue, Option<Sysctl>) -> bool {
    |v: JsonValue, r: Option<Sysctl>| sysctl_from(v, r)
}

fn parse_sysctl(v: &JsonValue) -> (r: Option<Sysctl>)
    ensures
        sysctl_from(*v, r),
{
    match (get_text(v, "name"), get_text(v, "value")) {
        (Some(name), Some(value)) => Some(Sysctl { name, value }),
        _ => None,
    }
}

pub open spec fn pod_security_is(v: JsonValue, x: PodSecurityContext) -> bool {
    &&& x.run_as_user == opt_u32(unsigned(field(v, "runAsUser"@)))
    &&& x.run_as_group == opt_u32(unsigned(field(v, "runAsGroup"@)))
    &&& x.run_as_non_root == boolean(field(v, "runAsNonRoot"@))
    &&& x.fs_group == opt_u32(unsigned(field(v, "fsGroup"@)))
    &&& kept(array_items(field(v, "supplementalGroups"@)), x.supplemental_groups@, group_rel())
    &&& kept(array_items(field(v, "sysctls"@)), x.sysctls@, sysctl_rel())
    &&& seccomp_is(field(v, "seccompProfile"@), x.seccomp_profile)
    &&& opt_text(x.fs_group_change_policy) == text(field(v, "fsGroupChangePolicy"@))
}

/// Reads the security context of a pod.
pub fn parse_pod_security_context(sc: Option<&JsonValue>) -> (r: Option<PodSecurityContext>)
    ensures
        match (sc, r) {
            (Some(v), Some(x)) => pod_security_is(*v, x),
            (None, None) => true,
            _ => false,
        },
{
    match sc {
        Some(v) => {
            let supplemental_groups = match get_array(v, "supplementalGroups") {
                Some(items) => collect_some(items, parse_group, Ghost(group_rel())),
                None => Vec::new(),
            };
            let sysctls = match get_array(v, "sysctls") {
                Some(items) => collect_some(items, parse_sysctl, Ghost(sysctl_rel())),
                None => Vec::new(),
            };
            Some(
                PodSecurityContext {
                    run_as_user: get_u32(v, "runAsUser"),
                    run_as_group: get_u32(v, "runAsGroup"),
                    run_as_non_root: get_bool(v, "runAsNonRoot"),
                    fs_group: get_u32(v, "fsGroup"),
                    supplemental_groups,
                    fs_group_change_policy: get_text(v, "fsGroupChangePolicy"),
                    sysctls,
                    seccomp_profile: parse_seccomp(v.get("seccompProfile")),
                },
            )
        },
        None => None,
    }
}

// ---------------------------------------------------------------------------
// Volumes
// ---------------------------------------------------------------------------

/// A key and the path under which it is mounted.
pub open spec fn key_to_path_from(v: JsonValue, r: Option<KeyToPath>) -> bool {
    match (text(field(v, "key"@)), text(field(v, "path"@))) {
        (Some(k), Some(p)) => r matches Some(x) && x.key@ == k && x.path@ == p && x.mode == opt_i32(
            signed(field(v, "mode"@)),
        ),
        _ => r is None,
    }
}

pub open spec fn key_to_path_rel() -> spec_fn(JsonValue, Option<KeyToPath>) -> bool {
    |v: JsonValue, r: Option<KeyToPath>| key_to_path_from(v, r)
}

fn parse_key_to_path(v: &JsonValue) -> (r: Option<KeyToPath>)
    ensures
        key_to_path_from(*v, r),
{
    match (get_text(v, "key"), get_text(v, "path")) {
        (Some(key), Some(path)) => Some(KeyToPath { key, path, mode: get_i32(v, "mode") }),
        _ => None,
    }
}

/// The keys that the member `k` of `v` selects.
pub fn parse_key_to_paths(v: &JsonValue, k: &str) -> (r: Vec<KeyToPath>)
    ensures
        kept(array_items(field(*v, k@)), r@, key_to_path_rel()),
{
    match get_array(v, k) {
        Some(items) => collect_some(items, parse_key_to_path, Ghost(key_to_path_rel())),
        None => Vec::new(),
    }
}

pub open spec fn volume_mount_from(v: JsonValue, r: Option<VolumeMount>) -> bool {
    match (text(field(v, "name"@)), text(field(v, "mountPath"@))) {
        (Some(n), Some(m)) => r matches Some(x) && x.name@ == n && x.mount_path@ == m && opt_text(
            x.sub_path,
        ) == text(field(v, "subPath"@)) && opt_text(x.sub_path_expr) == text(
            field(v, "subPathExpr"@),
        ) && x.read_only == (boolean(field(v, "readOnly"@)) == Some(true)),
        _ => r is None,
    }
}

pub open spec fn volume_mount_rel() -> spec_fn(JsonValue, Option<VolumeMount>) -> bool {
    |v: JsonValue, r: Option<VolumeMount>| volume_mount_from(v, r)
}

fn parse_volume_mount(v: &JsonValue) -> (r: Option<VolumeMount>)
    ensures
        volume_mount_from(*v, r),
{
    match (get_text(v, "name"), get_text(v, "mountPath")) {
        (Some(name), Some(mount_path)) => Some(
            VolumeMount {
                name,
                mount_path,
                sub_path: get_text(v, "subPath"),
                sub_path_expr: get_text(v, "subPathExpr"),
                read_only: get_flag(v, "readOnly"),
            },
        ),
        _ => None,
    }
}

/// The volume mounts of a container.
pub fn parse_volume_mounts(c: &JsonValue) -> (r: Vec<VolumeMount>)
    ensures
        kept(array_items(field(*c, "volumeMounts"@)), r@, volume_mount_rel()),
{
    match get_array(c, "volumeMounts") {
        Some(items) => collect_some(items, parse_volume_mount, Ghost(volume_mount_rel())),
        None => Vec::new(),
    }
}

pub open spec fn resource_field_is(v: Option<JsonValue>, r: Option<ResourceFieldRef>) -> bool {
    match text(opt_field(v, "resource"@)) {
        Some(t) => r matches Some(x) && x.resource@ == t && opt_text(x.container_name) == text(
            opt_field(v, "containerName"@),
        ) && opt_text(x.divisor) == text(opt_field(v, "divisor"@)),
        None => r is None,
    }
}

fn parse_resource_field(v: Option<&JsonValue>) -> (r: Option<ResourceFieldRef>)
    ensures
        resource_field_is(opt_deref(v), r),
{
    match v {
        Some(f) => match get_text(f, "resource") {
            Some(resource) => Some(
                ResourceFieldRef {
                    container_name: get_text(f, "containerName"),
                    resource,
                    divisor: get_text(f, "divisor"),
                },
            ),
            None => None,
        },
        None => None,
    }
}

pub open spec fn downward_file_from(v: JsonValue, r: Option<DownwardAPIVolumeFile>) -> bool {
    match text(field(v, "path"@)) {
        Some(p) => r matches Some(x) && x.path@ == p && x.mode == opt_i32(
            signed(field(v, "mode"@)),
        ) && opt_text(x.field_ref) == text(opt_field(field(v, "fieldRef"@), "fieldPath"@))
            && resource_field_is(field(v, "resourceFieldRef"@), x.resource_field_ref),
        None => r is None,
    }
}

pub open spec fn downward_file_rel() -> spec_fn(JsonValue, Option<DownwardAPIVolumeFile>) -> bool {
    |v: JsonValue, r: Option<DownwardAPIVolumeFile>| downward_file_from(v, r)
}

fn parse_downward_file(v: &JsonValue) -> (r: Option<DownwardAPIVolumeFile>)
    ensures
        downward_file_from(*v, r),
{
    match get_text(v, "path") {
        Some(path) => Some(
            DownwardAPIVolumeFile {
                path,
                field_ref: match v.get("fieldRef") {
                    Some(f) => get_text(f, "fieldPath"),
                    None => None,
                },
                resource_field_ref: parse_resource_field(v.get("resourceFieldRef")),
                mode: get_i32(v, "mode"),
            },
        ),
        None => None,
    }
}

/// The files that the member `k` of `v` describes.
pub fn parse_downward_api_items(v: &JsonValue, k: &str) -> (r: Vec<DownwardAPIVolumeFile>)
    ensures
        kept(array_items(field(*v, k@)), r@, downward_file_rel()),
{
    match get_array(v, k) {
        Some(items) => collect_some(items, parse_downward_file, Ghost(downward_file_rel())),
        None => Vec::new(),
    }
}

/// A projected source: the first of the four kinds that is present. A token
/// needs a path.
pub open spec fn projected_from(v: JsonValue, r: Option<ProjectedVolumeSource>) -> bool {
    if let Some(t) = field(v, "serviceAccountToken"@) {
        match text(field(t, "path"@)) {
            Some(p) => r matches Some(
                ProjectedVolumeSource::ServiceAccountToken { audience, expiration_seconds, path },
            ) && path@ == p && opt_text(audience) == text(field(t, "audience"@))
                && expiration_seconds == unsigned(field(t, "expirationSeconds"@)),
            None => r is None,
        }
    } else if let Some(c) = field(v, "configMap"@) {
        r matches Some(ProjectedVolumeSource::ConfigMap { name, items, optional }) && name@
            == text_or(text(field(c, "name"@)), Seq::empty()) && kept(
            array_items(field(c, "items"@)),
            items@,
            key_to_path_rel(),
        ) && optional == (boolean(field(c, "optional"@)) == Some(true))
    } else if let Some(c) = field(v, "secret"@) {
        r matches Some(ProjectedVolumeSource::Secret { name, items, optional }) && name@ == text_or(
            text(field(c, "name"@)),
            Seq::empty(),
        ) && kept(array_items(field(c, "items"@)), items@, key_to_path_rel()) && optional == (
        boolean(field(c, "optional"@)) == Some(true))
    } else if let Some(d) = field(v, "downwardAPI"@) {
        r matches Some(ProjectedVolumeSource::DownwardAPI { items }) && kept(
            array_items(field(d, "items"@)),
            items@,
            downward_file_rel(),
        )
    } else {
        r is None
    }
}

pub open spec fn projected_rel() -> spec_fn(JsonValue, Option<ProjectedVolumeSource>) -> bool {
    |v: JsonValue, r: Option<ProjectedVolumeSource>| projected_from(v, r)
}

fn parse_projected_source(v: &JsonValue) -> (r: Option<ProjectedVolumeSource>)
    ensures
        projected_from(*v, r),
{
    proof {
        reveal_strlit("");
        assert(""@ =~= Seq::<char>::empty());
    }
    if let Some(t) = v.get("serviceAccountToken") {
        match get_text(t, "path") {
            Some(path) => Some(
                ProjectedVolumeSource::ServiceAccountToken {
                    audience: get_text(t, "audience"),
                    expiration_seconds: get_u64(t, "expirationSeconds"),
                    path,
                },
            ),
            None => None,
        }
    } else if let Some(c) = v.get("configMap") {
        Some(
            ProjectedVolumeSource::ConfigMap {
                name: get_text_or(c, "name", ""),
                items: parse_key_to_paths(c, "items"),
                optional: get_flag(c, "optional"),
            },
        )
    } else if let Some(c) = v.get("secret") {
        Some(
            ProjectedVolumeSource::Secret {
                name: get_text_or(c, "name", ""),
                items: parse_key_to_paths(c, "items"),
                optional: get_flag(c, "optional"),
            },
        )
    } else if let Some(d) = v.get("downwardAPI") {
        Some(ProjectedVolumeSource::DownwardAPI { items: parse_downward_api_items(d, "items") })
    } else {
        None
    }
}

/// The sources that the member `k` of `v` projects into one volume.
pub fn parse_projected_sources(v: &JsonValue, k: &str) -> (r: Vec<ProjectedVolumeSource>)
    ensures
        kept(array_items(field(*v, k@)), r@, projected_rel()),
{
    match get_array(v, k) {
        Some(items) => collect_some(items, parse_projected_source, Ghost(projected_rel())),
        None => Vec::new(),
    }
}

/// The source of a volume: the first of the kinds that is present, where it
/// has what it requires.
pub open spec fn volume_source_is(v: JsonValue, r: Option<VolumeSource>) -> bool {
    if let Some(h) = field(v, "hostPath"@) {
        match text(field(h, "path"@)) {
            Some(p) => r matches Some(VolumeSource::HostPath { path, path_type }) && path@ == p
                && opt_text(path_type) == text(field(h, "type"@)),
            None => r is None,
        }
    } else if let Some(e) = field(v, "emptyDir"@) {
        r matches Some(VolumeSource::EmptyDir { medium, size_limit }) && opt_text(medium) == text(
            field(e, "medium"@),
        ) && size_limit is None
    } else if let Some(c) = field(v, "configMap"@) {
        r matches Some(VolumeSource::ConfigMap { name, items, optional, default_mode }) && name@
            == text_or(text(field(c, "name"@)), Seq::empty()) && kept(
            array_items(field(c, "items"@)),
            items@,
            key_to_path_rel(),
        ) && optional == (boolean(field(c, "optional"@)) == Some(true)) && default_mode == opt_i32(
            signed(field(c, "defaultMode"@)),
        )
    } else if let Some(c) = field(v, "secret"@) {
        r matches Some(VolumeSource::Secret { secret_name, items, optional, default_mode })
            && secret_name@ == text_or(text(field(c, "secretName"@)), Seq::empty()) && kept(
            array_items(field(c, "items"@)),
            items@,
            key_to_path_rel(),
        ) && optional == (boolean(field(c, "optional"@)) == Some(true)) && default_mode == opt_i32(
            signed(field(c, "defaultMode"@)),
        )
    } else if let Some(c) = field(v, "persistentVolumeClaim"@) {
        match text(field(c, "claimName"@)) {
            Some(n) => r matches Some(VolumeSource::PersistentVolumeClaim { claim_name, read_only })
                && claim_name@ == n && read_only == (boolean(field(c, "readOnly"@)) == Some(true)),
            None => r is None,
        }
    } else if let Some(c) = field(v, "projected"@) {
        r matches Some(VolumeSource::Projected { sources, default_mode }) && kept(
            array_items(field(c, "sources"@)),
            sources@,
            projected_rel(),
        ) && default_mode == opt_i32(signed(field(c, "defaultMode"@)))
    } else if let Some(c) = field(v, "downwardAPI"@) {
        r matches Some(VolumeSource::DownwardAPI { items, default_mode }) && kept(
            array_items(field(c, "items"@)),
            items@,
            downward_file_rel(),
        ) && default_mode == opt_i32(signed(field(c, "defaultMode"@)))
    } else if let Some(c) = field(v, "nfs"@) {
        match (text(field(c, "server"@)), text(field(c, "path"@))) {
            (Some(s), Some(p)) => r matches Some(VolumeSource::NFS { server, path, read_only })
                && server@ == s && path@ == p && read_only == (boolean(field(c, "readOnly"@))
                == Some(true)),
            _ => r is None,
        }
    } else {
        r is None
    }
}

fn parse_volume_source(v: &JsonValue) -> (r: Option<VolumeSource>)
    ensures
        volume_source_is(*v, r),
{
    proof {
        reveal_strlit("");
        assert(""@ =~= Seq::<char>::empty());
    }
    if let Some(h) = v.get("hostPath") {
        match get_text(h, "path") {
            Some(path) => Some(VolumeSource::HostPath { path, path_type: get_text(h, "type") }),
            None => None,
        }
    } else if let Some(e) = v.get("emptyDir") {
        Some(VolumeSource::EmptyDir { medium: get_text(e, "medium"), size_limit: None })
    } else if let Some(c) = v.get("configMap") {
        Some(
            VolumeSource::ConfigMap {
                name: get_text_or(c, "name", ""),
                items: parse_key_to_paths(c, "items"),
                optional: get_flag(c, "optional"),
                default_mode: get_i32(c, "defaultMode"),
            },
        )
    } else if let Some(c) = v.get("secret") {
        Some(
            VolumeSource::Secret {
                secret_name: get_text_or(c, "secretName", ""),
                items: parse_key_to_paths(c, "items"),
                optional: get_flag(c, "optional"),
                default_mode: get_i32(c, "defaultMode"),
            },
        )
    } else if let Some(c) = v.get("persistentVolumeClaim") {
        match get_text(c, "claimName") {
            Some(claim_name) => Some(
                VolumeSource::PersistentVolumeClaim {
                    claim_name,
                    read_only: get_flag(c, "readOnly"),
                },
            ),
            None => None,
        }
    } else if let Some(c) = v.get("projected") {
        Some(
            VolumeSource::Projected {
                sources: parse_projected_sources(c, "sources"),
                default_mode: get_i32(c, "defaultMode"),
            },
        )
    } else if let Some(c) = v.get("downwardAPI") {
        Some(
            VolumeSource::DownwardAPI {
                items: parse_downward_api_items(c, "items"),
                default_mode: get_i32(c, "defaultMode"),
            },
        )
    } else if let Some(c) = v.get("nfs") {
        match (get_text(c, "server"), get_text(c, "path")) {
            (Some(server), Some(path)) => Some(
                VolumeSource::NFS { server, path, read_only: get_flag(c, "readOnly") },
            ),
            _ => None,
        }
    } else {
        None
    }
}

/// A volume: it needs a name and a source.
pub open spec fn volume_from(v: JsonValue, r: Option<VolumeSpec>) -> bool {
    match text(field(v, "name"@)) {
        Some(n) => match r {
            Some(x) => x.name@ == n && volume_source_is(v, Some(x.source)),
            None => volume_source_is(v, None),
        },
        None => r is None,
    }
}

pub open spec fn volume_rel() -> spec_fn(JsonValue, Option<VolumeSpec>) -> bool {
    |v: JsonValue, r: Option<VolumeSpec>| volume_from(v, r)
}

fn parse_volume(v: &JsonValue) -> (r: Option<VolumeSpec>)
    ensures
        volume_from(*v, r),
{
    match get_text(v, "name") {
        Some(name) => match parse_volume_source(v) {
            Some(source) => Some(VolumeSpec { name, source }),
            None => None,
        },
        None => None,
    }
}

/// The volumes of a pod.
pub fn parse_volumes(spec: &JsonValue) -> (r: Vec<VolumeSpec>)
    ensures
        kept(array_items(field(*spec, "volumes"@)), r@, volume_rel()),
{
    match get_array(spec, "volumes") {
        Some(items) => collect_some(items, parse_volume, Ghost(volume_rel())),
        None => Vec::new(),
    }
}

// ---------------------------------------------------------------------------
// Resources
// ---------------------------------------------------------------------------

/// The quantity of a resource; entries that are no quantities are left out.
pub open spec fn quantity_rel() -> spec_fn(Seq<char>, JsonValue, Option<ResourceQuantity>) -> bool {
    |k: Seq<char>, v: JsonValue, r: Option<ResourceQuantity>|
        r == match text(Some(v)) {
            Some(t) => k8s_quantity_for_key(k, t),
            None => None,
        }
}

fn quantity_value(k: &String, v: &JsonValue) -> (r: Option<ResourceQuantity>)
    ensures
        r == match text(Some(*v)) {
            Some(t) => k8s_quantity_for_key(k@, t),
            None => None,
        },
{
    match v.as_str() {
        Some(s) => parse_k8s_quantity_for_key(k.as_str(), s.as_str()),
        None => None,
    }
}

/// `out` holds the quantities among the members of the object `v`.
pub open spec fn quantities_are(
    v: Option<JsonValue>,
    out: Map<Seq<char>, ResourceQuantity>,
) -> bool {
    match v {
        Some(JsonValue::Object(m)) => map_kept(m@, out, quantity_rel()),
        _ => out == Map::<Seq<char>, ResourceQuantity>::empty(),
    }
}

fn parse_quantities(v: &JsonValue, k: &str) -> (r: StrMap<ResourceQuantity>)
    ensures
        quantities_are(field(*v, k@), r@),
{
    match v.get(k) {
        Some(x) => match x.as_object() {
            Some(m) => collect_entries(m, quantity_value, Ghost(quantity_rel())),
            None => StrMap::new(),
        },
        None => StrMap::new(),
    }
}

pub open spec fn requirements_are(v: Option<JsonValue>, r: ResourceRequirements) -> bool {
    &&& quantities_are(opt_field(v, "requests"@), r.requests@)
    &&& quantities_are(opt_field(v, "limits"@), r.limits@)
}

/// The requests and limits of a container.
pub fn parse_resource_requirements(res: Option<&JsonValue>) -> (r: ResourceRequirements)
    ensures
        requirements_are(opt_deref(res), r),
{
    match res {
        Some(v) => ResourceRequirements {
            requests: parse_quantities(v, "requests"),
            limits: parse_quantities(v, "limits"),
        },
        None => ResourceRequirements { requests: StrMap::new(), limits: StrMap::new() },
    }
}

// ---------------------------------------------------------------------------
// Containers
// ---------------------------------------------------------------------------

/// The restart policy of a single container: none where it names none.
pub open spec fn container_restart_of(t: Option<Seq<char>>) -> Option<RestartPolicy> {
    match t {
        Some(_) => Some(restart_policy_of(t)),
        None => None,
    }
}

pub open spec fn container_parts_are(c: JsonValue, x: ContainerSpec) -> bool {
    &&& texts(x.command@) == texts_in(array_items(field(c, "command"@)))
    &&& texts(x.args@) == texts_in(array_items(field(c, "args"@)))
    &&& opt_text(x.working_dir) == text(field(c, "workingDir"@))
    &&& kept(array_items(field(c, "ports"@)), x.ports@, port_rel())
    &&& kept(array_items(field(c, "env"@)), x.env@, env_var_rel())
    &&& requirements_are(field(c, "resources"@), x.resources)
    &&& kept(array_items(field(c, "volumeMounts"@)), x.volume_mounts@, volume_mount_rel())
    &&& probe_is(field(c, "livenessProbe"@), x.ports@, x.liveness_probe)
    &&& probe_is(field(c, "readinessProbe"@), x.ports@, x.readiness_probe)
    &&& probe_is(field(c, "startupProbe"@), x.ports@, x.startup_probe)
    &&& x.image_pull_policy == pull_policy_of(text(field(c, "imagePullPolicy"@)))
    &&& match (field(c, "securityContext"@), x.security_context) {
        (Some(v), Some(s)) => container_security_is(v, s),
        (None, None) => true,
        _ => false,
    }
    &&& opt_text(x.termination_message_path) == text(field(c, "terminationMessagePath"@))
    &&& opt_text(x.termination_message_policy) == text(field(c, "terminationMessagePolicy"@))
    &&& x.lifecycle is None
    &&& mapped(array_items(field(c, "envFrom"@)), x.env_from@, env_from_rel())
    &&& x.stdin is None && x.stdin_once is None && x.tty is None
    &&& x.restart_policy == container_restart_of(text(field(c, "restartPolicy"@)))
}

/// A container: it needs a name and an image.
pub open spec fn container_from(c: JsonValue, r: Option<ContainerSpec>) -> bool {
    match (text(field(c, "name"@)), text(field(c, "image"@))) {
        (Some(n), Some(i)) => r matches Some(x) && x.name@ == n && x.image@ == i
            && container_parts_are(c, x),
        _ => r is None,
    }
}

pub open spec fn container_rel() -> spec_fn(JsonValue, Option<ContainerSpec>) -> bool {
    |c: JsonValue, r: Option<ContainerSpec>| container_from(c, r)
}

/// Reads a container.
pub fn build_container_spec(c: &JsonValue) -> (r: Option<ContainerSpec>)
    ensures
        container_from(*c, r),
{
    let name = match get_text(c, "name") {
        Some(n) => n,
        None => {
            return None;
        },
    };
    let image = match get_text(c, "image") {
        Some(n) => n,
        None => {
            return None;
        },
    };
    let ports = parse_container_ports(c);
    let liveness_probe = parse_probe(c.get("livenessProbe"), &ports);
    let readiness_probe = parse_probe(c.get("readinessProbe"), &ports);
    let startup_probe = parse_probe(c.get("startupProbe"), &ports);
    let restart = get_text(c, "restartPolicy");
    let restart_policy = if restart.is_some() {
        Some(parse_restart_policy(&restart))
    } else {
        None
    };
    Some(
        ContainerSpec {
            name,
            image,
            command: parse_strings(c, "command"),
            args: parse_strings(c, "args"),
            working_dir: get_text(c, "workingDir"),
            ports,
            env: parse_env_vars(c),
            resources: parse_resource_requirements(c.get("resources")),
            volume_mounts: parse_volume_mounts(c),
            liveness_probe,
            readiness_probe,
            startup_probe,
            image_pull_policy: parse_pull_policy(&get_text(c, "imagePullPolicy")),
            security_context: parse_container_security_context(c.get("securityContext")),
            termination_message_path: get_text(c, "terminationMessagePath"),
            termination_message_policy: get_text(c, "terminationMessagePolicy"),
            lifecycle: None,
            env_from: parse_env_from(c),
            stdin: None,
            stdin_once: None,
            tty: None,
            restart_policy,
        },
    )
}

fn parse_containers(spec: &JsonValue, k: &str) -> (r: Vec<ContainerSpec>)
    ensures
        kept(array_items(field(*spec, k@)), r@, container_rel()),
{
    match get_array(spec, k) {
        Some(items) => collect_some(items, build_container_spec, Ghost(container_rel())),
        None => Vec::new(),
    }
}

// ---------------------------------------------------------------------------
// Pods
// ---------------------------------------------------------------------------

/// A claim on a resource: it needs a name.
pub open spec fn claim_from(v: JsonValue, r: Option<ResourceClaimRef>) -> bool {
    match text(field(v, "name"@)) {
        Some(n) => r matches Some(x) && x.name@ == n && opt_text(x.resource_class_name) == text(
            field(v, "resourceClassName"@),
        ) && x.allocated == (boolean(field(v, "allocated"@)) == Some(true)) && x.prepared == (
        boolean(field(v, "prepared"@)) == Some(true)),
        None => r is None,
    }
}

pub open spec fn claim_rel() -> spec_fn(JsonValue, Option<ResourceClaimRef>) -> bool {
    |v: JsonValue, r: Option<ResourceClaimRef>| claim_from(v, r)
}

fn parse_claim(v: &JsonValue) -> (r: Option<ResourceClaimRef>)
    ensures
        claim_from(*v, r),
{
    match get_text(v, "name") {
        Some(name) => Some(
            ResourceClaimRef {
                name,
                resource_class_name: get_text(v, "resourceClassName"),
                allocated: get_flag(v, "allocated"),
                prepared: get_flag(v, "prepared"),
            },
        ),
        None => None,
    }
}

/// A reference to an image pull secret: it needs a name.
pub open spec fn secret_ref_from(v: JsonValue, r: Option<LocalObjectReference>) -> bool {
    match text(field(v, "name"@)) {
        Some(n) => r matches Some(x) && x.name@ == n,
        None => r is None,
    }
}

pub open spec fn secret_ref_rel() -> spec_fn(JsonValue, Option<LocalObjectReference>) -> bool {
    |v: JsonValue, r: Option<LocalObjectReference>| secret_ref_from(v, r)
}

fn parse_secret_ref(v: &JsonValue) -> (r: Option<LocalObjectReference>)
    ensures
        secret_ref_from(*v, r),
{
    match get_text(v, "name") {
        Some(name) => Some(LocalObjectReference { name }),
        None => None,
    }
}

/// An entry for the hosts file: it needs an address.
pub open spec fn host_alias_from(v: JsonValue, r: Option<HostAlias>) -> bool {
    match text(field(v, "ip"@)) {
        Some(n) => r matches Some(x) && x.ip@ == n && texts(x.hostnames@) == texts_in(
            array_items(field(v, "hostnames"@)),
        ),
        None => r is None,
    }
}

pub open spec fn host_alias_rel() -> spec_fn(JsonValue, Option<HostAlias>) -> bool {
    |v: JsonValue, r: Option<HostAlias>| host_alias_from(v, r)
}

fn parse_host_alias(v: &JsonValue) -> (r: Option<HostAlias>)
    ensures
        host_alias_from(*v, r),
{
    match get_text(v, "ip") {
        Some(ip) => Some(HostAlias { ip, hostnames: parse_strings(v, "hostnames") }),
        None => None,
    }
}

/// An option of the resolver: it needs a name.
pub open spec fn dns_option_from(v: JsonValue, r: Option<DnsOption>) -> bool {
    match text(field(v, "name"@)) {
        Some(n) => r matches Some(x) && x.name@ == n && opt_text(x.value) == text(
            field(v, "value"@),
        ),
        None => r is None,
    }
}

pub open spec fn dns_option_rel() -> spec_fn(JsonValue, Option<DnsOption>) -> bool {
    |v: JsonValue, r: Option<DnsOption>| dns_option_from(v, r)
}

fn parse_dns_option(v: &JsonValue) -> (r: Option<DnsOption>)
    ensures
        dns_option_from(*v, r),
{
    match get_text(v, "name") {
        Some(name) => Some(DnsOption { name, value: get_text(v, "value") }),
        None => None,
    }
}

/// The DNS policy that a pod names, where it is not the policy that holds
/// anyway.
pub open spec fn named_dns_policy(t: Option<Seq<char>>) -> Option<DnsPolicy> {
    if t == Some("Default"@) {
        Some(DnsPolicy::Default)
    } else if t == Some("None"@) {
        Some(DnsPolicy::NonePolicy)
    } else if t == Some("ClusterFirstWithHostNet"@) {
        Some(DnsPolicy::ClusterFirstWithHostNet)
    } else {
        None
    }
}

/// Reads the DNS policy that a pod names.
pub fn parse_dns_policy(t: &Option<String>) -> (r: Option<DnsPolicy>)
    ensures
        r == named_dns_policy(opt_text(*t)),
{
    if opt_same(t, "Default") {
        Some(DnsPolicy::Default)
    } else if opt_same(t, "None") {
        Some(DnsPolicy::NonePolicy)
    } else if opt_same(t, "ClusterFirstWithHostNet") {
        Some(DnsPolicy::ClusterFirstWithHostNet)
    } else {
        None
    }
}

/// The DNS settings of a pod: none under the policy that holds anyway.
pub open spec fn dns_is(spec: JsonValue, r: Option<DnsConfig>) -> bool {
    let overrides = field(spec, "dnsConfig"@);
    match named_dns_policy(text(field(spec, "dnsPolicy"@))) {
        Some(p) => r matches Some(x) && x.policy == p && texts(x.nameservers@) == texts_in(
            array_items(opt_field(overrides, "nameservers"@)),
        ) && texts(x.searches@) == texts_in(array_items(opt_field(overrides, "searches"@))) && kept(
            array_items(opt_field(overrides, "options"@)),
            x.options@,
            dns_option_rel(),
        ),
        None => r is None,
    }
}

fn parse_dns(spec: &JsonValue) -> (r: Option<DnsConfig>)
    ensures
        dns_is(*spec, r),
{
    match parse_dns_policy(&get_text(spec, "dnsPolicy")) {
        Some(policy) => match spec.get("dnsConfig") {
            Some(d) => Some(
                DnsConfig {
                    policy,
                    nameservers: parse_strings(d, "nameservers"),
                    searches: parse_strings(d, "searches"),
                    options: match get_array(d, "options") {
                        Some(items) => collect_some(
                            items,
                            parse_dns_option,
                            Ghost(dns_option_rel()),
                        ),
                        None => Vec::new(),
                    },
                },
            ),
            None => {
                let nameservers: Vec<String> = Vec::new();
                let searches: Vec<String> = Vec::new();
                assert(texts(nameservers@) =~= Seq::<Seq<char>>::empty());
                assert(texts(searches@) =~= Seq::<Seq<char>>::empty());
                Some(DnsConfig { policy, nameservers, searches, options: Vec::new() })
            },
        },
        None => None,
    }
}

/// Everything of a pod but its name and identifier.
pub open spec fn pod_parts_are(
    meta: JsonValue,
    spec: JsonValue,
    node_name: Seq<char>,
    p: PodSpec,
) -> bool {
    &&& p.pod_ref.namespace@ == text_or(text(field(meta, "namespace"@)), "default"@)
    &&& kept(array_items(field(spec, "containers"@)), p.containers@, container_rel())
    &&& kept(array_items(field(spec, "initContainers"@)), p.init_containers@, container_rel())
    &&& p.ephemeral_containers@.len() == 0
    &&& kept(array_items(field(spec, "volumes"@)), p.volumes@, volume_rel())
    &&& p.node_name@ == text_or(text(field(spec, "nodeName"@)), node_name)
    &&& p.host_network == (boolean(field(spec, "hostNetwork"@)) == Some(true))
    &&& p.host_pid == (boolean(field(spec, "hostPID"@)) == Some(true))
    &&& p.host_ipc == (boolean(field(spec, "hostIPC"@)) == Some(true))
    &&& dns_is(spec, p.dns_config)
    &&& p.restart_policy == restart_policy_of(text(field(spec, "restartPolicy"@)))
    &&& p.termination_grace_period_seconds == unsigned_or(
        unsigned(field(spec, "terminationGracePeriodSeconds"@)),
        30,
    )
    &&& p.service_account_name@ == text_or(text(field(spec, "serviceAccountName"@)), "default"@)
    &&& p.priority is None
    &&& p.tolerations@.len() == 0
    &&& p.node_selector@ == Map::<Seq<char>, String>::empty()
    &&& labels_are(field(meta, "annotations"@), p.annotations@)
    &&& labels_are(field(meta, "labels"@), p.labels@)
    &&& opt_text(p.runtime_class_name) == text(field(spec, "runtimeClassName"@))
    &&& match (field(spec, "securityContext"@), p.security_context) {
        (Some(v), Some(s)) => pod_security_is(v, s),
        (None, None) => true,
        _ => false,
    }
    &&& p.readiness_gates@.len() == 0
    &&& p.active_deadline_seconds == unsigned(field(spec, "activeDeadlineSeconds"@))
    &&& p.automount_service_account_token == boolean(field(spec, "automountServiceAccountToken"@))
    &&& kept(
        array_items(field(spec, "imagePullSecrets"@)),
        p.image_pull_secrets@,
        secret_ref_rel(),
    )
    &&& p.enable_service_links == boolean(field(spec, "enableServiceLinks"@))
    &&& p.share_process_namespace == boolean(field(spec, "shareProcessNamespace"@))
    &&& kept(array_items(field(spec, "resourceClaims"@)), p.resource_claims@, claim_rel())
    &&& kept(array_items(field(spec, "hostAliases"@)), p.host_aliases@, host_alias_rel())
    &&& opt_text(p.hostname) == nonempty(text(field(spec, "hostname"@)))
    &&& opt_text(p.subdomain) == nonempty(text(field(spec, "subdomain"@)))
    &&& p.observed_start_time is None
    &&& p.generation is None
}

/// A pod: it needs metadata with a name and an identifier, and a specification
/// with a list of containers.
pub open spec fn pod_from(map: JsonValue, node_name: Seq<char>, r: Option<PodSpec>) -> bool {
    match (field(map, "metadata"@), field(map, "spec"@)) {
        (Some(meta), Some(spec)) => match (
            text(field(meta, "name"@)),
            text(field(meta, "uid"@)),
            field(spec, "containers"@),
        ) {
            (Some(name), Some(uid), Some(JsonValue::Array(_))) => r matches Some(p)
                && p.pod_ref.name@ == name && p.uid.0@ == uid && pod_parts_are(
                meta,
                spec,
                node_name,
                p,
            ),
            _ => r is None,
        },
        _ => r is None,
    }
}

/// Converts a pod object to a pod. The node defaults to `node_name`.
#[verifier::rlimit(40)]
pub fn pod_spec_from_map(map: &JsonValue, node_name: &str) -> (r: Option<PodSpec>)
    ensures
        pod_from(*map, node_name@, r),
{
    let meta = match map.get("metadata") {
        Some(m) => m,
        None => {
            return None;
        },
    };
    let spec = match map.get("spec") {
        Some(s) => s,
        None => {
            return None;
        },
    };
    let name = match get_text(meta, "name") {
        Some(n) => n,
        None => {
            return None;
        },
    };
    let uid = match get_text(meta, "uid") {
        Some(u) => u,
        None => {
            return None;
        },
    };
    if get_array(spec, "containers").is_none() {
        return None;
    }
    let namespace = get_text_or(meta, "namespace", "default");
    let resource_claims = match get_array(spec, "resourceClaims") {
        Some(items) => collect_some(items, parse_claim, Ghost(claim_rel())),
        None => Vec::new(),
    };
    let image_pull_secrets = match get_array(spec, "imagePullSecrets") {
        Some(items) => collect_some(items, parse_secret_ref, Ghost(secret_ref_rel())),
        None => Vec::new(),
    };
    let host_aliases = match get_array(spec, "hostAliases") {
        Some(items) => collect_some(items, parse_host_alias, Ghost(host_alias_rel())),
        None => Vec::new(),
    };
    Some(
        PodSpec {
            uid: PodUID(uid),
            pod_ref: PodRef { namespace, name },
            containers: parse_containers(spec, "containers"),
            init_containers: parse_containers(spec, "initContainers"),
            ephemeral_containers: Vec::new(),
            volumes: parse_volumes(spec),
            node_name: get_text_or(spec, "nodeName", node_name),
            host_network: get_flag(spec, "hostNetwork"),
            host_pid: get_flag(spec, "hostPID"),
            host_ipc: get_flag(spec, "hostIPC"),
            dns_config: parse_dns(spec),
            restart_policy: parse_restart_policy(&get_text(spec, "restartPolicy")),
            termination_grace_period_seconds: get_u64_or(spec, "terminationGracePeriodSeconds", 30),
            service_account_name: get_text_or(spec, "serviceAccountName", "default"),
            priority: None,
            tolerations: Vec::new(),
            node_selector: StrMap::new(),
            annotations: parse_labels(meta, "annotations"),
            labels: parse_labels(meta, "labels"),
            runtime_class_name: get_text(spec, "runtimeClassName"),
            security_context: parse_pod_security_context(spec.get("securityContext")),
            readiness_gates: Vec::new(),
            active_deadline_seconds: get_u64(spec, "activeDeadlineSeconds"),
            automount_service_account_token: get_bool(spec, "automountServiceAccountToken"),
            image_pull_secrets,
            enable_service_links: get_bool(spec, "enableServiceLinks"),
            share_process_namespace: get_bool(spec, "shareProcessNamespace"),
            resource_claims,
            host_aliases,
            hostname: keep_nonempty(get_text(spec, "hostname")),
            subdomain: keep_nonempty(get_text(spec, "subdomain")),
            observed_start_time: None,
            generation: None,
        },
    )
}

// ---------------------------------------------------------------------------
// Pod sources and reporters without a cluster
// ---------------------------------------------------------------------------

/// A pod source that announces a fixed list of pods.
#[derive(Debug)]
pub struct SimulatedApiPodSource {
    pub node_name: String,
    pub initial_pods: Vec<PodSpec>,
    pub poll_interval_ms: u64,
}

impl SimulatedApiPodSource {
    pub fn new(node_name: &str, initial_pods: Vec<PodSpec>, poll_interval_ms: u64) -> (r: Self)
        ensures
            r.node_name@ == node_name@,
            r.initial_pods == initial_pods,
            r.poll_interval_ms == poll_interval_ms,
    {
        SimulatedApiPodSource { node_name: node_name.to_owned(), initial_pods, poll_interval_ms }
    }

    /// The name under which the source is known.
    pub fn name(&self) -> (r: &'static str)
        ensures
            r@ == "api"@,
    {
        "api"
    }

    /// What is asked for every pod of the list in a round of announcements:
    /// the first round adds the pods, each later one reconciles them.
    pub fn operation(&self, first_round: bool) -> (r: PodOperation)
        ensures
            r == if first_round {
                PodOperation::Add
            } else {
                PodOperation::Reconcile
            },
    {
        if first_round {
            PodOperation::Add
        } else {
            PodOperation::Reconcile
        }
    }
}

/// A node reporter that only logs.
#[derive(Debug)]
pub struct LoggingNodeReporter {
    pub node_name: String,
}

impl Default for LoggingNodeReporter {
    fn default() -> (r: Self)
        ensures
            r.node_name@.len() == 0,
    {
        LoggingNodeReporter { node_name: String::new() }
    }
}

impl LoggingNodeReporter {
    pub fn new(node_name: &str) -> (r: Self)
        ensures
            r.node_name@ == node_name@,
    {
        LoggingNodeReporter { node_name: node_name.to_owned() }
    }
}

// ---------------------------------------------------------------------------
// Laws
// ---------------------------------------------------------------------------

/// Policies and protocols are read by their own names; a text that names none,
/// or no text at all, gives the default.
pub proof fn law_policies_are_read_by_name(t: Option<Seq<char>>)
    ensures
        pull_policy_of(t) is Always <==> t == Some("Always"@),
        pull_policy_of(t) is Never <==> t == Some("Never"@),
        t == Some("IfNotPresent"@) || t is None ==> pull_policy_of(t) is IfNotPresent,
        restart_policy_of(t) is Never <==> t == Some("Never"@),
        restart_policy_of(t) is OnFailure <==> t == Some("OnFailure"@),
        t == Some("Always"@) || t is None ==> restart_policy_of(t) is Always,
        protocol_of(t) is UDP <==> t == Some("UDP"@),
        protocol_of(t) is SCTP <==> t == Some("SCTP"@),
        t == Some("TCP"@) || t is None ==> protocol_of(t) is TCP,
        named_dns_policy(t) == Some(DnsPolicy::Default) <==> t == Some("Default"@),
        named_dns_policy(t) == Some(DnsPolicy::NonePolicy) <==> t == Some("None"@),
        named_dns_policy(t) == Some(DnsPolicy::ClusterFirstWithHostNet) <==> t == Some(
            "ClusterFirstWithHostNet"@,
        ),
{
    reveal_strlit("Always");
    reveal_strlit("Never");
    reveal_strlit("IfNotPresent");
    reveal_strlit("OnFailure");
    reveal_strlit("TCP");
    reveal_strlit("UDP");
    reveal_strlit("SCTP");
    reveal_strlit("Default");
    reveal_strlit("None");
    reveal_strlit("ClusterFirstWithHostNet");
    assert("Always"@.len() == 6 && "Never"@.len() == 5 && "IfNotPresent"@.len() == 12
        && "OnFailure"@.len() == 9);
    assert("TCP"@[0] == 'T' && "UDP"@[0] == 'U' && "SCTP"@[0] == 'S');
    assert("Default"@.len() == 7 && "None"@.len() == 4 && "ClusterFirstWithHostNet"@.len() == 23);
}

/// Requests are read as requests and limits as limits: each quantity that can
/// be read stands under its own key, and nothing else does.
pub proof fn law_requirements_keep_apart(
    v: JsonValue,
    r: ResourceRequirements,
    requests: StrMap<JsonValue>,
    limits: StrMap<JsonValue>,
    k: Seq<char>,
)
    requires
        requirements_are(Some(v), r),
    ensures
        field(v, "requests"@) == Some(JsonValue::Object(requests)) ==> {
            &&& r.requests@.contains_key(k) ==> requests@.contains_key(k)
            &&& requests@.contains_key(k) ==> (text(Some(requests@[k])) matches Some(t) ==> lookup(
                r.requests@,
                k,
            ) == k8s_quantity_for_key(k, t))
        },
        field(v, "limits"@) == Some(JsonValue::Object(limits)) ==> {
            &&& r.limits@.contains_key(k) ==> limits@.contains_key(k)
            &&& limits@.contains_key(k) ==> (text(Some(limits@[k])) matches Some(t) ==> lookup(
                r.limits@,
                k,
            ) == k8s_quantity_for_key(k, t))
        },
        field(v, "requests"@) is None ==> !r.requests@.contains_key(k),
        field(v, "limits"@) is None ==> !r.limits@.contains_key(k),
{
    if field(v, "requests"@) == Some(JsonValue::Object(requests)) && requests@.contains_key(k) {
        assert(quantity_rel()(k, requests@[k], lookup(r.requests@, k)));
    }
    if field(v, "limits"@) == Some(JsonValue::Object(limits)) && limits@.contains_key(k) {
        assert(quantity_rel()(k, limits@[k], lookup(r.limits@, k)));
    }
}

/// A variable is read with its own name and value.
pub proof fn law_variables_are_read_by_name_and_value(e: JsonValue, r: Option<EnvVar>)
    requires
        env_var_from(e, r),
    ensures
        text(field(e, "name"@)) is None ==> r is None,
        text(field(e, "name"@)) is Some && field(e, "valueFrom"@) is None ==> r is Some,
        r matches Some(x) ==> {
            &&& Some(x.name@) == text(field(e, "name"@))
            &&& text(field(e, "value"@)) is Some ==> x.value is Some && Some(x.value->0@) == text(
                field(e, "value"@),
            )
            &&& text(field(e, "value"@)) is None ==> x.value is None
            &&& field(e, "valueFrom"@) is None ==> x.value_from is None
        },
{
}

/// Each variable of a container that has a name and a plain value is among
/// those that are read.
pub proof fn law_no_variable_is_lost(items: Seq<JsonValue>, out: Seq<EnvVar>, i: int)
    requires
        kept(items, out, env_var_rel()),
        0 <= i < items.len(),
        text(field(items[i], "name"@)) is Some,
        text(field(items[i], "value"@)) is Some,
        field(items[i], "valueFrom"@) is None,
    ensures
        exists|k: int|
            0 <= k < out.len() && Some((#[trigger] out[k]).name@) == text(
                field(items[i], "name"@),
            ) && out[k].value is Some && Some(out[k].value->0@) == text(field(items[i], "value"@)),
{
    lemma_kept_has(items, out, env_var_rel(), i);
    let k = choose|k: int| 0 <= k < out.len() && env_var_rel()(items[i], Some(#[trigger] out[k]));
    assert(env_var_from(items[i], Some(out[k])));
    assert(Some(out[k].name@) == text(field(items[i], "name"@)));
}

/// The source of a variable is read as what it is, with its own parts.
pub proof fn law_sources_of_variables_keep_their_kind(vf: JsonValue, r: Option<EnvVarSource>)
    requires
        env_source_is(vf, r),
    ensures
        field(vf, "fieldRef"@) matches Some(f) ==> r matches Some(
            EnvVarSource::FieldRef { field_path },
        ) && Some(field_path@) == text(field(f, "fieldPath"@)),
        field(vf, "fieldRef"@) is None ==> (field(vf, "resourceFieldRef"@) matches Some(f)
            ==> r matches Some(EnvVarSource::ResourceFieldRef { resource, .. }) && Some(resource@)
            == text(field(f, "resource"@))),
        field(vf, "fieldRef"@) is None && field(vf, "resourceFieldRef"@) is None ==> (
        field(vf, "configMapKeyRef"@) matches Some(f) ==> r matches Some(
            EnvVarSource::ConfigMapKeyRef { name, key, optional },
        ) && Some(name@) == text(field(f, "name"@)) && Some(key@) == text(field(f, "key"@)) && (
        optional <==> boolean(field(f, "optional"@)) == Some(true))),
        field(vf, "fieldRef"@) is None && field(vf, "resourceFieldRef"@) is None && field(
            vf,
            "configMapKeyRef"@,
        ) is None ==> (field(vf, "secretKeyRef"@) matches Some(f) ==> r matches Some(
            EnvVarSource::SecretKeyRef { name, key, optional },
        ) && Some(name@) == text(field(f, "name"@)) && Some(key@) == text(field(f, "key"@)) && (
        optional <==> boolean(field(f, "optional"@)) == Some(true))),
{
}

/// A whole config map is read as config map and a whole secret as secret, each
/// with its own name.
pub proof fn law_whole_sources_keep_their_kind(e: JsonValue, r: EnvFromSource)
    requires
        env_from_is(e, r),
    ensures
        opt_text(r.prefix) == text(field(e, "prefix"@)),
        field(e, "configMapRef"@) is None ==> r.config_map_ref is None,
        field(e, "secretRef"@) is None ==> r.secret_ref is None,
        field(e, "configMapRef"@) matches Some(c) ==> (text(field(c, "name"@)) is Some
            ==> r.config_map_ref is Some && Some(r.config_map_ref->0.name@) == text(
            field(c, "name"@),
        )),
        field(e, "secretRef"@) matches Some(c) ==> (text(field(c, "name"@)) is Some
            ==> r.secret_ref is Some && Some(r.secret_ref->0.name@) == text(field(c, "name"@))),
{
}

/// A port is read with its number, its host port and its protocol.
pub proof fn law_ports_are_read(p: JsonValue, r: Option<ContainerPort>)
    requires
        port_from(p, r),
    ensures
        r is Some <==> unsigned(field(p, "containerPort"@)) is Some,
        r matches Some(x) ==> {
            &&& unsigned(field(p, "containerPort"@))->0 <= u16::MAX ==> x.container_port == unsigned(
                field(p, "containerPort"@),
            )->0
            &&& unsigned(field(p, "hostPort"@)) is None ==> x.host_port is None
            &&& unsigned(field(p, "hostPort"@)) matches Some(n) ==> (n <= u16::MAX
                ==> x.host_port is Some && x.host_port->0 == n)
            &&& opt_text(x.name) == text(field(p, "name"@))
            &&& opt_text(x.host_ip) == text(field(p, "hostIP"@))
            &&& text(field(p, "protocol"@)) == Some("UDP"@) <==> x.protocol is UDP
            &&& text(field(p, "protocol"@)) == Some("SCTP"@) <==> x.protocol is SCTP
        },
{
    law_policies_are_read_by_name(text(field(p, "protocol"@)));
}

/// A port that is given by name is the number of the first port of that name;
/// where no port has the name there is none.
pub proof fn law_ports_are_found_by_name(ports: Seq<ContainerPort>, name: Seq<char>, i: int)
    ensures
        0 <= i < ports.len() && opt_text(ports[i].name) == Some(name) && (forall|j: int|
            0 <= j < i ==> opt_text((#[trigger] ports[j]).name) != Some(name)) ==> named_port(
            ports,
            name,
        ) == Some(ports[i].container_port),
        (forall|j: int|
            0 <= j < ports.len() ==> opt_text((#[trigger] ports[j]).name) != Some(name))
            ==> named_port(ports, name) is None,
    decreases ports.len(),
{
    if ports.len() > 0 {
        let rest = ports.skip(1);
        law_ports_are_found_by_name(rest, name, i - 1);
        if 0 < i < ports.len() && opt_text(ports[i].name) == Some(name) && (forall|j: int|
            0 <= j < i ==> opt_text((#[trigger] ports[j]).name) != Some(name)) {
            assert(opt_text(ports[0].name) != Some(name));
            assert(rest[i - 1] == ports[i]);
            assert forall|j: int| 0 <= j < i - 1 implies opt_text((#[trigger] rest[j]).name) != Some(
                name,
            ) by {
                assert(rest[j] == ports[j + 1]);
            }
        }
        if forall|j: int| 0 <= j < ports.len() ==> opt_text((#[trigger] ports[j]).name) != Some(
            name,
        ) {
            assert(opt_text(ports[0].name) != Some(name));
            assert forall|j: int| 0 <= j < rest.len() implies opt_text((#[trigger] rest[j]).name)
                != Some(name) by {
                assert(rest[j] == ports[j + 1]);
            }
        }
    }
}

/// A port may be a number, the text of a number, or a name.
pub proof fn law_port_numbers_are_read(v: JsonValue, ports: Seq<ContainerPort>, n: nat)
    requires
        n <= u16::MAX,
    ensures
        unsigned(Some(v)) is Some && unsigned(Some(v))->0 == n ==> port_number(v, ports) is Some
            && port_number(v, ports)->0 == n,
        text(Some(v)) == Some(dec(n)) ==> port_number(v, ports) is Some && port_number(
            v,
            ports,
        )->0 == n,
        text(Some(v)) is Some && natural_upto(text(Some(v))->0, 65535) is None ==> port_number(
            v,
            ports,
        ) == named_port(ports, text(Some(v))->0),
{
    lemma_dec_suffixed(n, Seq::empty());
}

/// A probe is read with its kind and with its own times and thresholds, each
/// with its own default.
pub proof fn law_probes_are_read(x: JsonValue, ports: Seq<ContainerPort>, r: Option<Probe>)
    requires
        probe_is(Some(x), ports, r),
    ensures
        r matches Some(p) ==> {
            &&& field(x, "httpGet"@) matches Some(h) ==> {
                &&& p.handler is HttpGet
                &&& opt_port(field(h, "port"@), ports) == Some(p.handler->HttpGet_port)
                &&& text(field(h, "path"@)) is None ==> p.handler->HttpGet_path@ == "/"@
                &&& text(field(h, "path"@)) matches Some(t) ==> p.handler->HttpGet_path@ == t
                &&& text(field(h, "scheme"@)) is None ==> p.handler->HttpGet_scheme@ == "HTTP"@
                &&& text(field(h, "scheme"@)) matches Some(t) ==> p.handler->HttpGet_scheme@ == t
                &&& opt_text(p.handler->HttpGet_host) == text(field(h, "host"@))
            }
            &&& field(x, "httpGet"@) is None ==> (field(x, "tcpSocket"@) matches Some(t)
                ==> p.handler is TcpSocket && opt_port(field(t, "port"@), ports) == Some(
                p.handler->TcpSocket_port,
            ) && opt_text(p.handler->TcpSocket_host) == text(field(t, "host"@)))
            &&& field(x, "httpGet"@) is None && field(x, "tcpSocket"@) is None && field(x, "exec"@)
                is Some ==> p.handler is Exec
            &&& unsigned(field(x, "initialDelaySeconds"@)) is None ==> p.initial_delay_seconds == 0
            &&& unsigned(field(x, "periodSeconds"@)) is None ==> p.period_seconds == 10
            &&& unsigned(field(x, "timeoutSeconds"@)) is None ==> p.timeout_seconds == 1
            &&& unsigned(field(x, "successThreshold"@)) is None ==> p.success_threshold == 1
            &&& unsigned(field(x, "failureThreshold"@)) is None ==> p.failure_threshold == 3
            &&& unsigned(field(x, "initialDelaySeconds"@)) matches Some(n) ==> (n <= u32::MAX
                ==> p.initial_delay_seconds == n)
            &&& unsigned(field(x, "periodSeconds"@)) matches Some(n) ==> (n <= u32::MAX
                ==> p.period_seconds == n)
            &&& unsigned(field(x, "timeoutSeconds"@)) matches Some(n) ==> (n <= u32::MAX
                ==> p.timeout_seconds == n)
            &&& unsigned(field(x, "successThreshold"@)) matches Some(n) ==> (n <= u32::MAX
                ==> p.success_threshold == n)
            &&& unsigned(field(x, "failureThreshold"@)) matches Some(n) ==> (n <= u32::MAX
                ==> p.failure_threshold == n)
        },
        field(x, "httpGet"@) is None && field(x, "tcpSocket"@) is None && field(x, "exec"@) is Some
            ==> r is Some,
        field(x, "httpGet"@) is None && field(x, "tcpSocket"@) is None && field(x, "exec"@) is None
            && field(x, "grpc"@) is None ==> r is None,
{
}

/// What a container says of its rights is read, each under its own name.
pub proof fn law_container_rights_are_read(v: JsonValue, x: SecurityContext)
    requires
        container_security_is(v, x),
    ensures
        unsigned(field(v, "runAsUser"@)) is None ==> x.run_as_user is None,
        unsigned(field(v, "runAsGroup"@)) is None ==> x.run_as_group is None,
        unsigned(field(v, "runAsUser"@)) matches Some(n) ==> (n <= u32::MAX ==> x.run_as_user is Some
            && x.run_as_user->0 == n),
        unsigned(field(v, "runAsGroup"@)) matches Some(n) ==> (n <= u32::MAX
            ==> x.run_as_group is Some && x.run_as_group->0 == n),
        x.run_as_non_root == boolean(field(v, "runAsNonRoot"@)),
        x.privileged == boolean(field(v, "privileged"@)),
        x.read_only_root_filesystem == boolean(field(v, "readOnlyRootFilesystem"@)),
        x.allow_privilege_escalation == boolean(field(v, "allowPrivilegeEscalation"@)),
        field(v, "capabilities"@) is None ==> x.capabilities is None,
        field(v, "capabilities"@) matches Some(c) ==> x.capabilities is Some && texts(
            x.capabilities->0.add@,
        ) == texts_in(array_items(field(c, "add"@))) && texts(x.capabilities->0.drop@) == texts_in(
            array_items(field(c, "drop"@)),
        ),
        field(v, "seccompProfile"@) matches Some(p) ==> (text(field(p, "type"@)) is Some
            ==> x.seccomp_profile is Some && Some(x.seccomp_profile->0.type_@) == text(
            field(p, "type"@),
        )),
        field(v, "appArmorProfile"@) matches Some(p) ==> (text(field(p, "type"@)) is Some
            ==> x.apparmor_profile is Some && Some(x.apparmor_profile->0.type_@) == text(
            field(p, "type"@),
        )),
        field(v, "seccompProfile"@) is None ==> x.seccomp_profile is None,
        field(v, "appArmorProfile"@) is None ==> x.apparmor_profile is None,
        opt_text(x.proc_mount) == text(field(v, "procMount"@)),
{
}

/// What a pod says of its rights is read, each under its own name.
pub proof fn law_pod_rights_are_read(v: JsonValue, x: PodSecurityContext)
    requires
        pod_security_is(v, x),
    ensures
        unsigned(field(v, "runAsUser"@)) is None ==> x.run_as_user is None,
        unsigned(field(v, "runAsGroup"@)) is None ==> x.run_as_group is None,
        unsigned(field(v, "fsGroup"@)) is None ==> x.fs_group is None,
        unsigned(field(v, "runAsUser"@)) matches Some(n) ==> (n <= u32::MAX ==> x.run_as_user is Some
            && x.run_as_user->0 == n),
        unsigned(field(v, "runAsGroup"@)) matches Some(n) ==> (n <= u32::MAX
            ==> x.run_as_group is Some && x.run_as_group->0 == n),
        unsigned(field(v, "fsGroup"@)) matches Some(n) ==> (n <= u32::MAX ==> x.fs_group is Some
            && x.fs_group->0 == n),
        x.run_as_non_root == boolean(field(v, "runAsNonRoot"@)),
        opt_text(x.fs_group_change_policy) == text(field(v, "fsGroupChangePolicy"@)),
{
}

/// Texts of a list are read in order; what is no text is left out.
pub proof fn law_texts_are_read_in_order(items: Seq<JsonValue>)
    ensures
        (forall|i: int| 0 <= i < items.len() ==> text(Some(#[trigger] items[i])) is Some)
            ==> texts_in(items).len() == items.len() && forall|i: int|
            0 <= i < items.len() ==> Some(#[trigger] texts_in(items)[i]) == text(Some(items[i])),
        (forall|i: int| 0 <= i < items.len() ==> text(Some(#[trigger] items[i])) is None)
            ==> texts_in(items).len() == 0,
    decreases items.len(),
{
    if items.len() > 0 {
        let front = items.drop_last();
        law_texts_are_read_in_order(front);
        let all = texts_in(items);
        if forall|i: int| 0 <= i < items.len() ==> text(Some(#[trigger] items[i])) is Some {
            assert forall|i: int| 0 <= i < front.len() implies text(
                Some(#[trigger] front[i]),
            ) is Some by {
                assert(front[i] == items[i]);
            }
            assert(text(Some(items[items.len() - 1])) is Some);
            assert forall|i: int| 0 <= i < items.len() implies Some(#[trigger] all[i]) == text(
                Some(items[i]),
            ) by {
                if i < front.len() {
                    assert(all[i] == texts_in(front)[i]);
                    assert(front[i] == items[i]);
                }
            }
        }
        if forall|i: int| 0 <= i < items.len() ==> text(Some(#[trigger] items[i])) is None {
            assert forall|i: int| 0 <= i < front.len() implies text(
                Some(#[trigger] front[i]),
            ) is None by {
                assert(front[i] == items[i]);
            }
            assert(text(Some(items[items.len() - 1])) is None);
        }
    }
}

/// A mount is read with its volume and its place; it is read-only only where
/// it says so.
pub proof fn law_mounts_are_read(v: JsonValue, r: Option<VolumeMount>)
    requires
        volume_mount_from(v, r),
    ensures
        r is Some <==> text(field(v, "name"@)) is Some && text(field(v, "mountPath"@)) is Some,
        r matches Some(x) ==> {
            &&& Some(x.name@) == text(field(v, "name"@))
            &&& Some(x.mount_path@) == text(field(v, "mountPath"@))
            &&& opt_text(x.sub_path) == text(field(v, "subPath"@))
            &&& opt_text(x.sub_path_expr) == text(field(v, "subPathExpr"@))
            &&& x.read_only <==> boolean(field(v, "readOnly"@)) == Some(true)
        },
{
}

/// A key of a volume is read with its own path.
pub proof fn law_keys_are_read_with_their_paths(v: JsonValue, r: Option<KeyToPath>)
    requires
        key_to_path_from(v, r),
    ensures
        r is Some <==> text(field(v, "key"@)) is Some && text(field(v, "path"@)) is Some,
        r matches Some(x) ==> Some(x.key@) == text(field(v, "key"@)) && Some(x.path@) == text(
            field(v, "path"@),
        ),
{
}

/// A setting of the kernel is read with its name and its value.
pub proof fn law_sysctls_are_read(v: JsonValue, r: Option<Sysctl>)
    requires
        sysctl_from(v, r),
    ensures
        r is Some <==> text(field(v, "name"@)) is Some && text(field(v, "value"@)) is Some,
        r matches Some(x) ==> Some(x.name@) == text(field(v, "name"@)) && Some(x.value@) == text(
            field(v, "value"@),
        ),
{
}

/// A volume is read with its name, its kind and its parts.
pub proof fn law_volumes_are_read(v: JsonValue, r: Option<VolumeSpec>)
    requires
        volume_from(v, r),
    ensures
        text(field(v, "name"@)) is None ==> r is None,
        r matches Some(x) ==> {
            &&& Some(x.name@) == text(field(v, "name"@))
            &&& field(v, "hostPath"@) matches Some(h) ==> x.source is HostPath && Some(
                x.source->HostPath_path@,
            ) == text(field(h, "path"@)) && opt_text(x.source->HostPath_path_type) == text(
                field(h, "type"@),
            )
            &&& field(v, "hostPath"@) is None ==> (field(v, "emptyDir"@) matches Some(e)
                ==> x.source is EmptyDir && opt_text(x.source->EmptyDir_medium) == text(
                field(e, "medium"@),
            ))
            &&& field(v, "hostPath"@) is None && field(v, "emptyDir"@) is None ==> (
            field(v, "configMap"@) matches Some(c) ==> x.source is ConfigMap && (text(
                field(c, "name"@),
            ) is Some ==> Some(x.source->ConfigMap_name@) == text(field(c, "name"@))) && (
            x.source->ConfigMap_optional <==> boolean(field(c, "optional"@)) == Some(true)))
            &&& field(v, "hostPath"@) is None && field(v, "emptyDir"@) is None && field(
                v,
                "configMap"@,
            ) is None ==> (field(v, "secret"@) matches Some(c) ==> x.source is Secret && (text(
                field(c, "secretName"@),
            ) is Some ==> Some(x.source->Secret_secret_name@) == text(field(c, "secretName"@))) && (
            x.source->Secret_optional <==> boolean(field(c, "optional"@)) == Some(true)))
            &&& field(v, "hostPath"@) is None && field(v, "emptyDir"@) is None && field(
                v,
                "configMap"@,
            ) is None && field(v, "secret"@) is None ==> (
            field(v, "persistentVolumeClaim"@) matches Some(c) ==> x.source is PersistentVolumeClaim
                && Some(x.source->PersistentVolumeClaim_claim_name@) == text(
                field(c, "claimName"@),
            ) && (x.source->PersistentVolumeClaim_read_only <==> boolean(field(c, "readOnly"@))
                == Some(true)))
            &&& field(v, "hostPath"@) is None && field(v, "emptyDir"@) is None && field(
                v,
                "configMap"@,
            ) is None && field(v, "secret"@) is None && field(v, "persistentVolumeClaim"@) is None
                && field(v, "projected"@) is None && field(v, "downwardAPI"@) is None ==> (
            field(v, "nfs"@) matches Some(c) ==> x.source is NFS && Some(x.source->NFS_server@)
                == text(field(c, "server"@)) && Some(x.source->NFS_path@) == text(field(c, "path"@))
                && (x.source->NFS_read_only <==> boolean(field(c, "readOnly"@)) == Some(true)))
        },
{
}

/// A container is read where it has a name and an image, with its own parts;
/// each probe for what it is.
pub proof fn law_containers_are_read(c: JsonValue, r: Option<ContainerSpec>)
    requires
        container_from(c, r),
    ensures
        r is Some <==> text(field(c, "name"@)) is Some && text(field(c, "image"@)) is Some,
        r matches Some(x) ==> {
            &&& Some(x.name@) == text(field(c, "name"@))
            &&& Some(x.image@) == text(field(c, "image"@))
            &&& texts(x.command@) == texts_in(array_items(field(c, "command"@)))
            &&& texts(x.args@) == texts_in(array_items(field(c, "args"@)))
            &&& opt_text(x.working_dir) == text(field(c, "workingDir"@))
            &&& field(c, "livenessProbe"@) is None ==> x.liveness_probe is None
            &&& field(c, "readinessProbe"@) is None ==> x.readiness_probe is None
            &&& field(c, "startupProbe"@) is None ==> x.startup_probe is None
            &&& field(c, "livenessProbe"@) is Some && x.liveness_probe is Some && unsigned(
                field(field(c, "livenessProbe"@)->0, "periodSeconds"@),
            ) is None ==> x.liveness_probe->0.period_seconds == 10
            &&& text(field(c, "imagePullPolicy"@)) == Some("Always"@)
                <==> x.image_pull_policy is Always
            &&& text(field(c, "imagePullPolicy"@)) == Some("Never"@)
                <==> x.image_pull_policy is Never
            &&& field(c, "securityContext"@) is Some <==> x.security_context is Some
            &&& opt_text(x.termination_message_path) == text(field(c, "terminationMessagePath"@))
            &&& opt_text(x.termination_message_policy) == text(
                field(c, "terminationMessagePolicy"@),
            )
            &&& field(c, "env"@) is None ==> x.env@.len() == 0
            &&& field(c, "ports"@) is None ==> x.ports@.len() == 0
            &&& field(c, "volumeMounts"@) is None ==> x.volume_mounts@.len() == 0
            &&& field(c, "envFrom"@) is None ==> x.env_from@.len() == 0
            &&& text(field(c, "restartPolicy"@)) is None ==> x.restart_policy is None
            &&& text(field(c, "restartPolicy"@)) == Some("Never"@) ==> x.restart_policy == Some(
                RestartPolicy::Never,
            )
            &&& text(field(c, "restartPolicy"@)) == Some("Always"@) ==> x.restart_policy == Some(
                RestartPolicy::Always,
            )
        },
{
    law_policies_are_read_by_name(text(field(c, "imagePullPolicy"@)));
    law_policies_are_read_by_name(text(field(c, "restartPolicy"@)));
}

/// A claim is allocated and prepared only where it says so, each of its own.
pub proof fn law_claims_are_read(v: JsonValue, r: Option<ResourceClaimRef>)
    requires
        claim_from(v, r),
    ensures
        r is Some <==> text(field(v, "name"@)) is Some,
        r matches Some(x) ==> {
            &&& Some(x.name@) == text(field(v, "name"@))
            &&& opt_text(x.resource_class_name) == text(field(v, "resourceClassName"@))
            &&& x.allocated <==> boolean(field(v, "allocated"@)) == Some(true)
            &&& x.prepared <==> boolean(field(v, "prepared"@)) == Some(true)
        },
{
}

/// A pod is read where it has a name, an identity and a list of containers,
/// with its own settings.
pub proof fn law_pods_are_read(map: JsonValue, node_name: Seq<char>, r: Option<PodSpec>)
    requires
        pod_from(map, node_name, r),
    ensures
        field(map, "metadata"@) is None || field(map, "spec"@) is None ==> r is None,
        r matches Some(p) ==> {
            let meta = field(map, "metadata"@)->0;
            let spec = field(map, "spec"@)->0;
            &&& Some(p.pod_ref.name@) == text(field(meta, "name"@))
            &&& Some(p.uid.0@) == text(field(meta, "uid"@))
            &&& text(field(meta, "namespace"@)) is None ==> p.pod_ref.namespace@ == "default"@
            &&& text(field(meta, "namespace"@)) matches Some(t) ==> p.pod_ref.namespace@ == t
            &&& text(field(spec, "nodeName"@)) is None ==> p.node_name@ == node_name
            &&& text(field(spec, "nodeName"@)) matches Some(t) ==> p.node_name@ == t
            &&& p.host_network <==> boolean(field(spec, "hostNetwork"@)) == Some(true)
            &&& p.host_pid <==> boolean(field(spec, "hostPID"@)) == Some(true)
            &&& p.host_ipc <==> boolean(field(spec, "hostIPC"@)) == Some(true)
            &&& text(field(spec, "restartPolicy"@)) == Some("Never"@) <==> p.restart_policy is Never
            &&& text(field(spec, "restartPolicy"@)) == Some("OnFailure"@)
                <==> p.restart_policy is OnFailure
            &&& unsigned(field(spec, "terminationGracePeriodSeconds"@)) is None
                ==> p.termination_grace_period_seconds == 30
            &&& unsigned(field(spec, "terminationGracePeriodSeconds"@)) matches Some(n)
                ==> p.termination_grace_period_seconds == n
            &&& p.active_deadline_seconds == unsigned(field(spec, "activeDeadlineSeconds"@))
            &&& text(field(spec, "serviceAccountName"@)) is None ==> p.service_account_name@
                == "default"@
            &&& text(field(spec, "serviceAccountName"@)) matches Some(t)
                ==> p.service_account_name@ == t
            &&& opt_text(p.runtime_class_name) == text(field(spec, "runtimeClassName"@))
            &&& p.automount_service_account_token == boolean(
                field(spec, "automountServiceAccountToken"@),
            )
            &&& p.enable_service_links == boolean(field(spec, "enableServiceLinks"@))
            &&& p.share_process_namespace == boolean(field(spec, "shareProcessNamespace"@))
            &&& field(spec, "initContainers"@) is None ==> p.init_containers@.len() == 0
            &&& field(spec, "volumes"@) is None ==> p.volumes@.len() == 0
            &&& text(field(spec, "hostname"@)) matches Some(t) ==> (t.len() > 0
                ==> p.hostname is Some && p.hostname->0@ == t)
            &&& text(field(spec, "subdomain"@)) matches Some(t) ==> (t.len() > 0
                ==> p.subdomain is Some && p.subdomain->0@ == t)
            &&& field(spec, "securityContext"@) is Some <==> p.security_context is Some
        },
{
    if r is Some {
        law_policies_are_read_by_name(text(field(field(map, "spec"@)->0, "restartPolicy"@)));
    }
}

/// Labels and annotations of a pod are read apart, each text under its key.
pub proof fn law_labels_and_annotations_keep_apart(
    meta: JsonValue,
    spec: JsonValue,
    node_name: Seq<char>,
    p: PodSpec,
    labels: StrMap<JsonValue>,
    annotations: StrMap<JsonValue>,
    k: Seq<char>,
)
    requires
        pod_parts_are(meta, spec, node_name, p),
        field(meta, "labels"@) == Some(JsonValue::Object(labels)),
        field(meta, "annotations"@) == Some(JsonValue::Object(annotations)),
    ensures
        p.labels@.contains_key(k) <==> labels@.contains_key(k),
        p.annotations@.contains_key(k) <==> annotations@.contains_key(k),
        labels@.contains_key(k) ==> (text(Some(labels@[k])) matches Some(t) ==> p.labels@[k]@ == t),
        annotations@.contains_key(k) ==> (text(Some(annotations@[k])) matches Some(t)
            ==> p.annotations@[k]@ == t),
{
    if labels@.contains_key(k) {
        assert(label_rel()(k, labels@[k], lookup(p.labels@, k)));
    }
    if annotations@.contains_key(k) {
        assert(label_rel()(k, annotations@[k], lookup(p.annotations@, k)));
    }
}

/// Each container of a pod that has a name and an image is among those that
/// are read, the init containers apart from the others.
pub proof fn law_no_container_is_lost(
    meta: JsonValue,
    spec: JsonValue,
    node_name: Seq<char>,
    p: PodSpec,
    i: int,
)
    requires
        pod_parts_are(meta, spec, node_name, p),
    ensures
        0 <= i < array_items(field(spec, "containers"@)).len() && text(
            field(array_items(field(spec, "containers"@))[i], "name"@),
        ) is Some && text(field(array_items(field(spec, "containers"@))[i], "image"@)) is Some
            ==> exists|k: int|
            0 <= k < p.containers@.len() && Some((#[trigger] p.containers@[k]).name@) == text(
                field(array_items(field(spec, "containers"@))[i], "name"@),
            ) && Some(p.containers@[k].image@) == text(
                field(array_items(field(spec, "containers"@))[i], "image"@),
            ),
        0 <= i < array_items(field(spec, "initContainers"@)).len() && text(
            field(array_items(field(spec, "initContainers"@))[i], "name"@),
        ) is Some && text(field(array_items(field(spec, "initContainers"@))[i], "image"@)) is Some
            ==> exists|k: int|
            0 <= k < p.init_containers@.len() && Some((#[trigger] p.init_containers@[k]).name@)
                == text(field(array_items(field(spec, "initContainers"@))[i], "name"@)),
{
    let cs = array_items(field(spec, "containers"@));
    let is = array_items(field(spec, "initContainers"@));
    if 0 <= i < cs.len() && text(field(cs[i], "name"@)) is Some && text(field(cs[i], "image"@))
        is Some {
        lemma_kept_has(cs, p.containers@, container_rel(), i);
        let k = choose|k: int|
            0 <= k < p.containers@.len() && container_rel()(
                cs[i],
                Some(#[trigger] p.containers@[k]),
            );
        assert(container_from(cs[i], Some(p.containers@[k])));
        assert(Some(p.containers@[k].name@) == text(field(cs[i], "name"@)));
    }
    if 0 <= i < is.len() && text(field(is[i], "name"@)) is Some && text(field(is[i], "image"@))
        is Some {
        lemma_kept_has(is, p.init_containers@, container_rel(), i);
        let k = choose|k: int|
            0 <= k < p.init_containers@.len() && container_rel()(
                is[i],
                Some(#[trigger] p.init_containers@[k]),
            );
        assert(container_from(is[i], Some(p.init_containers@[k])));
        assert(Some(p.init_containers@[k].name@) == text(field(is[i], "name"@)));
    }
}

/// The resolver's settings are read where a policy of its own is named, servers
/// as servers and search domains as search domains.
pub proof fn law_resolver_settings_are_read(spec: JsonValue, r: Option<DnsConfig>)
    requires
        dns_is(spec, r),
    ensures
        text(field(spec, "dnsPolicy"@)) is None ==> r is None,
        text(field(spec, "dnsPolicy"@)) == Some("Default"@) ==> r is Some && r->0.policy is Default,
        text(field(spec, "dnsPolicy"@)) == Some("None"@) ==> r is Some
            && r->0.policy is NonePolicy,
        r is Some ==> (field(spec, "dnsConfig"@) matches Some(d) ==> texts(r->0.nameservers@)
            == texts_in(array_items(field(d, "nameservers"@))) && texts(r->0.searches@) == texts_in(
            array_items(field(d, "searches"@)),
        )),
        r is Some && field(spec, "dnsConfig"@) is None ==> r->0.nameservers@.len() == 0
            && r->0.searches@.len() == 0,
{
    law_policies_are_read_by_name(text(field(spec, "dnsPolicy"@)));
    if r is Some && field(spec, "dnsConfig"@) is None {
        assert(texts(r->0.nameservers@).len() == r->0.nameservers@.len());
        assert(texts(r->0.searches@).len() == r->0.searches@.len());
    }
}

/// What else a pod lists is read item by item: host names with their address,
/// pull secrets and options by name, files of the pod's own fields by path.
pub proof fn law_listed_items_are_read(
    v: JsonValue,
    alias: Option<HostAlias>,
    secret: Option<LocalObjectReference>,
    option: Option<DnsOption>,
    file: Option<DownwardAPIVolumeFile>,
)
    requires
        host_alias_from(v, alias),
        secret_ref_from(v, secret),
        dns_option_from(v, option),
        downward_file_from(v, file),
    ensures
        alias is Some <==> text(field(v, "ip"@)) is Some,
        alias matches Some(x) ==> Some(x.ip@) == text(field(v, "ip"@)) && texts(x.hostnames@)
            == texts_in(array_items(field(v, "hostnames"@))),
        secret is Some <==> text(field(v, "name"@)) is Some,
        secret matches Some(x) ==> Some(x.name@) == text(field(v, "name"@)),
        option is Some <==> text(field(v, "name"@)) is Some,
        option matches Some(x) ==> Some(x.name@) == text(field(v, "name"@)) && opt_text(x.value)
            == text(field(v, "value"@)),
        file is Some <==> text(field(v, "path"@)) is Some,
        file matches Some(x) ==> Some(x.path@) == text(field(v, "path"@)) && (field(v, "fieldRef"@)
            matches Some(f) ==> opt_text(x.field_ref) == text(field(f, "fieldPath"@))),
{
}

/// A part of a projected volume is read as what it is, with its own parts.
pub proof fn law_projections_are_read(v: JsonValue, r: Option<ProjectedVolumeSource>)
    requires
        projected_from(v, r),
    ensures
        field(v, "serviceAccountToken"@) matches Some(t) ==> (text(field(t, "path"@)) is Some ==> {
            &&& r is Some && r->0 is ServiceAccountToken
            &&& Some(r->0->ServiceAccountToken_path@) == text(field(t, "path"@))
            &&& opt_text(r->0->ServiceAccountToken_audience) == text(field(t, "audience"@))
            &&& r->0->ServiceAccountToken_expiration_seconds == unsigned(
                field(t, "expirationSeconds"@),
            )
        }),
        field(v, "serviceAccountToken"@) is None ==> (field(v, "configMap"@) matches Some(c) ==> {
            &&& r is Some && r->0 is ConfigMap
            &&& text(field(c, "name"@)) is Some ==> Some(r->0->ConfigMap_name@) == text(
                field(c, "name"@),
            )
            &&& r->0->ConfigMap_optional <==> boolean(field(c, "optional"@)) == Some(true)
        }),
        field(v, "serviceAccountToken"@) is None && field(v, "configMap"@) is None ==> (
        field(v, "secret"@) matches Some(c) ==> {
            &&& r is Some && r->0 is Secret
            &&& text(field(c, "name"@)) is Some ==> Some(r->0->Secret_name@) == text(
                field(c, "name"@),
            )
            &&& r->0->Secret_optional <==> boolean(field(c, "optional"@)) == Some(true)
        }),
        field(v, "serviceAccountToken"@) is None && field(v, "configMap"@) is None && field(
            v,
            "secret"@,
        ) is None && field(v, "downwardAPI"@) is Some ==> r is Some && r->0 is DownwardAPI,
        field(v, "serviceAccountToken"@) is None && field(v, "configMap"@) is None && field(
            v,
            "secret"@,
        ) is None && field(v, "downwardAPI"@) is None ==> r is None,
{
}

/// The groups of a pod are read as numbers, and what is none is left out.
pub proof fn law_no_group_is_lost(v: JsonValue, x: PodSecurityContext, i: int)
    requires
        pod_security_is(v, x),
        0 <= i < array_items(field(v, "supplementalGroups"@)).len(),
        unsigned(Some(array_items(field(v, "supplementalGroups"@))[i])) is Some,
        unsigned(Some(array_items(field(v, "supplementalGroups"@))[i]))->0 <= u32::MAX,
    ensures
        exists|k: int|
            0 <= k < x.supplemental_groups@.len() && #[trigger] x.supplemental_groups@[k]
                == unsigned(Some(array_items(field(v, "supplementalGroups"@))[i]))->0,
{
    let items = array_items(field(v, "supplementalGroups"@));
    let n = unsigned(Some(items[i]))->0;
    assert(!group_rel()(items[i], None));
    lemma_kept_has(items, x.supplemental_groups@, group_rel(), i);
    let k = choose|k: int|
        0 <= k < x.supplemental_groups@.len() && group_rel()(
            items[i],
            Some(#[trigger] x.supplemental_groups@[k]),
        );
    assert(x.supplemental_groups@[k] == n as u32);
}

/// A variable is valid where the source that it names is complete.
pub proof fn law_complete_sources_are_valid(vf: JsonValue)
    ensures
        field(vf, "fieldRef"@) matches Some(f) ==> env_source_valid(vf) == (text(
            field(f, "fieldPath"@),
        ) is Some),
        field(vf, "fieldRef"@) is None ==> (field(vf, "resourceFieldRef"@) matches Some(f)
            ==> env_source_valid(vf) == (text(field(f, "resource"@)) is Some)),
        field(vf, "fieldRef"@) is None && field(vf, "resourceFieldRef"@) is None ==> (field(
            vf,
            "configMapKeyRef"@,
        ) matches Some(f) ==> env_source_valid(vf) == (text(field(f, "name"@)) is Some && text(
            field(f, "key"@),
        ) is Some)),
        field(vf, "fieldRef"@) is None && field(vf, "resourceFieldRef"@) is None && field(
            vf,
            "configMapKeyRef"@,
        ) is None ==> (field(vf, "secretKeyRef"@) matches Some(f) ==> env_source_valid(vf) == (text(
            field(f, "name"@),
        ) is Some && text(field(f, "key"@)) is Some)),
{
}

/// A reference to all keys of an object has the object's name and may be
/// optional.
pub proof fn law_whole_references_are_read(v: JsonValue, r: Option<EnvFromRef>)
    requires
        env_ref_is(Some(v), r),
    ensures
        r is Some <==> text(field(v, "name"@)) is Some,
        r matches Some(x) ==> Some(x.name@) == text(field(v, "name"@)) && (x.optional <==> boolean(
            field(v, "optional"@),
        ) == Some(true)),
{
}

/// The items of a volume are read from the list that names them: no complete
/// item is lost.
pub proof fn law_no_volume_item_is_lost(v: JsonValue, r: Option<VolumeSource>, i: int)
    requires
        volume_source_is(v, r),
        field(v, "hostPath"@) is None,
        field(v, "emptyDir"@) is None,
    ensures
        field(v, "configMap"@) matches Some(c) ==> (0 <= i < array_items(field(c, "items"@)).len()
            && !key_to_path_rel()(array_items(field(c, "items"@))[i], None) ==> {
            &&& r is Some && r->0 is ConfigMap
            &&& exists|k: int|
                0 <= k < r->0->ConfigMap_items@.len() && key_to_path_rel()(
                    array_items(field(c, "items"@))[i],
                    Some(#[trigger] r->0->ConfigMap_items@[k]),
                )
        }),
        field(v, "configMap"@) is None ==> (field(v, "secret"@) matches Some(c) ==> (0 <= i
            < array_items(field(c, "items"@)).len() && !key_to_path_rel()(
            array_items(field(c, "items"@))[i],
            None,
        ) ==> {
            &&& r is Some && r->0 is Secret
            &&& exists|k: int|
                0 <= k < r->0->Secret_items@.len() && key_to_path_rel()(
                    array_items(field(c, "items"@))[i],
                    Some(#[trigger] r->0->Secret_items@[k]),
                )
        })),
{
    if let Some(c) = field(v, "configMap"@) {
        let items = array_items(field(c, "items"@));
        if 0 <= i < items.len() && !key_to_path_rel()(items[i], None) {
            lemma_kept_has(items, r->0->ConfigMap_items@, key_to_path_rel(), i);
        }
    } else if let Some(c) = field(v, "secret"@) {
        let items = array_items(field(c, "items"@));
        if 0 <= i < items.len() && !key_to_path_rel()(items[i], None) {
            lemma_kept_has(items, r->0->Secret_items@, key_to_path_rel(), i);
        }
    }
}

/// A reference to a container's resource has the resource, the container and
/// the divisor that it names.
pub proof fn law_resource_references_are_read(
    v: JsonValue,
    r: Option<ResourceFieldRef>,
    d: JsonValue,
    file: Option<DownwardAPIVolumeFile>,
)
    requires
        resource_field_is(Some(v), r),
        downward_file_from(d, file),
    ensures
        r is Some <==> text(field(v, "resource"@)) is Some,
        r matches Some(x) ==> Some(x.resource@) == text(field(v, "resource"@)) && opt_text(
            x.container_name,
        ) == text(field(v, "containerName"@)) && opt_text(x.divisor) == text(field(v, "divisor"@)),
        file matches Some(f) ==> (field(d, "resourceFieldRef"@) matches Some(s)
            ==> (f.resource_field_ref is Some <==> text(field(s, "resource"@)) is Some) && (
        f.resource_field_ref matches Some(x) ==> Some(x.resource@) == text(field(s, "resource"@)))),
        file matches Some(f) ==> (field(d, "resourceFieldRef"@) is None ==> f.resource_field_ref
            is None),
{
}

} // verus!
