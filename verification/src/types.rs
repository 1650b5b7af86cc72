//! Pods, containers and nodes as the agent sees them.
use crate::strmap::StrMap;
use vstd::prelude::*;

verus! {

/// The unique identifier of a pod.
#[derive(Debug, PartialEq, Eq, Hash)]
pub struct PodUID(pub String);

impl PodUID {
    pub fn new(uid: &str) -> (r: Self)
        ensures
            r.0@ == uid@,
    {
        PodUID(uid.to_owned())
    }

    /// A copy of the identifier.
    pub fn copied(&self) -> (r: Self)
        ensures
            r == *self,
    {
        PodUID(self.0.clone())
    }
}

/// The namespace and the name of a pod.
#[derive(Debug, PartialEq, Eq, Hash)]
pub struct PodRef {
    pub namespace: String,
    pub name: String,
}

impl PodRef {
    pub fn new(namespace: &str, name: &str) -> (r: Self)
        ensures
            r.namespace@ == namespace@,
            r.name@ == name@,
    {
        PodRef { namespace: namespace.to_owned(), name: name.to_owned() }
    }

    /// A copy of the reference.
    pub fn copied(&self) -> (r: Self)
        ensures
            r == *self,
    {
        PodRef { namespace: self.namespace.clone(), name: self.name.clone() }
    }
}

/// The quality-of-service class of a pod.
#[derive(Debug, Clone, Copy, PartialEq, Eq, Hash, Structural)]
pub enum QosClass {
    Guaranteed,
    Burstable,
    BestEffort,
}

/// The unit in which a resource quantity counts.
#[derive(Debug, Clone, Copy, PartialEq, Eq, Structural)]
pub enum ResourceUnit {
    Millicores,
    Bytes,
    Count,
}

/// An amount of a resource.
#[derive(Debug, Clone, Copy, PartialEq, Eq, Structural)]
pub struct ResourceQuantity {
    pub value: i64,
    pub unit: ResourceUnit,
}

impl ResourceQuantity {
    /// A number of thousandths of a core.
    pub fn cpu_millicores(value: i64) -> (r: Self)
        ensures
            r == (ResourceQuantity { value, unit: ResourceUnit::Millicores }),
    {
        ResourceQuantity { value, unit: ResourceUnit::Millicores }
    }

    /// A number of bytes.
    pub fn memory_bytes(value: i64) -> (r: Self)
        ensures
            r == (ResourceQuantity { value, unit: ResourceUnit::Bytes }),
    {
        ResourceQuantity { value, unit: ResourceUnit::Bytes }
    }
}

#[derive(Debug, Clone, Copy, PartialEq, Eq, Structural)]
pub enum ImagePullPolicy {
    Always,
    IfNotPresent,
    Never,
}

#[derive(Debug, Clone, Copy, PartialEq, Eq, Structural)]
pub enum RestartPolicy {
    Always,
    OnFailure,
    Never,
}

#[derive(Debug, Clone, Copy, PartialEq, Eq, Structural)]
pub enum Protocol {
    TCP,
    UDP,
    SCTP,
}

#[derive(Debug, Clone, Copy, PartialEq, Eq, Structural)]
pub enum DnsPolicy {
    Default,
    NonePolicy,
    ClusterFirst,
    ClusterFirstWithHostNet,
}

/// What a pod source asks to be done with a pod.
#[derive(Debug, Clone, Copy, PartialEq, Eq, Structural)]
pub enum PodOperation {
    Add,
    Update,
    Remove,
    Reconcile,
}

#[derive(Debug)]
pub struct EnvVar {
    pub name: String,
    pub value: Option<String>,
    pub value_from: Option<EnvVarSource>,
}

#[derive(Debug)]
pub enum EnvVarSource {
    FieldRef { field_path: String },
    ResourceFieldRef { container_name: Option<String>, resource: String },
    ConfigMapKeyRef { name: String, key: String, optional: bool },
    SecretKeyRef { name: String, key: String, optional: bool },
}

#[derive(Debug)]
pub struct EnvFromRef {
    pub name: String,
    pub optional: bool,
}

#[derive(Debug)]
pub struct EnvFromSource {
    pub prefix: Option<String>,
    pub config_map_ref: Option<EnvFromRef>,
    pub secret_ref: Option<EnvFromRef>,
}

#[derive(Debug)]
pub struct VolumeMount {
    pub name: String,
    pub mount_path: String,
    pub sub_path: Option<String>,
    pub sub_path_expr: Option<String>,
    pub read_only: bool,
}

#[derive(Debug)]
pub struct ContainerPort {
    pub name: Option<String>,
    pub container_port: u16,
    pub host_port: Option<u16>,
    pub protocol: Protocol,
    pub host_ip: Option<String>,
}

#[derive(Debug)]
pub struct ResourceRequirements {
    pub requests: StrMap<ResourceQuantity>,
    pub limits: StrMap<ResourceQuantity>,
}

impl Default for ResourceRequirements {
    fn default() -> (r: Self)
        ensures
            r.requests@ == Map::<Seq<char>, ResourceQuantity>::empty(),
            r.limits@ == Map::<Seq<char>, ResourceQuantity>::empty(),
    {
        ResourceRequirements { requests: StrMap::new(), limits: StrMap::new() }
    }
}

#[derive(Debug)]
pub enum ProbeHandler {
    Exec { command: Vec<String> },
    HttpGet { path: String, port: u16, host: Option<String>, scheme: String },
    TcpSocket { port: u16, host: Option<String> },
    Grpc { port: u16, service: Option<String> },
}

#[derive(Debug)]
pub struct Probe {
    pub handler: ProbeHandler,
    pub initial_delay_seconds: u32,
    pub period_seconds: u32,
    pub timeout_seconds: u32,
    pub success_threshold: u32,
    pub failure_threshold: u32,
}

#[derive(Debug)]
pub struct Capabilities {
    pub add: Vec<String>,
    pub drop: Vec<String>,
}

#[derive(Debug)]
pub struct SeccompSpec {
    pub type_: String,
    pub localhost_profile: Option<String>,
}

#[derive(Debug)]
pub struct AppArmorSpec {
    pub type_: String,
    pub localhost_profile: Option<String>,
}

#[derive(Debug)]
pub struct SecurityContext {
    pub run_as_user: Option<u32>,
    pub run_as_group: Option<u32>,
    pub run_as_non_root: Option<bool>,
    pub privileged: Option<bool>,
    pub read_only_root_filesystem: Option<bool>,
    pub allow_privilege_escalation: Option<bool>,
    pub capabilities: Option<Capabilities>,
    pub seccomp_profile: Option<SeccompSpec>,
    pub apparmor_profile: Option<AppArmorSpec>,
    pub proc_mount: Option<String>,
}

#[derive(Debug)]
pub enum LifecycleHandler {
    Exec { command: Vec<String> },
    HttpGet { path: String, port: u16, host: Option<String>, scheme: String },
    TcpSocket { port: u16, host: Option<String> },
    Sleep { seconds: u64 },
}

#[derive(Debug)]
pub struct Lifecycle {
    pub post_start: Option<LifecycleHandler>,
    pub pre_stop: Option<LifecycleHandler>,
}

#[derive(Debug)]
pub struct KeyToPath {
    pub key: String,
    pub path: String,
    pub mode: Option<i32>,
}

#[derive(Debug)]
pub struct ResourceFieldRef {
    pub container_name: Option<String>,
    pub resource: String,
    pub divisor: Option<String>,
}

#[derive(Debug)]
pub struct DownwardAPIVolumeFile {
    pub path: String,
    pub field_ref: Option<String>,
    pub resource_field_ref: Option<ResourceFieldRef>,
    pub mode: Option<i32>,
}

#[derive(Debug)]
pub enum ProjectedVolumeSource {
    ServiceAccountToken {
        audience: Option<String>,
        expiration_seconds: Option<u64>,
        path: String,
    },
    ConfigMap { name: String, items: Vec<KeyToPath>, optional: bool },
    Secret { name: String, items: Vec<KeyToPath>, optional: bool },
    DownwardAPI { items: Vec<DownwardAPIVolumeFile> },
}

#[derive(Debug)]
pub enum VolumeSource {
    HostPath { path: String, path_type: Option<String> },
    EmptyDir { medium: Option<String>, size_limit: Option<u64> },
    ConfigMap {
        name: String,
        items: Vec<KeyToPath>,
        optional: bool,
        default_mode: Option<i32>,
    },
    Secret {
        secret_name: String,
        items: Vec<KeyToPath>,
        optional: bool,
        default_mode: Option<i32>,
    },
    PersistentVolumeClaim { claim_name: String, read_only: bool },
    Projected { sources: Vec<ProjectedVolumeSource>, default_mode: Option<i32> },
    DownwardAPI { items: Vec<DownwardAPIVolumeFile>, default_mode: Option<i32> },
    NFS { server: String, path: String, read_only: bool },
}

#[derive(Debug)]
pub struct VolumeSpec {
    pub name: String,
    pub source: VolumeSource,
}

#[derive(Debug)]
pub struct Sysctl {
    pub name: String,
    pub value: String,
}

#[derive(Debug)]
pub struct PodSecurityContext {
    pub run_as_user: Option<u32>,
    pub run_as_group: Option<u32>,
    pub run_as_non_root: Option<bool>,
    pub fs_group: Option<u32>,
    pub supplemental_groups: Vec<u32>,
    pub fs_group_change_policy: Option<String>,
    pub sysctls: Vec<Sysctl>,
    pub seccomp_profile: Option<SeccompSpec>,
}

#[derive(Debug)]
pub struct HostAlias {
    pub ip: String,
    pub hostnames: Vec<String>,
}

#[derive(Debug)]
pub struct LocalObjectReference {
    pub name: String,
}

#[derive(Debug)]
pub struct ResourceClaimRef {
    pub name: String,
    pub resource_class_name: Option<String>,
    pub allocated: bool,
    pub prepared: bool,
}

#[derive(Debug)]
pub struct ReadinessGate {
    pub condition_type: String,
}

#[derive(Debug)]
pub struct DnsOption {
    pub name: String,
    pub value: Option<String>,
}

#[derive(Debug)]
pub struct DnsConfig {
    pub policy: DnsPolicy,
    pub nameservers: Vec<String>,
    pub searches: Vec<String>,
    pub options: Vec<DnsOption>,
}

#[derive(Debug, Clone, Copy, PartialEq, Eq, Structural)]
pub enum TolerationOperator {
    Exists,
    Equal,
}

#[derive(Debug)]
pub struct Toleration {
    pub key: Option<String>,
    pub operator: TolerationOperator,
    pub value: Option<String>,
    pub effect: Option<String>,
}

/// A point in time: whole seconds since the Unix epoch, and nanoseconds.
#[derive(Debug, Clone, Copy, PartialEq, Eq, Structural)]
pub struct Timestamp {
    pub secs: i64,
    pub nanos: u32,
}

impl Timestamp {
    /// The nanoseconds since the Unix epoch.
    pub open spec fn ns(self) -> int {
        self.secs * 1_000_000_000 + self.nanos
    }

    /// The nanoseconds since the Unix epoch.
    pub fn as_nanos(&self) -> (r: i128)
        ensures
            r == self.ns(),
    {
        self.secs as i128 * 1_000_000_000 + self.nanos as i128
    }
}

#[derive(Debug)]
pub struct ContainerSpec {
    pub name: String,
    pub image: String,
    pub command: Vec<String>,
    pub args: Vec<String>,
    pub working_dir: Option<String>,
    pub ports: Vec<ContainerPort>,
    pub env: Vec<EnvVar>,
    pub resources: ResourceRequirements,
    pub volume_mounts: Vec<VolumeMount>,
    pub liveness_probe: Option<Probe>,
    pub readiness_probe: Option<Probe>,
    pub startup_probe: Option<Probe>,
    pub image_pull_policy: ImagePullPolicy,
    pub security_context: Option<SecurityContext>,
    pub termination_message_path: Option<String>,
    pub termination_message_policy: Option<String>,
    pub lifecycle: Option<Lifecycle>,
    pub env_from: Vec<EnvFromSource>,
    pub stdin: Option<bool>,
    pub stdin_once: Option<bool>,
    pub tty: Option<bool>,
    pub restart_policy: Option<RestartPolicy>,
}

#[derive(Debug)]
pub struct PodSpec {
    pub uid: PodUID,
    pub pod_ref: PodRef,
    pub containers: Vec<ContainerSpec>,
    pub init_containers: Vec<ContainerSpec>,
    pub ephemeral_containers: Vec<ContainerSpec>,
    pub volumes: Vec<VolumeSpec>,
    pub node_name: String,
    pub host_network: bool,
    pub host_pid: bool,
    pub host_ipc: bool,
    pub dns_config: Option<DnsConfig>,
    pub restart_policy: RestartPolicy,
    pub termination_grace_period_seconds: u64,
    pub service_account_name: String,
    pub priority: Option<i32>,
    pub tolerations: Vec<Toleration>,
    pub node_selector: StrMap<String>,
    pub annotations: StrMap<String>,
    pub labels: StrMap<String>,
    pub runtime_class_name: Option<String>,
    pub security_context: Option<PodSecurityContext>,
    pub readiness_gates: Vec<ReadinessGate>,
    pub active_deadline_seconds: Option<u64>,
    pub automount_service_account_token: Option<bool>,
    pub image_pull_secrets: Vec<LocalObjectReference>,
    pub enable_service_links: Option<bool>,
    pub share_process_namespace: Option<bool>,
    pub resource_claims: Vec<ResourceClaimRef>,
    pub host_aliases: Vec<HostAlias>,
    pub hostname: Option<String>,
    pub subdomain: Option<String>,
    pub observed_start_time: Option<Timestamp>,
    pub generation: Option<i64>,
}

/// Whether every part of a pod but its identity and its node is empty.
pub open spec fn is_bare(p: PodSpec) -> bool {
    &&& p.containers@.len() == 0
    &&& p.init_containers@.len() == 0
    &&& p.ephemeral_containers@.len() == 0
    &&& p.volumes@.len() == 0
    &&& !p.host_network && !p.host_pid && !p.host_ipc
    &&& p.dns_config is None
    &&& p.restart_policy == RestartPolicy::Always
    &&& p.termination_grace_period_seconds == 0
    &&& p.service_account_name@.len() == 0
    &&& p.priority is None
    &&& p.tolerations@.len() == 0
    &&& p.node_selector@ == Map::<Seq<char>, String>::empty()
    &&& p.annotations@ == Map::<Seq<char>, String>::empty()
    &&& p.labels@ == Map::<Seq<char>, String>::empty()
    &&& p.runtime_class_name is None
    &&& p.security_context is None
    &&& p.readiness_gates@.len() == 0
    &&& p.active_deadline_seconds is None
    &&& p.automount_service_account_token is None
    &&& p.image_pull_secrets@.len() == 0
    &&& p.enable_service_links is None
    &&& p.share_process_namespace is None
    &&& p.resource_claims@.len() == 0
    &&& p.host_aliases@.len() == 0
    &&& p.hostname is None
    &&& p.subdomain is None
    &&& p.observed_start_time is None
    &&& p.generation is None
}

impl PodSpec {
    /// A pod of which only the identity and the node are known.
    pub fn bare(uid: PodUID, pod_ref: PodRef, node_name: String) -> (r: Self)
        ensures
            r.uid == uid,
            r.pod_ref == pod_ref,
            r.node_name == node_name,
            is_bare(r),
    {
        PodSpec {
            uid,
            pod_ref,
            containers: Vec::new(),
            init_containers: Vec::new(),
            ephemeral_containers: Vec::new(),
            volumes: Vec::new(),
            node_name,
            host_network: false,
            host_pid: false,
            host_ipc: false,
            dns_config: None,
            restart_policy: RestartPolicy::Always,
            termination_grace_period_seconds: 0,
            service_account_name: String::new(),
            priority: None,
            tolerations: Vec::new(),
            node_selector: StrMap::new(),
            annotations: StrMap::new(),
            labels: StrMap::new(),
            runtime_class_name: None,
            security_context: None,
            readiness_gates: Vec::new(),
            active_deadline_seconds: None,
            automount_service_account_token: None,
            image_pull_secrets: Vec::new(),
            enable_service_links: None,
            share_process_namespace: None,
            resource_claims: Vec::new(),
            host_aliases: Vec::new(),
            hostname: None,
            subdomain: None,
            observed_start_time: None,
            generation: None,
        }
    }
}

impl Default for PodSpec {
    fn default() -> (r: Self)
        ensures
            r.uid.0@.len() == 0,
            r.pod_ref.namespace@.len() == 0,
            r.pod_ref.name@.len() == 0,
            r.node_name@.len() == 0,
            is_bare(r),
    {
        PodSpec::bare(
            PodUID(String::new()),
            PodRef { namespace: String::new(), name: String::new() },
            String::new(),
        )
    }
}

/// A pod together with what is asked to be done with it.
#[derive(Debug)]
pub struct PodUpdate {
    pub pod: PodSpec,
    pub op: PodOperation,
}

/// Time counts a thousand million nanoseconds to the second.
pub proof fn law_seconds_are_counted(a: Timestamp, b: Timestamp)
    requires
        a.nanos == b.nanos,
        b.secs == a.secs + 1,
    ensures
        b.ns() == a.ns() + 1_000_000_000,
        a.nanos < 1_000_000_000 ==> (a.secs >= 0 <==> a.ns() >= 0),
{
}

/// A pod that is named only has nothing else set.
pub proof fn law_bare_pods_have_nothing_set(p: PodSpec, key: Seq<char>)
    requires
        is_bare(p),
    ensures
        p.containers@.len() == 0 && p.init_containers@.len() == 0 && p.ephemeral_containers@.len()
            == 0 && p.volumes@.len() == 0,
        !p.host_network && !p.host_pid && !p.host_ipc,
        p.restart_policy is Always,
        p.termination_grace_period_seconds == 0,
        p.service_account_name@.len() == 0,
        !p.node_selector@.contains_key(key) && !p.annotations@.contains_key(key)
            && !p.labels@.contains_key(key),
        p.dns_config is None && p.priority is None && p.runtime_class_name is None
            && p.security_context is None && p.active_deadline_seconds is None
            && p.automount_service_account_token is None && p.enable_service_links is None
            && p.share_process_namespace is None && p.hostname is None && p.subdomain is None
            && p.observed_start_time is None && p.generation is None,
        p.tolerations@.len() == 0 && p.readiness_gates@.len() == 0 && p.image_pull_secrets@.len()
            == 0 && p.resource_claims@.len() == 0 && p.host_aliases@.len() == 0,
{
}

} // verus!
