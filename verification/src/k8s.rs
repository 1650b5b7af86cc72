//! The parts of the cluster API's typed objects that the agent reads, as plain
//! data.
use crate::strmap::StrMap;
use crate::types::Timestamp;
use vstd::prelude::*;

verus! {

/// A port given by number or by name.
#[derive(Debug)]
pub enum K8sPort {
    Int(i32),
    Name(String),
}

#[derive(Debug)]
pub struct K8sResourceField {
    pub container_name: Option<String>,
    pub resource: String,
    pub divisor: Option<String>,
}

/// A key of a config map or secret.
#[derive(Debug)]
pub struct K8sKeySelector {
    pub name: Option<String>,
    pub key: String,
    pub optional: Option<bool>,
}

#[derive(Debug)]
pub struct K8sEnvVarSource {
    /// The path of a field of the pod.
    pub field_ref: Option<String>,
    pub resource_field_ref: Option<K8sResourceField>,
    pub config_map_key_ref: Option<K8sKeySelector>,
    pub secret_key_ref: Option<K8sKeySelector>,
}

#[derive(Debug)]
pub struct K8sEnvVar {
    pub name: String,
    pub value: Option<String>,
    pub value_from: Option<K8sEnvVarSource>,
}

/// A whole config map or secret.
#[derive(Debug)]
pub struct K8sEnvRef {
    pub name: Option<String>,
    pub optional: Option<bool>,
}

#[derive(Debug)]
pub struct K8sEnvFrom {
    pub prefix: Option<String>,
    pub config_map_ref: Option<K8sEnvRef>,
    pub secret_ref: Option<K8sEnvRef>,
}

#[derive(Debug)]
pub struct K8sVolumeMount {
    pub name: String,
    pub mount_path: String,
    pub sub_path: Option<String>,
    pub sub_path_expr: Option<String>,
    pub read_only: Option<bool>,
}

#[derive(Debug)]
pub struct K8sContainerPort {
    pub name: Option<String>,
    pub container_port: i32,
    pub host_port: Option<i32>,
    pub protocol: Option<String>,
    pub host_ip: Option<String>,
}

#[derive(Debug)]
pub struct K8sHttpGet {
    pub path: Option<String>,
    pub port: K8sPort,
    pub host: Option<String>,
    pub scheme: Option<String>,
}

#[derive(Debug)]
pub struct K8sTcpSocket {
    pub port: K8sPort,
    pub host: Option<String>,
}

#[derive(Debug)]
pub struct K8sGrpc {
    pub port: i32,
    pub service: Option<String>,
}

#[derive(Debug)]
pub struct K8sExec {
    pub command: Option<Vec<String>>,
}

#[derive(Debug)]
pub struct K8sProbe {
    pub exec_action: Option<K8sExec>,
    pub http_get: Option<K8sHttpGet>,
    pub tcp_socket: Option<K8sTcpSocket>,
    pub grpc: Option<K8sGrpc>,
    pub initial_delay_seconds: Option<i32>,
    pub period_seconds: Option<i32>,
    pub timeout_seconds: Option<i32>,
    pub success_threshold: Option<i32>,
    pub failure_threshold: Option<i32>,
}

#[derive(Debug)]
pub struct K8sLifecycleHandler {
    pub exec_action: Option<K8sExec>,
    pub http_get: Option<K8sHttpGet>,
    pub tcp_socket: Option<K8sTcpSocket>,
    pub sleep_seconds: Option<i64>,
}

#[derive(Debug)]
pub struct K8sLifecycle {
    pub post_start: Option<K8sLifecycleHandler>,
    pub pre_stop: Option<K8sLifecycleHandler>,
}

#[derive(Debug)]
pub struct K8sCapabilities {
    pub add: Option<Vec<String>>,
    pub drop: Option<Vec<String>>,
}

/// A seccomp or AppArmor profile.
#[derive(Debug)]
pub struct K8sProfile {
    pub type_: String,
    pub localhost_profile: Option<String>,
}

#[derive(Debug)]
pub struct K8sSecurityContext {
    pub run_as_user: Option<i64>,
    pub run_as_group: Option<i64>,
    pub run_as_non_root: Option<bool>,
    pub privileged: Option<bool>,
    pub read_only_root_filesystem: Option<bool>,
    pub allow_privilege_escalation: Option<bool>,
    pub capabilities: Option<K8sCapabilities>,
    pub seccomp_profile: Option<K8sProfile>,
    pub app_armor_profile: Option<K8sProfile>,
    pub proc_mount: Option<String>,
}

/// Requests and limits, each quantity as its text.
#[derive(Debug)]
pub struct K8sResources {
    pub requests: Option<StrMap<String>>,
    pub limits: Option<StrMap<String>>,
}

/// What every kind of container has.
#[derive(Debug)]
pub struct K8sContainerBase {
    pub name: String,
    pub image: Option<String>,
    pub image_pull_policy: Option<String>,
    pub command: Option<Vec<String>>,
    pub args: Option<Vec<String>>,
    pub env: Option<Vec<K8sEnvVar>>,
    pub env_from: Option<Vec<K8sEnvFrom>>,
    pub volume_mounts: Option<Vec<K8sVolumeMount>>,
    pub working_dir: Option<String>,
    pub stdin: Option<bool>,
    pub tty: Option<bool>,
    pub termination_message_path: Option<String>,
    pub termination_message_policy: Option<String>,
    pub security_context: Option<K8sSecurityContext>,
}

#[derive(Debug)]
pub struct K8sContainer {
    pub base: K8sContainerBase,
    pub resources: Option<K8sResources>,
    pub ports: Option<Vec<K8sContainerPort>>,
    pub liveness_probe: Option<K8sProbe>,
    pub readiness_probe: Option<K8sProbe>,
    pub startup_probe: Option<K8sProbe>,
    pub restart_policy: Option<String>,
    pub lifecycle: Option<K8sLifecycle>,
}

#[derive(Debug)]
pub struct K8sEphemeralContainer {
    pub base: K8sContainerBase,
}

#[derive(Debug)]
pub struct K8sKeyToPath {
    pub key: String,
    pub path: String,
    pub mode: Option<i32>,
}

#[derive(Debug)]
pub struct K8sDownwardFile {
    pub path: String,
    pub field_ref: Option<String>,
    pub resource_field_ref: Option<K8sResourceField>,
    pub mode: Option<i32>,
}

#[derive(Debug)]
pub struct K8sHostPath {
    pub path: String,
    pub type_: Option<String>,
}

#[derive(Debug)]
pub struct K8sEmptyDir {
    pub medium: Option<String>,
}

/// A config map or secret as a volume.
#[derive(Debug)]
pub struct K8sKeyedVolume {
    pub name: Option<String>,
    pub items: Option<Vec<K8sKeyToPath>>,
    pub optional: Option<bool>,
    pub default_mode: Option<i32>,
}

#[derive(Debug)]
pub struct K8sClaimVolume {
    pub claim_name: String,
    pub read_only: Option<bool>,
}

#[derive(Debug)]
pub struct K8sTokenProjection {
    pub audience: Option<String>,
    pub expiration_seconds: Option<i64>,
    pub path: String,
}

/// A config map or secret as a part of a projected volume.
#[derive(Debug)]
pub struct K8sKeyedProjection {
    pub name: Option<String>,
    pub items: Option<Vec<K8sKeyToPath>>,
    pub optional: Option<bool>,
}

#[derive(Debug)]
pub struct K8sDownwardProjection {
    pub items: Option<Vec<K8sDownwardFile>>,
}

#[derive(Debug)]
pub struct K8sProjection {
    pub service_account_token: Option<K8sTokenProjection>,
    pub config_map: Option<K8sKeyedProjection>,
    pub secret: Option<K8sKeyedProjection>,
    pub downward_api: Option<K8sDownwardProjection>,
}

#[derive(Debug)]
pub struct K8sProjectedVolume {
    pub sources: Option<Vec<K8sProjection>>,
    pub default_mode: Option<i32>,
}

#[derive(Debug)]
pub struct K8sDownwardVolume {
    pub items: Option<Vec<K8sDownwardFile>>,
    pub default_mode: Option<i32>,
}

#[derive(Debug)]
pub struct K8sVolume {
    pub name: String,
    pub host_path: Option<K8sHostPath>,
    pub empty_dir: Option<K8sEmptyDir>,
    pub config_map: Option<K8sKeyedVolume>,
    pub secret: Option<K8sKeyedVolume>,
    pub persistent_volume_claim: Option<K8sClaimVolume>,
    pub projected: Option<K8sProjectedVolume>,
    pub downward_api: Option<K8sDownwardVolume>,
}

#[derive(Debug)]
pub struct K8sSysctl {
    pub name: String,
    pub value: String,
}

#[derive(Debug)]
pub struct K8sPodSecurityContext {
    pub run_as_user: Option<i64>,
    pub run_as_group: Option<i64>,
    pub run_as_non_root: Option<bool>,
    pub fs_group: Option<i64>,
    pub supplemental_groups: Option<Vec<i64>>,
    pub fs_group_change_policy: Option<String>,
    pub sysctls: Option<Vec<K8sSysctl>>,
    pub seccomp_profile: Option<K8sProfile>,
}

#[derive(Debug)]
pub struct K8sHostAlias {
    pub ip: Option<String>,
    pub hostnames: Option<Vec<String>>,
}

/// A reference to an object of the same namespace.
#[derive(Debug)]
pub struct K8sNameRef {
    pub name: Option<String>,
}

#[derive(Debug)]
pub struct K8sReadinessGate {
    pub condition_type: String,
}

#[derive(Debug)]
pub struct K8sDnsOption {
    pub name: Option<String>,
    pub value: Option<String>,
}

#[derive(Debug)]
pub struct K8sDnsConfig {
    pub nameservers: Option<Vec<String>>,
    pub searches: Option<Vec<String>>,
    pub options: Option<Vec<K8sDnsOption>>,
}

#[derive(Debug)]
pub struct K8sPodSpec {
    pub containers: Vec<K8sContainer>,
    pub init_containers: Option<Vec<K8sContainer>>,
    pub ephemeral_containers: Option<Vec<K8sEphemeralContainer>>,
    pub volumes: Option<Vec<K8sVolume>>,
    pub restart_policy: Option<String>,
    pub node_selector: Option<StrMap<String>>,
    pub readiness_gates: Option<Vec<K8sReadinessGate>>,
    pub node_name: Option<String>,
    pub active_deadline_seconds: Option<i64>,
    pub service_account_name: Option<String>,
    pub automount_service_account_token: Option<bool>,
    pub termination_grace_period_seconds: Option<i64>,
    pub priority: Option<i32>,
    pub runtime_class_name: Option<String>,
    pub security_context: Option<K8sPodSecurityContext>,
    pub host_network: Option<bool>,
    pub host_pid: Option<bool>,
    pub host_ipc: Option<bool>,
    pub host_aliases: Option<Vec<K8sHostAlias>>,
    pub image_pull_secrets: Option<Vec<K8sNameRef>>,
    pub enable_service_links: Option<bool>,
    pub share_process_namespace: Option<bool>,
    pub dns_policy: Option<String>,
    pub dns_config: Option<K8sDnsConfig>,
    pub hostname: Option<String>,
    pub subdomain: Option<String>,
}

#[derive(Debug)]
pub struct K8sMeta {
    pub uid: Option<String>,
    pub name: Option<String>,
    pub namespace: Option<String>,
    pub deletion_timestamp: Option<Timestamp>,
    pub annotations: Option<StrMap<String>>,
    pub labels: Option<StrMap<String>>,
    pub generation: Option<i64>,
}

#[derive(Debug)]
pub struct K8sPod {
    pub metadata: K8sMeta,
    pub spec: Option<K8sPodSpec>,
    /// The start time that the pod's status reports.
    pub start_time: Option<Timestamp>,
}

/// An event of a watch on pods.
#[derive(Debug)]
pub enum K8sPodEvent {
    Applied(K8sPod),
    Deleted(K8sPod),
    Restarted(Vec<K8sPod>),
}

} // verus!
