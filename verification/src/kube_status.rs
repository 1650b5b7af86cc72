//! The status of pods and of the node as it is reported to the API server.
use crate::error::KubeletError;
use crate::json::{field, text, unsigned, JsonNumber, JsonValue};
use crate::lists::{map_all, mapped};
use crate::node_status::{NodeAddress, NodeCondition, NodeConditionStatus, NodeStatus};
use crate::paths::{join_path, path_join};
use crate::strmap::StrMap;
use crate::text::{
    cat2, cat3, cat4, dec, decimal, digit_char, opt_text, same, to_lowercase, unicode_lowercase,
};
use crate::types::{PodRef, PodUID, Timestamp};
use crate::rfc3339::{
    format_rfc3339, format_rfc3339_offset, rfc3339_offset_text, rfc3339_text,
};
use vstd::prelude::*;

verus! {

// ---------------------------------------------------------------------------
// How to reach the API server
// ---------------------------------------------------------------------------

/// How the agent reaches the API server.
#[derive(Debug)]
pub enum KubeConnectMode {
    InCluster,
    Kubeconfig { path: String },
    Standalone,
}

/// The file whose presence shows that the agent runs inside the cluster.
pub const SERVICE_ACCOUNT_TOKEN: &'static str =
    "/var/run/secrets/kubernetes.io/serviceaccount/token";

impl KubeConnectMode {
    /// The configuration file below a home directory.
    pub fn home_config(home: &str) -> (r: String)
        ensures
            r@ == path_join(home@, ".kube/config"@),
    {
        join_path(home, ".kube/config")
    }

    /// Chooses the way to the API server: the service account where its token
    /// is there, else the configuration file that the environment names, else
    /// the one in the home directory where it exists, else none.
    pub fn detect(
        token_exists: bool,
        kubeconfig: Option<String>,
        home: Option<String>,
        home_config_exists: bool,
    ) -> (r: Self)
        ensures
            r matches KubeConnectMode::InCluster <==> token_exists,
            !token_exists ==> match (kubeconfig, home) {
                (Some(k), _) => r matches KubeConnectMode::Kubeconfig { path } && path == k,
                (None, Some(h)) => if home_config_exists {
                    r matches KubeConnectMode::Kubeconfig { path } && path@ == path_join(
                        h@,
                        ".kube/config"@,
                    )
                } else {
                    r is Standalone
                },
                (None, None) => r is Standalone,
            },
    {
        if token_exists {
            return KubeConnectMode::InCluster;
        }
        if let Some(path) = kubeconfig {
            return KubeConnectMode::Kubeconfig { path };
        }
        if let Some(h) = home {
            if home_config_exists {
                return KubeConnectMode::Kubeconfig { path: Self::home_config(h.as_str()) };
            }
        }
        KubeConnectMode::Standalone
    }
}

// ---------------------------------------------------------------------------
// Times
// ---------------------------------------------------------------------------

/// The renewal time of a lease as the API server takes it: with microseconds.
pub fn format_lease_renew_time(now: Timestamp) -> (r: Option<String>)
    ensures
        opt_text(r) == rfc3339_text(now.secs, now.nanos, false),
{
    format_rfc3339(now.secs, now.nanos, false)
}

// ---------------------------------------------------------------------------
// Pod status
// ---------------------------------------------------------------------------

#[derive(Debug, Clone, Copy, PartialEq, Eq, Structural)]
pub enum PodPhase {
    Pending,
    Running,
    Succeeded,
    Failed,
    Unknown,
}

#[derive(Debug)]
pub enum ContainerState {
    Waiting { reason: String, message: Option<String> },
    Running { started_at: Timestamp },
    Terminated {
        exit_code: i32,
        reason: String,
        message: Option<String>,
        started_at: Timestamp,
        finished_at: Timestamp,
    },
}

#[derive(Debug)]
pub struct ContainerStatus {
    pub name: String,
    pub state: ContainerState,
    pub last_state: Option<ContainerState>,
    pub ready: bool,
    pub restart_count: u32,
    pub image: String,
    pub image_id: String,
    pub container_id: Option<String>,
}

#[derive(Debug, Clone, Copy, PartialEq, Eq, Structural)]
pub enum PodConditionType {
    PodScheduled,
    ContainersReady,
    Initialized,
    Ready,
    PodReadyToStartContainers,
    DisruptionTarget,
}

#[derive(Debug, Clone, Copy, PartialEq, Eq, Structural)]
pub enum ConditionStatus {
    True,
    False,
    Unknown,
}

#[derive(Debug)]
pub struct PodCondition {
    pub condition_type: PodConditionType,
    pub status: ConditionStatus,
    pub reason: Option<String>,
    pub message: Option<String>,
    pub last_probe_time: Option<Timestamp>,
    pub last_transition_time: Option<Timestamp>,
}

/// What the agent knows of the life of a pod.
#[derive(Debug)]
pub struct PodLifecycleState {
    pub phase: PodPhase,
    pub reason: Option<String>,
    pub conditions: Vec<PodCondition>,
    pub container_statuses: Vec<ContainerStatus>,
    pub init_container_statuses: Vec<ContainerStatus>,
    pub ephemeral_container_statuses: Vec<ContainerStatus>,
    pub start_time: Option<Timestamp>,
    pub pod_ip: Option<String>,
    pub host_ip: Option<String>,
    pub observed_generation: Option<i64>,
}

/// A container state as the API server takes it; one of the three is present.
#[derive(Debug)]
pub struct K8sContainerState {
    pub waiting: Option<K8sStateWaiting>,
    pub running: Option<Timestamp>,
    pub terminated: Option<K8sStateTerminated>,
}

#[derive(Debug)]
pub struct K8sStateWaiting {
    pub reason: Option<String>,
    pub message: Option<String>,
}

#[derive(Debug)]
pub struct K8sStateTerminated {
    pub exit_code: i32,
    pub reason: Option<String>,
    pub message: Option<String>,
    pub started_at: Option<Timestamp>,
    pub finished_at: Option<Timestamp>,
}

#[derive(Debug)]
pub struct K8sContainerStatus {
    pub name: String,
    pub state: K8sContainerState,
    pub last_state: Option<K8sContainerState>,
    pub ready: bool,
    pub restart_count: i32,
    pub image: String,
    pub image_id: String,
    pub container_id: Option<String>,
    pub started: Option<bool>,
}

#[derive(Debug)]
pub struct K8sPodCondition {
    pub type_: String,
    pub status: String,
    pub reason: Option<String>,
    pub message: Option<String>,
    pub last_probe_time: Option<Timestamp>,
    pub last_transition_time: Option<Timestamp>,
}

pub open spec fn phase_text(p: PodPhase) -> Seq<char> {
    match p {
        PodPhase::Pending => "Pending"@,
        PodPhase::Running => "Running"@,
        PodPhase::Succeeded => "Succeeded"@,
        PodPhase::Failed => "Failed"@,
        PodPhase::Unknown => "Unknown"@,
    }
}

/// The phase of a pod in the words of the API server.
pub fn lifecycle_to_phase(state: &PodLifecycleState) -> (r: &'static str)
    ensures
        r@ == phase_text(state.phase),
        state.phase is Pending ==> r@ == "Pending"@,
        state.phase is Running ==> r@ == "Running"@,
        state.phase is Succeeded ==> r@ == "Succeeded"@,
        state.phase is Failed ==> r@ == "Failed"@,
        state.phase is Unknown ==> r@ == "Unknown"@,
{
    match state.phase {
        PodPhase::Pending => "Pending",
        PodPhase::Running => "Running",
        PodPhase::Succeeded => "Succeeded",
        PodPhase::Failed => "Failed",
        PodPhase::Unknown => "Unknown",
    }
}

pub open spec fn pod_condition_text(t: PodConditionType) -> Seq<char> {
    match t {
        PodConditionType::PodScheduled => "PodScheduled"@,
        PodConditionType::ContainersReady => "ContainersReady"@,
        PodConditionType::Initialized => "Initialized"@,
        PodConditionType::Ready => "Ready"@,
        PodConditionType::PodReadyToStartContainers => "PodReadyToStartContainers"@,
        PodConditionType::DisruptionTarget => "DisruptionTarget"@,
    }
}

pub open spec fn condition_status_text(s: ConditionStatus) -> Seq<char> {
    match s {
        ConditionStatus::True => "True"@,
        ConditionStatus::False => "False"@,
        ConditionStatus::Unknown => "Unknown"@,
    }
}

pub open spec fn pod_condition_is(c: PodCondition, r: K8sPodCondition) -> bool {
    &&& r.type_@ == pod_condition_text(c.condition_type)
    &&& r.status@ == condition_status_text(c.status)
    &&& r.reason == c.reason
    &&& r.message == c.message
    &&& r.last_probe_time == c.last_probe_time
    &&& r.last_transition_time == c.last_transition_time
}

pub open spec fn pod_condition_rel() -> spec_fn(PodCondition, K8sPodCondition) -> bool {
    |c: PodCondition, r: K8sPodCondition| pod_condition_is(c, r)
}

/// Converts a condition of a pod.
pub fn pod_condition_to_k8s(c: &PodCondition) -> (r: K8sPodCondition)
    ensures
        pod_condition_is(*c, r),
{
    let type_ = match c.condition_type {
        PodConditionType::PodScheduled => "PodScheduled",
        PodConditionType::ContainersReady => "ContainersReady",
        PodConditionType::Initialized => "Initialized",
        PodConditionType::Ready => "Ready",
        PodConditionType::PodReadyToStartContainers => "PodReadyToStartContainers",
        PodConditionType::DisruptionTarget => "DisruptionTarget",
    };
    let status = match c.status {
        ConditionStatus::True => "True",
        ConditionStatus::False => "False",
        ConditionStatus::Unknown => "Unknown",
    };
    K8sPodCondition {
        type_: type_.to_owned(),
        status: status.to_owned(),
        reason: c.reason.clone(),
        message: c.message.clone(),
        last_probe_time: c.last_probe_time,
        last_transition_time: c.last_transition_time,
    }
}

pub open spec fn container_state_is(s: ContainerState, r: K8sContainerState) -> bool {
    match s {
        ContainerState::Waiting { reason, message } => {
            &&& r.waiting matches Some(w)
            &&& w.reason == Some(reason)
            &&& w.message == message
            &&& r.running is None
            &&& r.terminated is None
        },
        ContainerState::Running { started_at } => {
            &&& r.waiting is None
            &&& r.running == Some(started_at)
            &&& r.terminated is None
        },
        ContainerState::Terminated { exit_code, reason, message, started_at, finished_at } => {
            &&& r.waiting is None
            &&& r.running is None
            &&& r.terminated matches Some(t)
            &&& t.exit_code == exit_code
            &&& t.reason == Some(reason)
            &&& t.message == message
            &&& t.started_at == Some(started_at)
            &&& t.finished_at == Some(finished_at)
        },
    }
}

/// Converts a container state.
pub fn container_state_to_k8s(s: &ContainerState) -> (r: K8sContainerState)
    ensures
        container_state_is(*s, r),
{
    match s {
        ContainerState::Waiting { reason, message } => K8sContainerState {
            waiting: Some(
                K8sStateWaiting { reason: Some(reason.clone()), message: message.clone() },
            ),
            running: None,
            terminated: None,
        },
        ContainerState::Running { started_at } => K8sContainerState {
            waiting: None,
            running: Some(*started_at),
            terminated: None,
        },
        ContainerState::Terminated { exit_code, reason, message, started_at, finished_at } =>
        K8sContainerState {
            waiting: None,
            running: None,
            terminated: Some(
                K8sStateTerminated {
                    exit_code: *exit_code,
                    reason: Some(reason.clone()),
                    message: message.clone(),
                    started_at: Some(*started_at),
                    finished_at: Some(*finished_at),
                },
            ),
        },
    }
}

/// A container counts as ready where the agent says so or where it runs, and
/// as started once it has left the waiting state.
pub open spec fn container_status_is(c: ContainerStatus, r: K8sContainerStatus) -> bool {
    &&& r.name == c.name
    &&& container_state_is(c.state, r.state)
    &&& match c.last_state {
        Some(s) => r.last_state matches Some(x) && container_state_is(s, x),
        None => r.last_state is None,
    }
    &&& r.ready == (c.ready || c.state is Running)
    &&& r.restart_count == c.restart_count as i32
    &&& r.image == c.image
    &&& r.image_id == c.image_id
    &&& r.container_id == c.container_id
    &&& r.started == Some(!(c.state is Waiting))
}

pub open spec fn container_status_rel() -> spec_fn(ContainerStatus, K8sContainerStatus) -> bool {
    |c: ContainerStatus, r: K8sContainerStatus| container_status_is(c, r)
}

/// Converts the status of a container.
pub fn lifecycle_container_status_to_k8s(cs: &ContainerStatus) -> (r: K8sContainerStatus)
    ensures
        container_status_is(*cs, r),
{
    let (state_ready, started): (bool, bool) = match &cs.state {
        ContainerState::Waiting { .. } => (false, false),
        ContainerState::Running { .. } => (true, true),
        ContainerState::Terminated { .. } => (false, true),
    };
    K8sContainerStatus {
        name: cs.name.clone(),
        state: container_state_to_k8s(&cs.state),
        last_state: match &cs.last_state {
            Some(s) => Some(container_state_to_k8s(s)),
            None => None,
        },
        ready: cs.ready || state_ready,
        restart_count: #[verifier::truncate] (cs.restart_count as i32),
        image: cs.image.clone(),
        image_id: cs.image_id.clone(),
        container_id: cs.container_id.clone(),
        started: Some(started),
    }
}

/// The status of a pod as it is patched into the API server's object.
#[derive(Debug)]
pub struct PodStatusPatch {
    pub name: String,
    pub namespace: String,
    pub phase: String,
    pub reason: Option<String>,
    pub conditions: Vec<K8sPodCondition>,
    pub container_statuses: Vec<K8sContainerStatus>,
    pub init_container_statuses: Vec<K8sContainerStatus>,
    pub ephemeral_container_statuses: Vec<K8sContainerStatus>,
    pub start_time: Option<Timestamp>,
    pub pod_ip: Option<String>,
    pub pod_ips: Vec<String>,
    pub host_ip: Option<String>,
    pub host_ips: Vec<String>,
    pub observed_generation: Option<i64>,
}

pub open spec fn pod_status_patch_is(
    pod: PodRef,
    s: PodLifecycleState,
    r: PodStatusPatch,
) -> bool {
    &&& r.name == pod.name
    &&& r.namespace == pod.namespace
    &&& r.phase@ == phase_text(s.phase)
    &&& r.reason == s.reason
    &&& mapped(s.conditions@, r.conditions@, pod_condition_rel())
    &&& mapped(s.container_statuses@, r.container_statuses@, container_status_rel())
    &&& mapped(s.init_container_statuses@, r.init_container_statuses@, container_status_rel())
    &&& mapped(
        s.ephemeral_container_statuses@,
        r.ephemeral_container_statuses@,
        container_status_rel(),
    )
    &&& r.start_time == s.start_time
    &&& r.pod_ip == s.pod_ip
    &&& r.pod_ips@ == match s.pod_ip {
        Some(ip) => if ip@.len() > 0 {
            seq![ip]
        } else {
            Seq::empty()
        },
        None => Seq::empty(),
    }
    &&& r.host_ip == s.host_ip
    &&& r.host_ips@ == match s.host_ip {
        Some(ip) => seq![ip],
        None => Seq::empty(),
    }
    &&& r.observed_generation == s.observed_generation
}

/// The patch that reports the status of a pod. The list of pod addresses
/// leaves an empty address out.
pub fn pod_status_patch(pod_ref: &PodRef, state: &PodLifecycleState) -> (r: PodStatusPatch)
    ensures
        pod_status_patch_is(*pod_ref, *state, r),
{
    let mut pod_ips: Vec<String> = Vec::new();
    if let Some(ip) = &state.pod_ip {
        if !ip.as_str().is_empty() {
            pod_ips.push(ip.clone());
        }
    }
    let mut host_ips: Vec<String> = Vec::new();
    if let Some(ip) = &state.host_ip {
        host_ips.push(ip.clone());
    }
    PodStatusPatch {
        name: pod_ref.name.clone(),
        namespace: pod_ref.namespace.clone(),
        phase: lifecycle_to_phase(state).to_owned(),
        reason: state.reason.clone(),
        conditions: map_all(&state.conditions, pod_condition_to_k8s, Ghost(pod_condition_rel())),
        container_statuses: map_all(
            &state.container_statuses,
            lifecycle_container_status_to_k8s,
            Ghost(container_status_rel()),
        ),
        init_container_statuses: map_all(
            &state.init_container_statuses,
            lifecycle_container_status_to_k8s,
            Ghost(container_status_rel()),
        ),
        ephemeral_container_statuses: map_all(
            &state.ephemeral_container_statuses,
            lifecycle_container_status_to_k8s,
            Ghost(container_status_rel()),
        ),
        start_time: state.start_time,
        pod_ip: state.pod_ip.clone(),
        pod_ips,
        host_ip: state.host_ip.clone(),
        host_ips,
        observed_generation: state.observed_generation,
    }
}

// ---------------------------------------------------------------------------
// Events
// ---------------------------------------------------------------------------

/// An event about a container, as it is created in the API server.
#[derive(Debug)]
pub struct ContainerEvent {
    pub name: String,
    pub namespace: String,
    pub pod_name: String,
    pub pod_uid: String,
    pub field_path: String,
    pub reason: String,
    pub message: String,
    pub event_type: String,
    pub count: i32,
    pub component: String,
    pub host: String,
}

/// The event that reports something about a container of a pod.
pub fn container_event(
    node_name: &str,
    pod_ref: &PodRef,
    uid: &PodUID,
    container_name: &str,
    event_type: &str,
    reason: &str,
    message: &str,
) -> (r: ContainerEvent)
    ensures
        r.name@ == pod_ref.name@ + "."@ + unicode_lowercase(reason@),
        r.namespace == pod_ref.namespace,
        r.pod_name == pod_ref.name,
        r.pod_uid == uid.0,
        r.field_path@ == "spec.containers{"@ + container_name@ + "}"@,
        r.reason@ == reason@,
        r.message@ == message@,
        r.event_type@ == event_type@,
        r.count == 1,
        r.component@ == "kubelet"@,
        r.host@ == node_name@,
{
    let lower = to_lowercase(reason);
    ContainerEvent {
        name: cat3(pod_ref.name.as_str(), ".", lower.as_str()),
        namespace: pod_ref.namespace.clone(),
        pod_name: pod_ref.name.clone(),
        pod_uid: uid.0.clone(),
        field_path: cat3("spec.containers{", container_name, "}"),
        reason: reason.to_owned(),
        message: message.to_owned(),
        event_type: event_type.to_owned(),
        count: 1,
        component: "kubelet".to_owned(),
        host: node_name.to_owned(),
    }
}

// ---------------------------------------------------------------------------
// Requests to the API server
// ---------------------------------------------------------------------------

/// How a request to the API server ended.
#[derive(Debug)]
pub enum ApiOutcome {
    Done,
    /// The API server answered with an error code and said why.
    Refused { code: u16, why: String },
    /// The request failed otherwise.
    Failed { why: String },
}

/// Whether the API server answered that it does not know the object.
pub fn is_not_found(outcome: &ApiOutcome) -> (r: bool)
    ensures
        r == (outcome matches ApiOutcome::Refused { code, .. } && code == 404),
{
    match outcome {
        ApiOutcome::Refused { code, .. } => *code == 404,
        _ => false,
    }
}

/// Why a request did not succeed.
pub open spec fn why_of(outcome: ApiOutcome) -> Seq<char> {
    match outcome {
        ApiOutcome::Done => Seq::empty(),
        ApiOutcome::Refused { why, .. } => why@,
        ApiOutcome::Failed { why } => why@,
    }
}

pub(crate) fn why(outcome: &ApiOutcome) -> (r: String)
    ensures
        r@ == why_of(*outcome),
{
    match outcome {
        ApiOutcome::Done => String::new(),
        ApiOutcome::Refused { why, .. } => why.clone(),
        ApiOutcome::Failed { why } => why.clone(),
    }
}

/// The requests that report the status of the node.
#[derive(Debug, Clone, Copy, PartialEq, Eq, Structural)]
pub enum NodeReportRequest {
    /// Patch the status.
    PatchStatus,
    /// Create the node object.
    CreateNode,
    /// Patch the status of the node object that was just created.
    PatchAgain,
}

/// What follows a request that reports the status of the node.
#[derive(Debug)]
pub enum NodeReportStep {
    Finished,
    Next(NodeReportRequest),
    Error(KubeletError),
}

/// What follows when `request` ended with `outcome`: a node that the API
/// server does not know is created and its status patched once more.
pub fn node_report_step(request: NodeReportRequest, outcome: &ApiOutcome) -> (r: NodeReportStep)
    ensures
        match (request, *outcome) {
            (NodeReportRequest::CreateNode, ApiOutcome::Done) => r matches NodeReportStep::Next(n)
                && n == NodeReportRequest::PatchAgain,
            (_, ApiOutcome::Done) => r is Finished,
            (NodeReportRequest::PatchStatus, ApiOutcome::Refused { code, why }) => if code == 404 {
                r matches NodeReportStep::Next(n) && n == NodeReportRequest::CreateNode
            } else {
                r matches NodeReportStep::Error(KubeletError::NodeStatus(m)) && m@
                    == "PATCH node status: "@ + why@
            },
            (NodeReportRequest::PatchStatus, ApiOutcome::Failed { why }) => r matches
                NodeReportStep::Error(KubeletError::NodeStatus(m)) && m@ == "PATCH node status: "@
                + why@,
            (NodeReportRequest::CreateNode, o) => r matches NodeReportStep::Error(
                KubeletError::NodeStatus(m),
            ) && m@ == "CREATE node before status patch: "@ + why_of(o),
            (NodeReportRequest::PatchAgain, o) => r matches NodeReportStep::Error(
                KubeletError::NodeStatus(m),
            ) && m@ == "PATCH node status after create: "@ + why_of(o),
        },
{
    if let ApiOutcome::Done = outcome {
        return match request {
            NodeReportRequest::CreateNode => NodeReportStep::Next(NodeReportRequest::PatchAgain),
            _ => NodeReportStep::Finished,
        };
    }
    let w = why(outcome);
    match request {
        NodeReportRequest::PatchStatus => if is_not_found(outcome) {
            NodeReportStep::Next(NodeReportRequest::CreateNode)
        } else {
            NodeReportStep::Error(
                KubeletError::NodeStatus(cat2("PATCH node status: ", w.as_str())),
            )
        },
        NodeReportRequest::CreateNode => NodeReportStep::Error(
            KubeletError::NodeStatus(cat2("CREATE node before status patch: ", w.as_str())),
        ),
        NodeReportRequest::PatchAgain => NodeReportStep::Error(
            KubeletError::NodeStatus(cat2("PATCH node status after create: ", w.as_str())),
        ),
    }
}

/// How the report of a pod status ends.
pub fn pod_status_reported(outcome: &ApiOutcome) -> (r: Result<(), KubeletError>)
    ensures
        match *outcome {
            ApiOutcome::Done => r is Ok,
            o => r matches Err(KubeletError::PodStatus(m)) && m@ == "PATCH pod status: "@ + why_of(o),
        },
{
    match outcome {
        ApiOutcome::Done => Ok(()),
        _ => {
            let w = why(outcome);
            Err(KubeletError::PodStatus(cat2("PATCH pod status: ", w.as_str())))
        },
    }
}

/// How the patch of the conditions of a node ends.
pub fn conditions_patched(outcome: &ApiOutcome) -> (r: Result<(), KubeletError>)
    ensures
        match *outcome {
            ApiOutcome::Done => r is Ok,
            o => r matches Err(KubeletError::NodeStatus(m)) && m@ == "PATCH node conditions: "@ + why_of(o),
        },
{
    match outcome {
        ApiOutcome::Done => Ok(()),
        _ => {
            let w = why(outcome);
            Err(KubeletError::NodeStatus(cat2("PATCH node conditions: ", w.as_str())))
        },
    }
}

/// How the renewal of a lease ends.
pub fn lease_renewed(outcome: &ApiOutcome) -> (r: Result<(), KubeletError>)
    ensures
        match *outcome {
            ApiOutcome::Done => r is Ok,
            o => r matches Err(KubeletError::NodeStatus(m)) && m@ == "renew lease: "@ + why_of(o),
        },
{
    match outcome {
        ApiOutcome::Done => Ok(()),
        _ => {
            let w = why(outcome);
            Err(KubeletError::NodeStatus(cat2("renew lease: ", w.as_str())))
        },
    }
}

/// How the deletion of a pod ends: a pod that is already gone is no error.
pub fn delete_pod_result(pod_ref: &PodRef, outcome: &ApiOutcome) -> (r: Result<(), KubeletError>)
    ensures
        match *outcome {
            ApiOutcome::Done => r is Ok,
            ApiOutcome::Refused { code, why } => if code == 404 {
                r is Ok
            } else {
                r matches Err(KubeletError::PodStatus(m)) && m@ == "DELETE pod "@ + pod_ref.name@
                    + ": "@ + why@
            },
            ApiOutcome::Failed { why } => r matches Err(KubeletError::PodStatus(m)) && m@
                == "DELETE pod "@ + pod_ref.name@ + ": "@ + why@,
        },
{
    match outcome {
        ApiOutcome::Done => Ok(()),
        _ => if is_not_found(outcome) {
            Ok(())
        } else {
            let w = why(outcome);
            Err(
                KubeletError::PodStatus(
                    cat4("DELETE pod ", pod_ref.name.as_str(), ": ", w.as_str()),
                ),
            )
        },
    }
}

// ---------------------------------------------------------------------------
// Node status
// ---------------------------------------------------------------------------

/// `v` is an object whose members are exactly those named in `keys`.
pub open spec fn members_are(v: JsonValue, keys: Set<Seq<char>>) -> bool {
    v matches JsonValue::Object(m) && m@.dom() == keys
}

/// `v` is the string `t`.
pub open spec fn is_text(v: Option<JsonValue>, t: Seq<char>) -> bool {
    text(v) == Some(t)
}

pub(crate) fn string_value(s: &str) -> (r: JsonValue)
    ensures
        is_text(Some(r), s@),
{
    JsonValue::Str(s.to_owned())
}

pub open spec fn node_condition_status(c: NodeCondition) -> Seq<char> {
    if c.status == NodeConditionStatus::True {
        "True"@
    } else {
        "False"@
    }
}

/// A condition of the node as the API server takes it.
#[derive(Debug)]
pub struct K8sNodeCondition {
    pub type_: String,
    pub status: String,
    pub reason: Option<String>,
    pub message: Option<String>,
    pub last_heartbeat_time: Timestamp,
    pub last_transition_time: Timestamp,
}

/// Converts a condition of the node; both of its times become `now`.
pub fn node_condition_to_k8s(c: &NodeCondition, now: Timestamp) -> (r: K8sNodeCondition)
    ensures
        r.type_@ == c.condition_type.text(),
        r.status@ == node_condition_status(*c),
        r.reason == Some(c.reason),
        r.message == Some(c.message),
        r.last_heartbeat_time == now,
        r.last_transition_time == now,
{
    K8sNodeCondition {
        type_: c.condition_type.name().to_owned(),
        status: if c.status == NodeConditionStatus::True {
            "True".to_owned()
        } else {
            "False".to_owned()
        },
        reason: Some(c.reason.clone()),
        message: Some(c.message.clone()),
        last_heartbeat_time: now,
        last_transition_time: now,
    }
}

pub open spec fn node_condition_json(c: NodeCondition, now: Seq<char>, v: JsonValue) -> bool {
    &&& members_are(
        v,
        set![
            "type"@,
            "status"@,
            "reason"@,
            "message"@,
            "lastHeartbeatTime"@,
            "lastTransitionTime"@,
        ],
    )
    &&& is_text(field(v, "type"@), c.condition_type.text())
    &&& is_text(field(v, "status"@), node_condition_status(c))
    &&& is_text(field(v, "reason"@), c.reason@)
    &&& is_text(field(v, "message"@), c.message@)
    &&& is_text(field(v, "lastHeartbeatTime"@), now)
    &&& is_text(field(v, "lastTransitionTime"@), now)
}

proof fn lemma_condition_keys_differ()
    ensures
        "type"@ != "status"@,
        "type"@ != "reason"@,
        "type"@ != "message"@,
        "type"@ != "lastHeartbeatTime"@,
        "type"@ != "lastTransitionTime"@,
        "status"@ != "reason"@,
        "status"@ != "message"@,
        "status"@ != "lastHeartbeatTime"@,
        "status"@ != "lastTransitionTime"@,
        "reason"@ != "message"@,
        "reason"@ != "lastHeartbeatTime"@,
        "reason"@ != "lastTransitionTime"@,
        "message"@ != "lastHeartbeatTime"@,
        "message"@ != "lastTransitionTime"@,
        "lastHeartbeatTime"@ != "lastTransitionTime"@,
{
    reveal_strlit("type");
    reveal_strlit("status");
    reveal_strlit("reason");
    reveal_strlit("message");
    reveal_strlit("lastHeartbeatTime");
    reveal_strlit("lastTransitionTime");
    assert("type"@.len() == 4);
    assert("status"@.len() == 6);
    assert("reason"@.len() == 6);
    assert("message"@.len() == 7);
    assert("lastHeartbeatTime"@.len() == 17);
    assert("lastTransitionTime"@.len() == 18);
    assert("status"@[0] != "reason"@[0]);
}

fn condition_value(c: &NodeCondition, now: &str) -> (v: JsonValue)
    ensures
        node_condition_json(*c, now@, v),
{
    let status = if c.status == NodeConditionStatus::True {
        "True"
    } else {
        "False"
    };
    let mut m: StrMap<JsonValue> = StrMap::new();
    m.insert("type".to_owned(), string_value(c.condition_type.name()));
    m.insert("status".to_owned(), string_value(status));
    m.insert("reason".to_owned(), string_value(c.reason.as_str()));
    m.insert("message".to_owned(), string_value(c.message.as_str()));
    m.insert("lastHeartbeatTime".to_owned(), string_value(now));
    m.insert("lastTransitionTime".to_owned(), string_value(now));
    proof {
        lemma_condition_keys_differ();
        assert(m@.dom() =~= set![
            "type"@,
            "status"@,
            "reason"@,
            "message"@,
            "lastHeartbeatTime"@,
            "lastTransitionTime"@,
        ]);
    }
    JsonValue::Object(m)
}

pub open spec fn address_json(a: NodeAddress, v: JsonValue) -> bool {
    &&& members_are(v, set!["type"@, "address"@])
    &&& is_text(field(v, "type"@), a.address_type.text())
    &&& is_text(field(v, "address"@), a.address@)
}

pub open spec fn address_rel() -> spec_fn(NodeAddress, JsonValue) -> bool {
    |a: NodeAddress, v: JsonValue| address_json(a, v)
}

fn address_value(a: &NodeAddress) -> (v: JsonValue)
    ensures
        address_json(*a, v),
{
    let mut m: StrMap<JsonValue> = StrMap::new();
    m.insert("type".to_owned(), string_value(a.address_type.name()));
    m.insert("address".to_owned(), string_value(a.address.as_str()));
    proof {
        reveal_strlit("type");
        reveal_strlit("address");
        assert("type"@.len() == 4);
        assert("address"@.len() == 7);
        assert(m@.dom() =~= set!["type"@, "address"@]);
    }
    JsonValue::Object(m)
}

/// The decimal fraction of a number of thousandths, without trailing zeros.
pub open spec fn thousandths(n: nat) -> Seq<char> {
    if n % 100 == 0 {
        seq![digit_char(n / 100)]
    } else if n % 10 == 0 {
        seq![digit_char(n / 100), digit_char(n / 10 % 10)]
    } else {
        seq![digit_char(n / 100), digit_char(n / 10 % 10), digit_char(n % 10)]
    }
}

/// A number of thousandths of a core, in cores.
pub open spec fn cores_text(millicores: nat) -> Seq<char> {
    if millicores % 1000 == 0 {
        dec(millicores / 1000)
    } else {
        dec(millicores / 1000) + "."@ + thousandths(millicores % 1000)
    }
}

fn cores(millicores: u64) -> (r: String)
    ensures
        r@ == cores_text(millicores as nat),
{
    let whole = decimal(millicores / 1000);
    let n: u64 = millicores % 1000;
    if n == 0 {
        return whole;
    }
    let a = decimal(n / 100);
    let b = decimal(n / 10 % 10);
    let c = decimal(n % 10);
    let frac = if n % 100 == 0 {
        a
    } else if n % 10 == 0 {
        cat2(a.as_str(), b.as_str())
    } else {
        cat3(a.as_str(), b.as_str(), c.as_str())
    };
    proof {
        assert(frac@ =~= thousandths(n as nat));
    }
    cat3(whole.as_str(), ".", frac.as_str())
}

pub open spec fn resources_json(
    millicores: u64,
    memory_kib: nat,
    pods: u32,
    v: JsonValue,
) -> bool {
    &&& members_are(v, set!["cpu"@, "memory"@, "pods"@])
    &&& is_text(field(v, "cpu"@), cores_text(millicores as nat))
    &&& is_text(field(v, "memory"@), dec(memory_kib) + "Ki"@)
    &&& is_text(field(v, "pods"@), dec(pods as nat))
}

fn resources_value(millicores: u64, memory_kib: u64, pods: u32) -> (v: JsonValue)
    ensures
        resources_json(millicores, memory_kib as nat, pods, v),
{
    let cpu = cores(millicores);
    let kib = decimal(memory_kib);
    let memory = cat2(kib.as_str(), "Ki");
    let count = decimal(pods as u64);
    let mut m: StrMap<JsonValue> = StrMap::new();
    m.insert("cpu".to_owned(), string_value(cpu.as_str()));
    m.insert("memory".to_owned(), string_value(memory.as_str()));
    m.insert("pods".to_owned(), string_value(count.as_str()));
    proof {
        reveal_strlit("cpu");
        reveal_strlit("memory");
        reveal_strlit("pods");
        assert("cpu"@.len() == 3);
        assert("memory"@.len() == 6);
        assert("pods"@.len() == 4);
        assert(m@.dom() =~= set!["cpu"@, "memory"@, "pods"@]);
    }
    JsonValue::Object(m)
}

pub open spec fn endpoints_json(v: JsonValue) -> bool {
    &&& members_are(v, set!["kubeletEndpoint"@])
    &&& field(v, "kubeletEndpoint"@) matches Some(e)
    &&& members_are(e, set!["Port"@])
    &&& unsigned(field(e, "Port"@)) == Some(10250u64)
}

fn endpoints_value() -> (v: JsonValue)
    ensures
        endpoints_json(v),
{
    let mut port: StrMap<JsonValue> = StrMap::new();
    port.insert("Port".to_owned(), JsonValue::Number(JsonNumber::PosInt(10250)));
    assert(port@.dom() =~= set!["Port"@]);
    let mut m: StrMap<JsonValue> = StrMap::new();
    m.insert("kubeletEndpoint".to_owned(), JsonValue::Object(port));
    assert(m@.dom() =~= set!["kubeletEndpoint"@]);
    JsonValue::Object(m)
}

pub open spec fn condition_json_rel(now: Seq<char>) -> spec_fn(NodeCondition, JsonValue) -> bool {
    |c: NodeCondition, v: JsonValue| node_condition_json(c, now, v)
}

/// The status part of the patch.
pub open spec fn node_status_json(s: NodeStatus, now: Seq<char>, v: JsonValue) -> bool {
    &&& members_are(
        v,
        set!["conditions"@, "daemonEndpoints"@, "addresses"@, "capacity"@, "allocatable"@],
    )
    &&& field(v, "conditions"@) matches Some(JsonValue::Array(c))
    &&& mapped(s.conditions@, c@, condition_json_rel(now))
    &&& field(v, "daemonEndpoints"@) matches Some(d)
    &&& endpoints_json(d)
    &&& field(v, "addresses"@) matches Some(JsonValue::Array(a))
    &&& mapped(s.addresses@, a@, address_rel())
    &&& field(v, "capacity"@) matches Some(k)
    &&& resources_json(
        s.capacity.cpu_millicores,
        (s.capacity.memory_bytes / 1024) as nat,
        s.capacity.pods,
        k,
    )
    &&& field(v, "allocatable"@) matches Some(l)
    &&& resources_json(
        s.capacity.cpu_millicores,
        (s.capacity.memory_bytes * 9 / 10240) as nat,
        s.capacity.pods,
        l,
    )
}

proof fn lemma_status_keys_differ()
    ensures
        "conditions"@ != "daemonEndpoints"@,
        "conditions"@ != "addresses"@,
        "conditions"@ != "capacity"@,
        "conditions"@ != "allocatable"@,
        "daemonEndpoints"@ != "addresses"@,
        "daemonEndpoints"@ != "capacity"@,
        "daemonEndpoints"@ != "allocatable"@,
        "addresses"@ != "capacity"@,
        "addresses"@ != "allocatable"@,
        "capacity"@ != "allocatable"@,
{
    reveal_strlit("conditions");
    reveal_strlit("daemonEndpoints");
    reveal_strlit("addresses");
    reveal_strlit("capacity");
    reveal_strlit("allocatable");
    assert("conditions"@.len() == 10);
    assert("daemonEndpoints"@.len() == 15);
    assert("addresses"@.len() == 9);
    assert("capacity"@.len() == 8);
    assert("allocatable"@.len() == 11);
}

fn status_value(s: &NodeStatus, now: &str) -> (v: JsonValue)
    requires
        s.capacity.memory_bytes * 9 <= u64::MAX,
    ensures
        node_status_json(*s, now@, v),
{
    let f = |c: &NodeCondition| -> (r: JsonValue)
        ensures
            node_condition_json(*c, now@, r),
        { condition_value(c, now) };
    let conditions = map_all(&s.conditions, f, Ghost(condition_json_rel(now@)));
    let addresses = map_all(&s.addresses, address_value, Ghost(address_rel()));
    let mut m: StrMap<JsonValue> = StrMap::new();
    m.insert("conditions".to_owned(), JsonValue::Array(conditions));
    m.insert("daemonEndpoints".to_owned(), endpoints_value());
    m.insert("addresses".to_owned(), JsonValue::Array(addresses));
    m.insert(
        "capacity".to_owned(),
        resources_value(
            s.capacity.cpu_millicores,
            s.capacity.memory_bytes / 1024,
            s.capacity.pods,
        ),
    );
    m.insert(
        "allocatable".to_owned(),
        resources_value(
            s.capacity.cpu_millicores,
            s.capacity.memory_bytes * 9 / (1024 * 10),
            s.capacity.pods,
        ),
    );
    proof {
        lemma_status_keys_differ();
        assert(m@.dom() =~= set![
            "conditions"@,
            "daemonEndpoints"@,
            "addresses"@,
            "capacity"@,
            "allocatable"@,
        ]);
    }
    JsonValue::Object(m)
}

pub open spec fn name_json(name: Seq<char>, v: JsonValue) -> bool {
    members_are(v, set!["name"@]) && is_text(field(v, "name"@), name)
}

/// The patch that reports the status of the node at the time `now`, which is
/// given as text.
pub open spec fn node_status_patch_is(s: NodeStatus, now: Seq<char>, v: JsonValue) -> bool {
    &&& members_are(v, set!["apiVersion"@, "kind"@, "metadata"@, "status"@])
    &&& is_text(field(v, "apiVersion"@), "v1"@)
    &&& is_text(field(v, "kind"@), "Node"@)
    &&& field(v, "metadata"@) matches Some(d)
    &&& name_json(s.name@, d)
    &&& field(v, "status"@) matches Some(t)
    &&& node_status_json(s, now, t)
}

proof fn lemma_patch_keys_differ()
    ensures
        "apiVersion"@ != "kind"@,
        "apiVersion"@ != "metadata"@,
        "apiVersion"@ != "status"@,
        "apiVersion"@ != "spec"@,
        "kind"@ != "metadata"@,
        "kind"@ != "status"@,
        "kind"@ != "spec"@,
        "metadata"@ != "status"@,
        "metadata"@ != "spec"@,
{
    reveal_strlit("apiVersion");
    reveal_strlit("kind");
    reveal_strlit("metadata");
    reveal_strlit("status");
    reveal_strlit("spec");
    assert("apiVersion"@.len() == 10);
    assert("kind"@.len() == 4);
    assert("metadata"@.len() == 8);
    assert("status"@.len() == 6);
    assert("spec"@.len() == 4);
    assert("kind"@[0] != "spec"@[0]);
}

/// Builds the patch that reports the status of the node at a moment. There is
/// none where the moment has no RFC 3339 text.
pub fn build_node_status_patch(status: &NodeStatus, now: Timestamp) -> (r: Option<JsonValue>)
    requires
        status.capacity.memory_bytes * 9 <= u64::MAX,
    ensures
        match rfc3339_offset_text(now.secs, now.nanos) {
            Some(t) => r matches Some(v) && node_status_patch_is(*status, t, v),
            None => r is None,
        },
{
    match format_rfc3339_offset(now.secs, now.nanos) {
        Some(t) => Some(node_status_patch_at(status, t.as_str())),
        None => None,
    }
}

/// Builds the patch that reports the status of the node, with the text of the
/// moment.
pub fn node_status_patch_at(status: &NodeStatus, now: &str) -> (v: JsonValue)
    requires
        status.capacity.memory_bytes * 9 <= u64::MAX,
    ensures
        node_status_patch_is(*status, now@, v),
{
    let mut meta: StrMap<JsonValue> = StrMap::new();
    meta.insert("name".to_owned(), string_value(status.name.as_str()));
    assert(meta@.dom() =~= set!["name"@]);
    let mut m: StrMap<JsonValue> = StrMap::new();
    m.insert("apiVersion".to_owned(), string_value("v1"));
    m.insert("kind".to_owned(), string_value("Node"));
    m.insert("metadata".to_owned(), JsonValue::Object(meta));
    m.insert("status".to_owned(), status_value(status, now));
    proof {
        lemma_patch_keys_differ();
        assert(m@.dom() =~= set!["apiVersion"@, "kind"@, "metadata"@, "status"@]);
    }
    JsonValue::Object(m)
}

/// The name of an architecture in the words of the cluster.
pub open spec fn arch_label(arch: Seq<char>) -> Seq<char> {
    if arch == "x86_64"@ {
        "amd64"@
    } else if arch == "aarch64"@ {
        "arm64"@
    } else {
        arch
    }
}

pub open spec fn node_labels_json(name: Seq<char>, os: Seq<char>, arch: Seq<char>, v: JsonValue) -> bool {
    &&& members_are(
        v,
        set![
            "kubernetes.io/hostname"@,
            "kubernetes.io/os"@,
            "kubernetes.io/arch"@,
            "beta.kubernetes.io/os"@,
            "beta.kubernetes.io/arch"@,
        ],
    )
    &&& is_text(field(v, "kubernetes.io/hostname"@), name)
    &&& is_text(field(v, "kubernetes.io/os"@), os)
    &&& is_text(field(v, "kubernetes.io/arch"@), arch_label(arch))
    &&& is_text(field(v, "beta.kubernetes.io/os"@), os)
    &&& is_text(field(v, "beta.kubernetes.io/arch"@), arch_label(arch))
}

fn node_labels_value(name: &str, os: &str, arch: &str) -> (v: JsonValue)
    ensures
        node_labels_json(name@, os@, arch@, v),
{
    let label = if same(arch, "x86_64") {
        "amd64"
    } else if same(arch, "aarch64") {
        "arm64"
    } else {
        arch
    };
    let mut m: StrMap<JsonValue> = StrMap::new();
    m.insert("kubernetes.io/hostname".to_owned(), string_value(name));
    m.insert("kubernetes.io/os".to_owned(), string_value(os));
    m.insert("kubernetes.io/arch".to_owned(), string_value(label));
    m.insert("beta.kubernetes.io/os".to_owned(), string_value(os));
    m.insert("beta.kubernetes.io/arch".to_owned(), string_value(label));
    proof {
        reveal_strlit("kubernetes.io/hostname");
        reveal_strlit("kubernetes.io/os");
        reveal_strlit("kubernetes.io/arch");
        reveal_strlit("beta.kubernetes.io/os");
        reveal_strlit("beta.kubernetes.io/arch");
        assert("kubernetes.io/hostname"@.len() == 22);
        assert("kubernetes.io/os"@.len() == 16);
        assert("kubernetes.io/arch"@.len() == 18);
        assert("beta.kubernetes.io/os"@.len() == 21);
        assert("beta.kubernetes.io/arch"@.len() == 23);
        assert(m@.dom() =~= set![
            "kubernetes.io/hostname"@,
            "kubernetes.io/os"@,
            "kubernetes.io/arch"@,
            "beta.kubernetes.io/os"@,
            "beta.kubernetes.io/arch"@,
        ]);
    }
    JsonValue::Object(m)
}

pub open spec fn node_metadata_json(name: Seq<char>, os: Seq<char>, arch: Seq<char>, v: JsonValue) -> bool {
    &&& members_are(v, set!["name"@, "labels"@])
    &&& is_text(field(v, "name"@), name)
    &&& field(v, "labels"@) matches Some(l)
    &&& node_labels_json(name, os, arch, l)
}

/// The patch that creates the node object, with its well-known labels and an
/// empty specification.
pub open spec fn node_apply_patch_is(name: Seq<char>, os: Seq<char>, arch: Seq<char>, v: JsonValue) -> bool {
    &&& members_are(v, set!["apiVersion"@, "kind"@, "metadata"@, "spec"@])
    &&& is_text(field(v, "apiVersion"@), "v1"@)
    &&& is_text(field(v, "kind"@), "Node"@)
    &&& field(v, "metadata"@) matches Some(d)
    &&& node_metadata_json(name, os, arch, d)
    &&& field(v, "spec"@) matches Some(s)
    &&& members_are(s, Set::<Seq<char>>::empty())
}

/// Builds the patch with which the agent creates the node object for itself,
/// on a machine with the given operating system and architecture.
pub fn build_node_apply_patch(status: &NodeStatus, os: &str, arch: &str) -> (v: JsonValue)
    ensures
        node_apply_patch_is(status.name@, os@, arch@, v),
{
    let labels = node_labels_value(status.name.as_str(), os, arch);
    let mut meta: StrMap<JsonValue> = StrMap::new();
    meta.insert("name".to_owned(), string_value(status.name.as_str()));
    meta.insert("labels".to_owned(), labels);
    let spec: StrMap<JsonValue> = StrMap::new();
    let mut m: StrMap<JsonValue> = StrMap::new();
    proof {
        reveal_strlit("name");
        reveal_strlit("labels");
        assert("name"@.len() == 4);
        assert("labels"@.len() == 6);
        assert(meta@.dom() =~= set!["name"@, "labels"@]);
        assert(spec@.dom() =~= Set::<Seq<char>>::empty());
    }
    m.insert("apiVersion".to_owned(), string_value("v1"));
    m.insert("kind".to_owned(), string_value("Node"));
    m.insert("metadata".to_owned(), JsonValue::Object(meta));
    m.insert("spec".to_owned(), JsonValue::Object(spec));
    proof {
        lemma_patch_keys_differ();
        assert(m@.dom() =~= set!["apiVersion"@, "kind"@, "metadata"@, "spec"@]);
    }
    JsonValue::Object(m)
}

/// The patch that gives a node the conditions `conditions`.
pub open spec fn node_conditions_patch_is(
    name: Seq<char>,
    conditions: Seq<JsonValue>,
    v: JsonValue,
) -> bool {
    &&& members_are(v, set!["apiVersion"@, "kind"@, "metadata"@, "status"@])
    &&& is_text(field(v, "apiVersion"@), "v1"@)
    &&& is_text(field(v, "kind"@), "Node"@)
    &&& field(v, "metadata"@) matches Some(d)
    &&& name_json(name, d)
    &&& field(v, "status"@) matches Some(s)
    &&& members_are(s, set!["conditions"@])
    &&& field(s, "conditions"@) matches Some(JsonValue::Array(c))
    &&& c@ == conditions
}

/// Builds the patch that gives a node the conditions `conditions`, each as the
/// API server writes it.
pub fn node_conditions_patch(node_name: &str, conditions: Vec<JsonValue>) -> (v: JsonValue)
    ensures
        node_conditions_patch_is(node_name@, conditions@, v),
{
    let mut meta: StrMap<JsonValue> = StrMap::new();
    meta.insert("name".to_owned(), string_value(node_name));
    assert(meta@.dom() =~= set!["name"@]);
    let mut status: StrMap<JsonValue> = StrMap::new();
    status.insert("conditions".to_owned(), JsonValue::Array(conditions));
    assert(status@.dom() =~= set!["conditions"@]);
    let mut m: StrMap<JsonValue> = StrMap::new();
    m.insert("apiVersion".to_owned(), string_value("v1"));
    m.insert("kind".to_owned(), string_value("Node"));
    m.insert("metadata".to_owned(), JsonValue::Object(meta));
    m.insert("status".to_owned(), JsonValue::Object(status));
    proof {
        lemma_patch_keys_differ();
        assert(m@.dom() =~= set!["apiVersion"@, "kind"@, "metadata"@, "status"@]);
    }
    JsonValue::Object(m)
}

pub open spec fn lease_metadata_json(name: Seq<char>, v: JsonValue) -> bool {
    &&& members_are(v, set!["name"@, "namespace"@])
    &&& is_text(field(v, "name"@), name)
    &&& is_text(field(v, "namespace"@), "kube-node-lease"@)
}

pub open spec fn lease_spec_json(
    name: Seq<char>,
    duration_seconds: u32,
    renew_time: Seq<char>,
    v: JsonValue,
) -> bool {
    &&& members_are(v, set!["holderIdentity"@, "leaseDurationSeconds"@, "renewTime"@])
    &&& is_text(field(v, "holderIdentity"@), name)
    &&& unsigned(field(v, "leaseDurationSeconds"@)) == Some(duration_seconds as u64)
    &&& is_text(field(v, "renewTime"@), renew_time)
}

/// The patch with which a node renews its lease.
pub open spec fn lease_patch_is(
    name: Seq<char>,
    duration_seconds: u32,
    renew_time: Seq<char>,
    v: JsonValue,
) -> bool {
    &&& members_are(v, set!["apiVersion"@, "kind"@, "metadata"@, "spec"@])
    &&& is_text(field(v, "apiVersion"@), "coordination.k8s.io/v1"@)
    &&& is_text(field(v, "kind"@), "Lease"@)
    &&& field(v, "metadata"@) matches Some(d)
    &&& lease_metadata_json(name, d)
    &&& field(v, "spec"@) matches Some(s)
    &&& lease_spec_json(name, duration_seconds, renew_time, s)
}

/// Builds the patch with which a node renews its lease at the time
/// `renew_time`.
pub fn lease_patch(node_name: &str, duration_seconds: u32, renew_time: &str) -> (v: JsonValue)
    ensures
        lease_patch_is(node_name@, duration_seconds, renew_time@, v),
{
    let mut meta: StrMap<JsonValue> = StrMap::new();
    meta.insert("name".to_owned(), string_value(node_name));
    meta.insert("namespace".to_owned(), string_value("kube-node-lease"));
    let mut spec: StrMap<JsonValue> = StrMap::new();
    spec.insert("holderIdentity".to_owned(), string_value(node_name));
    spec.insert(
        "leaseDurationSeconds".to_owned(),
        JsonValue::Number(JsonNumber::PosInt(duration_seconds as u64)),
    );
    spec.insert("renewTime".to_owned(), string_value(renew_time));
    let mut m: StrMap<JsonValue> = StrMap::new();
    proof {
        reveal_strlit("name");
        reveal_strlit("namespace");
        reveal_strlit("holderIdentity");
        reveal_strlit("leaseDurationSeconds");
        reveal_strlit("renewTime");
        assert("name"@.len() == 4);
        assert("namespace"@.len() == 9);
        assert("holderIdentity"@.len() == 14);
        assert("leaseDurationSeconds"@.len() == 20);
        assert("renewTime"@.len() == 9);
        assert(meta@.dom() =~= set!["name"@, "namespace"@]);
        assert(spec@.dom() =~= set!["holderIdentity"@, "leaseDurationSeconds"@, "renewTime"@]);
    }
    m.insert("apiVersion".to_owned(), string_value("coordination.k8s.io/v1"));
    m.insert("kind".to_owned(), string_value("Lease"));
    m.insert("metadata".to_owned(), JsonValue::Object(meta));
    m.insert("spec".to_owned(), JsonValue::Object(spec));
    proof {
        lemma_patch_keys_differ();
        assert(m@.dom() =~= set!["apiVersion"@, "kind"@, "metadata"@, "spec"@]);
    }
    JsonValue::Object(m)
}

// ---------------------------------------------------------------------------
// Laws
// ---------------------------------------------------------------------------

/// Two phases have the same text only where they are the same, and each has
/// its own name.
pub proof fn law_phases_have_their_names(p: PodPhase, q: PodPhase)
    ensures
        phase_text(p) == phase_text(q) <==> p == q,
        phase_text(p) == "Pending"@ <==> p is Pending,
        phase_text(p) == "Running"@ <==> p is Running,
        phase_text(p) == "Succeeded"@ <==> p is Succeeded,
        phase_text(p) == "Failed"@ <==> p is Failed,
        phase_text(p) == "Unknown"@ <==> p is Unknown,
{
    reveal_strlit("Pending");
    reveal_strlit("Running");
    reveal_strlit("Succeeded");
    reveal_strlit("Failed");
    reveal_strlit("Unknown");
    assert("Pending"@[0] == 'P' && "Running"@[0] == 'R' && "Succeeded"@[0] == 'S' && "Failed"@[0]
        == 'F' && "Unknown"@[0] == 'U');
}

/// Two kinds of pod condition have the same text only where they are the same,
/// and each has its own name; so with their states.
pub proof fn law_pod_conditions_have_their_names(
    t: PodConditionType,
    u: PodConditionType,
    s: ConditionStatus,
)
    ensures
        pod_condition_text(t) == pod_condition_text(u) <==> t == u,
        pod_condition_text(t) == "PodScheduled"@ <==> t is PodScheduled,
        pod_condition_text(t) == "ContainersReady"@ <==> t is ContainersReady,
        pod_condition_text(t) == "Initialized"@ <==> t is Initialized,
        pod_condition_text(t) == "Ready"@ <==> t is Ready,
        pod_condition_text(t) == "PodReadyToStartContainers"@ <==> t is PodReadyToStartContainers,
        pod_condition_text(t) == "DisruptionTarget"@ <==> t is DisruptionTarget,
        condition_status_text(s) == "True"@ <==> s is True,
        condition_status_text(s) == "False"@ <==> s is False,
        condition_status_text(s) == "Unknown"@ <==> s is Unknown,
{
    reveal_strlit("PodScheduled");
    reveal_strlit("ContainersReady");
    reveal_strlit("Initialized");
    reveal_strlit("Ready");
    reveal_strlit("PodReadyToStartContainers");
    reveal_strlit("DisruptionTarget");
    reveal_strlit("True");
    reveal_strlit("False");
    reveal_strlit("Unknown");
    assert("PodScheduled"@.len() == 12 && "ContainersReady"@.len() == 15 && "Initialized"@.len()
        == 11 && "Ready"@.len() == 5 && "PodReadyToStartContainers"@.len() == 25
        && "DisruptionTarget"@.len() == 16);
    assert("True"@[0] == 'T' && "False"@[0] == 'F' && "Unknown"@[0] == 'U');
}

/// The state of a container that is reported is the one that it has, with its
/// own parts, and is one state only.
pub proof fn law_container_states_keep_their_parts(s: ContainerState, r: K8sContainerState)
    requires
        container_state_is(s, r),
    ensures
        r.waiting is Some <==> s is Waiting,
        r.running is Some <==> s is Running,
        r.terminated is Some <==> s is Terminated,
        r.waiting matches Some(w) ==> w.reason == Some(s->Waiting_reason) && w.message
            == s->Waiting_message,
        r.running matches Some(t) ==> t == s->Running_started_at,
        r.terminated matches Some(t) ==> {
            &&& t.exit_code == s->Terminated_exit_code
            &&& t.reason == Some(s->Terminated_reason)
            &&& t.message == s->Terminated_message
            &&& t.started_at == Some(s->Terminated_started_at)
            &&& t.finished_at == Some(s->Terminated_finished_at)
        },
{
}

/// A container that runs is reported ready, one that waits as not started;
/// what it is and how often it was started again is reported as it is.
pub proof fn law_container_status_keeps_its_parts(c: ContainerStatus, r: K8sContainerStatus)
    requires
        container_status_is(c, r),
    ensures
        r.name@ == c.name@,
        r.image@ == c.image@,
        r.image_id@ == c.image_id@,
        r.container_id == c.container_id,
        c.state is Running ==> r.ready,
        c.ready ==> r.ready,
        r.ready ==> c.ready || c.state is Running,
        c.restart_count <= i32::MAX ==> r.restart_count == c.restart_count,
        c.state is Waiting ==> r.started == Some(false),
        c.state is Running ==> r.started == Some(true),
        c.state is Terminated ==> r.started == Some(true),
        c.state is Running <==> r.state.running is Some,
        c.last_state is Some <==> r.last_state is Some,
        c.last_state matches Some(l) ==> (l is Terminated <==> r.last_state->0.terminated is Some),
{
}

/// The report on a pod gives its phase by name, its own conditions and the
/// statuses of its own containers, each kind with its own and in order.
pub proof fn law_pod_report_keeps_its_parts(pod: PodRef, s: PodLifecycleState, r: PodStatusPatch)
    requires
        pod_status_patch_is(pod, s, r),
    ensures
        r.name@ == pod.name@,
        r.namespace@ == pod.namespace@,
        r.phase@ == "Failed"@ <==> s.phase is Failed,
        r.phase@ == "Succeeded"@ <==> s.phase is Succeeded,
        r.phase@ == "Running"@ <==> s.phase is Running,
        r.phase@ == "Pending"@ <==> s.phase is Pending,
        r.phase@ == "Unknown"@ <==> s.phase is Unknown,
        r.conditions@.len() == s.conditions@.len(),
        forall|i: int|
            0 <= i < s.conditions@.len() ==> {
                &&& (#[trigger] r.conditions@[i]).type_@ == "Ready"@
                    <==> s.conditions@[i].condition_type is Ready
                &&& r.conditions@[i].status@ == "True"@ <==> s.conditions@[i].status is True
                &&& r.conditions@[i].status@ == "False"@ <==> s.conditions@[i].status is False
                &&& r.conditions@[i].reason == s.conditions@[i].reason
                &&& r.conditions@[i].message == s.conditions@[i].message
                &&& r.conditions@[i].last_probe_time == s.conditions@[i].last_probe_time
                &&& r.conditions@[i].last_transition_time == s.conditions@[i].last_transition_time
            },
        r.container_statuses@.len() == s.container_statuses@.len(),
        forall|i: int|
            0 <= i < s.container_statuses@.len() ==> (#[trigger] r.container_statuses@[i]).name
                == s.container_statuses@[i].name,
        r.init_container_statuses@.len() == s.init_container_statuses@.len(),
        forall|i: int|
            0 <= i < s.init_container_statuses@.len() ==> (
            #[trigger] r.init_container_statuses@[i]).name == s.init_container_statuses@[i].name,
        r.ephemeral_container_statuses@.len() == s.ephemeral_container_statuses@.len(),
        forall|i: int|
            0 <= i < s.ephemeral_container_statuses@.len() ==> (
            #[trigger] r.ephemeral_container_statuses@[i]).name
                == s.ephemeral_container_statuses@[i].name,
        r.start_time == s.start_time,
        s.pod_ip matches Some(ip) ==> r.pod_ip == Some(ip) && (ip@.len() > 0 ==> r.pod_ips@
            == seq![ip]) && (ip@.len() == 0 ==> r.pod_ips@.len() == 0),
        s.pod_ip is None ==> r.pod_ip is None && r.pod_ips@.len() == 0,
        s.host_ip matches Some(ip) ==> r.host_ip == Some(ip) && r.host_ips@ == seq![ip],
        s.host_ip is None ==> r.host_ip is None && r.host_ips@.len() == 0,
        r.observed_generation == s.observed_generation,
{
    law_phases_have_their_names(s.phase, s.phase);
    assert forall|i: int| 0 <= i < s.conditions@.len() implies {
        &&& (#[trigger] r.conditions@[i]).type_@ == "Ready"@
            <==> s.conditions@[i].condition_type is Ready
        &&& r.conditions@[i].status@ == "True"@ <==> s.conditions@[i].status is True
        &&& r.conditions@[i].status@ == "False"@ <==> s.conditions@[i].status is False
        &&& r.conditions@[i].reason == s.conditions@[i].reason
        &&& r.conditions@[i].message == s.conditions@[i].message
        &&& r.conditions@[i].last_probe_time == s.conditions@[i].last_probe_time
        &&& r.conditions@[i].last_transition_time == s.conditions@[i].last_transition_time
    } by {
        let c = s.conditions@[i];
        assert(pod_condition_rel()(c, r.conditions@[i]));
        law_pod_conditions_have_their_names(c.condition_type, c.condition_type, c.status);
    }
    assert forall|i: int| 0 <= i < s.container_statuses@.len() implies (
    #[trigger] r.container_statuses@[i]).name == s.container_statuses@[i].name by {
        assert(container_status_rel()(s.container_statuses@[i], r.container_statuses@[i]));
    }
    assert forall|i: int| 0 <= i < s.init_container_statuses@.len() implies (
    #[trigger] r.init_container_statuses@[i]).name == s.init_container_statuses@[i].name by {
        assert(container_status_rel()(
            s.init_container_statuses@[i],
            r.init_container_statuses@[i],
        ));
    }
    assert forall|i: int| 0 <= i < s.ephemeral_container_statuses@.len() implies (
    #[trigger] r.ephemeral_container_statuses@[i]).name
        == s.ephemeral_container_statuses@[i].name by {
        assert(container_status_rel()(
            s.ephemeral_container_statuses@[i],
            r.ephemeral_container_statuses@[i],
        ));
    }
}

/// Whole cores are written as their number, a part of a core behind a point:
/// tenths, hundredths and thousandths each at their own place, and no zero at
/// the end.
pub proof fn law_cores_are_written_in_decimals(n: nat, a: nat, b: nat, c: nat)
    requires
        a < 10,
        b < 10,
        c < 10,
    ensures
        cores_text(1000 * n) == dec(n),
        a > 0 ==> cores_text(1000 * n + 100 * a) == dec(n) + "."@ + dec(a),
        b > 0 ==> cores_text(1000 * n + 100 * a + 10 * b) == dec(n) + "."@ + dec(a) + dec(b),
        c > 0 ==> cores_text(1000 * n + 100 * a + 10 * b + c) == dec(n) + "."@ + dec(a) + dec(b)
            + dec(c),
{
    let t = 100 * a;
    let u = 100 * a + 10 * b;
    let v = 100 * a + 10 * b + c;
    assert(t < 1000 && u < 1000 && v < 1000);
    assert((1000 * n) / 1000 == n && (1000 * n) % 1000 == 0);
    assert((1000 * n + t) / 1000 == n && (1000 * n + t) % 1000 == t as int);
    assert((1000 * n + u) / 1000 == n && (1000 * n + u) % 1000 == u as int);
    assert((1000 * n + v) / 1000 == n && (1000 * n + v) % 1000 == v as int);
    assert(dec(a) =~= seq![digit_char(a)]);
    assert(dec(b) =~= seq![digit_char(b)]);
    assert(dec(c) =~= seq![digit_char(c)]);
    if a > 0 {
        assert(cores_text(1000 * n + t) =~= dec(n) + "."@ + dec(a));
    }
    if b > 0 {
        assert(u / 100 == a && u / 10 % 10 == b);
        assert(cores_text(1000 * n + u) =~= dec(n) + "."@ + dec(a) + dec(b));
    }
    if c > 0 {
        assert(v / 100 == a && v / 10 % 10 == b && v % 10 == c);
        assert(cores_text(1000 * n + v) =~= dec(n) + "."@ + dec(a) + dec(b) + dec(c));
    }
}

/// The report on the node gives its capacity, of which nine tenths of the
/// memory can be allocated, one condition for each that it has, with its name
/// and `True` only where it holds, and its addresses in order.
pub proof fn law_node_report_keeps_its_parts(s: NodeStatus, now: Seq<char>, v: JsonValue)
    requires
        node_status_patch_is(s, now, v),
    ensures
        field(v, "metadata"@) matches Some(d) && text(field(d, "name"@)) == Some(s.name@),
        field(v, "status"@) matches Some(t) && {
            &&& field(t, "capacity"@) matches Some(c) && {
                &&& text(field(c, "memory"@)) == Some(
                    dec((s.capacity.memory_bytes as int / 1024) as nat) + "Ki"@,
                )
                &&& text(field(c, "pods"@)) == Some(dec(s.capacity.pods as nat))
                &&& s.capacity.cpu_millicores % 1000 == 0 ==> text(field(c, "cpu"@)) == Some(
                    dec((s.capacity.cpu_millicores as int / 1000) as nat),
                )
            }
            &&& field(t, "allocatable"@) matches Some(c) && {
                &&& text(field(c, "memory"@)) == Some(
                    dec((s.capacity.memory_bytes as int * 9 / 10240) as nat) + "Ki"@,
                )
                &&& text(field(c, "pods"@)) == Some(dec(s.capacity.pods as nat))
                &&& s.capacity.cpu_millicores % 1000 == 0 ==> text(field(c, "cpu"@)) == Some(
                    dec((s.capacity.cpu_millicores as int / 1000) as nat),
                )
            }
            &&& field(t, "daemonEndpoints"@) matches Some(e) && field(e, "kubeletEndpoint"@) matches Some(
                k,
            ) && unsigned(field(k, "Port"@)) == Some(10250u64)
            &&& field(t, "conditions"@) matches Some(JsonValue::Array(cs)) && cs@.len()
                == s.conditions@.len() && forall|i: int|
                0 <= i < s.conditions@.len() ==> {
                    &&& text(field(#[trigger] cs@[i], "type"@)) == Some(
                        s.conditions@[i].condition_type.text(),
                    )
                    &&& text(field(cs@[i], "status"@)) == Some("True"@)
                        <==> s.conditions@[i].status is True
                    &&& text(field(cs@[i], "status"@)) == Some("False"@)
                        <==> !(s.conditions@[i].status is True)
                    &&& text(field(cs@[i], "reason"@)) == Some(s.conditions@[i].reason@)
                    &&& text(field(cs@[i], "message"@)) == Some(s.conditions@[i].message@)
                    &&& text(field(cs@[i], "lastHeartbeatTime"@)) == Some(now)
                    &&& text(field(cs@[i], "lastTransitionTime"@)) == Some(now)
                }
            &&& field(t, "addresses"@) matches Some(JsonValue::Array(xs)) && xs@.len()
                == s.addresses@.len() && forall|i: int|
                0 <= i < s.addresses@.len() ==> {
                    &&& text(field(#[trigger] xs@[i], "type"@)) == Some(
                        s.addresses@[i].address_type.text(),
                    )
                    &&& text(field(xs@[i], "address"@)) == Some(s.addresses@[i].address@)
                }
        },
{
    reveal_strlit("True");
    reveal_strlit("False");
    assert("True"@[0] == 'T' && "False"@[0] == 'F');
    let t = field(v, "status"@)->0;
    let cs = field(t, "conditions"@)->0->Array_0@;
    let xs = field(t, "addresses"@)->0->Array_0@;
    assert forall|i: int| 0 <= i < s.conditions@.len() implies node_condition_json(
        s.conditions@[i],
        now,
        #[trigger] cs[i],
    ) by {
        assert(condition_json_rel(now)(s.conditions@[i], cs[i]));
    }
    assert forall|i: int| 0 <= i < s.addresses@.len() implies address_json(
        s.addresses@[i],
        #[trigger] xs[i],
    ) by {
        assert(address_rel()(s.addresses@[i], xs[i]));
    }
}

/// The node is registered under its own name, with its operating system and
/// its architecture under the labels for each; the two common architectures go
/// by the names that container images use.
pub proof fn law_node_labels_keep_their_parts(
    name: Seq<char>,
    os: Seq<char>,
    arch: Seq<char>,
    v: JsonValue,
)
    requires
        node_apply_patch_is(name, os, arch, v),
    ensures
        field(v, "metadata"@) matches Some(d) && {
            &&& text(field(d, "name"@)) == Some(name)
            &&& field(d, "labels"@) matches Some(l) && {
                &&& text(field(l, "kubernetes.io/hostname"@)) == Some(name)
                &&& text(field(l, "kubernetes.io/os"@)) == Some(os)
                &&& text(field(l, "beta.kubernetes.io/os"@)) == Some(os)
                &&& text(field(l, "beta.kubernetes.io/arch"@)) == text(
                    field(l, "kubernetes.io/arch"@),
                )
                &&& arch == "x86_64"@ ==> text(field(l, "kubernetes.io/arch"@)) == Some("amd64"@)
                &&& arch == "aarch64"@ ==> text(field(l, "kubernetes.io/arch"@)) == Some("arm64"@)
                &&& arch != "x86_64"@ && arch != "aarch64"@ ==> text(
                    field(l, "kubernetes.io/arch"@),
                ) == Some(arch)
            }
        },
{
    reveal_strlit("x86_64");
    reveal_strlit("aarch64");
    assert("x86_64"@.len() == 6 && "aarch64"@.len() == 7);
}

/// The lease of a node has the node's name, is held by the node, and says how
/// long it lasts and when it was renewed.
pub proof fn law_lease_is_held_by_its_node(
    name: Seq<char>,
    duration_seconds: u32,
    renew_time: Seq<char>,
    v: JsonValue,
)
    requires
        lease_patch_is(name, duration_seconds, renew_time, v),
    ensures
        text(field(v, "kind"@)) == Some("Lease"@),
        field(v, "metadata"@) matches Some(d) && text(field(d, "name"@)) == Some(name) && text(
            field(d, "namespace"@),
        ) == Some("kube-node-lease"@),
        field(v, "spec"@) matches Some(s) && {
            &&& text(field(s, "holderIdentity"@)) == Some(name)
            &&& unsigned(field(s, "leaseDurationSeconds"@)) == Some(duration_seconds as u64)
            &&& text(field(s, "renewTime"@)) == Some(renew_time)
        },
{
}

/// Patching the conditions of a node names the node and hands on exactly those
/// conditions.
pub proof fn law_conditions_are_handed_on(
    name: Seq<char>,
    conditions: Seq<JsonValue>,
    v: JsonValue,
)
    requires
        node_conditions_patch_is(name, conditions, v),
    ensures
        text(field(v, "kind"@)) == Some("Node"@),
        field(v, "metadata"@) matches Some(d) && text(field(d, "name"@)) == Some(name),
        field(v, "status"@) matches Some(s) && field(s, "conditions"@) matches Some(
            JsonValue::Array(c),
        ) && c@ == conditions,
{
}

} // verus!
