//! Pods from manifest files on the node.
use crate::kube_watcher::{
    law_policies_are_read_by_name, parse_pull_policy, parse_restart_policy, pull_policy_of,
    restart_policy_of, text_or,
};
use crate::lists::{collect_some, kept, lemma_kept_has, map_all, mapped};
use crate::paths::{extension, file_stem, file_stem_of, path_extension};
use crate::strmap::{
    copy_text_map, distinct_keys, lemma_map_of_dom, lemma_map_of_value, map_of, StrMap,
};
use crate::text::{cat3, copy_strings, holds, opt_same, opt_text, same, texts};
use crate::types::{
    ContainerSpec, HostAlias, KeyToPath, PodOperation, PodRef, PodSpec, PodUID, PodUpdate,
    ProjectedVolumeSource, ResourceQuantity, ResourceRequirements, RestartPolicy, VolumeMount,
    VolumeSource, VolumeSpec,
};
use vstd::prelude::*;

verus! {

// ---------------------------------------------------------------------------
// Manifests
// ---------------------------------------------------------------------------

#[derive(Debug)]
pub struct ManifestKeyToPath {
    pub key: String,
    pub path: String,
    pub mode: Option<i32>,
}

#[derive(Debug)]
pub struct ManifestHostPath {
    pub path: String,
    pub path_type: Option<String>,
}

#[derive(Debug)]
pub struct ManifestEmptyDir {
    pub medium: Option<String>,
}

#[derive(Debug)]
pub struct ManifestConfigMap {
    pub name: Option<String>,
    pub items: Option<Vec<ManifestKeyToPath>>,
    pub optional: Option<bool>,
    pub default_mode: Option<i32>,
}

#[derive(Debug)]
pub struct ManifestSecret {
    pub secret_name: Option<String>,
    pub items: Option<Vec<ManifestKeyToPath>>,
    pub optional: Option<bool>,
    pub default_mode: Option<i32>,
}

#[derive(Debug)]
pub struct ManifestClaim {
    pub claim_name: String,
    pub read_only: Option<bool>,
}

#[derive(Debug)]
pub struct ManifestTokenProjection {
    pub audience: Option<String>,
    pub expiration_seconds: Option<u64>,
    pub path: String,
}

/// A config map or secret as a part of a projected volume.
#[derive(Debug)]
pub struct ManifestKeyedProjection {
    pub name: Option<String>,
    pub items: Option<Vec<ManifestKeyToPath>>,
    pub optional: Option<bool>,
}

#[derive(Debug)]
pub struct ManifestProjectedSource {
    pub service_account_token: Option<ManifestTokenProjection>,
    pub config_map: Option<ManifestKeyedProjection>,
    pub secret: Option<ManifestKeyedProjection>,
}

#[derive(Debug)]
pub struct ManifestProjected {
    pub sources: Option<Vec<ManifestProjectedSource>>,
    pub default_mode: Option<i32>,
}

#[derive(Debug)]
pub struct ManifestVolume {
    pub name: String,
    pub host_path: Option<ManifestHostPath>,
    pub empty_dir: Option<ManifestEmptyDir>,
    pub config_map: Option<ManifestConfigMap>,
    pub secret: Option<ManifestSecret>,
    pub persistent_volume_claim: Option<ManifestClaim>,
    pub projected: Option<ManifestProjected>,
}

#[derive(Debug)]
pub struct ManifestVolumeMount {
    pub name: String,
    pub mount_path: String,
    pub sub_path: Option<String>,
    pub read_only: Option<bool>,
}

#[derive(Debug)]
pub struct ManifestContainer {
    pub name: String,
    pub image: String,
    pub command: Option<Vec<String>>,
    pub args: Option<Vec<String>>,
    pub volume_mounts: Option<Vec<ManifestVolumeMount>>,
    pub image_pull_policy: Option<String>,
}

#[derive(Debug)]
pub struct ManifestHostAlias {
    pub ip: Option<String>,
    pub hostnames: Option<Vec<String>>,
}

#[derive(Debug)]
pub struct ManifestMetadata {
    pub name: Option<String>,
    pub namespace: Option<String>,
    pub uid: Option<String>,
    pub annotations: Option<StrMap<String>>,
    pub labels: Option<StrMap<String>>,
}

#[derive(Debug)]
pub struct ManifestSpec {
    pub containers: Option<Vec<ManifestContainer>>,
    pub init_containers: Option<Vec<ManifestContainer>>,
    pub volumes: Option<Vec<ManifestVolume>>,
    pub restart_policy: Option<String>,
    pub host_network: Option<bool>,
    pub node_name: Option<String>,
    pub host_aliases: Option<Vec<ManifestHostAlias>>,
}

/// The part of a pod manifest that the node reads.
#[derive(Debug)]
pub struct PodManifest {
    pub metadata: ManifestMetadata,
    pub spec: ManifestSpec,
}

// ---------------------------------------------------------------------------
// Parts of a manifest
// ---------------------------------------------------------------------------

pub open spec fn list_of<T>(v: Option<Vec<T>>) -> Seq<T> {
    match v {
        Some(x) => x@,
        None => Seq::empty(),
    }
}

pub open spec fn string_map_of(m: Option<StrMap<String>>) -> Map<Seq<char>, String> {
    match m {
        Some(x) => x@,
        None => Map::empty(),
    }
}

fn list_of_strings(v: &Option<Vec<String>>) -> (r: Vec<String>)
    ensures
        r@ == list_of(*v),
{
    match v {
        Some(x) => copy_strings(x),
        None => Vec::new(),
    }
}

fn map_of_strings(m: &Option<StrMap<String>>) -> (r: StrMap<String>)
    ensures
        r@ == string_map_of(*m),
{
    match m {
        Some(x) => copy_text_map(x),
        None => StrMap::new(),
    }
}

fn or_empty(v: &Option<String>) -> (r: String)
    ensures
        r@ == text_or(opt_text(*v), Seq::empty()),
{
    match v {
        Some(x) => x.clone(),
        None => String::new(),
    }
}

fn or_text(v: &Option<String>, default: &str) -> (r: String)
    ensures
        r@ == text_or(opt_text(*v), default@),
{
    match v {
        Some(x) => x.clone(),
        None => default.to_owned(),
    }
}

fn or_false(b: Option<bool>) -> (r: bool)
    ensures
        r == (b == Some(true)),
{
    match b {
        Some(x) => x,
        None => false,
    }
}

pub open spec fn manifest_key_is(i: ManifestKeyToPath, r: KeyToPath) -> bool {
    r.key == i.key && r.path == i.path && r.mode == i.mode
}

pub open spec fn manifest_key_rel() -> spec_fn(ManifestKeyToPath, KeyToPath) -> bool {
    |i: ManifestKeyToPath, r: KeyToPath| manifest_key_is(i, r)
}

/// Converts a key and the path under which it is mounted.
pub fn manifest_key_to_path(item: &ManifestKeyToPath) -> (r: KeyToPath)
    ensures
        manifest_key_is(*item, r),
{
    KeyToPath { key: item.key.clone(), path: item.path.clone(), mode: item.mode }
}

fn manifest_keys(items: &Option<Vec<ManifestKeyToPath>>) -> (r: Vec<KeyToPath>)
    ensures
        mapped(list_of(*items), r@, manifest_key_rel()),
{
    match items {
        Some(v) => map_all(v, manifest_key_to_path, Ghost(manifest_key_rel())),
        None => Vec::new(),
    }
}

/// A projected source: the first of the three kinds that is present.
pub open spec fn manifest_projection_from(
    s: ManifestProjectedSource,
    r: Option<ProjectedVolumeSource>,
) -> bool {
    if let Some(t) = s.service_account_token {
        r matches Some(
            ProjectedVolumeSource::ServiceAccountToken { audience, expiration_seconds, path },
        ) && audience == t.audience && expiration_seconds == t.expiration_seconds && path == t.path
    } else if let Some(c) = s.config_map {
        r matches Some(ProjectedVolumeSource::ConfigMap { name, items, optional }) && name@
            == text_or(opt_text(c.name), Seq::empty()) && mapped(
            list_of(c.items),
            items@,
            manifest_key_rel(),
        ) && optional == (c.optional == Some(true))
    } else if let Some(c) = s.secret {
        r matches Some(ProjectedVolumeSource::Secret { name, items, optional }) && name@ == text_or(
            opt_text(c.name),
            Seq::empty(),
        ) && mapped(list_of(c.items), items@, manifest_key_rel()) && optional == (c.optional
            == Some(true))
    } else {
        r is None
    }
}

pub open spec fn manifest_projection_rel() -> spec_fn(
    ManifestProjectedSource,
    Option<ProjectedVolumeSource>,
) -> bool {
    |s: ManifestProjectedSource, r: Option<ProjectedVolumeSource>| manifest_projection_from(s, r)
}

fn manifest_projection(s: &ManifestProjectedSource) -> (r: Option<ProjectedVolumeSource>)
    ensures
        manifest_projection_from(*s, r),
{
    if let Some(t) = &s.service_account_token {
        Some(
            ProjectedVolumeSource::ServiceAccountToken {
                audience: t.audience.clone(),
                expiration_seconds: t.expiration_seconds,
                path: t.path.clone(),
            },
        )
    } else if let Some(c) = &s.config_map {
        Some(
            ProjectedVolumeSource::ConfigMap {
                name: or_empty(&c.name),
                items: manifest_keys(&c.items),
                optional: or_false(c.optional),
            },
        )
    } else if let Some(c) = &s.secret {
        Some(
            ProjectedVolumeSource::Secret {
                name: or_empty(&c.name),
                items: manifest_keys(&c.items),
                optional: or_false(c.optional),
            },
        )
    } else {
        None
    }
}

/// The source of a volume: the first of the kinds that is present.
pub open spec fn manifest_source_is(v: ManifestVolume, r: Option<VolumeSource>) -> bool {
    if let Some(h) = v.host_path {
        r matches Some(VolumeSource::HostPath { path, path_type }) && path == h.path && path_type
            == h.path_type
    } else if let Some(e) = v.empty_dir {
        r matches Some(VolumeSource::EmptyDir { medium, size_limit }) && medium == e.medium
            && size_limit is None
    } else if let Some(c) = v.config_map {
        r matches Some(VolumeSource::ConfigMap { name, items, optional, default_mode }) && name@
            == text_or(opt_text(c.name), Seq::empty()) && mapped(
            list_of(c.items),
            items@,
            manifest_key_rel(),
        ) && optional == (c.optional == Some(true)) && default_mode == c.default_mode
    } else if let Some(c) = v.secret {
        r matches Some(VolumeSource::Secret { secret_name, items, optional, default_mode })
            && secret_name@ == text_or(opt_text(c.secret_name), Seq::empty()) && mapped(
            list_of(c.items),
            items@,
            manifest_key_rel(),
        ) && optional == (c.optional == Some(true)) && default_mode == c.default_mode
    } else if let Some(c) = v.persistent_volume_claim {
        r matches Some(VolumeSource::PersistentVolumeClaim { claim_name, read_only }) && claim_name
            == c.claim_name && read_only == (c.read_only == Some(true))
    } else if let Some(p) = v.projected {
        r matches Some(VolumeSource::Projected { sources, default_mode }) && kept(
            list_of(p.sources),
            sources@,
            manifest_projection_rel(),
        ) && default_mode == p.default_mode
    } else {
        r is None
    }
}

fn manifest_source(v: &ManifestVolume) -> (r: Option<VolumeSource>)
    ensures
        manifest_source_is(*v, r),
{
    if let Some(h) = &v.host_path {
        Some(VolumeSource::HostPath { path: h.path.clone(), path_type: h.path_type.clone() })
    } else if let Some(e) = &v.empty_dir {
        Some(VolumeSource::EmptyDir { medium: e.medium.clone(), size_limit: None })
    } else if let Some(c) = &v.config_map {
        Some(
            VolumeSource::ConfigMap {
                name: or_empty(&c.name),
                items: manifest_keys(&c.items),
                optional: or_false(c.optional),
                default_mode: c.default_mode,
            },
        )
    } else if let Some(c) = &v.secret {
        Some(
            VolumeSource::Secret {
                secret_name: or_empty(&c.secret_name),
                items: manifest_keys(&c.items),
                optional: or_false(c.optional),
                default_mode: c.default_mode,
            },
        )
    } else if let Some(c) = &v.persistent_volume_claim {
        Some(
            VolumeSource::PersistentVolumeClaim {
                claim_name: c.claim_name.clone(),
                read_only: or_false(c.read_only),
            },
        )
    } else if let Some(p) = &v.projected {
        Some(
            VolumeSource::Projected {
                sources: match &p.sources {
                    Some(items) => collect_some(
                        items,
                        manifest_projection,
                        Ghost(manifest_projection_rel()),
                    ),
                    None => Vec::new(),
                },
                default_mode: p.default_mode,
            },
        )
    } else {
        None
    }
}

/// A volume: there is one where its source is of a known kind.
pub open spec fn manifest_volume_from(v: ManifestVolume, r: Option<VolumeSpec>) -> bool {
    match r {
        Some(x) => x.name == v.name && manifest_source_is(v, Some(x.source)),
        None => manifest_source_is(v, None),
    }
}

pub open spec fn manifest_volume_rel() -> spec_fn(ManifestVolume, Option<VolumeSpec>) -> bool {
    |v: ManifestVolume, r: Option<VolumeSpec>| manifest_volume_from(v, r)
}

fn manifest_volume(v: &ManifestVolume) -> (r: Option<VolumeSpec>)
    ensures
        manifest_volume_from(*v, r),
{
    match manifest_source(v) {
        Some(source) => Some(VolumeSpec { name: v.name.clone(), source }),
        None => None,
    }
}

pub open spec fn manifest_mount_is(m: ManifestVolumeMount, r: VolumeMount) -> bool {
    &&& r.name == m.name
    &&& r.mount_path == m.mount_path
    &&& r.sub_path == m.sub_path
    &&& r.sub_path_expr is None
    &&& r.read_only == (m.read_only == Some(true))
}

pub open spec fn manifest_mount_rel() -> spec_fn(ManifestVolumeMount, VolumeMount) -> bool {
    |m: ManifestVolumeMount, r: VolumeMount| manifest_mount_is(m, r)
}

fn manifest_mount(m: &ManifestVolumeMount) -> (r: VolumeMount)
    ensures
        manifest_mount_is(*m, r),
{
    VolumeMount {
        name: m.name.clone(),
        mount_path: m.mount_path.clone(),
        sub_path: m.sub_path.clone(),
        sub_path_expr: None,
        read_only: or_false(m.read_only),
    }
}

/// A container of a manifest has a name, an image, a command line and mounts;
/// everything else is left at its default.
pub open spec fn manifest_container_is(c: ManifestContainer, r: ContainerSpec) -> bool {
    &&& r.name == c.name
    &&& r.image == c.image
    &&& r.command@ == list_of(c.command)
    &&& r.args@ == list_of(c.args)
    &&& mapped(list_of(c.volume_mounts), r.volume_mounts@, manifest_mount_rel())
    &&& r.image_pull_policy == pull_policy_of(opt_text(c.image_pull_policy))
    &&& r.working_dir is None
    &&& r.ports@.len() == 0
    &&& r.env@.len() == 0
    &&& r.resources.requests@ == Map::<Seq<char>, ResourceQuantity>::empty()
    &&& r.resources.limits@ == Map::<Seq<char>, ResourceQuantity>::empty()
    &&& r.liveness_probe is None
    &&& r.readiness_probe is None
    &&& r.startup_probe is None
    &&& r.security_context is None
    &&& r.termination_message_path is None
    &&& r.termination_message_policy is None
    &&& r.lifecycle is None
    &&& r.env_from@.len() == 0
    &&& r.stdin is None
    &&& r.stdin_once is None
    &&& r.tty is None
    &&& r.restart_policy is None
}

pub open spec fn manifest_container_rel() -> spec_fn(ManifestContainer, ContainerSpec) -> bool {
    |c: ManifestContainer, r: ContainerSpec| manifest_container_is(c, r)
}

fn manifest_container(c: &ManifestContainer) -> (r: ContainerSpec)
    ensures
        manifest_container_is(*c, r),
{
    ContainerSpec {
        name: c.name.clone(),
        image: c.image.clone(),
        command: list_of_strings(&c.command),
        args: list_of_strings(&c.args),
        working_dir: None,
        ports: Vec::new(),
        env: Vec::new(),
        resources: ResourceRequirements { requests: StrMap::new(), limits: StrMap::new() },
        volume_mounts: match &c.volume_mounts {
            Some(items) => map_all(items, manifest_mount, Ghost(manifest_mount_rel())),
            None => Vec::new(),
        },
        liveness_probe: None,
        readiness_probe: None,
        startup_probe: None,
        image_pull_policy: parse_pull_policy(&c.image_pull_policy),
        security_context: None,
        termination_message_path: None,
        termination_message_policy: None,
        lifecycle: None,
        env_from: Vec::new(),
        stdin: None,
        stdin_once: None,
        tty: None,
        restart_policy: None,
    }
}

fn manifest_containers(v: &Option<Vec<ManifestContainer>>) -> (r: Vec<ContainerSpec>)
    ensures
        mapped(list_of(*v), r@, manifest_container_rel()),
{
    match v {
        Some(items) => map_all(items, manifest_container, Ghost(manifest_container_rel())),
        None => Vec::new(),
    }
}

pub open spec fn manifest_alias_is(h: ManifestHostAlias, r: HostAlias) -> bool {
    r.ip@ == text_or(opt_text(h.ip), Seq::empty()) && r.hostnames@ == list_of(h.hostnames)
}

pub open spec fn manifest_alias_rel() -> spec_fn(ManifestHostAlias, HostAlias) -> bool {
    |h: ManifestHostAlias, r: HostAlias| manifest_alias_is(h, r)
}

fn manifest_alias(h: &ManifestHostAlias) -> (r: HostAlias)
    ensures
        manifest_alias_is(*h, r),
{
    HostAlias { ip: or_empty(&h.ip), hostnames: list_of_strings(&h.hostnames) }
}

// ---------------------------------------------------------------------------
// Identity
// ---------------------------------------------------------------------------

/// What the uuid crate yields, in its usual notation, for the version 5
/// identifier of a name in the URL namespace.
pub uninterp spec fn uuid_v5_url(name: Seq<char>) -> Seq<char>;

/// Calls `Uuid::new_v5` of the uuid crate with `Uuid::NAMESPACE_URL` and the
/// bytes of `name`, and formats the identifier. It is a hash of the name alone;
/// the hash is named, not restated.
#[verifier::external_body]
fn new_uuid_v5_url(name: &str) -> (r: String)
    ensures
        r@ == uuid_v5_url(name@),
{
    uuid::Uuid::new_v5(&uuid::Uuid::NAMESPACE_URL, name.as_bytes()).to_string()
}

/// The identifier of a static pod: the one that the manifest gives, else one
/// that is derived from the path of the file and so stays the same.
pub fn static_pod_uid(uid: &Option<String>, file_path: &str) -> (r: PodUID)
    ensures
        r.0@ == text_or(opt_text(*uid), uuid_v5_url(file_path@)),
{
    match uid {
        Some(u) => PodUID(u.clone()),
        None => PodUID(new_uuid_v5_url(file_path)),
    }
}

/// The name of a static pod before the node is appended: the one that the
/// manifest gives, else the name of the file.
pub open spec fn static_base_name(name: Option<Seq<char>>, file_path: Seq<char>) -> Seq<char> {
    match name {
        Some(n) => n,
        None => text_or(file_stem_of(file_path), "unknown"@),
    }
}

/// Everything of a static pod but its identifier.
pub open spec fn static_pod_is(
    m: PodManifest,
    file_path: Seq<char>,
    node_name: Seq<char>,
    p: PodSpec,
) -> bool {
    &&& p.pod_ref.name@ == static_base_name(opt_text(m.metadata.name), file_path) + "-"@
        + node_name
    &&& p.pod_ref.namespace@ == text_or(opt_text(m.metadata.namespace), "default"@)
    &&& mapped(list_of(m.spec.containers), p.containers@, manifest_container_rel())
    &&& mapped(list_of(m.spec.init_containers), p.init_containers@, manifest_container_rel())
    &&& p.ephemeral_containers@.len() == 0
    &&& kept(list_of(m.spec.volumes), p.volumes@, manifest_volume_rel())
    &&& p.node_name@ == text_or(opt_text(m.spec.node_name), node_name)
    &&& p.host_network == (m.spec.host_network == Some(true))
    &&& !p.host_pid && !p.host_ipc
    &&& p.dns_config is None
    &&& p.restart_policy == restart_policy_of(opt_text(m.spec.restart_policy))
    &&& p.termination_grace_period_seconds == 30
    &&& p.service_account_name@ == "default"@
    &&& p.priority is None
    &&& p.tolerations@.len() == 0
    &&& p.node_selector@ == Map::<Seq<char>, String>::empty()
    &&& p.annotations@ == string_map_of(m.metadata.annotations)
    &&& p.labels@ == string_map_of(m.metadata.labels)
    &&& p.runtime_class_name is None
    &&& p.security_context is None
    &&& p.readiness_gates@.len() == 0
    &&& p.active_deadline_seconds is None
    &&& p.automount_service_account_token is None
    &&& p.image_pull_secrets@.len() == 0
    &&& p.enable_service_links is None
    &&& p.share_process_namespace is None
    &&& p.resource_claims@.len() == 0
    &&& mapped(list_of(m.spec.host_aliases), p.host_aliases@, manifest_alias_rel())
    &&& p.hostname is None
    &&& p.subdomain is None
    &&& p.observed_start_time is None
    &&& p.generation is None
}

/// A pod of which only the identity is left, because its manifest is gone.
pub open spec fn removed_pod_is(known: KnownPod, node_name: Seq<char>, p: PodSpec) -> bool {
    &&& p.uid == known.uid
    &&& p.pod_ref == known.pod_ref
    &&& p.containers@.len() == 0
    &&& p.init_containers@.len() == 0
    &&& p.ephemeral_containers@.len() == 0
    &&& p.volumes@.len() == 0
    &&& p.node_name@ == node_name
    &&& !p.host_network && !p.host_pid && !p.host_ipc
    &&& p.dns_config is None
    &&& p.restart_policy == RestartPolicy::Always
    &&& p.termination_grace_period_seconds == 30
    &&& p.service_account_name@ == "default"@
    &&& p.priority is None
    &&& p.tolerations@.len() == 0
    &&& p.node_selector@ == Map::<Seq<char>, String>::empty()
    &&& p.annotations@ == Map::<Seq<char>, String>::empty()
    &&& p.labels@ == Map::<Seq<char>, String>::empty()
    &&& p.runtime_class_name is None
    &&& p.security_context is None
    &&& p.readiness_gates@.len() == 0
    &&& p.active_deadline_seconds is None
    &&& p.automount_service_account_token is None
    &&& p.image_pull_secrets@.len() == 0
    &&& p.enable_service_links is None
    &&& p.share_process_namespace is None
    &&& p.resource_claims@.len() == 0
    &&& p.host_aliases@.len() == 0
    &&& p.hostname is None
    &&& p.subdomain is None
    &&& p.observed_start_time is None
    &&& p.generation is None
}

// ---------------------------------------------------------------------------
// The source
// ---------------------------------------------------------------------------

/// A pod source that polls a directory for manifests.
#[derive(Debug)]
pub struct FilePodSource {
    pub path: String,
    pub node_name: String,
    pub poll_interval_ms: u64,
}

/// The pod that a manifest described when it was last read.
#[derive(Debug)]
pub struct KnownPod {
    pub uid: PodUID,
    pub pod_ref: PodRef,
}

impl KnownPod {
    fn copied(&self) -> (r: Self)
        ensures
            r == *self,
    {
        KnownPod { uid: self.uid.copied(), pod_ref: self.pod_ref.copied() }
    }
}

/// The manifests that were seen, by path, each with the identity of its pod.
#[derive(Debug)]
pub struct KnownManifests {
    pub known: StrMap<KnownPod>,
}

/// The identifiers of the pods by the path of their manifest.
pub open spec fn uids_of(known: Map<Seq<char>, KnownPod>) -> Map<Seq<char>, Seq<char>> {
    Map::new(|k: Seq<char>| known.contains_key(k), |k: Seq<char>| known[k].uid.0@)
}

/// What is asked for a pod whose manifest was read, given what was known: a
/// manifest with the same identifier is reconciled, one whose identifier has
/// changed is updated, a new one is added.
pub open spec fn operation_for(
    known: Map<Seq<char>, Seq<char>>,
    path: Seq<char>,
    uid: Seq<char>,
) -> PodOperation {
    if known.contains_key(path) && known[path] == uid {
        PodOperation::Reconcile
    } else if known.contains_key(path) {
        PodOperation::Update
    } else {
        PodOperation::Add
    }
}

/// The removal of a pod whose manifest is no longer there: it names the pod that
/// the manifest described when it was last read.
pub open spec fn removal_rel(
    current: Seq<Seq<char>>,
    node_name: Seq<char>,
) -> spec_fn((Seq<char>, KnownPod), Option<PodUpdate>) -> bool {
    |e: (Seq<char>, KnownPod), r: Option<PodUpdate>|
        if current.contains(e.0) {
            r is None
        } else {
            r matches Some(u) && u.op == PodOperation::Remove && removed_pod_is(
                e.1,
                node_name,
                u.pod,
            )
        }
}

impl FilePodSource {
    pub fn new(path: &str, node_name: &str, poll_interval_ms: u64) -> (r: Self)
        ensures
            r.path@ == path@,
            r.node_name@ == node_name@,
            r.poll_interval_ms == poll_interval_ms,
    {
        FilePodSource {
            path: path.to_owned(),
            node_name: node_name.to_owned(),
            poll_interval_ms,
        }
    }

    /// The name under which the source is known.
    pub fn name(&self) -> (r: &'static str)
        ensures
            r@ == "file"@,
    {
        "file"
    }

    /// Whether the file is read as JSON; any other manifest is read as YAML.
    pub fn is_json(file_path: &str) -> (r: bool)
        ensures
            r == (path_extension(file_path@) == Some("json"@)),
    {
        opt_same(&extension(file_path), "json")
    }

    /// Whether the file is a manifest, by its extension.
    pub fn is_manifest(file_path: &str) -> (r: bool)
        ensures
            r == (path_extension(file_path@) == Some("yaml"@) || path_extension(file_path@) == Some(
                "yml"@,
            ) || path_extension(file_path@) == Some("json"@)),
    {
        let ext = extension(file_path);
        opt_same(&ext, "yaml") || opt_same(&ext, "yml") || opt_same(&ext, "json")
    }

    /// Converts a manifest, given as it was read from the file, to a pod. A
    /// file that could not be read as a manifest yields none.
    pub fn parse_manifest(&self, manifest: &Option<PodManifest>, file_path: &str) -> (r: Option<
        PodSpec,
    >)
        ensures
            match *manifest {
                Some(m) => r matches Some(p) && p.uid.0@ == text_or(
                    opt_text(m.metadata.uid),
                    uuid_v5_url(file_path@),
                ) && static_pod_is(m, file_path@, self.node_name@, p),
                None => r is None,
            },
    {
        let m = match manifest {
            Some(m) => m,
            None => {
                return None;
            },
        };
        let base = match &m.metadata.name {
            Some(n) => n.clone(),
            None => or_text(&file_stem(file_path), "unknown"),
        };
        let volumes = match &m.spec.volumes {
            Some(items) => collect_some(items, manifest_volume, Ghost(manifest_volume_rel())),
            None => Vec::new(),
        };
        let host_aliases = match &m.spec.host_aliases {
            Some(items) => map_all(items, manifest_alias, Ghost(manifest_alias_rel())),
            None => Vec::new(),
        };
        Some(
            PodSpec {
                uid: static_pod_uid(&m.metadata.uid, file_path),
                pod_ref: PodRef {
                    namespace: or_text(&m.metadata.namespace, "default"),
                    name: cat3(base.as_str(), "-", self.node_name.as_str()),
                },
                containers: manifest_containers(&m.spec.containers),
                init_containers: manifest_containers(&m.spec.init_containers),
                ephemeral_containers: Vec::new(),
                volumes,
                node_name: or_text(&m.spec.node_name, self.node_name.as_str()),
                host_network: or_false(m.spec.host_network),
                host_pid: false,
                host_ipc: false,
                dns_config: None,
                restart_policy: parse_restart_policy(&m.spec.restart_policy),
                termination_grace_period_seconds: 30,
                service_account_name: "default".to_owned(),
                priority: None,
                tolerations: Vec::new(),
                node_selector: StrMap::new(),
                annotations: map_of_strings(&m.metadata.annotations),
                labels: map_of_strings(&m.metadata.labels),
                runtime_class_name: None,
                security_context: None,
                readiness_gates: Vec::new(),
                active_deadline_seconds: None,
                automount_service_account_token: None,
                image_pull_secrets: Vec::new(),
                enable_service_links: None,
                share_process_namespace: None,
                resource_claims: Vec::new(),
                host_aliases,
                hostname: None,
                subdomain: None,
                observed_start_time: None,
                generation: None,
            },
        )
    }

    /// Takes notice of a manifest that was read and says what is asked for its
    /// pod.
    pub fn observe(&self, known: &mut KnownManifests, file_path: &str, pod: PodSpec) -> (r:
        PodUpdate)
        ensures
            r.pod == pod,
            r.op == operation_for(uids_of(old(known).known@), file_path@, pod.uid.0@),
            final(known).known@ == old(known).known@.insert(
                file_path@,
                (KnownPod { uid: pod.uid, pod_ref: pod.pod_ref }),
            ),
    {
        let op = match known.known.get(file_path) {
            Some(k) => if same(k.uid.0.as_str(), pod.uid.0.as_str()) {
                PodOperation::Reconcile
            } else {
                PodOperation::Update
            },
            None => PodOperation::Add,
        };
        let seen = KnownPod { uid: pod.uid.copied(), pod_ref: pod.pod_ref.copied() };
        known.known.insert(file_path.to_owned(), seen);
        PodUpdate { pod, op }
    }

    fn removed_pod(&self, known: &KnownPod) -> (p: PodSpec)
        ensures
            removed_pod_is(*known, self.node_name@, p),
    {
        let mut p = PodSpec::bare(
            known.uid.copied(),
            known.pod_ref.copied(),
            self.node_name.clone(),
        );
        p.termination_grace_period_seconds = 30;
        p.service_account_name = "default".to_owned();
        p
    }

    /// Forgets the manifests that are not among the paths of the last listing
    /// and says which pods are to be removed.
    pub fn forget_missing(&self, known: &mut KnownManifests, current: &Vec<String>) -> (r: Vec<
        PodUpdate,
    >)
        ensures
            kept(
                old(known).known.pairs(),
                r@,
                removal_rel(texts(current@), self.node_name@),
            ),
            final(known).known@ == old(known).known@.restrict(
                Set::new(|k: Seq<char>| texts(current@).contains(k)),
            ),
    {
        let ghost pairs = known.known.pairs();
        let ghost rel = removal_rel(texts(current@), self.node_name@);
        let ghost stay = Set::new(|k: Seq<char>| texts(current@).contains(k));
        let n: usize = known.known.len();
        let mut rest: StrMap<KnownPod> = StrMap::new();
        let mut out: Vec<PodUpdate> = Vec::new();
        let mut i: usize = 0;
        assert(map_of(pairs.take(0)).restrict(stay) =~= rest@);
        while i < n
            invariant
                i <= n == pairs.len(),
                pairs == known.known.pairs(),
                *known == *old(known),
                distinct_keys(pairs),
                rel == removal_rel(texts(current@), self.node_name@),
                stay == Set::new(|k: Seq<char>| texts(current@).contains(k)),
                rest@ == map_of(pairs.take(i as int)).restrict(stay),
                kept(pairs.take(i as int), out@, rel),
            decreases n - i,
        {
            let path = known.known.key_at(i);
            let seen = known.known.value_at(i);
            let ghost before = out@;
            proof {
                assert(pairs.take(i + 1).drop_last() =~= pairs.take(i as int));
                assert(pairs.take(i + 1).last() == pairs[i as int]);
            }
            if holds(current, path.as_str()) {
                rest.insert(path.clone(), seen.copied());
                assert(rel(pairs[i as int], None));
                assert(rest@ =~= map_of(pairs.take(i + 1)).restrict(stay));
            } else {
                let pod = self.removed_pod(seen);
                out.push(PodUpdate { pod, op: PodOperation::Remove });
                assert(out@.drop_last() =~= before);
                assert(rel(pairs[i as int], Some(out@.last())));
                assert(rest@ =~= map_of(pairs.take(i + 1)).restrict(stay));
            }
            i = i + 1;
        }
        assert(pairs.take(i as int) =~= pairs);
        known.known = rest;
        out
    }
}

impl KnownManifests {
    /// No manifest was seen yet.
    pub fn new() -> (r: Self)
        ensures
            r.known@ == Map::<Seq<char>, KnownPod>::empty(),
    {
        KnownManifests { known: StrMap::new() }
    }
}

/// A manifest that is read again with the same identifier is reconciled.
pub proof fn law_reread_reconciles(
    known: Map<Seq<char>, KnownPod>,
    path: Seq<char>,
    pod: KnownPod,
)
    ensures
        operation_for(uids_of(known.insert(path, pod)), path, pod.uid.0@)
            == PodOperation::Reconcile,
{
}

/// A manifest without an identifier of its own gives its pod the same
/// identifier each time it is read from the same path, so that it is added
/// once and reconciled from then on.
pub proof fn law_derived_uid_is_stable(
    known: Map<Seq<char>, KnownPod>,
    path: Seq<char>,
    first: KnownPod,
    second: KnownPod,
)
    requires
        !known.contains_key(path),
        first.uid.0@ == text_or(None, uuid_v5_url(path)),
        second.uid.0@ == text_or(None, uuid_v5_url(path)),
    ensures
        operation_for(uids_of(known), path, first.uid.0@) == PodOperation::Add,
        operation_for(uids_of(known.insert(path, first)), path, second.uid.0@)
            == PodOperation::Reconcile,
{
}

/// A manifest that is forgotten because its file is gone is added when the
/// file comes back.
pub proof fn law_returning_manifest_is_added(
    known: Map<Seq<char>, KnownPod>,
    current: Seq<Seq<char>>,
    path: Seq<char>,
    uid: Seq<char>,
)
    requires
        !current.contains(path),
    ensures
        operation_for(
            uids_of(known.restrict(Set::new(|k: Seq<char>| current.contains(k)))),
            path,
            uid,
        ) == PodOperation::Add,
{
}

/// When the manifest of a pod is gone, the pod that is asked to be removed is
/// the one that was last asked for: it has the same identifier, namespace and
/// name.
pub proof fn law_removal_names_the_pod(
    known: KnownManifests,
    node_name: Seq<char>,
    path: Seq<char>,
    current: Seq<Seq<char>>,
    removals: Seq<PodUpdate>,
)
    requires
        distinct_keys(known.known.pairs()),
        known.known@.contains_key(path),
        !current.contains(path),
        kept(known.known.pairs(), removals, removal_rel(current, node_name)),
    ensures
        exists|k: int|
            0 <= k < removals.len() && (#[trigger] removals[k]).op == PodOperation::Remove
                && removals[k].pod.uid == known.known@[path].uid && removals[k].pod.pod_ref
                == known.known@[path].pod_ref,
{
    let pairs = known.known.pairs();
    let rel = removal_rel(current, node_name);
    lemma_map_of_dom(pairs, path);
    let i = choose|i: int| 0 <= i < pairs.len() && (#[trigger] pairs[i]).0 == path;
    lemma_map_of_value(pairs, i);
    lemma_kept_has(pairs, removals, rel, i);
    let k = choose|k: int| 0 <= k < removals.len() && rel(pairs[i], Some(#[trigger] removals[k]));
    assert(removals[k].op == PodOperation::Remove);
}

/// A manifest that is new at its path adds a pod, one whose pod is known there
/// is reconciled, and one that names another pod than before updates it.
pub proof fn law_manifests_have_their_operations(
    known: Map<Seq<char>, Seq<char>>,
    path: Seq<char>,
    uid: Seq<char>,
)
    ensures
        operation_for(known, path, uid) is Add <==> !known.contains_key(path),
        operation_for(known, path, uid) is Reconcile <==> known.contains_key(path) && known[path]
            == uid,
        operation_for(known, path, uid) is Update <==> known.contains_key(path) && known[path]
            != uid,
{
}

/// The pod of a manifest has the manifest's name with the node's behind it,
/// its containers of each kind in order, and its own settings.
pub proof fn law_static_pod_keeps_its_parts(
    m: PodManifest,
    file_path: Seq<char>,
    node_name: Seq<char>,
    p: PodSpec,
)
    requires
        static_pod_is(m, file_path, node_name, p),
    ensures
        m.metadata.name matches Some(n) ==> p.pod_ref.name@ == n@ + "-"@ + node_name,
        m.metadata.name is None ==> (file_stem_of(file_path) matches Some(stem)
            ==> p.pod_ref.name@ == stem + "-"@ + node_name),
        m.metadata.namespace matches Some(n) ==> p.pod_ref.namespace@ == n@,
        m.metadata.namespace is None ==> p.pod_ref.namespace@ == "default"@,
        m.spec.node_name matches Some(n) ==> p.node_name@ == n@,
        m.spec.node_name is None ==> p.node_name@ == node_name,
        p.host_network <==> m.spec.host_network == Some(true),
        m.metadata.annotations matches Some(a) ==> p.annotations@ == a@,
        m.metadata.labels matches Some(a) ==> p.labels@ == a@,
        m.spec.restart_policy is None ==> p.restart_policy is Always,
        m.spec.restart_policy matches Some(t) ==> (t@ == "Never"@ ==> p.restart_policy is Never) && (
        t@ == "OnFailure"@ ==> p.restart_policy is OnFailure),
        m.spec.containers is None ==> p.containers@.len() == 0,
        m.spec.containers matches Some(v) ==> p.containers@.len() == v@.len() && forall|i: int|
            0 <= i < v@.len() ==> (#[trigger] p.containers@[i]).name == v@[i].name
                && p.containers@[i].image == v@[i].image,
        m.spec.init_containers is None ==> p.init_containers@.len() == 0,
        m.spec.init_containers matches Some(v) ==> p.init_containers@.len() == v@.len() && forall|
            i: int,
        |
            0 <= i < v@.len() ==> (#[trigger] p.init_containers@[i]).name == v@[i].name,
        m.spec.host_aliases matches Some(v) ==> p.host_aliases@.len() == v@.len() && forall|i: int|
            0 <= i < v@.len() && v@[i].ip is Some ==> (#[trigger] p.host_aliases@[i]).ip@
                == v@[i].ip->0@,
{
    law_policies_are_read_by_name(opt_text(m.spec.restart_policy));
    assert forall|i: int| 0 <= i < list_of(m.spec.containers).len() implies manifest_container_is(
        list_of(m.spec.containers)[i],
        #[trigger] p.containers@[i],
    ) by {
        assert(manifest_container_rel()(list_of(m.spec.containers)[i], p.containers@[i]));
    }
    assert forall|i: int|
        0 <= i < list_of(m.spec.init_containers).len() implies manifest_container_is(
        list_of(m.spec.init_containers)[i],
        #[trigger] p.init_containers@[i],
    ) by {
        assert(manifest_container_rel()(
            list_of(m.spec.init_containers)[i],
            p.init_containers@[i],
        ));
    }
    assert forall|i: int| 0 <= i < list_of(m.spec.host_aliases).len() implies manifest_alias_is(
        list_of(m.spec.host_aliases)[i],
        #[trigger] p.host_aliases@[i],
    ) by {
        assert(manifest_alias_rel()(list_of(m.spec.host_aliases)[i], p.host_aliases@[i]));
    }
}

/// A container of a manifest keeps its command, its arguments and its mounts.
pub proof fn law_manifest_container_keeps_its_parts(c: ManifestContainer, r: ContainerSpec)
    requires
        manifest_container_is(c, r),
    ensures
        r.name@ == c.name@,
        r.image@ == c.image@,
        c.command matches Some(v) ==> r.command@ == v@,
        c.command is None ==> r.command@.len() == 0,
        c.args matches Some(v) ==> r.args@ == v@,
        c.args is None ==> r.args@.len() == 0,
        opt_text(c.image_pull_policy) == Some("Always"@) <==> r.image_pull_policy is Always,
        opt_text(c.image_pull_policy) == Some("Never"@) <==> r.image_pull_policy is Never,
        c.volume_mounts matches Some(v) ==> r.volume_mounts@.len() == v@.len() && forall|i: int|
            0 <= i < v@.len() ==> (#[trigger] r.volume_mounts@[i]).name == v@[i].name
                && r.volume_mounts@[i].mount_path == v@[i].mount_path && r.volume_mounts@[i].sub_path
                == v@[i].sub_path && (r.volume_mounts@[i].read_only <==> v@[i].read_only == Some(
                true,
            )),
{
    law_policies_are_read_by_name(opt_text(c.image_pull_policy));
    assert forall|i: int| 0 <= i < list_of(c.volume_mounts).len() implies manifest_mount_is(
        list_of(c.volume_mounts)[i],
        #[trigger] r.volume_mounts@[i],
    ) by {
        assert(manifest_mount_rel()(list_of(c.volume_mounts)[i], r.volume_mounts@[i]));
    }
}

/// A volume of a manifest keeps its name, its kind and its parts.
pub proof fn law_manifest_volumes_keep_their_kind(v: ManifestVolume, r: Option<VolumeSpec>)
    requires
        manifest_volume_from(v, r),
    ensures
        r matches Some(x) ==> x.name@ == v.name@,
        v.host_path matches Some(h) ==> r matches Some(x) && x.source is HostPath
            && x.source->HostPath_path@ == h.path@ && x.source->HostPath_path_type == h.path_type,
        v.host_path is None ==> (v.empty_dir matches Some(e) ==> r matches Some(x)
            && x.source is EmptyDir && x.source->EmptyDir_medium == e.medium),
        v.host_path is None && v.empty_dir is None ==> (v.config_map matches Some(c)
            ==> r matches Some(x) && x.source is ConfigMap && (c.name matches Some(n)
            ==> x.source->ConfigMap_name@ == n@) && (x.source->ConfigMap_optional <==> c.optional
            == Some(true)) && x.source->ConfigMap_default_mode == c.default_mode),
        v.host_path is None && v.empty_dir is None && v.config_map is None ==> (
        v.secret matches Some(c) ==> r matches Some(x) && x.source is Secret && (
        c.secret_name matches Some(n) ==> x.source->Secret_secret_name@ == n@) && (
        x.source->Secret_optional <==> c.optional == Some(true)) && x.source->Secret_default_mode
            == c.default_mode),
        v.host_path is None && v.empty_dir is None && v.config_map is None && v.secret is None ==> (
        v.persistent_volume_claim matches Some(c) ==> r matches Some(x)
            && x.source is PersistentVolumeClaim && x.source->PersistentVolumeClaim_claim_name@
            == c.claim_name@ && (x.source->PersistentVolumeClaim_read_only <==> c.read_only
            == Some(true))),
        v.host_path is None && v.empty_dir is None && v.config_map is None && v.secret is None
            && v.persistent_volume_claim is None && v.projected is None ==> r is None,
{
}

/// A key of a manifest's volume keeps its path and its mode.
pub proof fn law_manifest_keys_keep_their_paths(i: ManifestKeyToPath, r: KeyToPath)
    requires
        manifest_key_is(i, r),
    ensures
        r.key@ == i.key@,
        r.path@ == i.path@,
        r.mode == i.mode,
{
}

/// A part of a projected volume of a manifest keeps its kind and its parts.
pub proof fn law_manifest_projections_keep_their_kind(
    s: ManifestProjectedSource,
    r: Option<ProjectedVolumeSource>,
)
    requires
        manifest_projection_from(s, r),
    ensures
        s.service_account_token matches Some(t) ==> r matches Some(x) && x is ServiceAccountToken
            && x->ServiceAccountToken_path@ == t.path@ && x->ServiceAccountToken_audience
            == t.audience && x->ServiceAccountToken_expiration_seconds == t.expiration_seconds,
        s.service_account_token is None ==> (s.config_map matches Some(c) ==> r matches Some(x)
            && x is ConfigMap && (c.name matches Some(n) ==> x->ConfigMap_name@ == n@) && (
        x->ConfigMap_optional <==> c.optional == Some(true))),
        s.service_account_token is None && s.config_map is None ==> (s.secret matches Some(c)
            ==> r matches Some(x) && x is Secret && (c.name matches Some(n) ==> x->Secret_name@
            == n@) && (x->Secret_optional <==> c.optional == Some(true))),
        s.service_account_token is None && s.config_map is None && s.secret is None ==> r is None,
{
}

/// What is removed goes by the identity that the manifest had.
pub proof fn law_removed_pod_keeps_its_identity(known: KnownPod, node_name: Seq<char>, p: PodSpec)
    requires
        removed_pod_is(known, node_name, p),
    ensures
        p.uid.0@ == known.uid.0@,
        p.pod_ref.name@ == known.pod_ref.name@,
        p.pod_ref.namespace@ == known.pod_ref.namespace@,
        p.node_name@ == node_name,
        p.containers@.len() == 0,
        p.init_containers@.len() == 0,
{
}

/// What is handed on for a pod that is gone holds nothing but its identity.
pub proof fn law_removed_pod_is_otherwise_empty(
    known: KnownPod,
    node_name: Seq<char>,
    p: PodSpec,
    key: Seq<char>,
)
    requires
        removed_pod_is(known, node_name, p),
    ensures
        p.termination_grace_period_seconds == 30,
        p.service_account_name@ == "default"@,
        p.restart_policy is Always,
        !p.host_network && !p.host_pid && !p.host_ipc,
        p.containers@.len() == 0,
        p.init_containers@.len() == 0,
        p.ephemeral_containers@.len() == 0,
        p.volumes@.len() == 0,
        p.dns_config is None,
        p.priority is None,
        p.tolerations@.len() == 0,
        !p.node_selector@.contains_key(key),
        !p.annotations@.contains_key(key),
        !p.labels@.contains_key(key),
        p.runtime_class_name is None,
        p.security_context is None,
        p.readiness_gates@.len() == 0,
        p.active_deadline_seconds is None,
        p.automount_service_account_token is None,
        p.image_pull_secrets@.len() == 0,
        p.enable_service_links is None,
        p.share_process_namespace is None,
        p.resource_claims@.len() == 0,
        p.host_aliases@.len() == 0,
        p.hostname is None,
        p.subdomain is None,
        p.observed_start_time is None,
        p.generation is None,
{
}

/// A container has from its manifest no more than the manifest says.
pub proof fn law_manifest_container_is_otherwise_empty(
    c: ManifestContainer,
    r: ContainerSpec,
    key: Seq<char>,
)
    requires
        manifest_container_is(c, r),
    ensures
        r.working_dir is None,
        r.ports@.len() == 0,
        r.env@.len() == 0,
        !r.resources.requests@.contains_key(key),
        !r.resources.limits@.contains_key(key),
        r.liveness_probe is None,
        r.readiness_probe is None,
        r.startup_probe is None,
        r.security_context is None,
        r.termination_message_path is None,
        r.termination_message_policy is None,
        r.lifecycle is None,
        r.env_from@.len() == 0,
        r.stdin is None,
        r.stdin_once is None,
        r.tty is None,
        r.restart_policy is None,
{
}

/// A static pod has from its manifest no more than the manifest says.
pub proof fn law_static_pod_is_otherwise_empty(
    m: PodManifest,
    file_path: Seq<char>,
    node_name: Seq<char>,
    p: PodSpec,
    key: Seq<char>,
)
    requires
        static_pod_is(m, file_path, node_name, p),
    ensures
        p.termination_grace_period_seconds == 30,
        p.service_account_name@ == "default"@,
        !p.host_pid && !p.host_ipc,
        m.metadata.name is None && file_stem_of(file_path) is None ==> p.pod_ref.name@
            == "unknown"@ + "-"@ + node_name,
        m.metadata.name is None ==> (file_stem_of(file_path) matches Some(s) ==> p.pod_ref.name@ == s
            + "-"@ + node_name),
        p.ephemeral_containers@.len() == 0,
        p.dns_config is None,
        p.priority is None,
        p.tolerations@.len() == 0,
        !p.node_selector@.contains_key(key),
        p.runtime_class_name is None,
        p.security_context is None,
        p.readiness_gates@.len() == 0,
        p.active_deadline_seconds is None,
        p.automount_service_account_token is None,
        p.image_pull_secrets@.len() == 0,
        p.enable_service_links is None,
        p.share_process_namespace is None,
        p.resource_claims@.len() == 0,
        p.hostname is None,
        p.subdomain is None,
        p.observed_start_time is None,
        p.generation is None,
{
}

/// A pod whose manifest is still there is not removed.
pub proof fn law_present_pods_are_not_removed(
    current: Seq<Seq<char>>,
    node_name: Seq<char>,
    path: Seq<char>,
    pod: KnownPod,
    r: Option<PodUpdate>,
)
    requires
        removal_rel(current, node_name)((path, pod), r),
    ensures
        current.contains(path) ==> r is None,
        !current.contains(path) ==> r is Some && r->0.op is Remove && r->0.pod.uid == pod.uid,
{
}

/// A mount of a manifest is taken over with its paths, and has no pattern.
pub proof fn law_manifest_mounts_keep_their_paths(m: ManifestVolumeMount, r: VolumeMount)
    requires
        manifest_mount_is(m, r),
    ensures
        r.name == m.name,
        r.mount_path == m.mount_path,
        r.sub_path == m.sub_path,
        r.sub_path_expr is None,
        r.read_only <==> m.read_only == Some(true),
{
}

} // verus!
