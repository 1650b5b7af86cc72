//! The configuration with which a container is created.
use crate::strmap::{distinct_keys, lemma_map_of_dom, lemma_map_of_value, StrMap};
use crate::text::{
    cat2, cat7, copy_strings, dec, dec_int, decimal, decimal_signed, has_prefix, opt_text, same,
    starts_with, strip_prefix, strip_suffix, texts, utf8_text, without_prefix, without_suffix,
};
use crate::types::{
    ContainerSpec, EnvFromSource, EnvVar, EnvVarSource, PodSecurityContext, PodSpec,
    ResourceQuantity, SeccompSpec, SecurityContext,
};
use vstd::prelude::*;
use vstd::utf8::{decode_utf8, valid_utf8};

verus! {

/// A name and a value, as text.
pub type TextPair = (Seq<char>, Seq<char>);

pub open spec fn pair_texts(v: Seq<(String, String)>) -> Seq<TextPair> {
    v.map_values(|p: (String, String)| (p.0@, p.1@))
}

/// Environment variables whose values were looked up.
#[derive(Debug)]
pub struct ResolvedEnv {
    pub vars: Vec<(String, String)>,
}

impl Default for ResolvedEnv {
    fn default() -> (r: Self)
        ensures
            r.vars@.len() == 0,
    {
        ResolvedEnv::new()
    }
}

impl ResolvedEnv {
    pub fn new() -> (r: Self)
        ensures
            r.vars@.len() == 0,
    {
        ResolvedEnv { vars: Vec::new() }
    }

    /// Adds a variable behind the others.
    pub fn add(&mut self, key: &str, value: &str)
        ensures
            pair_texts(final(self).vars@) == pair_texts(old(self).vars@).push((key@, value@)),
    {
        let ghost before = self.vars@;
        self.vars.push((key.to_owned(), value.to_owned()));
        assert(pair_texts(self.vars@) =~= pair_texts(before).push((key@, value@)));
    }
}

/// The security settings of a Linux container.
#[derive(Debug)]
pub struct LinuxContainerSecurity {
    pub run_as_user: Option<u32>,
    pub run_as_group: Option<u32>,
    pub supplemental_groups: Vec<u32>,
    pub privileged: bool,
    pub read_only_root_filesystem: bool,
    pub allow_privilege_escalation: Option<bool>,
    pub capabilities_add: Vec<String>,
    pub capabilities_drop: Vec<String>,
    pub seccomp_profile_type: Option<String>,
    pub seccomp_localhost_path: Option<String>,
    pub apparmor_profile: Option<String>,
}

/// What a container runtime is told to create.
#[derive(Debug)]
pub struct CreateContainerConfig<'a> {
    pub pod_name: String,
    pub pod_uid: String,
    pub pod_namespace: String,
    pub attempt: u32,
    pub sandbox_id: String,
    pub container: &'a ContainerSpec,
    pub log_directory: String,
    pub security: LinuxContainerSecurity,
    pub extra_env: Vec<(String, String)>,
    pub image_id: String,
    pub env_overrides: StrMap<String>,
    pub linux_cgroup_parent: String,
    pub extra_devices: Vec<String>,
    pub extra_mounts: Vec<String>,
    pub extra_device_envs: Vec<(String, String)>,
    pub share_process_namespace: bool,
    pub pod_hostname: String,
}

// ---------------------------------------------------------------------------
// Security
// ---------------------------------------------------------------------------

/// The first of two settings that is there.
pub open spec fn first_of<T>(a: Option<T>, b: Option<T>) -> Option<T> {
    if a is Some {
        a
    } else {
        b
    }
}

/// The seccomp profile that applies: the container's before the pod's.
pub open spec fn seccomp_of(
    pod_sc: Option<&PodSecurityContext>,
    ctr_sc: Option<&SecurityContext>,
) -> Option<SeccompSpec> {
    first_of(
        match ctr_sc {
            Some(c) => c.seccomp_profile,
            None => None,
        },
        match pod_sc {
            Some(p) => p.seccomp_profile,
            None => None,
        },
    )
}

/// The name under which a runtime knows an AppArmor profile.
pub open spec fn apparmor_name(type_: Seq<char>, localhost: Option<Seq<char>>) -> Seq<char> {
    if type_ == "Unconfined"@ {
        "unconfined"@
    } else if type_ == "Localhost"@ {
        "localhost/"@ + match localhost {
            Some(p) => p,
            None => Seq::<char>::empty(),
        }
    } else {
        "runtime/default"@
    }
}

/// The settings of a container over those of its pod: where both set one, the
/// container's holds.
pub open spec fn security_is(
    pod_sc: Option<&PodSecurityContext>,
    ctr_sc: Option<&SecurityContext>,
    out: LinuxContainerSecurity,
) -> bool {
    let seccomp = seccomp_of(pod_sc, ctr_sc);
    &&& out.run_as_user == first_of(
        match ctr_sc {
            Some(c) => c.run_as_user,
            None => None,
        },
        match pod_sc {
            Some(p) => p.run_as_user,
            None => None,
        },
    )
    &&& out.run_as_group == first_of(
        match ctr_sc {
            Some(c) => c.run_as_group,
            None => None,
        },
        match pod_sc {
            Some(p) => p.run_as_group,
            None => None,
        },
    )
    &&& out.supplemental_groups@ == match pod_sc {
        Some(p) => p.supplemental_groups@,
        None => Seq::<u32>::empty(),
    }
    &&& out.privileged == (ctr_sc matches Some(c) && c.privileged == Some(true))
    &&& out.read_only_root_filesystem == (ctr_sc matches Some(c) && c.read_only_root_filesystem
        == Some(true))
    &&& out.allow_privilege_escalation == match ctr_sc {
        Some(c) => c.allow_privilege_escalation,
        None => None,
    }
    &&& match ctr_sc {
        Some(c) => match c.capabilities {
            Some(caps) => texts(out.capabilities_add@) == texts(caps.add@) && texts(
                out.capabilities_drop@,
            ) == texts(caps.drop@),
            None => out.capabilities_add@.len() == 0 && out.capabilities_drop@.len() == 0,
        },
        None => out.capabilities_add@.len() == 0 && out.capabilities_drop@.len() == 0,
    }
    &&& opt_text(out.seccomp_profile_type) == match seccomp {
        Some(s) => Some(s.type_@),
        None => None,
    }
    &&& opt_text(out.seccomp_localhost_path) == match seccomp {
        Some(s) => opt_text(s.localhost_profile),
        None => None,
    }
    &&& opt_text(out.apparmor_profile) == match ctr_sc {
        Some(c) => match c.apparmor_profile {
            Some(a) => Some(apparmor_name(a.type_@, opt_text(a.localhost_profile))),
            None => None,
        },
        None => None,
    }
}

fn copy_numbers(v: &Vec<u32>) -> (r: Vec<u32>)
    ensures
        r@ == v@,
{
    let mut r: Vec<u32> = Vec::new();
    let mut i: usize = 0;
    while i < v.len()
        invariant
            i <= v@.len(),
            r@ == v@.take(i as int),
        decreases v@.len() - i,
    {
        r.push(v[i]);
        i = i + 1;
        assert(r@ =~= v@.take(i as int));
    }
    assert(r@ =~= v@);
    r
}

/// Merges the security settings of a pod and of one of its containers.
pub fn build_linux_security(
    pod_sc: Option<&PodSecurityContext>,
    ctr_sc: Option<&SecurityContext>,
) -> (r: LinuxContainerSecurity)
    ensures
        security_is(pod_sc, ctr_sc, r),
{
    let mut out = LinuxContainerSecurity {
        run_as_user: None,
        run_as_group: None,
        supplemental_groups: Vec::new(),
        privileged: false,
        read_only_root_filesystem: false,
        allow_privilege_escalation: None,
        capabilities_add: Vec::new(),
        capabilities_drop: Vec::new(),
        seccomp_profile_type: None,
        seccomp_localhost_path: None,
        apparmor_profile: None,
    };
    if let Some(p) = pod_sc {
        out.run_as_user = p.run_as_user;
        out.run_as_group = p.run_as_group;
        out.supplemental_groups = copy_numbers(&p.supplemental_groups);
        if let Some(s) = &p.seccomp_profile {
            out.seccomp_profile_type = Some(s.type_.clone());
            out.seccomp_localhost_path = s.localhost_profile.clone();
        }
    }
    if let Some(c) = ctr_sc {
        if c.run_as_user.is_some() {
            out.run_as_user = c.run_as_user;
        }
        if c.run_as_group.is_some() {
            out.run_as_group = c.run_as_group;
        }
        out.privileged = match c.privileged {
            Some(b) => b,
            None => false,
        };
        out.read_only_root_filesystem = match c.read_only_root_filesystem {
            Some(b) => b,
            None => false,
        };
        out.allow_privilege_escalation = c.allow_privilege_escalation;
        if let Some(caps) = &c.capabilities {
            out.capabilities_add = copy_strings(&caps.add);
            out.capabilities_drop = copy_strings(&caps.drop);
        }
        if let Some(s) = &c.seccomp_profile {
            out.seccomp_profile_type = Some(s.type_.clone());
            out.seccomp_localhost_path = s.localhost_profile.clone();
        }
        if let Some(a) = &c.apparmor_profile {
            let name = if same(a.type_.as_str(), "Unconfined") {
                "unconfined".to_owned()
            } else if same(a.type_.as_str(), "Localhost") {
                match &a.localhost_profile {
                    Some(p) => cat2("localhost/", p.as_str()),
                    None => {
                        assert("localhost/"@ + Seq::<char>::empty() =~= "localhost/"@);
                        "localhost/".to_owned()
                    },
                }
            } else {
                "runtime/default".to_owned()
            };
            out.apparmor_profile = Some(name);
        }
    }
    out
}

// ---------------------------------------------------------------------------
// The whole configuration
// ---------------------------------------------------------------------------

/// The variables that a container gives values itself.
pub open spec fn static_env(env: Seq<EnvVar>) -> Seq<TextPair>
    decreases env.len(),
{
    if env.len() == 0 {
        Seq::empty()
    } else {
        let front = static_env(env.drop_last());
        match env.last().value {
            Some(v) => front.push((env.last().name@, v@)),
            None => front,
        }
    }
}

/// The directory of the logs of a container.
pub open spec fn log_directory_of(
    log_dir: Seq<char>,
    pod: PodSpec,
    container: Seq<char>,
) -> Seq<char> {
    log_dir + "/"@ + pod.pod_ref.namespace@ + "_"@ + pod.pod_ref.name@ + "_"@ + pod.uid.0@ + "/"@
        + container + "/"@
}

/// Builds what a runtime is told to create for a container of a pod. The
/// variables that the container sets itself come before the looked-up ones.
pub fn build_container_config<'a>(
    pod: &PodSpec,
    container: &'a ContainerSpec,
    sandbox_id: &str,
    resolved_env: &ResolvedEnv,
    log_dir: &str,
    pod_hostname: &str,
) -> (r: CreateContainerConfig<'a>)
    ensures
        r.pod_name == pod.pod_ref.name,
        r.pod_uid == pod.uid.0,
        r.pod_namespace == pod.pod_ref.namespace,
        r.attempt == 0,
        r.sandbox_id@ == sandbox_id@,
        r.container == container,
        r.log_directory@ == log_directory_of(log_dir@, *pod, container.name@),
        security_is(
            match pod.security_context {
                Some(s) => Some(&s),
                None => None,
            },
            match container.security_context {
                Some(s) => Some(&s),
                None => None,
            },
            r.security,
        ),
        pair_texts(r.extra_env@) == static_env(container.env@) + pair_texts(resolved_env.vars@),
        r.extra_env@.len() >= resolved_env.vars@.len(),
        forall|i: int|
            0 <= i < container.env@.len() && (#[trigger] container.env@[i]).value is Some
                ==> exists|k: int|
                0 <= k < r.extra_env@.len() - resolved_env.vars@.len() && (
                #[trigger] r.extra_env@[k]).0@ == container.env@[i].name@ && r.extra_env@[k].1@
                    == container.env@[i].value->0@,
        forall|i: int, j: int|
            0 <= i < j < container.env@.len() && (#[trigger] container.env@[i]).value is Some && (
            #[trigger] container.env@[j]).value is Some ==> exists|k: int, l: int|
                0 <= k < l < r.extra_env@.len() - resolved_env.vars@.len() && (
                #[trigger] r.extra_env@[k]).0@ == container.env@[i].name@ && r.extra_env@[k].1@
                    == container.env@[i].value->0@ && (#[trigger] r.extra_env@[l]).0@
                    == container.env@[j].name@ && r.extra_env@[l].1@ == container.env@[j].value->0@,
        forall|p: (String, String)| #[trigger]
            r.extra_env@.contains(p) ==> (exists|i: int|
                0 <= i < container.env@.len() && (#[trigger] container.env@[i]).value is Some && p.0@
                    == container.env@[i].name@ && p.1@ == container.env@[i].value->0@) || (exists|
                k: int,
            |
                0 <= k < resolved_env.vars@.len() && p.0@ == (#[trigger] resolved_env.vars@[k]).0@
                    && p.1@ == resolved_env.vars@[k].1@),
        forall|k: int|
            0 <= k < resolved_env.vars@.len() ==> r.extra_env@[r.extra_env@.len()
                - resolved_env.vars@.len() + k].0@ == (#[trigger] resolved_env.vars@[k]).0@
                && r.extra_env@[r.extra_env@.len() - resolved_env.vars@.len() + k].1@
                == resolved_env.vars@[k].1@,
        r.log_directory@ == log_dir@ + "/"@ + pod.pod_ref.namespace@ + "_"@ + pod.pod_ref.name@
            + "_"@ + pod.uid.0@ + "/"@ + container.name@ + "/"@,
        r.image_id@.len() == 0,
        r.env_overrides@ == Map::<Seq<char>, String>::empty(),
        r.linux_cgroup_parent@.len() == 0,
        r.extra_devices@.len() == 0,
        r.extra_mounts@.len() == 0,
        r.extra_device_envs@.len() == 0,
        r.share_process_namespace == (pod.share_process_namespace == Some(true)),
        r.pod_hostname@ == pod_hostname@,
{
    let security = build_linux_security(
        pod.security_context.as_ref(),
        container.security_context.as_ref(),
    );
    let mut env: Vec<(String, String)> = Vec::new();
    let mut i: usize = 0;
    assert(pair_texts(env@) =~= static_env(container.env@.take(0)));
    while i < container.env.len()
        invariant
            i <= container.env@.len(),
            pair_texts(env@) == static_env(container.env@.take(i as int)),
        decreases container.env@.len() - i,
    {
        let ghost before = env@;
        let e = &container.env[i];
        assert(container.env@.take(i + 1).drop_last() =~= container.env@.take(i as int));
        if let Some(v) = &e.value {
            env.push((e.name.clone(), v.clone()));
            assert(pair_texts(env@) =~= pair_texts(before).push((e.name@, v@)));
        }
        i = i + 1;
    }
    assert(container.env@.take(i as int) =~= container.env@);
    let ghost own = pair_texts(env@);
    let mut k: usize = 0;
    assert(pair_texts(env@) =~= own + pair_texts(resolved_env.vars@.take(0)));
    while k < resolved_env.vars.len()
        invariant
            k <= resolved_env.vars@.len(),
            pair_texts(env@) == own + pair_texts(resolved_env.vars@.take(k as int)),
        decreases resolved_env.vars@.len() - k,
    {
        let ghost before = env@;
        let p = &resolved_env.vars[k];
        env.push((p.0.clone(), p.1.clone()));
        assert(pair_texts(env@) =~= pair_texts(before).push((p.0@, p.1@)));
        assert(pair_texts(resolved_env.vars@.take(k + 1)) =~= pair_texts(
            resolved_env.vars@.take(k as int),
        ).push((p.0@, p.1@)));
        k = k + 1;
        assert(pair_texts(env@) =~= own + pair_texts(resolved_env.vars@.take(k as int)));
    }
    assert(resolved_env.vars@.take(k as int) =~= resolved_env.vars@);
    let pod_dir = cat7(
        log_dir,
        "/",
        pod.pod_ref.namespace.as_str(),
        "_",
        pod.pod_ref.name.as_str(),
        "_",
        pod.uid.0.as_str(),
    );
    let log_directory = crate::text::cat4(
        pod_dir.as_str(),
        "/",
        container.name.as_str(),
        "/",
    );
    let config = CreateContainerConfig {
        pod_name: pod.pod_ref.name.clone(),
        pod_uid: pod.uid.0.clone(),
        pod_namespace: pod.pod_ref.namespace.clone(),
        attempt: 0,
        sandbox_id: sandbox_id.to_owned(),
        container,
        log_directory,
        security,
        extra_env: env,
        image_id: String::new(),
        env_overrides: StrMap::new(),
        linux_cgroup_parent: String::new(),
        extra_devices: Vec::new(),
        extra_mounts: Vec::new(),
        extra_device_envs: Vec::new(),
        share_process_namespace: match pod.share_process_namespace {
            Some(b) => b,
            None => false,
        },
        pod_hostname: pod_hostname.to_owned(),
    };
    proof {
        law_own_variables_keep_name_and_value(
            container.env@,
            resolved_env.vars@,
            config.extra_env@,
        );
    }
    config
}

// ---------------------------------------------------------------------------
// Values taken from the pod itself
// ---------------------------------------------------------------------------

/// The key in `prefix` + key + `']`.
pub open spec fn quoted_key(path: Seq<char>, prefix: Seq<char>) -> Option<Seq<char>> {
    match without_prefix(path, prefix) {
        Some(rest) => without_suffix(rest, "']"@),
        None => None,
    }
}

/// The text of a key, or nothing.
pub open spec fn text_at(m: Map<Seq<char>, String>, k: Seq<char>) -> Seq<char> {
    if m.contains_key(k) {
        m[k]@
    } else {
        Seq::empty()
    }
}

/// The value of a field of a pod.
pub open spec fn field_value(pod: PodSpec, host_ip: Seq<char>, path: Seq<char>) -> Seq<char> {
    if path == "metadata.name"@ {
        pod.pod_ref.name@
    } else if path == "metadata.namespace"@ {
        pod.pod_ref.namespace@
    } else if path == "metadata.uid"@ {
        pod.uid.0@
    } else if path == "spec.nodeName"@ {
        pod.node_name@
    } else if path == "spec.serviceAccountName"@ {
        pod.service_account_name@
    } else if path == "status.hostIP"@ {
        host_ip
    } else if path == "status.podIP"@ {
        if pod.host_network {
            host_ip
        } else {
            Seq::empty()
        }
    } else {
        match quoted_key(path, "metadata.labels['"@) {
            Some(k) => text_at(pod.labels@, k),
            None => match quoted_key(path, "metadata.annotations['"@) {
                Some(k) => text_at(pod.annotations@, k),
                None => Seq::empty(),
            },
        }
    }
}

/// The amount of a resource that is requested, as text.
pub open spec fn amount_text(m: Map<Seq<char>, ResourceQuantity>, k: Seq<char>) -> Seq<char> {
    if m.contains_key(k) {
        dec_int(m[k].value as int)
    } else {
        "0"@
    }
}

/// The value of a resource field of a container.
pub open spec fn resource_value(container: ContainerSpec, resource: Seq<char>) -> Seq<char> {
    if resource == "limits.cpu"@ || resource == "requests.cpu"@ {
        amount_text(container.resources.requests@, "cpu"@)
    } else if resource == "limits.memory"@ || resource == "requests.memory"@ {
        amount_text(container.resources.requests@, "memory"@)
    } else {
        Seq::empty()
    }
}

/// The value that the pod or the container gives a variable.
pub open spec fn downward_value(
    pod: PodSpec,
    container: ContainerSpec,
    host_ip: Seq<char>,
    source: Option<EnvVarSource>,
) -> Option<Seq<char>> {
    match source {
        Some(EnvVarSource::FieldRef { field_path }) => Some(
            field_value(pod, host_ip, field_path@),
        ),
        Some(EnvVarSource::ResourceFieldRef { container_name: _, resource }) => Some(
            resource_value(container, resource@),
        ),
        _ => None,
    }
}

/// The variables whose values the pod or the container gives.
pub open spec fn downward_env(
    pod: PodSpec,
    container: ContainerSpec,
    host_ip: Seq<char>,
    env: Seq<EnvVar>,
) -> Seq<TextPair>
    decreases env.len(),
{
    if env.len() == 0 {
        Seq::empty()
    } else {
        let front = downward_env(pod, container, host_ip, env.drop_last());
        match downward_value(pod, container, host_ip, env.last().value_from) {
            Some(v) => front.push((env.last().name@, v)),
            None => front,
        }
    }
}

fn text_or_empty(m: &StrMap<String>, k: &str) -> (r: String)
    ensures
        r@ == text_at(m@, k@),
{
    match m.get(k) {
        Some(v) => v.clone(),
        None => String::new(),
    }
}

fn read_quoted_key<'a>(path: &'a str, prefix: &str) -> (r: Option<&'a str>)
    ensures
        match r {
            Some(k) => quoted_key(path@, prefix@) == Some(k@),
            None => quoted_key(path@, prefix@) is None,
        },
{
    match strip_prefix(path, prefix) {
        Some(rest) => strip_suffix(rest, "']"),
        None => None,
    }
}

fn read_field(pod: &PodSpec, host_ip: &str, path: &str) -> (r: String)
    ensures
        r@ == field_value(*pod, host_ip@, path@),
{
    if same(path, "metadata.name") {
        pod.pod_ref.name.clone()
    } else if same(path, "metadata.namespace") {
        pod.pod_ref.namespace.clone()
    } else if same(path, "metadata.uid") {
        pod.uid.0.clone()
    } else if same(path, "spec.nodeName") {
        pod.node_name.clone()
    } else if same(path, "spec.serviceAccountName") {
        pod.service_account_name.clone()
    } else if same(path, "status.hostIP") {
        host_ip.to_owned()
    } else if same(path, "status.podIP") {
        if pod.host_network {
            host_ip.to_owned()
        } else {
            String::new()
        }
    } else {
        match read_quoted_key(path, "metadata.labels['") {
            Some(k) => text_or_empty(&pod.labels, k),
            None => match read_quoted_key(path, "metadata.annotations['") {
                Some(k) => text_or_empty(&pod.annotations, k),
                None => String::new(),
            },
        }
    }
}

fn read_amount(m: &StrMap<ResourceQuantity>, k: &str) -> (r: String)
    ensures
        r@ == amount_text(m@, k@),
{
    match m.get(k) {
        Some(q) => decimal_signed(q.value),
        None => "0".to_owned(),
    }
}

fn read_resource(container: &ContainerSpec, resource: &str) -> (r: String)
    ensures
        r@ == resource_value(*container, resource@),
{
    if same(resource, "limits.cpu") || same(resource, "requests.cpu") {
        read_amount(&container.resources.requests, "cpu")
    } else if same(resource, "limits.memory") || same(resource, "requests.memory") {
        read_amount(&container.resources.requests, "memory")
    } else {
        String::new()
    }
}

/// Looks up the variables whose values are fields of the pod or resources of
/// the container. The address of a pod that has a network of its own is not
/// known yet and left empty.
pub fn resolve_downward_api_env(
    pod: &PodSpec,
    container: &ContainerSpec,
    host_ip: &str,
) -> (r: Vec<(String, String)>)
    ensures
        pair_texts(r@) == downward_env(*pod, *container, host_ip@, container.env@),
        forall|i: int|
            0 <= i < container.env@.len() && (#[trigger] container.env@[i]).value_from is Some
                && container.env@[i].value_from->0 is FieldRef ==> exists|k: int|
                0 <= k < r@.len() && (#[trigger] r@[k]).0@ == container.env@[i].name@ && r@[k].1@
                    == field_value(
                    *pod,
                    host_ip@,
                    container.env@[i].value_from->0->FieldRef_field_path@,
                ),
{
    let mut resolved: Vec<(String, String)> = Vec::new();
    let mut i: usize = 0;
    assert(pair_texts(resolved@) =~= downward_env(
        *pod,
        *container,
        host_ip@,
        container.env@.take(0),
    ));
    while i < container.env.len()
        invariant
            i <= container.env@.len(),
            pair_texts(resolved@) == downward_env(
                *pod,
                *container,
                host_ip@,
                container.env@.take(i as int),
            ),
        decreases container.env@.len() - i,
    {
        let ghost before = resolved@;
        let env = &container.env[i];
        assert(container.env@.take(i + 1).drop_last() =~= container.env@.take(i as int));
        let value = match &env.value_from {
            Some(EnvVarSource::FieldRef { field_path }) => Some(
                read_field(pod, host_ip, field_path.as_str()),
            ),
            Some(EnvVarSource::ResourceFieldRef { container_name: _, resource }) => Some(
                read_resource(container, resource.as_str()),
            ),
            _ => None,
        };
        if let Some(v) = value {
            resolved.push((env.name.clone(), v));
            assert(pair_texts(resolved@) =~= pair_texts(before).push((env.name@, v@)));
        }
        i = i + 1;
    }
    assert(container.env@.take(i as int) =~= container.env@);
    proof {
        law_looked_up_fields_go_to_their_names(*pod, *container, host_ip@, resolved@);
    }
    resolved
}

/// The local address of a socket that was connected outwards.
#[derive(Debug)]
pub enum LocalAddress {
    V4([u8; 4]),
    /// The address as text.
    V6(String),
}

/// The text of an IPv4 address.
pub open spec fn dotted(octets: Seq<u8>) -> Seq<char> {
    dec(octets[0] as nat) + "."@ + dec(octets[1] as nat) + "."@ + dec(octets[2] as nat) + "."@
        + dec(octets[3] as nat)
}

/// The address of the node by the address that its outward socket got. An IPv6
/// address that begins like the loopback one is not taken.
pub open spec fn node_ip_text(address: Option<LocalAddress>) -> Seq<char> {
    match address {
        Some(LocalAddress::V4(octets)) => dotted(octets@),
        Some(LocalAddress::V6(t)) => if has_prefix(t@, "::1"@) {
            "127.0.0.1"@
        } else {
            t@
        },
        None => "127.0.0.1"@,
    }
}

/// The address of the node; the loopback address where no outward socket could
/// be had.
pub fn node_ip_for_downward_api(address: &Option<LocalAddress>) -> (r: String)
    ensures
        r@ == node_ip_text(*address),
{
    match address {
        Some(LocalAddress::V4(octets)) => {
            let a = decimal(octets[0] as u64);
            let b = decimal(octets[1] as u64);
            let c = decimal(octets[2] as u64);
            let d = decimal(octets[3] as u64);
            cat7(a.as_str(), ".", b.as_str(), ".", c.as_str(), ".", d.as_str())
        },
        Some(LocalAddress::V6(t)) => if starts_with(t.as_str(), "::1") {
            "127.0.0.1".to_owned()
        } else {
            t.clone()
        },
        None => "127.0.0.1".to_owned(),
    }
}

// ---------------------------------------------------------------------------
// Values taken from config maps and secrets
// ---------------------------------------------------------------------------

pub open spec fn prefix_of(source: EnvFromSource) -> Seq<char> {
    match source.prefix {
        Some(p) => p@,
        None => Seq::empty(),
    }
}

/// The entries with their keys behind `prefix`.
pub open spec fn prefixed(prefix: Seq<char>, pairs: Seq<(Seq<char>, String)>) -> Seq<TextPair> {
    pairs.map_values(|p: (Seq<char>, String)| (prefix + p.0, p.1@))
}

/// All entries of the config maps that are taken whole, source by source.
pub open spec fn whole_configmaps(
    sources: Seq<EnvFromSource>,
    configmaps: StrMap<StrMap<String>>,
) -> Seq<TextPair>
    decreases sources.len(),
{
    if sources.len() == 0 {
        Seq::empty()
    } else {
        let front = whole_configmaps(sources.drop_last(), configmaps);
        match sources.last().config_map_ref {
            Some(c) if configmaps@.contains_key(c.name@) => front + prefixed(
                prefix_of(sources.last()),
                configmaps@[c.name@].pairs(),
            ),
            _ => front,
        }
    }
}

/// The variables that take one key of a config map each; one whose map or key
/// is missing is left out.
pub open spec fn single_configmap_keys(
    env: Seq<EnvVar>,
    configmaps: StrMap<StrMap<String>>,
) -> Seq<TextPair>
    decreases env.len(),
{
    if env.len() == 0 {
        Seq::empty()
    } else {
        let front = single_configmap_keys(env.drop_last(), configmaps);
        match env.last().value_from {
            Some(EnvVarSource::ConfigMapKeyRef { name, key, optional: _ }) => if configmaps@.contains_key(
                name@,
            ) && configmaps@[name@]@.contains_key(key@) {
                front.push((env.last().name@, configmaps@[name@]@[key@]@))
            } else {
                front
            },
            _ => front,
        }
    }
}

/// Looks up the variables that come from config maps: first those of maps that
/// are taken whole, then the single keys.
pub fn resolve_configmap_env(
    container: &ContainerSpec,
    configmaps: &StrMap<StrMap<String>>,
) -> (r: Vec<(String, String)>)
    ensures
        pair_texts(r@) == whole_configmaps(container.env_from@, *configmaps)
            + single_configmap_keys(container.env@, *configmaps),
{
    let mut resolved: Vec<(String, String)> = Vec::new();
    let mut i: usize = 0;
    assert(pair_texts(resolved@) =~= whole_configmaps(container.env_from@.take(0), *configmaps));
    while i < container.env_from.len()
        invariant
            i <= container.env_from@.len(),
            pair_texts(resolved@) == whole_configmaps(
                container.env_from@.take(i as int),
                *configmaps,
            ),
        decreases container.env_from@.len() - i,
    {
        let source = &container.env_from[i];
        assert(container.env_from@.take(i + 1).drop_last() =~= container.env_from@.take(i as int));
        let prefix = match &source.prefix {
            Some(p) => p.clone(),
            None => String::new(),
        };
        assert(prefix@ =~= prefix_of(*source));
        if let Some(c) = &source.config_map_ref {
            if let Some(data) = configmaps.get(c.name.as_str()) {
                let n: usize = data.len();
                let ghost front = pair_texts(resolved@);
                let mut k: usize = 0;
                assert(front + prefixed(prefix@, data.pairs().take(0)) =~= front);
                while k < n
                    invariant
                        k <= n == data.pairs().len(),
                        pair_texts(resolved@) == front + prefixed(
                            prefix@,
                            data.pairs().take(k as int),
                        ),
                    decreases n - k,
                {
                    let ghost before = resolved@;
                    let name = cat2(prefix.as_str(), data.key_at(k).as_str());
                    let value = data.value_at(k).clone();
                    resolved.push((name, value));
                    assert(pair_texts(resolved@) =~= pair_texts(before).push((name@, value@)));
                    assert(prefixed(prefix@, data.pairs().take(k + 1)) =~= prefixed(
                        prefix@,
                        data.pairs().take(k as int),
                    ).push((name@, value@)));
                    k = k + 1;
                    assert(pair_texts(resolved@) =~= front + prefixed(
                        prefix@,
                        data.pairs().take(k as int),
                    ));
                }
                assert(data.pairs().take(k as int) =~= data.pairs());
            }
        }
        i = i + 1;
    }
    assert(container.env_from@.take(i as int) =~= container.env_from@);
    let ghost whole = pair_texts(resolved@);
    let mut j: usize = 0;
    assert(whole + single_configmap_keys(container.env@.take(0), *configmaps) =~= whole);
    while j < container.env.len()
        invariant
            j <= container.env@.len(),
            pair_texts(resolved@) == whole + single_configmap_keys(
                container.env@.take(j as int),
                *configmaps,
            ),
        decreases container.env@.len() - j,
    {
        let ghost before = resolved@;
        let env = &container.env[j];
        assert(container.env@.take(j + 1).drop_last() =~= container.env@.take(j as int));
        if let Some(EnvVarSource::ConfigMapKeyRef { name, key, optional: _ }) = &env.value_from {
            if let Some(data) = configmaps.get(name.as_str()) {
                if let Some(v) = data.get(key.as_str()) {
                    resolved.push((env.name.clone(), v.clone()));
                    assert(pair_texts(resolved@) =~= pair_texts(before).push((env.name@, v@)));
                }
            }
        }
        j = j + 1;
        assert(pair_texts(resolved@) =~= whole + single_configmap_keys(
            container.env@.take(j as int),
            *configmaps,
        ));
    }
    assert(container.env@.take(j as int) =~= container.env@);
    resolved
}

/// The entries that are text, with their keys behind `prefix`.
pub open spec fn prefixed_text(
    prefix: Seq<char>,
    pairs: Seq<(Seq<char>, Vec<u8>)>,
) -> Seq<TextPair>
    decreases pairs.len(),
{
    if pairs.len() == 0 {
        Seq::empty()
    } else {
        let front = prefixed_text(prefix, pairs.drop_last());
        if valid_utf8(pairs.last().1@) {
            front.push((prefix + pairs.last().0, decode_utf8(pairs.last().1@)))
        } else {
            front
        }
    }
}

/// All entries of the secrets that are taken whole, source by source; entries
/// that are not text are left out.
pub open spec fn whole_secrets(
    sources: Seq<EnvFromSource>,
    secrets: StrMap<StrMap<Vec<u8>>>,
) -> Seq<TextPair>
    decreases sources.len(),
{
    if sources.len() == 0 {
        Seq::empty()
    } else {
        let front = whole_secrets(sources.drop_last(), secrets);
        match sources.last().secret_ref {
            Some(c) if secrets@.contains_key(c.name@) => front + prefixed_text(
                prefix_of(sources.last()),
                secrets@[c.name@].pairs(),
            ),
            _ => front,
        }
    }
}

/// The variables that take one key of a secret each; one whose secret or key
/// is missing, or whose value is not text, is left out.
pub open spec fn single_secret_keys(
    env: Seq<EnvVar>,
    secrets: StrMap<StrMap<Vec<u8>>>,
) -> Seq<TextPair>
    decreases env.len(),
{
    if env.len() == 0 {
        Seq::empty()
    } else {
        let front = single_secret_keys(env.drop_last(), secrets);
        match env.last().value_from {
            Some(EnvVarSource::SecretKeyRef { name, key, optional: _ }) => if secrets@.contains_key(
                name@,
            ) && secrets@[name@]@.contains_key(key@) && valid_utf8(secrets@[name@]@[key@]@) {
                front.push((env.last().name@, decode_utf8(secrets@[name@]@[key@]@)))
            } else {
                front
            },
            _ => front,
        }
    }
}

/// Looks up the variables that come from secrets: first those of secrets that
/// are taken whole, then the single keys.
pub fn resolve_secret_env(
    container: &ContainerSpec,
    secrets: &StrMap<StrMap<Vec<u8>>>,
) -> (r: Vec<(String, String)>)
    ensures
        pair_texts(r@) == whole_secrets(container.env_from@, *secrets) + single_secret_keys(
            container.env@,
            *secrets,
        ),
{
    let mut resolved: Vec<(String, String)> = Vec::new();
    let mut i: usize = 0;
    assert(pair_texts(resolved@) =~= whole_secrets(container.env_from@.take(0), *secrets));
    while i < container.env_from.len()
        invariant
            i <= container.env_from@.len(),
            pair_texts(resolved@) == whole_secrets(container.env_from@.take(i as int), *secrets),
        decreases container.env_from@.len() - i,
    {
        let source = &container.env_from[i];
        assert(container.env_from@.take(i + 1).drop_last() =~= container.env_from@.take(i as int));
        let prefix = match &source.prefix {
            Some(p) => p.clone(),
            None => String::new(),
        };
        assert(prefix@ =~= prefix_of(*source));
        if let Some(c) = &source.secret_ref {
            if let Some(data) = secrets.get(c.name.as_str()) {
                let n: usize = data.len();
                let ghost front = pair_texts(resolved@);
                let mut k: usize = 0;
                assert(front + prefixed_text(prefix@, data.pairs().take(0)) =~= front);
                while k < n
                    invariant
                        k <= n == data.pairs().len(),
                        pair_texts(resolved@) == front + prefixed_text(
                            prefix@,
                            data.pairs().take(k as int),
                        ),
                    decreases n - k,
                {
                    let ghost before = resolved@;
                    assert(data.pairs().take(k + 1).drop_last() =~= data.pairs().take(k as int));
                    if let Ok(s) = utf8_text(data.value_at(k)) {
                        let name = cat2(prefix.as_str(), data.key_at(k).as_str());
                        resolved.push((name, s));
                        assert(pair_texts(resolved@) =~= pair_texts(before).push((name@, s@)));
                    }
                    k = k + 1;
                    assert(pair_texts(resolved@) =~= front + prefixed_text(
                        prefix@,
                        data.pairs().take(k as int),
                    ));
                }
                assert(data.pairs().take(k as int) =~= data.pairs());
            }
        }
        i = i + 1;
    }
    assert(container.env_from@.take(i as int) =~= container.env_from@);
    let ghost whole = pair_texts(resolved@);
    let mut j: usize = 0;
    assert(whole + single_secret_keys(container.env@.take(0), *secrets) =~= whole);
    while j < container.env.len()
        invariant
            j <= container.env@.len(),
            pair_texts(resolved@) == whole + single_secret_keys(
                container.env@.take(j as int),
                *secrets,
            ),
        decreases container.env@.len() - j,
    {
        let ghost before = resolved@;
        let env = &container.env[j];
        assert(container.env@.take(j + 1).drop_last() =~= container.env@.take(j as int));
        if let Some(EnvVarSource::SecretKeyRef { name, key, optional: _ }) = &env.value_from {
            if let Some(data) = secrets.get(name.as_str()) {
                if let Some(v) = data.get(key.as_str()) {
                    if let Ok(s) = utf8_text(v) {
                        resolved.push((env.name.clone(), s));
                        assert(pair_texts(resolved@) =~= pair_texts(before).push((env.name@, s@)));
                    }
                }
            }
        }
        j = j + 1;
        assert(pair_texts(resolved@) =~= whole + single_secret_keys(
            container.env@.take(j as int),
            *secrets,
        ));
    }
    assert(container.env@.take(j as int) =~= container.env@);
    resolved
}

// ---------------------------------------------------------------------------
// Laws
// ---------------------------------------------------------------------------

proof fn lemma_static_env_has(env: Seq<EnvVar>, i: int)
    requires
        0 <= i < env.len(),
        env[i].value is Some,
    ensures
        static_env(env.take(i)).len() < static_env(env).len(),
        static_env(env)[static_env(env.take(i)).len() as int].0 == env[i].name@,
        static_env(env)[static_env(env.take(i)).len() as int].1 == env[i].value->0@,
    decreases env.len(),
{
    let front = env.drop_last();
    if i == env.len() - 1 {
        assert(env.take(i) =~= front);
    } else {
        lemma_static_env_has(front, i);
        assert(front.take(i) =~= env.take(i));
        assert(front[i] == env[i]);
    }
}

proof fn lemma_static_env_from(env: Seq<EnvVar>, k: int) -> (i: int)
    requires
        0 <= k < static_env(env).len(),
    ensures
        0 <= i < env.len(),
        env[i].value is Some,
        static_env(env)[k].0 == env[i].name@,
        static_env(env)[k].1 == env[i].value->0@,
    decreases env.len(),
{
    let front = env.drop_last();
    if k < static_env(front).len() {
        let i = lemma_static_env_from(front, k);
        assert(front[i] == env[i]);
        i
    } else {
        env.len() - 1
    }
}

/// The variables of a container come out with their own names and values, in
/// the container's order, and nothing stands among them that the container
/// does not set; the looked-up ones follow, each as it is.
pub proof fn law_own_variables_keep_name_and_value(
    env: Seq<EnvVar>,
    vars: Seq<(String, String)>,
    out: Seq<(String, String)>,
)
    requires
        pair_texts(out) == static_env(env) + pair_texts(vars),
    ensures
        out.len() >= vars.len(),
        forall|i: int|
            0 <= i < env.len() && (#[trigger] env[i]).value is Some
                ==> exists|k: int|
                0 <= k < out.len() - vars.len() && (
                #[trigger] out[k]).0@ == env[i].name@ && out[k].1@
                    == env[i].value->0@,
        forall|i: int, j: int|
            0 <= i < j < env.len() && (#[trigger] env[i]).value is Some && (
            #[trigger] env[j]).value is Some ==> exists|k: int, l: int|
                0 <= k < l < out.len() - vars.len() && (
                #[trigger] out[k]).0@ == env[i].name@ && out[k].1@
                    == env[i].value->0@ && (#[trigger] out[l]).0@
                    == env[j].name@ && out[l].1@ == env[j].value->0@,
        forall|p: (String, String)| #[trigger]
            out.contains(p) ==> (exists|i: int|
                0 <= i < env.len() && (#[trigger] env[i]).value is Some && p.0@
                    == env[i].name@ && p.1@ == env[i].value->0@) || (exists|
                k: int,
            |
                0 <= k < vars.len() && p.0@ == (#[trigger] vars[k]).0@
                    && p.1@ == vars[k].1@),
        forall|k: int|
            0 <= k < vars.len() ==> out[out.len()
                - vars.len() + k].0@ == (#[trigger] vars[k]).0@
                && out[out.len() - vars.len() + k].1@
                == vars[k].1@,
{
    let own = static_env(env);
    let all = pair_texts(out);
    assert(all.len() == out.len() && pair_texts(vars).len() == vars.len());
    assert forall|k: int| 0 <= k < own.len() implies (#[trigger] out[k]).0@ == own[k].0 && out[k].1@
        == own[k].1 by {
        assert(all[k] == own[k]);
    }
    assert forall|i: int| 0 <= i < env.len() && (#[trigger] env[i]).value is Some implies exists|
        k: int,
    |
        0 <= k < out.len() - vars.len() && (#[trigger] out[k]).0@ == env[i].name@ && out[k].1@
            == env[i].value->0@ by {
        lemma_static_env_has(env, i);
        let k = static_env(env.take(i)).len() as int;
        assert(out[k].0@ == env[i].name@);
    }
    assert forall|i: int, j: int|
        0 <= i < j < env.len() && (#[trigger] env[i]).value is Some && (#[trigger] env[j]).value
            is Some implies exists|k: int, l: int|
        0 <= k < l < out.len() - vars.len() && (#[trigger] out[k]).0@ == env[i].name@ && out[k].1@
            == env[i].value->0@ && (#[trigger] out[l]).0@ == env[j].name@ && out[l].1@
            == env[j].value->0@ by {
        lemma_static_env_has(env, i);
        lemma_static_env_has(env, j);
        lemma_static_env_has(env.take(j), i);
        assert(env.take(j)[i] == env[i]);
        assert(env.take(j).take(i) =~= env.take(i));
        let k = static_env(env.take(i)).len() as int;
        let l = static_env(env.take(j)).len() as int;
        assert(out[k].0@ == env[i].name@ && out[l].0@ == env[j].name@);
    }
    assert forall|p: (String, String)| #[trigger] out.contains(p) implies (exists|i: int|
        0 <= i < env.len() && (#[trigger] env[i]).value is Some && p.0@ == env[i].name@ && p.1@
            == env[i].value->0@) || (exists|k: int|
        0 <= k < vars.len() && p.0@ == (#[trigger] vars[k]).0@ && p.1@ == vars[k].1@) by {
        let k = choose|k: int| 0 <= k < out.len() && out[k] == p;
        if k < own.len() {
            let i = lemma_static_env_from(env, k);
            assert(env[i].value is Some && p.0@ == env[i].name@);
        } else {
            assert(all[k] == pair_texts(vars)[k - own.len()]);
            assert(p.0@ == vars[k - own.len()].0@);
        }
    }
    assert forall|k: int| 0 <= k < vars.len() implies out[out.len() - vars.len() + k].0@ == (
    #[trigger] vars[k]).0@ && out[out.len() - vars.len() + k].1@ == vars[k].1@ by {
        assert(all[own.len() + k] == pair_texts(vars)[k]);
    }
}

proof fn lemma_downward_env_has(
    pod: PodSpec,
    container: ContainerSpec,
    host_ip: Seq<char>,
    env: Seq<EnvVar>,
    i: int,
)
    requires
        0 <= i < env.len(),
        downward_value(pod, container, host_ip, env[i].value_from) is Some,
    ensures
        exists|k: int|
            0 <= k < downward_env(pod, container, host_ip, env).len() && (
            #[trigger] downward_env(pod, container, host_ip, env)[k]) == (
                env[i].name@,
                downward_value(pod, container, host_ip, env[i].value_from)->0,
            ),
    decreases env.len(),
{
    let front = downward_env(pod, container, host_ip, env.drop_last());
    let all = downward_env(pod, container, host_ip, env);
    let pair = (env[i].name@, downward_value(pod, container, host_ip, env[i].value_from)->0);
    if i < env.len() - 1 {
        assert(env.drop_last()[i] == env[i]);
        lemma_downward_env_has(pod, container, host_ip, env.drop_last(), i);
        let k = choose|k: int| 0 <= k < front.len() && (#[trigger] front[k]) == pair;
        assert(all[k] == pair);
    } else {
        assert(all[front.len() as int] == pair);
    }
}

proof fn lemma_downward_env_from(
    pod: PodSpec,
    container: ContainerSpec,
    host_ip: Seq<char>,
    env: Seq<EnvVar>,
    k: int,
) -> (i: int)
    requires
        0 <= k < downward_env(pod, container, host_ip, env).len(),
    ensures
        0 <= i < env.len(),
        env[i].value_from matches Some(s) && (s is FieldRef || s is ResourceFieldRef),
        downward_env(pod, container, host_ip, env)[k].0 == env[i].name@,
    decreases env.len(),
{
    let front = env.drop_last();
    if k < downward_env(pod, container, host_ip, front).len() {
        let i = lemma_downward_env_from(pod, container, host_ip, front, k);
        assert(front[i] == env[i]);
        i
    } else {
        env.len() - 1
    }
}

/// A variable that refers to a field of the pod comes out under its own name
/// with the value of that field, one that refers to a resource with the amount
/// of that; a variable that refers to neither is left out.
pub proof fn law_looked_up_fields_go_to_their_names(
    pod: PodSpec,
    container: ContainerSpec,
    host_ip: Seq<char>,
    out: Seq<(String, String)>,
)
    requires
        pair_texts(out) == downward_env(pod, container, host_ip, container.env@),
    ensures
        forall|i: int|
            0 <= i < container.env@.len() && (#[trigger] container.env@[i]).value_from is Some
                && container.env@[i].value_from->0 is FieldRef ==> exists|k: int|
                0 <= k < out.len() && (#[trigger] out[k]).0@ == container.env@[i].name@ && out[k].1@
                    == field_value(
                    pod,
                    host_ip,
                    container.env@[i].value_from->0->FieldRef_field_path@,
                ),
        forall|i: int|
            0 <= i < container.env@.len() && (#[trigger] container.env@[i]).value_from is Some
                && container.env@[i].value_from->0 is ResourceFieldRef ==> exists|k: int|
                0 <= k < out.len() && (#[trigger] out[k]).0@ == container.env@[i].name@ && out[k].1@
                    == resource_value(
                    container,
                    container.env@[i].value_from->0->ResourceFieldRef_resource@,
                ),
        forall|p: (String, String)| #[trigger]
            out.contains(p) ==> exists|i: int|
                0 <= i < container.env@.len() && p.0@ == (#[trigger] container.env@[i]).name@ && (
                container.env@[i].value_from matches Some(s) && (s is FieldRef
                    || s is ResourceFieldRef)),
{
    let env = container.env@;
    let all = pair_texts(out);
    assert(all.len() == out.len());
    assert forall|i: int|
        0 <= i < env.len() && downward_value(
            pod,
            container,
            host_ip,
            (#[trigger] env[i]).value_from,
        ) is Some implies exists|k: int|
        0 <= k < out.len() && (#[trigger] out[k]).0@ == env[i].name@ && out[k].1@ == downward_value(
            pod,
            container,
            host_ip,
            env[i].value_from,
        )->0 by {
        lemma_downward_env_has(pod, container, host_ip, env, i);
        let k = choose|k: int|
            0 <= k < all.len() && (#[trigger] all[k]) == (
                env[i].name@,
                downward_value(pod, container, host_ip, env[i].value_from)->0,
            );
        assert(out[k].0@ == all[k].0);
    }
    assert forall|p: (String, String)| #[trigger] out.contains(p) implies exists|i: int|
        0 <= i < env.len() && p.0@ == (#[trigger] env[i]).name@ && (env[i].value_from matches Some(s)
            && (s is FieldRef || s is ResourceFieldRef)) by {
        let k = choose|k: int| 0 <= k < out.len() && out[k] == p;
        let i = lemma_downward_env_from(pod, container, host_ip, env, k);
        assert(all[k].0 == p.0@);
        assert(p.0@ == env[i].name@);
    }
}

/// Each field path gives its own field of the pod.
pub proof fn law_field_paths_give_their_fields(pod: PodSpec, host_ip: Seq<char>)
    ensures
        field_value(pod, host_ip, "metadata.name"@) == pod.pod_ref.name@,
        field_value(pod, host_ip, "metadata.namespace"@) == pod.pod_ref.namespace@,
        field_value(pod, host_ip, "metadata.uid"@) == pod.uid.0@,
        field_value(pod, host_ip, "spec.nodeName"@) == pod.node_name@,
        field_value(pod, host_ip, "spec.serviceAccountName"@) == pod.service_account_name@,
        field_value(pod, host_ip, "status.hostIP"@) == host_ip,
        pod.host_network ==> field_value(pod, host_ip, "status.podIP"@) == host_ip,
        !pod.host_network ==> field_value(pod, host_ip, "status.podIP"@).len() == 0,
{
    lemma_field_paths();
}

proof fn lemma_field_paths()
    ensures
        "metadata.name"@.len() == 13 && "metadata.name"@[9] == 'n',
        "metadata.namespace"@.len() == 18 && "metadata.namespace"@[9] == 'n',
        "metadata.uid"@.len() == 12 && "metadata.uid"@[9] == 'u',
        "spec.nodeName"@.len() == 13 && "spec.nodeName"@[1] == 'p',
        "spec.serviceAccountName"@.len() == 23 && "spec.serviceAccountName"@[1] == 'p',
        "status.hostIP"@.len() == 13 && "status.hostIP"@[1] == 't',
        "status.podIP"@.len() == 12 && "status.podIP"@[1] == 't',
        "metadata.name"@[1] == 'e' && "metadata.uid"@[1] == 'e' && "metadata.namespace"@[1] == 'e',
        "metadata.labels['"@.len() == 17 && "metadata.labels['"@[9] == 'l'
            && "metadata.labels['"@[1] == 'e',
        "metadata.annotations['"@.len() == 22 && "metadata.annotations['"@[9] == 'a'
            && "metadata.annotations['"@[1] == 'e',
{
    reveal_strlit("metadata.name");
    reveal_strlit("metadata.namespace");
    reveal_strlit("metadata.uid");
    reveal_strlit("spec.nodeName");
    reveal_strlit("spec.serviceAccountName");
    reveal_strlit("status.hostIP");
    reveal_strlit("status.podIP");
    reveal_strlit("metadata.labels['");
    reveal_strlit("metadata.annotations['");
}

/// A label or an annotation is looked up by its own key, among the labels or
/// among the annotations; one that the pod does not have is empty.
pub proof fn law_field_paths_look_up_labels(pod: PodSpec, host_ip: Seq<char>, key: Seq<char>)
    ensures
        pod.labels@.contains_key(key) ==> field_value(
            pod,
            host_ip,
            "metadata.labels['"@ + key + "']"@,
        ) == pod.labels@[key]@,
        !pod.labels@.contains_key(key) ==> field_value(
            pod,
            host_ip,
            "metadata.labels['"@ + key + "']"@,
        ).len() == 0,
        pod.annotations@.contains_key(key) ==> field_value(
            pod,
            host_ip,
            "metadata.annotations['"@ + key + "']"@,
        ) == pod.annotations@[key]@,
        !pod.annotations@.contains_key(key) ==> field_value(
            pod,
            host_ip,
            "metadata.annotations['"@ + key + "']"@,
        ).len() == 0,
{
    lemma_field_paths();
    reveal_strlit("']");
    let lp = "metadata.labels['"@;
    let ap = "metadata.annotations['"@;
    let end = "']"@;
    let l = lp + key + end;
    let a = ap + key + end;
    assert(l.take(17) =~= lp);
    assert(l.skip(17) =~= key + end);
    assert((key + end).skip(key.len() as int) =~= end);
    assert((key + end).take(key.len() as int) =~= key);
    assert(a.take(22) =~= ap);
    assert(a.skip(22) =~= key + end);
    assert(l[9] == 'l' && l[1] == 'e' && a[9] == 'a' && a[1] == 'e');
    if has_prefix(a, lp) {
        assert(a.take(17)[9] == a[9]);
    }
}

/// The amount of CPU or of memory that is looked up is the one that the
/// container requests, `0` where it requests none.
pub proof fn law_resource_fields_give_their_amounts(container: ContainerSpec)
    ensures
        container.resources.requests@.contains_key("cpu"@) ==> resource_value(
            container,
            "requests.cpu"@,
        ) == dec_int(container.resources.requests@["cpu"@].value as int),
        container.resources.requests@.contains_key("memory"@) ==> resource_value(
            container,
            "requests.memory"@,
        ) == dec_int(container.resources.requests@["memory"@].value as int),
        !container.resources.requests@.contains_key("cpu"@) ==> resource_value(
            container,
            "requests.cpu"@,
        ) == "0"@,
        !container.resources.requests@.contains_key("memory"@) ==> resource_value(
            container,
            "requests.memory"@,
        ) == "0"@,
        resource_value(container, "limits.cpu"@) == resource_value(container, "requests.cpu"@),
        resource_value(container, "limits.memory"@) == resource_value(
            container,
            "requests.memory"@,
        ),
{
    reveal_strlit("limits.cpu");
    reveal_strlit("requests.cpu");
    reveal_strlit("limits.memory");
    reveal_strlit("requests.memory");
    assert("limits.cpu"@.len() == 10 && "requests.cpu"@.len() == 12 && "limits.memory"@.len() == 13
        && "requests.memory"@.len() == 15);
}

proof fn lemma_whole_configmaps_has(
    sources: Seq<EnvFromSource>,
    configmaps: StrMap<StrMap<String>>,
    i: int,
    j: int,
)
    requires
        0 <= i < sources.len(),
        sources[i].config_map_ref matches Some(c) && configmaps@.contains_key(c.name@),
        0 <= j < configmaps@[sources[i].config_map_ref->0.name@].pairs().len(),
    ensures
        whole_configmaps(sources, configmaps).contains(
            (
                prefix_of(sources[i]) + configmaps@[sources[i].config_map_ref->0.name@].pairs()[j].0,
                configmaps@[sources[i].config_map_ref->0.name@].pairs()[j].1@,
            ),
        ),
    decreases sources.len(),
{
    let front = whole_configmaps(sources.drop_last(), configmaps);
    let all = whole_configmaps(sources, configmaps);
    let pairs = configmaps@[sources[i].config_map_ref->0.name@].pairs();
    let pair = (prefix_of(sources[i]) + pairs[j].0, pairs[j].1@);
    if i < sources.len() - 1 {
        assert(sources.drop_last()[i] == sources[i]);
        lemma_whole_configmaps_has(sources.drop_last(), configmaps, i, j);
        let k = choose|k: int| 0 <= k < front.len() && front[k] == pair;
        assert(all[k] == pair);
    } else {
        assert(prefixed(prefix_of(sources[i]), pairs)[j] == pair);
        assert(all[front.len() + j] == pair);
    }
}

proof fn lemma_single_configmap_has(
    env: Seq<EnvVar>,
    configmaps: StrMap<StrMap<String>>,
    i: int,
)
    requires
        0 <= i < env.len(),
        env[i].value_from matches Some(EnvVarSource::ConfigMapKeyRef { name, key, .. })
            && configmaps@.contains_key(name@) && configmaps@[name@]@.contains_key(key@),
    ensures
        single_configmap_keys(env, configmaps).contains(
            (
                env[i].name@,
                configmaps@[env[i].value_from->0->ConfigMapKeyRef_name@]@[env[i].value_from->0->ConfigMapKeyRef_key@]@,
            ),
        ),
    decreases env.len(),
{
    let front = single_configmap_keys(env.drop_last(), configmaps);
    let all = single_configmap_keys(env, configmaps);
    let pair = (
        env[i].name@,
        configmaps@[env[i].value_from->0->ConfigMapKeyRef_name@]@[env[i].value_from->0->ConfigMapKeyRef_key@]@,
    );
    if i < env.len() - 1 {
        assert(env.drop_last()[i] == env[i]);
        lemma_single_configmap_has(env.drop_last(), configmaps, i);
        let k = choose|k: int| 0 <= k < front.len() && front[k] == pair;
        assert(all[k] == pair);
    } else {
        assert(all[front.len() as int] == pair);
    }
}

/// A variable that refers to a key of a config map comes out under its own
/// name with the value of that key, in that map.
pub proof fn law_config_keys_go_to_their_names(
    container: ContainerSpec,
    configmaps: StrMap<StrMap<String>>,
    out: Seq<(String, String)>,
    i: int,
)
    requires
        pair_texts(out) == whole_configmaps(container.env_from@, configmaps)
            + single_configmap_keys(container.env@, configmaps),
        0 <= i < container.env@.len(),
        container.env@[i].value_from matches Some(EnvVarSource::ConfigMapKeyRef { name, key, .. })
            && configmaps@.contains_key(name@) && configmaps@[name@]@.contains_key(key@),
    ensures
        container.env@[i].value_from matches Some(EnvVarSource::ConfigMapKeyRef { name, key, .. })
            && exists|k: int|
            0 <= k < out.len() && (#[trigger] out[k]).0@ == container.env@[i].name@ && out[k].1@
                == configmaps@[name@]@[key@]@,
{
    let whole = whole_configmaps(container.env_from@, configmaps);
    let single = single_configmap_keys(container.env@, configmaps);
    lemma_single_configmap_has(container.env@, configmaps, i);
    let pair = (
        container.env@[i].name@,
        configmaps@[container.env@[i].value_from->0->ConfigMapKeyRef_name@]@[container.env@[i].value_from->0->ConfigMapKeyRef_key@]@,
    );
    let k = choose|k: int| 0 <= k < single.len() && single[k] == pair;
    assert(pair_texts(out).len() == out.len());
    assert(pair_texts(out)[whole.len() + k] == pair);
    assert(out[whole.len() + k].0@ == pair.0);
}

/// Where a container takes a whole config map, each key of the map comes out
/// behind the prefix of the source, with its own value.
pub proof fn law_whole_config_maps_are_taken(
    container: ContainerSpec,
    configmaps: StrMap<StrMap<String>>,
    out: Seq<(String, String)>,
    i: int,
    key: Seq<char>,
)
    requires
        pair_texts(out) == whole_configmaps(container.env_from@, configmaps)
            + single_configmap_keys(container.env@, configmaps),
        0 <= i < container.env_from@.len(),
        container.env_from@[i].config_map_ref matches Some(c) && configmaps@.contains_key(c.name@)
            && configmaps@[c.name@]@.contains_key(key) && distinct_keys(configmaps@[c.name@].pairs()),
    ensures
        container.env_from@[i].config_map_ref matches Some(c) && exists|k: int|
            0 <= k < out.len() && (#[trigger] out[k]).0@ == (match container.env_from@[i].prefix {
                Some(p) => p@,
                None => Seq::<char>::empty(),
            }) + key && out[k].1@ == configmaps@[c.name@]@[key]@,
{
    let whole = whole_configmaps(container.env_from@, configmaps);
    let source = container.env_from@[i];
    let pairs = configmaps@[source.config_map_ref->0.name@].pairs();
    lemma_map_of_dom(pairs, key);
    let j = choose|j: int| 0 <= j < pairs.len() && (#[trigger] pairs[j]).0 == key;
    lemma_map_of_value(pairs, j);
    lemma_whole_configmaps_has(container.env_from@, configmaps, i, j);
    let pair = (prefix_of(source) + pairs[j].0, pairs[j].1@);
    let k = choose|k: int| 0 <= k < whole.len() && whole[k] == pair;
    assert(pair_texts(out).len() == out.len());
    assert(pair_texts(out)[k] == pair);
    assert(out[k].0@ == pair.0);
}

proof fn lemma_single_secret_has(env: Seq<EnvVar>, secrets: StrMap<StrMap<Vec<u8>>>, i: int)
    requires
        0 <= i < env.len(),
        env[i].value_from matches Some(EnvVarSource::SecretKeyRef { name, key, .. })
            && secrets@.contains_key(name@) && secrets@[name@]@.contains_key(key@) && valid_utf8(
            secrets@[name@]@[key@]@,
        ),
    ensures
        single_secret_keys(env, secrets).contains(
            (
                env[i].name@,
                decode_utf8(
                    secrets@[env[i].value_from->0->SecretKeyRef_name@]@[env[i].value_from->0->SecretKeyRef_key@]@,
                ),
            ),
        ),
    decreases env.len(),
{
    let front = single_secret_keys(env.drop_last(), secrets);
    let all = single_secret_keys(env, secrets);
    let pair = (
        env[i].name@,
        decode_utf8(
            secrets@[env[i].value_from->0->SecretKeyRef_name@]@[env[i].value_from->0->SecretKeyRef_key@]@,
        ),
    );
    if i < env.len() - 1 {
        assert(env.drop_last()[i] == env[i]);
        lemma_single_secret_has(env.drop_last(), secrets, i);
        let k = choose|k: int| 0 <= k < front.len() && front[k] == pair;
        assert(all[k] == pair);
    } else {
        assert(all[front.len() as int] == pair);
    }
}

/// A variable that refers to a key of a secret comes out under its own name
/// with the text of that key, in that secret.
pub proof fn law_secret_keys_go_to_their_names(
    container: ContainerSpec,
    secrets: StrMap<StrMap<Vec<u8>>>,
    out: Seq<(String, String)>,
    i: int,
)
    requires
        pair_texts(out) == whole_secrets(container.env_from@, secrets) + single_secret_keys(
            container.env@,
            secrets,
        ),
        0 <= i < container.env@.len(),
        container.env@[i].value_from matches Some(EnvVarSource::SecretKeyRef { name, key, .. })
            && secrets@.contains_key(name@) && secrets@[name@]@.contains_key(key@) && valid_utf8(
            secrets@[name@]@[key@]@,
        ),
    ensures
        container.env@[i].value_from matches Some(EnvVarSource::SecretKeyRef { name, key, .. })
            && exists|k: int|
            0 <= k < out.len() && (#[trigger] out[k]).0@ == container.env@[i].name@ && out[k].1@
                == decode_utf8(secrets@[name@]@[key@]@),
{
    let whole = whole_secrets(container.env_from@, secrets);
    let single = single_secret_keys(container.env@, secrets);
    lemma_single_secret_has(container.env@, secrets, i);
    let pair = (
        container.env@[i].name@,
        decode_utf8(
            secrets@[container.env@[i].value_from->0->SecretKeyRef_name@]@[container.env@[i].value_from->0->SecretKeyRef_key@]@,
        ),
    );
    let k = choose|k: int| 0 <= k < single.len() && single[k] == pair;
    assert(pair_texts(out).len() == out.len());
    assert(pair_texts(out)[whole.len() + k] == pair);
    assert(out[whole.len() + k].0@ == pair.0);
}

proof fn lemma_prefixed_text_has(prefix: Seq<char>, pairs: Seq<(Seq<char>, Vec<u8>)>, j: int)
    requires
        0 <= j < pairs.len(),
        valid_utf8(pairs[j].1@),
    ensures
        prefixed_text(prefix, pairs).contains((prefix + pairs[j].0, decode_utf8(pairs[j].1@))),
    decreases pairs.len(),
{
    let front = prefixed_text(prefix, pairs.drop_last());
    let all = prefixed_text(prefix, pairs);
    let pair = (prefix + pairs[j].0, decode_utf8(pairs[j].1@));
    if j < pairs.len() - 1 {
        assert(pairs.drop_last()[j] == pairs[j]);
        lemma_prefixed_text_has(prefix, pairs.drop_last(), j);
        let k = choose|k: int| 0 <= k < front.len() && front[k] == pair;
        assert(all[k] == pair);
    } else {
        assert(all[front.len() as int] == pair);
    }
}

proof fn lemma_whole_secrets_has(
    sources: Seq<EnvFromSource>,
    secrets: StrMap<StrMap<Vec<u8>>>,
    i: int,
    j: int,
)
    requires
        0 <= i < sources.len(),
        sources[i].secret_ref matches Some(c) && secrets@.contains_key(c.name@),
        0 <= j < secrets@[sources[i].secret_ref->0.name@].pairs().len(),
        valid_utf8(secrets@[sources[i].secret_ref->0.name@].pairs()[j].1@),
    ensures
        whole_secrets(sources, secrets).contains(
            (
                prefix_of(sources[i]) + secrets@[sources[i].secret_ref->0.name@].pairs()[j].0,
                decode_utf8(secrets@[sources[i].secret_ref->0.name@].pairs()[j].1@),
            ),
        ),
    decreases sources.len(),
{
    let front = whole_secrets(sources.drop_last(), secrets);
    let all = whole_secrets(sources, secrets);
    let pairs = secrets@[sources[i].secret_ref->0.name@].pairs();
    let pair = (prefix_of(sources[i]) + pairs[j].0, decode_utf8(pairs[j].1@));
    if i < sources.len() - 1 {
        assert(sources.drop_last()[i] == sources[i]);
        lemma_whole_secrets_has(sources.drop_last(), secrets, i, j);
        let k = choose|k: int| 0 <= k < front.len() && front[k] == pair;
        assert(all[k] == pair);
    } else {
        let last = prefixed_text(prefix_of(sources[i]), pairs);
        lemma_prefixed_text_has(prefix_of(sources[i]), pairs, j);
        let k = choose|k: int| 0 <= k < last.len() && last[k] == pair;
        assert(all[front.len() + k] == pair);
    }
}

/// Where a container takes a whole secret, each key of the secret that holds
/// text comes out behind the prefix of the source, with that text.
pub proof fn law_whole_secrets_are_taken(
    container: ContainerSpec,
    secrets: StrMap<StrMap<Vec<u8>>>,
    out: Seq<(String, String)>,
    i: int,
    key: Seq<char>,
)
    requires
        pair_texts(out) == whole_secrets(container.env_from@, secrets) + single_secret_keys(
            container.env@,
            secrets,
        ),
        0 <= i < container.env_from@.len(),
        container.env_from@[i].secret_ref matches Some(c) && secrets@.contains_key(c.name@)
            && secrets@[c.name@]@.contains_key(key) && valid_utf8(secrets@[c.name@]@[key]@)
            && distinct_keys(secrets@[c.name@].pairs()),
    ensures
        container.env_from@[i].secret_ref matches Some(c) && exists|k: int|
            0 <= k < out.len() && (#[trigger] out[k]).0@ == (match container.env_from@[i].prefix {
                Some(p) => p@,
                None => Seq::<char>::empty(),
            }) + key && out[k].1@ == decode_utf8(secrets@[c.name@]@[key]@),
{
    let whole = whole_secrets(container.env_from@, secrets);
    let source = container.env_from@[i];
    let pairs = secrets@[source.secret_ref->0.name@].pairs();
    lemma_map_of_dom(pairs, key);
    let j = choose|j: int| 0 <= j < pairs.len() && (#[trigger] pairs[j]).0 == key;
    lemma_map_of_value(pairs, j);
    lemma_whole_secrets_has(container.env_from@, secrets, i, j);
    let pair = (prefix_of(source) + pairs[j].0, decode_utf8(pairs[j].1@));
    let k = choose|k: int| 0 <= k < whole.len() && whole[k] == pair;
    assert(pair_texts(out).len() == out.len());
    assert(pair_texts(out)[k] == pair);
    assert(out[k].0@ == pair.0);
}

/// What a container says of its user, its group and its system calls goes
/// before what its pod says, which counts where the container is silent. The
/// rest is the container's own: it has a privilege only where it asks for it.
pub proof fn law_container_settings_go_first(
    p: PodSecurityContext,
    c: SecurityContext,
    out: LinuxContainerSecurity,
)
    requires
        security_is(Some(&p), Some(&c), out),
    ensures
        c.run_as_user is Some ==> out.run_as_user == c.run_as_user,
        c.run_as_user is None ==> out.run_as_user == p.run_as_user,
        c.run_as_group is Some ==> out.run_as_group == c.run_as_group,
        c.run_as_group is None ==> out.run_as_group == p.run_as_group,
        out.supplemental_groups@ == p.supplemental_groups@,
        out.privileged <==> c.privileged == Some(true),
        out.read_only_root_filesystem <==> c.read_only_root_filesystem == Some(true),
        out.allow_privilege_escalation == c.allow_privilege_escalation,
        c.capabilities matches Some(caps) ==> texts(out.capabilities_add@) == texts(caps.add@)
            && texts(out.capabilities_drop@) == texts(caps.drop@),
        c.capabilities is None ==> out.capabilities_add@.len() == 0 && out.capabilities_drop@.len()
            == 0,
        c.seccomp_profile matches Some(s) ==> opt_text(out.seccomp_profile_type) == Some(s.type_@)
            && opt_text(out.seccomp_localhost_path) == opt_text(s.localhost_profile),
        c.seccomp_profile is None ==> (p.seccomp_profile matches Some(s) ==> opt_text(
            out.seccomp_profile_type,
        ) == Some(s.type_@) && opt_text(out.seccomp_localhost_path) == opt_text(
            s.localhost_profile,
        )),
        c.seccomp_profile is None && p.seccomp_profile is None ==> out.seccomp_profile_type is None
            && out.seccomp_localhost_path is None,
        c.apparmor_profile is None ==> out.apparmor_profile is None,
        c.apparmor_profile matches Some(a) ==> {
            &&& out.apparmor_profile is Some
            &&& a.type_@ == "Unconfined"@ ==> out.apparmor_profile->0@ == "unconfined"@
            &&& a.type_@ == "RuntimeDefault"@ ==> out.apparmor_profile->0@ == "runtime/default"@
            &&& a.type_@ == "Localhost"@ && a.localhost_profile is Some
                ==> out.apparmor_profile->0@ == "localhost/"@ + a.localhost_profile->0@
        },
{
    reveal_strlit("Unconfined");
    reveal_strlit("Localhost");
    reveal_strlit("RuntimeDefault");
    assert("Unconfined"@.len() == 10 && "Localhost"@.len() == 9 && "RuntimeDefault"@.len() == 14);
}

/// Without a context of its own a container has no privilege, and runs as its
/// pod says; where the pod says nothing either, nothing is set.
pub proof fn law_no_container_settings(
    pod_sc: Option<&PodSecurityContext>,
    out: LinuxContainerSecurity,
)
    requires
        security_is(pod_sc, None, out),
    ensures
        !out.privileged,
        !out.read_only_root_filesystem,
        out.allow_privilege_escalation is None,
        out.capabilities_add@.len() == 0,
        out.capabilities_drop@.len() == 0,
        out.apparmor_profile is None,
        pod_sc matches Some(p) ==> out.run_as_user == p.run_as_user && out.run_as_group
            == p.run_as_group && out.supplemental_groups@ == p.supplemental_groups@,
        pod_sc is None ==> out.run_as_user is None && out.run_as_group is None
            && out.supplemental_groups@.len() == 0 && out.seccomp_profile_type is None,
{
}

/// An IPv4 address is written with its four parts in order; the loopback
/// address stands for an unknown one and for the IPv6 loopback.
pub proof fn law_node_address_is_written(octets: [u8; 4], t: String)
    ensures
        node_ip_text(Some(LocalAddress::V4(octets))) == dec(octets@[0] as nat) + "."@ + dec(
            octets@[1] as nat,
        ) + "."@ + dec(octets@[2] as nat) + "."@ + dec(octets@[3] as nat),
        node_ip_text(None) == "127.0.0.1"@,
        t@ == "::1"@ ==> node_ip_text(Some(LocalAddress::V6(t))) == "127.0.0.1"@,
        t@.len() > 0 && t@[0] != ':' ==> node_ip_text(Some(LocalAddress::V6(t))) == t@,
{
    reveal_strlit("::1");
    assert("::1"@.take(3) =~= "::1"@);
    if has_prefix(t@, "::1"@) {
        assert(t@.take(3)[0] == t@[0]);
    }
}

/// An address is written as its four numbers with points between them.
pub proof fn law_addresses_are_dotted(a: u8, b: u8, c: u8, d: u8)
    ensures
        dotted(seq![a, b, c, d]) == dec(a as nat) + "."@ + dec(b as nat) + "."@ + dec(c as nat)
            + "."@ + dec(d as nat),
{
}

} // verus!
