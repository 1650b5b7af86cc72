use kubelet_adapters::container_builder::{
    build_container_config, build_linux_security, node_ip_for_downward_api, resolve_configmap_env,
    resolve_downward_api_env, resolve_secret_env, LocalAddress, ResolvedEnv,
};
use kubelet_adapters::strmap::StrMap;
use kubelet_adapters::types::{
    Capabilities, ContainerSpec, EnvFromRef, EnvFromSource, EnvVar, EnvVarSource, ImagePullPolicy,
    PodRef, PodSecurityContext, PodSpec, PodUID, ResourceRequirements, SecurityContext,
};

fn base_pod() -> PodSpec {
    let mut pod = PodSpec::bare(
        PodUID::new("uid-test"),
        PodRef::new("prod", "my-pod"),
        "node1".to_string(),
    );
    pod.service_account_name = "my-sa".to_string();
    pod.annotations.insert("env".to_string(), "production".to_string());
    pod.labels.insert("app".to_string(), "backend".to_string());
    pod
}

fn base_container(name: &str) -> ContainerSpec {
    ContainerSpec {
        name: name.to_string(),
        image: "nginx:latest".to_string(),
        command: vec![],
        args: vec![],
        working_dir: None,
        ports: vec![],
        env: vec![],
        env_from: vec![],
        resources: ResourceRequirements::default(),
        volume_mounts: vec![],
        liveness_probe: None,
        readiness_probe: None,
        startup_probe: None,
        lifecycle: None,
        image_pull_policy: ImagePullPolicy::IfNotPresent,
        security_context: None,
        termination_message_path: None,
        termination_message_policy: None,
        stdin: None,
        stdin_once: None,
        tty: None,
        restart_policy: None,
    }
}

fn field(name: &str, field_path: &str) -> EnvVar {
    EnvVar {
        name: name.to_string(),
        value: None,
        value_from: Some(EnvVarSource::FieldRef { field_path: field_path.to_string() }),
    }
}

fn pair(a: &str, b: &str) -> (String, String) {
    (a.to_string(), b.to_string())
}

#[test]
fn test_resolve_downward_api_metadata_name() {
    let pod = base_pod();
    let mut ctr = base_container("app");
    ctr.env = vec![EnvVar {
        name: "POD_NAME".to_string(),
        value: None,
        value_from: Some(EnvVarSource::FieldRef { field_path: "metadata.name".to_string() }),
    }];
    let resolved = resolve_downward_api_env(&pod, &ctr, "127.0.0.1");
    assert_eq!(resolved, vec![("POD_NAME".to_string(), "my-pod".to_string())]);
}

#[test]
fn test_resolve_downward_api_label() {
    let pod = base_pod();
    let mut ctr = base_container("app");
    ctr.env = vec![EnvVar {
        name: "APP_LABEL".to_string(),
        value: None,
        value_from: Some(EnvVarSource::FieldRef {
            field_path: "metadata.labels['app']".to_string(),
        }),
    }];
    let resolved = resolve_downward_api_env(&pod, &ctr, "127.0.0.1");
    assert_eq!(resolved[0].1, "backend");
}

#[test]
fn test_resolve_configmap_env_from() {
    let mut ctr = base_container("app");
    ctr.env_from = vec![EnvFromSource {
        prefix: Some("CM_".to_string()),
        config_map_ref: Some(EnvFromRef { name: "my-cm".to_string(), optional: false }),
        secret_ref: None,
    }];
    let mut cm = StrMap::new();
    cm.insert("KEY".to_string(), "VALUE".to_string());
    let mut cms = StrMap::new();
    cms.insert("my-cm".to_string(), cm);
    let resolved = resolve_configmap_env(&ctr, &cms);
    assert_eq!(resolved, vec![("CM_KEY".to_string(), "VALUE".to_string())]);
}

#[test]
fn test_resolve_secret_env_from() {
    let mut ctr = base_container("app");
    ctr.env_from = vec![EnvFromSource {
        prefix: None,
        config_map_ref: None,
        secret_ref: Some(EnvFromRef { name: "my-secret".to_string(), optional: false }),
    }];
    let mut secret = StrMap::new();
    secret.insert("PASSWORD".to_string(), b"s3cr3t".to_vec());
    let mut secrets = StrMap::new();
    secrets.insert("my-secret".to_string(), secret);
    let resolved = resolve_secret_env(&ctr, &secrets);
    assert_eq!(resolved, vec![("PASSWORD".to_string(), "s3cr3t".to_string())]);
}

fn pod_context() -> PodSecurityContext {
    PodSecurityContext {
        run_as_user: Some(1000),
        run_as_group: Some(3000),
        run_as_non_root: None,
        fs_group: Some(2000),
        supplemental_groups: vec![4000],
        sysctls: vec![],
        seccomp_profile: None,
        fs_group_change_policy: None,
    }
}

fn container_context() -> SecurityContext {
    SecurityContext {
        run_as_user: Some(2000),
        run_as_group: None,
        run_as_non_root: None,
        privileged: None,
        read_only_root_filesystem: Some(true),
        allow_privilege_escalation: Some(false),
        capabilities: None,
        seccomp_profile: None,
        apparmor_profile: None,
        proc_mount: None,
    }
}

#[test]
fn test_build_linux_security_merges_pod_and_container() {
    let pod_sc = PodSecurityContext {
        run_as_user: Some(1000),
        run_as_group: Some(3000),
        run_as_non_root: None,
        fs_group: Some(2000),
        supplemental_groups: vec![4000],
        sysctls: vec![],
        seccomp_profile: None,
        fs_group_change_policy: None,
    };
    let ctr_sc = container_context();
    let sec = build_linux_security(Some(&pod_sc), Some(&ctr_sc));
    assert_eq!(sec.run_as_user, Some(2000));
    assert_eq!(sec.run_as_group, Some(3000));
    assert_eq!(sec.supplemental_groups, vec![4000]);
    assert!(sec.read_only_root_filesystem);
}

#[test]
fn security_has_defaults() {
    let sec = build_linux_security(None, None);
    assert_eq!(sec.run_as_user, None);
    assert!(sec.supplemental_groups.is_empty());
    assert!(!sec.privileged);
    assert!(!sec.read_only_root_filesystem);
    assert_eq!(sec.allow_privilege_escalation, None);
    let mut ctr = container_context();
    ctr.capabilities = Some(Capabilities {
        add: vec!["NET_ADMIN".to_string()],
        drop: vec!["ALL".to_string()],
    });
    let sec = build_linux_security(Some(&pod_context()), Some(&ctr));
    assert_eq!(sec.capabilities_add, vec!["NET_ADMIN".to_string()]);
    assert_eq!(sec.capabilities_drop, vec!["ALL".to_string()]);
}

#[test]
fn fields_of_the_pod_are_resolved() {
    let pod = base_pod();
    let mut ctr = base_container("app");
    ctr.env = vec![
        field("NS", "metadata.namespace"),
        field("UID", "metadata.uid"),
        field("NODE", "spec.nodeName"),
        field("SA", "spec.serviceAccountName"),
        field("HOST", "status.hostIP"),
        field("ANN", "metadata.annotations['env']"),
        field("NO", "metadata.labels['none']"),
        EnvVar { name: "PLAIN".to_string(), value: Some("v".to_string()), value_from: None },
    ];
    let resolved = resolve_downward_api_env(&pod, &ctr, "10.1.2.3");
    assert!(resolved.contains(&pair("NS", "prod")));
    assert!(resolved.contains(&pair("UID", "uid-test")));
    assert!(resolved.contains(&pair("NODE", "node1")));
    assert!(resolved.contains(&pair("SA", "my-sa")));
    assert!(resolved.contains(&pair("HOST", "10.1.2.3")));
    assert!(resolved.contains(&pair("ANN", "production")));
    assert!(!resolved.contains(&pair("PLAIN", "v")));
}

#[test]
fn keys_of_configmaps_and_secrets_are_resolved() {
    let mut ctr = base_container("app");
    ctr.env = vec![
        EnvVar {
            name: "A".to_string(),
            value: None,
            value_from: Some(EnvVarSource::ConfigMapKeyRef {
                name: "cm".to_string(),
                key: "k".to_string(),
                optional: false,
            }),
        },
        EnvVar {
            name: "B".to_string(),
            value: None,
            value_from: Some(EnvVarSource::SecretKeyRef {
                name: "s".to_string(),
                key: "k".to_string(),
                optional: false,
            }),
        },
    ];
    let mut cm = StrMap::new();
    cm.insert("k".to_string(), "one".to_string());
    let mut cms = StrMap::new();
    cms.insert("cm".to_string(), cm);
    assert_eq!(resolve_configmap_env(&ctr, &cms), vec![pair("A", "one")]);
    let mut s = StrMap::new();
    s.insert("k".to_string(), "\u{fc}".as_bytes().to_vec());
    let mut ss = StrMap::new();
    ss.insert("s".to_string(), s);
    assert_eq!(resolve_secret_env(&ctr, &ss), vec![pair("B", "\u{fc}")]);
    let mut broken = StrMap::new();
    broken.insert("k".to_string(), vec![b't', 0xff]);
    ss.insert("s".to_string(), broken);
    assert!(resolve_secret_env(&ctr, &ss).is_empty());
    assert!(resolve_configmap_env(&ctr, &StrMap::new()).is_empty());
    assert!(resolve_secret_env(&ctr, &StrMap::new()).is_empty());
}

#[test]
fn container_configs_name_the_pod() {
    let pod = base_pod();
    let ctr = base_container("app");
    let mut env = ResolvedEnv::new();
    env.add("K", "V");
    let config = build_container_config(&pod, &ctr, "sandbox-1", &env, "/var/log/pods", "my-pod");
    assert_eq!(config.pod_name, "my-pod");
    assert_eq!(config.pod_uid, "uid-test");
    assert_eq!(config.pod_namespace, "prod");
    assert_eq!(config.attempt, 0);
    assert_eq!(config.sandbox_id, "sandbox-1");
    assert_eq!(config.container.name, "app");
    assert_eq!(config.extra_env, vec![pair("K", "V")]);
    assert_eq!(config.pod_hostname, "my-pod");
    assert!(config.log_directory.starts_with("/var/log/pods"));
}

#[test]
fn the_node_has_an_address() {
    assert_eq!(node_ip_for_downward_api(&None), "127.0.0.1");
    let a = LocalAddress::V4([10, 0, 0, 7]);
    assert_eq!(node_ip_for_downward_api(&Some(a)), "10.0.0.7");
    let a = LocalAddress::V6("::1".to_string());
    assert_eq!(node_ip_for_downward_api(&Some(a)), "127.0.0.1");
    let a = LocalAddress::V6("fd00::7".to_string());
    assert_eq!(node_ip_for_downward_api(&Some(a)), "fd00::7");
    let a = LocalAddress::V4([127, 0, 1, 255]);
    assert_eq!(node_ip_for_downward_api(&Some(a)), "127.0.1.255");
}
