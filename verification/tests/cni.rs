use kubelet_adapters::cni::{
    cni_env, parse_cni_network_config, CniDns, CniIP, CniInterface, CniNetworkConfig,
    CniNetworkConfigList, CniNetworkPlugin, CniPluginExecutor, CniResult, CniRoute, DirEntry,
    ParsedConfig, PluginRun,
};
use kubelet_adapters::json::{JsonNumber, JsonValue};
use kubelet_adapters::strmap::StrMap;

fn text(s: &str) -> JsonValue {
    JsonValue::Str(s.to_string())
}

fn object(members: Vec<(&str, JsonValue)>) -> JsonValue {
    let mut m = StrMap::new();
    for (k, v) in members {
        m.insert(k.to_string(), v);
    }
    JsonValue::Object(m)
}

fn config(name: &str, plugin_type: &str) -> CniNetworkConfig {
    CniNetworkConfig {
        cni_version: "1.0.0".to_string(),
        name: name.to_string(),
        plugin_type: plugin_type.to_string(),
        extra: object(vec![]),
    }
}

fn executor() -> CniPluginExecutor {
    CniPluginExecutor::new("/opt/cni/bin", "/etc/cni/net.d")
}

fn result() -> CniResult {
    CniResult {
        cni_version: "1.0.0".to_string(),
        interfaces: Some(vec![CniInterface {
            name: "eth0".to_string(),
            mac: "aa:bb:cc:dd:ee:ff".to_string(),
            sandbox: None,
        }]),
        ips: Some(vec![CniIP {
            address: "10.244.1.5/24".to_string(),
            gateway: Some("10.244.1.1".to_string()),
            interface: None,
        }]),
        routes: None,
        dns: Some(CniDns { nameservers: Some(vec!["8.8.8.8".to_string()]), search: None }),
    }
}

#[test]
fn test_cni_env_variables() {
    let env = cni_env("ADD", "ctr-123", "/var/run/netns/abc", "eth0", "/opt/cni/bin");
    assert_eq!(env.get("CNI_COMMAND").unwrap(), "ADD");
    assert_eq!(env.get("CNI_CONTAINERID").unwrap(), "ctr-123");
    assert_eq!(env.get("CNI_NETNS").unwrap(), "/var/run/netns/abc");
    assert_eq!(env.get("CNI_IFNAME").unwrap(), "eth0");
    assert_eq!(env.get("CNI_PATH").unwrap(), "/opt/cni/bin");
    assert_eq!(env.len(), 5);
}

#[test]
fn test_cni_result_parse_ipam_result() {
    let result = result();
    assert_eq!(result.ips.unwrap()[0].address, "10.244.1.5/24");
    assert_eq!(result.interfaces.unwrap()[0].mac, "aa:bb:cc:dd:ee:ff");
    assert_eq!(result.dns.unwrap().nameservers.unwrap()[0], "8.8.8.8");
}

#[test]
fn test_cni_network_config_parse() {
    let parsed = ParsedConfig { single: Some(config("mynet", "bridge")), list: None };
    let config = parse_cni_network_config(parsed).unwrap();
    assert_eq!(config.name, "mynet");
    assert_eq!(config.plugin_type, "bridge");
    assert_eq!(config.cni_version, "1.0.0");
}

#[test]
fn test_executor_list_plugins_empty_dir() {
    assert!(executor().list_plugins(&vec![]).is_empty());
}

#[test]
fn test_executor_load_configs_empty_dir() {
    assert!(executor().config_files(&vec![]).is_empty());
    assert!(executor().load_configs(vec![]).is_empty());
}

#[test]
fn test_executor_load_configs_with_valid_file() {
    let executor = executor();
    let files = executor.config_files(&vec!["/etc/cni/net.d/10-mynet.conf".to_string()]);
    assert_eq!(files.len(), 1);
    let configs = executor.load_configs(vec![ParsedConfig {
        single: Some(config("mynet", "bridge")),
        list: None,
    }]);
    assert_eq!(configs.len(), 1);
    assert_eq!(configs[0].name, "mynet");
}

#[test]
fn test_executor_load_configs_with_conflist_file() {
    let executor = executor();
    let files = executor.config_files(&vec!["/etc/cni/net.d/10-mynet.conflist".to_string()]);
    assert_eq!(files.len(), 1);
    let capabilities = object(vec![("portMappings", JsonValue::Bool(true))]);
    let list = CniNetworkConfigList {
        cni_version: "1.0.0".to_string(),
        name: "mynet".to_string(),
        plugins: vec![
            object(vec![("type", text("bridge")), ("bridge", text("cni0"))]),
            object(vec![("type", text("portmap")), ("capabilities", capabilities)]),
        ],
    };
    let configs = executor.load_configs(vec![ParsedConfig { single: None, list: Some(list) }]);
    assert_eq!(configs.len(), 1);
    assert_eq!(configs[0].name, "mynet");
    assert_eq!(configs[0].plugin_type, "bridge");
    assert!(configs[0].extra.get("bridge").is_some());
}

#[test]
fn test_executor_list_plugins_with_binary() {
    let entries = vec![
        DirEntry { name: Some("bridge".to_string()), is_file: true },
        DirEntry { name: Some("sub".to_string()), is_file: false },
        DirEntry { name: None, is_file: true },
    ];
    let plugins = executor().list_plugins(&entries);
    assert!(plugins.contains(&"bridge".to_string()));
    assert_eq!(plugins.len(), 1);
}

#[test]
fn test_add_nonexistent_plugin_returns_error() {
    let executor = executor();
    let call = executor.add("bridge", "ctr-1", "/var/run/netns/abc", "eth0", &object(vec![]));
    assert_eq!(call.plugin_path, "/opt/cni/bin/bridge");
    let result = executor.plugin_result("bridge", PluginRun::Missing);
    assert!(result.is_err());
    let e = result.unwrap_err();
    assert!(e.message().contains("not found"));
    assert_eq!(e.message(), "CNI plugin 'bridge' not found at \"/opt/cni/bin/bridge\"");
}

#[test]
fn test_cni_plugin_fallback_when_unavailable() {
    let plugin = CniNetworkPlugin::new(executor(), "mynet", "bridge");
    let call = plugin.setup_invocation("sandbox-1");
    assert_eq!(call.env.get("CNI_COMMAND").unwrap(), "ADD");
    let outcome = plugin.executor.plugin_result("bridge", PluginRun::Missing);
    let result = plugin.setup_pod("sandbox-1", outcome);
    assert!(result.is_ok());
    let attachment = result.unwrap();
    assert_eq!(attachment.interface_name, "eth0");
    assert_eq!(attachment.ip_addresses, vec!["127.0.0.1".to_string()]);
}

#[test]
fn test_cni_from_config_dir_no_configs_has_defaults() {
    let plugin = CniNetworkPlugin::from_config_dir("/opt/cni/bin", "/etc/cni/net.d", &vec![]);
    assert_eq!(plugin.name(), "cbr0");
}

#[test]
fn test_cni_route_serialization() {
    let route = CniRoute { dst: "0.0.0.0/0".to_string(), gw: Some("10.0.0.1".to_string()) };
    assert_eq!(route.dst, "0.0.0.0/0");
    assert_eq!(route.gw, Some("10.0.0.1".to_string()));
}

#[test]
fn attachments_come_from_the_result() {
    let plugin = CniNetworkPlugin::new(executor(), "mynet", "bridge");
    let a = plugin.setup_pod("sandbox-1", Ok(result())).unwrap();
    assert_eq!(a.sandbox_id, "sandbox-1");
    assert_eq!(a.ip_addresses, vec!["10.244.1.5".to_string()]);
    assert_eq!(a.mac_address, "aa:bb:cc:dd:ee:ff");
    assert_eq!(a.gateway, Some("10.244.1.1".to_string()));
    assert_eq!(a.dns, vec!["8.8.8.8".to_string()]);
}

#[test]
fn empty_results_have_no_address() {
    let plugin = CniNetworkPlugin::new(executor(), "mynet", "bridge");
    let silent = PluginRun::Ended { stdout: vec![], read: Err("EOF".to_string()) };
    let outcome = plugin.executor.plugin_result("bridge", silent);
    let a = plugin.setup_pod("s", outcome).unwrap();
    assert_eq!(a.ip_addresses, vec!["0.0.0.0".to_string()]);
    assert_eq!(a.mac_address, "00:00:00:00:00:00");
    assert!(a.gateway.is_none());
}

#[test]
fn failing_plugins_are_quoted() {
    let e = executor();
    let run = PluginRun::Exited {
        status: "exit status: 1".to_string(),
        stderr: b" broken \xff\n".to_vec(),
    };
    let m = e.plugin_result("bridge", run).unwrap_err();
    assert_eq!(m.message(), "CNI plugin 'bridge' exited with exit status: 1: broken \u{fffd}");
    let m = e.plugin_result("bridge", PluginRun::NotSpawned("x".to_string())).unwrap_err();
    assert_eq!(m.message(), "Failed to spawn CNI plugin: x");
    let m = e.plugin_result("bridge", PluginRun::InputFailed("x".to_string())).unwrap_err();
    assert_eq!(m.message(), "Failed to write CNI stdin: x");
    let m = e.plugin_result("bridge", PluginRun::WaitFailed("x".to_string())).unwrap_err();
    assert_eq!(m.message(), "CNI plugin failed: x");
    let run = PluginRun::Ended { stdout: b"?".to_vec(), read: Err("x".to_string()) };
    let m = e.plugin_result("bridge", run).unwrap_err();
    assert_eq!(m.message(), "Failed to parse CNI result: x");
}

#[test]
fn configuration_files_are_read_in_order() {
    let paths = vec![
        "/d/20-b.conf".to_string(),
        "/d/notes.txt".to_string(),
        "/d/10-a.conflist".to_string(),
        "/d/15-c.json".to_string(),
    ];
    assert_eq!(
        executor().config_files(&paths),
        vec![
            "/d/10-a.conflist".to_string(),
            "/d/15-c.json".to_string(),
            "/d/20-b.conf".to_string(),
        ]
    );
}

#[test]
fn lists_without_a_plugin_type_are_no_configuration() {
    let list = CniNetworkConfigList {
        cni_version: "1.0.0".to_string(),
        name: "n".to_string(),
        plugins: vec![object(vec![])],
    };
    let parsed = ParsedConfig { single: None, list: Some(list) };
    assert!(parse_cni_network_config(parsed).is_none());
    assert!(parse_cni_network_config(ParsedConfig { single: None, list: None }).is_none());
}

#[test]
fn plugins_read_the_configuration() {
    let half = JsonValue::Number(JsonNumber::Float("0.5".to_string()));
    let none = JsonValue::Number(JsonNumber::Float("half".to_string()));
    let less = JsonValue::Number(JsonNumber::NegInt(-1));
    let list = JsonValue::Array(vec![half, none, less, JsonValue::Bool(true)]);
    let config = object(vec![("b", list), ("a", text("x\n"))]);
    let call = executor().check("bridge", "c", "n", "eth0", &config);
    assert_eq!(call.input, "{\"a\":\"x\\n\",\"b\":[0.5,null,-1,true]}");
    assert_eq!(call.env.get("CNI_COMMAND").unwrap(), "CHECK");
}

#[test]
fn the_first_configuration_names_the_network() {
    let configs = vec![config("first", "macvlan"), config("second", "bridge")];
    let plugin = CniNetworkPlugin::from_config_dir("/opt/cni/bin", "/etc/cni/net.d", &configs);
    assert_eq!(plugin.name(), "first");
    assert_eq!(plugin.setup_invocation("s").plugin_path, "/opt/cni/bin/macvlan");
    let call = plugin.teardown_invocation("s");
    assert_eq!(call.env.get("CNI_COMMAND").unwrap(), "DEL");
    assert_eq!(call.env.get("CNI_NETNS").unwrap(), "/var/run/netns/s");
    assert_eq!(plugin.request().get("type").unwrap().as_str().unwrap(), "macvlan");
    assert_eq!(
        call.input,
        "{\"cniVersion\":\"1.0.0\",\"name\":\"first\",\"type\":\"macvlan\"}"
    );
    assert!(plugin.teardown_pod(Ok(result())).is_ok());
    assert!(plugin.pod_network_status("s").unwrap().is_none());
}
