//! Pod networks that are set up by network plugins.
//!
//! A plugin is a program that is told what to do by its environment and by a
//! configuration on its input, and that answers on its output.
use crate::error::KubeletError;
use crate::json::{field, json_compact, lemma_object_json, text, write_json, Json, JsonValue};
use crate::lists::{in_text_order, sort_texts};
use crate::network::NetworkAttachment;
use crate::paths::{
    debug_path, debug_path_quoted, extension, join_path, path_extension, path_join,
};
use crate::strmap::StrMap;
use crate::text::{
    cat2, cat4, cat6, chars_of, copy_strings, find_from, first_index, lemma_first_index_is,
    lossy_text, opt_text, same, string_of, texts, trim, trimmed, utf8_lossy_text,
};
use vstd::prelude::*;

verus! {

// ---------------------------------------------------------------------------
// Configurations and results
// ---------------------------------------------------------------------------

/// The configuration of a network with one plugin.
#[derive(Debug)]
pub struct CniNetworkConfig {
    pub cni_version: String,
    pub name: String,
    pub plugin_type: String,
    /// All other members.
    pub extra: JsonValue,
}

/// The configuration of a network with a chain of plugins.
#[derive(Debug)]
pub struct CniNetworkConfigList {
    pub cni_version: String,
    pub name: String,
    pub plugins: Vec<JsonValue>,
}

/// What a plugin answers.
#[derive(Debug)]
pub struct CniResult {
    pub cni_version: String,
    pub interfaces: Option<Vec<CniInterface>>,
    pub ips: Option<Vec<CniIP>>,
    pub routes: Option<Vec<CniRoute>>,
    pub dns: Option<CniDns>,
}

#[derive(Debug)]
pub struct CniInterface {
    pub name: String,
    pub mac: String,
    pub sandbox: Option<String>,
}

#[derive(Debug)]
pub struct CniIP {
    pub address: String,
    pub gateway: Option<String>,
    pub interface: Option<i32>,
}

#[derive(Debug)]
pub struct CniRoute {
    pub dst: String,
    pub gw: Option<String>,
}

#[derive(Debug)]
pub struct CniDns {
    pub nameservers: Option<Vec<String>>,
    pub search: Option<Vec<String>>,
}

/// The ways in which a configuration file could be read.
#[derive(Debug)]
pub struct ParsedConfig {
    pub single: Option<CniNetworkConfig>,
    pub list: Option<CniNetworkConfigList>,
}

/// The configuration of a file: the single network, or the first plugin of a
/// chain that names its type.
pub open spec fn config_is(parsed: ParsedConfig, r: Option<CniNetworkConfig>) -> bool {
    match parsed.single {
        Some(c) => r == Some(c),
        None => match parsed.list {
            Some(l) => if l.plugins@.len() > 0 && text(field(l.plugins@[0], "type"@)) is Some {
                r matches Some(c) && c.cni_version == l.cni_version && c.name == l.name
                    && c.plugin_type@ == text(field(l.plugins@[0], "type"@))->0 && c.extra
                    == l.plugins@[0]
            } else {
                r is None
            },
            None => r is None,
        },
    }
}

/// Picks the configuration out of what a file could be read as.
pub fn parse_cni_network_config(parsed: ParsedConfig) -> (r: Option<CniNetworkConfig>)
    ensures
        config_is(parsed, r),
{
    if let Some(c) = parsed.single {
        return Some(c);
    }
    match parsed.list {
        Some(l) => {
            let mut plugins = l.plugins;
            if plugins.len() == 0 {
                return None;
            }
            let first = plugins.remove(0);
            let plugin_type = match first.get("type") {
                Some(t) => match t.as_str() {
                    Some(s) => s.clone(),
                    None => {
                        return None;
                    },
                },
                None => {
                    return None;
                },
            };
            Some(
                CniNetworkConfig {
                    cni_version: l.cni_version,
                    name: l.name,
                    plugin_type,
                    extra: first,
                },
            )
        },
        None => None,
    }
}

/// `out` holds the configurations of the files that have one, in order.
pub open spec fn configs_are(files: Seq<ParsedConfig>, out: Seq<CniNetworkConfig>) -> bool
    decreases files.len(),
{
    if files.len() == 0 {
        out.len() == 0
    } else {
        ||| config_is(files.last(), None) && configs_are(files.drop_last(), out)
        ||| out.len() > 0 && config_is(files.last(), Some(out.last())) && configs_are(
            files.drop_last(),
            out.drop_last(),
        )
    }
}

// ---------------------------------------------------------------------------
// Invocation
// ---------------------------------------------------------------------------

/// The environment of a plugin for a command such as `ADD` or `DEL`.
pub fn cni_env(command: &str, container_id: &str, netns: &str, ifname: &str, path: &str) -> (r:
    StrMap<String>)
    ensures
        env_is(r@, command@, container_id@, netns@, ifname@, path@),
{
    proof {
        reveal_strlit("CNI_COMMAND");
        reveal_strlit("CNI_CONTAINERID");
        reveal_strlit("CNI_NETNS");
        reveal_strlit("CNI_IFNAME");
        reveal_strlit("CNI_PATH");
        assert("CNI_COMMAND"@.len() == 11 && "CNI_CONTAINERID"@.len() == 15 && "CNI_NETNS"@.len()
            == 9 && "CNI_IFNAME"@.len() == 10 && "CNI_PATH"@.len() == 8);
    }
    let mut env: StrMap<String> = StrMap::new();
    env.insert("CNI_COMMAND".to_owned(), command.to_owned());
    env.insert("CNI_CONTAINERID".to_owned(), container_id.to_owned());
    env.insert("CNI_NETNS".to_owned(), netns.to_owned());
    env.insert("CNI_IFNAME".to_owned(), ifname.to_owned());
    env.insert("CNI_PATH".to_owned(), path.to_owned());
    assert(env@.dom() =~= env_names());
    env
}

pub open spec fn env_names() -> Set<Seq<char>> {
    set!["CNI_COMMAND"@, "CNI_CONTAINERID"@, "CNI_NETNS"@, "CNI_IFNAME"@, "CNI_PATH"@]
}

/// The environment holds the five variables of the protocol and no others.
pub open spec fn env_is(
    env: Map<Seq<char>, String>,
    command: Seq<char>,
    container_id: Seq<char>,
    netns: Seq<char>,
    ifname: Seq<char>,
    path: Seq<char>,
) -> bool {
    &&& env.dom() == env_names()
    &&& env["CNI_COMMAND"@]@ == command
    &&& env["CNI_CONTAINERID"@]@ == container_id
    &&& env["CNI_NETNS"@]@ == netns
    &&& env["CNI_IFNAME"@]@ == ifname
    &&& env["CNI_PATH"@]@ == path
}

/// How a plugin is run.
#[derive(Debug)]
pub struct CniInvocation {
    /// The program.
    pub plugin_path: String,
    pub env: StrMap<String>,
    /// What the program reads: a configuration.
    pub input: String,
}

/// What became of a run of a plugin.
#[derive(Debug)]
pub enum PluginRun {
    /// There is no such program.
    Missing,
    NotSpawned(String),
    InputFailed(String),
    WaitFailed(String),
    /// The program ended without success.
    Exited { status: String, stderr: Vec<u8> },
    /// The program ended with success. `read` is what its output reads as, or
    /// why it cannot be read.
    Ended { stdout: Vec<u8>, read: Result<CniResult, String> },
}

/// The failure of a run, or nothing.
pub open spec fn run_failure(
    plugin_type: Seq<char>,
    plugin_path: Seq<char>,
    run: PluginRun,
) -> Option<Seq<char>> {
    match run {
        PluginRun::Missing => Some(
            "CNI plugin '"@ + plugin_type + "' not found at "@ + debug_path_quoted(plugin_path),
        ),
        PluginRun::NotSpawned(e) => Some("Failed to spawn CNI plugin: "@ + e@),
        PluginRun::InputFailed(e) => Some("Failed to write CNI stdin: "@ + e@),
        PluginRun::WaitFailed(e) => Some("CNI plugin failed: "@ + e@),
        PluginRun::Exited { status, stderr } => Some(
            "CNI plugin '"@ + plugin_type + "' exited with "@ + status@ + ": "@ + trimmed(
                utf8_lossy_text(stderr@),
            ),
        ),
        PluginRun::Ended { stdout, read } => match read {
            Err(e) => if stdout@.len() > 0 {
                Some("Failed to parse CNI result: "@ + e@)
            } else {
                None
            },
            Ok(_) => None,
        },
    }
}

/// What a run yields: an empty result for a silent program, else its answer.
pub open spec fn run_result(
    plugin_type: Seq<char>,
    plugin_path: Seq<char>,
    run: PluginRun,
    r: Result<CniResult, KubeletError>,
) -> bool {
    match run_failure(plugin_type, plugin_path, run) {
        Some(f) => r matches Err(KubeletError::Network(m)) && m@ == f,
        None => match run {
            PluginRun::Ended { stdout, read: Ok(a) } if stdout@.len() > 0 => r == Ok::<
                CniResult,
                KubeletError,
            >(a),
            _ => r matches Ok(a) && a.cni_version@.len() == 0 && a.interfaces is None && a.ips
                is None && a.routes is None && a.dns is None,
        },
    }
}

/// An entry of a directory.
#[derive(Debug)]
pub struct DirEntry {
    /// The name, where it is text.
    pub name: Option<String>,
    pub is_file: bool,
}

/// The names of the files.
pub open spec fn file_names(entries: Seq<DirEntry>) -> Seq<Seq<char>>
    decreases entries.len(),
{
    if entries.len() == 0 {
        Seq::empty()
    } else {
        let front = file_names(entries.drop_last());
        match entries.last().name {
            Some(n) => if entries.last().is_file {
                front.push(n@)
            } else {
                front
            },
            None => front,
        }
    }
}

/// Whether a path is that of a network configuration.
pub open spec fn is_config_path(path: Seq<char>) -> bool {
    let e = path_extension(path);
    e == Some("conf"@) || e == Some("conflist"@) || e == Some("json"@)
}

/// The paths of network configurations, in the given order.
pub open spec fn config_paths_of(paths: Seq<Seq<char>>) -> Seq<Seq<char>>
    decreases paths.len(),
{
    if paths.len() == 0 {
        Seq::empty()
    } else {
        let front = config_paths_of(paths.drop_last());
        if is_config_path(paths.last()) {
            front.push(paths.last())
        } else {
            front
        }
    }
}

/// Runs network plugins.
#[derive(Debug)]
pub struct CniPluginExecutor {
    pub plugin_dir: String,
    pub config_dir: String,
}

impl CniPluginExecutor {
    pub fn new(plugin_dir: &str, config_dir: &str) -> (r: Self)
        ensures
            r.plugin_dir@ == plugin_dir@,
            r.config_dir@ == config_dir@,
    {
        CniPluginExecutor {
            plugin_dir: plugin_dir.to_owned(),
            config_dir: config_dir.to_owned(),
        }
    }

    /// The plugins in the plugin directory: its files.
    pub fn list_plugins(&self, entries: &Vec<DirEntry>) -> (r: Vec<String>)
        ensures
            texts(r@) == file_names(entries@),
    {
        let mut out: Vec<String> = Vec::new();
        let mut i: usize = 0;
        assert(texts(out@) =~= file_names(entries@.take(0)));
        while i < entries.len()
            invariant
                i <= entries@.len(),
                texts(out@) == file_names(entries@.take(i as int)),
            decreases entries@.len() - i,
        {
            let ghost before = out@;
            assert(entries@.take(i + 1).drop_last() =~= entries@.take(i as int));
            if let Some(n) = &entries[i].name {
                if entries[i].is_file {
                    out.push(n.clone());
                    assert(texts(out@) =~= texts(before).push(n@));
                }
            }
            i = i + 1;
        }
        assert(entries@.take(i as int) =~= entries@);
        out
    }

    /// The files of the configuration directory that are read, in the order
    /// in which they are read: that of their names.
    pub fn config_files(&self, paths: &Vec<String>) -> (r: Vec<String>)
        ensures
            in_text_order(texts(r@)),
            texts(r@).to_multiset() == config_paths_of(texts(paths@)).to_multiset(),
    {
        let mut out: Vec<String> = Vec::new();
        let mut i: usize = 0;
        assert(texts(out@) =~= config_paths_of(texts(paths@).take(0)));
        while i < paths.len()
            invariant
                i <= paths@.len(),
                texts(out@) == config_paths_of(texts(paths@).take(i as int)),
            decreases paths@.len() - i,
        {
            let ghost before = out@;
            assert(texts(paths@).take(i + 1).drop_last() =~= texts(paths@).take(i as int));
            let wanted = match extension(paths[i].as_str()) {
                Some(e) => same(e.as_str(), "conf") || same(e.as_str(), "conflist") || same(
                    e.as_str(),
                    "json",
                ),
                None => false,
            };
            if wanted {
                out.push(paths[i].clone());
                assert(texts(out@) =~= texts(before).push(paths@[i as int]@));
            }
            i = i + 1;
        }
        assert(texts(paths@).take(i as int) =~= texts(paths@));
        sort_texts(out)
    }

    /// The configurations of the files that have one, in the order of the
    /// files.
    pub fn load_configs(&self, files: Vec<ParsedConfig>) -> (r: Vec<CniNetworkConfig>)
        ensures
            configs_are(files@, r@),
    {
        let ghost all = files@;
        let mut rest = files;
        let mut out: Vec<CniNetworkConfig> = Vec::new();
        let ghost mut n: int = 0;
        while rest.len() > 0
            invariant
                0 <= n <= all.len(),
                rest@ == all.skip(n),
                configs_are(all.take(n), out@),
            decreases rest@.len(),
        {
            let ghost before = out@;
            let f = rest.remove(0);
            assert(f == all[n]);
            assert(rest@ =~= all.skip(n + 1));
            assert(all.take(n + 1).drop_last() =~= all.take(n));
            if let Some(c) = parse_cni_network_config(f) {
                out.push(c);
                assert(out@.drop_last() =~= before);
            }
            proof {
                n = n + 1;
            }
        }
        assert(all.take(n) =~= all);
        out
    }

    /// How a plugin is run for a command.
    pub open spec fn invocation(
        self,
        command: Seq<char>,
        plugin_type: Seq<char>,
        container_id: Seq<char>,
        netns: Seq<char>,
        ifname: Seq<char>,
        config: Json,
        i: CniInvocation,
    ) -> bool {
        &&& i.plugin_path@ == path_join(self.plugin_dir@, plugin_type)
        &&& env_is(i.env@, command, container_id, netns, ifname, self.plugin_dir@)
        &&& i.input@ == json_compact(config)
    }

    fn exec_plugin(
        &self,
        command: &str,
        plugin_type: &str,
        container_id: &str,
        netns: &str,
        ifname: &str,
        config: &JsonValue,
    ) -> (r: CniInvocation)
        ensures
            self.invocation(command@, plugin_type@, container_id@, netns@, ifname@, config@, r),
    {
        CniInvocation {
            plugin_path: join_path(self.plugin_dir.as_str(), plugin_type),
            env: cni_env(command, container_id, netns, ifname, self.plugin_dir.as_str()),
            input: write_json(config),
        }
    }

    /// How a plugin is run to attach a container.
    pub fn add(
        &self,
        plugin_type: &str,
        container_id: &str,
        netns: &str,
        ifname: &str,
        config: &JsonValue,
    ) -> (r: CniInvocation)
        ensures
            self.invocation("ADD"@, plugin_type@, container_id@, netns@, ifname@, config@, r),
    {
        self.exec_plugin("ADD", plugin_type, container_id, netns, ifname, config)
    }

    /// How a plugin is run to detach a container.
    pub fn del(
        &self,
        plugin_type: &str,
        container_id: &str,
        netns: &str,
        ifname: &str,
        config: &JsonValue,
    ) -> (r: CniInvocation)
        ensures
            self.invocation("DEL"@, plugin_type@, container_id@, netns@, ifname@, config@, r),
    {
        self.exec_plugin("DEL", plugin_type, container_id, netns, ifname, config)
    }

    /// How a plugin is run to check the attachment of a container.
    pub fn check(
        &self,
        plugin_type: &str,
        container_id: &str,
        netns: &str,
        ifname: &str,
        config: &JsonValue,
    ) -> (r: CniInvocation)
        ensures
            self.invocation("CHECK"@, plugin_type@, container_id@, netns@, ifname@, config@, r),
    {
        self.exec_plugin("CHECK", plugin_type, container_id, netns, ifname, config)
    }

    /// What a run of a plugin yields.
    pub fn plugin_result(&self, plugin_type: &str, run: PluginRun) -> (r: Result<
        CniResult,
        KubeletError,
    >)
        ensures
            run_result(plugin_type@, path_join(self.plugin_dir@, plugin_type@), run, r),
    {
        match run {
            PluginRun::Missing => {
                let path = join_path(self.plugin_dir.as_str(), plugin_type);
                let shown = debug_path(path.as_str());
                Err(
                    KubeletError::Network(
                        cat4("CNI plugin '", plugin_type, "' not found at ", shown.as_str()),
                    ),
                )
            },
            PluginRun::NotSpawned(e) => Err(
                KubeletError::Network(cat2("Failed to spawn CNI plugin: ", e.as_str())),
            ),
            PluginRun::InputFailed(e) => Err(
                KubeletError::Network(cat2("Failed to write CNI stdin: ", e.as_str())),
            ),
            PluginRun::WaitFailed(e) => Err(
                KubeletError::Network(cat2("CNI plugin failed: ", e.as_str())),
            ),
            PluginRun::Exited { status, stderr } => {
                let said = lossy_text(&stderr);
                Err(
                    KubeletError::Network(
                        cat6(
                            "CNI plugin '",
                            plugin_type,
                            "' exited with ",
                            status.as_str(),
                            ": ",
                            trim(said.as_str()),
                        ),
                    ),
                )
            },
            PluginRun::Ended { stdout, read } => if stdout.len() == 0 {
                Ok(
                    CniResult {
                        cni_version: String::new(),
                        interfaces: None,
                        ips: None,
                        routes: None,
                        dns: None,
                    },
                )
            } else {
                match read {
                    Ok(a) => Ok(a),
                    Err(e) => Err(
                        KubeletError::Network(cat2("Failed to parse CNI result: ", e.as_str())),
                    ),
                }
            },
        }
    }
}

// ---------------------------------------------------------------------------
// The network plugin
// ---------------------------------------------------------------------------

/// Attaches pods to one network through a plugin.
#[derive(Debug)]
pub struct CniNetworkPlugin {
    pub executor: CniPluginExecutor,
    pub network_name: String,
    pub plugin_type: String,
}

/// What a plugin is told on its input: a minimal configuration.
pub open spec fn request_json(name: Seq<char>, plugin_type: Seq<char>) -> Json {
    Json::Object(
        map![
            "cniVersion"@ => Json::Text("1.0.0"@),
            "name"@ => Json::Text(name),
            "type"@ => Json::Text(plugin_type),
        ],
    )
}

/// The first address of a result without its prefix length.
pub open spec fn first_ip(r: CniResult) -> Seq<char> {
    match r.ips {
        Some(ips) => if ips@.len() > 0 {
            ips@[0].address@.take(first_index(ips@[0].address@, '/') as int)
        } else {
            "0.0.0.0"@
        },
        None => "0.0.0.0"@,
    }
}

/// The hardware address of the first interface with the given name.
pub open spec fn mac_of(interfaces: Seq<CniInterface>, name: Seq<char>) -> Option<Seq<char>>
    decreases interfaces.len(),
{
    if interfaces.len() == 0 {
        None
    } else if interfaces[0].name@ == name {
        Some(interfaces[0].mac@)
    } else {
        mac_of(interfaces.skip(1), name)
    }
}

/// How a result attaches a sandbox.
pub open spec fn attachment_is(sandbox_id: Seq<char>, r: CniResult, a: NetworkAttachment) -> bool {
    &&& a.sandbox_id@ == sandbox_id
    &&& a.interface_name@ == "eth0"@
    &&& texts(a.ip_addresses@) == seq![first_ip(r)]
    &&& a.mac_address@ == match r.interfaces {
        Some(v) => match mac_of(v@, "eth0"@) {
            Some(m) => m,
            None => "00:00:00:00:00:00"@,
        },
        None => "00:00:00:00:00:00"@,
    }
    &&& texts(a.dns@) == match r.dns {
        Some(d) => match d.nameservers {
            Some(n) => texts(n@),
            None => Seq::empty(),
        },
        None => Seq::empty(),
    }
    &&& opt_text(a.gateway) == match r.ips {
        Some(ips) => if ips@.len() > 0 {
            opt_text(ips@[0].gateway)
        } else {
            None
        },
        None => None,
    }
}

/// The attachment of a sandbox whose plugin failed.
pub open spec fn fallback_attachment(sandbox_id: Seq<char>, a: NetworkAttachment) -> bool {
    &&& a.sandbox_id@ == sandbox_id
    &&& a.interface_name@ == "eth0"@
    &&& texts(a.ip_addresses@) == seq!["127.0.0.1"@]
    &&& a.mac_address@ == "00:00:00:00:00:00"@
    &&& a.gateway is None
    &&& a.dns@.len() == 0
}

fn find_mac(interfaces: &Vec<CniInterface>, name: &str) -> (r: Option<String>)
    ensures
        opt_text(r) == mac_of(interfaces@, name@),
{
    let mut i: usize = 0;
    assert(interfaces@.skip(0) =~= interfaces@);
    while i < interfaces.len()
        invariant
            i <= interfaces@.len(),
            mac_of(interfaces@, name@) == mac_of(interfaces@.skip(i as int), name@),
        decreases interfaces@.len() - i,
    {
        assert(interfaces@.skip(i as int)[0] == interfaces@[i as int]);
        assert(interfaces@.skip(i as int).skip(1) =~= interfaces@.skip(i + 1));
        if same(interfaces[i].name.as_str(), name) {
            return Some(interfaces[i].mac.clone());
        }
        i = i + 1;
    }
    None
}

fn without_prefix_length(address: &str) -> (r: String)
    ensures
        r@ == address@.take(first_index(address@, '/') as int),
{
    let v = chars_of(address);
    let i: usize = find_from(&v, 0, '/');
    assert(v@.skip(0) =~= v@);
    assert(v@.subrange(0, i as int) =~= v@.take(i as int));
    string_of(&v, 0, i)
}

impl CniNetworkPlugin {
    pub fn new(executor: CniPluginExecutor, network_name: &str, plugin_type: &str) -> (r: Self)
        ensures
            r.executor == executor,
            r.network_name@ == network_name@,
            r.plugin_type@ == plugin_type@,
    {
        CniNetworkPlugin {
            executor,
            network_name: network_name.to_owned(),
            plugin_type: plugin_type.to_owned(),
        }
    }

    /// The network of the first configuration, or of a default bridge where
    /// there is none.
    pub fn from_config_dir(
        plugin_dir: &str,
        config_dir: &str,
        configs: &Vec<CniNetworkConfig>,
    ) -> (r: Self)
        ensures
            r.executor.plugin_dir@ == plugin_dir@,
            r.executor.config_dir@ == config_dir@,
            r.network_name@ == if configs@.len() > 0 {
                configs@[0].name@
            } else {
                "cbr0"@
            },
            r.plugin_type@ == if configs@.len() > 0 {
                configs@[0].plugin_type@
            } else {
                "bridge"@
            },
    {
        let executor = CniPluginExecutor::new(plugin_dir, config_dir);
        if configs.len() > 0 {
            CniNetworkPlugin::new(
                executor,
                configs[0].name.as_str(),
                configs[0].plugin_type.as_str(),
            )
        } else {
            CniNetworkPlugin::new(executor, "cbr0", "bridge")
        }
    }

    /// What the plugin is told on its input.
    pub fn request(&self) -> (r: JsonValue)
        ensures
            r@ == request_json(self.network_name@, self.plugin_type@),
    {
        let mut m: StrMap<JsonValue> = StrMap::new();
        m.insert("cniVersion".to_owned(), JsonValue::Str("1.0.0".to_owned()));
        m.insert("name".to_owned(), JsonValue::Str(self.network_name.clone()));
        m.insert("type".to_owned(), JsonValue::Str(self.plugin_type.clone()));
        proof {
            lemma_object_json(m);
            let ghost members = map![
                "cniVersion"@ => Json::Text("1.0.0"@),
                "name"@ => Json::Text(self.network_name@),
                "type"@ => Json::Text(self.plugin_type@),
            ];
            assert(m@.map_values(|v: JsonValue| v@) =~= members);
        }
        JsonValue::Object(m)
    }

    /// How the plugin is run to attach a sandbox.
    pub fn setup_invocation(&self, sandbox_id: &str) -> (r: CniInvocation)
        ensures
            self.executor.invocation(
                "ADD"@,
                self.plugin_type@,
                sandbox_id@,
                "/var/run/netns/"@ + sandbox_id@,
                "eth0"@,
                request_json(self.network_name@, self.plugin_type@),
                r,
            ),
    {
        let netns = cat2("/var/run/netns/", sandbox_id);
        self.executor.add(
            self.plugin_type.as_str(),
            sandbox_id,
            netns.as_str(),
            "eth0",
            &self.request(),
        )
    }

    /// How a sandbox is attached, by what the plugin yielded. Where the plugin
    /// failed, the sandbox is attached to the loopback network.
    pub fn setup_pod(&self, sandbox_id: &str, outcome: Result<CniResult, KubeletError>) -> (r:
        Result<NetworkAttachment, KubeletError>)
        ensures
            r matches Ok(a) && match outcome {
                Ok(result) => attachment_is(sandbox_id@, result, a),
                Err(_) => fallback_attachment(sandbox_id@, a),
            },
    {
        let mut ip_addresses: Vec<String> = Vec::new();
        match outcome {
            Ok(result) => {
                let mut gateway: Option<String> = None;
                let ip = match &result.ips {
                    Some(ips) => if ips.len() > 0 {
                        gateway = ips[0].gateway.clone();
                        without_prefix_length(ips[0].address.as_str())
                    } else {
                        "0.0.0.0".to_owned()
                    },
                    None => "0.0.0.0".to_owned(),
                };
                ip_addresses.push(ip);
                assert(texts(ip_addresses@) =~= seq![first_ip(result)]);
                let mac = match &result.interfaces {
                    Some(v) => find_mac(v, "eth0"),
                    None => None,
                };
                let mac_address = match mac {
                    Some(m) => m,
                    None => "00:00:00:00:00:00".to_owned(),
                };
                let dns = match &result.dns {
                    Some(d) => match &d.nameservers {
                        Some(n) => copy_strings(n),
                        None => Vec::new(),
                    },
                    None => Vec::new(),
                };
                assert(texts(Seq::<String>::empty()) =~= Seq::<Seq<char>>::empty());
                Ok(
                    NetworkAttachment {
                        sandbox_id: sandbox_id.to_owned(),
                        interface_name: "eth0".to_owned(),
                        ip_addresses,
                        mac_address,
                        gateway,
                        dns,
                    },
                )
            },
            Err(_) => {
                ip_addresses.push("127.0.0.1".to_owned());
                assert(texts(ip_addresses@) =~= seq!["127.0.0.1"@]);
                Ok(
                    NetworkAttachment {
                        sandbox_id: sandbox_id.to_owned(),
                        interface_name: "eth0".to_owned(),
                        ip_addresses,
                        mac_address: "00:00:00:00:00:00".to_owned(),
                        gateway: None,
                        dns: Vec::new(),
                    },
                )
            },
        }
    }

    /// How the plugin is run to detach a sandbox.
    pub fn teardown_invocation(&self, sandbox_id: &str) -> (r: CniInvocation)
        ensures
            self.executor.invocation(
                "DEL"@,
                self.plugin_type@,
                sandbox_id@,
                "/var/run/netns/"@ + sandbox_id@,
                "eth0"@,
                request_json(self.network_name@, self.plugin_type@),
                r,
            ),
    {
        let netns = cat2("/var/run/netns/", sandbox_id);
        self.executor.del(
            self.plugin_type.as_str(),
            sandbox_id,
            netns.as_str(),
            "eth0",
            &self.request(),
        )
    }

    /// Detaching succeeds whatever the plugin yielded.
    pub fn teardown_pod(&self, _outcome: Result<CniResult, KubeletError>) -> (r: Result<
        (),
        KubeletError,
    >)
        ensures
            r is Ok,
    {
        Ok(())
    }

    /// The attachment of a sandbox is not looked up again.
    pub fn pod_network_status(&self, _sandbox_id: &str) -> (r: Result<
        Option<NetworkAttachment>,
        KubeletError,
    >)
        ensures
            r matches Ok(None),
    {
        Ok(None)
    }

    pub fn name(&self) -> (r: &String)
        ensures
            *r == self.network_name,
    {
        &self.network_name
    }
}

/// A configuration of one plugin is taken as it is; of a list, the first plugin
/// counts, under the name and the version of the list.
pub proof fn law_first_plugin_counts(parsed: ParsedConfig, r: Option<CniNetworkConfig>)
    requires
        config_is(parsed, r),
    ensures
        parsed.single is Some ==> r == parsed.single,
        parsed.single is None && parsed.list is None ==> r is None,
        parsed.single is None && parsed.list is Some && r is Some ==> {
            &&& r->0.name@ == parsed.list->0.name@
            &&& r->0.cni_version@ == parsed.list->0.cni_version@
            &&& text(field(parsed.list->0.plugins@[0], "type"@)) == Some(r->0.plugin_type@)
            &&& r->0.extra == parsed.list->0.plugins@[0]
        },
        parsed.single is None && parsed.list is Some && parsed.list->0.plugins@.len() > 0 && text(
            field(parsed.list->0.plugins@[0], "type"@),
        ) is Some ==> r is Some,
{
}

/// A plugin is run from the directory of plugins, and finds in its environment
/// what it is to do, for which container and where.
pub proof fn law_plugins_are_told_what_to_do(
    e: CniPluginExecutor,
    command: Seq<char>,
    plugin_type: Seq<char>,
    container_id: Seq<char>,
    netns: Seq<char>,
    ifname: Seq<char>,
    config: Json,
    i: CniInvocation,
)
    requires
        e.invocation(command, plugin_type, container_id, netns, ifname, config, i),
    ensures
        i.plugin_path@ == path_join(e.plugin_dir@, plugin_type),
        i.env@["CNI_COMMAND"@]@ == command,
        i.env@["CNI_CONTAINERID"@]@ == container_id,
        i.env@["CNI_NETNS"@]@ == netns,
        i.env@["CNI_IFNAME"@]@ == ifname,
        i.env@["CNI_PATH"@]@ == e.plugin_dir@,
        i.input@ == json_compact(config),
{
}

/// What a plugin is asked for names the network and the plugin.
pub proof fn law_requests_name_network_and_plugin(name: Seq<char>, plugin_type: Seq<char>)
    ensures
        request_json(name, plugin_type) is Object,
        request_json(name, plugin_type)->Object_0["name"@] == Json::Text(name),
        request_json(name, plugin_type)->Object_0["type"@] == Json::Text(plugin_type),
        request_json(name, plugin_type)->Object_0["cniVersion"@] == Json::Text("1.0.0"@),
{
    reveal_strlit("name");
    reveal_strlit("type");
    reveal_strlit("cniVersion");
    assert("name"@[0] == 'n' && "type"@[0] == 't' && "cniVersion"@[0] == 'c');
}

/// A run fails unless the program ended with success and what it wrote, if it
/// wrote anything, can be read.
pub proof fn law_runs_that_end_well_do_not_fail(
    plugin_type: Seq<char>,
    plugin_path: Seq<char>,
    run: PluginRun,
    r: Result<CniResult, KubeletError>,
)
    requires
        run_result(plugin_type, plugin_path, run, r),
    ensures
        r is Ok <==> run is Ended && (run->read is Ok || run->stdout@.len() == 0),
        r is Err ==> r->Err_0 is Network,
        run is Ended && run->read is Ok && run->stdout@.len() > 0 ==> r->Ok_0 == run->read->Ok_0,
{
}

/// The address of a pod is the first that the plugin gave, without the length
/// of the network's prefix, its gateway goes with it, and the hardware address
/// is that of the pod's interface.
pub proof fn law_attachment_is_what_the_plugin_gave(
    sandbox_id: Seq<char>,
    r: CniResult,
    a: NetworkAttachment,
    ip: Seq<char>,
    length: Seq<char>,
    i: int,
)
    requires
        attachment_is(sandbox_id, r, a),
        !ip.contains('/'),
    ensures
        a.sandbox_id@ == sandbox_id,
        a.interface_name@ == "eth0"@,
        a.ip_addresses@.len() == 1,
        r.ips matches Some(ips) ==> {
            &&& ips@.len() > 0 && ips@[0].address@ == ip + "/"@ + length ==> a.ip_addresses@[0]@
                == ip
            &&& ips@.len() > 0 && ips@[0].address@ == ip ==> a.ip_addresses@[0]@ == ip
            &&& ips@.len() > 0 ==> opt_text(a.gateway) == opt_text(ips@[0].gateway)
            &&& ips@.len() == 0 ==> a.ip_addresses@[0]@ == "0.0.0.0"@ && a.gateway is None
        },
        r.ips is None ==> a.ip_addresses@[0]@ == "0.0.0.0"@ && a.gateway is None,
        r.interfaces matches Some(v) ==> (0 <= i < v@.len() && v@[i].name@ == "eth0"@ && (forall|
            j: int,
        |
            0 <= j < i ==> (#[trigger] v@[j]).name@ != "eth0"@) ==> a.mac_address@ == v@[i].mac@),
        r.interfaces is None ==> a.mac_address@ == "00:00:00:00:00:00"@,
        r.dns is None ==> a.dns@.len() == 0,
        r.dns matches Some(d) ==> (d.nameservers matches Some(n) ==> texts(a.dns@) == texts(n@)),
{
    reveal_strlit("/");
    assert(texts(a.ip_addresses@).len() == 1);
    assert(texts(a.ip_addresses@)[0] == a.ip_addresses@[0]@);
    assert(texts(a.dns@).len() == a.dns@.len());
    assert forall|k: int| 0 <= k < ip.len() implies ip[k] != '/' by {
        assert(ip.contains(ip[k]));
    }
    if let Some(ips) = r.ips {
        if ips@.len() > 0 {
            let t = ips@[0].address@;
            if t == ip + "/"@ + length {
                assert(t[ip.len() as int] == '/');
                lemma_first_index_is(t, '/', ip.len() as int);
                assert(t.take(ip.len() as int) =~= ip);
            }
            if t == ip {
                lemma_first_index_is(ip, '/', ip.len() as int);
                assert(t.take(ip.len() as int) =~= ip);
            }
        }
    }
    if let Some(v) = r.interfaces {
        if 0 <= i < v@.len() && v@[i].name@ == "eth0"@ && (forall|j: int|
            0 <= j < i ==> (#[trigger] v@[j]).name@ != "eth0"@) {
            lemma_mac_of(v@, i, "eth0"@);
        }
    }
}

proof fn lemma_mac_of(interfaces: Seq<CniInterface>, i: int, name: Seq<char>)
    requires
        0 <= i < interfaces.len(),
        interfaces[i].name@ == name,
        forall|j: int| 0 <= j < i ==> (#[trigger] interfaces[j]).name@ != name,
    ensures
        mac_of(interfaces, name) == Some(interfaces[i].mac@),
    decreases i,
{
    if i > 0 {
        assert(interfaces[0].name@ != name);
        let rest = interfaces.skip(1);
        assert(rest[i - 1] == interfaces[i]);
        assert forall|j: int| 0 <= j < i - 1 implies (#[trigger] rest[j]).name@ != name by {
            assert(rest[j] == interfaces[j + 1]);
        }
        lemma_mac_of(rest, i - 1, name);
    }
}

/// A pod whose plugin failed has the loopback address and nothing else.
pub proof fn law_fallback_is_loopback(sandbox_id: Seq<char>, a: NetworkAttachment)
    requires
        fallback_attachment(sandbox_id, a),
    ensures
        a.sandbox_id@ == sandbox_id,
        a.ip_addresses@.len() == 1 && a.ip_addresses@[0]@ == "127.0.0.1"@,
        a.gateway is None,
        a.dns@.len() == 0,
{
    assert(texts(a.ip_addresses@).len() == 1);
    assert(texts(a.ip_addresses@)[0] == a.ip_addresses@[0]@);
}

/// Just the files that end as a configuration does are read.
pub proof fn law_configurations_are_told_by_extension(paths: Seq<Seq<char>>, p: Seq<char>)
    ensures
        config_paths_of(paths).contains(p) <==> paths.contains(p) && (path_extension(p) == Some(
            "conf"@,
        ) || path_extension(p) == Some("conflist"@) || path_extension(p) == Some("json"@)),
    decreases paths.len(),
{
    if paths.len() > 0 {
        let front = paths.drop_last();
        let f = config_paths_of(front);
        let all = config_paths_of(paths);
        let n = paths.len() - 1;
        law_configurations_are_told_by_extension(front, p);
        if f.contains(p) {
            let j = choose|j: int| 0 <= j < f.len() && f[j] == p;
            assert(all[j] == p);
            let i = choose|i: int| 0 <= i < front.len() && front[i] == p;
            assert(paths[i] == p);
        }
        if is_config_path(paths[n]) {
            assert(all[f.len() as int] == paths[n]);
        }
        if all.contains(p) && !f.contains(p) {
            let j = choose|j: int| 0 <= j < all.len() && all[j] == p;
            if j < f.len() {
                assert(f[j] == p);
            }
            assert(paths[n] == p);
        }
        if paths.contains(p) {
            let i = choose|i: int| 0 <= i < paths.len() && paths[i] == p;
            if i < n {
                assert(front[i] == p);
            }
        }
    }
}

/// Just the files of the directory are listed as plugins, by their names.
pub proof fn law_plugins_are_files(entries: Seq<DirEntry>, name: Seq<char>)
    ensures
        file_names(entries).contains(name) <==> exists|i: int|
            0 <= i < entries.len() && (#[trigger] entries[i]).is_file && opt_text(entries[i].name)
                == Some(name),
    decreases entries.len(),
{
    if entries.len() > 0 {
        let front = entries.drop_last();
        let f = file_names(front);
        let all = file_names(entries);
        let n = entries.len() - 1;
        law_plugins_are_files(front, name);
        if f.contains(name) {
            let j = choose|j: int| 0 <= j < f.len() && f[j] == name;
            assert(all[j] == name);
            let i = choose|i: int|
                0 <= i < front.len() && (#[trigger] front[i]).is_file && opt_text(front[i].name)
                    == Some(name);
            assert(entries[i] == front[i]);
        }
        if entries[n].is_file && opt_text(entries[n].name) == Some(name) {
            assert(all[f.len() as int] == name);
        }
        if all.contains(name) && !f.contains(name) {
            let j = choose|j: int| 0 <= j < all.len() && all[j] == name;
            if j < f.len() {
                assert(f[j] == name);
            }
            assert(entries[n].is_file);
        }
        if exists|i: int|
            0 <= i < entries.len() && (#[trigger] entries[i]).is_file && opt_text(entries[i].name)
                == Some(name) {
            let i = choose|i: int|
                0 <= i < entries.len() && (#[trigger] entries[i]).is_file && opt_text(
                    entries[i].name,
                ) == Some(name);
            if i < n {
                assert(front[i] == entries[i]);
            }
        }
    }
}

/// Each file that describes a plugin by itself gives its configuration.
pub proof fn law_no_configuration_is_lost(
    files: Seq<ParsedConfig>,
    out: Seq<CniNetworkConfig>,
    i: int,
)
    requires
        configs_are(files, out),
        0 <= i < files.len(),
        files[i].single is Some,
    ensures
        out.contains(files[i].single->0),
        out.len() <= files.len(),
    decreases files.len(),
{
    let front = files.drop_last();
    lemma_no_more_configurations(files, out);
    if config_is(files.last(), None) && configs_are(front, out) {
        assert(i < front.len());
        assert(front[i] == files[i]);
        law_no_configuration_is_lost(front, out, i);
    } else {
        let o = out.drop_last();
        if i < front.len() {
            assert(front[i] == files[i]);
            law_no_configuration_is_lost(front, o, i);
            let k = choose|k: int| 0 <= k < o.len() && o[k] == files[i].single->0;
            assert(out[k] == files[i].single->0);
        } else {
            assert(out[out.len() - 1] == files[i].single->0);
        }
    }
}

proof fn lemma_no_more_configurations(files: Seq<ParsedConfig>, out: Seq<CniNetworkConfig>)
    requires
        configs_are(files, out),
    ensures
        out.len() <= files.len(),
    decreases files.len(),
{
    if files.len() > 0 {
        if config_is(files.last(), None) && configs_are(files.drop_last(), out) {
            lemma_no_more_configurations(files.drop_last(), out);
        } else {
            lemma_no_more_configurations(files.drop_last(), out.drop_last());
        }
    }
}

/// Where a plugin could not be run, the error says at which step and why.
pub proof fn law_plugin_failures_are_told(
    plugin_type: Seq<char>,
    plugin_path: Seq<char>,
    run: PluginRun,
    r: Result<CniResult, KubeletError>,
)
    requires
        run_result(plugin_type, plugin_path, run, r),
    ensures
        run is Ended || r is Err,
        run matches PluginRun::NotSpawned(e) ==> {
            &&& r is Err
            &&& r->Err_0 is Network
            &&& r->Err_0->Network_0@ == "Failed to spawn CNI plugin: "@ + e@
        },
        run matches PluginRun::InputFailed(e) ==> {
            &&& r is Err
            &&& r->Err_0 is Network
            &&& r->Err_0->Network_0@ == "Failed to write CNI stdin: "@ + e@
        },
        run matches PluginRun::WaitFailed(e) ==> {
            &&& r is Err
            &&& r->Err_0 is Network
            &&& r->Err_0->Network_0@ == "CNI plugin failed: "@ + e@
        },
        run is Missing ==> {
            &&& r is Err
            &&& r->Err_0 is Network
            &&& r->Err_0->Network_0@ == "CNI plugin '"@ + plugin_type + "' not found at "@
                + debug_path_quoted(plugin_path)
        },
        run matches PluginRun::Ended { stdout, read } ==> (stdout@.len() == 0 ==> r is Ok),
{
}

/// A plugin is told five things by its environment, and nothing else.
pub proof fn law_plugin_environment_is_exact(
    env: Map<Seq<char>, String>,
    command: Seq<char>,
    container_id: Seq<char>,
    netns: Seq<char>,
    ifname: Seq<char>,
    path: Seq<char>,
    name: Seq<char>,
)
    requires
        env_is(env, command, container_id, netns, ifname, path),
    ensures
        env.contains_key(name) <==> name == "CNI_COMMAND"@ || name == "CNI_CONTAINERID"@ || name
            == "CNI_NETNS"@ || name == "CNI_IFNAME"@ || name == "CNI_PATH"@,
{
    assert(env.dom().contains(name) == env_names().contains(name));
}

/// A plugin that ended badly is told with its name, its status and what it said.
pub proof fn law_bad_ends_are_told(
    plugin_type: Seq<char>,
    plugin_path: Seq<char>,
    run: PluginRun,
    r: Result<CniResult, KubeletError>,
)
    requires
        run_result(plugin_type, plugin_path, run, r),
    ensures
        run matches PluginRun::Exited { status, stderr } ==> {
            &&& r is Err
            &&& r->Err_0 is Network
            &&& r->Err_0->Network_0@ == "CNI plugin '"@ + plugin_type + "' exited with "@ + status@
                + ": "@ + trimmed(utf8_lossy_text(stderr@))
        },
{
}

/// What a plugin does not report has its stand-in: no hardware address, no
/// gateway and no servers of names.
pub proof fn law_unreported_parts_have_stand_ins(
    sandbox_id: Seq<char>,
    r: CniResult,
    a: NetworkAttachment,
)
    requires
        attachment_is(sandbox_id, r, a),
    ensures
        r.interfaces is None ==> a.mac_address@ == "00:00:00:00:00:00"@,
        r.interfaces matches Some(v) ==> (mac_of(v@, "eth0"@) is None ==> a.mac_address@
            == "00:00:00:00:00:00"@),
        r.dns is None ==> a.dns@.len() == 0,
        r.ips is None ==> a.gateway is None,
        a.ip_addresses@.len() == 1,
{
    assert(texts(a.dns@).len() == a.dns@.len());
    assert(texts(a.ip_addresses@).len() == a.ip_addresses@.len());
}

/// A plugin that says nothing reports nothing.
pub proof fn law_silent_plugins_report_nothing(
    plugin_type: Seq<char>,
    plugin_path: Seq<char>,
    stdout: Vec<u8>,
    read: Result<CniResult, String>,
    r: Result<CniResult, KubeletError>,
)
    requires
        run_result(plugin_type, plugin_path, PluginRun::Ended { stdout, read }, r),
        stdout@.len() == 0,
    ensures
        r is Ok && r->Ok_0.cni_version@.len() == 0 && r->Ok_0.interfaces is None && r->Ok_0.ips
            is None && r->Ok_0.routes is None && r->Ok_0.dns is None,
{
}

} // verus!
