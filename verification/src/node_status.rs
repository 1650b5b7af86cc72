//! The status of the node: what it is made of, what it can hold and how it
//! fares.
use crate::kube_watcher::text_or;
use crate::strmap::StrMap;
use crate::text::{
    cat2, has_prefix, lines, lines_of, opt_text, split_whitespace, starts_with, strip_prefixes,
    texts, trim, trim_char, trimmed, without_leading, without_prefixes, without_trailing, words,
};
use crate::types::Timestamp;
use vstd::prelude::*;

verus! {

#[derive(Debug, Clone, Copy, PartialEq, Eq, Structural)]
pub enum NodeConditionType {
    Ready,
    MemoryPressure,
    DiskPressure,
    PIDPressure,
    NetworkUnavailable,
}

impl NodeConditionType {
    /// The name of the condition.
    pub open spec fn text(self) -> Seq<char> {
        match self {
            NodeConditionType::Ready => "Ready"@,
            NodeConditionType::MemoryPressure => "MemoryPressure"@,
            NodeConditionType::DiskPressure => "DiskPressure"@,
            NodeConditionType::PIDPressure => "PIDPressure"@,
            NodeConditionType::NetworkUnavailable => "NetworkUnavailable"@,
        }
    }

    /// The name of the condition.
    pub fn name(&self) -> (r: &'static str)
        ensures
            r@ == self.text(),
    {
        match self {
            NodeConditionType::Ready => "Ready",
            NodeConditionType::MemoryPressure => "MemoryPressure",
            NodeConditionType::DiskPressure => "DiskPressure",
            NodeConditionType::PIDPressure => "PIDPressure",
            NodeConditionType::NetworkUnavailable => "NetworkUnavailable",
        }
    }
}

#[derive(Debug, Clone, Copy, PartialEq, Eq, Structural)]
pub enum NodeConditionStatus {
    True,
    False,
    Unknown,
}

#[derive(Debug)]
pub struct NodeCondition {
    pub condition_type: NodeConditionType,
    pub status: NodeConditionStatus,
    pub reason: String,
    pub message: String,
    pub last_heartbeat_time: Timestamp,
    pub last_transition_time: Timestamp,
}

#[derive(Debug, Clone, Copy, PartialEq, Eq, Structural)]
pub enum NodeAddressType {
    InternalIP,
    ExternalIP,
    Hostname,
    InternalDNS,
    ExternalDNS,
}

impl NodeAddressType {
    /// The name of the kind of address.
    pub open spec fn text(self) -> Seq<char> {
        match self {
            NodeAddressType::InternalIP => "InternalIP"@,
            NodeAddressType::ExternalIP => "ExternalIP"@,
            NodeAddressType::Hostname => "Hostname"@,
            NodeAddressType::InternalDNS => "InternalDNS"@,
            NodeAddressType::ExternalDNS => "ExternalDNS"@,
        }
    }

    /// The name of the kind of address.
    pub fn name(&self) -> (r: &'static str)
        ensures
            r@ == self.text(),
    {
        match self {
            NodeAddressType::InternalIP => "InternalIP",
            NodeAddressType::ExternalIP => "ExternalIP",
            NodeAddressType::Hostname => "Hostname",
            NodeAddressType::InternalDNS => "InternalDNS",
            NodeAddressType::ExternalDNS => "ExternalDNS",
        }
    }
}

#[derive(Debug)]
pub struct NodeAddress {
    pub address_type: NodeAddressType,
    pub address: String,
}

/// What the node has. CPU counts in thousandths of a core.
#[derive(Debug)]
pub struct NodeCapacity {
    pub cpu_millicores: u64,
    pub memory_bytes: u64,
    pub pods: u32,
    pub ephemeral_storage_bytes: u64,
    pub hugepages: StrMap<u64>,
    pub extended_resources: StrMap<u64>,
}

/// What of the node pods can be given.
#[derive(Debug, Clone, Copy, PartialEq, Eq, Structural)]
pub struct NodeAllocatable {
    pub cpu_millicores: u64,
    pub memory_bytes: u64,
    pub pods: u32,
    pub ephemeral_storage_bytes: u64,
}

#[derive(Debug)]
pub struct NodeSystemInfo {
    pub kubelet_version: String,
    pub operating_system: String,
    pub architecture: String,
    pub kernel_version: String,
    pub os_image: String,
    pub machine_id: String,
    pub system_uuid: String,
    pub boot_id: String,
    pub container_runtime_version: String,
    pub kube_proxy_version: String,
}

#[derive(Debug)]
pub struct NodeStatus {
    pub name: String,
    pub conditions: Vec<NodeCondition>,
    pub capacity: NodeCapacity,
    pub allocatable: NodeAllocatable,
    pub addresses: Vec<NodeAddress>,
    pub system_info: NodeSystemInfo,
    pub last_updated: Timestamp,
}

/// Whether the condition says that the node is ready.
pub open spec fn says_ready(c: NodeCondition) -> bool {
    c.condition_type == NodeConditionType::Ready && c.status == NodeConditionStatus::True
}

impl NodeStatus {
    /// Whether some condition says that the node is ready.
    pub open spec fn ready(self) -> bool {
        exists|i: int| 0 <= i < self.conditions@.len() && says_ready(#[trigger] self.conditions@[i])
    }

    /// Whether some condition says that the node is ready.
    pub fn is_ready(&self) -> (r: bool)
        ensures
            r == self.ready(),
    {
        let mut i: usize = 0;
        while i < self.conditions.len()
            invariant
                i <= self.conditions@.len(),
                forall|k: int| 0 <= k < i ==> !says_ready(#[trigger] self.conditions@[k]),
            decreases self.conditions@.len() - i,
        {
            if self.conditions[i].condition_type == NodeConditionType::Ready
                && self.conditions[i].status == NodeConditionStatus::True {
                assert(says_ready(self.conditions@[i as int]));
                return true;
            }
            i = i + 1;
        }
        false
    }

    /// The phase of the node in one word.
    pub fn phase_str(&self) -> (r: &'static str)
        ensures
            r@ == if self.ready() {
                "Ready"@
            } else {
                "NotReady"@
            },
    {
        if self.is_ready() {
            "Ready"
        } else {
            "NotReady"
        }
    }
}

// ---------------------------------------------------------------------------
// What the operating system says of itself
// ---------------------------------------------------------------------------

/// The third word of the kernel's version text, or `unknown`.
pub open spec fn kernel_version_of(proc_version: Option<Seq<char>>) -> Seq<char> {
    match proc_version {
        Some(s) => if words(s).len() > 2 {
            words(s)[2]
        } else {
            "unknown"@
        },
        None => "unknown"@,
    }
}

/// Reads the kernel's version out of its version text.
pub fn kernel_version(proc_version: &Option<String>) -> (r: String)
    ensures
        r@ == kernel_version_of(opt_text(*proc_version)),
{
    match proc_version {
        Some(s) => {
            let w = split_whitespace(s.as_str());
            assert(texts(w@).len() == w@.len());
            if w.len() > 2 {
                assert(texts(w@)[2] == w@[2]@);
                w[2].clone()
            } else {
                "unknown".to_owned()
            }
        },
        None => "unknown".to_owned(),
    }
}

/// The name of the system image that a release text gives in its first line
/// that starts with `PRETTY_NAME=`, without the quotes around it.
pub open spec fn pretty_name(lines: Seq<Seq<char>>) -> Option<Seq<char>>
    decreases lines.len(),
{
    if lines.len() == 0 {
        None
    } else if has_prefix(lines[0], "PRETTY_NAME="@) {
        Some(
            without_trailing(
                without_leading(without_prefixes(lines[0], "PRETTY_NAME="@), '"'),
                '"',
            ),
        )
    } else {
        pretty_name(lines.skip(1))
    }
}

/// Finds the name of the system image in a release text.
pub fn find_pretty_name(os_release: &str) -> (r: Option<String>)
    ensures
        opt_text(r) == pretty_name(lines_of(os_release@)),
{
    let ls = lines(os_release);
    let mut i: usize = 0;
    assert(texts(ls@).skip(0) =~= texts(ls@));
    while i < ls.len()
        invariant
            i <= ls@.len(),
            texts(ls@) == lines_of(os_release@),
            pretty_name(texts(ls@)) == pretty_name(texts(ls@).skip(i as int)),
        decreases ls@.len() - i,
    {
        assert(texts(ls@).skip(i as int)[0] == ls@[i as int]@);
        assert(texts(ls@).skip(i as int).skip(1) =~= texts(ls@).skip(i + 1));
        if starts_with(ls[i].as_str(), "PRETTY_NAME=") {
            let rest = strip_prefixes(ls[i].as_str(), "PRETTY_NAME=");
            return Some(trim_char(rest, '"').to_owned());
        }
        i = i + 1;
    }
    None
}

/// The name of the system image, or the name of the operating system.
pub open spec fn os_image_of(os_release: Option<Seq<char>>, os: Seq<char>) -> Seq<char> {
    match os_release {
        Some(s) => text_or(pretty_name(lines_of(s)), os),
        None => os,
    }
}

/// Reads the name of the system image out of a release text.
pub fn os_image(os_release: &Option<String>, os: &str) -> (r: String)
    ensures
        r@ == os_image_of(opt_text(*os_release), os@),
{
    match os_release {
        Some(s) => match find_pretty_name(s.as_str()) {
            Some(n) => n,
            None => os.to_owned(),
        },
        None => os.to_owned(),
    }
}

/// What a node tells of the system it runs on.
#[derive(Debug)]
pub struct SystemFacts {
    /// The version of this package.
    pub package_version: String,
    pub operating_system: String,
    pub architecture: String,
    /// The kernel's version text, where it could be read.
    pub proc_version: Option<String>,
    /// The release text, where it could be read.
    pub os_release: Option<String>,
    /// The machine identifier text, where it could be read.
    pub machine_id: Option<String>,
}

pub open spec fn system_info_is(f: SystemFacts, r: NodeSystemInfo) -> bool {
    &&& r.kubelet_version@ == "v"@ + f.package_version@
    &&& r.operating_system == f.operating_system
    &&& r.architecture == f.architecture
    &&& r.kernel_version@ == kernel_version_of(opt_text(f.proc_version))
    &&& r.os_image@ == os_image_of(opt_text(f.os_release), f.operating_system@)
    &&& r.machine_id@ == match f.machine_id {
        Some(s) => trimmed(s@),
        None => "unknown"@,
    }
    &&& r.system_uuid@.len() == 0
    &&& r.boot_id@.len() == 0
    &&& r.container_runtime_version@ == "containerd://unknown"@
    &&& r.kube_proxy_version@.len() == 0
}

// ---------------------------------------------------------------------------
// Collector
// ---------------------------------------------------------------------------

/// Builds the status of the node. CPU counts in thousandths of a core.
#[derive(Debug)]
pub struct NodeStatusCollector {
    pub node_name: String,
    pub max_pods: u32,
    pub cpu_millicores: u64,
    pub memory_bytes: u64,
    pub ephemeral_storage_bytes: u64,
}

/// Nine tenths, rounded down.
pub open spec fn nine_tenths(n: u64) -> u64 {
    (n * 9 / 10) as u64
}

fn ninety_percent(n: u64) -> (r: u64)
    ensures
        r == nine_tenths(n),
{
    n / 10 * 9 + n % 10 * 9 / 10
}

impl NodeStatusCollector {
    pub fn new(
        node_name: &str,
        max_pods: u32,
        cpu_millicores: u64,
        memory_bytes: u64,
        ephemeral_storage_bytes: u64,
    ) -> (r: Self)
        ensures
            r.node_name@ == node_name@,
            r.max_pods == max_pods,
            r.cpu_millicores == cpu_millicores,
            r.memory_bytes == memory_bytes,
            r.ephemeral_storage_bytes == ephemeral_storage_bytes,
    {
        NodeStatusCollector {
            node_name: node_name.to_owned(),
            max_pods,
            cpu_millicores,
            memory_bytes,
            ephemeral_storage_bytes,
        }
    }

    /// The status of the node at `now`. A tenth of each resource is kept back
    /// from pods.
    pub fn collect(&self, addresses: Vec<NodeAddress>, facts: SystemFacts, now: Timestamp) -> (r:
        NodeStatus)
        ensures
            r.name == self.node_name,
            r.conditions@.len() == 0,
            r.capacity.cpu_millicores == self.cpu_millicores,
            r.capacity.memory_bytes == self.memory_bytes,
            r.capacity.pods == self.max_pods,
            r.capacity.ephemeral_storage_bytes == self.ephemeral_storage_bytes,
            r.capacity.hugepages@ == Map::<Seq<char>, u64>::empty(),
            r.capacity.extended_resources@ == Map::<Seq<char>, u64>::empty(),
            r.allocatable.cpu_millicores == nine_tenths(self.cpu_millicores),
            r.allocatable.memory_bytes == nine_tenths(self.memory_bytes),
            r.allocatable.pods == self.max_pods,
            r.allocatable.ephemeral_storage_bytes == nine_tenths(self.ephemeral_storage_bytes),
            r.addresses == addresses,
            system_info_is(facts, r.system_info),
            r.last_updated == now,
    {
        NodeStatus {
            name: self.node_name.clone(),
            conditions: Vec::new(),
            capacity: NodeCapacity {
                cpu_millicores: self.cpu_millicores,
                memory_bytes: self.memory_bytes,
                pods: self.max_pods,
                ephemeral_storage_bytes: self.ephemeral_storage_bytes,
                hugepages: StrMap::new(),
                extended_resources: StrMap::new(),
            },
            allocatable: NodeAllocatable {
                cpu_millicores: ninety_percent(self.cpu_millicores),
                memory_bytes: ninety_percent(self.memory_bytes),
                pods: self.max_pods,
                ephemeral_storage_bytes: ninety_percent(self.ephemeral_storage_bytes),
            },
            addresses,
            system_info: self.collect_system_info(facts),
            last_updated: now,
        }
    }

    /// What the node tells of the system it runs on.
    pub fn collect_system_info(&self, facts: SystemFacts) -> (r: NodeSystemInfo)
        ensures
            system_info_is(facts, r),
    {
        let kernel_version = kernel_version(&facts.proc_version);
        let os_image = os_image(&facts.os_release, facts.operating_system.as_str());
        let machine_id = match &facts.machine_id {
            Some(s) => trim(s.as_str()).to_owned(),
            None => "unknown".to_owned(),
        };
        NodeSystemInfo {
            kubelet_version: cat2("v", facts.package_version.as_str()),
            operating_system: facts.operating_system,
            architecture: facts.architecture,
            kernel_version,
            os_image,
            machine_id,
            system_uuid: String::new(),
            boot_id: String::new(),
            container_runtime_version: "containerd://unknown".to_owned(),
            kube_proxy_version: String::new(),
        }
    }
}

// ---------------------------------------------------------------------------
// Conditions
// ---------------------------------------------------------------------------

/// Derives the conditions of the node from what was observed.
#[derive(Debug, Clone, Copy, PartialEq, Eq, Structural)]
pub struct NodeConditionDeriver {
    pub memory_pressure: bool,
    pub disk_pressure: bool,
    pub pid_pressure: bool,
    pub network_unavailable: bool,
    pub pleg_healthy: bool,
}

pub open spec fn status_of(b: bool) -> NodeConditionStatus {
    if b {
        NodeConditionStatus::True
    } else {
        NodeConditionStatus::False
    }
}

pub open spec fn condition_is(
    c: NodeCondition,
    condition_type: NodeConditionType,
    status: bool,
    reason: Seq<char>,
    message: Seq<char>,
    now: Timestamp,
) -> bool {
    &&& c.condition_type == condition_type
    &&& c.status == status_of(status)
    &&& c.reason@ == reason
    &&& c.message@ == message
    &&& c.last_heartbeat_time == now
    &&& c.last_transition_time == now
}

fn condition(
    condition_type: NodeConditionType,
    status: bool,
    reason: &str,
    message: &str,
    now: Timestamp,
) -> (c: NodeCondition)
    ensures
        condition_is(c, condition_type, status, reason@, message@, now),
{
    NodeCondition {
        condition_type,
        status: if status {
            NodeConditionStatus::True
        } else {
            NodeConditionStatus::False
        },
        reason: reason.to_owned(),
        message: message.to_owned(),
        last_heartbeat_time: now,
        last_transition_time: now,
    }
}

/// The conditions of the node at `now`: readiness, then the pressures on
/// memory, disk and process identifiers.
pub open spec fn conditions_are(
    d: NodeConditionDeriver,
    r: Seq<NodeCondition>,
    now: Timestamp,
) -> bool {
    &&& r.len() == 4
    &&& condition_is(
        r[0],
        NodeConditionType::Ready,
        d.fit(),
        "KubeletReady"@,
        if d.pleg_healthy {
            "kubelet is posting ready status"@
        } else {
            "PLEG is stale"@
        },
        now,
    )
    &&& condition_is(
        r[1],
        NodeConditionType::MemoryPressure,
        d.memory_pressure,
        if d.memory_pressure {
            "KubeletHasInsufficientMemory"@
        } else {
            "KubeletHasSufficientMemory"@
        },
        if d.memory_pressure {
            "kubelet has insufficient memory available"@
        } else {
            "kubelet has sufficient memory available"@
        },
        now,
    )
    &&& condition_is(
        r[2],
        NodeConditionType::DiskPressure,
        d.disk_pressure,
        if d.disk_pressure {
            "KubeletHasDiskPressure"@
        } else {
            "KubeletHasNoDiskPressure"@
        },
        if d.disk_pressure {
            "kubelet has disk pressure"@
        } else {
            "kubelet has no disk pressure"@
        },
        now,
    )
    &&& condition_is(
        r[3],
        NodeConditionType::PIDPressure,
        d.pid_pressure,
        if d.pid_pressure {
            "KubeletHasInsufficientPID"@
        } else {
            "KubeletHasSufficientPID"@
        },
        "kubelet has sufficient PID available"@,
        now,
    )
}

impl NodeConditionDeriver {
    pub fn new(
        memory_pressure: bool,
        disk_pressure: bool,
        pid_pressure: bool,
        network_unavailable: bool,
    ) -> (r: Self)
        ensures
            r == (NodeConditionDeriver {
                memory_pressure,
                disk_pressure,
                pid_pressure,
                network_unavailable,
                pleg_healthy: true,
            }),
    {
        NodeConditionDeriver {
            memory_pressure,
            disk_pressure,
            pid_pressure,
            network_unavailable,
            pleg_healthy: true,
        }
    }

    pub fn with_pleg_health(self, healthy: bool) -> (r: Self)
        ensures
            r == (NodeConditionDeriver { pleg_healthy: healthy, ..self }),
    {
        NodeConditionDeriver {
            memory_pressure: self.memory_pressure,
            disk_pressure: self.disk_pressure,
            pid_pressure: self.pid_pressure,
            network_unavailable: self.network_unavailable,
            pleg_healthy: healthy,
        }
    }

    /// Whether nothing stands against the node being ready.
    pub open spec fn fit(self) -> bool {
        !self.memory_pressure && !self.disk_pressure && !self.pid_pressure
            && !self.network_unavailable && self.pleg_healthy
    }

    /// The conditions of the node at `now`: readiness, then the pressures on
    /// memory, disk and process identifiers.
    pub fn build_conditions(&self, now: Timestamp) -> (r: Vec<NodeCondition>)
        ensures
            conditions_are(*self, r@, now),
    {
        let fit = !self.memory_pressure && !self.disk_pressure && !self.pid_pressure
            && !self.network_unavailable && self.pleg_healthy;
        let mut r: Vec<NodeCondition> = Vec::new();
        r.push(
            condition(
                NodeConditionType::Ready,
                fit,
                "KubeletReady",
                if self.pleg_healthy {
                    "kubelet is posting ready status"
                } else {
                    "PLEG is stale"
                },
                now,
            ),
        );
        r.push(
            condition(
                NodeConditionType::MemoryPressure,
                self.memory_pressure,
                if self.memory_pressure {
                    "KubeletHasInsufficientMemory"
                } else {
                    "KubeletHasSufficientMemory"
                },
                if self.memory_pressure {
                    "kubelet has insufficient memory available"
                } else {
                    "kubelet has sufficient memory available"
                },
                now,
            ),
        );
        r.push(
            condition(
                NodeConditionType::DiskPressure,
                self.disk_pressure,
                if self.disk_pressure {
                    "KubeletHasDiskPressure"
                } else {
                    "KubeletHasNoDiskPressure"
                },
                if self.disk_pressure {
                    "kubelet has disk pressure"
                } else {
                    "kubelet has no disk pressure"
                },
                now,
            ),
        );
        r.push(
            condition(
                NodeConditionType::PIDPressure,
                self.pid_pressure,
                if self.pid_pressure {
                    "KubeletHasInsufficientPID"
                } else {
                    "KubeletHasSufficientPID"
                },
                "kubelet has sufficient PID available",
                now,
            ),
        );
        r
    }
}

/// The conditions that are built say that the node is ready exactly when
/// nothing was observed that stands against it.
pub proof fn law_ready_iff_fit(d: NodeConditionDeriver, conditions: Seq<NodeCondition>, now: Timestamp)
    requires
        conditions_are(d, conditions, now),
    ensures
        (exists|i: int| 0 <= i < conditions.len() && says_ready(#[trigger] conditions[i])) <==> (
        !d.memory_pressure && !d.disk_pressure && !d.pid_pressure && !d.network_unavailable
            && d.pleg_healthy),
{
    if d.fit() {
        assert(says_ready(conditions[0]));
    }
}

/// Each kind of node condition has its own name.
pub proof fn law_node_conditions_have_their_names(t: NodeConditionType)
    ensures
        t.text() == "Ready"@ <==> t is Ready,
        t.text() == "MemoryPressure"@ <==> t is MemoryPressure,
        t.text() == "DiskPressure"@ <==> t is DiskPressure,
        t.text() == "PIDPressure"@ <==> t is PIDPressure,
        t.text() == "NetworkUnavailable"@ <==> t is NetworkUnavailable,
{
    reveal_strlit("Ready");
    reveal_strlit("MemoryPressure");
    reveal_strlit("DiskPressure");
    reveal_strlit("PIDPressure");
    reveal_strlit("NetworkUnavailable");
    assert("Ready"@.len() == 5 && "MemoryPressure"@.len() == 14 && "DiskPressure"@.len() == 12
        && "PIDPressure"@.len() == 11 && "NetworkUnavailable"@.len() == 18);
}

/// Each kind of node address has its own name.
pub proof fn law_node_addresses_have_their_names(t: NodeAddressType)
    ensures
        t.text() == "InternalIP"@ <==> t is InternalIP,
        t.text() == "ExternalIP"@ <==> t is ExternalIP,
        t.text() == "Hostname"@ <==> t is Hostname,
        t.text() == "InternalDNS"@ <==> t is InternalDNS,
        t.text() == "ExternalDNS"@ <==> t is ExternalDNS,
{
    reveal_strlit("InternalIP");
    reveal_strlit("ExternalIP");
    reveal_strlit("Hostname");
    reveal_strlit("InternalDNS");
    reveal_strlit("ExternalDNS");
    assert("InternalIP"@.len() == 10 && "ExternalIP"@.len() == 10 && "Hostname"@.len() == 8
        && "InternalDNS"@.len() == 11 && "ExternalDNS"@.len() == 11);
    assert("InternalIP"@[0] == 'I' && "ExternalIP"@[0] == 'E' && "InternalDNS"@[0] == 'I'
        && "ExternalDNS"@[0] == 'E');
}

/// Each condition that is derived is about its own pressure: it holds exactly
/// where that pressure is on, whatever the others are, and its reason says
/// which of the two is the case.
pub proof fn law_each_pressure_has_its_condition(
    d: NodeConditionDeriver,
    conditions: Seq<NodeCondition>,
    now: Timestamp,
    i: int,
)
    requires
        conditions_are(d, conditions, now),
        0 <= i < conditions.len(),
    ensures
        conditions[i].condition_type is MemoryPressure ==> (conditions[i].status is True
            <==> d.memory_pressure) && (conditions[i].reason@ == "KubeletHasInsufficientMemory"@
            <==> d.memory_pressure),
        conditions[i].condition_type is DiskPressure ==> (conditions[i].status is True
            <==> d.disk_pressure) && (conditions[i].reason@ == "KubeletHasDiskPressure"@
            <==> d.disk_pressure),
        conditions[i].condition_type is PIDPressure ==> (conditions[i].status is True
            <==> d.pid_pressure) && (conditions[i].reason@ == "KubeletHasInsufficientPID"@
            <==> d.pid_pressure),
        conditions[i].condition_type is Ready ==> conditions[i].reason@ == "KubeletReady"@,
        !(conditions[i].condition_type is NetworkUnavailable),
        conditions[i].status is True || conditions[i].status is False,
        conditions[i].last_heartbeat_time == now,
        conditions[i].last_transition_time == now,
{
    reveal_strlit("KubeletHasInsufficientMemory");
    reveal_strlit("KubeletHasSufficientMemory");
    reveal_strlit("KubeletHasDiskPressure");
    reveal_strlit("KubeletHasNoDiskPressure");
    reveal_strlit("KubeletHasInsufficientPID");
    reveal_strlit("KubeletHasSufficientPID");
    assert("KubeletHasInsufficientMemory"@.len() == 28 && "KubeletHasSufficientMemory"@.len() == 26);
    assert("KubeletHasDiskPressure"@.len() == 22 && "KubeletHasNoDiskPressure"@.len() == 24);
    assert("KubeletHasInsufficientPID"@.len() == 25 && "KubeletHasSufficientPID"@.len() == 23);
}

/// There is one condition for each of readiness and the three pressures.
pub proof fn law_each_condition_is_derived(
    d: NodeConditionDeriver,
    conditions: Seq<NodeCondition>,
    now: Timestamp,
    t: NodeConditionType,
)
    requires
        conditions_are(d, conditions, now),
        !(t is NetworkUnavailable),
    ensures
        exists|i: int|
            0 <= i < conditions.len() && (#[trigger] conditions[i]).condition_type == t,
        forall|i: int, j: int|
            0 <= i < j < conditions.len() ==> (#[trigger] conditions[i]).condition_type != (
            #[trigger] conditions[j]).condition_type,
{
    match t {
        NodeConditionType::Ready => assert(conditions[0].condition_type == t),
        NodeConditionType::MemoryPressure => assert(conditions[1].condition_type == t),
        NodeConditionType::DiskPressure => assert(conditions[2].condition_type == t),
        NodeConditionType::PIDPressure => assert(conditions[3].condition_type == t),
        NodeConditionType::NetworkUnavailable => {},
    }
}

/// What can be allocated is nine tenths of what there is, rounded down.
pub proof fn law_a_tenth_is_held_back(n: u64)
    ensures
        10 * nine_tenths(n) <= 9 * n < 10 * (nine_tenths(n) + 1),
{
}

/// A node is ready exactly where it has a condition `Ready` that holds; one
/// that is false or unknown does not count, nor another that holds.
pub proof fn law_readiness_is_a_condition_that_holds(s: NodeStatus)
    ensures
        s.ready() ==> exists|i: int|
            0 <= i < s.conditions@.len() && (#[trigger] s.conditions@[i]).condition_type is Ready
                && s.conditions@[i].status is True,
        forall|i: int|
            0 <= i < s.conditions@.len() && (#[trigger] s.conditions@[i]).condition_type is Ready
                && s.conditions@[i].status is True ==> s.ready(),
{
    assert forall|i: int|
        0 <= i < s.conditions@.len() && (#[trigger] s.conditions@[i]).condition_type is Ready
            && s.conditions@[i].status is True implies s.ready() by {
        assert(says_ready(s.conditions@[i]));
    }
    if s.ready() {
        let i = choose|i: int|
            0 <= i < s.conditions@.len() && says_ready(#[trigger] s.conditions@[i]);
        assert(s.conditions@[i].condition_type is Ready && s.conditions@[i].status is True);
    }
}

/// What is told of the system comes each from its own source: the kernel's
/// version is the third word of its text, the system's name is the pretty one
/// of its release, and what cannot be read is unknown.
pub proof fn law_system_info_comes_from_its_sources(f: SystemFacts, r: NodeSystemInfo)
    requires
        system_info_is(f, r),
    ensures
        r.kubelet_version@ == "v"@ + f.package_version@,
        r.operating_system@ == f.operating_system@,
        r.architecture@ == f.architecture@,
        f.proc_version matches Some(t) ==> (words(t@).len() > 2 ==> r.kernel_version@
            == words(t@)[2]),
        f.proc_version is None ==> r.kernel_version@ == "unknown"@,
        f.os_release is None ==> r.os_image@ == f.operating_system@,
        f.os_release matches Some(t) ==> (pretty_name(lines_of(t@)) matches Some(n)
            ==> r.os_image@ == n),
        f.machine_id matches Some(t) ==> r.machine_id@ == trimmed(t@),
        f.machine_id is None ==> r.machine_id@ == "unknown"@,
{
}

/// The pretty name of a release stands between quotes in the first line for it.
pub proof fn law_pretty_name_is_between_quotes(name: Seq<char>, rest: Seq<Seq<char>>)
    requires
        name.len() > 0,
        name[0] != '"',
        name.last() != '"',
    ensures
        pretty_name(seq!["PRETTY_NAME="@ + seq!['"'] + name + seq!['"']] + rest) == Some(name),
{
    reveal_strlit("PRETTY_NAME=");
    let p = "PRETTY_NAME="@;
    let quoted = seq!['"'] + name + seq!['"'];
    let line = p + seq!['"'] + name + seq!['"'];
    let lines = seq![line] + rest;
    assert(lines[0] == line);
    assert(line.take(p.len() as int) =~= p);
    assert(line.skip(p.len() as int) =~= quoted);
    assert(p[0] == 'P' && quoted[0] == '"');
    if has_prefix(quoted, p) {
        assert(quoted.take(p.len() as int)[0] == quoted[0]);
    }
    assert(without_prefixes(quoted, p) == quoted);
    assert(without_prefixes(line, p) == quoted);
    let half = name + seq!['"'];
    assert(quoted.skip(1) =~= half);
    assert(half[0] == name[0]);
    assert(without_leading(half, '"') == half);
    assert(without_leading(quoted, '"') == half);
    assert(half.last() == '"' && half.drop_last() =~= name);
    assert(without_trailing(name, '"') == name);
    assert(without_trailing(half, '"') == name);
}

/// A condition says in words what it says by its status.
pub proof fn law_conditions_say_what_they_are(
    d: NodeConditionDeriver,
    r: Seq<NodeCondition>,
    now: Timestamp,
)
    requires
        conditions_are(d, r, now),
    ensures
        d.pleg_healthy ==> r[0].message@ == "kubelet is posting ready status"@,
        !d.pleg_healthy ==> r[0].message@ == "PLEG is stale"@,
        d.memory_pressure ==> r[1].message@ == "kubelet has insufficient memory available"@,
        !d.memory_pressure ==> r[1].message@ == "kubelet has sufficient memory available"@,
        d.disk_pressure ==> r[2].message@ == "kubelet has disk pressure"@,
        !d.disk_pressure ==> r[2].message@ == "kubelet has no disk pressure"@,
        r[3].message@ == "kubelet has sufficient PID available"@,
        r[0].reason@ == "KubeletReady"@,
        d.memory_pressure ==> r[1].reason@ == "KubeletHasInsufficientMemory"@,
        d.disk_pressure ==> r[2].reason@ == "KubeletHasDiskPressure"@,
        d.pid_pressure ==> r[3].reason@ == "KubeletHasInsufficientPID"@,
        !d.memory_pressure ==> r[1].reason@ == "KubeletHasSufficientMemory"@,
        !d.disk_pressure ==> r[2].reason@ == "KubeletHasNoDiskPressure"@,
        !d.pid_pressure ==> r[3].reason@ == "KubeletHasSufficientPID"@,
{
}

/// What is not told of a system is left empty.
pub proof fn law_system_info_is_otherwise_empty(f: SystemFacts, r: NodeSystemInfo)
    requires
        system_info_is(f, r),
    ensures
        r.system_uuid@.len() == 0,
        r.boot_id@.len() == 0,
        r.kube_proxy_version@.len() == 0,
        r.container_runtime_version@ == "containerd://unknown"@,
{
}

/// A text of fewer than three words tells no version.
pub proof fn law_short_texts_tell_no_version(f: SystemFacts, r: NodeSystemInfo)
    requires
        system_info_is(f, r),
    ensures
        f.proc_version matches Some(t) ==> (words(t@).len() <= 2 ==> r.kernel_version@
            == "unknown"@),
        f.os_release matches Some(t) ==> (pretty_name(lines_of(t@)) is None ==> r.os_image@
            == f.operating_system@),
{
}

} // verus!
