//! Devices that plugins offer, and the containers to which they are given.
use crate::error::KubeletError;
use crate::paths::{extension, file_stem, file_stem_of, join_path, path_extension, path_join};
use crate::strmap::{
    distinct_keys, lemma_map_of_dom, lemma_map_of_value, map_of, StrMap,
};
use crate::text::{
    cat2, cat3, chars_of, copy_strings, dec, decimal, equal_ignoring_case, find_from, first_index,
    holds, lemma_first_index_is, opt_text, same, same_ignoring_case, string_of, texts,
};
use crate::types::PodUID;
use vstd::prelude::*;

verus! {

// ---------------------------------------------------------------------------
// Devices
// ---------------------------------------------------------------------------

#[derive(Debug, Clone, Copy, PartialEq, Eq, Structural)]
pub enum DeviceHealth {
    Healthy,
    Unhealthy,
}

/// A device that a plugin offers.
#[derive(Debug)]
pub struct Device {
    pub id: String,
    pub health: DeviceHealth,
    /// The NUMA node that is next to the device.
    pub numa_node: Option<u32>,
}

/// What a container gets along with its devices.
#[derive(Debug)]
pub struct AllocateResponse {
    pub envs: StrMap<String>,
    pub devices: Vec<DeviceSpec>,
    pub mounts: Vec<Mount>,
    pub annotations: StrMap<String>,
}

impl Default for AllocateResponse {
    fn default() -> (r: Self)
        ensures
            r.envs@ == Map::<Seq<char>, String>::empty(),
            r.devices@.len() == 0,
            r.mounts@.len() == 0,
            r.annotations@ == Map::<Seq<char>, String>::empty(),
    {
        AllocateResponse {
            envs: StrMap::new(),
            devices: Vec::new(),
            mounts: Vec::new(),
            annotations: StrMap::new(),
        }
    }
}

/// A device node of the host that a container sees.
#[derive(Debug)]
pub struct DeviceSpec {
    pub container_path: String,
    pub host_path: String,
    /// A combination of `r`, `w` and `m`.
    pub permissions: String,
}

/// A path of the host that a container sees.
#[derive(Debug)]
pub struct Mount {
    pub container_path: String,
    pub host_path: String,
    pub read_only: bool,
}

/// A device as a plugin reports it.
#[derive(Debug)]
pub struct ProtoDevice {
    pub id: String,
    pub health: String,
    /// The numbers of the NUMA nodes next to the device.
    pub topology: Option<Vec<i64>>,
}

/// What a plugin answers for one container.
#[derive(Debug)]
pub struct ProtoContainerAllocateResponse {
    pub envs: StrMap<String>,
    pub mounts: Vec<Mount>,
    pub devices: Vec<DeviceSpec>,
    pub annotations: StrMap<String>,
}

/// A reported device in the agent's own terms.
pub open spec fn device_is(p: ProtoDevice, d: Device) -> bool {
    &&& d.id == p.id
    &&& d.health == if equal_ignoring_case(p.health@, "healthy"@) {
        DeviceHealth::Healthy
    } else {
        DeviceHealth::Unhealthy
    }
    &&& d.numa_node == match p.topology {
        Some(nodes) => if nodes@.len() > 0 && 0 <= nodes@[0] <= u32::MAX {
            Some(nodes@[0] as u32)
        } else {
            None
        },
        None => None,
    }
}

/// Reads a device as a plugin reports it. Only the first NUMA node counts.
pub fn proto_device_to_local(device: ProtoDevice) -> (r: Device)
    ensures
        device_is(device, r),
{
    let health = if same_ignoring_case(device.health.as_str(), "healthy") {
        DeviceHealth::Healthy
    } else {
        DeviceHealth::Unhealthy
    };
    let numa_node: Option<u32> = match &device.topology {
        Some(nodes) => if nodes.len() > 0 && nodes[0] >= 0 && nodes[0] <= u32::MAX as i64 {
            Some(nodes[0] as u32)
        } else {
            None
        },
        None => None,
    };
    Device { id: device.id, health, numa_node }
}

/// Takes over what a plugin answers for one container.
pub fn proto_allocate_response_to_local(response: ProtoContainerAllocateResponse) -> (r:
    AllocateResponse)
    ensures
        r.envs == response.envs,
        r.devices == response.devices,
        r.mounts == response.mounts,
        r.annotations == response.annotations,
{
    AllocateResponse {
        envs: response.envs,
        devices: response.devices,
        mounts: response.mounts,
        annotations: response.annotations,
    }
}

/// The reported devices in the agent's own terms, in order.
pub open spec fn devices_are(p: Seq<ProtoDevice>, d: Seq<Device>) -> bool {
    p.len() == d.len() && forall|i: int| 0 <= i < p.len() ==> device_is(#[trigger] p[i], d[i])
}

fn read_devices(reported: Vec<ProtoDevice>) -> (r: Vec<Device>)
    ensures
        devices_are(reported@, r@),
{
    let ghost all = reported@;
    let mut rest = reported;
    let mut out: Vec<Device> = Vec::new();
    while rest.len() > 0
        invariant
            rest@.len() + out@.len() == all.len(),
            rest@ == all.skip(out@.len() as int),
            forall|i: int| 0 <= i < out@.len() ==> device_is(#[trigger] all[i], out@[i]),
        decreases rest@.len(),
    {
        let ghost n = out@.len() as int;
        let d = rest.remove(0);
        assert(d == all[n]);
        out.push(proto_device_to_local(d));
        assert(rest@ =~= all.skip(n + 1));
    }
    out
}

// ---------------------------------------------------------------------------
// The endpoint of a plugin
// ---------------------------------------------------------------------------

/// A registered plugin.
#[derive(Debug)]
pub struct PluginEndpoint {
    pub resource_name: String,
    pub socket_path: String,
    pub devices: Vec<Device>,
    /// The devices that each container holds.
    pub allocations: StrMap<Vec<String>>,
}

/// A plugin that was just registered.
pub open spec fn is_fresh(ep: PluginEndpoint, resource_name: Seq<char>, socket: Seq<char>) -> bool {
    &&& ep.resource_name@ == resource_name
    &&& ep.socket_path@ == socket
    &&& ep.devices@.len() == 0
    &&& ep.allocations@ == Map::<Seq<char>, Vec<String>>::empty()
}

/// Whether the container `k` holds the device `id`.
pub open spec fn holds_device(
    allocations: Map<Seq<char>, Vec<String>>,
    k: Seq<char>,
    id: Seq<char>,
) -> bool {
    allocations.contains_key(k) && texts(allocations[k]@).contains(id)
}

/// The devices that the container `k` holds, in order.
pub open spec fn held_by(allocations: Map<Seq<char>, Vec<String>>, k: Seq<char>) -> Seq<Seq<char>> {
    if allocations.contains_key(k) {
        texts(allocations[k]@)
    } else {
        Seq::empty()
    }
}

/// Those of `ids` that `gone` does not hold, in order.
pub open spec fn without(ids: Seq<Seq<char>>, gone: Seq<Seq<char>>) -> Seq<Seq<char>>
    decreases ids.len(),
{
    if ids.len() == 0 {
        Seq::empty()
    } else {
        let front = without(ids.drop_last(), gone);
        if gone.contains(ids.last()) {
            front
        } else {
            front.push(ids.last())
        }
    }
}

/// Whether some container holds the device `id`.
pub open spec fn is_allocated(allocations: Map<Seq<char>, Vec<String>>, id: Seq<char>) -> bool {
    exists|k: Seq<char>| #[trigger] holds_device(allocations, k, id)
}

/// How many devices are healthy.
pub open spec fn healthy(devices: Seq<Device>) -> nat
    decreases devices.len(),
{
    if devices.len() == 0 {
        0
    } else {
        healthy(devices.drop_last()) + if devices.last().health == DeviceHealth::Healthy {
            1nat
        } else {
            0
        }
    }
}

/// The devices that are healthy and that no container holds, in order.
pub open spec fn free_ids(
    devices: Seq<Device>,
    allocations: Map<Seq<char>, Vec<String>>,
) -> Seq<Seq<char>>
    decreases devices.len(),
{
    if devices.len() == 0 {
        Seq::empty()
    } else {
        let front = free_ids(devices.drop_last(), allocations);
        if devices.last().health == DeviceHealth::Healthy && !is_allocated(
            allocations,
            devices.last().id@,
        ) {
            front.push(devices.last().id@)
        } else {
            front
        }
    }
}

impl PluginEndpoint {
    pub fn new(resource_name: &str, socket_path: &str) -> (r: Self)
        ensures
            is_fresh(r, resource_name@, socket_path@),
    {
        PluginEndpoint {
            resource_name: resource_name.to_owned(),
            socket_path: socket_path.to_owned(),
            devices: Vec::new(),
            allocations: StrMap::new(),
        }
    }

    /// How many devices are healthy.
    pub fn healthy_count(&self) -> (r: usize)
        ensures
            r == healthy(self.devices@),
    {
        let mut n: usize = 0;
        let mut i: usize = 0;
        while i < self.devices.len()
            invariant
                n <= i <= self.devices@.len(),
                n == healthy(self.devices@.take(i as int)),
            decreases self.devices@.len() - i,
        {
            assert(self.devices@.take(i + 1).drop_last() =~= self.devices@.take(i as int));
            if self.devices[i].health == DeviceHealth::Healthy {
                n = n + 1;
            }
            i = i + 1;
        }
        assert(self.devices@.take(i as int) =~= self.devices@);
        n
    }

    fn allocated(&self, id: &str) -> (r: bool)
        ensures
            r == is_allocated(self.allocations@, id@),
    {
        let n: usize = self.allocations.len();
        let ghost pairs = self.allocations.pairs();
        let mut i: usize = 0;
        while i < n
            invariant
                i <= n == pairs.len(),
                pairs == self.allocations.pairs(),
                distinct_keys(pairs),
                forall|k: int| 0 <= k < i ==> !texts((#[trigger] pairs[k]).1@).contains(id@),
            decreases n - i,
        {
            if holds(self.allocations.value_at(i), id) {
                proof {
                    lemma_map_of_value(pairs, i as int);
                    assert(holds_device(self.allocations@, pairs[i as int].0, id@));
                }
                return true;
            }
            i = i + 1;
        }
        proof {
            if is_allocated(self.allocations@, id@) {
                let k = choose|k: Seq<char>| #[trigger] holds_device(self.allocations@, k, id@);
                lemma_map_of_dom(pairs, k);
                let j = choose|j: int| 0 <= j < pairs.len() && (#[trigger] pairs[j]).0 == k;
                lemma_map_of_value(pairs, j);
                assert(!texts(pairs[j].1@).contains(id@));
            }
        }
        false
    }

    fn free_devices(&self) -> (r: Vec<String>)
        ensures
            texts(r@) == free_ids(self.devices@, self.allocations@),
    {
        let mut out: Vec<String> = Vec::new();
        let mut i: usize = 0;
        assert(texts(out@) =~= free_ids(self.devices@.take(0), self.allocations@));
        while i < self.devices.len()
            invariant
                i <= self.devices@.len(),
                texts(out@) == free_ids(self.devices@.take(i as int), self.allocations@),
            decreases self.devices@.len() - i,
        {
            let ghost before = out@;
            let d = &self.devices[i];
            assert(self.devices@.take(i + 1).drop_last() =~= self.devices@.take(i as int));
            if d.health == DeviceHealth::Healthy && !self.allocated(d.id.as_str()) {
                out.push(d.id.clone());
                assert(texts(out@) =~= texts(before).push(d.id@));
            }
            i = i + 1;
        }
        assert(self.devices@.take(i as int) =~= self.devices@);
        out
    }

    /// How many devices can still be given to containers.
    pub fn available_count(&self) -> (r: usize)
        ensures
            r == free_ids(self.devices@, self.allocations@).len(),
    {
        let free = self.free_devices();
        assert(texts(free@).len() == free@.len());
        free.len()
    }

    /// Picks the first `count` devices that can be given to containers; none
    /// where there are fewer.
    pub fn allocate_devices(&self, count: usize) -> (r: Option<Vec<String>>)
        ensures
            match r {
                Some(ids) => free_ids(self.devices@, self.allocations@).len() >= count && texts(
                    ids@,
                ) == free_ids(self.devices@, self.allocations@).take(count as int),
                None => free_ids(self.devices@, self.allocations@).len() < count,
            },
    {
        let mut free = self.free_devices();
        assert(texts(free@).len() == free@.len());
        if free.len() < count {
            return None;
        }
        let ghost all = free@;
        free.truncate(count);
        assert(texts(free@) =~= texts(all).take(count as int));
        Some(free)
    }

    /// What a call for allocation brings: the first answer, or an error where
    /// the call failed or brought none.
    pub fn call_allocate(
        &self,
        reply: Result<Vec<ProtoContainerAllocateResponse>, String>,
    ) -> (r: Result<AllocateResponse, KubeletError>)
        ensures
            allocation_reply(self.resource_name@, reply, r),
    {
        match reply {
            Ok(answers) => {
                let mut answers = answers;
                if answers.len() == 0 {
                    return Err(
                        KubeletError::Resource(
                            cat3(
                                "device plugin '",
                                self.resource_name.as_str(),
                                "' returned no container allocation response",
                            ),
                        ),
                    );
                }
                Ok(proto_allocate_response_to_local(answers.remove(0)))
            },
            Err(e) => Err(
                KubeletError::Resource(cat2("device plugin Allocate RPC failed: ", e.as_str())),
            ),
        }
    }

    /// The devices of the first report of a plugin.
    pub fn list_and_watch_once(&self, reply: ListReply) -> (r: Result<Vec<Device>, KubeletError>)
        ensures
            list_reply(self.resource_name@, reply, r),
    {
        match reply {
            ListReply::CallFailed(e) => Err(
                KubeletError::Resource(cat2("device plugin ListAndWatch RPC failed: ", e.as_str())),
            ),
            ListReply::StreamFailed(e) => Err(
                KubeletError::Resource(
                    cat2("device plugin ListAndWatch stream failed: ", e.as_str()),
                ),
            ),
            ListReply::Ended => Err(
                KubeletError::Resource(
                    cat3(
                        "device plugin '",
                        self.resource_name.as_str(),
                        "' closed ListAndWatch without publishing devices",
                    ),
                ),
            ),
            ListReply::Update(devices) => Ok(read_devices(devices)),
        }
    }
}

/// What the first read of a device report stream brought.
#[derive(Debug)]
pub enum ListReply {
    CallFailed(String),
    StreamFailed(String),
    Ended,
    Update(Vec<ProtoDevice>),
}

pub open spec fn allocation_reply(
    resource: Seq<char>,
    reply: Result<Vec<ProtoContainerAllocateResponse>, String>,
    r: Result<AllocateResponse, KubeletError>,
) -> bool {
    match reply {
        Ok(answers) => if answers@.len() > 0 {
            r matches Ok(a) && a.envs == answers@[0].envs && a.devices == answers@[0].devices
                && a.mounts == answers@[0].mounts && a.annotations == answers@[0].annotations
        } else {
            r matches Err(KubeletError::Resource(m)) && m@ == "device plugin '"@ + resource
                + "' returned no container allocation response"@
        },
        Err(e) => r matches Err(KubeletError::Resource(m)) && m@
            == "device plugin Allocate RPC failed: "@ + e@,
    }
}

pub open spec fn list_reply(
    resource: Seq<char>,
    reply: ListReply,
    r: Result<Vec<Device>, KubeletError>,
) -> bool {
    match reply {
        ListReply::CallFailed(e) => r matches Err(KubeletError::Resource(m)) && m@
            == "device plugin ListAndWatch RPC failed: "@ + e@,
        ListReply::StreamFailed(e) => r matches Err(KubeletError::Resource(m)) && m@
            == "device plugin ListAndWatch stream failed: "@ + e@,
        ListReply::Ended => r matches Err(KubeletError::Resource(m)) && m@ == "device plugin '"@
            + resource + "' closed ListAndWatch without publishing devices"@,
        ListReply::Update(devices) => r matches Ok(d) && devices_are(devices@, d@),
    }
}

// ---------------------------------------------------------------------------
// The manager
// ---------------------------------------------------------------------------

/// Devices that a container of a pod was given.
#[derive(Debug)]
pub struct DeviceGrant {
    pub container_name: String,
    pub resource_name: String,
    pub device_ids: Vec<String>,
}

/// Devices that were set aside for a container and are to be asked of the
/// plugin.
#[derive(Debug)]
pub struct PendingAllocation {
    pub socket_path: String,
    pub device_ids: Vec<String>,
}

/// What a device report stream brought next.
#[derive(Debug)]
pub enum WatchEvent {
    Update(Vec<ProtoDevice>),
    Ended,
    Failed(String),
}

/// Keeps the registered plugins and what they gave to containers.
#[derive(Debug)]
pub struct DeviceManager {
    pub plugins: StrMap<PluginEndpoint>,
    pub socket_dir: String,
    /// What the containers of each pod were given.
    pub pod_allocations: StrMap<Vec<DeviceGrant>>,
}

/// Under which name a plugin keeps what a container holds.
pub open spec fn allocation_key_of(pod: Seq<char>, container: Seq<char>) -> Seq<char> {
    pod + ":"@ + container
}

fn allocation_key(pod_uid: &PodUID, container_name: &str) -> (r: String)
    ensures
        r@ == allocation_key_of(pod_uid.0@, container_name@),
{
    cat3(pod_uid.0.as_str(), ":", container_name)
}

pub open spec fn no_plugin_text(resource: Seq<char>) -> Seq<char> {
    "no device plugin for resource '"@ + resource + "'"@
}

fn no_plugin(resource_name: &str) -> (r: KubeletError)
    ensures
        r matches KubeletError::Resource(m) && m@ == no_plugin_text(resource_name@),
{
    KubeletError::Resource(cat3("no device plugin for resource '", resource_name, "'"))
}

/// The same plugin but for what containers hold.
pub open spec fn same_plugin(a: PluginEndpoint, b: PluginEndpoint) -> bool {
    &&& a.resource_name == b.resource_name
    &&& a.socket_path == b.socket_path
    &&& a.devices == b.devices
}

/// The resource whose plugin listens on a socket, by the socket's name:
/// the part before the first hyphen is the domain.
pub open spec fn resource_of_socket(path: Seq<char>) -> Option<Seq<char>> {
    if path_extension(path) != Some("sock"@) {
        None
    } else {
        match file_stem_of(path) {
            Some(stem) => {
                let i = first_index(stem, '-') as int;
                if i < stem.len() {
                    Some(stem.take(i) + "/"@ + stem.skip(i + 1))
                } else {
                    None
                }
            },
            None => None,
        }
    }
}

/// The last of `paths` that is the socket of `resource`.
pub open spec fn socket_for(paths: Seq<Seq<char>>, resource: Seq<char>) -> Option<Seq<char>>
    decreases paths.len(),
{
    if paths.len() == 0 {
        None
    } else if resource_of_socket(paths.last()) == Some(resource) {
        Some(paths.last())
    } else {
        socket_for(paths.drop_last(), resource)
    }
}

/// Whether `path` is a socket of `resource` other than the one under which its
/// plugin is registered.
pub open spec fn is_new_socket(
    plugins: Map<Seq<char>, PluginEndpoint>,
    path: Seq<char>,
    resource: Seq<char>,
) -> bool {
    resource_of_socket(path) == Some(resource) && !(plugins.contains_key(resource)
        && plugins[resource].socket_path@ == path)
}

/// Whether there is a new socket of `resource` among `paths`.
pub open spec fn finds_new_socket(
    plugins: Map<Seq<char>, PluginEndpoint>,
    paths: Seq<Seq<char>>,
    resource: Seq<char>,
) -> bool
    decreases paths.len(),
{
    if paths.len() == 0 {
        false
    } else {
        is_new_socket(plugins, paths.last(), resource) || finds_new_socket(
            plugins,
            paths.drop_last(),
            resource,
        )
    }
}

/// The plugins of `after` are those of `before`, with those whose new sockets
/// are among `paths` registered anew.
pub open spec fn registered_anew(
    before: Map<Seq<char>, PluginEndpoint>,
    paths: Seq<Seq<char>>,
    after: Map<Seq<char>, PluginEndpoint>,
) -> bool {
    forall|k: Seq<char>|
        if finds_new_socket(before, paths, k) {
            (#[trigger] after.contains_key(k)) && socket_for(paths, k) is Some && is_fresh(
                after[k],
                k,
                socket_for(paths, k)->0,
            )
        } else {
            after.contains_key(k) == before.contains_key(k) && (before.contains_key(k) ==> after[k]
                == before[k])
        }
}

/// A registration: a resource and the socket of its plugin.
pub type Registration = (Seq<char>, Seq<char>);

/// The registrations that a list of pairs denotes.
pub open spec fn registration_list(v: Seq<(String, String)>) -> Seq<Registration> {
    v.map_values(|p: (String, String)| (p.0@, p.1@))
}

/// The sockets under which plugins are registered.
pub open spec fn sockets_of(plugins: Map<Seq<char>, PluginEndpoint>) -> Map<Seq<char>, Seq<char>> {
    plugins.map_values(|e: PluginEndpoint| e.socket_path@)
}

/// The sockets after some registrations, one after the other.
pub open spec fn sockets_after(
    sockets: Map<Seq<char>, Seq<char>>,
    list: Seq<Registration>,
) -> Map<Seq<char>, Seq<char>>
    decreases list.len(),
{
    if list.len() == 0 {
        sockets
    } else {
        sockets_after(sockets, list.drop_last()).insert(list.last().0, list.last().1)
    }
}

/// The registrations that a scan of `paths` makes, in their order: each socket
/// of a resource, unless the resource is registered with it by then.
pub open spec fn scan_registrations(
    sockets: Map<Seq<char>, Seq<char>>,
    paths: Seq<Seq<char>>,
) -> Seq<Registration>
    decreases paths.len(),
{
    if paths.len() == 0 {
        Seq::empty()
    } else {
        let front = scan_registrations(sockets, paths.drop_last());
        let then = sockets_after(sockets, front);
        match resource_of_socket(paths.last()) {
            Some(k) => if then.contains_key(k) && then[k] == paths.last() {
                front
            } else {
                front.push((k, paths.last()))
            },
            None => front,
        }
    }
}

/// The remembered registrations whose sockets are among `present`.
pub open spec fn present_registrations(
    entries: Seq<(Seq<char>, String)>,
    present: Seq<Seq<char>>,
) -> Seq<Registration>
    decreases entries.len(),
{
    if entries.len() == 0 {
        Seq::empty()
    } else {
        let front = present_registrations(entries.drop_last(), present);
        if present.contains(entries.last().1@) {
            front.push((entries.last().0, entries.last().1@))
        } else {
            front
        }
    }
}

fn socket_resource(path: &str) -> (r: Option<String>)
    ensures
        opt_text(r) == resource_of_socket(path@),
{
    let is_socket = match extension(path) {
        Some(e) => same(e.as_str(), "sock"),
        None => false,
    };
    if !is_socket {
        return None;
    }
    match file_stem(path) {
        Some(stem) => {
            let v = chars_of(stem.as_str());
            let i: usize = find_from(&v, 0, '-');
            assert(v@.skip(0) =~= v@);
            if i >= v.len() {
                return None;
            }
            let domain = string_of(&v, 0, i);
            let resource = string_of(&v, i + 1, v.len());
            assert(v@.subrange(0, i as int) =~= v@.take(i as int));
            assert(v@.subrange(i + 1, v@.len() as int) =~= v@.skip(i + 1));
            Some(cat3(domain.as_str(), "/", resource.as_str()))
        },
        None => None,
    }
}

// ---------------------------------------------------------------------------
// Release
// ---------------------------------------------------------------------------

/// Whether a grant is one of devices of `resource` to the container `key`.
pub open spec fn grant_of(
    g: DeviceGrant,
    pod: Seq<char>,
    resource: Seq<char>,
    key: Seq<char>,
) -> bool {
    g.resource_name@ == resource && allocation_key_of(pod, g.container_name@) == key
}

/// Whether some grant is one of devices of `resource` to the container `key`.
pub open spec fn touched(
    grants: Seq<DeviceGrant>,
    pod: Seq<char>,
    resource: Seq<char>,
    key: Seq<char>,
) -> bool {
    exists|i: int|
        0 <= i < grants.len() && grant_of(#[trigger] grants[i], pod, resource, key)
}

/// Whether some grant gave the device `id` of `resource` to the container `key`.
pub open spec fn released(
    grants: Seq<DeviceGrant>,
    pod: Seq<char>,
    resource: Seq<char>,
    key: Seq<char>,
    id: Seq<char>,
) -> bool {
    exists|i: int|
        0 <= i < grants.len() && grant_of(#[trigger] grants[i], pod, resource, key) && texts(
            grants[i].device_ids@,
        ).contains(id)
}

/// The devices that are left of `ids` after the grants are taken back.
pub open spec fn left(
    grants: Seq<DeviceGrant>,
    pod: Seq<char>,
    resource: Seq<char>,
    key: Seq<char>,
    ids: Seq<Seq<char>>,
) -> Seq<Seq<char>>
    decreases ids.len(),
{
    if ids.len() == 0 {
        Seq::empty()
    } else {
        let front = left(grants, pod, resource, key, ids.drop_last());
        if released(grants, pod, resource, key, ids.last()) {
            front
        } else {
            front.push(ids.last())
        }
    }
}

/// What containers hold after the grants are taken back: a container that is
/// left with nothing is forgotten.
pub open spec fn after_release(
    grants: Seq<DeviceGrant>,
    pod: Seq<char>,
    resource: Seq<char>,
    before: Map<Seq<char>, Vec<String>>,
    after: Map<Seq<char>, Vec<String>>,
) -> bool {
    forall|key: Seq<char>|
        {
            let rest = left(grants, pod, resource, key, texts(before[key]@));
            if !before.contains_key(key) {
                !(#[trigger] after.contains_key(key))
            } else if touched(grants, pod, resource, key) && rest.len() == 0 {
                !after.contains_key(key)
            } else {
                after.contains_key(key) && texts(after[key]@) == rest
            }
        }
}

proof fn lemma_left_none(
    grants: Seq<DeviceGrant>,
    pod: Seq<char>,
    resource: Seq<char>,
    key: Seq<char>,
    ids: Seq<Seq<char>>,
)
    requires
        !touched(grants, pod, resource, key),
    ensures
        left(grants, pod, resource, key, ids) == ids,
    decreases ids.len(),
{
    if ids.len() > 0 {
        lemma_left_none(grants, pod, resource, key, ids.drop_last());
        assert(ids.drop_last().push(ids.last()) =~= ids);
    }
}

/// Taking back one more grant leaves what is left of what was left.
proof fn lemma_left_step(
    grants: Seq<DeviceGrant>,
    pod: Seq<char>,
    resource: Seq<char>,
    key: Seq<char>,
    ids: Seq<Seq<char>>,
)
    requires
        grants.len() > 0,
    ensures
        left(grants, pod, resource, key, ids) == left(
            seq![grants.last()],
            pod,
            resource,
            key,
            left(grants.drop_last(), pod, resource, key, ids),
        ),
    decreases ids.len(),
{
    let front = grants.drop_last();
    let one = seq![grants.last()];
    if ids.len() > 0 {
        lemma_left_step(grants, pod, resource, key, ids.drop_last());
        let id = ids.last();
        lemma_released_step(grants, pod, resource, key, id);
        let l = left(front, pod, resource, key, ids.drop_last());
        if !released(front, pod, resource, key, id) {
            assert(l.push(id).drop_last() =~= l);
        }
    }
}

proof fn lemma_released_step(
    grants: Seq<DeviceGrant>,
    pod: Seq<char>,
    resource: Seq<char>,
    key: Seq<char>,
    id: Seq<char>,
)
    requires
        grants.len() > 0,
    ensures
        released(grants, pod, resource, key, id) == (released(
            grants.drop_last(),
            pod,
            resource,
            key,
            id,
        ) || released(seq![grants.last()], pod, resource, key, id)),
        touched(grants, pod, resource, key) == (touched(grants.drop_last(), pod, resource, key)
            || touched(seq![grants.last()], pod, resource, key)),
{
    let front = grants.drop_last();
    let one = seq![grants.last()];
    assert(one[0] == grants[grants.len() - 1]);
    if released(grants, pod, resource, key, id) {
        let i = choose|i: int|
            0 <= i < grants.len() && grant_of(#[trigger] grants[i], pod, resource, key) && texts(
                grants[i].device_ids@,
            ).contains(id);
        if i < grants.len() - 1 {
            assert(front[i] == grants[i]);
        } else {
            assert(one[0] == grants[i]);
        }
    }
    if released(front, pod, resource, key, id) {
        let i = choose|i: int|
            0 <= i < front.len() && grant_of(#[trigger] front[i], pod, resource, key) && texts(
                front[i].device_ids@,
            ).contains(id);
        assert(grants[i] == front[i]);
    }
    if touched(grants, pod, resource, key) {
        let i = choose|i: int|
            0 <= i < grants.len() && grant_of(#[trigger] grants[i], pod, resource, key);
        if i < grants.len() - 1 {
            assert(front[i] == grants[i]);
        } else {
            assert(one[0] == grants[i]);
        }
    }
    if touched(front, pod, resource, key) {
        let i = choose|i: int|
            0 <= i < front.len() && grant_of(#[trigger] front[i], pod, resource, key);
        assert(grants[i] == front[i]);
    }
}

proof fn lemma_after_release_step(
    grants: Seq<DeviceGrant>,
    pod: Seq<char>,
    resource: Seq<char>,
    before: Map<Seq<char>, Vec<String>>,
    mid: Map<Seq<char>, Vec<String>>,
    after: Map<Seq<char>, Vec<String>>,
)
    requires
        grants.len() > 0,
        after_release(grants.drop_last(), pod, resource, before, mid),
        after_release(seq![grants.last()], pod, resource, mid, after),
    ensures
        after_release(grants, pod, resource, before, after),
{
    let front = grants.drop_last();
    let one = seq![grants.last()];
    assert forall|key: Seq<char>|
        {
            let rest = left(grants, pod, resource, key, texts(before[key]@));
            if !before.contains_key(key) {
                !(#[trigger] after.contains_key(key))
            } else if touched(grants, pod, resource, key) && rest.len() == 0 {
                !after.contains_key(key)
            } else {
                after.contains_key(key) && texts(after[key]@) == rest
            }
        } by {
        let ids = texts(before[key]@);
        assert(mid.contains_key(key) || !mid.contains_key(key));
        lemma_left_step(grants, pod, resource, key, ids);
        lemma_released_step(grants, pod, resource, key, Seq::empty());
        if before.contains_key(key) && !mid.contains_key(key) {
            assert(left(front, pod, resource, key, ids).len() == 0);
        }
    }
}

/// Keeps of `ids` those that `gone` does not hold.
fn without_ids(ids: &Vec<String>, gone: &Vec<String>) -> (r: Vec<String>)
    ensures
        texts(r@) == without(texts(ids@), texts(gone@)),
{
    let mut out: Vec<String> = Vec::new();
    let mut i: usize = 0;
    assert(texts(out@) =~= without(texts(ids@).take(0), texts(gone@)));
    while i < ids.len()
        invariant
            i <= ids@.len(),
            texts(out@) == without(texts(ids@).take(i as int), texts(gone@)),
        decreases ids@.len() - i,
    {
        let ghost before = out@;
        assert(texts(ids@).take(i + 1).drop_last() =~= texts(ids@).take(i as int));
        if !holds(gone, ids[i].as_str()) {
            out.push(ids[i].clone());
            assert(texts(out@) =~= texts(before).push(ids@[i as int]@));
        }
        i = i + 1;
    }
    assert(texts(ids@).take(i as int) =~= texts(ids@));
    out
}

/// What one grant leaves of the devices of its own container.
proof fn lemma_left_one(g: DeviceGrant, pod: Seq<char>, ids: Seq<Seq<char>>)
    ensures
        left(
            seq![g],
            pod,
            g.resource_name@,
            allocation_key_of(pod, g.container_name@),
            ids,
        ) == without(ids, texts(g.device_ids@)),
    decreases ids.len(),
{
    if ids.len() > 0 {
        lemma_left_one(g, pod, ids.drop_last());
        assert(seq![g][0] == g);
    }
}

/// Every plugin holds after the grants are taken back what is left of what it
/// held; nothing else of it changes.
pub open spec fn plugins_after_release(
    grants: Seq<DeviceGrant>,
    pod: Seq<char>,
    before: Map<Seq<char>, PluginEndpoint>,
    after: Map<Seq<char>, PluginEndpoint>,
) -> bool {
    &&& after.dom() == before.dom()
    &&& forall|r: Seq<char>| #[trigger]
        before.contains_key(r) ==> same_plugin(before[r], after[r]) && after_release(
            grants,
            pod,
            r,
            before[r].allocations@,
            after[r].allocations@,
        )
}

impl DeviceManager {
    /// A manager of the plugins whose sockets are in `socket_dir`.
    pub fn new(socket_dir: &str) -> (r: Self)
        ensures
            r.plugins@ == Map::<Seq<char>, PluginEndpoint>::empty(),
            r.socket_dir@ == socket_dir@,
            r.pod_allocations@ == Map::<Seq<char>, Vec<DeviceGrant>>::empty(),
    {
        DeviceManager {
            plugins: StrMap::new(),
            socket_dir: socket_dir.to_owned(),
            pod_allocations: StrMap::new(),
        }
    }

    /// The file that remembers the registered plugins.
    pub fn registry_checkpoint_path(&self) -> (r: String)
        ensures
            r@ == path_join(self.socket_dir@, "device_plugin_registry.json"@),
    {
        join_path(self.socket_dir.as_str(), "device_plugin_registry.json")
    }

    /// Registers the plugin of a resource. One that was registered before is
    /// forgotten, with its devices and what containers hold of them.
    pub fn register_plugin(&mut self, resource_name: &str, socket_path: &str)
        ensures
            final(self).plugins@.contains_key(resource_name@),
            is_fresh(final(self).plugins@[resource_name@], resource_name@, socket_path@),
            final(self).plugins@ == old(self).plugins@.insert(
                resource_name@,
                final(self).plugins@[resource_name@],
            ),
            final(self).socket_dir == old(self).socket_dir,
            final(self).pod_allocations == old(self).pod_allocations,
    {
        let ep = PluginEndpoint::new(resource_name, socket_path);
        self.plugins.insert(resource_name.to_owned(), ep);
    }

    /// Registers the remembered plugins whose sockets are still there, and tells
    /// which they are.
    pub fn rediscover_plugins(&mut self, entries: &StrMap<String>, present: &Vec<String>) -> (r:
        Vec<(String, String)>)
        ensures
            registration_list(r@) == present_registrations(entries.pairs(), texts(present@)),
            forall|k: Seq<char>|
                if entries@.contains_key(k) && texts(present@).contains(entries@[k]@) {
                    (#[trigger] final(self).plugins@.contains_key(k)) && is_fresh(
                        final(self).plugins@[k],
                        k,
                        entries@[k]@,
                    )
                } else {
                    final(self).plugins@.contains_key(k) == old(self).plugins@.contains_key(k) && (
                    old(self).plugins@.contains_key(k) ==> final(self).plugins@[k] == old(self).plugins@[k])
                },
            final(self).socket_dir == old(self).socket_dir,
            final(self).pod_allocations == old(self).pod_allocations,
    {
        let ghost start = self.plugins@;
        let n: usize = entries.len();
        let ghost pairs = entries.pairs();
        let mut out: Vec<(String, String)> = Vec::new();
        let mut i: usize = 0;
        assert(registration_list(out@) =~= present_registrations(pairs.take(0), texts(present@)));
        while i < n
            invariant
                i <= n == pairs.len(),
                registration_list(out@) == present_registrations(
                    pairs.take(i as int),
                    texts(present@),
                ),
                pairs == entries.pairs(),
                distinct_keys(pairs),
                self.socket_dir == old(self).socket_dir,
                self.pod_allocations == old(self).pod_allocations,
                forall|k: Seq<char>|
                    if map_of(pairs.take(i as int)).contains_key(k) && texts(present@).contains(
                        map_of(pairs.take(i as int))[k]@,
                    ) {
                        (#[trigger] self.plugins@.contains_key(k)) && is_fresh(
                            self.plugins@[k],
                            k,
                            map_of(pairs.take(i as int))[k]@,
                        )
                    } else {
                        self.plugins@.contains_key(k) == start.contains_key(k) && (
                        start.contains_key(k) ==> self.plugins@[k] == start[k])
                    },
            decreases n - i,
        {
            let ghost before = self.plugins@;
            let ghost front = pairs.take(i as int);
            let name = entries.key_at(i);
            let path = entries.value_at(i);
            proof {
                assert(pairs.take(i + 1).drop_last() =~= front);
                lemma_map_of_dom(front, name@);
                assert forall|j: int| 0 <= j < i implies (#[trigger] front[j]).0 != name@ by {
                    assert(pairs[j].0 != pairs[i as int].0);
                }
                assert(!map_of(front).contains_key(name@));
                assert(before.contains_key(name@) == start.contains_key(name@));
            }
            if holds(present, path.as_str()) {
                self.register_plugin(name.as_str(), path.as_str());
                let ghost list = registration_list(out@);
                out.push((name.clone(), path.clone()));
                assert(registration_list(out@) =~= list.push((name@, path@)));
            }
            proof {
                let next = map_of(pairs.take(i + 1));
                assert(next == map_of(front).insert(name@, *path));
                assert forall|k: Seq<char>|
                    if next.contains_key(k) && texts(present@).contains(next[k]@) {
                        (#[trigger] self.plugins@.contains_key(k)) && is_fresh(
                            self.plugins@[k],
                            k,
                            next[k]@,
                        )
                    } else {
                        self.plugins@.contains_key(k) == start.contains_key(k) && (
                        start.contains_key(k) ==> self.plugins@[k] == start[k])
                    } by {
                    assert(before.contains_key(k) || !before.contains_key(k));
                    if k != name@ {
                        assert(next.contains_key(k) == map_of(front).contains_key(k));
                    }
                }
            }
            i = i + 1;
        }
        assert(pairs.take(i as int) =~= pairs);
        out
    }

    /// Registers the plugins whose new sockets are among `paths`. A plugin that
    /// is registered with its socket already stays as it is, with its devices
    /// and what containers hold of them; other files are passed over. Tells
    /// which plugins were registered.
    pub fn scan_and_register(&mut self, paths: &Vec<String>) -> (r: Vec<(String, String)>)
        ensures
            registration_list(r@) == scan_registrations(
                sockets_of(old(self).plugins@),
                texts(paths@),
            ),
            registered_anew(old(self).plugins@, texts(paths@), final(self).plugins@),
            final(self).socket_dir == old(self).socket_dir,
            final(self).pod_allocations == old(self).pod_allocations,
    {
        let ghost start = self.plugins@;
        let ghost sockets = sockets_of(start);
        let mut out: Vec<(String, String)> = Vec::new();
        let mut i: usize = 0;
        assert(registration_list(out@) =~= Seq::<Registration>::empty());
        while i < paths.len()
            invariant
                i <= paths@.len(),
                registration_list(out@) == scan_registrations(
                    sockets,
                    texts(paths@).take(i as int),
                ),
                sockets_of(self.plugins@) == sockets_after(sockets, registration_list(out@)),
                self.socket_dir == old(self).socket_dir,
                self.pod_allocations == old(self).pod_allocations,
                registered_anew(start, texts(paths@).take(i as int), self.plugins@),
            decreases paths@.len() - i,
        {
            let ghost before = self.plugins@;
            let ghost seen = texts(paths@).take(i as int);
            let ghost next = texts(paths@).take(i + 1);
            let path = paths[i].as_str();
            assert(next.drop_last() =~= seen);
            assert(next.last() == path@);
            let name = socket_resource(path);
            if let Some(name) = &name {
                let known = match self.plugins.get(name.as_str()) {
                    Some(ep) => same(ep.socket_path.as_str(), path),
                    None => false,
                };
                assert(known == (sockets_of(before).contains_key(name@) && sockets_of(
                    before,
                )[name@] == path@));
                if !known {
                    let ghost list = registration_list(out@);
                    self.register_plugin(name.as_str(), path);
                    out.push((name.clone(), path.to_owned()));
                    proof {
                        assert(registration_list(out@) =~= list.push((name@, path@)));
                        assert(registration_list(out@).drop_last() =~= list);
                        assert(sockets_of(self.plugins@) =~= sockets_of(before).insert(
                            name@,
                            path@,
                        ));
                    }
                }
            }
            proof {
                assert forall|k: Seq<char>|
                    if finds_new_socket(start, next, k) {
                        (#[trigger] self.plugins@.contains_key(k)) && socket_for(next, k) is Some
                            && is_fresh(self.plugins@[k], k, socket_for(next, k)->0)
                    } else {
                        self.plugins@.contains_key(k) == start.contains_key(k) && (
                        start.contains_key(k) ==> self.plugins@[k] == start[k])
                    } by {
                    assert(before.contains_key(k) || !before.contains_key(k));
                    let hit = resource_of_socket(path@) == Some(k);
                    assert(socket_for(next, k) == if hit {
                        Some(path@)
                    } else {
                        socket_for(seen, k)
                    });
                    assert(finds_new_socket(start, next, k) == (is_new_socket(start, path@, k)
                        || finds_new_socket(start, seen, k)));
                    if hit {
                        assert(name is Some && name->0@ == k);
                    } else {
                        assert(self.plugins@.contains_key(k) == before.contains_key(k));
                    }
                }
            }
            i = i + 1;
        }
        assert(texts(paths@).take(i as int) =~= texts(paths@));
        out
    }

    /// Takes over a report of the devices of a resource; one for a resource
    /// without plugin is ignored.
    pub fn update_devices(&mut self, resource_name: &str, devices: Vec<Device>)
        ensures
            if old(self).plugins@.contains_key(resource_name@) {
                final(self).plugins@ == old(self).plugins@.insert(
                    resource_name@,
                    PluginEndpoint { devices, ..old(self).plugins@[resource_name@] },
                )
            } else {
                final(self).plugins@ == old(self).plugins@
            },
            final(self).socket_dir == old(self).socket_dir,
            final(self).pod_allocations == old(self).pod_allocations,
    {
        let ghost before = self.plugins@;
        if let Some(ep) = self.plugins.remove(resource_name) {
            let next = PluginEndpoint {
                resource_name: ep.resource_name,
                socket_path: ep.socket_path,
                devices,
                allocations: ep.allocations,
            };
            self.plugins.insert(resource_name.to_owned(), next);
            assert(self.plugins@ =~= before.insert(resource_name@, next));
        } else {
            assert(self.plugins@ =~= before);
        }
    }

    /// Takes over what a device report stream brought and says whether to read
    /// on: not after its end, nor for a plugin that is gone.
    pub fn watch_step(&mut self, resource_name: &str, event: WatchEvent) -> (r: bool)
        ensures
            final(self).socket_dir == old(self).socket_dir,
            final(self).pod_allocations == old(self).pod_allocations,
            r == (event is Update && old(self).plugins@.contains_key(resource_name@)),
            match event {
                WatchEvent::Update(reported) => if r {
                    exists|devices: Vec<Device>| #[trigger]
                        devices_are(reported@, devices@) && final(self).plugins@ == old(self).plugins@.insert(
                            resource_name@,
                            PluginEndpoint { devices, ..old(self).plugins@[resource_name@] },
                        )
                } else {
                    final(self).plugins@ == old(self).plugins@
                },
                _ => final(self).plugins@ == old(self).plugins@,
            },
    {
        match event {
            WatchEvent::Update(reported) => {
                let devices = read_devices(reported);
                let known = self.plugins.contains_key(resource_name);
                self.update_devices(resource_name, devices);
                known
            },
            _ => false,
        }
    }

    /// Sets devices of a resource aside for a container: the first free ones,
    /// beside those that it holds already.
    /// They are to be asked of the plugin, and `finish_allocation` takes its
    /// answer.
    pub fn allocate(
        &mut self,
        pod_uid: &PodUID,
        container_name: &str,
        resource_name: &str,
        count: usize,
    ) -> (r: Result<PendingAllocation, KubeletError>)
        ensures
            final(self).socket_dir == old(self).socket_dir,
            final(self).pod_allocations == old(self).pod_allocations,
            if !old(self).plugins@.contains_key(resource_name@) {
                r matches Err(KubeletError::Resource(m)) && m@ == no_plugin_text(resource_name@)
                    && final(self).plugins@ == old(self).plugins@
            } else {
                let ep = old(self).plugins@[resource_name@];
                let free = free_ids(ep.devices@, ep.allocations@);
                if free.len() < count {
                    r matches Err(KubeletError::Resource(m)) && m@ == "not enough '"@
                        + resource_name@ + "' devices: need "@ + dec(count as nat)
                        + ", available "@ + dec(free.len()) && final(self).plugins@ == old(self).plugins@
                } else {
                    r matches Ok(p) && p.socket_path == ep.socket_path && texts(p.device_ids@)
                        == free.take(count as int) && set_aside(
                        *old(self),
                        resource_name@,
                        allocation_key_of(pod_uid.0@, container_name@),
                        p.device_ids@,
                        *final(self),
                    )
                }
            },
    {
        let ghost before = self.plugins@;
        let key = allocation_key(pod_uid, container_name);
        match self.plugins.get(resource_name) {
            None => {
                return Err(no_plugin(resource_name));
            },
            Some(ep) => {
                let picked = ep.allocate_devices(count);
                match picked {
                    None => {
                        let n = decimal(count as u64);
                        let a = decimal(ep.available_count() as u64);
                        let head = cat3("not enough '", resource_name, "' devices: need ");
                        return Err(
                            KubeletError::Resource(
                                crate::text::cat4(
                                    head.as_str(),
                                    n.as_str(),
                                    ", available ",
                                    a.as_str(),
                                ),
                            ),
                        );
                    },
                    Some(device_ids) => {
                        let socket_path = ep.socket_path.clone();
                        let mut taken = copy_strings(&device_ids);
                        if let Some(mut ep) = self.plugins.remove(resource_name) {
                            let ghost all = ep.allocations@;
                            let mut held = match ep.allocations.remove(key.as_str()) {
                                Some(h) => h,
                                None => Vec::new(),
                            };
                            let ghost had = held@;
                            held.append(&mut taken);
                            assert(texts(held@) =~= texts(had) + texts(device_ids@));
                            assert(texts(had) =~= held_by(all, key@));
                            ep.allocations.insert(key, held);
                            assert(ep.allocations@ =~= all.insert(key@, held));
                            self.plugins.insert(resource_name.to_owned(), ep);
                            assert(self.plugins@ =~= before.insert(resource_name@, ep));
                        }
                        Ok(PendingAllocation { socket_path, device_ids })
                    },
                }
            },
        }
    }

    /// Takes the plugin's answer to an allocation: a failed one frees what was
    /// set aside for it, a successful one is remembered with the pod.
    pub fn finish_allocation(
        &mut self,
        pod_uid: &PodUID,
        container_name: &str,
        resource_name: &str,
        device_ids: Vec<String>,
        outcome: Result<AllocateResponse, KubeletError>,
    ) -> (r: Result<AllocateResponse, KubeletError>)
        ensures
            r == outcome,
            final(self).socket_dir == old(self).socket_dir,
            match outcome {
                Err(_) => final(self).pod_allocations == old(self).pod_allocations && unset(
                    *old(self),
                    resource_name@,
                    allocation_key_of(pod_uid.0@, container_name@),
                    device_ids@,
                    *final(self),
                ),
                Ok(_) => final(self).plugins == old(self).plugins && remembered(
                    *old(self),
                    pod_uid.0@,
                    container_name@,
                    resource_name@,
                    device_ids,
                    *final(self),
                ),
            },
    {
        match outcome {
            Err(e) => {
                let key = allocation_key(pod_uid, container_name);
                let ghost before = self.plugins@;
                if let Some(mut ep) = self.plugins.remove(resource_name) {
                    let ghost all = ep.allocations@;
                    if let Some(ids) = ep.allocations.remove(key.as_str()) {
                        let rest = without_ids(&ids, &device_ids);
                        assert(texts(rest@).len() == rest@.len());
                        if rest.len() > 0 {
                            ep.allocations.insert(key, rest);
                            assert(ep.allocations@ =~= all.insert(key@, rest));
                        } else {
                            assert(ep.allocations@ =~= all.remove(key@));
                        }
                    } else {
                        assert(ep.allocations@ =~= all);
                    }
                    self.plugins.insert(resource_name.to_owned(), ep);
                    assert(self.plugins@ =~= before.insert(resource_name@, ep));
                } else {
                    assert(self.plugins@ =~= before);
                }
                Err(e)
            },
            Ok(a) => {
                let ghost before = self.pod_allocations@;
                let grant = DeviceGrant {
                    container_name: container_name.to_owned(),
                    resource_name: resource_name.to_owned(),
                    device_ids,
                };
                let mut grants = match self.pod_allocations.remove(pod_uid.0.as_str()) {
                    Some(g) => g,
                    None => Vec::new(),
                };
                let ghost had = grants@;
                grants.push(grant);
                assert(grants@.drop_last() =~= had);
                self.pod_allocations.insert(pod_uid.0.clone(), grants);
                assert(self.pod_allocations@ =~= before.insert(pod_uid.0@, grants));
                Ok(a)
            },
        }
    }

    /// The socket of the plugin of a resource.
    pub fn plugin_socket(&self, resource_name: &str) -> (r: Result<String, KubeletError>)
        ensures
            match r {
                Ok(s) => self.plugins@.contains_key(resource_name@) && s
                    == self.plugins@[resource_name@].socket_path,
                Err(KubeletError::Resource(m)) => !self.plugins@.contains_key(resource_name@) && m@
                    == no_plugin_text(resource_name@),
                Err(_) => false,
            },
    {
        match self.plugins.get(resource_name) {
            Some(ep) => Ok(ep.socket_path.clone()),
            None => Err(no_plugin(resource_name)),
        }
    }

    /// Takes over the first report of the plugin of a resource.
    pub fn refresh_plugin_devices(&mut self, resource_name: &str, reply: ListReply) -> (r: Result<
        (),
        KubeletError,
    >)
        ensures
            final(self).socket_dir == old(self).socket_dir,
            final(self).pod_allocations == old(self).pod_allocations,
            refreshed(*old(self), resource_name@, reply, *final(self), r),
    {
        match self.plugins.get(resource_name) {
            None => Err(no_plugin(resource_name)),
            Some(ep) => {
                let asked = PluginEndpoint::new(resource_name, ep.socket_path.as_str());
                match asked.list_and_watch_once(reply) {
                    Ok(devices) => {
                        self.update_devices(resource_name, devices);
                        assert(list_reply(resource_name@, reply, Ok(devices)));
                        Ok(())
                    },
                    Err(e) => {
                        assert(list_reply(resource_name@, reply, Err(e)));
                        Err(e)
                    },
                }
            },
        }
    }

    /// Takes back what the containers of a pod were given.
    pub fn deallocate_pod(&mut self, pod_uid: &PodUID)
        ensures
            final(self).socket_dir == old(self).socket_dir,
            final(self).pod_allocations@ == old(self).pod_allocations@.remove(pod_uid.0@),
            if old(self).pod_allocations@.contains_key(pod_uid.0@) {
                plugins_after_release(
                    old(self).pod_allocations@[pod_uid.0@]@,
                    pod_uid.0@,
                    old(self).plugins@,
                    final(self).plugins@,
                )
            } else {
                final(self).plugins@ == old(self).plugins@
            },
    {
        let ghost start = self.plugins@;
        let ghost pod = pod_uid.0@;
        if let Some(grants) = self.pod_allocations.remove(pod_uid.0.as_str()) {
            let mut i: usize = 0;
            proof {
                assert forall|r: Seq<char>| #[trigger] start.contains_key(r) implies after_release(
                    grants@.take(0),
                    pod,
                    r,
                    start[r].allocations@,
                    start[r].allocations@,
                ) by {
                    assert forall|key: Seq<char>| true implies left(
                        grants@.take(0),
                        pod,
                        r,
                        key,
                        texts((#[trigger] start[r].allocations@[key])@),
                    ) == texts(start[r].allocations@[key]@) by {
                        lemma_left_none(
                            grants@.take(0),
                            pod,
                            r,
                            key,
                            texts(start[r].allocations@[key]@),
                        );
                    }
                }
            }
            while i < grants.len()
                invariant
                    i <= grants@.len(),
                    pod == pod_uid.0@,
                    self.socket_dir == old(self).socket_dir,
                    self.pod_allocations@ == old(self).pod_allocations@.remove(pod),
                    plugins_after_release(grants@.take(i as int), pod, start, self.plugins@),
                decreases grants@.len() - i,
            {
                let g = &grants[i];
                let ghost mid = self.plugins@;
                let key = allocation_key(pod_uid, g.container_name.as_str());
                self.release_grant(g, key.as_str(), Ghost(pod));
                proof {
                    let now = grants@.take(i as int);
                    let next = grants@.take(i + 1);
                    assert(next.drop_last() =~= now);
                    assert(self.plugins@.dom() =~= start.dom());
                    assert forall|r: Seq<char>| #[trigger] start.contains_key(r) implies same_plugin(
                        start[r],
                        self.plugins@[r],
                    ) && after_release(
                        next,
                        pod,
                        r,
                        start[r].allocations@,
                        self.plugins@[r].allocations@,
                    ) by {
                        assert(mid.contains_key(r));
                        lemma_after_release_step(
                            next,
                            pod,
                            r,
                            start[r].allocations@,
                            mid[r].allocations@,
                            self.plugins@[r].allocations@,
                        );
                    }
                }
                i = i + 1;
            }
            assert(grants@.take(i as int) =~= grants@);
        }
    }

    fn release_grant(&mut self, g: &DeviceGrant, key: &str, Ghost(pod): Ghost<Seq<char>>)
        requires
            key@ == allocation_key_of(pod, g.container_name@),
        ensures
            final(self).socket_dir == old(self).socket_dir,
            final(self).pod_allocations == old(self).pod_allocations,
            plugins_after_release(seq![*g], pod, old(self).plugins@, final(self).plugins@),
    {
        let ghost start = self.plugins@;
        let ghost one = seq![*g];
        proof {
            assert(one[0] == *g);
            assert forall|r: Seq<char>, k: Seq<char>| #[trigger]
                touched(one, pod, r, k) == grant_of(*g, pod, r, k) by {}
            assert forall|r: Seq<char>, k: Seq<char>, ids: Seq<Seq<char>>|
                !grant_of(*g, pod, r, k) implies #[trigger] left(one, pod, r, k, ids) == ids by {
                assert(!touched(one, pod, r, k));
                lemma_left_none(one, pod, r, k, ids);
            }
        }
        if let Some(mut ep) = self.plugins.remove(g.resource_name.as_str()) {
            let ghost held = ep.allocations@;
            if let Some(ids) = ep.allocations.remove(key) {
                let rest = without_ids(&ids, &g.device_ids);
                proof {
                    lemma_left_one(*g, pod, texts(ids@));
                }
                assert(texts(rest@).len() == rest@.len());
                if rest.len() > 0 {
                    ep.allocations.insert(key.to_owned(), rest);
                }
            }
            self.plugins.insert(g.resource_name.clone(), ep);
            proof {
                assert(self.plugins@ =~= start.insert(g.resource_name@, ep));
                assert(self.plugins@.dom() =~= start.dom());
                assert(after_release(one, pod, g.resource_name@, held, ep.allocations@)) by {
                    assert(touched(one, pod, g.resource_name@, key@));
                    assert forall|k: Seq<char>|
                        {
                            let rest = left(one, pod, g.resource_name@, k, texts(held[k]@));
                            if !held.contains_key(k) {
                                !(#[trigger] ep.allocations@.contains_key(k))
                            } else if touched(one, pod, g.resource_name@, k) && rest.len() == 0 {
                                !ep.allocations@.contains_key(k)
                            } else {
                                ep.allocations@.contains_key(k) && texts(ep.allocations@[k]@)
                                    == rest
                            }
                        } by {}
                }
            }
        } else {
            assert(self.plugins@ =~= start);
        }
        proof {
            assert forall|r: Seq<char>| #[trigger] start.contains_key(r) implies same_plugin(
                start[r],
                self.plugins@[r],
            ) && after_release(
                one,
                pod,
                r,
                start[r].allocations@,
                self.plugins@[r].allocations@,
            ) by {
                if r != g.resource_name@ {
                    assert forall|k: Seq<char>| !touched(one, pod, r, k) by {}
                    assert forall|k: Seq<char>|
                        left(one, pod, r, k, texts((#[trigger] start[r].allocations@[k])@)) == texts(
                            start[r].allocations@[k]@,
                        ) by {}
                }
            }
        }
    }

    /// How many healthy devices each resource has.
    pub fn extended_resources(&self) -> (r: StrMap<u64>)
        ensures
            r@.dom() == self.plugins@.dom(),
            forall|k: Seq<char>| #[trigger]
                self.plugins@.contains_key(k) ==> r@[k] == healthy(self.plugins@[k].devices@),
    {
        let n: usize = self.plugins.len();
        let ghost pairs = self.plugins.pairs();
        let mut out: StrMap<u64> = StrMap::new();
        let mut i: usize = 0;
        assert(out@.dom() =~= map_of(pairs.take(0)).dom());
        while i < n
            invariant
                i <= n == pairs.len(),
                pairs == self.plugins.pairs(),
                distinct_keys(pairs),
                out@.dom() == map_of(pairs.take(i as int)).dom(),
                forall|k: Seq<char>| #[trigger]
                    map_of(pairs.take(i as int)).contains_key(k) ==> out@[k] == healthy(
                        map_of(pairs.take(i as int))[k].devices@,
                    ),
            decreases n - i,
        {
            let ep = self.plugins.value_at(i);
            let c: u64 = ep.healthy_count() as u64;
            out.insert(self.plugins.key_at(i).clone(), c);
            proof {
                assert(pairs.take(i + 1).drop_last() =~= pairs.take(i as int));
                assert(out@.dom() =~= map_of(pairs.take(i + 1)).dom());
            }
            i = i + 1;
        }
        assert(pairs.take(i as int) =~= pairs);
        out
    }

    pub fn plugin_count(&self) -> (r: usize)
        ensures
            r == self.plugins@.len(),
    {
        self.plugins.len()
    }
}

/// The registry with one more plugin; one that cannot be read counts as empty.
pub fn with_registration(
    entries: Option<StrMap<String>>,
    resource_name: &str,
    socket_path: &str,
) -> (r: StrMap<String>)
    ensures
        r@.contains_key(resource_name@) && r@[resource_name@]@ == socket_path@,
        r@ == (match entries {
            Some(m) => m@,
            None => Map::<Seq<char>, String>::empty(),
        }).insert(resource_name@, r@[resource_name@]),
{
    let mut m = match entries {
        Some(m) => m,
        None => StrMap::new(),
    };
    m.insert(resource_name.to_owned(), socket_path.to_owned());
    m
}

/// `ids` of a resource are set aside under `key`, after what is held there;
/// nothing else changes.
pub open spec fn set_aside(
    before: DeviceManager,
    resource: Seq<char>,
    key: Seq<char>,
    ids: Seq<String>,
    after: DeviceManager,
) -> bool {
    let a = before.plugins@[resource];
    let b = after.plugins@[resource];
    &&& after.plugins@.contains_key(resource)
    &&& after.plugins@ == before.plugins@.insert(resource, b)
    &&& same_plugin(a, b)
    &&& b.allocations@.contains_key(key)
    &&& texts(b.allocations@[key]@) == held_by(a.allocations@, key) + texts(ids)
    &&& b.allocations@ == a.allocations@.insert(key, b.allocations@[key])
}

/// Those of `ids` that are held under `key` are free again; a container that is
/// left with nothing is forgotten, and nothing else changes.
pub open spec fn unset(
    before: DeviceManager,
    resource: Seq<char>,
    key: Seq<char>,
    ids: Seq<String>,
    after: DeviceManager,
) -> bool {
    if before.plugins@.contains_key(resource) {
        let a = before.plugins@[resource];
        let b = after.plugins@[resource];
        let rest = without(held_by(a.allocations@, key), texts(ids));
        &&& after.plugins@.contains_key(resource)
        &&& after.plugins@ == before.plugins@.insert(resource, b)
        &&& same_plugin(a, b)
        &&& if rest.len() == 0 {
            b.allocations@ == a.allocations@.remove(key)
        } else {
            &&& b.allocations@.contains_key(key)
            &&& texts(b.allocations@[key]@) == rest
            &&& b.allocations@ == a.allocations@.insert(key, b.allocations@[key])
        }
    } else {
        after.plugins@ == before.plugins@
    }
}

/// The pod has one more grant.
pub open spec fn remembered(
    before: DeviceManager,
    pod: Seq<char>,
    container: Seq<char>,
    resource: Seq<char>,
    ids: Vec<String>,
    after: DeviceManager,
) -> bool {
    let old_grants = if before.pod_allocations@.contains_key(pod) {
        before.pod_allocations@[pod]@
    } else {
        Seq::empty()
    };
    let grants = after.pod_allocations@[pod]@;
    &&& after.pod_allocations@.contains_key(pod)
    &&& after.pod_allocations@ == before.pod_allocations@.insert(pod, after.pod_allocations@[pod])
    &&& grants.len() == old_grants.len() + 1
    &&& grants.drop_last() == old_grants
    &&& grants.last().container_name@ == container
    &&& grants.last().resource_name@ == resource
    &&& grants.last().device_ids == ids
}

/// The first report of a plugin is taken over, or its failure handed on.
pub open spec fn refreshed(
    before: DeviceManager,
    resource: Seq<char>,
    reply: ListReply,
    after: DeviceManager,
    r: Result<(), KubeletError>,
) -> bool {
    if !before.plugins@.contains_key(resource) {
        r matches Err(KubeletError::Resource(m)) && m@ == no_plugin_text(resource)
            && after.plugins@ == before.plugins@
    } else {
        match r {
            Ok(_) => exists|devices: Vec<Device>| #[trigger]
                list_reply(resource, reply, Ok(devices)) && after.plugins@ == before.plugins@.insert(
                    resource,
                    PluginEndpoint { devices, ..before.plugins@[resource] },
                ),
            Err(e) => list_reply(resource, reply, Err(e)) && after.plugins@ == before.plugins@,
        }
    }
}

// ---------------------------------------------------------------------------
// Laws
// ---------------------------------------------------------------------------

/// No device is held by two containers.
pub open spec fn exclusive(allocations: Map<Seq<char>, Vec<String>>) -> bool {
    forall|a: Seq<char>, b: Seq<char>, id: Seq<char>|
        #![trigger holds_device(allocations, a, id), holds_device(allocations, b, id)]
        holds_device(allocations, a, id) && holds_device(allocations, b, id) ==> a == b
}

proof fn lemma_free_not_allocated(
    devices: Seq<Device>,
    allocations: Map<Seq<char>, Vec<String>>,
    id: Seq<char>,
)
    requires
        free_ids(devices, allocations).contains(id),
    ensures
        !is_allocated(allocations, id),
    decreases devices.len(),
{
    let free = free_ids(devices, allocations);
    let i = choose|i: int| 0 <= i < free.len() && free[i] == id;
    if devices.len() > 0 {
        let front = free_ids(devices.drop_last(), allocations);
        if i < front.len() {
            assert(front[i] == id);
            assert(front.contains(id));
            lemma_free_not_allocated(devices.drop_last(), allocations, id);
        }
    }
}

/// Setting free devices aside for a container keeps every device with one
/// container at most.
pub proof fn law_devices_are_exclusive(
    before: DeviceManager,
    resource: Seq<char>,
    key: Seq<char>,
    count: nat,
    ids: Seq<String>,
    after: DeviceManager,
)
    requires
        before.plugins@.contains_key(resource),
        exclusive(before.plugins@[resource].allocations@),
        count <= free_ids(
            before.plugins@[resource].devices@,
            before.plugins@[resource].allocations@,
        ).len(),
        texts(ids) == free_ids(
            before.plugins@[resource].devices@,
            before.plugins@[resource].allocations@,
        ).take(count as int),
        set_aside(before, resource, key, ids, after),
    ensures
        exclusive(after.plugins@[resource].allocations@),
{
    let a = before.plugins@[resource].allocations@;
    let b = after.plugins@[resource].allocations@;
    let devices = before.plugins@[resource].devices@;
    let free = free_ids(devices, a);
    assert forall|x: Seq<char>, y: Seq<char>, id: Seq<char>|
        #![trigger holds_device(b, x, id), holds_device(b, y, id)]
        holds_device(b, x, id) && holds_device(b, y, id) implies x == y by {
        lemma_set_aside_holds(before, resource, key, ids, after, x, id);
        lemma_set_aside_holds(before, resource, key, ids, after, y, id);
        if texts(ids).contains(id) {
            let i = choose|i: int| 0 <= i < texts(ids).len() && texts(ids)[i] == id;
            assert(free[i] == id);
            assert(free.contains(id));
            lemma_free_not_allocated(devices, a, id);
            assert(!holds_device(a, x, id) && !holds_device(a, y, id));
        }
    }
}

/// Who holds a device after devices were set aside.
proof fn lemma_set_aside_holds(
    before: DeviceManager,
    resource: Seq<char>,
    key: Seq<char>,
    ids: Seq<String>,
    after: DeviceManager,
    k: Seq<char>,
    id: Seq<char>,
)
    requires
        set_aside(before, resource, key, ids, after),
    ensures
        holds_device(after.plugins@[resource].allocations@, k, id) == (holds_device(
            before.plugins@[resource].allocations@,
            k,
            id,
        ) || (k == key && texts(ids).contains(id))),
{
    let a = before.plugins@[resource].allocations@;
    let b = after.plugins@[resource].allocations@;
    let held = held_by(a, key);
    let taken = texts(ids);
    if k == key {
        assert((held + taken).contains(id) == (held.contains(id) || taken.contains(id))) by {
            if held.contains(id) {
                let i = choose|i: int| 0 <= i < held.len() && held[i] == id;
                assert((held + taken)[i] == id);
            }
            if taken.contains(id) {
                let i = choose|i: int| 0 <= i < taken.len() && taken[i] == id;
                assert((held + taken)[held.len() + i] == id);
            }
        }
    }
}

proof fn lemma_without_all(ids: Seq<Seq<char>>, gone: Seq<Seq<char>>)
    requires
        forall|i: int| 0 <= i < ids.len() ==> gone.contains(#[trigger] ids[i]),
    ensures
        without(ids, gone).len() == 0,
    decreases ids.len(),
{
    if ids.len() > 0 {
        lemma_without_all(ids.drop_last(), gone);
        assert(gone.contains(ids[ids.len() - 1]));
    }
}

proof fn lemma_without_none(ids: Seq<Seq<char>>, gone: Seq<Seq<char>>)
    requires
        forall|i: int| 0 <= i < ids.len() ==> !gone.contains(#[trigger] ids[i]),
    ensures
        without(ids, gone) == ids,
    decreases ids.len(),
{
    if ids.len() > 0 {
        lemma_without_none(ids.drop_last(), gone);
        assert(!gone.contains(ids[ids.len() - 1]));
        assert(ids.drop_last().push(ids.last()) =~= ids);
    }
}

proof fn lemma_without_sum(a: Seq<Seq<char>>, b: Seq<Seq<char>>, gone: Seq<Seq<char>>)
    ensures
        without(a + b, gone) == without(a, gone) + without(b, gone),
    decreases b.len(),
{
    if b.len() == 0 {
        assert(a + b =~= a);
        assert(without(a, gone) + without(b, gone) =~= without(a, gone));
    } else {
        lemma_without_sum(a, b.drop_last(), gone);
        assert((a + b).drop_last() =~= a + b.drop_last());
        assert(without(a + b, gone) =~= without(a, gone) + without(b, gone));
    }
}

/// The devices that stay free while others are set aside.
proof fn lemma_free_after_set_aside(
    devices: Seq<Device>,
    before: DeviceManager,
    resource: Seq<char>,
    key: Seq<char>,
    ids: Seq<String>,
    after: DeviceManager,
)
    requires
        set_aside(before, resource, key, ids, after),
    ensures
        free_ids(devices, after.plugins@[resource].allocations@) == without(
            free_ids(devices, before.plugins@[resource].allocations@),
            texts(ids),
        ),
    decreases devices.len(),
{
    let a = before.plugins@[resource].allocations@;
    let b = after.plugins@[resource].allocations@;
    if devices.len() > 0 {
        lemma_free_after_set_aside(devices.drop_last(), before, resource, key, ids, after);
        let id = devices.last().id@;
        assert(is_allocated(b, id) == (is_allocated(a, id) || texts(ids).contains(id))) by {
            if is_allocated(b, id) {
                let k = choose|k: Seq<char>| #[trigger] holds_device(b, k, id);
                lemma_set_aside_holds(before, resource, key, ids, after, k, id);
            }
            if is_allocated(a, id) {
                let k = choose|k: Seq<char>| #[trigger] holds_device(a, k, id);
                lemma_set_aside_holds(before, resource, key, ids, after, k, id);
            }
            if texts(ids).contains(id) {
                lemma_set_aside_holds(before, resource, key, ids, after, key, id);
            }
        }
        let front = free_ids(devices.drop_last(), a);
        assert(front.push(id).drop_last() =~= front);
    }
}

/// Setting the first `count` free devices aside for a container, whatever it
/// holds already, leaves exactly the other free ones: their number falls by
/// `count`, as long as no two devices go by the same identifier, one of them
/// among the first and one among the others.
pub proof fn law_free_devices_fall_by_count(
    before: DeviceManager,
    resource: Seq<char>,
    key: Seq<char>,
    count: nat,
    ids: Seq<String>,
    after: DeviceManager,
)
    requires
        before.plugins@.contains_key(resource),
        count <= free_ids(
            before.plugins@[resource].devices@,
            before.plugins@[resource].allocations@,
        ).len(),
        texts(ids) == free_ids(
            before.plugins@[resource].devices@,
            before.plugins@[resource].allocations@,
        ).take(count as int),
        set_aside(before, resource, key, ids, after),
        ({
            let free = free_ids(
                before.plugins@[resource].devices@,
                before.plugins@[resource].allocations@,
            );
            forall|i: int, j: int|
                0 <= i < count <= j < free.len() ==> #[trigger] free[i] != #[trigger] free[j]
        }),
    ensures
        ({
            let a = before.plugins@[resource];
            let b = after.plugins@[resource];
            let free = free_ids(a.devices@, a.allocations@);
            let rest = free_ids(b.devices@, b.allocations@);
            rest == free.skip(count as int) && rest.len() == free.len() - count
        }),
{
    let a = before.plugins@[resource];
    let free = free_ids(a.devices@, a.allocations@);
    let taken = free.take(count as int);
    let others = free.skip(count as int);
    lemma_free_after_set_aside(a.devices@, before, resource, key, ids, after);
    assert(free =~= taken + others);
    lemma_without_sum(taken, others, taken);
    assert forall|i: int| 0 <= i < taken.len() implies taken.contains(#[trigger] taken[i]) by {}
    lemma_without_all(taken, taken);
    assert forall|j: int| 0 <= j < others.len() implies !taken.contains(#[trigger] others[j]) by {
        if taken.contains(others[j]) {
            let i = choose|i: int| 0 <= i < taken.len() && taken[i] == others[j];
            assert(free[i] == free[count + j]);
        }
    }
    lemma_without_none(others, taken);
    assert(without(taken, taken) + others =~= others);
}

/// A request that fails leaves every container with exactly the devices that
/// it held before the request, in the same order.
pub proof fn law_failed_request_changes_nothing(
    before: DeviceManager,
    resource: Seq<char>,
    key: Seq<char>,
    ids: Seq<String>,
    reserved: DeviceManager,
    after: DeviceManager,
)
    requires
        before.plugins@.contains_key(resource),
        forall|i: int|
            0 <= i < ids.len() ==> !is_allocated(
                before.plugins@[resource].allocations@,
                (#[trigger] ids[i])@,
            ),
        set_aside(before, resource, key, ids, reserved),
        unset(reserved, resource, key, ids, after),
    ensures
        after.plugins@.dom() == before.plugins@.dom(),
        forall|r: Seq<char>, k: Seq<char>|
            before.plugins@.contains_key(r) ==> #[trigger] held_by(
                after.plugins@[r].allocations@,
                k,
            ) == held_by(before.plugins@[r].allocations@, k),
{
    let a = before.plugins@[resource].allocations@;
    let held = held_by(a, key);
    let taken = texts(ids);
    assert(after.plugins@.dom() =~= before.plugins@.dom());
    lemma_without_sum(held, taken, taken);
    lemma_without_all(taken, taken);
    assert forall|j: int| 0 <= j < held.len() implies !taken.contains(#[trigger] held[j]) by {
        if taken.contains(held[j]) {
            let i = choose|i: int| 0 <= i < taken.len() && taken[i] == held[j];
            assert(!is_allocated(a, ids[i]@));
            assert(holds_device(a, key, held[j]));
        }
    }
    lemma_without_none(held, taken);
    assert(held + without(taken, taken) =~= held);
}

/// Looking through the sockets again takes nothing from a container whose
/// plugin has kept its socket.
pub proof fn law_scan_keeps_known_plugins(
    before: Map<Seq<char>, PluginEndpoint>,
    paths: Seq<Seq<char>>,
    after: Map<Seq<char>, PluginEndpoint>,
    resource: Seq<char>,
)
    requires
        before.contains_key(resource),
        forall|i: int|
            0 <= i < paths.len() && resource_of_socket(#[trigger] paths[i]) == Some(resource)
                ==> paths[i] == before[resource].socket_path@,
        registered_anew(before, paths, after),
    ensures
        after.contains_key(resource),
        after[resource] == before[resource],
{
    lemma_no_new_socket(before, paths, resource);
    assert(after.contains_key(resource) || !after.contains_key(resource));
}

proof fn lemma_no_new_socket(
    plugins: Map<Seq<char>, PluginEndpoint>,
    paths: Seq<Seq<char>>,
    resource: Seq<char>,
)
    requires
        plugins.contains_key(resource),
        forall|i: int|
            0 <= i < paths.len() && resource_of_socket(#[trigger] paths[i]) == Some(resource)
                ==> paths[i] == plugins[resource].socket_path@,
    ensures
        !finds_new_socket(plugins, paths, resource),
    decreases paths.len(),
{
    if paths.len() > 0 {
        assert(paths[paths.len() - 1] == paths.last());
        assert forall|i: int|
            0 <= i < paths.drop_last().len() && resource_of_socket(
                #[trigger] paths.drop_last()[i],
            ) == Some(resource) implies paths.drop_last()[i]
            == plugins[resource].socket_path@ by {
            assert(paths.drop_last()[i] == paths[i]);
        }
        lemma_no_new_socket(plugins, paths.drop_last(), resource);
    }
}

/// Taking devices back keeps every device with one container at most.
pub proof fn law_release_keeps_devices_exclusive(
    grants: Seq<DeviceGrant>,
    pod: Seq<char>,
    resource: Seq<char>,
    before: Map<Seq<char>, Vec<String>>,
    after: Map<Seq<char>, Vec<String>>,
)
    requires
        exclusive(before),
        after_release(grants, pod, resource, before, after),
    ensures
        exclusive(after),
{
    assert forall|x: Seq<char>, y: Seq<char>, id: Seq<char>|
        #![trigger holds_device(after, x, id), holds_device(after, y, id)]
        holds_device(after, x, id) && holds_device(after, y, id) implies x == y by {
        lemma_left_subset(grants, pod, resource, x, texts(before[x]@), id);
        lemma_left_subset(grants, pod, resource, y, texts(before[y]@), id);
        assert(holds_device(before, x, id) && holds_device(before, y, id));
    }
}

proof fn lemma_left_subset(
    grants: Seq<DeviceGrant>,
    pod: Seq<char>,
    resource: Seq<char>,
    key: Seq<char>,
    ids: Seq<Seq<char>>,
    id: Seq<char>,
)
    ensures
        left(grants, pod, resource, key, ids).contains(id) ==> ids.contains(id) && !released(
            grants,
            pod,
            resource,
            key,
            id,
        ),
    decreases ids.len(),
{
    let l = left(grants, pod, resource, key, ids);
    if l.contains(id) {
        let i = choose|i: int| 0 <= i < l.len() && l[i] == id;
        let front = left(grants, pod, resource, key, ids.drop_last());
        if i < front.len() {
            assert(front[i] == id);
            assert(front.contains(id));
            lemma_left_subset(grants, pod, resource, key, ids.drop_last(), id);
            let j = choose|j: int| 0 <= j < ids.drop_last().len() && ids.drop_last()[j] == id;
            assert(ids[j] == id);
        } else {
            assert(ids.last() == id);
            assert(ids[ids.len() - 1] == id);
        }
    }
}

/// Deallocating a pod frees every device that one of its grants gave, as long
/// as no other container holds it.
pub proof fn law_deallocated_devices_are_free(
    before: DeviceManager,
    pod: Seq<char>,
    after: DeviceManager,
    g: int,
    id: Seq<char>,
)
    requires
        before.pod_allocations@.contains_key(pod),
        plugins_after_release(
            before.pod_allocations@[pod]@,
            pod,
            before.plugins@,
            after.plugins@,
        ),
        0 <= g < before.pod_allocations@[pod]@.len(),
        texts(before.pod_allocations@[pod]@[g].device_ids@).contains(id),
        before.plugins@.contains_key(before.pod_allocations@[pod]@[g].resource_name@),
        exclusive(
            before.plugins@[before.pod_allocations@[pod]@[g].resource_name@].allocations@,
        ),
        holds_device(
            before.plugins@[before.pod_allocations@[pod]@[g].resource_name@].allocations@,
            allocation_key_of(pod, before.pod_allocations@[pod]@[g].container_name@),
            id,
        ),
    ensures
        !is_allocated(
            after.plugins@[before.pod_allocations@[pod]@[g].resource_name@].allocations@,
            id,
        ),
{
    let grants = before.pod_allocations@[pod]@;
    let r = grants[g].resource_name@;
    let key = allocation_key_of(pod, grants[g].container_name@);
    let a = before.plugins@[r].allocations@;
    let b = after.plugins@[r].allocations@;
    assert(after_release(grants, pod, r, a, b));
    if is_allocated(b, id) {
        let k = choose|k: Seq<char>| #[trigger] holds_device(b, k, id);
        lemma_left_subset(grants, pod, r, k, texts(a[k]@), id);
        assert(holds_device(a, k, id));
        assert(k == key);
        assert(grant_of(grants[g], pod, r, key));
        assert(released(grants, pod, r, key, id));
    }
}

/// Deallocating a pod right after its only allocation leaves every container
/// with the devices it held before.
pub proof fn law_deallocate_undoes_allocate(
    before: DeviceManager,
    pod: Seq<char>,
    container: Seq<char>,
    resource: Seq<char>,
    ids: Vec<String>,
    reserved: DeviceManager,
    recorded: DeviceManager,
    after: DeviceManager,
)
    requires
        before.plugins@.contains_key(resource),
        !before.pod_allocations@.contains_key(pod),
        forall|i: int|
            0 <= i < ids@.len() ==> !is_allocated(
                before.plugins@[resource].allocations@,
                (#[trigger] ids@[i])@,
            ),
        set_aside(before, resource, allocation_key_of(pod, container), ids@, reserved),
        reserved.pod_allocations == before.pod_allocations,
        recorded.plugins == reserved.plugins,
        remembered(reserved, pod, container, resource, ids, recorded),
        plugins_after_release(
            recorded.pod_allocations@[pod]@,
            pod,
            recorded.plugins@,
            after.plugins@,
        ),
    ensures
        after.plugins@.dom() == before.plugins@.dom(),
        forall|r: Seq<char>, k: Seq<char>, id: Seq<char>|
            before.plugins@.contains_key(r) ==> #[trigger] holds_device(
                after.plugins@[r].allocations@,
                k,
                id,
            ) == holds_device(before.plugins@[r].allocations@, k, id),
{
    let key = allocation_key_of(pod, container);
    let grants = recorded.pod_allocations@[pod]@;
    let g = grants.last();
    assert(grants.drop_last() =~= Seq::<DeviceGrant>::empty());
    assert(after.plugins@.dom() =~= before.plugins@.dom());
    assert forall|r: Seq<char>, k: Seq<char>, id: Seq<char>|
        before.plugins@.contains_key(r) implies #[trigger] holds_device(
        after.plugins@[r].allocations@,
        k,
        id,
    ) == holds_device(before.plugins@[r].allocations@, k, id) by {
        let a = before.plugins@[r].allocations@;
        let m = recorded.plugins@[r].allocations@;
        let b = after.plugins@[r].allocations@;
        assert(recorded.plugins@.contains_key(r));
        assert(after_release(grants, pod, r, m, b));
        assert(b.contains_key(k) || !b.contains_key(k));
        if r == resource && k == key {
            assert(grant_of(grants[0], pod, r, k));
            assert(touched(grants, pod, r, k));
            let held = held_by(a, k);
            let taken = texts(ids@);
            assert(grants =~= seq![g]);
            lemma_left_one(g, pod, texts(m[k]@));
            lemma_without_sum(held, taken, taken);
            lemma_without_all(taken, taken);
            assert forall|j: int|
                0 <= j < held.len() implies !taken.contains(#[trigger] held[j]) by {
                if taken.contains(held[j]) {
                    let i = choose|i: int| 0 <= i < taken.len() && taken[i] == held[j];
                    assert(!is_allocated(a, ids@[i]@));
                    assert(holds_device(a, k, held[j]));
                }
            }
            lemma_without_none(held, taken);
            assert(held + without(taken, taken) =~= held);
        } else {
            assert(!touched(grants, pod, r, k)) by {
                if touched(grants, pod, r, k) {
                    let i = choose|i: int|
                        0 <= i < grants.len() && grant_of(#[trigger] grants[i], pod, r, k);
                    assert(grants[i] == g);
                }
            }
            lemma_left_none(grants, pod, r, k, texts(m[k]@));
            assert(m.contains_key(k) == a.contains_key(k));
            assert(m.contains_key(k) ==> m[k] == a[k]);
        }
    }
}

/// A device is healthy where its plugin says so, in letters of either case, and
/// lies next to the first node that is named.
pub proof fn law_devices_keep_their_parts(p: ProtoDevice, d: Device)
    requires
        device_is(p, d),
    ensures
        d.id@ == p.id@,
        p.health@ == "Healthy"@ || p.health@ == "healthy"@ || p.health@ == "HEALTHY"@
            ==> d.health is Healthy,
        p.health@.len() != 7 ==> d.health is Unhealthy,
        p.topology is None ==> d.numa_node is None,
        p.topology matches Some(v) ==> (v@.len() > 0 && 0 <= v@[0] <= u32::MAX
            ==> d.numa_node is Some && d.numa_node->0 == v@[0]),
        p.topology matches Some(v) ==> (v@.len() == 0 || v@[0] < 0 ==> d.numa_node is None),
{
    reveal_strlit("Healthy");
    reveal_strlit("healthy");
    reveal_strlit("HEALTHY");
    let w = "healthy"@;
    assert(w.len() == 7 && "Healthy"@.len() == 7 && "HEALTHY"@.len() == 7);
    assert(equal_ignoring_case("Healthy"@, w));
    assert(equal_ignoring_case("HEALTHY"@, w));
    assert(equal_ignoring_case("healthy"@, w));
}

/// Each healthy device counts once, and no other does.
pub proof fn law_healthy_devices_count(devices: Seq<Device>, d: Device)
    ensures
        d.health is Healthy ==> healthy(devices.push(d)) == healthy(devices) + 1,
        d.health is Unhealthy ==> healthy(devices.push(d)) == healthy(devices),
        healthy(Seq::<Device>::empty()) == 0,
{
    assert(devices.push(d).drop_last() =~= devices);
}

/// A device is free exactly where it is healthy and no container holds it.
pub proof fn law_free_devices_are_healthy_and_unheld(
    devices: Seq<Device>,
    allocations: Map<Seq<char>, Vec<String>>,
    id: Seq<char>,
)
    ensures
        free_ids(devices, allocations).contains(id) <==> (exists|i: int|
            0 <= i < devices.len() && (#[trigger] devices[i]).id@ == id
                && devices[i].health is Healthy) && !(exists|k: Seq<char>| #[trigger]
            allocations.contains_key(k) && texts(allocations[k]@).contains(id)),
    decreases devices.len(),
{
    assert(is_allocated(allocations, id) <==> exists|k: Seq<char>| #[trigger]
        allocations.contains_key(k) && texts(allocations[k]@).contains(id)) by {
        if is_allocated(allocations, id) {
            let k = choose|k: Seq<char>| #[trigger] holds_device(allocations, k, id);
            assert(allocations.contains_key(k));
        }
        if exists|k: Seq<char>| #[trigger]
            allocations.contains_key(k) && texts(allocations[k]@).contains(id) {
            let k = choose|k: Seq<char>| #[trigger]
                allocations.contains_key(k) && texts(allocations[k]@).contains(id);
            assert(holds_device(allocations, k, id));
        }
    }
    if devices.len() > 0 {
        let front = devices.drop_last();
        let f = free_ids(front, allocations);
        let all = free_ids(devices, allocations);
        let n = devices.len() - 1;
        law_free_devices_are_healthy_and_unheld(front, allocations, id);
        if f.contains(id) {
            let j = choose|j: int| 0 <= j < f.len() && f[j] == id;
            assert(all[j] == id);
            let i = choose|i: int|
                0 <= i < front.len() && (#[trigger] front[i]).id@ == id
                    && front[i].health is Healthy;
            assert(devices[i] == front[i]);
        }
        if devices[n].id@ == id && devices[n].health is Healthy && !is_allocated(allocations, id) {
            assert(all[f.len() as int] == id);
        }
        if all.contains(id) && !f.contains(id) {
            let j = choose|j: int| 0 <= j < all.len() && all[j] == id;
            if j < f.len() {
                assert(f[j] == id);
            }
            assert(devices[n].id@ == id && devices[n].health is Healthy);
        }
        if exists|i: int|
            0 <= i < devices.len() && (#[trigger] devices[i]).id@ == id
                && devices[i].health is Healthy {
            let i = choose|i: int|
                0 <= i < devices.len() && (#[trigger] devices[i]).id@ == id
                    && devices[i].health is Healthy;
            if i < n {
                assert(front[i] == devices[i]);
            }
        }
    }
}

/// A socket stands for the resource that its file name spells, with the first
/// hyphen in place of the slash; another file stands for none.
pub proof fn law_sockets_spell_their_resource(
    path: Seq<char>,
    vendor: Seq<char>,
    name: Seq<char>,
)
    requires
        !vendor.contains('-'),
    ensures
        path_extension(path) == Some("sock"@) && file_stem_of(path) == Some(vendor + "-"@ + name)
            ==> resource_of_socket(path) == Some(vendor + "/"@ + name),
        path_extension(path) != Some("sock"@) ==> resource_of_socket(path) is None,
{
    reveal_strlit("-");
    let s = vendor + "-"@ + name;
    assert forall|k: int| 0 <= k < vendor.len() implies s[k] != '-' by {
        assert(s[k] == vendor[k]);
        assert(vendor.contains(vendor[k]));
    }
    assert(s[vendor.len() as int] == '-');
    lemma_first_index_is(s, '-', vendor.len() as int);
    assert(s.take(vendor.len() as int) =~= vendor);
    assert(s.skip(vendor.len() as int + 1) =~= name);
}

/// The devices of a pod's containers are kept apart by the container's name.
pub proof fn law_containers_of_a_pod_are_kept_apart(pod: Seq<char>, a: Seq<char>, b: Seq<char>)
    ensures
        allocation_key_of(pod, a) == pod + ":"@ + a,
        allocation_key_of(pod, a) == allocation_key_of(pod, b) <==> a == b,
{
    reveal_strlit(":");
    assert(allocation_key_of(pod, a).skip(pod.len() as int + 1) =~= a);
    assert(allocation_key_of(pod, b).skip(pod.len() as int + 1) =~= b);
}

/// What a container gets of a plugin is the plugin's first answer; without an
/// answer, or where the call failed, it gets nothing.
pub proof fn law_first_answer_counts(
    resource: Seq<char>,
    reply: Result<Vec<ProtoContainerAllocateResponse>, String>,
    r: Result<AllocateResponse, KubeletError>,
)
    requires
        allocation_reply(resource, reply, r),
    ensures
        r is Ok <==> reply is Ok && reply->Ok_0@.len() > 0,
        r matches Ok(a) ==> a.envs@ == reply->Ok_0@[0].envs@ && a.annotations@
            == reply->Ok_0@[0].annotations@ && a.devices@ == reply->Ok_0@[0].devices@ && a.mounts@
            == reply->Ok_0@[0].mounts@,
{
}

/// A list of devices is taken over only from an update, device by device.
pub proof fn law_lists_come_from_updates(
    resource: Seq<char>,
    reply: ListReply,
    r: Result<Vec<Device>, KubeletError>,
)
    requires
        list_reply(resource, reply, r),
    ensures
        r is Ok <==> reply is Update,
        r matches Ok(d) ==> d@.len() == reply->Update_0@.len() && forall|i: int|
            0 <= i < d@.len() ==> (#[trigger] d@[i]).id == reply->Update_0@[i].id,
{
    if let Ok(d) = r {
        assert forall|i: int| 0 <= i < d@.len() implies (#[trigger] d@[i]).id
            == reply->Update_0@[i].id by {
            assert(device_is(reply->Update_0@[i], d@[i]));
        }
    }
}

/// Just the registrations whose socket is still there come back.
pub proof fn law_present_sockets_come_back(
    entries: Seq<(Seq<char>, String)>,
    present: Seq<Seq<char>>,
    i: int,
)
    requires
        0 <= i < entries.len(),
        present.contains(entries[i].1@),
    ensures
        present_registrations(entries, present).contains((entries[i].0, entries[i].1@)),
        forall|k: int|
            0 <= k < present_registrations(entries, present).len() ==> present.contains(
                (#[trigger] present_registrations(entries, present)[k]).1,
            ),
    decreases entries.len(),
{
    let front = entries.drop_last();
    let f = present_registrations(front, present);
    let all = present_registrations(entries, present);
    lemma_present_only(front, present);
    assert forall|k: int| 0 <= k < all.len() implies present.contains((#[trigger] all[k]).1) by {
        if k < f.len() {
            assert(all[k] == f[k]);
        }
    }
    if i < front.len() {
        assert(front[i] == entries[i]);
        law_present_sockets_come_back(front, present, i);
        let p = (entries[i].0, entries[i].1@);
        let k = choose|k: int| 0 <= k < f.len() && f[k] == p;
        assert(all[k] == p);
    } else {
        assert(all[f.len() as int] == (entries[i].0, entries[i].1@));
    }
}

proof fn lemma_present_only(entries: Seq<(Seq<char>, String)>, present: Seq<Seq<char>>)
    ensures
        forall|k: int|
            0 <= k < present_registrations(entries, present).len() ==> present.contains(
                (#[trigger] present_registrations(entries, present)[k]).1,
            ),
    decreases entries.len(),
{
    if entries.len() > 0 {
        let f = present_registrations(entries.drop_last(), present);
        let all = present_registrations(entries, present);
        lemma_present_only(entries.drop_last(), present);
        assert forall|k: int| 0 <= k < all.len() implies present.contains(
            (#[trigger] all[k]).1,
        ) by {
            if k < f.len() {
                assert(all[k] == f[k]);
            }
        }
    }
}

/// Each registration that a scan makes is of a socket that was found, for the
/// resource that the socket stands for.
pub proof fn law_scans_register_what_is_found(
    sockets: Map<Seq<char>, Seq<char>>,
    paths: Seq<Seq<char>>,
    k: int,
)
    requires
        0 <= k < scan_registrations(sockets, paths).len(),
    ensures
        paths.contains(scan_registrations(sockets, paths)[k].1),
        resource_of_socket(scan_registrations(sockets, paths)[k].1) == Some(
            scan_registrations(sockets, paths)[k].0,
        ),
    decreases paths.len(),
{
    let front = scan_registrations(sockets, paths.drop_last());
    let all = scan_registrations(sockets, paths);
    if k < front.len() {
        law_scans_register_what_is_found(sockets, paths.drop_last(), k);
        assert(all[k] == front[k]);
        let i = choose|i: int|
            0 <= i < paths.drop_last().len() && paths.drop_last()[i] == all[k].1;
        assert(paths[i] == all[k].1);
    } else {
        assert(paths[paths.len() - 1] == all[k].1);
    }
}

/// A resource has the socket of its last registration.
pub proof fn law_last_registration_counts(
    sockets: Map<Seq<char>, Seq<char>>,
    list: Seq<Registration>,
    resource: Seq<char>,
    socket: Seq<char>,
    other: Seq<char>,
)
    ensures
        sockets_after(sockets, list.push((resource, socket)))[resource] == socket,
        sockets_after(sockets, list.push((resource, socket))).contains_key(resource),
        other != resource ==> sockets_after(
            sockets,
            list.push((resource, socket)),
        ).contains_key(other) == sockets_after(sockets, list).contains_key(other),
        sockets_after(sockets, Seq::empty()) == sockets,
{
    assert(list.push((resource, socket)).drop_last() =~= list);
}

/// A refreshed plugin has the devices that it reported, and what it was before
/// stays: its name, its socket and what its devices are in use for.
pub proof fn law_refreshed_plugins_keep_their_allocations(
    before: DeviceManager,
    resource: Seq<char>,
    reply: ListReply,
    after: DeviceManager,
    r: Result<(), KubeletError>,
)
    requires
        refreshed(before, resource, reply, after, r),
    ensures
        r is Ok <==> before.plugins@.contains_key(resource) && reply is Update,
        r is Ok ==> {
            &&& after.plugins@.contains_key(resource)
            &&& after.plugins@[resource].allocations == before.plugins@[resource].allocations
            &&& after.plugins@[resource].socket_path == before.plugins@[resource].socket_path
            &&& after.plugins@[resource].devices@.len() == reply->Update_0@.len()
        },
        r is Err ==> after.plugins@ == before.plugins@,
{
    if before.plugins@.contains_key(resource) && r is Ok {
        let devices = choose|devices: Vec<Device>| #[trigger]
            list_reply(resource, reply, Ok(devices)) && after.plugins@ == before.plugins@.insert(
                resource,
                PluginEndpoint { devices, ..before.plugins@[resource] },
            );
        law_lists_come_from_updates(resource, reply, Ok(devices));
    }
    if before.plugins@.contains_key(resource) && r is Err {
        law_lists_come_from_updates(resource, reply, Err(r->Err_0));
    }
}

/// A socket that is registered as it stands is not registered again; any other
/// is.
pub proof fn law_known_sockets_are_not_registered_again(
    sockets: Map<Seq<char>, Seq<char>>,
    path: Seq<char>,
    resource: Seq<char>,
)
    requires
        resource_of_socket(path) == Some(resource),
    ensures
        sockets.contains_key(resource) && sockets[resource] == path ==> scan_registrations(
            sockets,
            seq![path],
        ).len() == 0,
        !(sockets.contains_key(resource) && sockets[resource] == path) ==> scan_registrations(
            sockets,
            seq![path],
        ) == seq![(resource, path)],
{
    let one = seq![path];
    assert(one.drop_last() =~= Seq::<Seq<char>>::empty());
    assert(one.last() == path);
    let none = scan_registrations(sockets, one.drop_last());
    assert(none =~= Seq::<Registration>::empty());
    assert(sockets_after(sockets, none) == sockets);
    assert(none.push((resource, path)) =~= seq![(resource, path)]);
}

/// A resource without a plugin is told by its name.
pub proof fn law_missing_plugins_are_told(resource: Seq<char>)
    ensures
        no_plugin_text(resource) == "no device plugin for resource '"@ + resource + "'"@,
{
}

/// What a pod is granted is added to what it holds, and no other pod is
/// touched.
pub proof fn law_grants_are_added(
    before: DeviceManager,
    pod: Seq<char>,
    container: Seq<char>,
    resource: Seq<char>,
    ids: Vec<String>,
    after: DeviceManager,
    other: Seq<char>,
    i: int,
)
    requires
        remembered(before, pod, container, resource, ids, after),
    ensures
        after.pod_allocations@.contains_key(pod),
        other != pod ==> after.pod_allocations@.contains_key(other)
            == before.pod_allocations@.contains_key(other),
        before.pod_allocations@.contains_key(pod) && 0 <= i < before.pod_allocations@[pod]@.len()
            ==> after.pod_allocations@[pod]@.len() == before.pod_allocations@[pod]@.len() + 1
            && after.pod_allocations@[pod]@[i] == before.pod_allocations@[pod]@[i],
        !before.pod_allocations@.contains_key(pod) ==> after.pod_allocations@[pod]@.len() == 1,
        after.pod_allocations@[pod]@.last().container_name@ == container,
        after.pod_allocations@[pod]@.last().resource_name@ == resource,
        after.pod_allocations@[pod]@.last().device_ids == ids,
{
    if before.pod_allocations@.contains_key(pod) && 0 <= i < before.pod_allocations@[pod]@.len() {
        assert(after.pod_allocations@[pod]@.drop_last()[i] == before.pod_allocations@[pod]@[i]);
    }
}

/// What is held by a container is kept under the pod and the container.
pub proof fn law_allocations_are_kept_by_pod_and_container(
    pod: Seq<char>,
    container: Seq<char>,
    a: PluginEndpoint,
    b: PluginEndpoint,
)
    ensures
        allocation_key_of(pod, container) == pod + ":"@ + container,
        same_plugin(a, b) <==> a.resource_name == b.resource_name && a.socket_path == b.socket_path
            && a.devices == b.devices,
{
}

/// A plugin that is found anew has its resource and its socket, and neither
/// devices nor allocations; all other plugins stay as they are.
pub proof fn law_new_plugins_start_empty(
    before: Map<Seq<char>, PluginEndpoint>,
    paths: Seq<Seq<char>>,
    after: Map<Seq<char>, PluginEndpoint>,
    k: Seq<char>,
    key: Seq<char>,
)
    requires
        registered_anew(before, paths, after),
    ensures
        finds_new_socket(before, paths, k) ==> after.contains_key(k) && after[k].resource_name@ == k
            && socket_for(paths, k) is Some && after[k].socket_path@ == socket_for(paths, k)->0
            && after[k].devices@.len() == 0 && !after[k].allocations@.contains_key(key),
        !finds_new_socket(before, paths, k) ==> after.contains_key(k) == before.contains_key(k),
        !finds_new_socket(before, paths, k) && before.contains_key(k) ==> after[k] == before[k],
{
    if finds_new_socket(before, paths, k) {
        assert(after.contains_key(k) && is_fresh(after[k], k, socket_for(paths, k)->0));
    }
}

/// A plugin that does not list its devices is told by what went wrong.
pub proof fn law_failed_lists_are_told(
    resource: Seq<char>,
    reply: ListReply,
    r: Result<Vec<Device>, KubeletError>,
)
    requires
        list_reply(resource, reply, r),
    ensures
        reply matches ListReply::CallFailed(e) ==> {
            &&& r is Err
            &&& r->Err_0 is Resource
            &&& r->Err_0->Resource_0@ == "device plugin ListAndWatch RPC failed: "@ + e@
        },
        reply matches ListReply::StreamFailed(e) ==> {
            &&& r is Err
            &&& r->Err_0 is Resource
            &&& r->Err_0->Resource_0@ == "device plugin ListAndWatch stream failed: "@
                + e@
        },
        reply is Ended ==> {
            &&& r is Err
            &&& r->Err_0 is Resource
            &&& r->Err_0->Resource_0@ == "device plugin '"@ + resource
                + "' closed ListAndWatch without publishing devices"@
        },
{
}

} // verus!
