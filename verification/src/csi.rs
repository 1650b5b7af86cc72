//! Volumes that storage plugins provide.
pub mod proto;

use crate::csi::proto::{
    AccessMode, AccessType, NodeGetInfoResponse, NodePublishVolumeRequest, NodeStageVolumeRequest,
    NodeUnpublishVolumeRequest, VolumeCapability,
};
use crate::error::KubeletError;
use crate::paths::{file_name, file_name_of, join_path, path_join};
use crate::strmap::{copy_text_map, StrMap};
use crate::text::{cat3, copy_strings, opt_text, texts};
use vstd::prelude::*;

verus! {

/// A registered storage plugin.
#[derive(Debug)]
pub struct CsiPlugin {
    pub name: String,
    pub socket_path: String,
    pub node_id: String,
    pub max_volumes_per_node: i64,
    pub accessible_topology: StrMap<String>,
}

/// A volume and where it is wanted.
#[derive(Debug)]
pub struct CsiVolumeContext {
    pub volume_id: String,
    pub volume_attributes: StrMap<String>,
    pub target_path: String,
    pub staging_target_path: Option<String>,
    pub read_only: bool,
    pub access_type: AccessType,
    pub fs_type: Option<String>,
    pub mount_flags: Vec<String>,
    pub secrets: StrMap<String>,
}

// ---------------------------------------------------------------------------
// The registry
// ---------------------------------------------------------------------------

/// Keeps the registered plugins by the names of their drivers.
#[derive(Debug)]
pub struct CsiPluginRegistry {
    pub plugins: StrMap<CsiPlugin>,
    pub plugin_dir: String,
}

/// An entry of the plugin directory.
#[derive(Debug)]
pub struct PluginDirEntry {
    pub path: String,
    pub is_dir: bool,
    /// Whether it holds a socket.
    pub has_socket: bool,
}

/// The driver whose plugin an entry of the plugin directory is.
pub open spec fn driver_of_entry(e: PluginDirEntry) -> Option<Seq<char>> {
    match file_name_of(e.path@) {
        Some(n) => if e.is_dir && e.has_socket && n.len() > 0 {
            Some(n)
        } else {
            None
        },
        None => None,
    }
}

/// The socket of the first entry that is the plugin of `driver`.
pub open spec fn found_socket(entries: Seq<PluginDirEntry>, driver: Seq<char>) -> Option<Seq<char>>
    decreases entries.len(),
{
    if entries.len() == 0 {
        None
    } else {
        match found_socket(entries.drop_last(), driver) {
            Some(s) => Some(s),
            None => if driver_of_entry(entries.last()) == Some(driver) {
                Some(path_join(entries.last().path@, "csi.sock"@))
            } else {
                None
            },
        }
    }
}

/// A plugin of which only the socket is known.
pub open spec fn discovered(p: CsiPlugin, driver: Seq<char>, socket: Seq<char>) -> bool {
    &&& p.name@ == driver
    &&& p.socket_path@ == socket
    &&& p.node_id@.len() == 0
    &&& p.max_volumes_per_node == 0
    &&& p.accessible_topology@ == Map::<Seq<char>, String>::empty()
}

/// The registry after the plugin directory was looked through: known plugins
/// stay, and the others that were found are added.
pub open spec fn scanned(
    before: Map<Seq<char>, CsiPlugin>,
    entries: Seq<PluginDirEntry>,
    after: Map<Seq<char>, CsiPlugin>,
) -> bool {
    forall|k: Seq<char>|
        if before.contains_key(k) {
            (#[trigger] after.contains_key(k)) && after[k] == before[k]
        } else {
            match found_socket(entries, k) {
                Some(s) => after.contains_key(k) && discovered(after[k], k, s),
                None => !after.contains_key(k),
            }
        }
}

impl CsiPluginRegistry {
    pub fn new(plugin_dir: &str) -> (r: Self)
        ensures
            r.plugins@ == Map::<Seq<char>, CsiPlugin>::empty(),
            r.plugin_dir@ == plugin_dir@,
    {
        CsiPluginRegistry { plugins: StrMap::new(), plugin_dir: plugin_dir.to_owned() }
    }

    /// Registers a plugin in place of the one of the same driver.
    pub fn register(&mut self, plugin: CsiPlugin)
        ensures
            final(self).plugins@ == old(self).plugins@.insert(plugin.name@, plugin),
            final(self).plugin_dir == old(self).plugin_dir,
    {
        self.plugins.insert(plugin.name.clone(), plugin);
    }

    /// Forgets the plugin of a driver.
    pub fn deregister(&mut self, driver_name: &str)
        ensures
            final(self).plugins@ == old(self).plugins@.remove(driver_name@),
            final(self).plugin_dir == old(self).plugin_dir,
    {
        let _ = self.plugins.remove(driver_name);
    }

    /// The plugin of a driver.
    pub fn get(&self, driver_name: &str) -> (r: Option<&CsiPlugin>)
        ensures
            match r {
                Some(p) => self.plugins@.contains_key(driver_name@) && *p
                    == self.plugins@[driver_name@],
                None => !self.plugins@.contains_key(driver_name@),
            },
    {
        self.plugins.get(driver_name)
    }

    pub fn plugin_count(&self) -> (r: usize)
        ensures
            r == self.plugins@.len(),
    {
        self.plugins.len()
    }

    /// All plugins.
    pub fn list(&self) -> (r: Vec<&CsiPlugin>)
        ensures
            r@.len() == self.plugins.pairs().len(),
            forall|i: int|
                0 <= i < r@.len() ==> *(#[trigger] r@[i]) == self.plugins.pairs()[i].1,
    {
        let n: usize = self.plugins.len();
        let mut out: Vec<&CsiPlugin> = Vec::new();
        let mut i: usize = 0;
        while i < n
            invariant
                i <= n == self.plugins.pairs().len(),
                out@.len() == i,
                forall|k: int| 0 <= k < i ==> *(#[trigger] out@[k]) == self.plugins.pairs()[k].1,
            decreases n - i,
        {
            out.push(self.plugins.value_at(i));
            i = i + 1;
        }
        out
    }

    /// Adds the plugins in the plugin directory that are not known yet. The
    /// directory of a plugin has the name of its driver and holds its socket.
    pub fn scan(&mut self, entries: &Vec<PluginDirEntry>)
        ensures
            scanned(old(self).plugins@, entries@, final(self).plugins@),
            final(self).plugin_dir == old(self).plugin_dir,
    {
        let ghost start = self.plugins@;
        let mut i: usize = 0;
        while i < entries.len()
            invariant
                i <= entries@.len(),
                start == old(self).plugins@,
                self.plugin_dir == old(self).plugin_dir,
                scanned(start, entries@.take(i as int), self.plugins@),
            decreases entries@.len() - i,
        {
            let ghost before = self.plugins@;
            let e = &entries[i];
            assert(entries@.take(i + 1).drop_last() =~= entries@.take(i as int));
            if e.is_dir && e.has_socket {
                if let Some(name) = file_name(e.path.as_str()) {
                    if !name.as_str().is_empty() && !self.plugins.contains_key(name.as_str()) {
                        let plugin = CsiPlugin {
                            name: name.clone(),
                            socket_path: join_path(e.path.as_str(), "csi.sock"),
                            node_id: String::new(),
                            max_volumes_per_node: 0,
                            accessible_topology: StrMap::new(),
                        };
                        self.plugins.insert(name, plugin);
                    }
                }
            }
            proof {
                assert forall|k: Seq<char>|
                    if start.contains_key(k) {
                        (#[trigger] self.plugins@.contains_key(k)) && self.plugins@[k] == start[k]
                    } else {
                        match found_socket(entries@.take(i + 1), k) {
                            Some(s) => self.plugins@.contains_key(k) && discovered(
                                self.plugins@[k],
                                k,
                                s,
                            ),
                            None => !self.plugins@.contains_key(k),
                        }
                    } by {
                    assert(before.contains_key(k) || !before.contains_key(k));
                    assert(entries@.take(i + 1).last() == *e);
                    if driver_of_entry(*e) == Some(k) {
                        assert(self.plugins@.contains_key(k));
                    } else {
                        assert(self.plugins@.contains_key(k) == before.contains_key(k));
                    }
                }
            }
            i = i + 1;
        }
        assert(entries@.take(i as int) =~= entries@);
    }
}

// ---------------------------------------------------------------------------
// The client
// ---------------------------------------------------------------------------

/// Talks to a plugin through its socket.
#[derive(Debug)]
pub struct CsiClient {
    pub socket_path: String,
}

impl CsiClient {
    pub fn new(socket_path: &str) -> (r: Self)
        ensures
            r.socket_path@ == socket_path@,
    {
        CsiClient { socket_path: socket_path.to_owned() }
    }

    /// What a plugin says of the node: its host name, where there is one.
    pub fn node_get_info(&self, host_name: &Option<String>) -> (r: NodeGetInfoResponse)
        ensures
            r.node_id@ == match *host_name {
                Some(h) => h@,
                None => "unknown"@,
            },
            r.max_volumes_per_node == 0,
            r.accessible_topology@ == Map::<Seq<char>, String>::empty(),
    {
        let node_id = match host_name {
            Some(h) => h.clone(),
            None => "unknown".to_owned(),
        };
        NodeGetInfoResponse {
            node_id,
            max_volumes_per_node: 0,
            accessible_topology: StrMap::new(),
        }
    }
}

// ---------------------------------------------------------------------------
// The volume manager
// ---------------------------------------------------------------------------

/// A volume that was published.
#[derive(Debug)]
pub struct PublishedVolume {
    /// Where the volume is.
    pub target_path: String,
    /// The driver that published it.
    pub driver: Option<String>,
}

/// Keeps which volumes are staged and published on the node.
#[derive(Debug)]
pub struct CsiVolumeManager {
    pub registry: CsiPluginRegistry,
    /// The published volumes.
    pub published: StrMap<PublishedVolume>,
    /// Where each staged volume is.
    pub staged: StrMap<String>,
}

/// A staging request and the socket to which it goes.
#[derive(Debug)]
pub struct StageCall {
    pub socket_path: String,
    pub request: NodeStageVolumeRequest,
}

/// A publishing request and the socket to which it goes.
#[derive(Debug)]
pub struct PublishCall {
    pub socket_path: String,
    pub request: NodePublishVolumeRequest,
}

/// An unpublishing request and the socket to which it goes.
#[derive(Debug)]
pub struct UnpublishCall {
    pub socket_path: String,
    pub request: NodeUnpublishVolumeRequest,
}

/// The driver that a volume's attributes name.
pub open spec fn driver_attribute(ctx: CsiVolumeContext) -> Option<Seq<char>> {
    if ctx.volume_attributes@.contains_key("csi.storage.k8s.io/driver"@) {
        Some(ctx.volume_attributes@["csi.storage.k8s.io/driver"@]@)
    } else {
        None
    }
}

/// Where a volume is to be staged; nowhere in particular where nothing says.
pub open spec fn staging_text(ctx: CsiVolumeContext) -> Seq<char> {
    match ctx.staging_target_path {
        Some(p) => p@,
        None => Seq::empty(),
    }
}

/// How a volume is to be used: by a single writer, on this node.
pub open spec fn capability_is(ctx: CsiVolumeContext, c: VolumeCapability) -> bool {
    &&& c.access_mode == AccessMode::SingleNodeWriter
    &&& c.access_type == ctx.access_type
    &&& c.fs_type@ == match ctx.fs_type {
        Some(f) => f@,
        None => Seq::empty(),
    }
    &&& texts(c.mount_flags@) == texts(ctx.mount_flags@)
}

pub open spec fn stage_request_is(ctx: CsiVolumeContext, q: NodeStageVolumeRequest) -> bool {
    &&& q.volume_id == ctx.volume_id
    &&& q.publish_context@ == Map::<Seq<char>, String>::empty()
    &&& q.staging_target_path@ == staging_text(ctx)
    &&& capability_is(ctx, q.volume_capability)
    &&& q.secrets@ == ctx.secrets@
    &&& q.volume_context@ == ctx.volume_attributes@
}

/// Where a volume is published from: where it was staged, else where it was to
/// be staged, else the plugin directory.
pub open spec fn publish_source(staged: Map<Seq<char>, String>, ctx: CsiVolumeContext) -> Seq<char> {
    if staged.contains_key(ctx.volume_id@) {
        staged[ctx.volume_id@]@
    } else {
        match ctx.staging_target_path {
            Some(p) => p@,
            None => "/var/lib/kubelet/plugins"@,
        }
    }
}

pub open spec fn publish_request_is(
    staged: Map<Seq<char>, String>,
    ctx: CsiVolumeContext,
    q: NodePublishVolumeRequest,
) -> bool {
    &&& q.volume_id == ctx.volume_id
    &&& q.publish_context@ == Map::<Seq<char>, String>::empty()
    &&& q.staging_target_path@ == publish_source(staged, ctx)
    &&& q.target_path == ctx.target_path
    &&& capability_is(ctx, q.volume_capability)
    &&& q.readonly == ctx.read_only
    &&& q.secrets@ == ctx.secrets@
    &&& q.volume_context@ == ctx.volume_attributes@
}

/// What is said of a volume that names no driver.
pub open spec fn missing_driver(e: KubeletError) -> bool {
    e matches KubeletError::Storage(m) && m@ == "missing csi.storage.k8s.io/driver attribute"@
}

/// The volume is published, with its place and its driver.
pub open spec fn published_by(
    before: Map<Seq<char>, PublishedVolume>,
    ctx: CsiVolumeContext,
    after: Map<Seq<char>, PublishedVolume>,
) -> bool {
    &&& after.contains_key(ctx.volume_id@)
    &&& after == before.insert(ctx.volume_id@, after[ctx.volume_id@])
    &&& after[ctx.volume_id@].target_path == ctx.target_path
    &&& opt_text(after[ctx.volume_id@].driver) == driver_attribute(ctx)
}

/// Where a volume is unpublished: at the plugin of the driver that published
/// it, else at the first plugin.
pub open spec fn unpublish_socket(
    published: Map<Seq<char>, PublishedVolume>,
    registry: CsiPluginRegistry,
    volume_id: Seq<char>,
) -> Seq<char> {
    let driver = if published.contains_key(volume_id) {
        opt_text(published[volume_id].driver)
    } else {
        None
    };
    if driver matches Some(d) && registry.plugins@.contains_key(d) {
        registry.plugins@[driver->0].socket_path@
    } else if registry.plugins.pairs().len() > 0 {
        registry.plugins.pairs()[0].1.socket_path@
    } else {
        "/tmp/fake-csi.sock"@
    }
}

fn capability(ctx: &CsiVolumeContext) -> (r: VolumeCapability)
    ensures
        capability_is(*ctx, r),
{
    let fs_type = match &ctx.fs_type {
        Some(f) => f.clone(),
        None => String::new(),
    };
    assert(ctx.fs_type is None ==> fs_type@ =~= Seq::<char>::empty());
    VolumeCapability {
        access_mode: AccessMode::SingleNodeWriter,
        access_type: ctx.access_type,
        fs_type,
        mount_flags: copy_strings(&ctx.mount_flags),
    }
}

impl CsiVolumeManager {
    pub fn new(plugin_dir: &str) -> (r: Self)
        ensures
            r.registry.plugins@ == Map::<Seq<char>, CsiPlugin>::empty(),
            r.registry.plugin_dir@ == plugin_dir@,
            r.published@ == Map::<Seq<char>, PublishedVolume>::empty(),
            r.staged@ == Map::<Seq<char>, String>::empty(),
    {
        CsiVolumeManager {
            registry: CsiPluginRegistry::new(plugin_dir),
            published: StrMap::new(),
            staged: StrMap::new(),
        }
    }

    /// The driver that a volume's attributes name.
    pub fn driver_name(ctx: &CsiVolumeContext) -> (r: Option<String>)
        ensures
            opt_text(r) == driver_attribute(*ctx),
    {
        match ctx.volume_attributes.get("csi.storage.k8s.io/driver") {
            Some(d) => Some(d.clone()),
            None => None,
        }
    }

    /// The request that stages a volume. The plugin of its driver has to be
    /// registered.
    pub fn stage_volume(&self, ctx: &CsiVolumeContext) -> (r: Result<StageCall, KubeletError>)
        ensures
            match driver_attribute(*ctx) {
                None => r matches Err(e) && missing_driver(e),
                Some(d) => if self.registry.plugins@.contains_key(d) {
                    r matches Ok(c) && c.socket_path == self.registry.plugins@[d].socket_path
                        && stage_request_is(*ctx, c.request)
                } else {
                    r matches Err(KubeletError::Storage(m)) && m@
                        == "no CSI plugin registered for driver '"@ + d + "'"@
                },
            },
    {
        let driver = match CsiVolumeManager::driver_name(ctx) {
            Some(d) => d,
            None => {
                return Err(
                    KubeletError::Storage("missing csi.storage.k8s.io/driver attribute".to_owned()),
                );
            },
        };
        let plugin = match self.registry.get(driver.as_str()) {
            Some(p) => p,
            None => {
                return Err(
                    KubeletError::Storage(
                        cat3("no CSI plugin registered for driver '", driver.as_str(), "'"),
                    ),
                );
            },
        };
        let staging = match &ctx.staging_target_path {
            Some(p) => p.clone(),
            None => String::new(),
        };
        assert(staging@ =~= staging_text(*ctx));
        Ok(
            StageCall {
                socket_path: plugin.socket_path.clone(),
                request: NodeStageVolumeRequest {
                    volume_id: ctx.volume_id.clone(),
                    publish_context: StrMap::new(),
                    staging_target_path: staging,
                    volume_capability: capability(ctx),
                    secrets: copy_text_map(&ctx.secrets),
                    volume_context: copy_text_map(&ctx.volume_attributes),
                },
            },
        )
    }

    /// Takes the outcome of a staging request: a volume that was staged is
    /// remembered with its place.
    pub fn finish_stage(&mut self, ctx: &CsiVolumeContext, outcome: Result<(), KubeletError>) -> (r:
        Result<(), KubeletError>)
        ensures
            r == outcome,
            final(self).registry == old(self).registry,
            final(self).published == old(self).published,
            if outcome is Ok {
                final(self).staged@.contains_key(ctx.volume_id@) && final(
                    self).staged@[ctx.volume_id@]@ == staging_text(*ctx) && final(self).staged@
                    == old(self).staged@.insert(
                    ctx.volume_id@,
                    final(self).staged@[ctx.volume_id@],
                )
            } else {
                final(self).staged == old(self).staged
            },
    {
        if outcome.is_ok() {
            let staging = match &ctx.staging_target_path {
                Some(p) => p.clone(),
                None => String::new(),
            };
            assert(staging@ =~= staging_text(*ctx));
            self.staged.insert(ctx.volume_id.clone(), staging);
        }
        outcome
    }

    /// The request that publishes a volume.
    pub fn publish_volume(&self, ctx: &CsiVolumeContext) -> (r: Result<PublishCall, KubeletError>)
        ensures
            match driver_attribute(*ctx) {
                None => r matches Err(e) && missing_driver(e),
                Some(d) => r matches Ok(c) && publish_request_is(self.staged@, *ctx, c.request)
                    && c.socket_path@ == if self.registry.plugins@.contains_key(d) {
                    self.registry.plugins@[d].socket_path@
                } else {
                    "/tmp/fake-csi.sock"@
                },
            },
    {
        let driver = match CsiVolumeManager::driver_name(ctx) {
            Some(d) => d,
            None => {
                return Err(
                    KubeletError::Storage("missing csi.storage.k8s.io/driver attribute".to_owned()),
                );
            },
        };
        let socket_path = match self.registry.get(driver.as_str()) {
            Some(p) => p.socket_path.clone(),
            None => "/tmp/fake-csi.sock".to_owned(),
        };
        let staging = match self.staged.get(ctx.volume_id.as_str()) {
            Some(p) => p.clone(),
            None => match &ctx.staging_target_path {
                Some(p) => p.clone(),
                None => "/var/lib/kubelet/plugins".to_owned(),
            },
        };
        Ok(
            PublishCall {
                socket_path,
                request: NodePublishVolumeRequest {
                    volume_id: ctx.volume_id.clone(),
                    publish_context: StrMap::new(),
                    staging_target_path: staging,
                    target_path: ctx.target_path.clone(),
                    volume_capability: capability(ctx),
                    readonly: ctx.read_only,
                    secrets: copy_text_map(&ctx.secrets),
                    volume_context: copy_text_map(&ctx.volume_attributes),
                },
            },
        )
    }

    /// Takes the outcome of a publishing request: a volume that was published
    /// is remembered with its place and its driver.
    pub fn finish_publish(&mut self, ctx: &CsiVolumeContext, outcome: Result<(), KubeletError>) -> (r:
        Result<(), KubeletError>)
        ensures
            r == outcome,
            final(self).registry == old(self).registry,
            final(self).staged == old(self).staged,
            if outcome is Ok {
                published_by(old(self).published@, *ctx, final(self).published@)
            } else {
                final(self).published == old(self).published
            },
    {
        if outcome.is_ok() {
            let volume = PublishedVolume {
                target_path: ctx.target_path.clone(),
                driver: CsiVolumeManager::driver_name(ctx),
            };
            self.published.insert(ctx.volume_id.clone(), volume);
        }
        outcome
    }

    /// The request that unpublishes a volume. The plugin directory is looked
    /// through first; the request then goes to the plugin that published the
    /// volume, or to the first one where that one is not there.
    pub fn unpublish_volume(
        &mut self,
        volume_id: &str,
        target_path: &str,
        entries: &Vec<PluginDirEntry>,
    ) -> (r: UnpublishCall)
        ensures
            scanned(old(self).registry.plugins@, entries@, final(self).registry.plugins@),
            final(self).registry.plugin_dir == old(self).registry.plugin_dir,
            final(self).published == old(self).published,
            final(self).staged == old(self).staged,
            r.request.volume_id@ == volume_id@,
            r.request.target_path@ == target_path@,
            r.socket_path@ == unpublish_socket(
                old(self).published@,
                final(self).registry,
                volume_id@,
            ),
    {
        self.registry.scan(entries);
        let driver = match self.published.get(volume_id) {
            Some(v) => v.driver.as_ref(),
            None => None,
        };
        let plugin = match driver {
            Some(d) => self.registry.get(d.as_str()),
            None => None,
        };
        let all = self.registry.list();
        let socket_path = match plugin {
            Some(p) => p.socket_path.clone(),
            None => if all.len() > 0 {
                all[0].socket_path.clone()
            } else {
                "/tmp/fake-csi.sock".to_owned()
            },
        };
        UnpublishCall {
            socket_path,
            request: NodeUnpublishVolumeRequest {
                volume_id: volume_id.to_owned(),
                target_path: target_path.to_owned(),
            },
        }
    }

    /// Takes the outcome of an unpublishing request: a volume that was
    /// unpublished is forgotten.
    pub fn finish_unpublish(&mut self, volume_id: &str, outcome: Result<(), KubeletError>) -> (r:
        Result<(), KubeletError>)
        ensures
            r == outcome,
            final(self).registry == old(self).registry,
            final(self).staged == old(self).staged,
            final(self).published@ == if outcome is Ok {
                old(self).published@.remove(volume_id@)
            } else {
                old(self).published@
            },
    {
        if outcome.is_ok() {
            let _ = self.published.remove(volume_id);
        }
        outcome
    }

    pub fn is_published(&self, volume_id: &str) -> (r: bool)
        ensures
            r == self.published@.contains_key(volume_id@),
    {
        self.published.contains_key(volume_id)
    }

    pub fn is_staged(&self, volume_id: &str) -> (r: bool)
        ensures
            r == self.staged@.contains_key(volume_id@),
    {
        self.staged.contains_key(volume_id)
    }

    /// How many volumes are published.
    pub fn mounted_count(&self) -> (r: usize)
        ensures
            r == self.published@.len(),
    {
        self.published.len()
    }
}

/// Unpublishing a volume right after it was published leaves the published
/// volumes as they were before, where it was not published then.
pub proof fn law_unpublish_undoes_publish(
    before: Map<Seq<char>, PublishedVolume>,
    ctx: CsiVolumeContext,
    between: Map<Seq<char>, PublishedVolume>,
)
    requires
        !before.contains_key(ctx.volume_id@),
        published_by(before, ctx, between),
    ensures
        between.remove(ctx.volume_id@) == before,
{
    assert(between.remove(ctx.volume_id@) =~= before);
}

/// A volume is unpublished at the plugin at which it was published, as long as
/// that one is registered.
pub proof fn law_unpublish_goes_where_publish_went(
    before: Map<Seq<char>, PublishedVolume>,
    ctx: CsiVolumeContext,
    published: Map<Seq<char>, PublishedVolume>,
    registry: CsiPluginRegistry,
)
    requires
        published_by(before, ctx, published),
        driver_attribute(ctx) is Some,
        registry.plugins@.contains_key(driver_attribute(ctx)->0),
    ensures
        unpublish_socket(published, registry, ctx.volume_id@)
            == registry.plugins@[driver_attribute(ctx)->0].socket_path@,
{
}

/// A volume that was staged is published from where it was staged, whatever the
/// context of the publishing says.
pub proof fn law_publish_uses_the_staged_place(
    staged: Map<Seq<char>, String>,
    at_stage: CsiVolumeContext,
    at_publish: CsiVolumeContext,
    place: String,
)
    requires
        at_publish.volume_id@ == at_stage.volume_id@,
        place@ == staging_text(at_stage),
    ensures
        publish_source(staged.insert(at_stage.volume_id@, place), at_publish) == staging_text(
            at_stage,
        ),
{
}

/// Looking through the plugin directory again changes nothing.
pub proof fn law_scan_is_idempotent(
    a: Map<Seq<char>, CsiPlugin>,
    entries: Seq<PluginDirEntry>,
    b: Map<Seq<char>, CsiPlugin>,
    c: Map<Seq<char>, CsiPlugin>,
)
    requires
        scanned(a, entries, b),
        scanned(b, entries, c),
    ensures
        c == b,
{
    assert forall|k: Seq<char>| c.contains_key(k) == b.contains_key(k) && (b.contains_key(k)
        ==> c[k] == b[k]) by {
        assert(b.contains_key(k) || !b.contains_key(k));
        assert(c.contains_key(k) || !c.contains_key(k));
    }
    assert(c =~= b);
}

/// What a plugin is asked for when a volume is staged is what the volume's
/// description says, each under its own name.
pub proof fn law_stage_request_keeps_its_parts(ctx: CsiVolumeContext, q: NodeStageVolumeRequest)
    requires
        stage_request_is(ctx, q),
    ensures
        q.volume_id@ == ctx.volume_id@,
        ctx.staging_target_path matches Some(p) ==> q.staging_target_path@ == p@,
        q.secrets@ == ctx.secrets@,
        q.volume_context@ == ctx.volume_attributes@,
        q.publish_context@ == Map::<Seq<char>, String>::empty(),
        q.volume_capability.access_type == ctx.access_type,
        q.volume_capability.access_mode is SingleNodeWriter,
        ctx.fs_type matches Some(f) ==> q.volume_capability.fs_type@ == f@,
        ctx.fs_type is None ==> q.volume_capability.fs_type@.len() == 0,
        texts(q.volume_capability.mount_flags@) == texts(ctx.mount_flags@),
{
}

/// What a plugin is asked for when a volume is published is what the volume's
/// description says: the target is the target, and it is read-only only where
/// the description says so.
pub proof fn law_publish_request_keeps_its_parts(
    staged: Map<Seq<char>, String>,
    ctx: CsiVolumeContext,
    q: NodePublishVolumeRequest,
)
    requires
        publish_request_is(staged, ctx, q),
    ensures
        q.volume_id@ == ctx.volume_id@,
        q.target_path@ == ctx.target_path@,
        staged.contains_key(ctx.volume_id@) ==> q.staging_target_path@ == staged[ctx.volume_id@]@,
        !staged.contains_key(ctx.volume_id@) ==> (ctx.staging_target_path matches Some(p)
            ==> q.staging_target_path@ == p@),
        q.readonly <==> ctx.read_only,
        q.secrets@ == ctx.secrets@,
        q.volume_context@ == ctx.volume_attributes@,
        q.volume_capability.access_type == ctx.access_type,
        ctx.fs_type matches Some(f) ==> q.volume_capability.fs_type@ == f@,
        texts(q.volume_capability.mount_flags@) == texts(ctx.mount_flags@),
{
}

/// The driver of a volume is the attribute for it.
pub proof fn law_driver_is_an_attribute(ctx: CsiVolumeContext)
    ensures
        driver_attribute(ctx) is Some <==> ctx.volume_attributes@.contains_key(
            "csi.storage.k8s.io/driver"@,
        ),
        driver_attribute(ctx) matches Some(d) ==> d
            == ctx.volume_attributes@["csi.storage.k8s.io/driver"@]@,
{
}

/// A driver is found where a directory of its name holds a socket, and the
/// first such directory counts.
pub proof fn law_drivers_are_found_by_directory(
    entries: Seq<PluginDirEntry>,
    driver: Seq<char>,
    i: int,
)
    ensures
        0 <= i < entries.len() && entries[i].is_dir && entries[i].has_socket && driver.len() > 0
            && file_name_of(entries[i].path@) == Some(driver) && (forall|j: int|
            0 <= j < i ==> file_name_of((#[trigger] entries[j]).path@) != Some(driver))
            ==> found_socket(entries, driver) == Some(
            path_join(entries[i].path@, "csi.sock"@),
        ),
        (forall|j: int|
            0 <= j < entries.len() ==> file_name_of((#[trigger] entries[j]).path@) != Some(driver)
                || !entries[j].is_dir || !entries[j].has_socket) ==> found_socket(entries, driver)
            is None,
    decreases entries.len(),
{
    if entries.len() > 0 {
        let front = entries.drop_last();
        let n = entries.len() - 1;
        law_drivers_are_found_by_directory(front, driver, i);
        if forall|j: int|
            0 <= j < entries.len() ==> file_name_of((#[trigger] entries[j]).path@) != Some(driver)
                || !entries[j].is_dir || !entries[j].has_socket {
            assert forall|j: int| 0 <= j < front.len() implies file_name_of(
                (#[trigger] front[j]).path@,
            ) != Some(driver) || !front[j].is_dir || !front[j].has_socket by {
                assert(front[j] == entries[j]);
            }
            assert(file_name_of(entries[n].path@) != Some(driver) || !entries[n].is_dir
                || !entries[n].has_socket);
        }
        if 0 <= i < entries.len() && entries[i].is_dir && entries[i].has_socket && driver.len() > 0
            && file_name_of(entries[i].path@) == Some(driver) && (forall|j: int|
            0 <= j < i ==> file_name_of((#[trigger] entries[j]).path@) != Some(driver)) {
            assert forall|j: int| 0 <= j < i && j < front.len() implies file_name_of(
                (#[trigger] front[j]).path@,
            ) != Some(driver) by {
                assert(front[j] == entries[j]);
            }
            if i < n {
                assert(front[i] == entries[i]);
            } else {
                assert(found_socket(front, driver) is None);
            }
        }
    }
}

/// A volume whose driver is not registered goes to the first plugin there is.
pub proof fn law_unknown_driver_goes_to_the_first_plugin(
    published: Map<Seq<char>, PublishedVolume>,
    registry: CsiPluginRegistry,
    volume_id: Seq<char>,
)
    requires
        !published.contains_key(volume_id),
    ensures
        registry.plugins.pairs().len() > 0 ==> unpublish_socket(published, registry, volume_id)
            == registry.plugins.pairs()[0].1.socket_path@,
{
}

/// A plugin that is found has the name and the socket that were found, and
/// nothing else is known of it.
pub proof fn law_found_plugins_have_their_socket(
    p: CsiPlugin,
    driver: Seq<char>,
    socket: Seq<char>,
    key: Seq<char>,
)
    requires
        discovered(p, driver, socket),
    ensures
        p.name@ == driver,
        p.socket_path@ == socket,
        p.node_id@.len() == 0,
        p.max_volumes_per_node == 0,
        !p.accessible_topology@.contains_key(key),
{
}

/// A volume is published without what a controller would have told of it, from
/// the common directory where it was staged nowhere.
pub proof fn law_publish_request_has_no_controller_context(
    staged: Map<Seq<char>, String>,
    ctx: CsiVolumeContext,
    q: NodePublishVolumeRequest,
    key: Seq<char>,
)
    requires
        publish_request_is(staged, ctx, q),
    ensures
        !q.publish_context@.contains_key(key),
        !staged.contains_key(ctx.volume_id@) && ctx.staging_target_path is None
            ==> q.staging_target_path@ == "/var/lib/kubelet/plugins"@,
{
}

/// A volume without a driver is an error of storage that names the attribute.
pub proof fn law_missing_driver_is_told(e: KubeletError)
    requires
        missing_driver(e),
    ensures
        e is Storage && e->Storage_0@ == "missing csi.storage.k8s.io/driver attribute"@,
{
}

/// Where no plugin is known at all, a volume is unpublished by a socket that
/// stands for none.
pub proof fn law_no_plugin_has_a_stand_in(
    published: Map<Seq<char>, PublishedVolume>,
    registry: CsiPluginRegistry,
    volume_id: Seq<char>,
)
    requires
        registry.plugins.pairs().len() == 0,
        !published.contains_key(volume_id),
    ensures
        unpublish_socket(published, registry, volume_id) == "/tmp/fake-csi.sock"@,
{
}

/// A volume that is published is known with its place and its driver, and the
/// others stay as they are.
pub proof fn law_published_volumes_are_known(
    before: Map<Seq<char>, PublishedVolume>,
    ctx: CsiVolumeContext,
    after: Map<Seq<char>, PublishedVolume>,
    other: Seq<char>,
)
    requires
        published_by(before, ctx, after),
    ensures
        after.contains_key(ctx.volume_id@),
        after[ctx.volume_id@].target_path == ctx.target_path,
        opt_text(after[ctx.volume_id@].driver) == driver_attribute(ctx),
        other != ctx.volume_id@ ==> after.contains_key(other) == before.contains_key(other),
        other != ctx.volume_id@ && before.contains_key(other) ==> after[other] == before[other],
{
}

} // verus!
