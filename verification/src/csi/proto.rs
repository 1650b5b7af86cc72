//! Messages of the container storage interface.
use crate::strmap::StrMap;
use vstd::prelude::*;

verus! {

#[derive(Debug)]
pub struct NodeStageVolumeRequest {
    pub volume_id: String,
    pub publish_context: StrMap<String>,
    pub staging_target_path: String,
    pub volume_capability: VolumeCapability,
    pub secrets: StrMap<String>,
    pub volume_context: StrMap<String>,
}

impl Default for NodeStageVolumeRequest {
    fn default() -> (r: Self)
        ensures
            r.volume_id@.len() == 0,
            r.publish_context@ == Map::<Seq<char>, String>::empty(),
            r.staging_target_path@.len() == 0,
            is_default_capability(r.volume_capability),
            r.secrets@ == Map::<Seq<char>, String>::empty(),
            r.volume_context@ == Map::<Seq<char>, String>::empty(),
    {
        NodeStageVolumeRequest {
            volume_id: String::new(),
            publish_context: StrMap::new(),
            staging_target_path: String::new(),
            volume_capability: VolumeCapability::default(),
            secrets: StrMap::new(),
            volume_context: StrMap::new(),
        }
    }
}

#[derive(Debug)]
pub struct NodePublishVolumeRequest {
    pub volume_id: String,
    pub publish_context: StrMap<String>,
    pub staging_target_path: String,
    pub target_path: String,
    pub volume_capability: VolumeCapability,
    pub readonly: bool,
    pub secrets: StrMap<String>,
    pub volume_context: StrMap<String>,
}

impl Default for NodePublishVolumeRequest {
    fn default() -> (r: Self)
        ensures
            r.volume_id@.len() == 0,
            r.publish_context@ == Map::<Seq<char>, String>::empty(),
            r.staging_target_path@.len() == 0,
            r.target_path@.len() == 0,
            is_default_capability(r.volume_capability),
            !r.readonly,
            r.secrets@ == Map::<Seq<char>, String>::empty(),
            r.volume_context@ == Map::<Seq<char>, String>::empty(),
    {
        NodePublishVolumeRequest {
            volume_id: String::new(),
            publish_context: StrMap::new(),
            staging_target_path: String::new(),
            target_path: String::new(),
            volume_capability: VolumeCapability::default(),
            readonly: false,
            secrets: StrMap::new(),
            volume_context: StrMap::new(),
        }
    }
}

#[derive(Debug)]
pub struct NodeUnpublishVolumeRequest {
    pub volume_id: String,
    pub target_path: String,
}

impl Default for NodeUnpublishVolumeRequest {
    fn default() -> (r: Self)
        ensures
            r.volume_id@.len() == 0,
            r.target_path@.len() == 0,
    {
        NodeUnpublishVolumeRequest {
            volume_id: String::new(),
            target_path: String::new(),
        }
    }
}

#[derive(Debug)]
pub struct NodeUnstageVolumeRequest {
    pub volume_id: String,
    pub staging_target_path: String,
}

impl Default for NodeUnstageVolumeRequest {
    fn default() -> (r: Self)
        ensures
            r.volume_id@.len() == 0,
            r.staging_target_path@.len() == 0,
    {
        NodeUnstageVolumeRequest {
            volume_id: String::new(),
            staging_target_path: String::new(),
        }
    }
}

#[derive(Debug, Clone, Copy)]
pub struct NodeGetCapabilitiesRequest {}

impl Default for NodeGetCapabilitiesRequest {
    fn default() -> (r: Self)
        ensures
            r == (NodeGetCapabilitiesRequest {  }),
    {
        NodeGetCapabilitiesRequest {  }
    }
}

#[derive(Debug, Clone, Copy)]
pub struct NodeGetInfoRequest {}

impl Default for NodeGetInfoRequest {
    fn default() -> (r: Self)
        ensures
            r == (NodeGetInfoRequest {  }),
    {
        NodeGetInfoRequest {  }
    }
}

#[derive(Debug)]
pub struct NodeGetInfoResponse {
    pub node_id: String,
    pub max_volumes_per_node: i64,
    pub accessible_topology: StrMap<String>,
}

impl Default for NodeGetInfoResponse {
    fn default() -> (r: Self)
        ensures
            r.node_id@.len() == 0,
            r.max_volumes_per_node == 0,
            r.accessible_topology@ == Map::<Seq<char>, String>::empty(),
    {
        NodeGetInfoResponse {
            node_id: String::new(),
            max_volumes_per_node: 0,
            accessible_topology: StrMap::new(),
        }
    }
}

#[derive(Debug)]
pub struct VolumeCapability {
    pub access_mode: AccessMode,
    pub access_type: AccessType,
    pub fs_type: String,
    pub mount_flags: Vec<String>,
}

/// A capability of which nothing was said.
pub open spec fn is_default_capability(c: VolumeCapability) -> bool {
    &&& c.access_mode == AccessMode::Unknown
    &&& c.access_type == AccessType::Mount
    &&& c.fs_type@.len() == 0
    &&& c.mount_flags@.len() == 0
}

impl Default for VolumeCapability {
    fn default() -> (r: Self)
        ensures
            is_default_capability(r),
    {
        VolumeCapability {
            access_mode: AccessMode::Unknown,
            access_type: AccessType::Mount,
            fs_type: String::new(),
            mount_flags: Vec::new(),
        }
    }
}

#[derive(Debug, Clone, Copy, PartialEq, Eq, Structural)]
pub enum AccessMode {
    Unknown,
    SingleNodeWriter,
    SingleNodeReadOnly,
    MultiNodeReadOnly,
    MultiNodeSingleWriter,
    MultiNodeMultiWriter,
}

impl Default for AccessMode {
    fn default() -> (r: Self)
        ensures
            r == AccessMode::Unknown,
    {
        AccessMode::Unknown
    }
}

#[derive(Debug, Clone, Copy, PartialEq, Eq, Structural)]
pub enum AccessType {
    Mount,
    Block,
}

impl Default for AccessType {
    fn default() -> (r: Self)
        ensures
            r == AccessType::Mount,
    {
        AccessType::Mount
    }
}

/// A capability that is not asked for says nothing of the volume.
pub proof fn law_default_capability_asks_for_nothing(c: VolumeCapability)
    requires
        is_default_capability(c),
    ensures
        c.access_mode is Unknown,
        c.access_type is Mount,
        c.fs_type@.len() == 0,
        c.mount_flags@.len() == 0,
{
}

} // verus!
