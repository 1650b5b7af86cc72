//! The network of pods that need none.
use crate::error::KubeletError;
use crate::strmap::StrMap;
use vstd::prelude::*;

verus! {

/// How a pod is attached to a network.
#[derive(Debug)]
pub struct NetworkAttachment {
    pub sandbox_id: String,
    pub interface_name: String,
    pub ip_addresses: Vec<String>,
    pub mac_address: String,
    pub gateway: Option<String>,
    pub dns: Vec<String>,
}

/// Attaches every pod to the loopback network.
#[derive(Debug, Clone, Copy)]
pub struct NoopNetworkPlugin;

/// An attachment of a sandbox to the loopback network.
pub open spec fn loopback_attachment(sandbox_id: Seq<char>, a: NetworkAttachment) -> bool {
    &&& a.sandbox_id@ == sandbox_id
    &&& a.interface_name@ == "eth0"@
    &&& a.ip_addresses@.len() == 1 && a.ip_addresses@[0]@ == "127.0.0.1"@
    &&& a.mac_address@ == "00:00:00:00:00:00"@
    &&& a.gateway matches Some(g) && g@ == "127.0.0.1"@
    &&& a.dns@.len() == 1 && a.dns@[0]@ == "8.8.8.8"@
}

fn loopback(sandbox_id: &str) -> (r: NetworkAttachment)
    ensures
        loopback_attachment(sandbox_id@, r),
{
    let mut ip_addresses: Vec<String> = Vec::new();
    ip_addresses.push("127.0.0.1".to_owned());
    let mut dns: Vec<String> = Vec::new();
    dns.push("8.8.8.8".to_owned());
    NetworkAttachment {
        sandbox_id: sandbox_id.to_owned(),
        interface_name: "eth0".to_owned(),
        ip_addresses,
        mac_address: "00:00:00:00:00:00".to_owned(),
        gateway: Some("127.0.0.1".to_owned()),
        dns,
    }
}

impl NoopNetworkPlugin {
    pub fn setup_pod(
        &self,
        _pod_uid: &str,
        _pod_namespace: &str,
        _pod_name: &str,
        sandbox_id: &str,
        _annotations: &StrMap<String>,
    ) -> (r: Result<NetworkAttachment, KubeletError>)
        ensures
            r matches Ok(a) && loopback_attachment(sandbox_id@, a),
    {
        Ok(loopback(sandbox_id))
    }

    pub fn teardown_pod(
        &self,
        _pod_uid: &str,
        _pod_namespace: &str,
        _pod_name: &str,
        _sandbox_id: &str,
    ) -> (r: Result<(), KubeletError>)
        ensures
            r is Ok,
    {
        Ok(())
    }

    pub fn pod_network_status(
        &self,
        _pod_uid: &str,
        _pod_namespace: &str,
        _pod_name: &str,
        sandbox_id: &str,
    ) -> (r: Result<Option<NetworkAttachment>, KubeletError>)
        ensures
            r matches Ok(Some(a)) && loopback_attachment(sandbox_id@, a),
    {
        Ok(Some(loopback(sandbox_id)))
    }

    pub fn name(&self) -> (r: &'static str)
        ensures
            r@ == "noop"@,
    {
        "noop"
    }
}

/// A pod without a network of its own has the loopback address.
pub proof fn law_attachment_is_loopback(sandbox_id: Seq<char>, a: NetworkAttachment)
    requires
        loopback_attachment(sandbox_id, a),
    ensures
        a.sandbox_id@ == sandbox_id,
        a.interface_name@ == "eth0"@,
        a.ip_addresses@.len() == 1 && a.ip_addresses@[0]@ == "127.0.0.1"@,
        a.gateway is Some && a.gateway->0@ == a.ip_addresses@[0]@,
{
}

/// The rest of such an attachment is fixed too.
pub proof fn law_loopback_is_fixed(sandbox_id: Seq<char>, a: NetworkAttachment)
    requires
        loopback_attachment(sandbox_id, a),
    ensures
        a.mac_address@ == "00:00:00:00:00:00"@,
        a.dns@.len() == 1 && a.dns@[0]@ == "8.8.8.8"@,
{
}

} // verus!
