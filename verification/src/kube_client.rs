//! A reporter that keeps what it is told.
use crate::error::KubeletError;
use crate::kube_status::PodLifecycleState;
use crate::node_status::{NodeCondition, NodeStatus};
use crate::types::{PodRef, PodUID};
use vstd::prelude::*;

verus! {

/// A report on a pod.
#[derive(Debug)]
pub struct PodStatusReport {
    pub pod_ref: PodRef,
    pub uid: PodUID,
    pub state: PodLifecycleState,
}

/// A renewal of the lease of a node, for some seconds.
#[derive(Debug)]
pub struct LeaseRenewal {
    pub node_name: String,
    pub duration_seconds: u32,
}

/// New conditions of a node.
#[derive(Debug)]
pub struct ConditionPatch {
    pub node_name: String,
    pub conditions: Vec<NodeCondition>,
}

/// Keeps every report in memory.
#[derive(Debug)]
pub struct InMemoryNodeReporter {
    pub node_status_reports: Vec<NodeStatus>,
    pub pod_status_reports: Vec<PodStatusReport>,
    pub lease_renewals: Vec<LeaseRenewal>,
    pub condition_patches: Vec<ConditionPatch>,
}

impl Default for InMemoryNodeReporter {
    fn default() -> (r: Self)
        ensures
            r.node_status_reports@.len() == 0,
            r.pod_status_reports@.len() == 0,
            r.lease_renewals@.len() == 0,
            r.condition_patches@.len() == 0,
    {
        InMemoryNodeReporter::new()
    }
}

impl InMemoryNodeReporter {
    pub fn new() -> (r: Self)
        ensures
            r.node_status_reports@.len() == 0,
            r.pod_status_reports@.len() == 0,
            r.lease_renewals@.len() == 0,
            r.condition_patches@.len() == 0,
    {
        InMemoryNodeReporter {
            node_status_reports: Vec::new(),
            pod_status_reports: Vec::new(),
            lease_renewals: Vec::new(),
            condition_patches: Vec::new(),
        }
    }

    pub fn node_report_count(&self) -> (r: usize)
        ensures
            r == self.node_status_reports@.len(),
    {
        self.node_status_reports.len()
    }

    pub fn pod_report_count(&self) -> (r: usize)
        ensures
            r == self.pod_status_reports@.len(),
    {
        self.pod_status_reports.len()
    }

    pub fn lease_renewal_count(&self) -> (r: usize)
        ensures
            r == self.lease_renewals@.len(),
    {
        self.lease_renewals.len()
    }

    pub fn report_node_status(&mut self, status: NodeStatus) -> (r: Result<(), KubeletError>)
        ensures
            r is Ok,
            final(self).node_status_reports@ == old(self).node_status_reports@.push(status),
            final(self).pod_status_reports == old(self).pod_status_reports,
            final(self).lease_renewals == old(self).lease_renewals,
            final(self).condition_patches == old(self).condition_patches,
    {
        self.node_status_reports.push(status);
        Ok(())
    }

    pub fn report_pod_status(
        &mut self,
        pod_ref: PodRef,
        uid: PodUID,
        state: PodLifecycleState,
    ) -> (r: Result<(), KubeletError>)
        ensures
            r is Ok,
            final(self).pod_status_reports@ == old(self).pod_status_reports@.push(
                PodStatusReport { pod_ref, uid, state },
            ),
            final(self).node_status_reports == old(self).node_status_reports,
            final(self).lease_renewals == old(self).lease_renewals,
            final(self).condition_patches == old(self).condition_patches,
    {
        self.pod_status_reports.push(PodStatusReport { pod_ref, uid, state });
        Ok(())
    }

    /// Pods are never deleted here.
    pub fn delete_pod(&mut self, _pod_ref: &PodRef, _uid: &PodUID) -> (r: Result<(), KubeletError>)
        ensures
            r is Ok,
            *final(self) == *old(self),
    {
        Ok(())
    }

    pub fn patch_node_conditions(&mut self, node_name: &str, conditions: Vec<NodeCondition>) -> (r:
        Result<(), KubeletError>)
        ensures
            r is Ok,
            final(self).condition_patches@.len() == old(self).condition_patches@.len() + 1,
            final(self).condition_patches@.drop_last() == old(self).condition_patches@,
            final(self).condition_patches@.last().node_name@ == node_name@,
            final(self).condition_patches@.last().conditions == conditions,
            final(self).node_status_reports == old(self).node_status_reports,
            final(self).pod_status_reports == old(self).pod_status_reports,
            final(self).lease_renewals == old(self).lease_renewals,
    {
        let ghost before = self.condition_patches@;
        self.condition_patches.push(
            ConditionPatch { node_name: node_name.to_owned(), conditions },
        );
        assert(self.condition_patches@.drop_last() =~= before);
        Ok(())
    }

    pub fn renew_node_lease(&mut self, node_name: &str, duration_seconds: u32) -> (r: Result<
        (),
        KubeletError,
    >)
        ensures
            r is Ok,
            final(self).lease_renewals@.len() == old(self).lease_renewals@.len() + 1,
            final(self).lease_renewals@.drop_last() == old(self).lease_renewals@,
            final(self).lease_renewals@.last().node_name@ == node_name@,
            final(self).lease_renewals@.last().duration_seconds == duration_seconds,
            final(self).node_status_reports == old(self).node_status_reports,
            final(self).pod_status_reports == old(self).pod_status_reports,
            final(self).condition_patches == old(self).condition_patches,
    {
        let ghost before = self.lease_renewals@;
        self.lease_renewals.push(
            LeaseRenewal { node_name: node_name.to_owned(), duration_seconds },
        );
        assert(self.lease_renewals@.drop_last() =~= before);
        Ok(())
    }
}

} // verus!
