//! Which pods are evicted under resource pressure.
//!
//! Best-effort pods go first, then burstable ones, then guaranteed ones; those
//! last go under memory pressure only. Within a class, the pod that uses the
//! most memory above its request goes first under memory pressure, and the one
//! that uses the most disk under disk pressure.
use crate::admission::{all_containers, pod_memory, pod_memory_bytes};
use crate::eviction::{
    configured, entries_of, pressure_of, EvictionEvaluator, NodeResources, ResourcePressure,
};
use crate::lists::{sort_indices, stable_order, SortKey};
use crate::strmap::StrMap;
use crate::text::cat2;
use crate::types::{PodRef, PodSpec, PodUID, QosClass, RestartPolicy};
use vstd::prelude::*;

verus! {

/// Why a pod is evicted.
#[derive(Debug)]
pub enum EvictionReason {
    MemoryPressure,
    DiskPressure,
    PIDPressure,
    NodeConditionPressure(String),
}

impl EvictionReason {
    pub open spec fn text(self) -> Seq<char> {
        match self {
            EvictionReason::MemoryPressure => "EvictionThresholdMet: memory.available"@,
            EvictionReason::DiskPressure => "EvictionThresholdMet: nodefs.available"@,
            EvictionReason::PIDPressure => "EvictionThresholdMet: pid.available"@,
            EvictionReason::NodeConditionPressure(r) => "EvictionThresholdMet: "@ + r@,
        }
    }

    /// The reason as it is shown to users.
    pub fn message(&self) -> (r: String)
        ensures
            r@ == self.text(),
    {
        match self {
            EvictionReason::MemoryPressure => "EvictionThresholdMet: memory.available".to_owned(),
            EvictionReason::DiskPressure => "EvictionThresholdMet: nodefs.available".to_owned(),
            EvictionReason::PIDPressure => "EvictionThresholdMet: pid.available".to_owned(),
            EvictionReason::NodeConditionPressure(r) => cat2("EvictionThresholdMet: ", r.as_str()),
        }
    }
}

/// That a pod is to be evicted.
#[derive(Debug)]
pub struct EvictionDecision {
    pub pod_uid: PodUID,
    pub pod_ref: PodRef,
    pub reason: EvictionReason,
    pub message: String,
    /// How long the pod may take to stop, in milliseconds.
    pub grace_period_ms: u64,
}

/// What a pod uses.
#[derive(Debug, Clone, Copy, PartialEq, Eq, Structural)]
pub struct PodResourceUsage {
    pub memory_bytes: u64,
    pub cpu_millicores: u64,
    pub disk_bytes: u64,
}

impl Default for PodResourceUsage {
    fn default() -> (r: Self)
        ensures
            r == (PodResourceUsage { memory_bytes: 0, cpu_millicores: 0, disk_bytes: 0 }),
    {
        PodResourceUsage { memory_bytes: 0, cpu_millicores: 0, disk_bytes: 0 }
    }
}

/// A pod that may be evicted.
#[derive(Debug)]
pub struct EvictablePod {
    pub uid: PodUID,
    pub qos: QosClass,
    pub restart_policy: RestartPolicy,
    /// The memory that the pod asked for.
    pub memory_request_bytes: u64,
}

/// What decides on the eviction of a pod of the given class.
pub fn evictable(pod: &PodSpec, qos: QosClass) -> (r: EvictablePod)
    requires
        all_containers(*pod).len() <= usize::MAX,
        pod_memory(*pod) <= u64::MAX,
    ensures
        r.uid == pod.uid,
        r.qos == qos,
        r.restart_policy == pod.restart_policy,
        r.memory_request_bytes == pod_memory(*pod),
{
    EvictablePod {
        uid: pod.uid.copied(),
        qos,
        restart_policy: pod.restart_policy,
        memory_request_bytes: pod_memory_bytes(pod),
    }
}

/// A pod in the order of eviction, with what it uses.
pub type Candidate = (PodUID, QosClass, u64);

/// The place of a class in the order of eviction.
pub open spec fn eviction_priority(qos: QosClass) -> int {
    match qos {
        QosClass::BestEffort => 0,
        QosClass::Burstable => 1,
        QosClass::Guaranteed => 2,
    }
}

fn qos_eviction_priority(qos: QosClass) -> (r: u8)
    ensures
        r == eviction_priority(qos),
{
    match qos {
        QosClass::BestEffort => 0,
        QosClass::Burstable => 1,
        QosClass::Guaranteed => 2,
    }
}

pub open spec fn memory_used(usage: Map<Seq<char>, PodResourceUsage>, uid: Seq<char>) -> u64 {
    if usage.contains_key(uid) {
        usage[uid].memory_bytes
    } else {
        0
    }
}

pub open spec fn disk_used(usage: Map<Seq<char>, PodResourceUsage>, uid: Seq<char>) -> u64 {
    if usage.contains_key(uid) {
        usage[uid].disk_bytes
    } else {
        0
    }
}

/// The positions of the pods that may be restarted.
pub open spec fn restartable(pods: Seq<EvictablePod>) -> Seq<int>
    decreases pods.len(),
{
    if pods.len() == 0 {
        Seq::empty()
    } else {
        let front = restartable(pods.drop_last());
        if pods.last().restart_policy != RestartPolicy::Never {
            front.push(pods.len() - 1)
        } else {
            front
        }
    }
}

/// The positions of the pods that are not guaranteed what they use: guaranteed
/// pods are evicted for memory only.
pub open spec fn not_guaranteed(pods: Seq<EvictablePod>) -> Seq<int>
    decreases pods.len(),
{
    if pods.len() == 0 {
        Seq::empty()
    } else {
        let front = not_guaranteed(pods.drop_last());
        if pods.last().qos != QosClass::Guaranteed {
            front.push(pods.len() - 1)
        } else {
            front
        }
    }
}

pub open spec fn memory_key(
    pod: EvictablePod,
    usage: Map<Seq<char>, PodResourceUsage>,
) -> SortKey {
    (
        eviction_priority(pod.qos) as i128,
        (pod.memory_request_bytes - memory_used(usage, pod.uid.0@)) as i128,
    )
}

pub open spec fn disk_key(
    pod: EvictablePod,
    usage: Map<Seq<char>, PodResourceUsage>,
) -> SortKey {
    (eviction_priority(pod.qos) as i128, (-disk_used(usage, pod.uid.0@)) as i128)
}

/// The keys by which the pods at `at` are put in order for memory.
pub open spec fn memory_keys(
    pods: Seq<EvictablePod>,
    at: Seq<int>,
    usage: Map<Seq<char>, PodResourceUsage>,
) -> Seq<SortKey> {
    at.map_values(|i: int| memory_key(pods[i], usage))
}

/// The keys by which the pods at `at` are put in order for disk.
pub open spec fn disk_keys(
    pods: Seq<EvictablePod>,
    at: Seq<int>,
    usage: Map<Seq<char>, PodResourceUsage>,
) -> Seq<SortKey> {
    at.map_values(|i: int| disk_key(pods[i], usage))
}

/// `out` holds the pods that may be restarted, in the order in which they are
/// evicted for memory.
pub open spec fn memory_ranking(
    pods: Seq<EvictablePod>,
    usage: Map<Seq<char>, PodResourceUsage>,
    order: Seq<usize>,
    out: Seq<Candidate>,
) -> bool {
    let at = restartable(pods);
    &&& stable_order(memory_keys(pods, at, usage), order)
    &&& out.len() == at.len()
    &&& forall|i: int|
        0 <= i < out.len() ==> (#[trigger] out[i]) == (
            pods[at[order[i] as int]].uid,
            pods[at[order[i] as int]].qos,
            memory_used(usage, pods[at[order[i] as int]].uid.0@),
        )
}

/// `out` holds the pods that are not guaranteed, in the order in which they are
/// evicted for disk.
pub open spec fn disk_ranking(
    pods: Seq<EvictablePod>,
    usage: Map<Seq<char>, PodResourceUsage>,
    order: Seq<usize>,
    out: Seq<Candidate>,
) -> bool {
    let at = not_guaranteed(pods);
    &&& stable_order(disk_keys(pods, at, usage), order)
    &&& out.len() == at.len()
    &&& forall|i: int|
        0 <= i < out.len() ==> (#[trigger] out[i]) == (
            pods[at[order[i] as int]].uid,
            pods[at[order[i] as int]].qos,
            disk_used(usage, pods[at[order[i] as int]].uid.0@),
        )
}

/// Puts pods in the order in which they are evicted.
#[derive(Debug, Clone, Copy)]
pub struct EvictionRanker;

impl EvictionRanker {
    /// The order under memory pressure: by class, then by memory used above
    /// the request. Pods that are never restarted are left out.
    pub fn rank_for_memory(pods: &Vec<EvictablePod>, usage: &StrMap<PodResourceUsage>) -> (r: Vec<
        Candidate,
    >)
        ensures
            exists|order: Seq<usize>| memory_ranking(pods@, usage@, order, r@),
    {
        let mut found: Vec<Candidate> = Vec::new();
        let mut keys: Vec<SortKey> = Vec::new();
        let mut i: usize = 0;
        while i < pods.len()
            invariant
                i <= pods@.len(),
                ({
                    let now = restartable(pods@.take(i as int));
                    &&& forall|k: int| 0 <= k < now.len() ==> 0 <= #[trigger] now[k] < i
                    &&& keys@ == memory_keys(pods@, now, usage@)
                    &&& found@.len() == now.len()
                    &&& forall|k: int|
                        0 <= k < now.len() ==> (#[trigger] found@[k]) == (
                            pods@[now[k]].uid,
                            pods@[now[k]].qos,
                            memory_used(usage@, pods@[now[k]].uid.0@),
                        )
                }),
            decreases pods@.len() - i,
        {
            let p = &pods[i];
            let ghost now = restartable(pods@.take(i as int));
            let ghost next = restartable(pods@.take(i + 1));
            assert(pods@.take(i + 1).drop_last() =~= pods@.take(i as int));
            if p.restart_policy != RestartPolicy::Never {
                let used: u64 = match usage.get(p.uid.0.as_str()) {
                    Some(u) => u.memory_bytes,
                    None => 0,
                };
                keys.push(
                    (
                        qos_eviction_priority(p.qos) as i128,
                        p.memory_request_bytes as i128 - used as i128,
                    ),
                );
                found.push((p.uid.copied(), p.qos, used));
                assert(next == now.push(i as int));
                assert(keys@ =~= memory_keys(pods@, next, usage@));
            }
            i = i + 1;
        }
        assert(pods@.take(i as int) =~= pods@);
        let order = sort_indices(&keys);
        let r = pick_in_order(&found, &order);
        assert(memory_ranking(pods@, usage@, order@, r@));
        r
    }

    /// The order under disk pressure: by class, then by disk used. Guaranteed
    /// pods are left out.
    pub fn rank_for_disk(pods: &Vec<EvictablePod>, usage: &StrMap<PodResourceUsage>) -> (r: Vec<
        Candidate,
    >)
        ensures
            exists|order: Seq<usize>| disk_ranking(pods@, usage@, order, r@),
            forall|i: int, j: int|
                #![trigger r@[i], r@[j]]
                0 <= i < j < r@.len() ==> {
                    &&& r@[j].1 == QosClass::BestEffort ==> r@[i].1 == QosClass::BestEffort
                    &&& r@[i].1 == r@[j].1 ==> r@[i].2 >= r@[j].2
                },
    {
        let mut found: Vec<Candidate> = Vec::new();
        let mut keys: Vec<SortKey> = Vec::new();
        let mut i: usize = 0;
        while i < pods.len()
            invariant
                i <= pods@.len(),
                ({
                    let now = not_guaranteed(pods@.take(i as int));
                    &&& forall|k: int| 0 <= k < now.len() ==> 0 <= #[trigger] now[k] < i
                    &&& keys@ == disk_keys(pods@, now, usage@)
                    &&& found@.len() == now.len()
                    &&& forall|k: int|
                        0 <= k < now.len() ==> (#[trigger] found@[k]) == (
                            pods@[now[k]].uid,
                            pods@[now[k]].qos,
                            disk_used(usage@, pods@[now[k]].uid.0@),
                        )
                }),
            decreases pods@.len() - i,
        {
            let p = &pods[i];
            let ghost now = not_guaranteed(pods@.take(i as int));
            let ghost next = not_guaranteed(pods@.take(i + 1));
            assert(pods@.take(i + 1).drop_last() =~= pods@.take(i as int));
            if p.qos != QosClass::Guaranteed {
                let used: u64 = match usage.get(p.uid.0.as_str()) {
                    Some(u) => u.disk_bytes,
                    None => 0,
                };
                keys.push((qos_eviction_priority(p.qos) as i128, -(used as i128)));
                found.push((p.uid.copied(), p.qos, used));
                assert(next == now.push(i as int));
                assert(keys@ =~= disk_keys(pods@, next, usage@));
            }
            i = i + 1;
        }
        assert(pods@.take(i as int) =~= pods@);
        let order = sort_indices(&keys);
        let r = pick_in_order(&found, &order);
        assert(disk_ranking(pods@, usage@, order@, r@));
        proof {
            assert forall|i: int, j: int|
                #![trigger r@[i], r@[j]]
                0 <= i < j < r@.len() implies {
                &&& r@[j].1 == QosClass::BestEffort ==> r@[i].1 == QosClass::BestEffort
                &&& r@[i].1 == r@[j].1 ==> r@[i].2 >= r@[j].2
            } by {
                law_disk_order_is_by_class_then_by_use(pods@, usage@, order@, r@, i, j);
            }
        }
        r
    }
}

fn pick_in_order(items: &Vec<Candidate>, order: &Vec<usize>) -> (r: Vec<Candidate>)
    requires
        forall|i: int| 0 <= i < order@.len() ==> #[trigger] order@[i] < items@.len(),
    ensures
        r@.len() == order@.len(),
        forall|i: int| 0 <= i < r@.len() ==> (#[trigger] r@[i]) == items@[order@[i] as int],
{
    let mut r: Vec<Candidate> = Vec::new();
    let mut i: usize = 0;
    while i < order.len()
        invariant
            i <= order@.len(),
            forall|k: int| 0 <= k < order@.len() ==> #[trigger] order@[k] < items@.len(),
            r@.len() == i,
            forall|k: int| 0 <= k < i ==> (#[trigger] r@[k]) == items@[order@[k] as int],
        decreases order@.len() - i,
    {
        assert(order@[i as int] < items@.len());
        let c = &items[order[i]];
        r.push((c.0.copied(), c.1, c.2));
        i = i + 1;
    }
    r
}

// ---------------------------------------------------------------------------
// The manager
// ---------------------------------------------------------------------------

/// For how long a pod is not evicted again, in milliseconds.
pub const MIN_EVICTION_RECLAIM_MS: u64 = 30_000;

/// Decides which pods are evicted. Times are milliseconds of a clock that
/// never goes back.
#[derive(Debug)]
pub struct EvictionManager {
    pub evaluator: EvictionEvaluator,
    pub grace_period_override_ms: Option<u64>,
    /// When each pod was last evicted.
    pub last_evictions: StrMap<u64>,
    pub min_eviction_reclaim_ms: u64,
}

/// Whether a pod was evicted so recently that it is passed over.
pub open spec fn recently(last: Map<Seq<char>, u64>, uid: Seq<char>, now: u64, period: u64) -> bool {
    last.contains_key(uid) && if now >= last[uid] {
        now - last[uid] < period
    } else {
        0 < period
    }
}

/// The position of the first candidate that was not evicted recently.
pub open spec fn first_choice(
    last: Map<Seq<char>, u64>,
    ranked: Seq<Candidate>,
    now: u64,
    period: u64,
) -> Option<int>
    decreases ranked.len(),
{
    if ranked.len() == 0 {
        None
    } else {
        match first_choice(last, ranked.drop_last(), now, period) {
            Some(i) => Some(i),
            None => if recently(last, ranked.last().0.0@, now, period) {
                None
            } else {
                Some(ranked.len() - 1)
            },
        }
    }
}

/// How long a pod of a class may take to stop.
pub open spec fn grace_of(grace_override: Option<u64>, qos: QosClass) -> u64 {
    match grace_override {
        Some(g) => g,
        None => match qos {
            QosClass::Guaranteed => 30_000,
            QosClass::Burstable => 10_000,
            QosClass::BestEffort => 0,
        },
    }
}

/// What the eviction of `c` says.
pub open spec fn decision_is(
    c: Candidate,
    reason: EvictionReason,
    grace_override: Option<u64>,
    d: EvictionDecision,
) -> bool {
    &&& d.pod_uid == c.0
    &&& d.pod_ref.namespace@ == "unknown"@
    &&& d.pod_ref.name@ == c.0.0@
    &&& d.reason == reason
    &&& d.message@ == "The node was low on resource. Threshold capacity was exceeded."@
    &&& d.grace_period_ms == grace_of(grace_override, c.1)
}

/// The first candidate that was not evicted recently is evicted now, and the
/// time is noted; nothing happens where there is none.
pub open spec fn picked(
    last: Map<Seq<char>, u64>,
    ranked: Seq<Candidate>,
    reason: EvictionReason,
    now: u64,
    period: u64,
    grace_override: Option<u64>,
    next: Map<Seq<char>, u64>,
    d: Option<EvictionDecision>,
) -> bool {
    match first_choice(last, ranked, now, period) {
        Some(i) => d matches Some(x) && decision_is(ranked[i], reason, grace_override, x) && next
            == last.insert(ranked[i].0.0@, now),
        None => d is None && next == last,
    }
}

pub open spec fn opt_list<T>(a: Option<T>) -> Seq<T> {
    match a {
        Some(x) => seq![x],
        None => Seq::empty(),
    }
}

proof fn lemma_first_choice_none(
    last: Map<Seq<char>, u64>,
    ranked: Seq<Candidate>,
    now: u64,
    period: u64,
    i: int,
)
    requires
        0 <= i < ranked.len(),
        first_choice(last, ranked.take(i), now, period) is None,
        !recently(last, ranked[i].0.0@, now, period),
    ensures
        first_choice(last, ranked, now, period) == Some(i),
    decreases ranked.len(),
{
    if i == ranked.len() - 1 {
        assert(ranked.drop_last() =~= ranked.take(i));
    } else {
        assert(ranked.drop_last().take(i) =~= ranked.take(i));
        lemma_first_choice_none(last, ranked.drop_last(), now, period, i);
    }
}

impl EvictionManager {
    pub open spec fn wf(self) -> bool {
        self.evaluator.wf()
    }

    pub fn new(
        hard_thresholds: &StrMap<String>,
        soft_thresholds: &StrMap<String>,
        grace_period_override_ms: Option<u64>,
    ) -> (r: Self)
        ensures
            r.wf(),
            entries_of(r.evaluator.hard_thresholds@) == configured(hard_thresholds.pairs()),
            entries_of(r.evaluator.soft_thresholds@) == configured(soft_thresholds.pairs()),
            r.grace_period_override_ms == grace_period_override_ms,
            r.last_evictions@ == Map::<Seq<char>, u64>::empty(),
            r.min_eviction_reclaim_ms == MIN_EVICTION_RECLAIM_MS,
    {
        EvictionManager {
            evaluator: EvictionEvaluator::new(hard_thresholds, soft_thresholds),
            grace_period_override_ms,
            last_evictions: StrMap::new(),
            min_eviction_reclaim_ms: MIN_EVICTION_RECLAIM_MS,
        }
    }

    /// Decides which pods are evicted: at most one for each of memory and disk
    /// pressure, and none where there is no pressure.
    pub fn evaluate(
        &mut self,
        resources: &NodeResources,
        pods: &Vec<EvictablePod>,
        usage: &StrMap<PodResourceUsage>,
        now: u64,
    ) -> (r: Vec<EvictionDecision>)
        requires
            old(self).wf(),
        ensures
            final(self).wf(),
            final(self).evaluator == old(self).evaluator,
            final(self).grace_period_override_ms == old(self).grace_period_override_ms,
            final(self).min_eviction_reclaim_ms == old(self).min_eviction_reclaim_ms,
            evaluation_is(
                *old(self),
                *resources,
                pods@,
                usage@,
                now,
                final(self).last_evictions@,
                r@,
            ),
    {
        let pressure = self.evaluator.evaluate(resources);
        let mut decisions: Vec<EvictionDecision> = Vec::new();
        let ghost mut memory: Option<EvictionDecision> = None;
        let ghost mut by_memory: Seq<Candidate> = Seq::empty();
        if pressure.memory_pressure {
            let ranked = EvictionRanker::rank_for_memory(pods, usage);
            let d = self.pick_candidate(&ranked, EvictionReason::MemoryPressure, now);
            proof {
                memory = d;
                by_memory = ranked@;
            }
            if let Some(x) = d {
                decisions.push(x);
            }
        }
        assert(decisions@ =~= opt_list(memory));
        let ghost mid = self.last_evictions@;
        let ghost mut disk: Option<EvictionDecision> = None;
        let ghost mut by_disk: Seq<Candidate> = Seq::empty();
        if pressure.disk_pressure {
            let ranked = EvictionRanker::rank_for_disk(pods, usage);
            let d = self.pick_candidate(&ranked, EvictionReason::DiskPressure, now);
            proof {
                disk = d;
                by_disk = ranked@;
            }
            if let Some(x) = d {
                decisions.push(x);
            }
        }
        assert(decisions@ =~= opt_list(memory) + opt_list(disk));
        assert(memory_round(*old(self), *resources, pods@, usage@, now, by_memory, mid, memory));
        assert(disk_round(
            *old(self),
            *resources,
            pods@,
            usage@,
            now,
            by_disk,
            mid,
            self.last_evictions@,
            disk,
        ));
        decisions
    }

    fn pick_candidate(
        &mut self,
        ranked: &Vec<Candidate>,
        reason: EvictionReason,
        now: u64,
    ) -> (r: Option<EvictionDecision>)
        requires
            old(self).wf(),
        ensures
            final(self).evaluator == old(self).evaluator,
            final(self).grace_period_override_ms == old(self).grace_period_override_ms,
            final(self).min_eviction_reclaim_ms == old(self).min_eviction_reclaim_ms,
            picked(
                old(self).last_evictions@,
                ranked@,
                reason,
                now,
                old(self).min_eviction_reclaim_ms,
                old(self).grace_period_override_ms,
                final(self).last_evictions@,
                r,
            ),
    {
        let period: u64 = self.min_eviction_reclaim_ms;
        let ghost last = self.last_evictions@;
        let mut i: usize = 0;
        while i < ranked.len()
            invariant
                i <= ranked@.len(),
                *self == *old(self),
                period == self.min_eviction_reclaim_ms,
                last == self.last_evictions@,
                first_choice(last, ranked@.take(i as int), now, period) is None,
            decreases ranked@.len() - i,
        {
            let uid = &ranked[i].0;
            let recent = match self.last_evictions.get(uid.0.as_str()) {
                Some(t) => now.saturating_sub(*t) < period,
                None => false,
            };
            assert(recent == recently(last, uid.0@, now, period));
            assert(ranked@.take(i + 1).drop_last() =~= ranked@.take(i as int));
            if !recent {
                proof {
                    lemma_first_choice_none(last, ranked@, now, period, i as int);
                }
                let grace_period_ms: u64 = self.grace_period_for_qos(ranked[i].1);
                self.last_evictions.insert(uid.0.clone(), now);
                return Some(
                    EvictionDecision {
                        pod_uid: uid.copied(),
                        pod_ref: PodRef::new("unknown", uid.0.as_str()),
                        reason,
                        message: "The node was low on resource. Threshold capacity was exceeded.".to_owned(),
                        grace_period_ms,
                    },
                );
            }
            i = i + 1;
        }
        assert(ranked@.take(i as int) =~= ranked@);
        None
    }

    fn grace_period_for_qos(&self, qos: QosClass) -> (r: u64)
        ensures
            r == grace_of(self.grace_period_override_ms, qos),
    {
        match self.grace_period_override_ms {
            Some(g) => g,
            None => match qos {
                QosClass::Guaranteed => 30_000,
                QosClass::Burstable => 10_000,
                QosClass::BestEffort => 0,
            },
        }
    }

    /// Whether the node is under any pressure.
    pub fn has_pressure(&self, resources: &NodeResources) -> (r: bool)
        requires
            self.wf(),
        ensures
            r == ({
                let p = pressure_of(entries_of(self.evaluator.hard_thresholds@), *resources);
                p.memory_pressure || p.disk_pressure || p.pid_pressure
            }),
    {
        let p = self.evaluator.evaluate(resources);
        p.memory_pressure || p.disk_pressure || p.pid_pressure
    }

    /// The pressures that the node is under.
    pub fn pressure(&self, resources: &NodeResources) -> (r: ResourcePressure)
        requires
            self.wf(),
        ensures
            r == pressure_of(entries_of(self.evaluator.hard_thresholds@), *resources),
    {
        self.evaluator.evaluate(resources)
    }
}

/// What is done for memory pressure.
pub open spec fn memory_round(
    m: EvictionManager,
    resources: NodeResources,
    pods: Seq<EvictablePod>,
    usage: Map<Seq<char>, PodResourceUsage>,
    now: u64,
    ranked: Seq<Candidate>,
    next: Map<Seq<char>, u64>,
    d: Option<EvictionDecision>,
) -> bool {
    if pressure_of(entries_of(m.evaluator.hard_thresholds@), resources).memory_pressure {
        &&& exists|order: Seq<usize>| memory_ranking(pods, usage, order, ranked)
        &&& picked(
            m.last_evictions@,
            ranked,
            EvictionReason::MemoryPressure,
            now,
            m.min_eviction_reclaim_ms,
            m.grace_period_override_ms,
            next,
            d,
        )
    } else {
        d is None && next == m.last_evictions@
    }
}

/// What is done for disk pressure, after what was done for memory pressure.
pub open spec fn disk_round(
    m: EvictionManager,
    resources: NodeResources,
    pods: Seq<EvictablePod>,
    usage: Map<Seq<char>, PodResourceUsage>,
    now: u64,
    ranked: Seq<Candidate>,
    last: Map<Seq<char>, u64>,
    next: Map<Seq<char>, u64>,
    d: Option<EvictionDecision>,
) -> bool {
    if pressure_of(entries_of(m.evaluator.hard_thresholds@), resources).disk_pressure {
        &&& exists|order: Seq<usize>| disk_ranking(pods, usage, order, ranked)
        &&& picked(
            last,
            ranked,
            EvictionReason::DiskPressure,
            now,
            m.min_eviction_reclaim_ms,
            m.grace_period_override_ms,
            next,
            d,
        )
    } else {
        d is None && next == last
    }
}

/// The decisions of one evaluation: that for memory, then that for disk.
pub open spec fn evaluation_is(
    m: EvictionManager,
    resources: NodeResources,
    pods: Seq<EvictablePod>,
    usage: Map<Seq<char>, PodResourceUsage>,
    now: u64,
    next: Map<Seq<char>, u64>,
    decisions: Seq<EvictionDecision>,
) -> bool {
    exists|
        by_memory: Seq<Candidate>,
        mid: Map<Seq<char>, u64>,
        memory: Option<EvictionDecision>,
        by_disk: Seq<Candidate>,
        disk: Option<EvictionDecision>,
    |
        decisions == opt_list(memory) + opt_list(disk) && #[trigger] memory_round(
            m,
            resources,
            pods,
            usage,
            now,
            by_memory,
            mid,
            memory,
        ) && #[trigger] disk_round(m, resources, pods, usage, now, by_disk, mid, next, disk)
}

proof fn lemma_first_choice_not_recent(
    last: Map<Seq<char>, u64>,
    ranked: Seq<Candidate>,
    now: u64,
    period: u64,
)
    ensures
        first_choice(last, ranked, now, period) matches Some(i) ==> 0 <= i < ranked.len()
            && !recently(last, ranked[i].0.0@, now, period),
    decreases ranked.len(),
{
    if ranked.len() > 0 {
        lemma_first_choice_not_recent(last, ranked.drop_last(), now, period);
    }
}

/// No pod is evicted that was evicted within the reclaim period, and no pod is
/// evicted twice in one evaluation.
pub proof fn law_no_repeated_eviction(
    m: EvictionManager,
    resources: NodeResources,
    pods: Seq<EvictablePod>,
    usage: Map<Seq<char>, PodResourceUsage>,
    now: u64,
    next: Map<Seq<char>, u64>,
    decisions: Seq<EvictionDecision>,
)
    requires
        evaluation_is(m, resources, pods, usage, now, next, decisions),
        m.min_eviction_reclaim_ms > 0,
    ensures
        forall|i: int|
            0 <= i < decisions.len() ==> !recently(
                m.last_evictions@,
                (#[trigger] decisions[i]).pod_uid.0@,
                now,
                m.min_eviction_reclaim_ms,
            ),
        decisions.len() == 2 ==> decisions[0].pod_uid.0@ != decisions[1].pod_uid.0@,
{
    let period = m.min_eviction_reclaim_ms;
    let (by_memory, mid, memory, by_disk, disk) = choose|
        by_memory: Seq<Candidate>,
        mid: Map<Seq<char>, u64>,
        memory: Option<EvictionDecision>,
        by_disk: Seq<Candidate>,
        disk: Option<EvictionDecision>,
    |
        decisions == opt_list(memory) + opt_list(disk) && #[trigger] memory_round(
            m,
            resources,
            pods,
            usage,
            now,
            by_memory,
            mid,
            memory,
        ) && #[trigger] disk_round(m, resources, pods, usage, now, by_disk, mid, next, disk);
    lemma_first_choice_not_recent(m.last_evictions@, by_memory, now, period);
    lemma_first_choice_not_recent(mid, by_disk, now, period);
    if memory is Some {
        assert(decisions[0] == memory->0);
        assert(recently(mid, memory->0.pod_uid.0@, now, period));
        if disk is Some {
            assert(decisions[1] == disk->0);
        }
    } else if disk is Some {
        assert(decisions[0] == disk->0);
    }
    assert forall|i: int| 0 <= i < decisions.len() implies !recently(
        m.last_evictions@,
        (#[trigger] decisions[i]).pod_uid.0@,
        now,
        period,
    ) by {
        if memory is Some && i == 0 {
        } else {
            assert(!recently(mid, decisions[i].pod_uid.0@, now, period));
        }
    }
}

/// Under memory pressure some pod is evicted, where there is one that may be
/// restarted and that was not evicted within the reclaim period.
pub proof fn law_memory_pressure_evicts(
    m: EvictionManager,
    resources: NodeResources,
    pods: Seq<EvictablePod>,
    usage: Map<Seq<char>, PodResourceUsage>,
    now: u64,
    next: Map<Seq<char>, u64>,
    decisions: Seq<EvictionDecision>,
    p: int,
)
    requires
        evaluation_is(m, resources, pods, usage, now, next, decisions),
        pressure_of(entries_of(m.evaluator.hard_thresholds@), resources).memory_pressure,
        0 <= p < pods.len(),
        pods[p].restart_policy != RestartPolicy::Never,
        !recently(m.last_evictions@, pods[p].uid.0@, now, m.min_eviction_reclaim_ms),
    ensures
        decisions.len() > 0,
        decisions[0].reason == EvictionReason::MemoryPressure,
{
    let (by_memory, mid, memory, by_disk, disk) = choose|
        by_memory: Seq<Candidate>,
        mid: Map<Seq<char>, u64>,
        memory: Option<EvictionDecision>,
        by_disk: Seq<Candidate>,
        disk: Option<EvictionDecision>,
    |
        decisions == opt_list(memory) + opt_list(disk) && #[trigger] memory_round(
            m,
            resources,
            pods,
            usage,
            now,
            by_memory,
            mid,
            memory,
        ) && #[trigger] disk_round(m, resources, pods, usage, now, by_disk, mid, next, disk);
    let order = choose|order: Seq<usize>| memory_ranking(pods, usage, order, by_memory);
    let at = restartable(pods);
    lemma_restartable_has(pods, p);
    let k = choose|k: int| 0 <= k < at.len() && at[k] == p;
    lemma_order_reaches(memory_keys(pods, at, usage), order, k);
    let i = choose|i: int| 0 <= i < order.len() && order[i] == k;
    assert(by_memory[i].0 == pods[p].uid);
    lemma_first_choice_first(m.last_evictions@, by_memory, now, m.min_eviction_reclaim_ms, i);
    assert(memory is Some);
    assert(decisions[0] == memory->0);
}

proof fn lemma_restartable_has(pods: Seq<EvictablePod>, p: int)
    requires
        0 <= p < pods.len(),
        pods[p].restart_policy != RestartPolicy::Never,
    ensures
        exists|k: int| 0 <= k < restartable(pods).len() && restartable(pods)[k] == p,
    decreases pods.len(),
{
    let all = restartable(pods);
    if p == pods.len() - 1 {
        assert(all[all.len() - 1] == p);
    } else {
        lemma_restartable_has(pods.drop_last(), p);
        let front = restartable(pods.drop_last());
        let k = choose|k: int| 0 <= k < front.len() && front[k] == p;
        assert(all[k] == p);
    }
}

proof fn lemma_order_reaches(keys: Seq<SortKey>, order: Seq<usize>, k: int)
    requires
        stable_order(keys, order),
        0 <= k < keys.len(),
    ensures
        exists|i: int| 0 <= i < order.len() && order[i] == k,
{
    crate::lists::lemma_stable_order_distinct(keys, order);
    let wide = order.map_values(|u: usize| u as int);
    assert(wide.no_duplicates());
    wide.unique_seq_to_set();
    let range = vstd::set_lib::set_int_range(0, keys.len() as int);
    vstd::set_lib::lemma_int_range(0, keys.len() as int);
    assert(wide.to_set().subset_of(range)) by {
        assert forall|x: int| wide.to_set().contains(x) implies range.contains(x) by {
            let i = choose|i: int| 0 <= i < wide.len() && wide[i] == x;
            assert(order[i] < keys.len());
        }
    }
    vstd::set_lib::lemma_subset_equality(wide.to_set(), range);
    assert(wide.to_set().contains(k));
    let i = choose|i: int| 0 <= i < wide.len() && wide[i] == k;
    assert(order[i] == k);
}

proof fn lemma_first_choice_first(
    last: Map<Seq<char>, u64>,
    ranked: Seq<Candidate>,
    now: u64,
    period: u64,
    i: int,
)
    requires
        0 <= i < ranked.len(),
        !recently(last, ranked[i].0.0@, now, period),
    ensures
        first_choice(last, ranked, now, period) matches Some(k) && 0 <= k <= i,
    decreases ranked.len(),
{
    lemma_first_choice_not_recent(last, ranked, now, period);
    if i < ranked.len() - 1 {
        lemma_first_choice_first(last, ranked.drop_last(), now, period, i);
    }
}

proof fn lemma_restartable_bounds(pods: Seq<EvictablePod>, k: int)
    requires
        0 <= k < restartable(pods).len(),
    ensures
        0 <= restartable(pods)[k] < pods.len(),
        pods[restartable(pods)[k]].restart_policy != RestartPolicy::Never,
    decreases pods.len(),
{
    let front = restartable(pods.drop_last());
    if k < front.len() {
        lemma_restartable_bounds(pods.drop_last(), k);
    }
}

proof fn lemma_not_guaranteed_bounds(pods: Seq<EvictablePod>, k: int)
    requires
        0 <= k < not_guaranteed(pods).len(),
    ensures
        0 <= not_guaranteed(pods)[k] < pods.len(),
        pods[not_guaranteed(pods)[k]].qos != QosClass::Guaranteed,
    decreases pods.len(),
{
    let front = not_guaranteed(pods.drop_last());
    if k < front.len() {
        lemma_not_guaranteed_bounds(pods.drop_last(), k);
    }
}

/// Whether a pod with the key `a` goes no later than one with the key `b`.
pub open spec fn goes_no_later(a: SortKey, b: SortKey) -> bool {
    a.0 < b.0 || (a.0 == b.0 && a.1 <= b.1)
}

/// The pod that is evicted under memory pressure goes before every other that
/// could have been: its class comes no later, and in the same class no other
/// uses more memory above its request.
pub proof fn law_memory_eviction_follows_the_order(
    m: EvictionManager,
    resources: NodeResources,
    pods: Seq<EvictablePod>,
    usage: Map<Seq<char>, PodResourceUsage>,
    now: u64,
    next: Map<Seq<char>, u64>,
    decisions: Seq<EvictionDecision>,
    p: int,
)
    requires
        evaluation_is(m, resources, pods, usage, now, next, decisions),
        pressure_of(entries_of(m.evaluator.hard_thresholds@), resources).memory_pressure,
        0 <= p < pods.len(),
        pods[p].restart_policy != RestartPolicy::Never,
        !recently(m.last_evictions@, pods[p].uid.0@, now, m.min_eviction_reclaim_ms),
    ensures
        decisions.len() > 0,
        exists|e: int|
            0 <= e < pods.len() && (#[trigger] pods[e]).uid == decisions[0].pod_uid
                && pods[e].restart_policy != RestartPolicy::Never && goes_no_later(
                memory_key(pods[e], usage),
                memory_key(pods[p], usage),
            ),
{
    let (by_memory, mid, memory, by_disk, disk) = choose|
        by_memory: Seq<Candidate>,
        mid: Map<Seq<char>, u64>,
        memory: Option<EvictionDecision>,
        by_disk: Seq<Candidate>,
        disk: Option<EvictionDecision>,
    |
        decisions == opt_list(memory) + opt_list(disk) && #[trigger] memory_round(
            m,
            resources,
            pods,
            usage,
            now,
            by_memory,
            mid,
            memory,
        ) && #[trigger] disk_round(m, resources, pods, usage, now, by_disk, mid, next, disk);
    let order = choose|order: Seq<usize>| memory_ranking(pods, usage, order, by_memory);
    let at = restartable(pods);
    let keys = memory_keys(pods, at, usage);
    lemma_restartable_has(pods, p);
    let k = choose|k: int| 0 <= k < at.len() && at[k] == p;
    lemma_order_reaches(keys, order, k);
    let i = choose|i: int| 0 <= i < order.len() && order[i] == k;
    assert(by_memory[i].0 == pods[p].uid);
    lemma_first_choice_first(m.last_evictions@, by_memory, now, m.min_eviction_reclaim_ms, i);
    let f = first_choice(m.last_evictions@, by_memory, now, m.min_eviction_reclaim_ms)->0;
    assert(decisions[0] == memory->0);
    let e = at[order[f] as int];
    assert(order[f] < keys.len());
    lemma_restartable_bounds(pods, order[f] as int);
    assert(by_memory[f].0 == pods[e].uid);
    if f < i {
        assert(crate::lists::comes_before(keys, order[f] as int, order[i] as int));
    }
    assert(keys[order[f] as int] == memory_key(pods[e], usage));
    assert(keys[k] == memory_key(pods[p], usage));
}

/// No guaranteed pod is evicted for disk: a decision for disk names one of the
/// other pods.
pub proof fn law_guaranteed_pods_keep_their_disk(
    m: EvictionManager,
    resources: NodeResources,
    pods: Seq<EvictablePod>,
    usage: Map<Seq<char>, PodResourceUsage>,
    now: u64,
    next: Map<Seq<char>, u64>,
    decisions: Seq<EvictionDecision>,
    d: int,
)
    requires
        evaluation_is(m, resources, pods, usage, now, next, decisions),
        0 <= d < decisions.len(),
        decisions[d].reason == EvictionReason::DiskPressure,
    ensures
        exists|e: int|
            0 <= e < pods.len() && (#[trigger] pods[e]).uid == decisions[d].pod_uid && pods[e].qos
                != QosClass::Guaranteed,
{
    let (by_memory, mid, memory, by_disk, disk) = choose|
        by_memory: Seq<Candidate>,
        mid: Map<Seq<char>, u64>,
        memory: Option<EvictionDecision>,
        by_disk: Seq<Candidate>,
        disk: Option<EvictionDecision>,
    |
        decisions == opt_list(memory) + opt_list(disk) && #[trigger] memory_round(
            m,
            resources,
            pods,
            usage,
            now,
            by_memory,
            mid,
            memory,
        ) && #[trigger] disk_round(m, resources, pods, usage, now, by_disk, mid, next, disk);
    if memory is Some {
        assert(decisions[0] == memory->0);
    }
    assert(disk is Some && decisions[d] == disk->0);
    let order = choose|order: Seq<usize>| disk_ranking(pods, usage, order, by_disk);
    let at = not_guaranteed(pods);
    lemma_first_choice_not_recent(mid, by_disk, now, m.min_eviction_reclaim_ms);
    let f = first_choice(mid, by_disk, now, m.min_eviction_reclaim_ms)->0;
    assert(order[f] < disk_keys(pods, at, usage).len());
    lemma_not_guaranteed_bounds(pods, order[f] as int);
    assert(by_disk[f].0 == pods[at[order[f] as int]].uid);
}

/// Under disk pressure no guaranteed pod is in the order, every best-effort pod
/// comes before every burstable one, and of two pods of one class the one that
/// uses more disk comes first.
pub proof fn law_disk_order_is_by_class_then_by_use(
    pods: Seq<EvictablePod>,
    usage: Map<Seq<char>, PodResourceUsage>,
    order: Seq<usize>,
    out: Seq<Candidate>,
    i: int,
    j: int,
)
    requires
        disk_ranking(pods, usage, order, out),
        0 <= i < j < out.len(),
    ensures
        out[i].1 != QosClass::Guaranteed,
        out[j].1 != QosClass::Guaranteed,
        out[j].1 == QosClass::BestEffort ==> out[i].1 == QosClass::BestEffort,
        out[i].1 == out[j].1 ==> out[i].2 >= out[j].2,
{
    let at = not_guaranteed(pods);
    let keys = disk_keys(pods, at, usage);
    assert(order[i] < keys.len() && order[j] < keys.len());
    lemma_not_guaranteed_bounds(pods, order[i] as int);
    lemma_not_guaranteed_bounds(pods, order[j] as int);
    assert(crate::lists::comes_before(keys, order[i] as int, order[j] as int));
    assert(out[i].1 == pods[at[order[i] as int]].qos);
    assert(out[j].1 == pods[at[order[j] as int]].qos);
}

/// Each pod that is not guaranteed is in the order for disk, with its class and
/// with the disk that it is known to use.
pub proof fn law_disk_order_holds_each_pod(
    pods: Seq<EvictablePod>,
    usage: Map<Seq<char>, PodResourceUsage>,
    order: Seq<usize>,
    out: Seq<Candidate>,
    p: int,
)
    requires
        disk_ranking(pods, usage, order, out),
        0 <= p < pods.len(),
        pods[p].qos != QosClass::Guaranteed,
    ensures
        exists|i: int|
            0 <= i < out.len() && (#[trigger] out[i]).0 == pods[p].uid && out[i].1 == pods[p].qos
                && out[i].2 == (if usage.contains_key(pods[p].uid.0@) {
                usage[pods[p].uid.0@].disk_bytes
            } else {
                0
            }),
{
    let at = not_guaranteed(pods);
    lemma_not_guaranteed_has(pods, p);
    let k = choose|k: int| 0 <= k < at.len() && at[k] == p;
    lemma_order_reaches(disk_keys(pods, at, usage), order, k);
    let i = choose|i: int| 0 <= i < order.len() && order[i] == k;
    assert(out[i].0 == pods[p].uid);
}

/// Under memory pressure every best-effort pod comes before every other, and
/// every burstable one before every guaranteed one; of two pods of one class
/// the one that uses more memory above its request comes first. None of them is
/// a pod that is never restarted.
pub proof fn law_memory_order_is_by_class_then_by_excess(
    pods: Seq<EvictablePod>,
    usage: Map<Seq<char>, PodResourceUsage>,
    order: Seq<usize>,
    out: Seq<Candidate>,
    i: int,
    j: int,
)
    requires
        memory_ranking(pods, usage, order, out),
        0 <= i < j < out.len(),
    ensures
        out[j].1 == QosClass::BestEffort ==> out[i].1 == QosClass::BestEffort,
        out[i].1 == QosClass::Guaranteed ==> out[j].1 == QosClass::Guaranteed,
        exists|a: int, b: int|
            #![trigger pods[a], pods[b]]
            {
                &&& 0 <= a < pods.len() && 0 <= b < pods.len() && a != b
                &&& pods[a].uid == out[i].0 && pods[a].qos == out[i].1
                &&& pods[b].uid == out[j].0 && pods[b].qos == out[j].1
                &&& pods[a].restart_policy != RestartPolicy::Never
                &&& pods[b].restart_policy != RestartPolicy::Never
                &&& out[i].1 == out[j].1 ==> out[i].2 - pods[a].memory_request_bytes >= out[j].2
                    - pods[b].memory_request_bytes
            },
{
    let at = restartable(pods);
    let keys = memory_keys(pods, at, usage);
    assert(order[i] < keys.len() && order[j] < keys.len());
    lemma_restartable_bounds(pods, order[i] as int);
    lemma_restartable_bounds(pods, order[j] as int);
    assert(crate::lists::comes_before(keys, order[i] as int, order[j] as int));
    let a = at[order[i] as int];
    let b = at[order[j] as int];
    assert(out[i] == (pods[a].uid, pods[a].qos, memory_used(usage, pods[a].uid.0@)));
    assert(out[j] == (pods[b].uid, pods[b].qos, memory_used(usage, pods[b].uid.0@)));
    crate::lists::lemma_stable_order_distinct(keys, order);
    lemma_restartable_increases(pods);
}

proof fn lemma_restartable_increases(pods: Seq<EvictablePod>)
    ensures
        forall|k: int, l: int|
            0 <= k < l < restartable(pods).len() ==> restartable(pods)[k] < restartable(pods)[l],
        forall|k: int| 0 <= k < restartable(pods).len() ==> restartable(pods)[k] < pods.len(),
    decreases pods.len(),
{
    if pods.len() > 0 {
        lemma_restartable_increases(pods.drop_last());
        let front = restartable(pods.drop_last());
        let all = restartable(pods);
        assert forall|k: int| 0 <= k < all.len() implies all[k] < pods.len() by {
            if k < front.len() {
                assert(all[k] == front[k]);
            }
        }
        assert forall|k: int, l: int| 0 <= k < l < all.len() implies all[k] < all[l] by {
            assert(all[k] == front[k]);
            if l < front.len() {
                assert(all[l] == front[l]);
            }
        }
    }
}

/// Each pod that may be restarted is in the order for memory, with its class
/// and with the memory that it is known to use.
pub proof fn law_memory_order_holds_each_pod(
    pods: Seq<EvictablePod>,
    usage: Map<Seq<char>, PodResourceUsage>,
    order: Seq<usize>,
    out: Seq<Candidate>,
    p: int,
)
    requires
        memory_ranking(pods, usage, order, out),
        0 <= p < pods.len(),
        pods[p].restart_policy != RestartPolicy::Never,
    ensures
        exists|i: int|
            0 <= i < out.len() && (#[trigger] out[i]).0 == pods[p].uid && out[i].1 == pods[p].qos
                && out[i].2 == (if usage.contains_key(pods[p].uid.0@) {
                usage[pods[p].uid.0@].memory_bytes
            } else {
                0
            }),
{
    let at = restartable(pods);
    lemma_restartable_has(pods, p);
    let k = choose|k: int| 0 <= k < at.len() && at[k] == p;
    lemma_order_reaches(memory_keys(pods, at, usage), order, k);
    let i = choose|i: int| 0 <= i < order.len() && order[i] == k;
    assert(out[i].0 == pods[p].uid);
}

proof fn lemma_not_guaranteed_has(pods: Seq<EvictablePod>, p: int)
    requires
        0 <= p < pods.len(),
        pods[p].qos != QosClass::Guaranteed,
    ensures
        exists|k: int| 0 <= k < not_guaranteed(pods).len() && not_guaranteed(pods)[k] == p,
    decreases pods.len(),
{
    let all = not_guaranteed(pods);
    if p == pods.len() - 1 {
        assert(all[all.len() - 1] == p);
    } else {
        lemma_not_guaranteed_has(pods.drop_last(), p);
        let front = not_guaranteed(pods.drop_last());
        let k = choose|k: int| 0 <= k < front.len() && front[k] == p;
        assert(all[k] == p);
    }
}

/// Under disk pressure some pod is evicted for disk, where there is a pod `p`
/// that is not guaranteed, that was not evicted within the reclaim period and
/// that is not evicted for memory now. A burstable pod is evicted only where
/// `p` is no best-effort one, and of the class of `p` only a pod that uses no
/// less disk.
pub proof fn law_disk_eviction_follows_the_order(
    m: EvictionManager,
    resources: NodeResources,
    pods: Seq<EvictablePod>,
    usage: Map<Seq<char>, PodResourceUsage>,
    now: u64,
    next: Map<Seq<char>, u64>,
    decisions: Seq<EvictionDecision>,
    p: int,
)
    requires
        evaluation_is(m, resources, pods, usage, now, next, decisions),
        pressure_of(entries_of(m.evaluator.hard_thresholds@), resources).disk_pressure,
        0 <= p < pods.len(),
        pods[p].qos != QosClass::Guaranteed,
        m.last_evictions@.contains_key(pods[p].uid.0@) ==> m.last_evictions@[pods[p].uid.0@]
            + m.min_eviction_reclaim_ms <= now,
        decisions.len() == 0 || decisions[0].reason != EvictionReason::MemoryPressure
            || decisions[0].pod_uid.0@ != pods[p].uid.0@,
    ensures
        exists|d: int, e: int|
            #![trigger decisions[d], pods[e]]
            {
                &&& 0 <= d < decisions.len() && 0 <= e < pods.len()
                &&& decisions[d].reason == EvictionReason::DiskPressure
                &&& decisions[d].pod_uid == pods[e].uid
                &&& pods[e].qos != QosClass::Guaranteed
                &&& pods[e].qos == QosClass::Burstable ==> pods[p].qos == QosClass::Burstable
                &&& pods[e].qos == pods[p].qos && usage.contains_key(pods[p].uid.0@)
                    && usage[pods[p].uid.0@].disk_bytes > 0 ==> usage.contains_key(pods[e].uid.0@)
                    && usage[pods[e].uid.0@].disk_bytes >= usage[pods[p].uid.0@].disk_bytes
            },
{
    let period = m.min_eviction_reclaim_ms;
    let (by_memory, mid, memory, by_disk, disk) = choose|
        by_memory: Seq<Candidate>,
        mid: Map<Seq<char>, u64>,
        memory: Option<EvictionDecision>,
        by_disk: Seq<Candidate>,
        disk: Option<EvictionDecision>,
    |
        decisions == opt_list(memory) + opt_list(disk) && #[trigger] memory_round(
            m,
            resources,
            pods,
            usage,
            now,
            by_memory,
            mid,
            memory,
        ) && #[trigger] disk_round(m, resources, pods, usage, now, by_disk, mid, next, disk);
    if memory is Some {
        assert(decisions[0] == memory->0);
    }
    assert(!recently(mid, pods[p].uid.0@, now, period));
    let order = choose|order: Seq<usize>| disk_ranking(pods, usage, order, by_disk);
    let at = not_guaranteed(pods);
    let keys = disk_keys(pods, at, usage);
    lemma_not_guaranteed_has(pods, p);
    let k = choose|k: int| 0 <= k < at.len() && at[k] == p;
    lemma_order_reaches(keys, order, k);
    let i = choose|i: int| 0 <= i < order.len() && order[i] == k;
    assert(by_disk[i].0 == pods[p].uid);
    lemma_first_choice_first(mid, by_disk, now, period, i);
    let f = first_choice(mid, by_disk, now, period)->0;
    let d = opt_list(memory).len() as int;
    assert(decisions[d] == disk->0);
    let e = at[order[f] as int];
    assert(order[f] < keys.len());
    lemma_not_guaranteed_bounds(pods, order[f] as int);
    assert(by_disk[f].0 == pods[e].uid);
    if f < i {
        law_disk_order_is_by_class_then_by_use(pods, usage, order, by_disk, f, i);
    }
    assert(by_disk[f].1 == pods[e].qos && by_disk[i].1 == pods[p].qos);
    assert(by_disk[f].2 == disk_used(usage, pods[e].uid.0@));
    assert(by_disk[i].2 == disk_used(usage, pods[p].uid.0@));
    assert(decisions[d].pod_uid == pods[e].uid);
}

/// The pod that is evicted under memory pressure is guaranteed only where no
/// other pod could have been that is not, and burstable only where none could
/// have been that is best-effort; of its class no other that could have been
/// uses more memory above its request.
pub proof fn law_memory_eviction_spares_the_higher_classes(
    m: EvictionManager,
    resources: NodeResources,
    pods: Seq<EvictablePod>,
    usage: Map<Seq<char>, PodResourceUsage>,
    now: u64,
    next: Map<Seq<char>, u64>,
    decisions: Seq<EvictionDecision>,
    p: int,
)
    requires
        evaluation_is(m, resources, pods, usage, now, next, decisions),
        pressure_of(entries_of(m.evaluator.hard_thresholds@), resources).memory_pressure,
        0 <= p < pods.len(),
        pods[p].restart_policy != RestartPolicy::Never,
        m.last_evictions@.contains_key(pods[p].uid.0@) ==> m.last_evictions@[pods[p].uid.0@]
            + m.min_eviction_reclaim_ms <= now,
        usage.contains_key(pods[p].uid.0@),
    ensures
        decisions.len() > 0,
        decisions[0].reason == EvictionReason::MemoryPressure,
        exists|e: int|
            #![trigger pods[e]]
            {
                &&& 0 <= e < pods.len()
                &&& decisions[0].pod_uid == pods[e].uid
                &&& pods[e].restart_policy != RestartPolicy::Never
                &&& pods[e].qos == QosClass::Guaranteed ==> pods[p].qos == QosClass::Guaranteed
                &&& pods[p].qos == QosClass::BestEffort ==> pods[e].qos == QosClass::BestEffort
                &&& pods[e].qos == pods[p].qos && usage.contains_key(pods[e].uid.0@)
                    ==> usage[pods[e].uid.0@].memory_bytes - pods[e].memory_request_bytes
                    >= usage[pods[p].uid.0@].memory_bytes - pods[p].memory_request_bytes
            },
{
    law_memory_pressure_evicts(m, resources, pods, usage, now, next, decisions, p);
    law_memory_eviction_follows_the_order(m, resources, pods, usage, now, next, decisions, p);
    let e = choose|e: int|
        0 <= e < pods.len() && (#[trigger] pods[e]).uid == decisions[0].pod_uid
            && pods[e].restart_policy != RestartPolicy::Never && goes_no_later(
            memory_key(pods[e], usage),
            memory_key(pods[p], usage),
        );
    assert(decisions[0].pod_uid == pods[e].uid);
}

/// Without memory or disk pressure no pod is evicted, and each eviction has the
/// pressure that it names. A pod that was evicted before is evicted again only
/// after the reclaim period. The time of each eviction is noted and no other
/// is changed.
pub proof fn law_evictions_have_their_pressure(
    m: EvictionManager,
    resources: NodeResources,
    pods: Seq<EvictablePod>,
    usage: Map<Seq<char>, PodResourceUsage>,
    now: u64,
    next: Map<Seq<char>, u64>,
    decisions: Seq<EvictionDecision>,
    d: int,
)
    requires
        evaluation_is(m, resources, pods, usage, now, next, decisions),
        m.min_eviction_reclaim_ms > 0,
        0 <= d < decisions.len(),
    ensures
        decisions.len() <= 2,
        ({
            let pressure = pressure_of(entries_of(m.evaluator.hard_thresholds@), resources);
            ||| decisions[d].reason == EvictionReason::MemoryPressure && pressure.memory_pressure
            ||| decisions[d].reason == EvictionReason::DiskPressure && pressure.disk_pressure
        }),
        m.last_evictions@.contains_key(decisions[d].pod_uid.0@)
            ==> m.last_evictions@[decisions[d].pod_uid.0@] + m.min_eviction_reclaim_ms <= now,
        next.contains_key(decisions[d].pod_uid.0@),
        next[decisions[d].pod_uid.0@] == now,
        decisions.len() == 1 ==> next == m.last_evictions@.insert(decisions[d].pod_uid.0@, now),
        decisions[d].pod_ref.name@ == decisions[d].pod_uid.0@,
{
    law_no_repeated_eviction(m, resources, pods, usage, now, next, decisions);
    let (by_memory, mid, memory, by_disk, disk) = choose|
        by_memory: Seq<Candidate>,
        mid: Map<Seq<char>, u64>,
        memory: Option<EvictionDecision>,
        by_disk: Seq<Candidate>,
        disk: Option<EvictionDecision>,
    |
        decisions == opt_list(memory) + opt_list(disk) && #[trigger] memory_round(
            m,
            resources,
            pods,
            usage,
            now,
            by_memory,
            mid,
            memory,
        ) && #[trigger] disk_round(m, resources, pods, usage, now, by_disk, mid, next, disk);
    assert(!recently(
        m.last_evictions@,
        decisions[d].pod_uid.0@,
        now,
        m.min_eviction_reclaim_ms,
    ));
    if memory is Some {
        assert(decisions[0] == memory->0);
        if disk is Some {
            assert(decisions[1] == disk->0);
        }
    } else {
        assert(decisions[0] == disk->0);
    }
}

/// A configured grace period holds for every pod. Without one, a best-effort
/// pod is stopped at once, and a guaranteed pod gets the most time.
pub proof fn law_grace_grows_with_the_class(
    c: Candidate,
    reason: EvictionReason,
    grace_override: Option<u64>,
    d: EvictionDecision,
)
    requires
        decision_is(c, reason, grace_override, d),
    ensures
        d.pod_uid == c.0,
        d.reason == reason,
        grace_override matches Some(g) ==> d.grace_period_ms == g,
        grace_override is None ==> {
            &&& c.1 == QosClass::BestEffort <==> d.grace_period_ms == 0
            &&& c.1 == QosClass::Burstable <==> d.grace_period_ms == 10_000
            &&& c.1 == QosClass::Guaranteed <==> d.grace_period_ms == 30_000
        },
{
}

/// The reason of an eviction names the resource that ran short.
pub proof fn law_reasons_name_their_resource(r: EvictionReason)
    ensures
        r is MemoryPressure ==> r.text() == "EvictionThresholdMet: memory.available"@,
        r is DiskPressure ==> r.text() == "EvictionThresholdMet: nodefs.available"@,
        r is PIDPressure ==> r.text() == "EvictionThresholdMet: pid.available"@,
        r matches EvictionReason::NodeConditionPressure(c) ==> r.text() == "EvictionThresholdMet: "@
            + c@,
{
}

/// Without a period no eviction is a recent one, and with a period one that was
/// not later than it is.
pub proof fn law_recent_is_within_the_period(
    last: Map<Seq<char>, u64>,
    uid: Seq<char>,
    now: u64,
    period: u64,
)
    ensures
        period == 0 ==> !recently(last, uid, now, period),
        !last.contains_key(uid) ==> !recently(last, uid, now, period),
        last.contains_key(uid) && now >= last[uid] ==> recently(last, uid, now, period) == (now
            < last[uid] + period),
        last.contains_key(uid) && now < last[uid] && period > 0 ==> recently(
            last,
            uid,
            now,
            period,
        ),
{
}

/// A decision names the pod by its identity and says why it has to go.
pub proof fn law_decisions_name_the_pod(
    c: Candidate,
    reason: EvictionReason,
    grace_override: Option<u64>,
    d: EvictionDecision,
)
    requires
        decision_is(c, reason, grace_override, d),
    ensures
        d.pod_uid == c.0,
        d.pod_ref.name@ == c.0.0@,
        d.pod_ref.namespace@ == "unknown"@,
        d.reason == reason,
        d.message@ == "The node was low on resource. Threshold capacity was exceeded."@,
{
}

} // verus!
