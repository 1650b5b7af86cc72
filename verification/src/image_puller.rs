//! Pulling of images, and the upkeep of terminated and mirrored pods.
use crate::error::KubeletError;
use crate::json::{field, JsonValue};
use crate::kube_status::{is_text, members_are, string_value, why, ApiOutcome};
use crate::lists::{sort_indices, stable_order, SortKey};
use crate::paths::{join_path, path_join};
use crate::strmap::StrMap;
use crate::text::{cat2, cat3, cat4, cat5, dec, decimal};
use crate::types::{ImagePullPolicy, Timestamp};
use vstd::prelude::*;

verus! {

// ---------------------------------------------------------------------------
// Backoff
// ---------------------------------------------------------------------------

/// How long the first failure keeps an image from being pulled again.
pub const INITIAL_BACKOFF_NS: u64 = 10_000_000_000;

/// How long failures keep an image from being pulled again at most.
pub const MAX_BACKOFF_NS: u64 = 300_000_000_000;

/// The failures of an image. Times are nanoseconds of a clock that never goes
/// back.
#[derive(Debug, Clone, Copy, PartialEq, Eq, Structural)]
pub struct ImageBackoff {
    pub next_retry: u128,
    pub current_backoff: u64,
    pub failure_count: u32,
}

/// Twice the time, up to the maximum.
pub open spec fn doubled(backoff: int) -> int {
    if 2 * backoff > MAX_BACKOFF_NS {
        MAX_BACKOFF_NS as int
    } else {
        2 * backoff
    }
}

/// One more failure: the image is not pulled again for the current time, which
/// is then doubled.
pub open spec fn failure_recorded(before: ImageBackoff, now: u64, after: ImageBackoff) -> bool {
    &&& after.failure_count == before.failure_count + 1
    &&& after.next_retry == now + before.current_backoff
    &&& after.current_backoff == doubled(before.current_backoff as int)
}

impl ImageBackoff {
    /// The current time without pulls is the one that the failures in a row
    /// call for, and the next pull is at most the longest such time beyond the
    /// last reading that the clock can give.
    pub open spec fn wf(self) -> bool {
        &&& self.current_backoff == backoff_after(self.failure_count as nat)
        &&& self.next_retry <= u64::MAX + MAX_BACKOFF_NS
    }

    /// The state of an image that has not failed yet.
    pub fn new(now: u64) -> (r: Self)
        ensures
            r.wf(),
            r == (ImageBackoff {
                next_retry: now as u128,
                current_backoff: INITIAL_BACKOFF_NS,
                failure_count: 0,
            }),
    {
        ImageBackoff {
            next_retry: now as u128,
            current_backoff: INITIAL_BACKOFF_NS,
            failure_count: 0,
        }
    }

    /// Whether the image may be pulled again.
    pub fn should_retry(&self, now: u64) -> (r: bool)
        ensures
            r == (now >= self.next_retry),
    {
        now as u128 >= self.next_retry
    }

    /// Records a failed pull: the image is not pulled again for the current
    /// time, which is then doubled.
    pub fn record_failure(&mut self, now: u64)
        requires
            old(self).wf(),
            old(self).failure_count < u32::MAX,
        ensures
            final(self).wf(),
            failure_recorded(*old(self), now, *final(self)),
    {
        proof {
            law_backoff_schedule(self.failure_count as nat);
            vstd::arithmetic::power2::lemma2_to64();
        }
        self.failure_count = self.failure_count + 1;
        self.next_retry = now as u128 + self.current_backoff as u128;
        let twice: u64 = self.current_backoff * 2;
        self.current_backoff =
        if twice > MAX_BACKOFF_NS {
            MAX_BACKOFF_NS
        } else {
            twice
        };
    }

    /// Records a pull that succeeded.
    pub fn record_success(&mut self, now: u64)
        ensures
            final(self).wf(),
            *final(self) == (ImageBackoff {
                next_retry: now as u128,
                current_backoff: INITIAL_BACKOFF_NS,
                failure_count: 0,
            }),
    {
        self.failure_count = 0;
        self.current_backoff = INITIAL_BACKOFF_NS;
        self.next_retry = now as u128;
    }
}

/// For how long an image is not pulled again after `n` failures in a row and
/// one more.
pub open spec fn backoff_after(n: nat) -> int
    decreases n,
{
    if n == 0 {
        INITIAL_BACKOFF_NS as int
    } else {
        doubled(backoff_after((n - 1) as nat))
    }
}

/// The times without pulls are ten, twenty, forty seconds and so on, and five
/// minutes from the sixth failure in a row on.
pub proof fn law_backoff_schedule(n: nat)
    ensures
        n <= 4 ==> backoff_after(n) == INITIAL_BACKOFF_NS * vstd::arithmetic::power2::pow2(n),
        n >= 5 ==> backoff_after(n) == MAX_BACKOFF_NS,
    decreases n,
{
    vstd::arithmetic::power2::lemma2_to64();
    if n > 0 {
        law_backoff_schedule((n - 1) as nat);
    }
    reveal_with_fuel(backoff_after, 6);
}

/// The `k`-th failure in a row leaves an image with `k` failures, and it is not
/// pulled again for ten seconds times two to the power of `k - 1`, or for five
/// minutes where that is less. `states` are those before the first failure and
/// after each one, `times` those of the failures.
pub proof fn law_backoff_of_a_run(states: Seq<ImageBackoff>, times: Seq<u64>, k: nat)
    requires
        states.len() == times.len() + 1,
        states[0].failure_count == 0,
        states[0].wf(),
        forall|i: int|
            0 <= i < times.len() ==> failure_recorded(
                states[i],
                #[trigger] times[i],
                states[i + 1],
            ),
        k <= times.len(),
    ensures
        states[k as int].wf(),
        states[k as int].failure_count == k,
        k > 0 ==> states[k as int].next_retry == times[k - 1] + ({
            let ns = INITIAL_BACKOFF_NS * vstd::arithmetic::power2::pow2((k - 1) as nat);
            if ns < MAX_BACKOFF_NS {
                ns
            } else {
                MAX_BACKOFF_NS as int
            }
        }),
    decreases k,
{
    if k > 0 {
        let n = (k - 1) as nat;
        law_backoff_of_a_run(states, times, n);
        assert(failure_recorded(states[k - 1], times[k - 1], states[k as int]));
        law_backoff_schedule(n);
        vstd::arithmetic::power2::lemma2_to64();
        if n > 5 {
            vstd::arithmetic::power2::lemma_pow2_strictly_increases(5, n);
        }
    }
}

// ---------------------------------------------------------------------------
// The puller
// ---------------------------------------------------------------------------

/// What the `Debug` format of `std::time::Duration` yields for whole seconds and
/// the nanoseconds beyond them.
pub uninterp spec fn debug_duration_text(secs: u64, nanos: u32) -> Seq<char>;

/// Formats a `std::time::Duration` with `{:?}`. The notation is not restated:
/// the result is named, as a function of the two numbers alone. The nanoseconds
/// make up less than a second, so none are carried over.
#[verifier::external_body]
fn debug_duration(secs: u64, nanos: u32) -> (r: String)
    requires
        nanos < 1_000_000_000,
    ensures
        r@ == debug_duration_text(secs, nanos),
{
    format!("{:?}", std::time::Duration::new(secs, nanos))
}

/// What is done to have an image.
#[derive(Debug)]
pub enum PullStep {
    /// The image is there, under this identifier.
    Present(String),
    /// The image cannot be had now.
    Refused(KubeletError),
    /// The image is pulled; `finish_pull` takes the outcome.
    Pull,
}

/// Keeps the failures of images.
#[derive(Debug)]
pub struct ImagePuller {
    pub backoffs: StrMap<ImageBackoff>,
}

/// Whether an image is kept from being pulled.
pub open spec fn backed_off(backoffs: Map<Seq<char>, ImageBackoff>, image: Seq<char>, now: u64) -> bool {
    backoffs.contains_key(image) && now < backoffs[image].next_retry
}

/// What is said of an image that is kept from being pulled.
pub open spec fn backoff_text(b: ImageBackoff, image: Seq<char>, now: u64) -> Seq<char> {
    let left = b.next_retry - now;
    "image '"@ + image + "' is in pull backoff (retry in "@ + debug_duration_text(
        (left / 1_000_000_000) as u64,
        (left % 1_000_000_000) as u32,
    ) + ", failures: "@ + dec(b.failure_count as nat) + ")"@
}

/// What is done to have an image, by policy: an image that is there is used but
/// under the policy to pull always, and one that is not there is pulled but
/// under the policy to pull never, as long as failures do not keep it from that.
pub open spec fn step_is(
    backoffs: Map<Seq<char>, ImageBackoff>,
    image: Seq<char>,
    policy: ImagePullPolicy,
    local: Option<String>,
    now: u64,
    r: PullStep,
) -> bool {
    if policy != ImagePullPolicy::Always && local is Some {
        r matches PullStep::Present(id) && Some(id) == local
    } else if policy == ImagePullPolicy::Never {
        r matches PullStep::Refused(KubeletError::Runtime(m)) && m@ == "image '"@ + image
            + "' not found locally and pull policy is Never"@
    } else if backed_off(backoffs, image, now) {
        r matches PullStep::Refused(KubeletError::Runtime(m)) && m@ == backoff_text(
            backoffs[image],
            image,
            now,
        )
    } else {
        r is Pull
    }
}

impl ImagePuller {
    pub open spec fn wf(self) -> bool {
        forall|k: Seq<char>| #[trigger]
            self.backoffs@.contains_key(k) ==> self.backoffs@[k].wf()
    }

    pub fn new() -> (r: Self)
        ensures
            r.wf(),
            r.backoffs@ == Map::<Seq<char>, ImageBackoff>::empty(),
    {
        ImagePuller { backoffs: StrMap::new() }
    }

    /// Whether it has to be known if the image is there.
    pub fn needs_status(&self, policy: &ImagePullPolicy) -> (r: bool)
        ensures
            r == (*policy != ImagePullPolicy::Always),
    {
        *policy != ImagePullPolicy::Always
    }

    /// Says what is done to have an image. `local` is the identifier of the
    /// image, where it is there.
    pub fn ensure_image(
        &self,
        image: &str,
        policy: &ImagePullPolicy,
        local: &Option<String>,
        now: u64,
    ) -> (r: PullStep)
        requires
            self.wf(),
        ensures
            step_is(self.backoffs@, image@, *policy, *local, now, r),
    {
        if *policy != ImagePullPolicy::Always {
            if let Some(id) = local {
                return PullStep::Present(id.clone());
            }
            if *policy == ImagePullPolicy::Never {
                return PullStep::Refused(
                    KubeletError::Runtime(
                        cat3("image '", image, "' not found locally and pull policy is Never"),
                    ),
                );
            }
        }
        if let Some(b) = self.backoffs.get(image) {
            if !b.should_retry(now) {
                let left: u128 = b.next_retry - now as u128;
                let wait = debug_duration(
                    (left / 1_000_000_000) as u64,
                    (left % 1_000_000_000) as u32,
                );
                let failures = decimal(b.failure_count as u64);
                let head = cat3("image '", image, "' is in pull backoff (retry in ");
                return PullStep::Refused(
                    KubeletError::Runtime(
                        cat5(
                            head.as_str(),
                            wait.as_str(),
                            ", failures: ",
                            failures.as_str(),
                            ")",
                        ),
                    ),
                );
            }
        }
        PullStep::Pull
    }

    /// Takes the outcome of a pull: a failure keeps the image from being pulled
    /// for a while, a success ends that.
    pub fn finish_pull(
        &mut self,
        image: &str,
        outcome: Result<String, KubeletError>,
        now: u64,
    ) -> (r: Result<String, KubeletError>)
        requires
            old(self).wf(),
            outcome is Err && old(self).backoffs@.contains_key(image@) ==> old(
                self,
            ).backoffs@[image@].failure_count < u32::MAX,
        ensures
            final(self).wf(),
            r == outcome,
            pull_recorded(old(self).backoffs@, image@, outcome is Ok, now, final(self).backoffs@),
    {
        let ghost before = self.backoffs@;
        let known = self.backoffs.remove(image);
        match &outcome {
            Ok(_) => {
                if let Some(mut b) = known {
                    b.record_success(now);
                    self.backoffs.insert(image.to_owned(), b);
                    assert(self.backoffs@ =~= before.insert(image@, b));
                } else {
                    assert(self.backoffs@ =~= before);
                }
            },
            Err(_) => {
                let mut b = match known {
                    Some(b) => b,
                    None => ImageBackoff::new(now),
                };
                b.record_failure(now);
                self.backoffs.insert(image.to_owned(), b);
                assert(self.backoffs@ =~= before.insert(image@, b));
            },
        }
        outcome
    }

    /// Forgets the failures of an image.
    pub fn clear_backoff(&mut self, image: &str)
        requires
            old(self).wf(),
        ensures
            final(self).wf(),
            final(self).backoffs@ == old(self).backoffs@.remove(image@),
    {
        let _ = self.backoffs.remove(image);
    }

    /// How often an image failed in a row.
    pub fn failure_count(&self, image: &str) -> (r: u32)
        ensures
            r == if self.backoffs@.contains_key(image@) {
                self.backoffs@[image@].failure_count
            } else {
                0
            },
    {
        match self.backoffs.get(image) {
            Some(b) => b.failure_count,
            None => 0,
        }
    }

    /// How many images have a record of failures.
    pub fn backoff_count(&self) -> (r: usize)
        ensures
            r == self.backoffs@.len(),
    {
        self.backoffs.len()
    }
}

/// The record of failures after a pull.
pub open spec fn pull_recorded(
    before: Map<Seq<char>, ImageBackoff>,
    image: Seq<char>,
    success: bool,
    now: u64,
    after: Map<Seq<char>, ImageBackoff>,
) -> bool {
    let last = if before.contains_key(image) {
        before[image]
    } else {
        ImageBackoff {
            next_retry: now as u128,
            current_backoff: INITIAL_BACKOFF_NS,
            failure_count: 0,
        }
    };
    if success {
        after == if before.contains_key(image) {
            before.insert(
                image,
                ImageBackoff {
                    next_retry: now as u128,
                    current_backoff: INITIAL_BACKOFF_NS,
                    failure_count: 0,
                },
            )
        } else {
            before
        }
    } else {
        &&& after.contains_key(image)
        &&& after == before.insert(image, after[image])
        &&& failure_recorded(last, now, after[image])
    }
}

/// A failed pull keeps the image from being pulled for ten seconds at least,
/// and a pull that succeeds lets it be pulled again at once.
pub proof fn law_failure_backs_off(
    m: ImagePuller,
    image: Seq<char>,
    success: bool,
    now: u64,
    after: Map<Seq<char>, ImageBackoff>,
    later: u64,
)
    requires
        m.wf(),
        pull_recorded(m.backoffs@, image, success, now, after),
        later >= now,
    ensures
        success ==> !backed_off(after, image, later),
        !success && later < now + INITIAL_BACKOFF_NS ==> backed_off(after, image, later),
        !success && later >= now + MAX_BACKOFF_NS ==> !backed_off(after, image, later),
{
    vstd::arithmetic::power2::lemma2_to64();
    if m.backoffs@.contains_key(image) {
        law_backoff_schedule(m.backoffs@[image].failure_count as nat);
    }
}

// ---------------------------------------------------------------------------
// Terminated pods
// ---------------------------------------------------------------------------

/// Says which terminated pods are removed.
#[derive(Debug)]
pub struct PodGarbageCollector {
    /// How many terminated pods stay.
    pub max_terminated_pods: usize,
    pub pods_dir: String,
}

pub open spec fn time_keys(pods: Seq<(String, Timestamp)>) -> Seq<SortKey> {
    pods.map_values(|p: (String, Timestamp)| (p.1.ns() as i128, 0i128))
}

/// `out` holds the pods that terminated first: all but the number that stay.
pub open spec fn collected(
    pods: Seq<(String, Timestamp)>,
    keep: nat,
    order: Seq<usize>,
    out: Seq<String>,
) -> bool {
    &&& stable_order(time_keys(pods), order)
    &&& out.len() == if pods.len() > keep {
        pods.len() - keep
    } else {
        0
    }
    &&& forall|i: int| 0 <= i < out.len() ==> (#[trigger] out[i]) == pods[order[i] as int].0
}

impl PodGarbageCollector {
    pub fn new(pods_dir: &str, max_terminated_pods: usize) -> (r: Self)
        ensures
            r.pods_dir@ == pods_dir@,
            r.max_terminated_pods == max_terminated_pods,
    {
        PodGarbageCollector { max_terminated_pods, pods_dir: pods_dir.to_owned() }
    }

    /// The terminated pods that are removed: those that terminated first,
    /// beyond the number that stay.
    pub fn collect(&self, terminated_pods: &Vec<(String, Timestamp)>) -> (r: Vec<String>)
        ensures
            exists|order: Seq<usize>|
                collected(terminated_pods@, self.max_terminated_pods as nat, order, r@),
    {
        let mut keys: Vec<SortKey> = Vec::new();
        let mut i: usize = 0;
        while i < terminated_pods.len()
            invariant
                i <= terminated_pods@.len(),
                keys@ == time_keys(terminated_pods@).take(i as int),
            decreases terminated_pods@.len() - i,
        {
            keys.push((terminated_pods[i].1.as_nanos(), 0));
            i = i + 1;
            assert(keys@ =~= time_keys(terminated_pods@).take(i as int));
        }
        assert(keys@ =~= time_keys(terminated_pods@));
        let order = sort_indices(&keys);
        let n: usize = if terminated_pods.len() > self.max_terminated_pods {
            terminated_pods.len() - self.max_terminated_pods
        } else {
            0
        };
        let mut out: Vec<String> = Vec::new();
        let mut k: usize = 0;
        while k < n
            invariant
                k <= n <= terminated_pods@.len(),
                stable_order(time_keys(terminated_pods@), order@),
                out@.len() == k,
                forall|x: int|
                    0 <= x < k ==> (#[trigger] out@[x]) == terminated_pods@[order@[x] as int].0,
            decreases n - k,
        {
            assert(order@[k as int] < terminated_pods@.len());
            out.push(terminated_pods[order[k]].0.clone());
            k = k + 1;
        }
        assert(collected(terminated_pods@, self.max_terminated_pods as nat, order@, out@));
        out
    }

    /// The directory of a pod.
    pub fn pod_dir(&self, pod_uid: &str) -> (r: String)
        ensures
            r@ == path_join(self.pods_dir@, pod_uid@),
    {
        join_path(self.pods_dir.as_str(), pod_uid)
    }

    /// What the removal of the directory of a pod yields. `outcome` is missing
    /// where there was no directory.
    pub fn remove_pod_dir(&self, pod_uid: &str, outcome: &Option<Result<(), String>>) -> (r: Result<
        (),
        KubeletError,
    >)
        ensures
            match *outcome {
                Some(Err(e)) => r matches Err(KubeletError::Storage(m)) && m@
                    == "pod GC: remove dir for "@ + pod_uid@ + ": "@ + e@,
                _ => r is Ok,
            },
    {
        match outcome {
            Some(o) => match o {
                Ok(_) => Ok(()),
                Err(e) => Err(
                    KubeletError::Storage(
                        cat4("pod GC: remove dir for ", pod_uid, ": ", e.as_str()),
                    ),
                ),
            },
            None => Ok(()),
        }
    }
}

/// No pod that stays terminated before one that is removed.
pub proof fn law_oldest_pods_are_removed(
    pods: Seq<(String, Timestamp)>,
    keep: nat,
    order: Seq<usize>,
    out: Seq<String>,
    removed: int,
    kept: int,
)
    requires
        collected(pods, keep, order, out),
        0 <= removed < out.len(),
        out.len() <= kept < order.len(),
    ensures
        pods[order[removed] as int].1.ns() as i128 <= pods[order[kept] as int].1.ns() as i128,
{
    let keys = time_keys(pods);
    assert(order[removed] < keys.len() && order[kept] < keys.len());
    assert(crate::lists::comes_before(keys, order[removed] as int, order[kept] as int));
}

// ---------------------------------------------------------------------------
// Mirror pods
// ---------------------------------------------------------------------------

/// Shows static pods to the cluster by pods that mirror them.
#[derive(Debug)]
pub struct MirrorPodManager {
    pub node_name: String,
    /// Whether there is a cluster.
    pub connected: bool,
}

/// The annotations of a mirror pod.
pub open spec fn mirror_annotations_json(
    v: JsonValue,
    uid: Seq<char>,
    name: Seq<char>,
    namespace: Seq<char>,
) -> bool {
    &&& members_are(
        v,
        set![
            "kubernetes.io/config.mirror"@,
            "kubernetes.io/config.source"@,
            "kubernetes.io/config.hash"@,
        ],
    )
    &&& is_text(field(v, "kubernetes.io/config.mirror"@), uid + "/"@ + name + "."@ + namespace)
    &&& is_text(field(v, "kubernetes.io/config.source"@), "file"@)
    &&& is_text(field(v, "kubernetes.io/config.hash"@), uid)
}

/// The metadata of a mirror pod.
pub open spec fn mirror_metadata_json(
    v: JsonValue,
    uid: Seq<char>,
    name: Seq<char>,
    namespace: Seq<char>,
) -> bool {
    &&& members_are(v, set!["name"@, "namespace"@, "annotations"@, "ownerReferences"@])
    &&& is_text(field(v, "name"@), name)
    &&& is_text(field(v, "namespace"@), namespace)
    &&& field(v, "annotations"@) matches Some(a) && mirror_annotations_json(
        a,
        uid,
        name,
        namespace,
    )
    &&& field(v, "ownerReferences"@) matches Some(JsonValue::Array(o)) && o@.len() == 0
}

/// The mirror of a static pod.
pub open spec fn mirror_pod_json(
    v: JsonValue,
    uid: Seq<char>,
    name: Seq<char>,
    namespace: Seq<char>,
    spec_json: JsonValue,
) -> bool {
    &&& members_are(v, set!["apiVersion"@, "kind"@, "metadata"@, "spec"@])
    &&& is_text(field(v, "apiVersion"@), "v1"@)
    &&& is_text(field(v, "kind"@), "Pod"@)
    &&& field(v, "metadata"@) matches Some(m) && mirror_metadata_json(m, uid, name, namespace)
    &&& field(v, "spec"@) == Some(spec_json)
}

fn mirror_annotations(uid: &str, name: &str, namespace: &str) -> (v: JsonValue)
    ensures
        mirror_annotations_json(v, uid@, name@, namespace@),
{
    proof {
        reveal_strlit("kubernetes.io/config.mirror");
        reveal_strlit("kubernetes.io/config.source");
        reveal_strlit("kubernetes.io/config.hash");
        assert("kubernetes.io/config.hash"@.len() == 25);
        assert("kubernetes.io/config.mirror"@.len() == 27);
        assert("kubernetes.io/config.source"@.len() == 27);
        assert("kubernetes.io/config.mirror"@[21] == 'm');
        assert("kubernetes.io/config.source"@[21] == 's');
    }
    let mirror = cat5(uid, "/", name, ".", namespace);
    let mut m: StrMap<JsonValue> = StrMap::new();
    m.insert("kubernetes.io/config.mirror".to_owned(), string_value(mirror.as_str()));
    m.insert("kubernetes.io/config.source".to_owned(), string_value("file"));
    m.insert("kubernetes.io/config.hash".to_owned(), string_value(uid));
    assert(m@.dom() =~= set![
        "kubernetes.io/config.mirror"@,
        "kubernetes.io/config.source"@,
        "kubernetes.io/config.hash"@,
    ]);
    JsonValue::Object(m)
}

fn mirror_metadata(uid: &str, name: &str, namespace: &str) -> (v: JsonValue)
    ensures
        mirror_metadata_json(v, uid@, name@, namespace@),
{
    proof {
        reveal_strlit("name");
        reveal_strlit("namespace");
        reveal_strlit("annotations");
        reveal_strlit("ownerReferences");
        assert("name"@.len() == 4 && "namespace"@.len() == 9 && "annotations"@.len() == 11
            && "ownerReferences"@.len() == 15);
    }
    let mut m: StrMap<JsonValue> = StrMap::new();
    m.insert("name".to_owned(), string_value(name));
    m.insert("namespace".to_owned(), string_value(namespace));
    m.insert("annotations".to_owned(), mirror_annotations(uid, name, namespace));
    m.insert("ownerReferences".to_owned(), JsonValue::Array(Vec::new()));
    assert(m@.dom() =~= set!["name"@, "namespace"@, "annotations"@, "ownerReferences"@]);
    JsonValue::Object(m)
}

/// What a request for a mirror pod yields: an answer with the given code means
/// that there is nothing to do.
pub open spec fn mirror_result(
    outcome: ApiOutcome,
    fine: u16,
    prefix: Seq<char>,
    r: Result<(), KubeletError>,
) -> bool {
    match outcome {
        ApiOutcome::Done => r is Ok,
        ApiOutcome::Refused { code, why } => if code == fine {
            r is Ok
        } else {
            r matches Err(KubeletError::Runtime(m)) && m@ == prefix + why@
        },
        ApiOutcome::Failed { why } => r matches Err(KubeletError::Runtime(m)) && m@ == prefix
            + why@,
    }
}

impl MirrorPodManager {
    pub fn new(node_name: &str, connected: bool) -> (r: Self)
        ensures
            r.node_name@ == node_name@,
            r.connected == connected,
    {
        MirrorPodManager { node_name: node_name.to_owned(), connected }
    }

    /// The mirror of a static pod; none where there is no cluster.
    pub fn create_mirror_pod(
        &self,
        static_pod_uid: &str,
        name: &str,
        namespace: &str,
        spec_json: JsonValue,
    ) -> (r: Option<JsonValue>)
        ensures
            match r {
                Some(v) => self.connected && mirror_pod_json(
                    v,
                    static_pod_uid@,
                    name@,
                    namespace@,
                    spec_json,
                ),
                None => !self.connected,
            },
    {
        if !self.connected {
            return None;
        }
        proof {
            reveal_strlit("apiVersion");
            reveal_strlit("kind");
            reveal_strlit("metadata");
            reveal_strlit("spec");
            assert("apiVersion"@.len() == 10 && "kind"@.len() == 4 && "metadata"@.len() == 8
                && "spec"@.len() == 4);
            assert("kind"@[0] != "spec"@[0]);
        }
        let mut m: StrMap<JsonValue> = StrMap::new();
        m.insert("apiVersion".to_owned(), string_value("v1"));
        m.insert("kind".to_owned(), string_value("Pod"));
        m.insert("metadata".to_owned(), mirror_metadata(static_pod_uid, name, namespace));
        m.insert("spec".to_owned(), spec_json);
        assert(m@.dom() =~= set!["apiVersion"@, "kind"@, "metadata"@, "spec"@]);
        Some(JsonValue::Object(m))
    }

    /// What the creation of a mirror pod yields; one that is there already is
    /// fine.
    pub fn mirror_pod_created(&self, outcome: &ApiOutcome) -> (r: Result<(), KubeletError>)
        ensures
            mirror_result(*outcome, 409, "create mirror pod: "@, r),
    {
        match outcome {
            ApiOutcome::Done => Ok(()),
            ApiOutcome::Refused { code, why } => if *code == 409 {
                Ok(())
            } else {
                Err(KubeletError::Runtime(cat2("create mirror pod: ", why.as_str())))
            },
            ApiOutcome::Failed { why } => Err(
                KubeletError::Runtime(cat2("create mirror pod: ", why.as_str())),
            ),
        }
    }

    /// What the deletion of a mirror pod yields; one that is gone already is
    /// fine.
    pub fn delete_mirror_pod(&self, outcome: &ApiOutcome) -> (r: Result<(), KubeletError>)
        ensures
            mirror_result(*outcome, 404, "delete mirror pod: "@, r),
    {
        match outcome {
            ApiOutcome::Done => Ok(()),
            ApiOutcome::Refused { code, why } => if *code == 404 {
                Ok(())
            } else {
                Err(KubeletError::Runtime(cat2("delete mirror pod: ", why.as_str())))
            },
            ApiOutcome::Failed { why } => Err(
                KubeletError::Runtime(cat2("delete mirror pod: ", why.as_str())),
            ),
        }
    }
}

/// An image that is there is used unless it is always to be pulled; one that is
/// not there is pulled unless it is never to be, or a failed pull is too recent.
pub proof fn law_policy_decides_on_pulls(
    backoffs: Map<Seq<char>, ImageBackoff>,
    image: Seq<char>,
    policy: ImagePullPolicy,
    local: Option<String>,
    now: u64,
    r: PullStep,
)
    requires
        step_is(backoffs, image, policy, local, now, r),
    ensures
        policy is IfNotPresent && local is Some ==> r is Present && r->Present_0@ == local->0@,
        policy is Never && local is Some ==> r is Present && r->Present_0@ == local->0@,
        policy is Never && local is None ==> r is Refused,
        policy is Always ==> !(r is Present),
        policy is Always && !backoffs.contains_key(image) ==> r is Pull,
        policy is IfNotPresent && local is None && !backoffs.contains_key(image) ==> r is Pull,
        r is Pull && backoffs.contains_key(image) ==> now >= backoffs[image].next_retry,
        r is Refused && !(policy is Never) ==> backoffs.contains_key(image) && now
            < backoffs[image].next_retry,
{
}

/// The first wait is ten seconds, and no wait is longer than three hundred.
pub proof fn law_waits_are_within_bounds(n: nat)
    ensures
        backoff_after(0) == 10_000_000_000,
        10_000_000_000 <= backoff_after(n) <= 300_000_000_000,
    decreases n,
{
    if n > 0 {
        law_waits_are_within_bounds((n - 1) as nat);
    }
}

/// As many terminated pods stay as are to be kept, and the others go.
pub proof fn law_rest_of_the_pods_goes(
    pods: Seq<(String, Timestamp)>,
    keep: nat,
    order: Seq<usize>,
    out: Seq<String>,
)
    requires
        collected(pods, keep, order, out),
    ensures
        pods.len() <= keep ==> out.len() == 0,
        pods.len() > keep ==> out.len() + keep == pods.len(),
{
}

/// The mirror of a pod has the pod's name and namespace and tells by its
/// annotations where it comes from.
pub proof fn law_mirror_names_its_pod(
    v: JsonValue,
    uid: Seq<char>,
    name: Seq<char>,
    namespace: Seq<char>,
    spec_json: JsonValue,
)
    requires
        mirror_pod_json(v, uid, name, namespace, spec_json),
    ensures
        is_text(field(v, "kind"@), "Pod"@),
        field(v, "spec"@) == Some(spec_json),
        field(v, "metadata"@) matches Some(m) && {
            &&& is_text(field(m, "name"@), name)
            &&& is_text(field(m, "namespace"@), namespace)
            &&& field(m, "annotations"@) matches Some(a) && {
                &&& is_text(field(a, "kubernetes.io/config.source"@), "file"@)
                &&& is_text(field(a, "kubernetes.io/config.hash"@), uid)
                &&& is_text(
                    field(a, "kubernetes.io/config.mirror"@),
                    uid + "/"@ + name + "."@ + namespace,
                )
            }
        },
{
}

/// What a request comes to: done is fine, the one refusal that says that
/// nothing is left to do is fine, and all else is an error.
pub proof fn law_one_refusal_is_fine(
    outcome: ApiOutcome,
    fine: u16,
    prefix: Seq<char>,
    r: Result<(), KubeletError>,
)
    requires
        mirror_result(outcome, fine, prefix, r),
    ensures
        r is Ok <==> outcome is Done || (outcome is Refused && outcome->code == fine),
        r is Err ==> r->Err_0 is Runtime,
{
}

/// A pull that fails is recorded for its image alone: the next is put off by
/// the wait so far, and the wait doubles up to its limit.
pub proof fn law_failures_put_the_next_pull_off(
    before: Map<Seq<char>, ImageBackoff>,
    image: Seq<char>,
    now: u64,
    after: Map<Seq<char>, ImageBackoff>,
    other: Seq<char>,
)
    requires
        pull_recorded(before, image, false, now, after),
    ensures
        other != image ==> after.contains_key(other) == before.contains_key(other),
        other != image && before.contains_key(other) ==> after[other] == before[other],
        before.contains_key(image) ==> {
            let wait = before[image].current_backoff;
            &&& after[image].failure_count == before[image].failure_count + 1
            &&& after[image].next_retry == now + wait
            &&& 2 * wait <= 300_000_000_000 ==> after[image].current_backoff == 2 * wait
            &&& 2 * wait > 300_000_000_000 ==> after[image].current_backoff == 300_000_000_000
        },
        !before.contains_key(image) ==> after[image].failure_count == 1 && after[image].next_retry
            == now + 10_000_000_000 && after[image].current_backoff == 20_000_000_000,
{
}

/// A pull that comes too early is refused with the image, the time that is left
/// and the failures so far.
pub proof fn law_early_pulls_are_told(
    backoffs: Map<Seq<char>, ImageBackoff>,
    image: Seq<char>,
    now: u64,
    seconds: u64,
    r: PullStep,
)
    requires
        step_is(backoffs, image, ImagePullPolicy::Always, None, now, r),
        backoffs.contains_key(image),
        backoffs[image].next_retry == now + seconds * 1_000_000_000,
        seconds > 0,
    ensures
        r is Refused && r->Refused_0 is Runtime,
        r->Refused_0->Runtime_0@ == "image '"@ + image + "' is in pull backoff (retry in "@
            + debug_duration_text(seconds, 0) + ", failures: "@ + dec(
            backoffs[image].failure_count as nat,
        ) + ")"@,
{
    let left = backoffs[image].next_retry - now;
    assert(left / 1_000_000_000 == seconds && left % 1_000_000_000 == 0);
}

/// A reply other than the one that is fine is an error with what went wrong.
pub proof fn law_other_refusals_are_told(
    outcome: ApiOutcome,
    fine: u16,
    prefix: Seq<char>,
    r: Result<(), KubeletError>,
)
    requires
        mirror_result(outcome, fine, prefix, r),
    ensures
        outcome matches ApiOutcome::Failed { why } ==> {
            &&& r is Err
            &&& r->Err_0 is Runtime
            &&& r->Err_0->Runtime_0@ == prefix + why@
        },
        outcome matches ApiOutcome::Refused { code, why } ==> (code != fine ==> {
            &&& r is Err
            &&& r->Err_0 is Runtime
            &&& r->Err_0->Runtime_0@ == prefix + why@
        }),
        outcome is Done ==> r is Ok,
{
}

/// The mirror of a pod holds the members of a pod, and no others.
pub proof fn law_mirror_members_are_exact(
    v: JsonValue,
    uid: Seq<char>,
    name: Seq<char>,
    namespace: Seq<char>,
    spec_json: JsonValue,
)
    requires
        mirror_pod_json(v, uid, name, namespace, spec_json),
    ensures
        members_are(v, set!["apiVersion"@, "kind"@, "metadata"@, "spec"@]),
        field(v, "metadata"@) is Some && members_are(
            field(v, "metadata"@)->0,
            set!["name"@, "namespace"@, "annotations"@, "ownerReferences"@],
        ),
        is_text(field(v, "apiVersion"@), "v1"@),
        is_text(field(v, "kind"@), "Pod"@),
        field(v, "spec"@) == Some(spec_json),
{
}

/// What is removed are the pods at the head of the order, each by its name.
pub proof fn law_removed_pods_are_named(
    pods: Seq<(String, Timestamp)>,
    keep: nat,
    order: Seq<usize>,
    out: Seq<String>,
    i: int,
)
    requires
        collected(pods, keep, order, out),
        0 <= i < out.len(),
    ensures
        out[i] == pods[order[i] as int].0,
        out.len() + keep == pods.len(),
{
}

/// An image that may not be pulled and is not there is refused by its name.
pub proof fn law_missing_images_are_named(
    backoffs: Map<Seq<char>, ImageBackoff>,
    image: Seq<char>,
    now: u64,
    r: PullStep,
)
    requires
        step_is(backoffs, image, ImagePullPolicy::Never, None, now, r),
    ensures
        r is Refused && r->Refused_0 is Runtime,
        r->Refused_0->Runtime_0@ == "image '"@ + image
            + "' not found locally and pull policy is Never"@,
{
}

} // verus!
