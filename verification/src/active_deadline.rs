//! Pods that may run for a limited time only.
use crate::strmap::{distinct_keys, lemma_map_of_dom, lemma_map_of_value, StrMap};
use crate::types::{PodUID, Timestamp};
use vstd::prelude::*;

verus! {

/// The longest time that a deadline can be away from the start, in seconds.
pub const MAX_DEADLINE_SECONDS: u64 = 9_223_372_036_854_775;

/// When a pod started, and how many seconds it may run.
#[derive(Debug, Clone, Copy, PartialEq, Eq, Structural)]
pub struct TrackedDeadline {
    pub start_time: Timestamp,
    pub deadline_seconds: u64,
}

impl TrackedDeadline {
    /// The deadline in nanoseconds since the epoch.
    pub open spec fn at(self) -> int {
        self.start_time.ns() + self.deadline_seconds * 1_000_000_000
    }

    /// How many nanoseconds are left at the time `now`; none once the deadline
    /// has passed.
    pub open spec fn left(self, now: int) -> int {
        if now > self.at() {
            0
        } else {
            self.at() - now
        }
    }

    fn deadline_ns(&self) -> (r: i128)
        requires
            self.deadline_seconds <= MAX_DEADLINE_SECONDS,
        ensures
            r == self.at(),
    {
        self.start_time.as_nanos() + self.deadline_seconds as i128 * 1_000_000_000
    }
}

/// Keeps the deadlines of pods.
#[derive(Debug)]
pub struct ActiveDeadlineController {
    pub tracking: StrMap<TrackedDeadline>,
}

/// The pods of `pairs` whose deadline lies before `now`, in order.
pub open spec fn expired(pairs: Seq<(Seq<char>, TrackedDeadline)>, now: int) -> Seq<Seq<char>>
    decreases pairs.len(),
{
    if pairs.len() == 0 {
        Seq::empty()
    } else {
        let front = expired(pairs.drop_last(), now);
        if now > pairs.last().1.at() {
            front.push(pairs.last().0)
        } else {
            front
        }
    }
}

pub open spec fn uid_texts(v: Seq<PodUID>) -> Seq<Seq<char>> {
    v.map_values(|u: PodUID| u.0@)
}

impl Default for ActiveDeadlineController {
    fn default() -> (r: Self)
        ensures
            r.wf(),
            r.tracking@ == Map::<Seq<char>, TrackedDeadline>::empty(),
    {
        ActiveDeadlineController::new()
    }
}

impl ActiveDeadlineController {
    /// All deadlines can be computed with.
    pub open spec fn wf(self) -> bool {
        forall|k: Seq<char>| #[trigger]
            self.tracking@.contains_key(k) ==> self.tracking@[k].deadline_seconds
                <= MAX_DEADLINE_SECONDS
    }

    pub fn new() -> (r: Self)
        ensures
            r.wf(),
            r.tracking@ == Map::<Seq<char>, TrackedDeadline>::empty(),
    {
        ActiveDeadlineController { tracking: StrMap::new() }
    }

    /// Keeps the deadline of a pod.
    pub fn register(&mut self, uid: PodUID, start_time: Timestamp, deadline_seconds: u64)
        requires
            old(self).wf(),
            deadline_seconds <= MAX_DEADLINE_SECONDS,
        ensures
            final(self).wf(),
            final(self).tracking@ == old(self).tracking@.insert(
                uid.0@,
                TrackedDeadline { start_time, deadline_seconds },
            ),
    {
        self.tracking.insert(uid.0, TrackedDeadline { start_time, deadline_seconds });
    }

    /// Forgets the deadline of a pod.
    pub fn deregister(&mut self, uid: &PodUID)
        requires
            old(self).wf(),
        ensures
            final(self).wf(),
            final(self).tracking@ == old(self).tracking@.remove(uid.0@),
    {
        let _ = self.tracking.remove(uid.0.as_str());
    }

    /// The pods whose deadline has passed.
    pub fn expired_pods(&self, now: Timestamp) -> (r: Vec<PodUID>)
        requires
            self.wf(),
        ensures
            uid_texts(r@) == expired(self.tracking.pairs(), now.ns()),
            forall|k: Seq<char>| #[trigger]
                uid_texts(r@).contains(k) <==> self.tracking@.contains_key(k) && now.ns()
                    > self.tracking@[k].at(),
    {
        let n: usize = self.tracking.len();
        let ghost pairs = self.tracking.pairs();
        let now_ns: i128 = now.as_nanos();
        let mut out: Vec<PodUID> = Vec::new();
        let mut i: usize = 0;
        assert(uid_texts(out@) =~= expired(pairs.take(0), now.ns()));
        while i < n
            invariant
                i <= n == pairs.len(),
                self.wf(),
                pairs == self.tracking.pairs(),
                distinct_keys(pairs),
                now_ns == now.ns(),
                uid_texts(out@) == expired(pairs.take(i as int), now.ns()),
            decreases n - i,
        {
            let ghost before = out@;
            proof {
                assert(pairs.take(i + 1).drop_last() =~= pairs.take(i as int));
                lemma_map_of_value(pairs, i as int);
                assert(self.tracking@.contains_key(pairs[i as int].0));
            }
            let t = self.tracking.value_at(i);
            if now_ns > t.deadline_ns() {
                let uid = PodUID(self.tracking.key_at(i).clone());
                out.push(uid);
                assert(uid_texts(out@) =~= uid_texts(before).push(uid.0@));
            }
            i = i + 1;
        }
        proof {
            assert(pairs.take(i as int) =~= pairs);
            assert forall|k: Seq<char>| #[trigger] uid_texts(out@).contains(k) <==> (
            self.tracking@.contains_key(k) && now.ns() > self.tracking@[k].at()) by {
                lemma_expired_contains(pairs, now.ns(), k);
                lemma_map_of_dom(pairs, k);
                if self.tracking@.contains_key(k) {
                    let j = choose|j: int| 0 <= j < pairs.len() && (#[trigger] pairs[j]).0 == k;
                    lemma_map_of_value(pairs, j);
                }
                if exists|j: int|
                    0 <= j < pairs.len() && (#[trigger] pairs[j]).0 == k && now.ns()
                        > pairs[j].1.at() {
                    let j = choose|j: int|
                        0 <= j < pairs.len() && (#[trigger] pairs[j]).0 == k && now.ns()
                            > pairs[j].1.at();
                    lemma_map_of_value(pairs, j);
                }
            }
        }
        out
    }

    /// How many nanoseconds a pod may still run; nothing for a pod without
    /// deadline, and zero once its deadline has passed.
    pub fn time_remaining(&self, uid: &PodUID, now: Timestamp) -> (r: Option<i128>)
        requires
            self.wf(),
        ensures
            match r {
                Some(ns) => self.tracking@.contains_key(uid.0@) && ns == self.tracking@[uid.0@].left(
                    now.ns(),
                ),
                None => !self.tracking@.contains_key(uid.0@),
            },
    {
        match self.tracking.get(uid.0.as_str()) {
            Some(t) => {
                let left: i128 = t.deadline_ns() - now.as_nanos();
                Some(
                    if left < 0 {
                        0
                    } else {
                        left
                    },
                )
            },
            None => None,
        }
    }

    /// How many pods have a deadline.
    pub fn tracked_count(&self) -> (r: usize)
        ensures
            r == self.tracking@.len(),
    {
        self.tracking.len()
    }
}

proof fn lemma_expired_contains(
    pairs: Seq<(Seq<char>, TrackedDeadline)>,
    now: int,
    k: Seq<char>,
)
    ensures
        expired(pairs, now).contains(k) <==> exists|j: int|
            0 <= j < pairs.len() && (#[trigger] pairs[j]).0 == k && now > pairs[j].1.at(),
    decreases pairs.len(),
{
    if pairs.len() > 0 {
        let front = pairs.drop_last();
        let e = expired(front, now);
        lemma_expired_contains(front, now, k);
        let all = expired(pairs, now);
        if all.contains(k) {
            let i = choose|i: int| 0 <= i < all.len() && all[i] == k;
            if i < e.len() {
                assert(e[i] == k);
                assert(e.contains(k));
                let j = choose|j: int|
                    0 <= j < front.len() && (#[trigger] front[j]).0 == k && now > front[j].1.at();
                assert(pairs[j].0 == k);
            } else {
                assert(pairs[pairs.len() - 1].0 == k);
            }
        }
        if exists|j: int|
            0 <= j < pairs.len() && (#[trigger] pairs[j]).0 == k && now > pairs[j].1.at() {
            let j = choose|j: int|
                0 <= j < pairs.len() && (#[trigger] pairs[j]).0 == k && now > pairs[j].1.at();
            if j < front.len() {
                assert(front[j].0 == k);
                assert(e.contains(k));
                let i = choose|i: int| 0 <= i < e.len() && e[i] == k;
                assert(all[i] == k);
            } else {
                assert(all[all.len() - 1] == k);
            }
        }
    }
}

/// A pod whose deadline has passed stays among the expired ones until it is
/// forgotten.
pub proof fn law_expired_pods_stay_expired(
    pairs: Seq<(Seq<char>, TrackedDeadline)>,
    a: int,
    b: int,
    k: Seq<char>,
)
    requires
        a <= b,
        expired(pairs, a).contains(k),
    ensures
        expired(pairs, b).contains(k),
{
    lemma_expired_contains(pairs, a, k);
    lemma_expired_contains(pairs, b, k);
    let j = choose|j: int| 0 <= j < pairs.len() && (#[trigger] pairs[j]).0 == k && a > pairs[j].1.at();
    assert(b > pairs[j].1.at());
}

/// A tracked pod that has time left is not among the expired ones, and one that
/// is has none left.
pub proof fn law_expired_pods_have_no_time_left(
    pairs: Seq<(Seq<char>, TrackedDeadline)>,
    now: int,
    i: int,
)
    requires
        distinct_keys(pairs),
        0 <= i < pairs.len(),
    ensures
        pairs[i].1.left(now) > 0 ==> !expired(pairs, now).contains(pairs[i].0),
        expired(pairs, now).contains(pairs[i].0) ==> pairs[i].1.left(now) == 0,
{
    lemma_expired_contains(pairs, now, pairs[i].0);
    if expired(pairs, now).contains(pairs[i].0) {
        let j = choose|j: int|
            0 <= j < pairs.len() && (#[trigger] pairs[j]).0 == pairs[i].0 && now > pairs[j].1.at();
        assert(j == i);
    }
}

/// A deadline is counted in seconds from the start: a pod is past it as soon as
/// more than that has gone by, and until then what is left and what has gone by
/// make up the whole.
pub proof fn law_deadlines_are_in_seconds(
    pairs: Seq<(Seq<char>, TrackedDeadline)>,
    now: Timestamp,
    i: int,
)
    requires
        distinct_keys(pairs),
        0 <= i < pairs.len(),
    ensures
        expired(pairs, now.ns()).contains(pairs[i].0) <==> now.secs * 1_000_000_000 + now.nanos > (
        pairs[i].1.start_time.secs + pairs[i].1.deadline_seconds) * 1_000_000_000
            + pairs[i].1.start_time.nanos,
        pairs[i].1.left(now.ns()) >= 0,
        pairs[i].1.left(now.ns()) > 0 ==> (now.ns() - pairs[i].1.start_time.ns())
            + pairs[i].1.left(now.ns()) == pairs[i].1.deadline_seconds * 1_000_000_000,
    decreases pairs.len(),
{
    let front = pairs.drop_last();
    let all = expired(pairs, now.ns());
    assert forall|a: int, b: int| 0 <= a < b < front.len() implies (#[trigger] front[a]).0 != (
    #[trigger] front[b]).0 by {
        assert(pairs[a].0 != pairs[b].0);
    }
    let f = expired(front, now.ns());
    if i < front.len() {
        assert(front[i] == pairs[i]);
        law_deadlines_are_in_seconds(front, now, i);
        assert(pairs[i].0 != pairs[pairs.len() - 1].0);
        if f.contains(pairs[i].0) {
            let j = choose|j: int| 0 <= j < f.len() && f[j] == pairs[i].0;
            assert(all[j] == pairs[i].0);
        }
        if all.contains(pairs[i].0) {
            let j = choose|j: int| 0 <= j < all.len() && all[j] == pairs[i].0;
            assert(f[j] == pairs[i].0);
        }
    } else {
        lemma_expired_are_among(front, now.ns(), pairs[i].0);
        if now.ns() > pairs[i].1.at() {
            assert(all[f.len() as int] == pairs[i].0);
        } else if f.contains(pairs[i].0) {
            let j = choose|j: int| 0 <= j < front.len() && (#[trigger] front[j]).0 == pairs[i].0;
            assert(pairs[j].0 != pairs[i].0);
        }
    }
}

proof fn lemma_expired_are_among(
    pairs: Seq<(Seq<char>, TrackedDeadline)>,
    now: int,
    k: Seq<char>,
)
    ensures
        expired(pairs, now).contains(k) ==> exists|j: int|
            0 <= j < pairs.len() && (#[trigger] pairs[j]).0 == k,
    decreases pairs.len(),
{
    if pairs.len() > 0 {
        let front = pairs.drop_last();
        let f = expired(front, now);
        lemma_expired_are_among(front, now, k);
        if expired(pairs, now).contains(k) {
            let all = expired(pairs, now);
            let j = choose|j: int| 0 <= j < all.len() && all[j] == k;
            if j < f.len() {
                assert(f[j] == k);
                let i = choose|i: int| 0 <= i < front.len() && (#[trigger] front[i]).0 == k;
                assert(pairs[i].0 == k);
            } else {
                assert(pairs[pairs.len() - 1].0 == k);
            }
        }
    }
}

} // verus!
