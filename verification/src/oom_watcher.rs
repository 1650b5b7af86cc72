//! Processes that the kernel kills for want of memory.
use crate::text::{
    cat3, chars_of, contains, contains_text, dec, dec_int, decimal, decimal_signed, find_from,
    first_index, integer_of, lemma_first_index_is, occurs_at, parse_i64, same, string_of, trim,
    trimmed,
};
use crate::types::{PodUID, QosClass, Timestamp};
use vstd::prelude::*;

verus! {

/// The kill of a process.
#[derive(Debug)]
pub struct OomEvent {
    pub timestamp: Timestamp,
    pub container_id: Option<String>,
    pub pod_uid: Option<PodUID>,
    pub process_name: String,
    pub message: String,
}

/// Says how likely the processes of pods are to be killed.
#[derive(Debug, Clone, Copy)]
pub struct OomScoreManager;

/// What became of the write of a score.
#[derive(Debug)]
pub enum WriteOutcome {
    Done,
    PermissionDenied,
    Failed(String),
}

/// The score of a burstable pod: the more of the node's memory it asked for,
/// the lower, from 999 down to 2.
pub open spec fn burstable_score(req: u64, cap: u64) -> int {
    if req == 0 || cap == 0 {
        999
    } else {
        let r = if req > cap {
            cap as int
        } else {
            req as int
        };
        let score = (2 * (1000 * cap - 998 * r) + cap) / (2 * cap);
        if score < 2 {
            2
        } else if score > 999 {
            999
        } else {
            score
        }
    }
}

pub open spec fn or_zero(v: Option<u64>) -> u64 {
    match v {
        Some(n) => n,
        None => 0,
    }
}

/// The score of the processes of a pod.
pub open spec fn score_of(qos: QosClass, req: Option<u64>, cap: Option<u64>) -> int {
    match qos {
        QosClass::Guaranteed => -997,
        QosClass::BestEffort => 1000,
        QosClass::Burstable => burstable_score(or_zero(req), or_zero(cap)),
    }
}

impl Default for OomScoreManager {
    fn default() -> (r: Self)
        ensures
            r == OomScoreManager,
    {
        OomScoreManager::new()
    }
}

impl OomScoreManager {
    pub fn new() -> (r: Self)
        ensures
            r == OomScoreManager,
    {
        OomScoreManager
    }

    /// The score of the processes of a pod: low where they should be killed
    /// last.
    pub fn score_for_qos(
        &self,
        qos: &QosClass,
        requested_memory_bytes: Option<u64>,
        node_memory_capacity_bytes: Option<u64>,
    ) -> (r: i32)
        ensures
            r == score_of(*qos, requested_memory_bytes, node_memory_capacity_bytes),
    {
        match qos {
            QosClass::Guaranteed => -997,
            QosClass::BestEffort => 1000,
            QosClass::Burstable => {
                let req: u64 = match requested_memory_bytes {
                    Some(n) => n,
                    None => 0,
                };
                let cap: u64 = match node_memory_capacity_bytes {
                    Some(n) => n,
                    None => 0,
                };
                if req == 0 || cap == 0 {
                    return 999;
                }
                let r: u128 = if req > cap {
                    cap as u128
                } else {
                    req as u128
                };
                let c: u128 = cap as u128;
                let num: u128 = 2 * (1000 * c - 998 * r) + c;
                let score: u128 = num / (2 * c);
                if score < 2 {
                    2
                } else if score > 999 {
                    999
                } else {
                    score as i32
                }
            },
        }
    }

    /// The file of the score of a process.
    pub fn score_path(pid: u32) -> (r: String)
        ensures
            r@ == "/proc/"@ + dec(pid as nat) + "/oom_score_adj"@,
    {
        let n = decimal(pid as u64);
        cat3("/proc/", n.as_str(), "/oom_score_adj")
    }

    /// A score as it is written.
    pub fn score_text(oom_score_adj: i32) -> (r: String)
        ensures
            r@ == dec_int(oom_score_adj as int),
    {
        decimal_signed(oom_score_adj as i64)
    }

    /// Whether a score was applied; want of permission is no error.
    pub fn apply_to_pid(&self, outcome: WriteOutcome) -> (r: Result<bool, String>)
        ensures
            r == match outcome {
                WriteOutcome::Done => Ok::<bool, String>(true),
                WriteOutcome::PermissionDenied => Ok::<bool, String>(false),
                WriteOutcome::Failed(e) => Err::<bool, String>(e),
            },
    {
        match outcome {
            WriteOutcome::Done => Ok(true),
            WriteOutcome::PermissionDenied => Ok(false),
            WriteOutcome::Failed(e) => Err(e),
        }
    }
}

/// Every score of a burstable pod lies between those of the other classes, and
/// asking for more memory never raises it.
pub proof fn law_burstable_scores(a: u64, b: u64, cap: u64)
    requires
        a <= b,
        a > 0,
    ensures
        2 <= burstable_score(a, cap) <= 999,
        burstable_score(b, cap) <= burstable_score(a, cap),
{
    if cap > 0 {
        let x = if a > cap {
            cap as int
        } else {
            a as int
        };
        let y = if b > cap {
            cap as int
        } else {
            b as int
        };
        let p = 2 * (1000 * cap - 998 * x) + cap;
        let q = 2 * (1000 * cap - 998 * y) + cap;
        let d = 2 * cap;
        assert(q / d <= p / d) by (nonlinear_arith)
            requires
                q <= p,
                d > 0,
        ;
    }
}

// ---------------------------------------------------------------------------
// Events
// ---------------------------------------------------------------------------

/// Keeps the last kills.
#[derive(Debug)]
pub struct OomWatcher {
    pub capacity: usize,
    /// The kills, the oldest first.
    pub events: Vec<OomEvent>,
}

/// The positions of the kills in a pod.
pub open spec fn of_pod(events: Seq<OomEvent>, uid: Seq<char>) -> Seq<int>
    decreases events.len(),
{
    if events.len() == 0 {
        Seq::empty()
    } else {
        let front = of_pod(events.drop_last(), uid);
        match events.last().pod_uid {
            Some(u) => if u.0@ == uid {
                front.push(events.len() - 1)
            } else {
                front
            },
            None => front,
        }
    }
}

/// Whether a kernel message tells of a kill.
pub open spec fn tells_of_kill(line: Seq<char>) -> bool {
    contains_text(line, "Out of memory"@) || contains_text(line, "oom-kill"@)
}

/// The process that a kernel message names: what stands between the first
/// opening bracket and the closing one that follows it.
pub open spec fn process_of(line: Seq<char>) -> Seq<char> {
    let a = first_index(line, '(') as int;
    let rest = line.skip(a + 1);
    let b = first_index(rest, ')') as int;
    if a < line.len() && b < rest.len() {
        rest.take(b)
    } else {
        "unknown"@
    }
}

impl OomWatcher {
    pub fn new(capacity: usize) -> (r: Self)
        ensures
            r.capacity == capacity,
            r.events@.len() == 0,
    {
        OomWatcher { capacity, events: Vec::new() }
    }

    /// Keeps a kill; the oldest one makes room for it where the capacity is
    /// reached.
    pub fn record(&mut self, event: OomEvent)
        ensures
            final(self).capacity == old(self).capacity,
            final(self).events@ == (if old(self).events@.len() >= old(self).capacity && old(
                self).events@.len() > 0 {
                old(self).events@.skip(1)
            } else {
                old(self).events@
            }).push(event),
    {
        let ghost before = self.events@;
        if self.events.len() >= self.capacity && self.events.len() > 0 {
            let _ = self.events.remove(0);
            assert(self.events@ =~= before.skip(1));
        }
        self.events.push(event);
    }

    /// The kills, the newest first.
    pub fn recent(&self) -> (r: Vec<&OomEvent>)
        ensures
            r@.len() == self.events@.len(),
            forall|i: int|
                0 <= i < r@.len() ==> *(#[trigger] r@[i]) == self.events@[self.events@.len() - 1
                    - i],
    {
        let mut out: Vec<&OomEvent> = Vec::new();
        let mut i: usize = self.events.len();
        while i > 0
            invariant
                i <= self.events@.len(),
                out@.len() == self.events@.len() - i,
                forall|k: int|
                    0 <= k < out@.len() ==> *(#[trigger] out@[k]) == self.events@[self.events@.len()
                        - 1 - k],
            decreases i,
        {
            i = i - 1;
            out.push(&self.events[i]);
        }
        out
    }

    pub fn event_count(&self) -> (r: usize)
        ensures
            r == self.events@.len(),
    {
        self.events.len()
    }

    /// The kills in a pod, the oldest first.
    pub fn events_for_pod(&self, uid: &PodUID) -> (r: Vec<&OomEvent>)
        ensures
            r@.len() == of_pod(self.events@, uid.0@).len(),
            forall|i: int|
                0 <= i < r@.len() ==> *(#[trigger] r@[i]) == self.events@[of_pod(
                    self.events@,
                    uid.0@,
                )[i]],
    {
        let mut out: Vec<&OomEvent> = Vec::new();
        let mut i: usize = 0;
        while i < self.events.len()
            invariant
                i <= self.events@.len(),
                out@.len() == of_pod(self.events@.take(i as int), uid.0@).len(),
                forall|k: int|
                    0 <= k < out@.len() ==> *(#[trigger] out@[k]) == self.events@[of_pod(
                        self.events@.take(i as int),
                        uid.0@,
                    )[k]],
            decreases self.events@.len() - i,
        {
            let ghost part = of_pod(self.events@.take(i as int), uid.0@);
            assert(self.events@.take(i + 1).drop_last() =~= self.events@.take(i as int));
            let e = &self.events[i];
            let wanted = match &e.pod_uid {
                Some(u) => same(u.0.as_str(), uid.0.as_str()),
                None => false,
            };
            if wanted {
                out.push(e);
                assert(of_pod(self.events@.take(i + 1), uid.0@) == part.push(i as int));
            }
            i = i + 1;
        }
        assert(self.events@.take(i as int) =~= self.events@);
        out
    }

    /// Reads a kernel message; nothing where it does not tell of a kill.
    pub fn parse_kmsg_line(line: &str, now: Timestamp) -> (r: Option<OomEvent>)
        ensures
            match r {
                Some(e) => tells_of_kill(line@) && e.timestamp == now && e.container_id is None
                    && e.pod_uid is None && e.process_name@ == process_of(line@) && e.message@
                    == line@,
                None => !tells_of_kill(line@),
            },
    {
        if !contains(line, "Out of memory") && !contains(line, "oom-kill") {
            return None;
        }
        let v = chars_of(line);
        assert(v@.skip(0) =~= v@);
        let a: usize = find_from(&v, 0, '(');
        let unknown = "unknown".to_owned();
        let process_name = if a < v.len() {
            let b: usize = find_from(&v, a + 1, ')');
            if b < v.len() {
                assert(v@.subrange(a + 1, b as int) =~= v@.skip(a + 1).take(b - a - 1));
                string_of(&v, a + 1, b)
            } else {
                unknown
            }
        } else {
            unknown
        };
        Some(
            OomEvent {
                timestamp: now,
                container_id: None,
                pod_uid: None,
                process_name,
                message: line.to_owned(),
            },
        )
    }

    /// Reads the text of the file of a score.
    pub fn read_oom_score_adj(content: &Option<String>) -> (r: Option<i32>)
        ensures
            match r {
                Some(n) => content matches Some(c) && integer_of(trimmed(c@)) == Some(n as int),
                None => match *content {
                    Some(c) => match integer_of(trimmed(c@)) {
                        Some(n) => n < i32::MIN || n > i32::MAX,
                        None => true,
                    },
                    None => true,
                },
            },
    {
        match content {
            Some(c) => match parse_i64(trim(c.as_str())) {
                Some(n) => if n >= i32::MIN as i64 && n <= i32::MAX as i64 {
                    Some(n as i32)
                } else {
                    None
                },
                None => None,
            },
            None => None,
        }
    }
}

/// No more kills are kept than the capacity allows, as long as it allows one;
/// and the last one is always kept.
pub proof fn law_last_kill_is_kept(before: OomWatcher, event: OomEvent, after: Seq<OomEvent>)
    requires
        before.capacity > 0,
        before.events@.len() <= before.capacity,
        after == (if before.events@.len() >= before.capacity && before.events@.len() > 0 {
            before.events@.skip(1)
        } else {
            before.events@
        }).push(event),
    ensures
        after.len() <= before.capacity,
        after.last() == event,
{
}

/// A pod is killed the sooner the lower its class: whatever it requests, a
/// guaranteed one scores below a burstable one and that below one that requests
/// nothing.
pub proof fn law_scores_follow_the_class(
    req: Option<u64>,
    cap: Option<u64>,
    other_req: Option<u64>,
    other_cap: Option<u64>,
)
    ensures
        score_of(QosClass::Guaranteed, req, cap) == -997,
        score_of(QosClass::BestEffort, req, cap) == 1000,
        score_of(QosClass::Guaranteed, req, cap) < score_of(
            QosClass::Burstable,
            other_req,
            other_cap,
        ) < score_of(QosClass::BestEffort, req, cap),
        2 <= score_of(QosClass::Burstable, req, cap) <= 999,
{
    if or_zero(req) > 0 {
        law_burstable_scores(or_zero(req), or_zero(req), or_zero(cap));
    }
    if or_zero(other_req) > 0 {
        law_burstable_scores(or_zero(other_req), or_zero(other_req), or_zero(other_cap));
    }
}

/// The score of a burstable pod falls in proportion to the part of the memory
/// that it requests, rounded to the nearest.
pub proof fn law_burstable_score_is_in_proportion(req: u64, cap: u64)
    requires
        0 < req <= cap,
        2 < burstable_score(req, cap) < 999,
    ensures
        2 * (1000 * cap - 998 * req) - cap < 2 * cap * burstable_score(req, cap) <= 2 * (1000 * cap
            - 998 * req) + cap,
{
    let x = 2 * (1000 * cap - 998 * req) + cap;
    let d = 2 * cap;
    vstd::arithmetic::div_mod::lemma_fundamental_div_mod(x, d);
    let q = x / d;
    assert(burstable_score(req, cap) == q);
    assert(0 <= x % d < d);
    assert(2 * cap * q == d * q);
}

/// The name of the process that was killed stands between the first brackets.
pub proof fn law_process_is_between_brackets(
    before: Seq<char>,
    name: Seq<char>,
    after: Seq<char>,
)
    requires
        !before.contains('('),
        !name.contains(')'),
    ensures
        process_of(before + seq!['('] + name + seq![')'] + after) == name,
{
    let line = before + seq!['('] + name + seq![')'] + after;
    let rest = name + seq![')'] + after;
    let a = before.len() as int;
    assert forall|i: int| 0 <= i < a implies line[i] != '(' by {
        assert(before.contains(before[i]));
        assert(line[i] == before[i]);
    }
    assert(line[a] == '(');
    lemma_first_index_is(line, '(', a);
    assert(line.skip(a + 1) =~= rest);
    let b = name.len() as int;
    assert forall|i: int| 0 <= i < b implies rest[i] != ')' by {
        assert(name.contains(name[i]));
        assert(rest[i] == name[i]);
    }
    assert(rest[b] == ')');
    lemma_first_index_is(rest, ')', b);
    assert(rest.take(b) =~= name);
}

/// A line tells of a kill wherever one of the two phrases for it occurs.
pub proof fn law_kills_are_told_by_their_phrases(before: Seq<char>, after: Seq<char>)
    ensures
        tells_of_kill(before + "Out of memory"@ + after),
        tells_of_kill(before + "oom-kill"@ + after),
{
    let a = before + "Out of memory"@ + after;
    let b = before + "oom-kill"@ + after;
    let n = before.len() as int;
    assert(a.subrange(n, n + "Out of memory"@.len()) =~= "Out of memory"@);
    assert(occurs_at(a, "Out of memory"@, n));
    assert(b.subrange(n, n + "oom-kill"@.len()) =~= "oom-kill"@);
    assert(occurs_at(b, "oom-kill"@, n));
}

/// The kills of a pod are just those that name it.
pub proof fn law_kills_of_a_pod_name_it(events: Seq<OomEvent>, uid: Seq<char>, i: int)
    ensures
        of_pod(events, uid).contains(i) <==> 0 <= i < events.len() && (
        events[i].pod_uid matches Some(u) && u.0@ == uid),
    decreases events.len(),
{
    if events.len() > 0 {
        let front = events.drop_last();
        let f = of_pod(front, uid);
        let all = of_pod(events, uid);
        let n = events.len() - 1;
        law_kills_of_a_pod_name_it(front, uid, i);
        if 0 <= i < n {
            assert(front[i] == events[i]);
        }
        if f.contains(i) {
            let j = choose|j: int| 0 <= j < f.len() && f[j] == i;
            assert(all[j] == i);
        }
        if events[n].pod_uid matches Some(u) && u.0@ == uid {
            assert(all[f.len() as int] == n);
        }
        if all.contains(i) && !f.contains(i) {
            let j = choose|j: int| 0 <= j < all.len() && all[j] == i;
            if j < f.len() {
                assert(f[j] == i);
            }
        }
    }
}

/// A line that names no process is of an unknown one, and what is not written
/// counts as nothing.
pub proof fn law_what_is_not_named_is_unknown(line: Seq<char>, cap: u64)
    requires
        !line.contains('('),
    ensures
        process_of(line) == "unknown"@,
        or_zero(None) == 0,
        burstable_score(0, cap) == 999,
        burstable_score(cap, 0) == 999,
{
    assert forall|i: int| 0 <= i < line.len() implies line[i] != '(' by {
        assert(line.contains(line[i]));
    }
    lemma_first_index_is(line, '(', line.len() as int);
}

} // verus!
