//! The limits of pods and containers in the control group hierarchy.
use crate::fileops::{ops, push_op, FileOp, Op};
use crate::paths::{join_path, path_join};
use crate::text::{
    cat3, dec, dec_int, decimal, decimal_signed, replace_char, trim, trimmed, with_replaced,
};
use crate::types::{PodUID, QosClass};
use vstd::prelude::*;

verus! {

/// The places of pods and containers below a root.
#[derive(Debug)]
pub struct CgroupPath {
    pub root: String,
}

/// The name of a class in the hierarchy.
pub open spec fn qos_name(qos: QosClass) -> Seq<char> {
    match qos {
        QosClass::Guaranteed => "guaranteed"@,
        QosClass::Burstable => "burstable"@,
        QosClass::BestEffort => "besteffort"@,
    }
}

fn qos_text(qos: &QosClass) -> (r: &'static str)
    ensures
        r@ == qos_name(*qos),
{
    match qos {
        QosClass::Guaranteed => "guaranteed",
        QosClass::Burstable => "burstable",
        QosClass::BestEffort => "besteffort",
    }
}

pub open spec fn kubepods_of(root: Seq<char>) -> Seq<char> {
    path_join(root, "kubepods.slice"@)
}

pub open spec fn qos_slice_of(root: Seq<char>, qos: QosClass) -> Seq<char> {
    path_join(kubepods_of(root), "kubepods-"@ + qos_name(qos) + ".slice"@)
}

/// The slice of a pod; hyphens separate levels there, so those of the pod's
/// identifier become underscores.
pub open spec fn pod_slice_of(root: Seq<char>, qos: QosClass, uid: Seq<char>) -> Seq<char> {
    path_join(
        qos_slice_of(root, qos),
        "kubepods-"@ + qos_name(qos) + "-pod"@ + with_replaced(uid, '-', '_') + ".slice"@,
    )
}

pub open spec fn container_scope_of(
    root: Seq<char>,
    qos: QosClass,
    uid: Seq<char>,
    container_id: Seq<char>,
) -> Seq<char> {
    path_join(pod_slice_of(root, qos, uid), "cri-containerd-"@ + container_id + ".scope"@)
}

impl CgroupPath {
    pub fn new(root: &str) -> (r: Self)
        ensures
            r.root@ == root@,
    {
        CgroupPath { root: root.to_owned() }
    }

    pub fn kubepods(&self) -> (r: String)
        ensures
            r@ == kubepods_of(self.root@),
    {
        join_path(self.root.as_str(), "kubepods.slice")
    }

    pub fn qos_slice(&self, qos: &QosClass) -> (r: String)
        ensures
            r@ == qos_slice_of(self.root@, *qos),
    {
        let name = cat3("kubepods-", qos_text(qos), ".slice");
        join_path(self.kubepods().as_str(), name.as_str())
    }

    pub fn pod_slice(&self, qos: &QosClass, uid: &PodUID) -> (r: String)
        ensures
            r@ == pod_slice_of(self.root@, *qos, uid.0@),
    {
        let safe_uid = replace_char(uid.0.as_str(), '-', '_');
        let name = crate::text::cat5(
            "kubepods-",
            qos_text(qos),
            "-pod",
            safe_uid.as_str(),
            ".slice",
        );
        join_path(self.qos_slice(qos).as_str(), name.as_str())
    }

    pub fn container_scope(&self, qos: &QosClass, uid: &PodUID, container_id: &str) -> (r: String)
        ensures
            r@ == container_scope_of(self.root@, *qos, uid.0@, container_id@),
    {
        let name = cat3("cri-containerd-", container_id, ".scope");
        join_path(self.pod_slice(qos, uid).as_str(), name.as_str())
    }
}

/// The limits of a control group; one that is missing is left as it is.
#[derive(Debug, Clone, Copy, PartialEq, Eq, Structural)]
pub struct CgroupResources {
    /// Microseconds of CPU time in each period; negative for no limit.
    pub cpu_quota_us: Option<i64>,
    pub cpu_period_us: Option<u64>,
    /// The share of CPU time in the older scale, where 1024 is normal.
    pub cpu_shares: Option<u64>,
    /// The memory limit; negative for no limit, as in the limits that follow.
    pub memory_limit_bytes: Option<i64>,
    /// The memory from which on the group is slowed down.
    pub memory_high_bytes: Option<i64>,
    /// The limit of the swap space.
    pub memory_swap_bytes: Option<i64>,
    pub pids_max: Option<i64>,
    pub oom_score_adj: Option<i32>,
}

/// Limits with a CPU share and an out-of-memory score alone.
pub open spec fn with_shares_and_score(shares: u64, score: i32) -> CgroupResources {
    CgroupResources {
        cpu_quota_us: None,
        cpu_period_us: None,
        cpu_shares: Some(shares),
        memory_limit_bytes: None,
        memory_high_bytes: None,
        memory_swap_bytes: None,
        pids_max: None,
        oom_score_adj: Some(score),
    }
}

impl Default for CgroupResources {
    fn default() -> (r: Self)
        ensures
            r == (CgroupResources {
                cpu_quota_us: None,
                cpu_period_us: None,
                cpu_shares: None,
                memory_limit_bytes: None,
                memory_high_bytes: None,
                memory_swap_bytes: None,
                pids_max: None,
                oom_score_adj: None,
            }),
    {
        CgroupResources {
            cpu_quota_us: None,
            cpu_period_us: None,
            cpu_shares: None,
            memory_limit_bytes: None,
            memory_high_bytes: None,
            memory_swap_bytes: None,
            pids_max: None,
            oom_score_adj: None,
        }
    }
}

impl CgroupResources {
    /// The usual limits of a class.
    pub fn for_qos(qos: &QosClass) -> (r: Self)
        ensures
            r == match *qos {
                QosClass::BestEffort => with_shares_and_score(2, 1000),
                QosClass::Burstable => with_shares_and_score(1024, 500),
                QosClass::Guaranteed => with_shares_and_score(1024, (-997) as i32),
            },
            *qos is BestEffort ==> r.cpu_shares == Some(2u64) && r.oom_score_adj == Some(1000i32),
            *qos is Burstable ==> r.cpu_shares == Some(1024u64) && r.oom_score_adj == Some(500i32),
            *qos is Guaranteed ==> r.cpu_shares == Some(1024u64) && r.oom_score_adj is Some
                && r.oom_score_adj->0 == -997,
            r.memory_limit_bytes is None && r.memory_high_bytes is None && r.memory_swap_bytes
                is None && r.pids_max is None && r.cpu_quota_us is None && r.cpu_period_us is None,
    {
        let mut r = CgroupResources::default();
        match qos {
            QosClass::BestEffort => {
                r.cpu_shares = Some(2);
                r.oom_score_adj = Some(1000);
            },
            QosClass::Burstable => {
                r.cpu_shares = Some(1024);
                r.oom_score_adj = Some(500);
            },
            QosClass::Guaranteed => {
                r.cpu_shares = Some(1024);
                r.oom_score_adj = Some(-997);
            },
        }
        r
    }
}

// ---------------------------------------------------------------------------
// CPU weights
// ---------------------------------------------------------------------------

/// The weight from 1 to 10000 of a share, where a share of 1024 weighs 100.
pub open spec fn weight_of(shares: u64) -> int {
    let w = shares * 100 / 1024;
    if w < 1 {
        1
    } else if w > 10000 {
        10000
    } else {
        w
    }
}

/// The share of a weight: at least 2.
pub open spec fn shares_of(weight: u64) -> int {
    let s = weight * 1024 / 100;
    if s < 2 {
        2
    } else if s > u64::MAX {
        u64::MAX as int
    } else {
        s
    }
}

/// The weight of a share.
pub fn shares_to_weight(shares: u64) -> (r: u64)
    ensures
        r == weight_of(shares),
{
    let w: u128 = shares as u128 * 100 / 1024;
    if w < 1 {
        1
    } else if w > 10000 {
        10000
    } else {
        w as u64
    }
}

/// The share of a weight.
pub fn weight_to_shares(weight: u64) -> (r: u64)
    ensures
        r == shares_of(weight),
{
    let s: u128 = weight as u128 * 1024 / 100;
    if s < 2 {
        2
    } else if s > u64::MAX as u128 {
        u64::MAX
    } else {
        s as u64
    }
}

/// A weight that becomes a share and a weight again loses at most one.
pub proof fn law_weight_round_trip(weight: u64)
    requires
        1 <= weight <= 10000,
    ensures
        weight - 1 <= weight_of(shares_of(weight) as u64) <= weight,
{
}

/// A larger share never weighs less.
pub proof fn law_weight_is_monotone(a: u64, b: u64)
    requires
        a <= b,
    ensures
        weight_of(a) <= weight_of(b),
        1 <= weight_of(a) <= 10000,
{
}

// ---------------------------------------------------------------------------
// The manager
// ---------------------------------------------------------------------------

/// Says which control files are written for pods and containers.
#[derive(Debug)]
pub struct CgroupManager {
    pub paths: CgroupPath,
    /// Whether nothing is to be changed.
    pub dry_run: bool,
}

/// A limit as it is written: a negative one is none.
pub open spec fn limit_text(limit: int) -> Seq<char> {
    if limit < 0 {
        "max"@
    } else {
        dec_int(limit)
    }
}

fn limit_value(limit: i64) -> (r: String)
    ensures
        r@ == limit_text(limit as int),
{
    if limit < 0 {
        "max".to_owned()
    } else {
        decimal_signed(limit)
    }
}

/// The CPU limit as it is written.
pub open spec fn cpu_max_text(quota: i64, period: u64) -> Seq<char> {
    limit_text(quota as int) + " "@ + dec(period as nat)
}

/// The memory limit of a pod: that of its containers with the overhead, as far
/// as 64 bits hold it.
pub open spec fn pod_memory_limit(container_bytes: i64, overhead_bytes: i64) -> int {
    let sum = container_bytes + overhead_bytes;
    if sum > i64::MAX {
        i64::MAX as int
    } else if sum < i64::MIN {
        i64::MIN as int
    } else {
        sum
    }
}

/// The writes of the limits that are there, in the order of the control files.
pub open spec fn resource_writes(path: Seq<char>, r: CgroupResources) -> Seq<Op> {
    opt_write(
        path,
        "cpu.max"@,
        match (r.cpu_quota_us, r.cpu_period_us) {
            (Some(q), Some(p)) => Some(cpu_max_text(q, p)),
            _ => None,
        },
    ) + opt_write(
        path,
        "cpu.weight"@,
        match r.cpu_shares {
            Some(s) => Some(dec_int(weight_of(s))),
            None => None,
        },
    ) + opt_write(path, "memory.max"@, opt_limit(r.memory_limit_bytes)) + opt_write(
        path,
        "memory.high"@,
        opt_limit(r.memory_high_bytes),
    ) + opt_write(path, "memory.swap.max"@, opt_limit(r.memory_swap_bytes)) + opt_write(
        path,
        "pids.max"@,
        opt_limit(r.pids_max),
    )
}

pub open spec fn opt_limit(v: Option<i64>) -> Option<Seq<char>> {
    match v {
        Some(n) => Some(limit_text(n as int)),
        None => None,
    }
}

/// The write of one control file, where there is a value for it.
pub open spec fn opt_write(path: Seq<char>, file: Seq<char>, value: Option<Seq<char>>) -> Seq<Op> {
    match value {
        Some(v) => seq![Op::Write(path_join(path, file), v)],
        None => Seq::empty(),
    }
}

fn write_control(v: &mut Vec<FileOp>, path: &str, file: &str, value: String)
    ensures
        ops(final(v)@) == ops(old(v)@) + opt_write(path@, file@, Some(value@)),
{
    let ghost before = ops(v@);
    push_op(v, FileOp::Write { path: join_path(path, file), content: value });
    assert(ops(v@) =~= before + opt_write(path@, file@, Some(value@)));
}

fn write_limit(v: &mut Vec<FileOp>, path: &str, file: &str, limit: Option<i64>)
    ensures
        ops(final(v)@) == ops(old(v)@) + opt_write(path@, file@, opt_limit(limit)),
{
    if let Some(n) = limit {
        write_control(v, path, file, limit_value(n));
    } else {
        assert(ops(v@) + Seq::<Op>::empty() =~= ops(v@));
    }
}

impl CgroupManager {
    pub fn new(cgroup_root: &str, dry_run: bool) -> (r: Self)
        ensures
            r.paths.root@ == cgroup_root@,
            r.dry_run == dry_run,
    {
        CgroupManager { paths: CgroupPath::new(cgroup_root), dry_run }
    }

    /// What creates the control group of a pod.
    pub fn create_pod_cgroup(&self, qos: &QosClass, uid: &PodUID) -> (r: Vec<FileOp>)
        ensures
            ops(r@) == if self.dry_run {
                Seq::<Op>::empty()
            } else {
                seq![Op::CreateDir(pod_slice_of(self.paths.root@, *qos, uid.0@))]
            },
    {
        let mut out: Vec<FileOp> = Vec::new();
        assert(ops(out@) =~= Seq::<Op>::empty());
        if !self.dry_run {
            push_op(&mut out, FileOp::CreateDir { path: self.paths.pod_slice(qos, uid) });
            assert(ops(out@) =~= seq![
                Op::CreateDir(pod_slice_of(self.paths.root@, *qos, uid.0@)),
            ]);
        }
        out
    }

    /// What creates the control group of a pod with a memory limit: what its
    /// containers ask for and the overhead of its runtime. A limit that is not
    /// positive is not written.
    pub fn create_pod_cgroup_with_memory_limit(
        &self,
        qos: &QosClass,
        uid: &PodUID,
        container_memory_bytes: i64,
        overhead_memory_bytes: i64,
    ) -> (r: Vec<FileOp>)
        ensures
            ({
                let path = pod_slice_of(self.paths.root@, *qos, uid.0@);
                let limit = pod_memory_limit(container_memory_bytes, overhead_memory_bytes);
                ops(r@) == if self.dry_run {
                    Seq::<Op>::empty()
                } else if limit > 0 {
                    seq![
                        Op::CreateDir(path),
                        Op::Write(path_join(path, "memory.max"@), dec_int(limit)),
                    ]
                } else {
                    seq![Op::CreateDir(path)]
                }
            }),
    {
        let mut out = self.create_pod_cgroup(qos, uid);
        if !self.dry_run {
            let sum: i128 = container_memory_bytes as i128 + overhead_memory_bytes as i128;
            let limit: i64 = if sum > i64::MAX as i128 {
                i64::MAX
            } else if sum < i64::MIN as i128 {
                i64::MIN
            } else {
                sum as i64
            };
            if limit > 0 {
                let path = self.paths.pod_slice(qos, uid);
                write_control(&mut out, path.as_str(), "memory.max", decimal_signed(limit));
                assert(ops(out@) =~= seq![
                    Op::CreateDir(path@),
                    Op::Write(path_join(path@, "memory.max"@), dec_int(limit as int)),
                ]);
            }
        }
        out
    }

    /// What removes the control group of a pod, where it is there.
    pub fn remove_pod_cgroup(&self, qos: &QosClass, uid: &PodUID, present: bool) -> (r: Vec<FileOp>)
        ensures
            ops(r@) == if !self.dry_run && present {
                seq![Op::RemoveDir(pod_slice_of(self.paths.root@, *qos, uid.0@))]
            } else {
                Seq::<Op>::empty()
            },
    {
        let mut out: Vec<FileOp> = Vec::new();
        assert(ops(out@) =~= Seq::<Op>::empty());
        if !self.dry_run && present {
            push_op(&mut out, FileOp::RemoveDir { path: self.paths.pod_slice(qos, uid) });
            assert(ops(out@) =~= seq![
                Op::RemoveDir(pod_slice_of(self.paths.root@, *qos, uid.0@)),
            ]);
        }
        out
    }

    /// What applies limits to the control group of a container.
    pub fn apply_resources(
        &self,
        qos: &QosClass,
        uid: &PodUID,
        container_id: &str,
        resources: &CgroupResources,
    ) -> (r: Vec<FileOp>)
        ensures
            ({
                let path = container_scope_of(self.paths.root@, *qos, uid.0@, container_id@);
                ops(r@) == if self.dry_run {
                    Seq::<Op>::empty()
                } else {
                    seq![Op::CreateDir(path)] + resource_writes(path, *resources)
                }
            }),
    {
        let mut out: Vec<FileOp> = Vec::new();
        assert(ops(out@) =~= Seq::<Op>::empty());
        if self.dry_run {
            return out;
        }
        let cgroup_path = self.paths.container_scope(qos, uid, container_id);
        let path = cgroup_path.as_str();
        push_op(&mut out, FileOp::CreateDir { path: cgroup_path.clone() });
        let ghost done = seq![Op::CreateDir(path@)];
        assert(ops(out@) =~= done);
        if let Some(quota) = resources.cpu_quota_us {
            if let Some(period) = resources.cpu_period_us {
                let q = limit_value(quota);
                let p = decimal(period);
                let value = cat3(q.as_str(), " ", p.as_str());
                write_control(&mut out, path, "cpu.max", value);
            }
        }
        let ghost cpu_max = opt_write(
            path@,
            "cpu.max"@,
            match (resources.cpu_quota_us, resources.cpu_period_us) {
                (Some(q), Some(p)) => Some(cpu_max_text(q, p)),
                _ => None,
            },
        );
        assert(ops(out@) =~= done + cpu_max);
        if let Some(shares) = resources.cpu_shares {
            let weight: u64 = shares_to_weight(shares);
            write_control(&mut out, path, "cpu.weight", decimal(weight));
        }
        let ghost cpu_weight = opt_write(
            path@,
            "cpu.weight"@,
            match resources.cpu_shares {
                Some(s) => Some(dec_int(weight_of(s))),
                None => None,
            },
        );
        assert(ops(out@) =~= done + cpu_max + cpu_weight);
        write_limit(&mut out, path, "memory.max", resources.memory_limit_bytes);
        write_limit(&mut out, path, "memory.high", resources.memory_high_bytes);
        write_limit(&mut out, path, "memory.swap.max", resources.memory_swap_bytes);
        write_limit(&mut out, path, "pids.max", resources.pids_max);
        assert(ops(out@) =~= done + resource_writes(path@, *resources));
        out
    }

    /// The place of a control file.
    pub fn control_file(&self, cgroup_path: &str, file: &str) -> (r: String)
        ensures
            r@ == path_join(cgroup_path@, file@),
    {
        join_path(cgroup_path, file)
    }

    /// The value in the text of a control file.
    pub fn read_cgroup_file(&self, content: &str) -> (r: String)
        ensures
            r@ == trimmed(content@),
    {
        trim(content).to_owned()
    }

    pub fn cgroup_root(&self) -> (r: &String)
        ensures
            *r == self.paths.root,
    {
        &self.paths.root
    }
}

/// The classes of pods have their own names.
pub proof fn law_classes_have_their_names(q: QosClass)
    ensures
        qos_name(q) == "guaranteed"@ <==> q is Guaranteed,
        qos_name(q) == "burstable"@ <==> q is Burstable,
        qos_name(q) == "besteffort"@ <==> q is BestEffort,
{
    reveal_strlit("guaranteed");
    reveal_strlit("burstable");
    reveal_strlit("besteffort");
    assert("guaranteed"@[0] == 'g' && "burstable"@[1] == 'u' && "besteffort"@[1] == 'e'
        && "burstable"@[0] == 'b' && "besteffort"@[0] == 'b');
}

/// The group of a container lies below that of its pod, that below the group
/// of the pod's class, and that below the group of all pods.
pub proof fn law_groups_are_nested(
    root: Seq<char>,
    q: QosClass,
    uid: Seq<char>,
    container_id: Seq<char>,
)
    ensures
        container_scope_of(root, q, uid, container_id) == path_join(
            pod_slice_of(root, q, uid),
            "cri-containerd-"@ + container_id + ".scope"@,
        ),
        pod_slice_of(root, q, uid) == path_join(
            qos_slice_of(root, q),
            "kubepods-"@ + qos_name(q) + "-pod"@ + uid.map_values(
                |c: char|
                    if c == '-' {
                        '_'
                    } else {
                        c
                    },
            ) + ".slice"@,
        ),
        qos_slice_of(root, q) == path_join(
            path_join(root, "kubepods.slice"@),
            "kubepods-"@ + qos_name(q) + ".slice"@,
        ),
{
    assert(with_replaced(uid, '-', '_') =~= uid.map_values(
        |c: char|
            if c == '-' {
                '_'
            } else {
                c
            },
    ));
}

/// A thousand and twenty-four shares are a weight of a hundred, and so on in
/// proportion, within the bounds of a weight; and back.
pub proof fn law_shares_and_weights_are_in_proportion(k: u64)
    requires
        1 <= k <= 100,
    ensures
        weight_of((1024 * k) as u64) == 100 * k,
        shares_of((100 * k) as u64) == 1024 * k,
{
}

/// A limit is written as its number, and as `max` where it is negative.
pub proof fn law_limits_are_written(n: i64, quota: i64, period: u64)
    ensures
        n >= 0 ==> limit_text(n as int) == dec(n as nat),
        n < 0 ==> limit_text(n as int) == "max"@,
        quota >= 0 ==> cpu_max_text(quota, period) == dec(quota as nat) + " "@ + dec(period as nat),
        quota < 0 ==> cpu_max_text(quota, period) == "max"@ + " "@ + dec(period as nat),
{
}

/// The limit of a pod's memory is what its containers and its overhead come to
/// together.
pub proof fn law_pod_memory_limit_is_the_sum(container_bytes: i64, overhead_bytes: i64)
    requires
        i64::MIN <= container_bytes + overhead_bytes <= i64::MAX,
    ensures
        pod_memory_limit(container_bytes, overhead_bytes) == container_bytes + overhead_bytes,
{
}

/// Each setting of a group is written to its own control file, and a setting
/// that is not made is not written.
pub proof fn law_settings_go_to_their_files(path: Seq<char>, r: CgroupResources)
    ensures
        r.memory_limit_bytes matches Some(n) ==> (n >= 0 ==> resource_writes(path, r).contains(
            Op::Write(path_join(path, "memory.max"@), dec(n as nat)),
        )),
        r.memory_high_bytes matches Some(n) ==> (n >= 0 ==> resource_writes(path, r).contains(
            Op::Write(path_join(path, "memory.high"@), dec(n as nat)),
        )),
        r.memory_swap_bytes matches Some(n) ==> (n >= 0 ==> resource_writes(path, r).contains(
            Op::Write(path_join(path, "memory.swap.max"@), dec(n as nat)),
        )),
        r.pids_max matches Some(n) ==> (n >= 0 ==> resource_writes(path, r).contains(
            Op::Write(path_join(path, "pids.max"@), dec(n as nat)),
        )),
        r.cpu_shares matches Some(n) ==> resource_writes(path, r).contains(
            Op::Write(path_join(path, "cpu.weight"@), dec_int(weight_of(n))),
        ),
        r.cpu_quota_us is Some && r.cpu_period_us is Some && r.cpu_quota_us->0 >= 0
            ==> resource_writes(path, r).contains(
            Op::Write(
                path_join(path, "cpu.max"@),
                dec(r.cpu_quota_us->0 as nat) + " "@ + dec(r.cpu_period_us->0 as nat),
            ),
        ),
        r.memory_limit_bytes is None && r.memory_high_bytes is None && r.memory_swap_bytes is None
            && r.pids_max is None && r.cpu_shares is None && (r.cpu_quota_us is None
            || r.cpu_period_us is None) ==> resource_writes(path, r).len() == 0,
{
    let a = opt_write(
        path,
        "cpu.max"@,
        match (r.cpu_quota_us, r.cpu_period_us) {
            (Some(q), Some(p)) => Some(cpu_max_text(q, p)),
            _ => None,
        },
    );
    let b = opt_write(
        path,
        "cpu.weight"@,
        match r.cpu_shares {
            Some(s) => Some(dec_int(weight_of(s))),
            None => None,
        },
    );
    let c = opt_write(path, "memory.max"@, opt_limit(r.memory_limit_bytes));
    let d = opt_write(path, "memory.high"@, opt_limit(r.memory_high_bytes));
    let e = opt_write(path, "memory.swap.max"@, opt_limit(r.memory_swap_bytes));
    let f = opt_write(path, "pids.max"@, opt_limit(r.pids_max));
    let all = resource_writes(path, r);
    assert(all =~= a + b + c + d + e + f);
    if a.len() > 0 {
        assert(all[0] == a[0]);
    }
    if b.len() > 0 {
        assert(all[a.len() as int] == b[0]);
    }
    if c.len() > 0 {
        assert(all[(a + b).len() as int] == c[0]);
    }
    if d.len() > 0 {
        assert(all[(a + b + c).len() as int] == d[0]);
    }
    if e.len() > 0 {
        assert(all[(a + b + c + d).len() as int] == e[0]);
    }
    if f.len() > 0 {
        assert(all[(a + b + c + d + e).len() as int] == f[0]);
    }
}

/// A group has at least two shares, and a hundred parts of weight are worth
/// 1024 shares.
pub proof fn law_shares_have_a_least_value(weight: u64)
    ensures
        shares_of(weight) >= 2,
        shares_of(0) == 2,
        shares_of(100) == 1024,
{
}

} // verus!
