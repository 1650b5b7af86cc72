//! Memory of the node's NUMA nodes.
//!
//! Under the static policy the memory of a guaranteed container is pinned to
//! one NUMA node; every other container may use all of them.
use crate::cpu_manager::{cpuset_of, increasing, CpuSet};
use crate::error::KubeletError;
use crate::lists::{
    SortKey, comes_before, kept, lemma_kept_from, lemma_kept_has, sort_indices, stable_order,
};
use crate::pairmap::{PairKey, PairMap};
use crate::procfs::{
    kib_to_bytes, meminfo_kib, meminfo_kib_of, nth_number, number_at, word_at,
};
use crate::text::{
    cat6, contains, contains_text, dec, decimal, join, joined, lemma_dec_suffixed,
    lemma_joined_push, lines, lines_of, natural_upto, parse_u32, same, strip_prefix, texts, trim,
    trimmed, without_prefix,
};
use crate::types::{PodUID, QosClass};
use vstd::prelude::*;

verus! {

// ---------------------------------------------------------------------------
// Topology
// ---------------------------------------------------------------------------

/// A NUMA node.
#[derive(Debug)]
pub struct NumaNode {
    pub id: u32,
    /// The memory of the node in bytes.
    pub total_bytes: u64,
    /// What of it is free, in bytes.
    pub free_bytes: u64,
    /// The CPUs of the node.
    pub cpus: Vec<u32>,
}

/// A part of the memory of a node: `used` out of `total`, which is not zero.
#[derive(Debug, Clone, Copy, PartialEq, Eq, Structural)]
pub struct Utilization {
    pub used: i128,
    pub total: u64,
}

impl Utilization {
    /// Whether the part is smaller than another: the fractions are compared as
    /// they are, without rounding.
    pub open spec fn below(self, other: Utilization) -> bool {
        self.used * other.total < other.used * self.total
    }
}

/// The part of a node's memory that is not free; none of a node without memory.
pub open spec fn utilization_of(n: NumaNode) -> Utilization {
    if n.total_bytes == 0 {
        Utilization { used: 0, total: 1 }
    } else {
        Utilization { used: (n.total_bytes - n.free_bytes) as i128, total: n.total_bytes }
    }
}

impl NumaNode {
    /// The part of the node's memory that is not free.
    pub fn utilization(&self) -> (r: Utilization)
        ensures
            r == utilization_of(*self),
            r.total > 0,
    {
        if self.total_bytes == 0 {
            Utilization { used: 0, total: 1 }
        } else {
            Utilization {
                used: self.total_bytes as i128 - self.free_bytes as i128,
                total: self.total_bytes,
            }
        }
    }

    /// Whether less of the node's memory is used than of another's, each in
    /// proportion to its size.
    pub fn is_less_used(&self, other: &NumaNode) -> (r: bool)
        ensures
            r == utilization_of(*self).below(utilization_of(*other)),
    {
        let (free, total) = self.free_part();
        let (other_free, other_total) = other.free_part();
        let ghost u = utilization_of(*self);
        let ghost v = utilization_of(*other);
        proof {
            assert(u.total == total && u.used == total - free);
            assert(v.total == other_total && v.used == other_total - other_free);
            lemma_products_fit(free, other_total);
            lemma_products_fit(other_free, total);
            assert(((total - free) * other_total < (other_total - other_free) * total) == (
            other_free * total < free * other_total)) by (nonlinear_arith);
        }
        (other_free as u128) * (total as u128) < (free as u128) * (other_total as u128)
    }

    /// What is free and what it is a part of; a node without memory counts as
    /// free altogether.
    fn free_part(&self) -> (r: (u64, u64))
        ensures
            r.1 > 0,
            utilization_of(*self).total == r.1,
            utilization_of(*self).used == r.1 - r.0,
    {
        if self.total_bytes == 0 {
            (1, 1)
        } else {
            (self.free_bytes, self.total_bytes)
        }
    }
}

proof fn lemma_products_fit(a: u64, b: u64)
    ensures
        0 <= a * b <= u128::MAX,
{
    assert(0 <= a * b <= u128::MAX) by (nonlinear_arith)
        requires
            0 <= a <= u64::MAX,
            0 <= b <= u64::MAX,
    ;
}

/// What is below something that is no greater than a third is below that.
proof fn lemma_below_all(a: Utilization, b: Utilization, c: Utilization)
    requires
        a.total > 0,
        b.total > 0,
        c.total > 0,
        a.below(b),
        !c.below(b),
    ensures
        a.below(c),
{
    let (ua, ta) = (a.used as int, a.total as int);
    let (ub, tb) = (b.used as int, b.total as int);
    let (uc, tc) = (c.used as int, c.total as int);
    assert((ua * tb) * tc < (ub * ta) * tc) by (nonlinear_arith)
        requires
            ua * tb < ub * ta,
            tc > 0,
    ;
    assert((ub * tc) * ta <= (uc * tb) * ta) by (nonlinear_arith)
        requires
            ub * tc <= uc * tb,
            ta > 0,
    ;
    assert((ua * tc) * tb < (uc * ta) * tb) by (nonlinear_arith)
        requires
            (ua * tb) * tc < (ub * ta) * tc,
            (ub * tc) * ta <= (uc * tb) * ta,
    ;
    assert(ua * tc < uc * ta) by (nonlinear_arith)
        requires
            (ua * tc) * tb < (uc * ta) * tb,
            tb > 0,
    ;
}

/// The number of KiB in the fourth word of the first line that holds `key` and
/// has four words.
pub open spec fn numa_kib_of(lines: Seq<Seq<char>>, key: Seq<char>) -> Option<nat>
    decreases lines.len(),
{
    if lines.len() == 0 {
        None
    } else if contains_text(lines[0], key) && word_at(lines[0], 3) is Some {
        number_at(lines[0], 3)
    } else {
        numa_kib_of(lines.skip(1), key)
    }
}

/// Reads a number of KiB out of the memory information text of a NUMA node.
pub fn numa_meminfo_kib(content: &str, key: &str) -> (r: Option<u64>)
    ensures
        match r {
            Some(k) => numa_kib_of(lines_of(content@), key@) == Some(k as nat),
            None => numa_kib_of(lines_of(content@), key@) is None,
        },
{
    let ls = lines(content);
    let mut i: usize = 0;
    assert(texts(ls@).skip(0) =~= texts(ls@));
    while i < ls.len()
        invariant
            i <= ls@.len(),
            texts(ls@) == lines_of(content@),
            numa_kib_of(texts(ls@), key@) == numa_kib_of(texts(ls@).skip(i as int), key@),
        decreases ls@.len() - i,
    {
        assert(texts(ls@).skip(i as int)[0] == ls@[i as int]@);
        assert(texts(ls@).skip(i as int).skip(1) =~= texts(ls@).skip(i + 1));
        let line = ls[i].as_str();
        if contains(line, key) && crate::procfs::nth_word(line, 3).is_some() {
            return nth_number(line, 3);
        }
        i = i + 1;
    }
    None
}

/// The CPUs that the CPU list text of a NUMA node names; none where it cannot
/// be read as a list.
pub fn numa_cpulist(content: &str) -> (r: Vec<u32>)
    ensures
        increasing(r@),
        match cpuset_of(trimmed(content@)) {
            Ok(s) => r@.to_set() == s,
            Err(_) => r@.len() == 0,
        },
{
    match CpuSet::parse(trim(content)) {
        Ok(c) => c.to_vec(),
        Err(_) => Vec::new(),
    }
}

/// The number of a NUMA node by the name of its directory.
pub open spec fn numa_id_of(name: Seq<char>) -> Option<nat> {
    match without_prefix(name, "node"@) {
        Some(n) => natural_upto(n, u32::MAX as int),
        None => None,
    }
}

/// Reads the number of a NUMA node off the name of its directory.
pub fn numa_id(name: &str) -> (r: Option<u32>)
    ensures
        match r {
            Some(k) => numa_id_of(name@) == Some(k as nat),
            None => numa_id_of(name@) is None,
        },
{
    match strip_prefix(name, "node") {
        Some(n) => parse_u32(n),
        None => None,
    }
}

/// The two nodes have the same fields.
pub open spec fn same_node(a: NumaNode, b: NumaNode) -> bool {
    &&& a.id == b.id
    &&& a.total_bytes == b.total_bytes
    &&& a.free_bytes == b.free_bytes
    &&& a.cpus@ == b.cpus@
}

/// `out` holds the nodes of `nodes`, by increasing number.
pub open spec fn by_id(nodes: Seq<NumaNode>, order: Seq<usize>, out: Seq<NumaNode>) -> bool {
    &&& stable_order(id_keys(nodes), order)
    &&& out.len() == nodes.len()
    &&& forall|i: int| 0 <= i < out.len() ==> same_node(#[trigger] out[i], nodes[order[i] as int])
}

pub open spec fn id_keys(nodes: Seq<NumaNode>) -> Seq<SortKey> {
    nodes.map_values(|n: NumaNode| (n.id as i128, 0i128))
}

/// The nodes by increasing number.
pub fn arrange_numa_nodes(nodes: Vec<NumaNode>) -> (r: Vec<NumaNode>)
    ensures
        exists|order: Seq<usize>| by_id(nodes@, order, r@),
{
    let mut out: Vec<NumaNode> = Vec::new();
    let mut keys: Vec<SortKey> = Vec::new();
    let mut i: usize = 0;
    while i < nodes.len()
        invariant
            i <= nodes@.len(),
            keys@ == id_keys(nodes@).take(i as int),
        decreases nodes@.len() - i,
    {
        keys.push((nodes[i].id as i128, 0));
        i = i + 1;
        assert(keys@ =~= id_keys(nodes@).take(i as int));
    }
    assert(keys@ =~= id_keys(nodes@));
    let order = sort_indices(&keys);
    let mut k: usize = 0;
    while k < order.len()
        invariant
            k <= order@.len(),
            stable_order(id_keys(nodes@), order@),
            out@.len() == k,
            forall|j: int|
                0 <= j < k ==> same_node(#[trigger] out@[j], nodes@[order@[j] as int]),
        decreases order@.len() - k,
    {
        let n = &nodes[order[k]];
        let mut cpus: Vec<u32> = Vec::new();
        let mut c: usize = 0;
        while c < n.cpus.len()
            invariant
                c <= n.cpus@.len(),
                cpus@ == n.cpus@.take(c as int),
            decreases n.cpus@.len() - c,
        {
            cpus.push(n.cpus[c]);
            c = c + 1;
            assert(cpus@ =~= n.cpus@.take(c as int));
        }
        assert(cpus@ =~= n.cpus@);
        out.push(
            NumaNode {
                id: n.id,
                total_bytes: n.total_bytes,
                free_bytes: n.free_bytes,
                cpus: cpus,
            },
        );
        k = k + 1;
    }
    assert(by_id(nodes@, order@, out@));
    out
}

/// A number of KiB of a memory information text, or `default` where it cannot
/// be read.
pub open spec fn kib_or(meminfo: Option<String>, prefix: Seq<char>, default: nat) -> nat {
    match meminfo {
        Some(s) => match meminfo_kib_of(s@, prefix) {
            Some(k) => k,
            None => default,
        },
        None => default,
    }
}

/// The memory of the node in KiB, by its memory information text; eight GiB
/// where it cannot be read.
pub fn total_memory_kib(meminfo: &Option<String>) -> (r: u64)
    ensures
        r == kib_or(*meminfo, "MemTotal:"@, 8 * 1024 * 1024),
{
    match meminfo {
        Some(s) => match meminfo_kib(s.as_str(), "MemTotal:") {
            Some(k) => k,
            None => 8 * 1024 * 1024,
        },
        None => 8 * 1024 * 1024,
    }
}

/// The available memory of the node in KiB, by its memory information text;
/// four GiB where it cannot be read.
pub fn free_memory_kib(meminfo: &Option<String>) -> (r: u64)
    ensures
        r == kib_or(*meminfo, "MemAvailable:"@, 4 * 1024 * 1024),
{
    match meminfo {
        Some(s) => match meminfo_kib(s.as_str(), "MemAvailable:") {
            Some(k) => k,
            None => 4 * 1024 * 1024,
        },
        None => 4 * 1024 * 1024,
    }
}

/// What the files of the directory of a NUMA node hold, as far as they can be
/// read.
#[derive(Debug)]
pub struct NumaDir {
    pub name: String,
    pub meminfo: Option<String>,
    pub cpulist: Option<String>,
}

/// What there is to see of the NUMA nodes.
#[derive(Debug)]
pub enum NumaDirs {
    /// There is no directory of them.
    Absent,
    /// It cannot be read.
    Unreadable,
    Found(Vec<NumaDir>),
}

/// The bytes that the memory information text of a NUMA node gives for a key;
/// none where it cannot be read.
pub open spec fn numa_bytes_of(meminfo: Option<String>, key: Seq<char>) -> nat {
    match meminfo {
        Some(s) => match numa_kib_of(lines_of(s@), key) {
            Some(k) => k * 1024,
            None => 0,
        },
        None => 0,
    }
}

fn numa_bytes(meminfo: &Option<String>, key: &str) -> (r: u64)
    requires
        numa_bytes_of(*meminfo, key@) <= u64::MAX,
    ensures
        r == numa_bytes_of(*meminfo, key@),
{
    match meminfo {
        Some(s) => match numa_meminfo_kib(s.as_str(), key) {
            Some(k) => kib_to_bytes(k),
            None => 0,
        },
        None => 0,
    }
}

/// Whether the memory of a NUMA node can be told in bytes.
pub open spec fn numa_dir_fits(d: NumaDir) -> bool {
    numa_id_of(d.name@) is Some ==> numa_bytes_of(d.meminfo, "MemTotal"@) <= u64::MAX
        && numa_bytes_of(d.meminfo, "MemFree"@) <= u64::MAX
}

/// The NUMA node of a directory, where its name is that of one. What cannot be
/// read of it counts as nothing.
pub open spec fn numa_node_is(d: NumaDir, r: Option<NumaNode>) -> bool {
    match numa_id_of(d.name@) {
        Some(id) => r matches Some(n) && {
            &&& n.id == id
            &&& n.total_bytes == numa_bytes_of(d.meminfo, "MemTotal"@)
            &&& n.free_bytes == numa_bytes_of(d.meminfo, "MemFree"@)
            &&& increasing(n.cpus@)
            &&& match d.cpulist {
                Some(c) => match cpuset_of(trimmed(c@)) {
                    Ok(s) => n.cpus@.to_set() == s,
                    Err(_) => n.cpus@.len() == 0,
                },
                None => n.cpus@.len() == 0,
            }
        },
        None => r is None,
    }
}

/// The NUMA node of a directory.
pub fn numa_node(d: &NumaDir) -> (r: Option<NumaNode>)
    requires
        numa_dir_fits(*d),
    ensures
        numa_node_is(*d, r),
{
    match numa_id(d.name.as_str()) {
        Some(id) => {
            let cpus: Vec<u32> = match &d.cpulist {
                Some(c) => numa_cpulist(c.as_str()),
                None => Vec::new(),
            };
            Some(
                NumaNode {
                    id,
                    total_bytes: numa_bytes(&d.meminfo, "MemTotal"),
                    free_bytes: numa_bytes(&d.meminfo, "MemFree"),
                    cpus,
                },
            )
        },
        None => None,
    }
}

/// Whether the memory of the whole machine can be told in bytes.
pub open spec fn machine_fits(meminfo: Option<String>) -> bool {
    &&& kib_or(meminfo, "MemTotal:"@, 8 * 1024 * 1024) * 1024 <= u64::MAX
    &&& kib_or(meminfo, "MemAvailable:"@, 4 * 1024 * 1024) * 1024 <= u64::MAX
}

/// The node that stands for a machine without NUMA nodes: all of its memory and
/// as many CPUs as it runs threads at once, or one.
pub open spec fn single_node_is(
    meminfo: Option<String>,
    parallelism: Option<u32>,
    n: NumaNode,
) -> bool {
    let count = match parallelism {
        Some(p) => p as nat,
        None => 1,
    };
    &&& n.id == 0
    &&& n.total_bytes == kib_or(meminfo, "MemTotal:"@, 8 * 1024 * 1024) * 1024
    &&& n.free_bytes == kib_or(meminfo, "MemAvailable:"@, 4 * 1024 * 1024) * 1024
    &&& n.cpus@ == Seq::new(count, |i: int| i as u32)
}

/// The node that stands for a machine without NUMA nodes.
pub fn single_numa_node(meminfo: &Option<String>, parallelism: Option<u32>) -> (r: NumaNode)
    requires
        machine_fits(*meminfo),
    ensures
        single_node_is(*meminfo, parallelism, r),
{
    let count: u32 = match parallelism {
        Some(p) => p,
        None => 1,
    };
    let mut cpus: Vec<u32> = Vec::new();
    let mut i: u32 = 0;
    while i < count
        invariant
            i <= count,
            cpus@ == Seq::new(i as nat, |j: int| j as u32),
        decreases count - i,
    {
        cpus.push(i);
        i = i + 1;
        assert(cpus@ =~= Seq::new(i as nat, |j: int| j as u32));
    }
    NumaNode {
        id: 0,
        total_bytes: kib_to_bytes(total_memory_kib(meminfo)),
        free_bytes: kib_to_bytes(free_memory_kib(meminfo)),
        cpus,
    }
}

pub open spec fn numa_rel() -> spec_fn(NumaDir, Option<NumaNode>) -> bool {
    |d: NumaDir, r: Option<NumaNode>| numa_node_is(d, r)
}

/// Whether none of the directories is that of a NUMA node.
pub open spec fn no_numa_node(dirs: Seq<NumaDir>) -> bool {
    forall|i: int| 0 <= i < dirs.len() ==> numa_id_of((#[trigger] dirs[i]).name@) is None
}

/// The NUMA nodes of a machine: those of its directories, by increasing number,
/// or the node that stands for the whole machine where there are none.
pub open spec fn numa_nodes_are(
    dirs: NumaDirs,
    meminfo: Option<String>,
    parallelism: Option<u32>,
    r: Seq<NumaNode>,
) -> bool {
    match dirs {
        NumaDirs::Absent => r.len() == 1 && single_node_is(meminfo, parallelism, r[0]),
        NumaDirs::Unreadable => r.len() == 0,
        NumaDirs::Found(v) => if no_numa_node(v@) {
            r.len() == 1 && single_node_is(meminfo, parallelism, r[0])
        } else {
            exists|nodes: Seq<NumaNode>, order: Seq<usize>|
                kept(v@, nodes, numa_rel()) && #[trigger] by_id(nodes, order, r)
        },
    }
}

/// The NUMA nodes of a machine.
pub fn discover_numa_nodes(
    dirs: &NumaDirs,
    meminfo: &Option<String>,
    parallelism: Option<u32>,
) -> (r: Vec<NumaNode>)
    requires
        dirs is Absent ==> machine_fits(*meminfo),
        dirs matches NumaDirs::Found(v) ==> {
            &&& forall|i: int| 0 <= i < v@.len() ==> numa_dir_fits(#[trigger] v@[i])
            &&& no_numa_node(v@) ==> machine_fits(*meminfo)
        },
    ensures
        numa_nodes_are(*dirs, *meminfo, parallelism, r@),
{
    let mut out: Vec<NumaNode> = Vec::new();
    match dirs {
        NumaDirs::Absent => {
            out.push(single_numa_node(meminfo, parallelism));
            out
        },
        NumaDirs::Unreadable => out,
        NumaDirs::Found(v) => {
            let mut i: usize = 0;
            while i < v.len()
                invariant
                    i <= v@.len(),
                    forall|j: int| 0 <= j < v@.len() ==> numa_dir_fits(#[trigger] v@[j]),
                    kept(v@.take(i as int), out@, numa_rel()),
                decreases v@.len() - i,
            {
                let ghost before = out@;
                assert(v@.take(i + 1).drop_last() =~= v@.take(i as int));
                if let Some(n) = numa_node(&v[i]) {
                    out.push(n);
                    assert(out@.drop_last() =~= before);
                }
                i = i + 1;
            }
            assert(v@.take(i as int) =~= v@);
            if out.len() == 0 {
                proof {
                    assert forall|j: int| 0 <= j < v@.len() implies numa_id_of(
                        (#[trigger] v@[j]).name@,
                    ) is None by {
                        if numa_id_of(v@[j].name@) is Some {
                            lemma_kept_has(v@, out@, numa_rel(), j);
                        }
                    }
                }
                out.push(single_numa_node(meminfo, parallelism));
                out
            } else {
                proof {
                    lemma_kept_from(v@, out@, numa_rel(), 0);
                    let j = choose|j: int|
                        0 <= j < v@.len() && numa_rel()(#[trigger] v@[j], Some(out@[0]));
                    assert(numa_node_is(v@[j], Some(out@[0])));
                    assert(!no_numa_node(v@));
                }
                arrange_numa_nodes(out)
            }
        },
    }
}

// ---------------------------------------------------------------------------
// The manager
// ---------------------------------------------------------------------------

/// The memory of a container.
#[derive(Debug)]
pub struct MemoryAssignment {
    pub pod_uid: PodUID,
    pub container_name: String,
    /// The NUMA nodes to which the memory is pinned.
    pub numa_nodes: Vec<u32>,
    pub bytes: u64,
}

#[derive(Debug, Clone, Copy, PartialEq, Eq, Structural)]
pub enum MemoryManagerPolicy {
    NonePolicy,
    Static,
}

impl MemoryManagerPolicy {
    /// Reads the name of a policy; any name but `Static` means none.
    pub fn parse(s: &str) -> (r: Self)
        ensures
            r == if s@ == "Static"@ {
                MemoryManagerPolicy::Static
            } else {
                MemoryManagerPolicy::NonePolicy
            },
    {
        if same(s, "Static") {
            MemoryManagerPolicy::Static
        } else {
            MemoryManagerPolicy::NonePolicy
        }
    }
}

/// Pins the memory of containers to NUMA nodes.
#[derive(Debug)]
pub struct MemoryManager {
    pub policy: MemoryManagerPolicy,
    pub numa_nodes: Vec<NumaNode>,
    pub assignments: PairMap<MemoryAssignment>,
}

pub open spec fn id_texts(ids: Seq<u32>) -> Seq<Seq<char>> {
    ids.map_values(|n: u32| dec(n as nat))
}

/// The list of node numbers, with commas in between.
pub open spec fn id_list(ids: Seq<u32>) -> Seq<char> {
    joined(id_texts(ids), ","@)
}

pub open spec fn node_ids(nodes: Seq<NumaNode>) -> Seq<u32> {
    nodes.map_values(|n: NumaNode| n.id)
}

/// The position of the first of the least utilized nodes among those with
/// enough free memory.
pub open spec fn is_best(nodes: Seq<NumaNode>, needed: u64, i: int) -> bool {
    &&& 0 <= i < nodes.len()
    &&& nodes[i].free_bytes >= needed
    &&& forall|j: int|
        0 <= j < nodes.len() && (#[trigger] nodes[j]).free_bytes >= needed ==> utilization_of(
            nodes[i],
        ).below(utilization_of(nodes[j])) || (!utilization_of(nodes[j]).below(
            utilization_of(nodes[i]),
        ) && i <= j)
}

/// How many bytes of an assignment are pinned to the node `id`.
pub open spec fn pinned_by(a: MemoryAssignment, id: u32) -> nat {
    if a.numa_nodes@ == seq![id] {
        a.bytes as nat
    } else {
        0
    }
}

/// How many bytes are pinned to the node `id`.
pub open spec fn pinned(pairs: Seq<(PairKey, MemoryAssignment)>, id: u32) -> nat
    decreases pairs.len(),
{
    if pairs.len() == 0 {
        0
    } else {
        pinned(pairs.drop_last(), id) + pinned_by(pairs.last().1, id)
    }
}

proof fn lemma_pinned_remove(pairs: Seq<(PairKey, MemoryAssignment)>, id: u32, i: int)
    requires
        0 <= i < pairs.len(),
    ensures
        pinned(pairs, id) == pinned(pairs.remove(i), id) + pinned_by(pairs[i].1, id),
    decreases pairs.len(),
{
    let front = pairs.drop_last();
    if i == pairs.len() - 1 {
        assert(pairs.remove(i) =~= front);
    } else {
        lemma_pinned_remove(front, id, i);
        assert(pairs.remove(i).drop_last() =~= front.remove(i));
        assert(pairs.remove(i).last() == pairs.last());
    }
}

/// The bytes of the `i`-th node that are free or pinned.
pub open spec fn accounted(m: MemoryManager, i: int) -> int {
    m.numa_nodes@[i].free_bytes + pinned(m.assignments.pairs(), m.numa_nodes@[i].id)
}

/// No byte of any node is gained or lost between `a` and `b`.
pub open spec fn conserved(a: MemoryManager, b: MemoryManager) -> bool {
    &&& a.numa_nodes@.len() == b.numa_nodes@.len()
    &&& forall|i: int|
        0 <= i < a.numa_nodes@.len() ==> (#[trigger] b.numa_nodes@[i]).id == a.numa_nodes@[i].id
            && b.numa_nodes@[i].total_bytes == a.numa_nodes@[i].total_bytes
            && b.numa_nodes@[i].cpus == a.numa_nodes@[i].cpus
    &&& forall|i: int| 0 <= i < a.numa_nodes@.len() ==> #[trigger] accounted(b, i) == accounted(a, i)
}

/// `after` is `before` with memory of the node at `i` pinned for a container
/// that had none.
pub open spec fn pinned_to(
    before: MemoryManager,
    pod_uid: PodUID,
    container: Seq<char>,
    bytes: u64,
    i: int,
    after: MemoryManager,
) -> bool {
    let key = (pod_uid.0@, container);
    &&& after.policy == before.policy
    &&& after.numa_nodes@ == before.numa_nodes@.update(i, after.numa_nodes@[i])
    &&& after.numa_nodes@[i].free_bytes == before.numa_nodes@[i].free_bytes - bytes
    &&& after.assignments@.contains_key(key)
    &&& after.assignments@ == before.assignments@.insert(key, after.assignments@[key])
    &&& after.assignments@[key].pod_uid == pod_uid
    &&& after.assignments@[key].container_name@ == container
    &&& after.assignments@[key].numa_nodes@ == seq![before.numa_nodes@[i].id]
    &&& after.assignments@[key].bytes == bytes
}

impl MemoryManager {
    /// Node numbers are distinct; every assignment is pinned to one known
    /// node; and what is free and what is pinned of a node fit 64 bits.
    pub open spec fn wf(self) -> bool {
        &&& forall|i: int, j: int|
            0 <= i < j < self.numa_nodes@.len() ==> (#[trigger] self.numa_nodes@[i]).id != (
            #[trigger] self.numa_nodes@[j]).id
        &&& forall|k: PairKey| #[trigger]
            self.assignments@.contains_key(k) ==> exists|i: int|
                0 <= i < self.numa_nodes@.len() && self.assignments@[k].numa_nodes@ == seq![
                    (#[trigger] self.numa_nodes@[i]).id,
                ]
        &&& forall|i: int|
            0 <= i < self.numa_nodes@.len() ==> #[trigger] accounted(self, i) <= u64::MAX
    }

    /// A manager of the given NUMA nodes.
    pub fn new(policy: &str, numa_nodes: Vec<NumaNode>) -> (r: Self)
        ensures
            r.policy == if policy@ == "Static"@ {
                MemoryManagerPolicy::Static
            } else {
                MemoryManagerPolicy::NonePolicy
            },
            r.numa_nodes == numa_nodes,
            r.assignments@ == Map::<PairKey, MemoryAssignment>::empty(),
            (forall|i: int, j: int|
                0 <= i < j < numa_nodes@.len() ==> (#[trigger] numa_nodes@[i]).id != (
                #[trigger] numa_nodes@[j]).id) ==> r.wf(),
    {
        MemoryManager {
            policy: MemoryManagerPolicy::parse(policy),
            numa_nodes,
            assignments: PairMap::new(),
        }
    }

    /// The numbers of all nodes, or a zero where there is none.
    pub open spec fn all_nodes(self) -> Seq<char> {
        if self.numa_nodes@.len() == 0 {
            "0"@
        } else {
            id_list(node_ids(self.numa_nodes@))
        }
    }

    fn all_numa_nodes_string(&self) -> (r: String)
        ensures
            r@ == self.all_nodes(),
    {
        if self.numa_nodes.len() == 0 {
            return "0".to_owned();
        }
        let mut parts: Vec<String> = Vec::new();
        let mut i: usize = 0;
        let ghost all = id_texts(node_ids(self.numa_nodes@));
        while i < self.numa_nodes.len()
            invariant
                i <= self.numa_nodes@.len(),
                all == id_texts(node_ids(self.numa_nodes@)),
                texts(parts@) == all.take(i as int),
            decreases self.numa_nodes@.len() - i,
        {
            let ghost before = parts@;
            let t = decimal(self.numa_nodes[i].id as u64);
            parts.push(t);
            i = i + 1;
            assert(texts(parts@) =~= texts(before).push(t@));
            assert(texts(parts@) =~= all.take(i as int));
        }
        assert(texts(parts@) =~= all);
        join(&parts, ",")
    }

    /// The position of the node to which memory is pinned next: the first of
    /// the least used among those with enough free memory.
    fn best_numa_node(&self, bytes_needed: u64) -> (r: Option<usize>)
        ensures
            match r {
                Some(i) => is_best(self.numa_nodes@, bytes_needed, i as int),
                None => forall|j: int|
                    0 <= j < self.numa_nodes@.len() ==> (#[trigger] self.numa_nodes@[j]).free_bytes
                        < bytes_needed,
            },
    {
        let mut best: Option<usize> = None;
        let mut i: usize = 0;
        while i < self.numa_nodes.len()
            invariant
                i <= self.numa_nodes@.len(),
                match best {
                    Some(b) => is_best(self.numa_nodes@.take(i as int), bytes_needed, b as int),
                    None => forall|j: int|
                        0 <= j < i ==> (#[trigger] self.numa_nodes@[j]).free_bytes < bytes_needed,
                },
            decreases self.numa_nodes@.len() - i,
        {
            let ghost front = self.numa_nodes@.take(i as int);
            let ghost next = self.numa_nodes@.take(i + 1);
            let ghost was = best;
            assert forall|j: int| 0 <= j < i implies front[j] == next[j] by {}
            if self.numa_nodes[i].free_bytes >= bytes_needed {
                match best {
                    Some(b) => {
                        assert(front[b as int] == self.numa_nodes@[b as int]);
                        if self.numa_nodes[i].is_less_used(&self.numa_nodes[b]) {
                            best = Some(i);
                        }
                    },
                    None => {
                        best = Some(i);
                    },
                }
            }
            proof {
                match best {
                    Some(b) => {
                        assert(is_best(next, bytes_needed, b as int)) by {
                            assert forall|j: int|
                                0 <= j < next.len() && (#[trigger] next[j]).free_bytes
                                    >= bytes_needed implies utilization_of(next[b as int]).below(
                                utilization_of(next[j]),
                            ) || (!utilization_of(next[j]).below(utilization_of(next[b as int]))
                                && b <= j) by {
                                if j < i {
                                    assert(front[j] == next[j]);
                                    if let Some(last) = was {
                                        let low = utilization_of(front[last as int]);
                                        if b == i && !utilization_of(front[j]).below(low) {
                                            lemma_below_all(
                                                utilization_of(next[i as int]),
                                                low,
                                                utilization_of(front[j]),
                                            );
                                        }
                                    }
                                }
                            }
                        }
                    },
                    None => {},
                }
            }
            i = i + 1;
        }
        assert(self.numa_nodes@.take(i as int) =~= self.numa_nodes@);
        best
    }

    /// Pins the memory of a container and says which NUMA nodes it may use.
    /// Under the static policy a guaranteed container is pinned to one node
    /// and stays pinned to it; every other container may use all nodes.
    pub fn assign(
        &mut self,
        pod_uid: &PodUID,
        container_name: &str,
        qos: QosClass,
        memory_request_bytes: u64,
    ) -> (r: Result<String, KubeletError>)
        requires
            old(self).wf(),
        ensures
            final(self).wf(),
            conserved(*old(self), *final(self)),
            ({
                let key = (pod_uid.0@, container_name@);
                if old(self).policy == MemoryManagerPolicy::NonePolicy {
                    r matches Ok(s) && s@ == old(self).all_nodes() && *final(self) == *old(self)
                } else if old(self).assignments@.contains_key(key) {
                    r matches Ok(s) && s@ == id_list(old(self).assignments@[key].numa_nodes@)
                        && *final(self) == *old(self)
                } else if qos != QosClass::Guaranteed {
                    r matches Ok(s) && s@ == old(self).all_nodes() && *final(self) == *old(self)
                } else if forall|j: int|
                    0 <= j < old(self).numa_nodes@.len() ==> (#[trigger] old(self).numa_nodes@[j]).free_bytes < memory_request_bytes {
                    r matches Err(KubeletError::Resource(m)) && m@ == "no NUMA node with "@ + dec(
                        memory_request_bytes as nat,
                    ) + " bytes free for pod "@ + pod_uid.0@ + "/"@ + container_name@
                        && *final(self) == *old(self)
                } else {
                    r matches Ok(s) && exists|i: int| #[trigger]
                        is_best(old(self).numa_nodes@, memory_request_bytes, i) && s@ == dec(
                            old(self).numa_nodes@[i].id as nat,
                        ) && pinned_to(
                            *old(self),
                            *pod_uid,
                            container_name@,
                            memory_request_bytes,
                            i,
                            *final(self),
                        )
                }
            }),
    {
        if self.policy == MemoryManagerPolicy::NonePolicy {
            return Ok(self.all_numa_nodes_string());
        }
        if let Some(existing) = self.assignments.get(pod_uid.0.as_str(), container_name) {
            let mut parts: Vec<String> = Vec::new();
            let mut i: usize = 0;
            let ghost all = id_texts(existing.numa_nodes@);
            while i < existing.numa_nodes.len()
                invariant
                    i <= existing.numa_nodes@.len(),
                    all == id_texts(existing.numa_nodes@),
                    texts(parts@) == all.take(i as int),
                decreases existing.numa_nodes@.len() - i,
            {
                let ghost before = parts@;
                let t = decimal(existing.numa_nodes[i] as u64);
                parts.push(t);
                i = i + 1;
                assert(texts(parts@) =~= texts(before).push(t@));
                assert(texts(parts@) =~= all.take(i as int));
            }
            assert(texts(parts@) =~= all);
            return Ok(join(&parts, ","));
        }
        if qos != QosClass::Guaranteed {
            return Ok(self.all_numa_nodes_string());
        }
        let i: usize = match self.best_numa_node(memory_request_bytes) {
            Some(i) => i,
            None => {
                let n = decimal(memory_request_bytes);
                return Err(
                    KubeletError::Resource(
                        cat6(
                            "no NUMA node with ",
                            n.as_str(),
                            " bytes free for pod ",
                            pod_uid.0.as_str(),
                            "/",
                            container_name,
                        ),
                    ),
                );
            },
        };
        let ghost before = *self;
        let id: u32 = self.numa_nodes[i].id;
        assert(self.numa_nodes@[i as int].free_bytes >= memory_request_bytes);
        let left: u64 = self.numa_nodes[i].free_bytes - memory_request_bytes;
        self.set_free(i, left);
        let mut numa_nodes: Vec<u32> = Vec::new();
        numa_nodes.push(id);
        assert(numa_nodes@ =~= seq![id]);
        let a = MemoryAssignment {
            pod_uid: pod_uid.copied(),
            container_name: container_name.to_owned(),
            numa_nodes,
            bytes: memory_request_bytes,
        };
        self.assignments.insert(pod_uid.0.as_str(), container_name, a);
        proof {
            let pairs = before.assignments.pairs();
            let key = (pod_uid.0@, container_name@);
            assert(self.assignments.pairs() == pairs.push((key, a)));
            assert(self.assignments.pairs().drop_last() =~= pairs);
            assert forall|j: int| 0 <= j < self.numa_nodes@.len() implies #[trigger] accounted(
                *self,
                j,
            ) == accounted(before, j) by {
                let jd = self.numa_nodes@[j].id;
                if jd == id {
                    assert(before.numa_nodes@[j].id == before.numa_nodes@[i as int].id);
                    assert(j == i);
                } else {
                    assert(seq![jd][0] != seq![id][0]);
                }
            }
            assert forall|k: PairKey| #[trigger] self.assignments@.contains_key(k) implies exists|
                x: int,
            |
                0 <= x < self.numa_nodes@.len() && self.assignments@[k].numa_nodes@ == seq![
                    (#[trigger] self.numa_nodes@[x]).id,
                ] by {
                if k == key {
                    assert(self.assignments@[k].numa_nodes@ == seq![
                        self.numa_nodes@[i as int].id,
                    ]);
                } else {
                    assert(before.assignments@.contains_key(k));
                    let x = choose|x: int|
                        0 <= x < before.numa_nodes@.len() && before.assignments@[k].numa_nodes@
                            == seq![(#[trigger] before.numa_nodes@[x]).id];
                    assert(self.numa_nodes@[x].id == before.numa_nodes@[x].id);
                }
            }
            assert forall|x: int, y: int| 0 <= x < y < self.numa_nodes@.len() implies (
            #[trigger] self.numa_nodes@[x]).id != (#[trigger] self.numa_nodes@[y]).id by {
                assert(before.numa_nodes@[x].id != before.numa_nodes@[y].id);
            }
            assert(pinned_to(
                before,
                *pod_uid,
                container_name@,
                memory_request_bytes,
                i as int,
                *self,
            ));
            assert(is_best(before.numa_nodes@, memory_request_bytes, i as int));
        }
        Ok(decimal(id as u64))
    }

    fn set_free(&mut self, i: usize, free_bytes: u64)
        requires
            i < old(self).numa_nodes@.len(),
        ensures
            final(self).policy == old(self).policy,
            final(self).assignments == old(self).assignments,
            final(self).numa_nodes@.len() == old(self).numa_nodes@.len(),
            final(self).numa_nodes@ == old(self).numa_nodes@.update(
                i as int,
                final(self).numa_nodes@[i as int],
            ),
            final(self).numa_nodes@[i as int] == (NumaNode {
                free_bytes,
                ..old(self).numa_nodes@[i as int]
            }),
    {
        let ghost before = self.numa_nodes@;
        self.numa_nodes[i].free_bytes = free_bytes;
        assert(self.numa_nodes@ =~= before.update(i as int, self.numa_nodes@[i as int]));
    }

    /// Gives the memory of a container back to its NUMA node.
    pub fn release(&mut self, pod_uid: &PodUID, container_name: &str)
        requires
            old(self).wf(),
        ensures
            final(self).wf(),
            conserved(*old(self), *final(self)),
            final(self).policy == old(self).policy,
            final(self).assignments@ == old(self).assignments@.remove(
                (pod_uid.0@, container_name@),
            ),
            !old(self).assignments@.contains_key((pod_uid.0@, container_name@)) ==> final(self).numa_nodes == old(self).numa_nodes,
            old(self).assignments@.contains_key((pod_uid.0@, container_name@)) ==> forall|i: int|
                0 <= i < old(self).numa_nodes@.len() ==> (#[trigger] final(self).numa_nodes@[i]).free_bytes == old(self).numa_nodes@[i].free_bytes + pinned_by(
                    old(self).assignments@[(pod_uid.0@, container_name@)],
                    old(self).numa_nodes@[i].id,
                ),
    {
        let ghost before = *self;
        let ghost key = (pod_uid.0@, container_name@);
        let ghost pairs = self.assignments.pairs();
        match self.assignments.remove(pod_uid.0.as_str(), container_name) {
            None => {
                assert(self.assignments@ =~= before.assignments@);
                assert forall|j: int| 0 <= j < self.numa_nodes@.len() implies #[trigger] accounted(
                    *self,
                    j,
                ) == accounted(before, j) by {}
            },
            Some(a) => {
                let ghost at = choose|at: int|
                    0 <= at < pairs.len() && #[trigger] pairs[at] == (key, a)
                        && self.assignments.pairs() == pairs.remove(at);
                let ghost x = choose|x: int|
                    0 <= x < before.numa_nodes@.len() && before.assignments@[key].numa_nodes@
                        == seq![(#[trigger] before.numa_nodes@[x]).id];
                proof {
                    assert(before.assignments@.contains_key(key));
                    assert forall|id: u32| #[trigger] pinned(pairs, id) == pinned(
                        self.assignments.pairs(),
                        id,
                    ) + pinned_by(a, id) by {
                        lemma_pinned_remove(pairs, id, at);
                    }
                    assert(a.numa_nodes@.len() == 1);
                }
                let id: u32 = a.numa_nodes[0];
                let mut i: usize = 0;
                assert(id == before.numa_nodes@[x].id);
                while i < self.numa_nodes.len() && self.numa_nodes[i].id != id
                    invariant
                        i <= self.numa_nodes@.len(),
                        self.numa_nodes == before.numa_nodes,
                        0 <= x < before.numa_nodes@.len(),
                        id == before.numa_nodes@[x].id,
                        i <= x,
                    decreases self.numa_nodes@.len() - i,
                {
                    i = i + 1;
                }
                proof {
                    if i < x {
                        assert(before.numa_nodes@[i as int].id != before.numa_nodes@[x].id);
                    }
                    assert(i == x);
                    assert(accounted(before, x) <= u64::MAX);
                    assert(a.numa_nodes@ =~= seq![id]);
                    assert(pinned(pairs, id) == pinned(self.assignments.pairs(), id) + a.bytes);
                }
                let sum: u64 = self.numa_nodes[i].free_bytes + a.bytes;
                self.set_free(i, sum);
                proof {
                    assert forall|j: int| 0 <= j < self.numa_nodes@.len() implies
                        #[trigger] accounted(*self, j) == accounted(before, j) && (
                    self.numa_nodes@[j]).free_bytes == before.numa_nodes@[j].free_bytes + pinned_by(
                        a,
                        before.numa_nodes@[j].id,
                    ) by {
                        let jd = before.numa_nodes@[j].id;
                        assert(pinned(pairs, jd) == pinned(self.assignments.pairs(), jd)
                            + pinned_by(a, jd));
                        if j < x {
                            assert(before.numa_nodes@[j].id != before.numa_nodes@[x].id);
                        } else if j > x {
                            assert(before.numa_nodes@[x].id != before.numa_nodes@[j].id);
                        }
                        if j != x {
                            assert(seq![jd][0] != seq![id][0]);
                        }
                    }
                    assert forall|i: int| 0 <= i < before.numa_nodes@.len() implies (
                    #[trigger] self.numa_nodes@[i]).free_bytes == before.numa_nodes@[i].free_bytes
                        + pinned_by(a, before.numa_nodes@[i].id) by {
                        assert(accounted(*self, i) == accounted(before, i));
                    }
                }
            },
        }
        proof {
            assert forall|k: PairKey| #[trigger] self.assignments@.contains_key(k) implies exists|
                x: int,
            |
                0 <= x < self.numa_nodes@.len() && self.assignments@[k].numa_nodes@ == seq![
                    (#[trigger] self.numa_nodes@[x]).id,
                ] by {
                assert(before.assignments@.contains_key(k));
                let x = choose|x: int|
                    0 <= x < before.numa_nodes@.len() && before.assignments@[k].numa_nodes@ == seq![
                        (#[trigger] before.numa_nodes@[x]).id,
                    ];
                assert(self.numa_nodes@[x].id == before.numa_nodes@[x].id);
            }
            assert forall|x: int, y: int| 0 <= x < y < self.numa_nodes@.len() implies (
            #[trigger] self.numa_nodes@[x]).id != (#[trigger] self.numa_nodes@[y]).id by {
                assert(before.numa_nodes@[x].id != before.numa_nodes@[y].id);
            }
        }
    }

    pub fn policy(&self) -> (r: &MemoryManagerPolicy)
        ensures
            *r == self.policy,
    {
        &self.policy
    }

    pub fn numa_node_count(&self) -> (r: usize)
        ensures
            r == self.numa_nodes@.len(),
    {
        self.numa_nodes.len()
    }

    /// How many containers have pinned memory.
    pub fn assignment_count(&self) -> (r: usize)
        ensures
            r == self.assignments@.len(),
    {
        self.assignments.len()
    }
}

/// Giving the memory of a container back right after it was pinned leaves
/// every node with the free memory it had.
pub proof fn law_release_undoes_pin(
    before: MemoryManager,
    pod_uid: PodUID,
    container: Seq<char>,
    bytes: u64,
    i: int,
    between: MemoryManager,
    after: MemoryManager,
)
    requires
        before.wf(),
        0 <= i < before.numa_nodes@.len(),
        !before.assignments@.contains_key((pod_uid.0@, container)),
        pinned_to(before, pod_uid, container, bytes, i, between),
        after.assignments@ == between.assignments@.remove((pod_uid.0@, container)),
        after.numa_nodes@.len() == between.numa_nodes@.len(),
        forall|j: int|
            0 <= j < between.numa_nodes@.len() ==> (#[trigger] after.numa_nodes@[j]).free_bytes
                == between.numa_nodes@[j].free_bytes + pinned_by(
                between.assignments@[(pod_uid.0@, container)],
                between.numa_nodes@[j].id,
            ),
        forall|j: int|
            0 <= j < before.numa_nodes@.len() ==> (#[trigger] between.numa_nodes@[j]).id
                == before.numa_nodes@[j].id,
    ensures
        after.assignments@ == before.assignments@,
        forall|j: int|
            0 <= j < before.numa_nodes@.len() ==> (#[trigger] after.numa_nodes@[j]).free_bytes
                == before.numa_nodes@[j].free_bytes,
{
    assert(after.assignments@ =~= before.assignments@);
    assert forall|j: int| 0 <= j < before.numa_nodes@.len() implies (
    #[trigger] after.numa_nodes@[j]).free_bytes == before.numa_nodes@[j].free_bytes by {
        let id = before.numa_nodes@[i].id;
        let jd = between.numa_nodes@[j].id;
        assert(jd == before.numa_nodes@[j].id);
        if j < i {
            assert(before.numa_nodes@[j].id != before.numa_nodes@[i].id);
        } else if j > i {
            assert(before.numa_nodes@[i].id != before.numa_nodes@[j].id);
        }
        if j != i {
            assert(seq![jd][0] != seq![id][0]);
        }
    }
}

/// Of two nodes of one size the one with more memory free is used less.
pub proof fn law_freer_nodes_are_used_less(a: NumaNode, b: NumaNode)
    requires
        a.total_bytes == b.total_bytes,
        a.total_bytes > 0,
        a.free_bytes <= a.total_bytes,
        b.free_bytes <= b.total_bytes,
    ensures
        utilization_of(a).below(utilization_of(b)) <==> a.free_bytes > b.free_bytes,
{
    let t = a.total_bytes as int;
    let x = a.total_bytes - a.free_bytes;
    let y = b.total_bytes - b.free_bytes;
    assert(x * t < y * t <==> x < y) by (nonlinear_arith)
        requires
            t > 0,
    ;
}

/// A node without memory in use comes before one that has some in use.
pub proof fn law_unused_nodes_are_used_least(a: NumaNode, b: NumaNode)
    requires
        a.total_bytes > 0,
        b.total_bytes > 0,
        a.free_bytes == a.total_bytes,
        b.free_bytes < b.total_bytes,
    ensures
        utilization_of(a).below(utilization_of(b)),
        !utilization_of(b).below(utilization_of(a)),
{
    let u = utilization_of(a);
    let v = utilization_of(b);
    assert(u.used * v.total == 0) by (nonlinear_arith)
        requires
            u.used == 0,
    ;
    assert(v.used * u.total > 0) by (nonlinear_arith)
        requires
            v.used > 0,
            u.total > 0,
    ;
}

/// The node that is chosen has room, and of nodes of one size none that has
/// room has more of it.
pub proof fn law_best_node_has_the_most_room(
    nodes: Seq<NumaNode>,
    needed: u64,
    i: int,
    j: int,
)
    requires
        is_best(nodes, needed, i),
        0 <= j < nodes.len(),
        nodes[j].total_bytes == nodes[i].total_bytes,
        nodes[i].total_bytes > 0,
        nodes[i].free_bytes <= nodes[i].total_bytes,
        nodes[j].free_bytes <= nodes[j].total_bytes,
    ensures
        nodes[i].free_bytes >= needed,
        nodes[j].free_bytes <= nodes[i].free_bytes,
        j < i ==> nodes[j].free_bytes < nodes[i].free_bytes || nodes[j].free_bytes < needed,
{
    if nodes[j].free_bytes >= needed {
        law_freer_nodes_are_used_less(nodes[i], nodes[j]);
        law_freer_nodes_are_used_less(nodes[j], nodes[i]);
    }
}

/// Pinning memory to a node takes that much of it from what the node has free
/// and from no other, and is remembered with its container.
pub proof fn law_pinned_memory_is_taken(
    before: MemoryManager,
    pod_uid: PodUID,
    container: Seq<char>,
    bytes: u64,
    i: int,
    after: MemoryManager,
    j: int,
)
    requires
        pinned_to(before, pod_uid, container, bytes, i, after),
        0 <= i < before.numa_nodes@.len(),
        0 <= j < before.numa_nodes@.len(),
    ensures
        after.numa_nodes@[i].free_bytes + bytes == before.numa_nodes@[i].free_bytes,
        j != i ==> after.numa_nodes@[j] == before.numa_nodes@[j],
        after.assignments@.contains_key((pod_uid.0@, container)),
        after.assignments@[(pod_uid.0@, container)].bytes == bytes,
        after.assignments@[(pod_uid.0@, container)].numa_nodes@.len() == 1,
        after.assignments@[(pod_uid.0@, container)].numa_nodes@[0] == before.numa_nodes@[i].id,
        after.assignments@[(pod_uid.0@, container)].pod_uid.0@ == pod_uid.0@,
        after.assignments@[(pod_uid.0@, container)].container_name@ == container,
{
}

/// A directory of a node is told by its name.
pub proof fn law_nodes_are_told_by_name(n: nat)
    requires
        n <= u32::MAX,
    ensures
        numa_id_of("node"@ + dec(n)) == Some(n),
{
    lemma_dec_suffixed(n, Seq::empty());
    let s = "node"@ + dec(n);
    assert(s.take("node"@.len() as int) =~= "node"@);
    assert(s.skip("node"@.len() as int) =~= dec(n));
}

/// The memory of a node is read in units of 1024 bytes, what there is and what
/// is free each from its own line.
pub proof fn law_node_memory_is_read(d: NumaDir, r: Option<NumaNode>, total: nat, free: nat)
    requires
        numa_node_is(d, r),
        d.meminfo matches Some(s) && numa_kib_of(lines_of(s@), "MemTotal"@) == Some(total)
            && numa_kib_of(lines_of(s@), "MemFree"@) == Some(free),
    ensures
        r is Some <==> numa_id_of(d.name@) is Some,
        r matches Some(n) ==> n.total_bytes == total * 1024 && n.free_bytes == free * 1024
            && Some(n.id as nat) == numa_id_of(d.name@),
{
}

/// The nodes come in the order of their numbers.
pub proof fn law_nodes_are_in_order(
    nodes: Seq<NumaNode>,
    order: Seq<usize>,
    out: Seq<NumaNode>,
    i: int,
    j: int,
)
    requires
        by_id(nodes, order, out),
        0 <= i < j < out.len(),
    ensures
        out[i].id <= out[j].id,
        out.len() == nodes.len(),
{
    let keys = id_keys(nodes);
    assert(comes_before(keys, order[i] as int, order[j] as int));
    assert(same_node(out[i], nodes[order[i] as int]));
    assert(same_node(out[j], nodes[order[j] as int]));
}

/// A machine without nodes is one node with all its memory and all its CPUs.
pub proof fn law_single_node_has_everything(
    meminfo: Option<String>,
    parallelism: Option<u32>,
    n: NumaNode,
    i: int,
)
    requires
        single_node_is(meminfo, parallelism, n),
    ensures
        n.id == 0,
        parallelism matches Some(p) ==> n.cpus@.len() == p && (0 <= i < p ==> n.cpus@[i] == i),
        parallelism is None ==> n.cpus@ == seq![0u32],
        meminfo is None ==> n.total_bytes == 0x2_0000_0000 && n.free_bytes == 0x1_0000_0000,
{
    if parallelism is None {
        assert(n.cpus@ =~= seq![0u32]);
    }
}

/// The list of nodes holds their numbers with commas between them.
pub proof fn law_node_lists_hold_the_numbers(ids: Seq<u32>, id: u32)
    ensures
        id_list(seq![id]) == dec(id as nat),
        ids.len() > 0 ==> id_list(ids.push(id)) == id_list(ids) + ","@ + dec(id as nat),
{
    assert(id_texts(seq![id]) =~= seq![dec(id as nat)]);
    assert(id_texts(ids.push(id)) =~= id_texts(ids).push(dec(id as nat)));
    lemma_joined_push(id_texts(ids), ","@, dec(id as nat));
    assert(id_texts(ids).len() == ids.len());
}

/// Memory that is not pinned may come from every node.
pub proof fn law_unpinned_memory_may_come_from_every_node(m: MemoryManager)
    ensures
        m.numa_nodes@.len() == 0 ==> m.all_nodes() == "0"@,
        m.numa_nodes@.len() == 1 ==> m.all_nodes() == dec(m.numa_nodes@[0].id as nat),
        m.numa_nodes@.len() == 2 ==> m.all_nodes() == dec(m.numa_nodes@[0].id as nat) + ","@ + dec(
            m.numa_nodes@[1].id as nat,
        ),
{
    if m.numa_nodes@.len() == 1 {
        law_node_lists_hold_the_numbers(Seq::empty(), m.numa_nodes@[0].id);
        assert(node_ids(m.numa_nodes@) =~= seq![m.numa_nodes@[0].id]);
    }
    if m.numa_nodes@.len() == 2 {
        let first = seq![m.numa_nodes@[0].id];
        law_node_lists_hold_the_numbers(first, m.numa_nodes@[0].id);
        law_node_lists_hold_the_numbers(first, m.numa_nodes@[1].id);
        assert(node_ids(m.numa_nodes@) =~= first.push(m.numa_nodes@[1].id));
    }
}

/// A machine on which no node can be told is taken as one node; where the
/// directory of nodes cannot be read there is none; else the nodes come in the
/// order of their numbers.
pub proof fn law_machine_has_its_nodes(
    dirs: NumaDirs,
    meminfo: Option<String>,
    parallelism: Option<u32>,
    r: Seq<NumaNode>,
    i: int,
    j: int,
)
    requires
        numa_nodes_are(dirs, meminfo, parallelism, r),
    ensures
        dirs is Absent ==> r.len() == 1 && r[0].id == 0,
        dirs is Unreadable ==> r.len() == 0,
        0 <= i < j < r.len() ==> r[i].id <= r[j].id,
{
    if let NumaDirs::Found(v) = dirs {
        if !no_numa_node(v@) && 0 <= i < j < r.len() {
            let (nodes, order) = choose|nodes: Seq<NumaNode>, order: Seq<usize>|
                kept(v@, nodes, numa_rel()) && #[trigger] by_id(nodes, order, r);
            law_nodes_are_in_order(nodes, order, r, i, j);
        }
    }
}

/// The memory of a node is the fourth word of the line that names it.
pub proof fn law_node_memory_is_the_fourth_word(
    line: Seq<char>,
    rest: Seq<Seq<char>>,
    key: Seq<char>,
    n: nat,
)
    requires
        n <= u64::MAX,
    ensures
        contains_text(line, key) && word_at(line, 3) == Some(dec(n)) ==> numa_kib_of(
            seq![line] + rest,
            key,
        ) == Some(n),
        !contains_text(line, key) ==> numa_kib_of(seq![line] + rest, key) == numa_kib_of(rest, key),
{
    let lines = seq![line] + rest;
    assert(lines[0] == line);
    assert(lines.skip(1) =~= rest);
    lemma_dec_suffixed(n, Seq::empty());
    assert(dec(n) + Seq::<char>::empty() =~= dec(n));
}

/// The one node of a machine has all of its memory and its processors, and the
/// usual amounts where they cannot be read.
pub proof fn law_single_node_has_the_whole_machine(
    meminfo: Option<String>,
    parallelism: Option<u32>,
    n: NumaNode,
    i: int,
)
    requires
        single_node_is(meminfo, parallelism, n),
    ensures
        n.id == 0,
        meminfo matches Some(s) ==> (meminfo_kib_of(s@, "MemTotal:"@) matches Some(k)
            ==> n.total_bytes == k * 1024),
        meminfo matches Some(s) ==> (meminfo_kib_of(s@, "MemAvailable:"@) matches Some(k)
            ==> n.free_bytes == k * 1024),
        meminfo is None ==> n.total_bytes == 8 * 1024 * 1024 * 1024 && n.free_bytes == 4 * 1024
            * 1024 * 1024,
        parallelism matches Some(p) ==> n.cpus@.len() == p,
        parallelism is None ==> n.cpus@.len() == 1,
        0 <= i < n.cpus@.len() ==> n.cpus@[i] == i,
{
}

/// Directories of which none is of a node are as none at all.
pub proof fn law_machine_without_node_directories_is_one_node(
    dirs: Vec<NumaDir>,
    meminfo: Option<String>,
    parallelism: Option<u32>,
    r: Seq<NumaNode>,
)
    requires
        numa_nodes_are(NumaDirs::Found(dirs), meminfo, parallelism, r),
        no_numa_node(dirs@),
    ensures
        r.len() == 1,
        r[0].id == 0,
{
}

/// What is moved between assignments stays on its node: the nodes, their sizes
/// and their processors do not change.
pub proof fn law_nodes_stay_what_they_are(a: MemoryManager, b: MemoryManager, i: int)
    requires
        conserved(a, b),
        0 <= i < a.numa_nodes@.len(),
    ensures
        b.numa_nodes@.len() == a.numa_nodes@.len(),
        b.numa_nodes@[i].id == a.numa_nodes@[i].id,
        b.numa_nodes@[i].total_bytes == a.numa_nodes@[i].total_bytes,
        b.numa_nodes@[i].cpus == a.numa_nodes@[i].cpus,
        accounted(b, i) == accounted(a, i),
{
    assert(b.numa_nodes@[i].id == a.numa_nodes@[i].id);
}

} // verus!
