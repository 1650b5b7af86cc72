//! Node-local admission of pods.
//!
//! A pod is admitted where it fits what is left of the node, does not ask for
//! a host port that is taken, and meets what the node demands.
use crate::strmap::{distinct_keys, lemma_map_of_dom, lemma_map_of_value, lookup, StrMap};
use crate::text::{
    cat2, cat3, cat5, debug_quoted, debug_text, dec, decimal, has_suffix, holds,
    lemma_dec_suffixed, lemma_other_suffix, natural_upto, opt_equal, opt_text, parse_u64, same, strip_suffix, texts, trim, trimmed,
};
use crate::types::{
    ContainerPort, ContainerSpec, PodSpec, Protocol, ResourceClaimRef,
    Toleration, TolerationOperator,
};
use std::collections::HashMap;
use vstd::prelude::*;

verus! {

broadcast use vstd::std_specs::hash::group_hash_axioms;

// ---------------------------------------------------------------------------
// Amounts
// ---------------------------------------------------------------------------

/// A requested amount: nothing where none is requested or where it is
/// negative.
pub open spec fn amount(v: Option<i64>) -> nat {
    match v {
        Some(n) => if n < 0 {
            0
        } else {
            n as nat
        },
        None => 0,
    }
}

/// The requested CPU in thousandths of a core.
pub fn parse_cpu_millis(s: Option<i64>) -> (r: u64)
    ensures
        r == amount(s),
{
    match s {
        Some(v) => if v < 0 {
            0
        } else {
            v as u64
        },
        None => 0,
    }
}

/// The requested memory in bytes.
pub fn parse_memory_bytes(s: Option<i64>) -> (r: u64)
    ensures
        r == amount(s),
{
    match s {
        Some(v) => if v < 0 {
            0
        } else {
            v as u64
        },
        None => 0,
    }
}

/// What a container requests of the resource `key`.
pub open spec fn request(c: ContainerSpec, key: Seq<char>) -> nat {
    match lookup(c.resources.requests@, key) {
        Some(q) => amount(Some(q.value)),
        None => 0,
    }
}

/// What the containers request of the resource `key`, together.
pub open spec fn total_request(cs: Seq<ContainerSpec>, key: Seq<char>) -> nat
    decreases cs.len(),
{
    if cs.len() == 0 {
        0
    } else {
        total_request(cs.drop_last(), key) + request(cs.last(), key)
    }
}

/// The containers of a pod that count: the regular ones and those that run
/// before them.
pub open spec fn all_containers(pod: PodSpec) -> Seq<ContainerSpec> {
    pod.containers@ + pod.init_containers@
}

/// The CPU that a pod requests, in thousandths of a core.
pub open spec fn pod_cpu(pod: PodSpec) -> nat {
    total_request(all_containers(pod), "cpu"@)
}

/// The memory that a pod requests, in bytes.
pub open spec fn pod_memory(pod: PodSpec) -> nat {
    total_request(all_containers(pod), "memory"@)
}

proof fn lemma_total_request_mono(cs: Seq<ContainerSpec>, key: Seq<char>, i: int)
    requires
        0 <= i <= cs.len(),
    ensures
        total_request(cs.take(i), key) <= total_request(cs, key),
    decreases cs.len() - i,
{
    if i == cs.len() {
        assert(cs.take(i) =~= cs);
    } else {
        lemma_total_request_mono(cs, key, i + 1);
        assert(cs.take(i + 1).drop_last() =~= cs.take(i));
    }
}

fn container_at(pod: &PodSpec, i: usize) -> (c: &ContainerSpec)
    requires
        i < all_containers(*pod).len(),
    ensures
        *c == all_containers(*pod)[i as int],
{
    if i < pod.containers.len() {
        &pod.containers[i]
    } else {
        &pod.init_containers[i - pod.containers.len()]
    }
}

fn container_count(pod: &PodSpec) -> (n: usize)
    requires
        all_containers(*pod).len() <= usize::MAX,
    ensures
        n == all_containers(*pod).len(),
{
    pod.containers.len() + pod.init_containers.len()
}

fn request_of(c: &ContainerSpec, key: &str) -> (r: u64)
    ensures
        r == request(*c, key@),
{
    match c.resources.requests.get(key) {
        Some(q) => parse_cpu_millis(Some(q.value)),
        None => 0,
    }
}

fn sum_requests(pod: &PodSpec, key: &str) -> (r: u64)
    requires
        all_containers(*pod).len() <= usize::MAX,
        total_request(all_containers(*pod), key@) <= u64::MAX,
    ensures
        r == total_request(all_containers(*pod), key@),
{
    let n: usize = container_count(pod);
    let ghost cs = all_containers(*pod);
    let mut r: u64 = 0;
    let mut i: usize = 0;
    while i < n
        invariant
            i <= n == cs.len(),
            cs == all_containers(*pod),
            total_request(cs, key@) <= u64::MAX,
            r == total_request(cs.take(i as int), key@),
        decreases n - i,
    {
        proof {
            lemma_total_request_mono(cs, key@, i + 1);
            assert(cs.take(i + 1).drop_last() =~= cs.take(i as int));
        }
        r = r + request_of(container_at(pod, i), key);
        i = i + 1;
    }
    assert(cs.take(i as int) =~= cs);
    r
}

/// The CPU that a pod requests, in thousandths of a core.
pub fn pod_cpu_millis(pod: &PodSpec) -> (r: u64)
    requires
        all_containers(*pod).len() <= usize::MAX,
        pod_cpu(*pod) <= u64::MAX,
    ensures
        r == pod_cpu(*pod),
{
    sum_requests(pod, "cpu")
}

/// The memory that a pod requests, in bytes.
pub fn pod_memory_bytes(pod: &PodSpec) -> (r: u64)
    requires
        all_containers(*pod).len() <= usize::MAX,
        pod_memory(*pod) <= u64::MAX,
    ensures
        r == pod_memory(*pod),
{
    sum_requests(pod, "memory")
}

// ---------------------------------------------------------------------------
// Overhead of the runtime
// ---------------------------------------------------------------------------

/// The number that a text denotes, or zero.
pub open spec fn number_or_zero(s: Seq<char>) -> nat {
    match natural_upto(s, u64::MAX as int) {
        Some(n) => n,
        None => 0,
    }
}

/// The 64-bit number nearest to `n`.
pub open spec fn at_most_u64(n: nat) -> nat {
    if n > u64::MAX {
        u64::MAX as nat
    } else {
        n
    }
}

/// The CPU overhead that a text denotes, in thousandths of a core: with the
/// suffix `m` as it stands, else in whole cores.
pub open spec fn cpu_overhead(v: Option<Seq<char>>) -> nat {
    match v {
        Some(t) => {
            let s = trimmed(t);
            if has_suffix(s, "m"@) {
                number_or_zero(s.take(s.len() - 1))
            } else {
                at_most_u64(number_or_zero(s) * 1000)
            }
        },
        None => 0,
    }
}

/// The memory overhead that a text denotes, in bytes, with an optional binary
/// suffix.
pub open spec fn memory_overhead(v: Option<Seq<char>>) -> nat {
    match v {
        Some(t) => {
            let s = trimmed(t);
            if has_suffix(s, "Ki"@) {
                at_most_u64(number_or_zero(s.take(s.len() - 2)) * 1024)
            } else if has_suffix(s, "Mi"@) {
                at_most_u64(number_or_zero(s.take(s.len() - 2)) * 1048576)
            } else if has_suffix(s, "Gi"@) {
                at_most_u64(number_or_zero(s.take(s.len() - 2)) * 1073741824)
            } else {
                number_or_zero(s)
            }
        },
        None => 0,
    }
}

fn parse_or_zero(s: &str) -> (r: u64)
    ensures
        r == number_or_zero(s@),
{
    match parse_u64(s) {
        Some(n) => n,
        None => 0,
    }
}

fn times_at_most(a: u64, b: u64) -> (r: u64)
    ensures
        r == at_most_u64((a * b) as nat),
{
    assert(0 <= a * b <= 0xffff_ffff_ffff_ffff * 0xffff_ffff_ffff_ffff) by (nonlinear_arith)
        requires
            0 <= a <= 0xffff_ffff_ffff_ffff,
            0 <= b <= 0xffff_ffff_ffff_ffff,
    ;
    let p: u128 = a as u128 * b as u128;
    if p > u64::MAX as u128 {
        u64::MAX
    } else {
        p as u64
    }
}

/// The text behind an optional reference.
pub open spec fn ref_text(v: Option<&String>) -> Option<Seq<char>> {
    match v {
        Some(s) => Some(s@),
        None => None,
    }
}

/// Reads a CPU overhead.
pub fn parse_cpu_overhead_millis(v: Option<&String>) -> (r: u64)
    ensures
        r == cpu_overhead(ref_text(v)),
{
    proof {
        reveal_strlit("m");
        assert("m"@.len() == 1);
    }
    match v {
        Some(t) => {
            let s = trim(t.as_str());
            if let Some(m) = strip_suffix(s, "m") {
                return parse_or_zero(m);
            }
            times_at_most(parse_or_zero(s), 1000)
        },
        None => 0,
    }
}

/// Reads a memory overhead.
pub fn parse_memory_overhead_bytes(v: Option<&String>) -> (r: u64)
    ensures
        r == memory_overhead(ref_text(v)),
{
    proof {
        reveal_strlit("Ki");
        reveal_strlit("Mi");
        reveal_strlit("Gi");
        assert("Ki"@.len() == 2);
        assert("Mi"@.len() == 2);
        assert("Gi"@.len() == 2);
    }
    match v {
        Some(t) => {
            let s = trim(t.as_str());
            if let Some(x) = strip_suffix(s, "Ki") {
                return times_at_most(parse_or_zero(x), 1024);
            }
            if let Some(x) = strip_suffix(s, "Mi") {
                return times_at_most(parse_or_zero(x), 1048576);
            }
            if let Some(x) = strip_suffix(s, "Gi") {
                return times_at_most(parse_or_zero(x), 1073741824);
            }
            parse_or_zero(s)
        },
        None => 0,
    }
}

/// The overheads of the runtime classes: for each class the amounts by
/// resource.
pub type RuntimeOverheads = StrMap<StrMap<String>>;

/// The overhead of the resource `key` for a runtime class.
pub open spec fn overhead_text(
    class: Option<String>,
    overheads: Map<Seq<char>, StrMap<String>>,
    key: Seq<char>,
) -> Option<Seq<char>> {
    match class {
        Some(rc) => match lookup(overheads, rc@) {
            Some(m) => match lookup(m@, key) {
                Some(s) => Some(s@),
                None => None,
            },
            None => None,
        },
        None => None,
    }
}

pub open spec fn pod_cpu_overhead(pod: PodSpec, overheads: Map<Seq<char>, StrMap<String>>) -> nat {
    cpu_overhead(overhead_text(pod.runtime_class_name, overheads, "cpu"@))
}

pub open spec fn pod_memory_overhead(
    pod: PodSpec,
    overheads: Map<Seq<char>, StrMap<String>>,
) -> nat {
    memory_overhead(overhead_text(pod.runtime_class_name, overheads, "memory"@))
}

/// The overhead of the resource `key` that the pod's runtime class brings.
fn pod_runtime_overhead<'a>(pod: &PodSpec, overheads: &'a RuntimeOverheads, key: &str) -> (r:
    Option<&'a String>)
    ensures
        ref_text(r) == overhead_text(pod.runtime_class_name, overheads@, key@),
{
    match &pod.runtime_class_name {
        Some(rc) => match overheads.get(rc.as_str()) {
            Some(m) => m.get(key),
            None => None,
        },
        None => None,
    }
}

fn overhead_cpu(pod: &PodSpec, overheads: &RuntimeOverheads) -> (r: u64)
    ensures
        r == pod_cpu_overhead(*pod, overheads@),
{
    parse_cpu_overhead_millis(pod_runtime_overhead(pod, overheads, "cpu"))
}

fn overhead_memory(pod: &PodSpec, overheads: &RuntimeOverheads) -> (r: u64)
    ensures
        r == pod_memory_overhead(*pod, overheads@),
{
    parse_memory_overhead_bytes(pod_runtime_overhead(pod, overheads, "memory"))
}

// ---------------------------------------------------------------------------
// Host ports
// ---------------------------------------------------------------------------

pub open spec fn protocol_text(p: Protocol) -> Seq<char> {
    match p {
        Protocol::TCP => "TCP"@,
        Protocol::UDP => "UDP"@,
        Protocol::SCTP => "SCTP"@,
    }
}

fn protocol_name(p: Protocol) -> (r: &'static str)
    ensures
        r@ == protocol_text(p),
{
    match p {
        Protocol::TCP => "TCP",
        Protocol::UDP => "UDP",
        Protocol::SCTP => "SCTP",
    }
}

/// The number under which a host port of a protocol is kept. Different ports
/// and protocols have different numbers.
pub open spec fn port_code(port: u16, protocol: Protocol) -> u32 {
    (4 * port + match protocol {
        Protocol::TCP => 0int,
        Protocol::UDP => 1int,
        Protocol::SCTP => 2int,
    }) as u32
}

fn code_of(port: u16, protocol: Protocol) -> (r: u32)
    ensures
        r == port_code(port, protocol),
{
    let k: u32 = match protocol {
        Protocol::TCP => 0,
        Protocol::UDP => 1,
        Protocol::SCTP => 2,
    };
    4 * (port as u32) + k
}

/// Host ports are told apart by their number and their protocol.
pub proof fn law_host_ports_are_told_apart(p: u16, a: Protocol, q: u16, b: Protocol)
    ensures
        port_code(p, a) == port_code(q, b) <==> p == q && a == b,
{
}

/// The host ports among the ports of a container, in order.
pub open spec fn ports_of(ports: Seq<ContainerPort>) -> Seq<(u16, Protocol)>
    decreases ports.len(),
{
    if ports.len() == 0 {
        Seq::empty()
    } else {
        match ports.last().host_port {
            Some(h) => ports_of(ports.drop_last()).push((h, ports.last().protocol)),
            None => ports_of(ports.drop_last()),
        }
    }
}

/// The host ports of the containers, in order.
pub open spec fn host_ports_of(cs: Seq<ContainerSpec>) -> Seq<(u16, Protocol)>
    decreases cs.len(),
{
    if cs.len() == 0 {
        Seq::empty()
    } else {
        host_ports_of(cs.drop_last()) + ports_of(cs.last().ports@)
    }
}

/// Whether a host port with the number `code` is among `ports`.
pub open spec fn takes_code(ports: Seq<(u16, Protocol)>, code: u32) -> bool {
    exists|i: int|
        0 <= i < ports.len() && port_code((#[trigger] ports[i]).0, ports[i].1) == code
}

fn push_ports(out: &mut Vec<(u16, Protocol)>, ports: &Vec<ContainerPort>)
    ensures
        final(out)@ == old(out)@ + ports_of(ports@),
{
    let mut i: usize = 0;
    assert(out@ + ports_of(ports@.take(0)) =~= out@);
    while i < ports.len()
        invariant
            i <= ports@.len(),
            out@ == old(out)@ + ports_of(ports@.take(i as int)),
        decreases ports@.len() - i,
    {
        assert(ports@.take(i + 1).drop_last() =~= ports@.take(i as int));
        assert(ports@.take(i + 1).last() == ports@[i as int]);
        if let Some(h) = ports[i].host_port {
            out.push((h, ports[i].protocol));
            assert(out@ =~= old(out)@ + ports_of(ports@.take(i + 1)));
        }
        i = i + 1;
    }
    assert(ports@.take(i as int) =~= ports@);
}

/// The host ports that a pod asks for.
fn pod_host_ports(pod: &PodSpec) -> (r: Vec<(u16, Protocol)>)
    requires
        all_containers(*pod).len() <= usize::MAX,
    ensures
        r@ == host_ports_of(all_containers(*pod)),
{
    let n: usize = container_count(pod);
    let ghost cs = all_containers(*pod);
    let mut r: Vec<(u16, Protocol)> = Vec::new();
    let mut i: usize = 0;
    while i < n
        invariant
            i <= n == cs.len(),
            cs == all_containers(*pod),
            r@ == host_ports_of(cs.take(i as int)),
        decreases n - i,
    {
        assert(cs.take(i + 1).drop_last() =~= cs.take(i as int));
        push_ports(&mut r, &container_at(pod, i).ports);
        i = i + 1;
    }
    assert(cs.take(i as int) =~= cs);
    r
}

// ---------------------------------------------------------------------------
// Usage
// ---------------------------------------------------------------------------

/// What the pods of the node use. Host ports are kept by their number, with
/// the identifier of the pod that has them.
#[derive(Debug)]
pub struct ResourceUsage {
    pub cpu_millicores: u64,
    pub memory_bytes: u64,
    pub overhead_cpu_millicores: u64,
    pub overhead_memory_bytes: u64,
    pub pod_count: u32,
    pub host_ports: HashMap<u32, String>,
}

impl Default for ResourceUsage {
    fn default() -> (r: Self)
        ensures
            r.cpu_millicores == 0,
            r.memory_bytes == 0,
            r.overhead_cpu_millicores == 0,
            r.overhead_memory_bytes == 0,
            r.pod_count == 0,
            r.host_ports@ == Map::<u32, String>::empty(),
    {
        ResourceUsage {
            cpu_millicores: 0,
            memory_bytes: 0,
            overhead_cpu_millicores: 0,
            overhead_memory_bytes: 0,
            pod_count: 0,
            host_ports: HashMap::new(),
        }
    }
}

/// The usage with the pod's share added.
pub open spec fn with_pod(
    u: ResourceUsage,
    pod: PodSpec,
    overheads: Map<Seq<char>, StrMap<String>>,
    r: ResourceUsage,
) -> bool {
    let ports = host_ports_of(all_containers(pod));
    &&& r.pod_count == u.pod_count + 1
    &&& r.cpu_millicores == u.cpu_millicores + pod_cpu(pod)
    &&& r.memory_bytes == u.memory_bytes + pod_memory(pod)
    &&& r.overhead_cpu_millicores == u.overhead_cpu_millicores + pod_cpu_overhead(pod, overheads)
    &&& r.overhead_memory_bytes == u.overhead_memory_bytes + pod_memory_overhead(pod, overheads)
    &&& forall|k: u32| #[trigger]
        r.host_ports@.contains_key(k) <==> u.host_ports@.contains_key(k) || takes_code(ports, k)
    &&& forall|k: u32| #[trigger]
        r.host_ports@.contains_key(k) ==> r.host_ports@[k] == if takes_code(ports, k) {
            pod.uid.0
        } else {
            u.host_ports@[k]
        }
}

/// `a` less `b`, but not below zero.
pub open spec fn less(a: int, b: int) -> int {
    if a >= b {
        a - b
    } else {
        0
    }
}

/// The usage with the pod's share taken away, nothing falling below zero.
pub open spec fn without_pod(
    u: ResourceUsage,
    pod: PodSpec,
    overheads: Map<Seq<char>, StrMap<String>>,
    r: ResourceUsage,
) -> bool {
    let ports = host_ports_of(all_containers(pod));
    &&& r.pod_count == less(u.pod_count as int, 1)
    &&& r.cpu_millicores == less(u.cpu_millicores as int, pod_cpu(pod) as int)
    &&& r.memory_bytes == less(u.memory_bytes as int, pod_memory(pod) as int)
    &&& r.overhead_cpu_millicores == less(
        u.overhead_cpu_millicores as int,
        pod_cpu_overhead(pod, overheads) as int,
    )
    &&& r.overhead_memory_bytes == less(
        u.overhead_memory_bytes as int,
        pod_memory_overhead(pod, overheads) as int,
    )
    &&& forall|k: u32| #[trigger]
        r.host_ports@.contains_key(k) <==> u.host_ports@.contains_key(k) && !takes_code(ports, k)
    &&& forall|k: u32| #[trigger]
        r.host_ports@.contains_key(k) ==> r.host_ports@[k] == u.host_ports@[k]
}

/// What is left of `start` after the requests of the pod's containers are
/// taken away one after the other.
fn deduct_requests(pod: &PodSpec, key: &str, start: u64) -> (r: u64)
    requires
        all_containers(*pod).len() <= usize::MAX,
    ensures
        r == less(start as int, total_request(all_containers(*pod), key@) as int),
{
    let n: usize = container_count(pod);
    let ghost cs = all_containers(*pod);
    let mut r: u64 = start;
    let mut i: usize = 0;
    while i < n
        invariant
            i <= n == cs.len(),
            cs == all_containers(*pod),
            r == less(start as int, total_request(cs.take(i as int), key@) as int),
        decreases n - i,
    {
        assert(cs.take(i + 1).drop_last() =~= cs.take(i as int));
        r = r.saturating_sub(request_of(container_at(pod, i), key));
        i = i + 1;
    }
    assert(cs.take(i as int) =~= cs);
    r
}

impl ResourceUsage {
    /// Notes that the pod `uid` has a host port.
    pub fn reserve_port(&mut self, port: u16, protocol: Protocol, uid: String)
        ensures
            final(self).host_ports@ == old(self).host_ports@.insert(
                port_code(port, protocol),
                uid,
            ),
            final(self).cpu_millicores == old(self).cpu_millicores,
            final(self).memory_bytes == old(self).memory_bytes,
            final(self).overhead_cpu_millicores == old(self).overhead_cpu_millicores,
            final(self).overhead_memory_bytes == old(self).overhead_memory_bytes,
            final(self).pod_count == old(self).pod_count,
    {
        self.host_ports.insert(code_of(port, protocol), uid);
    }

    /// Adds the share of a pod without runtime overhead.
    pub fn add_pod(&mut self, pod: &PodSpec)
        requires
            all_containers(*pod).len() <= usize::MAX,
            old(self).pod_count < u32::MAX,
            old(self).cpu_millicores + pod_cpu(*pod) <= u64::MAX,
            old(self).memory_bytes + pod_memory(*pod) <= u64::MAX,
        ensures
            with_pod(
                *old(self),
                *pod,
                Map::<Seq<char>, StrMap<String>>::empty(),
                *final(self),
            ),
    {
        let none: RuntimeOverheads = StrMap::new();
        self.add_pod_with_overhead(pod, &none);
    }

    /// Adds the share of a pod.
    pub fn add_pod_with_overhead(&mut self, pod: &PodSpec, runtime_overheads: &RuntimeOverheads)
        requires
            all_containers(*pod).len() <= usize::MAX,
            old(self).pod_count < u32::MAX,
            old(self).cpu_millicores + pod_cpu(*pod) <= u64::MAX,
            old(self).memory_bytes + pod_memory(*pod) <= u64::MAX,
            old(self).overhead_cpu_millicores + pod_cpu_overhead(*pod, runtime_overheads@)
                <= u64::MAX,
            old(self).overhead_memory_bytes + pod_memory_overhead(*pod, runtime_overheads@)
                <= u64::MAX,
        ensures
            with_pod(*old(self), *pod, runtime_overheads@, *final(self)),
    {
        self.pod_count = self.pod_count + 1;
        self.cpu_millicores = self.cpu_millicores + pod_cpu_millis(pod);
        self.memory_bytes = self.memory_bytes + pod_memory_bytes(pod);
        let ports = pod_host_ports(pod);
        let ghost before = self.host_ports@;
        let mut i: usize = 0;
        while i < ports.len()
            invariant
                i <= ports@.len(),
                self.pod_count == old(self).pod_count + 1,
                self.cpu_millicores == old(self).cpu_millicores + pod_cpu(*pod),
                self.memory_bytes == old(self).memory_bytes + pod_memory(*pod),
                self.overhead_cpu_millicores == old(self).overhead_cpu_millicores,
                self.overhead_memory_bytes == old(self).overhead_memory_bytes,
                before == old(self).host_ports@,
                forall|k: u32| #[trigger]
                    self.host_ports@.contains_key(k) <==> before.contains_key(k) || takes_code(
                        ports@.take(i as int),
                        k,
                    ),
                forall|k: u32| #[trigger]
                    self.host_ports@.contains_key(k) ==> self.host_ports@[k] == if takes_code(
                        ports@.take(i as int),
                        k,
                    ) {
                        pod.uid.0
                    } else {
                        before[k]
                    },
            decreases ports@.len() - i,
        {
            let code: u32 = code_of(ports[i].0, ports[i].1);
            self.host_ports.insert(code, pod.uid.0.clone());
            proof {
                lemma_takes_code_step(ports@, i as int);
            }
            i = i + 1;
        }
        assert(ports@.take(i as int) =~= ports@);
        self.overhead_cpu_millicores = self.overhead_cpu_millicores + overhead_cpu(
            pod,
            runtime_overheads,
        );
        self.overhead_memory_bytes = self.overhead_memory_bytes + overhead_memory(
            pod,
            runtime_overheads,
        );
    }

    /// Takes the share of a pod without runtime overhead away.
    pub fn remove_pod(&mut self, pod: &PodSpec)
        requires
            all_containers(*pod).len() <= usize::MAX,
        ensures
            without_pod(
                *old(self),
                *pod,
                Map::<Seq<char>, StrMap<String>>::empty(),
                *final(self),
            ),
    {
        let none: RuntimeOverheads = StrMap::new();
        self.remove_pod_with_overhead(pod, &none);
    }

    /// Takes the share of a pod away.
    pub fn remove_pod_with_overhead(&mut self, pod: &PodSpec, runtime_overheads: &RuntimeOverheads)
        requires
            all_containers(*pod).len() <= usize::MAX,
        ensures
            without_pod(*old(self), *pod, runtime_overheads@, *final(self)),
    {
        self.pod_count = self.pod_count.saturating_sub(1);
        self.cpu_millicores = deduct_requests(pod, "cpu", self.cpu_millicores);
        self.memory_bytes = deduct_requests(pod, "memory", self.memory_bytes);
        let ports = pod_host_ports(pod);
        let ghost before = self.host_ports@;
        let ghost counts = *self;
        let mut i: usize = 0;
        while i < ports.len()
            invariant
                i <= ports@.len(),
                self.pod_count == counts.pod_count,
                self.cpu_millicores == counts.cpu_millicores,
                self.memory_bytes == counts.memory_bytes,
                self.overhead_cpu_millicores == old(self).overhead_cpu_millicores,
                self.overhead_memory_bytes == old(self).overhead_memory_bytes,
                before == old(self).host_ports@,
                forall|k: u32| #[trigger]
                    self.host_ports@.contains_key(k) <==> before.contains_key(k) && !takes_code(
                        ports@.take(i as int),
                        k,
                    ),
                forall|k: u32| #[trigger]
                    self.host_ports@.contains_key(k) ==> self.host_ports@[k] == before[k],
            decreases ports@.len() - i,
        {
            let code: u32 = code_of(ports[i].0, ports[i].1);
            self.host_ports.remove(&code);
            proof {
                lemma_takes_code_step(ports@, i as int);
            }
            i = i + 1;
        }
        assert(ports@.take(i as int) =~= ports@);
        self.overhead_cpu_millicores = self.overhead_cpu_millicores.saturating_sub(
            overhead_cpu(pod, runtime_overheads),
        );
        self.overhead_memory_bytes = self.overhead_memory_bytes.saturating_sub(
            overhead_memory(pod, runtime_overheads),
        );
    }
}

proof fn lemma_takes_code_step(ports: Seq<(u16, Protocol)>, i: int)
    requires
        0 <= i < ports.len(),
    ensures
        forall|k: u32| #[trigger]
            takes_code(ports.take(i + 1), k) <==> takes_code(ports.take(i), k) || k == port_code(
                ports[i].0,
                ports[i].1,
            ),
{
    let a = ports.take(i);
    let b = ports.take(i + 1);
    assert forall|k: u32| #[trigger] takes_code(b, k) <==> takes_code(a, k) || k == port_code(
        ports[i].0,
        ports[i].1,
    ) by {
        if takes_code(a, k) {
            let j = choose|j: int|
                0 <= j < a.len() && port_code((#[trigger] a[j]).0, a[j].1) == k;
            assert(b[j] == a[j]);
        }
        if takes_code(b, k) {
            let j = choose|j: int|
                0 <= j < b.len() && port_code((#[trigger] b[j]).0, b[j].1) == k;
            if j < i {
                assert(a[j] == b[j]);
            }
        }
        assert(b[i] == ports[i]);
    }
}

// ---------------------------------------------------------------------------
// Admission
// ---------------------------------------------------------------------------

/// What the node has to give.
#[derive(Debug, Clone, Copy, PartialEq, Eq, Structural)]
pub struct NodeAllocatable {
    pub cpu_millicores: u64,
    pub memory_bytes: u64,
    pub max_pods: u32,
}

#[derive(Debug, Clone, Copy, PartialEq, Eq, Structural)]
pub enum TaintEffect {
    NoSchedule,
    PreferNoSchedule,
    NoExecute,
}

#[derive(Debug)]
pub struct NodeTaint {
    pub key: String,
    pub value: Option<String>,
    pub effect: TaintEffect,
}

/// The outcome of an admission.
#[derive(Debug)]
pub enum AdmissionResult {
    Admit,
    Reject(String),
}

/// Decides which pods the node takes.
#[derive(Debug)]
pub struct AdmissionController {
    pub allocatable: NodeAllocatable,
    pub node_labels: StrMap<String>,
    pub node_taints: Vec<NodeTaint>,
}

pub open spec fn effect_text(e: TaintEffect) -> Seq<char> {
    match e {
        TaintEffect::NoSchedule => "NoSchedule"@,
        TaintEffect::PreferNoSchedule => "PreferNoSchedule"@,
        TaintEffect::NoExecute => "NoExecute"@,
    }
}

/// Whether one toleration covers a taint: its key is the taint's or any, and
/// it asks for the taint's value or for none.
pub open spec fn covers(t: Toleration, taint: NodeTaint) -> bool {
    &&& match t.key {
        Some(k) => k@ == taint.key@,
        None => true,
    }
    &&& match t.operator {
        TolerationOperator::Exists => true,
        TolerationOperator::Equal => opt_text(t.value) == opt_text(taint.value),
    }
}

/// Whether some toleration of the pod covers the taint.
pub open spec fn tolerates(pod: PodSpec, taint: NodeTaint) -> bool {
    exists|i: int|
        0 <= i < pod.tolerations@.len() && covers(#[trigger] pod.tolerations@[i], taint)
}

/// Whether the pod tolerates the taint.
pub fn pod_tolerates_taint(pod: &PodSpec, taint: &NodeTaint) -> (r: bool)
    ensures
        r == tolerates(*pod, *taint),
        (exists|i: int|
            0 <= i < pod.tolerations@.len() && (#[trigger] pod.tolerations@[i]).operator is Exists && (
            pod.tolerations@[i].key is None || pod.tolerations@[i].key->0@ == taint.key@)) ==> r,
        (exists|i: int|
            0 <= i < pod.tolerations@.len() && (#[trigger] pod.tolerations@[i]).operator is Equal && (
            pod.tolerations@[i].key is None || pod.tolerations@[i].key->0@ == taint.key@)
                && opt_text(pod.tolerations@[i].value) == opt_text(taint.value)) ==> r,
        r ==> exists|i: int|
            0 <= i < pod.tolerations@.len() && ((#[trigger] pod.tolerations@[i]).key is None
                || pod.tolerations@[i].key->0@ == taint.key@) && (
            pod.tolerations@[i].operator is Exists || opt_text(pod.tolerations@[i].value)
                == opt_text(taint.value)),
{
    let mut i: usize = 0;
    while i < pod.tolerations.len()
        invariant
            i <= pod.tolerations@.len(),
            forall|j: int| 0 <= j < i ==> !covers(#[trigger] pod.tolerations@[j], *taint),
        decreases pod.tolerations@.len() - i,
    {
        let t = &pod.tolerations[i];
        let key_match = match &t.key {
            Some(k) => same(k.as_str(), taint.key.as_str()),
            None => true,
        };
        let value_match = match t.operator {
            TolerationOperator::Exists => true,
            TolerationOperator::Equal => opt_equal(&t.value, &taint.value),
        };
        if key_match && value_match {
            assert(covers(pod.tolerations@[i as int], *taint));
            return true;
        }
        i = i + 1;
    }
    false
}

/// The first host port of the pod that another pod has.
pub open spec fn port_conflict(
    ports: Seq<(u16, Protocol)>,
    used: Map<u32, String>,
) -> Option<Seq<char>>
    decreases ports.len(),
{
    if ports.len() == 0 {
        None
    } else if used.contains_key(port_code(ports[0].0, ports[0].1)) {
        Some(
            "port conflict: hostPort "@ + dec(ports[0].0 as nat) + "/"@ + protocol_text(ports[0].1)
                + " already in use by pod "@ + used[port_code(ports[0].0, ports[0].1)]@,
        )
    } else {
        port_conflict(ports.skip(1), used)
    }
}

/// The first label that the pod selects and the node does not have.
pub open spec fn selector_mismatch(
    pairs: Seq<(Seq<char>, String)>,
    labels: Map<Seq<char>, String>,
) -> Option<Seq<char>>
    decreases pairs.len(),
{
    if pairs.len() == 0 {
        None
    } else if !(labels.contains_key(pairs[0].0) && labels[pairs[0].0]@ == pairs[0].1@) {
        Some(
            "node selector mismatch: '"@ + pairs[0].0 + "="@ + pairs[0].1@ + "' not on node"@,
        )
    } else {
        selector_mismatch(pairs.skip(1), labels)
    }
}

pub open spec fn debug_option(v: Option<String>) -> Seq<char> {
    match v {
        Some(s) => "Some("@ + debug_quoted(s@) + ")"@,
        None => "None"@,
    }
}

/// The first taint that keeps pods away and that the pod does not tolerate.
pub open spec fn untolerated(taints: Seq<NodeTaint>, pod: PodSpec) -> Option<Seq<char>>
    decreases taints.len(),
{
    if taints.len() == 0 {
        None
    } else if (taints[0].effect == TaintEffect::NoSchedule || taints[0].effect
        == TaintEffect::NoExecute) && !tolerates(pod, taints[0]) {
        Some(
            "pod does not tolerate taint "@ + taints[0].key@ + "="@ + debug_option(taints[0].value)
                + ":"@ + effect_text(taints[0].effect),
        )
    } else {
        untolerated(taints.skip(1), pod)
    }
}

/// The first claim that is not allocated or not prepared.
pub open spec fn unready_claim(claims: Seq<ResourceClaimRef>) -> Option<Seq<char>>
    decreases claims.len(),
{
    if claims.len() == 0 {
        None
    } else if !claims[0].allocated {
        Some("resource claim '"@ + claims[0].name@ + "' is not allocated"@)
    } else if !claims[0].prepared {
        Some("resource claim '"@ + claims[0].name@ + "' is not prepared"@)
    } else {
        unready_claim(claims.skip(1))
    }
}

/// Whether the node may run one more pod.
pub open spec fn has_room(ctrl: AdmissionController, usage: ResourceUsage) -> bool {
    usage.pod_count < ctrl.allocatable.max_pods
}

/// Whether the node has the CPU that the pod asks for.
pub open spec fn has_cpu(
    ctrl: AdmissionController,
    pod: PodSpec,
    usage: ResourceUsage,
    overheads: Map<Seq<char>, StrMap<String>>,
) -> bool {
    pod_cpu(pod) + pod_cpu_overhead(pod, overheads) <= less(
        ctrl.allocatable.cpu_millicores as int,
        usage.cpu_millicores + usage.overhead_cpu_millicores,
    )
}

/// Why the node does not take the pod; nothing where it does. The checks are
/// made in a fixed order and the first that fails is told.
pub open spec fn rejection(
    ctrl: AdmissionController,
    pod: PodSpec,
    usage: ResourceUsage,
    classes: Seq<Seq<char>>,
    overheads: Map<Seq<char>, StrMap<String>>,
) -> Option<Seq<char>> {
    let cpu = pod_cpu(pod) + pod_cpu_overhead(pod, overheads);
    let cpu_left = less(
        ctrl.allocatable.cpu_millicores as int,
        usage.cpu_millicores + usage.overhead_cpu_millicores,
    );
    let memory = pod_memory(pod) + pod_memory_overhead(pod, overheads);
    let memory_left = less(
        ctrl.allocatable.memory_bytes as int,
        usage.memory_bytes + usage.overhead_memory_bytes,
    );
    if !has_room(ctrl, usage) {
        Some(
            "max pods exceeded: "@ + dec(usage.pod_count as nat) + " / "@ + dec(
                ctrl.allocatable.max_pods as nat,
            ),
        )
    } else if !has_cpu(ctrl, pod, usage, overheads) {
        Some(
            "insufficient CPU: requested "@ + dec(cpu) + "m, available "@ + dec(cpu_left as nat)
                + "m"@,
        )
    } else if memory > memory_left {
        Some(
            "insufficient memory: requested "@ + dec(memory) + " bytes, available "@ + dec(
                memory_left as nat,
            ) + " bytes"@,
        )
    } else if port_conflict(host_ports_of(all_containers(pod)), usage.host_ports@) is Some {
        port_conflict(host_ports_of(all_containers(pod)), usage.host_ports@)
    } else if pod.runtime_class_name matches Some(rc) && !classes.contains(rc@) {
        Some("RuntimeClass '"@ + pod.runtime_class_name->0@ + "' not available on this node"@)
    } else if selector_mismatch(pod.node_selector.pairs(), ctrl.node_labels@) is Some {
        selector_mismatch(pod.node_selector.pairs(), ctrl.node_labels@)
    } else if untolerated(ctrl.node_taints@, pod) is Some {
        untolerated(ctrl.node_taints@, pod)
    } else {
        unready_claim(pod.resource_claims@)
    }
}

fn check_ports(pod: &PodSpec, usage: &ResourceUsage) -> (r: Option<String>)
    requires
        all_containers(*pod).len() <= usize::MAX,
    ensures
        opt_text(r) == port_conflict(host_ports_of(all_containers(*pod)), usage.host_ports@),
{
    let ports = pod_host_ports(pod);
    let mut i: usize = 0;
    assert(ports@.skip(0) =~= ports@);
    while i < ports.len()
        invariant
            i <= ports@.len(),
            ports@ == host_ports_of(all_containers(*pod)),
            port_conflict(ports@, usage.host_ports@) == port_conflict(
                ports@.skip(i as int),
                usage.host_ports@,
            ),
        decreases ports@.len() - i,
    {
        assert(ports@.skip(i as int)[0] == ports@[i as int]);
        assert(ports@.skip(i as int).skip(1) =~= ports@.skip(i + 1));
        let (port, protocol): (u16, Protocol) = ports[i];
        let code: u32 = code_of(port, protocol);
        if let Some(uid) = usage.host_ports.get(&code) {
            let d = decimal(port as u64);
            let m = cat5(
                "port conflict: hostPort ",
                d.as_str(),
                "/",
                protocol_name(protocol),
                " already in use by pod ",
            );
            return Some(cat2(m.as_str(), uid.as_str()));
        }
        i = i + 1;
    }
    None
}

fn check_selector(pod: &PodSpec, labels: &StrMap<String>) -> (r: Option<String>)
    ensures
        opt_text(r) == selector_mismatch(pod.node_selector.pairs(), labels@),
{
    let n: usize = pod.node_selector.len();
    let ghost pairs = pod.node_selector.pairs();
    let mut i: usize = 0;
    assert(pairs.skip(0) =~= pairs);
    while i < n
        invariant
            i <= n == pairs.len(),
            pairs == pod.node_selector.pairs(),
            selector_mismatch(pairs, labels@) == selector_mismatch(pairs.skip(i as int), labels@),
        decreases n - i,
    {
        assert(pairs.skip(i as int)[0] == pairs[i as int]);
        assert(pairs.skip(i as int).skip(1) =~= pairs.skip(i + 1));
        let k = pod.node_selector.key_at(i);
        let v = pod.node_selector.value_at(i);
        let ok = match labels.get(k.as_str()) {
            Some(l) => same(l.as_str(), v.as_str()),
            None => false,
        };
        if !ok {
            return Some(
                cat5("node selector mismatch: '", k.as_str(), "=", v.as_str(), "' not on node"),
            );
        }
        i = i + 1;
    }
    None
}

fn debug_value(v: &Option<String>) -> (r: String)
    ensures
        r@ == debug_option(*v),
{
    match v {
        Some(s) => {
            let d = debug_text(s.as_str());
            cat3("Some(", d.as_str(), ")")
        },
        None => "None".to_owned(),
    }
}

fn check_taints(taints: &Vec<NodeTaint>, pod: &PodSpec) -> (r: Option<String>)
    ensures
        opt_text(r) == untolerated(taints@, *pod),
{
    let mut i: usize = 0;
    assert(taints@.skip(0) =~= taints@);
    while i < taints.len()
        invariant
            i <= taints@.len(),
            untolerated(taints@, *pod) == untolerated(taints@.skip(i as int), *pod),
        decreases taints@.len() - i,
    {
        assert(taints@.skip(i as int)[0] == taints@[i as int]);
        assert(taints@.skip(i as int).skip(1) =~= taints@.skip(i + 1));
        let t = &taints[i];
        if (t.effect == TaintEffect::NoSchedule || t.effect == TaintEffect::NoExecute)
            && !pod_tolerates_taint(pod, t) {
            let v = debug_value(&t.value);
            let m = cat5("pod does not tolerate taint ", t.key.as_str(), "=", v.as_str(), ":");
            let e = match t.effect {
                TaintEffect::NoSchedule => "NoSchedule",
                TaintEffect::PreferNoSchedule => "PreferNoSchedule",
                TaintEffect::NoExecute => "NoExecute",
            };
            return Some(cat2(m.as_str(), e));
        }
        i = i + 1;
    }
    None
}

fn check_claims(claims: &Vec<ResourceClaimRef>) -> (r: Option<String>)
    ensures
        opt_text(r) == unready_claim(claims@),
{
    let mut i: usize = 0;
    assert(claims@.skip(0) =~= claims@);
    while i < claims.len()
        invariant
            i <= claims@.len(),
            unready_claim(claims@) == unready_claim(claims@.skip(i as int)),
        decreases claims@.len() - i,
    {
        assert(claims@.skip(i as int)[0] == claims@[i as int]);
        assert(claims@.skip(i as int).skip(1) =~= claims@.skip(i + 1));
        let c = &claims[i];
        if !c.allocated {
            return Some(cat3("resource claim '", c.name.as_str(), "' is not allocated"));
        }
        if !c.prepared {
            return Some(cat3("resource claim '", c.name.as_str(), "' is not prepared"));
        }
        i = i + 1;
    }
    None
}

/// The outcome that goes with a reason to reject, or with none.
pub open spec fn outcome_is(reason: Option<Seq<char>>, r: AdmissionResult) -> bool {
    match reason {
        Some(m) => r matches AdmissionResult::Reject(s) && s@ == m,
        None => r is Admit,
    }
}

impl AdmissionController {
    pub fn new(
        allocatable: NodeAllocatable,
        node_labels: StrMap<String>,
        node_taints: Vec<NodeTaint>,
    ) -> (r: Self)
        ensures
            r.allocatable == allocatable,
            r.node_labels == node_labels,
            r.node_taints == node_taints,
    {
        AdmissionController { allocatable, node_labels, node_taints }
    }

    /// Decides on a pod whose runtime class brings no overhead.
    pub fn admit_pod(
        &self,
        pod: &PodSpec,
        current_usage: &ResourceUsage,
        known_runtime_classes: &Vec<String>,
    ) -> (r: AdmissionResult)
        requires
            has_room(*self, *current_usage) ==> {
                &&& all_containers(*pod).len() <= usize::MAX
                &&& pod_cpu(*pod) <= u64::MAX
                &&& current_usage.cpu_millicores + current_usage.overhead_cpu_millicores
                    <= u64::MAX
            },
            has_room(*self, *current_usage) && has_cpu(
                *self,
                *pod,
                *current_usage,
                Map::<Seq<char>, StrMap<String>>::empty(),
            ) ==> {
                &&& pod_memory(*pod) <= u64::MAX
                &&& current_usage.memory_bytes + current_usage.overhead_memory_bytes <= u64::MAX
            },
        ensures
            outcome_is(
                rejection(
                    *self,
                    *pod,
                    *current_usage,
                    texts(known_runtime_classes@),
                    Map::<Seq<char>, StrMap<String>>::empty(),
                ),
                r,
            ),
    {
        let none: RuntimeOverheads = StrMap::new();
        self.admit_with_runtime_overhead(pod, current_usage, known_runtime_classes, &none)
    }

    /// Decides on a pod.
    pub fn admit_with_runtime_overhead(
        &self,
        pod: &PodSpec,
        current_usage: &ResourceUsage,
        known_runtime_classes: &Vec<String>,
        runtime_overheads: &RuntimeOverheads,
    ) -> (r: AdmissionResult)
        requires
            has_room(*self, *current_usage) ==> {
                &&& all_containers(*pod).len() <= usize::MAX
                &&& pod_cpu(*pod) + pod_cpu_overhead(*pod, runtime_overheads@) <= u64::MAX
                &&& current_usage.cpu_millicores + current_usage.overhead_cpu_millicores
                    <= u64::MAX
            },
            has_room(*self, *current_usage) && has_cpu(
                *self,
                *pod,
                *current_usage,
                runtime_overheads@,
            ) ==> {
                &&& pod_memory(*pod) + pod_memory_overhead(*pod, runtime_overheads@) <= u64::MAX
                &&& current_usage.memory_bytes + current_usage.overhead_memory_bytes <= u64::MAX
            },
        ensures
            outcome_is(
                rejection(
                    *self,
                    *pod,
                    *current_usage,
                    texts(known_runtime_classes@),
                    runtime_overheads@,
                ),
                r,
            ),
    {
        if current_usage.pod_count >= self.allocatable.max_pods {
            let a = decimal(current_usage.pod_count as u64);
            let b = decimal(self.allocatable.max_pods as u64);
            let m = cat3("max pods exceeded: ", a.as_str(), " / ");
            return AdmissionResult::Reject(cat2(m.as_str(), b.as_str()));
        }
        let requested_cpu: u64 = pod_cpu_millis(pod) + overhead_cpu(pod, runtime_overheads);
        let available_cpu: u64 = self.allocatable.cpu_millicores.saturating_sub(
            current_usage.cpu_millicores + current_usage.overhead_cpu_millicores,
        );
        if requested_cpu > available_cpu {
            let a = decimal(requested_cpu);
            let b = decimal(available_cpu);
            return AdmissionResult::Reject(
                cat5(
                    "insufficient CPU: requested ",
                    a.as_str(),
                    "m, available ",
                    b.as_str(),
                    "m",
                ),
            );
        }
        let requested_mem: u64 = pod_memory_bytes(pod) + overhead_memory(pod, runtime_overheads);
        let available_mem: u64 = self.allocatable.memory_bytes.saturating_sub(
            current_usage.memory_bytes + current_usage.overhead_memory_bytes,
        );
        if requested_mem > available_mem {
            let a = decimal(requested_mem);
            let b = decimal(available_mem);
            return AdmissionResult::Reject(
                cat5(
                    "insufficient memory: requested ",
                    a.as_str(),
                    " bytes, available ",
                    b.as_str(),
                    " bytes",
                ),
            );
        }
        if let Some(m) = check_ports(pod, current_usage) {
            return AdmissionResult::Reject(m);
        }
        if let Some(rc) = &pod.runtime_class_name {
            if !holds(known_runtime_classes, rc.as_str()) {
                return AdmissionResult::Reject(
                    cat3("RuntimeClass '", rc.as_str(), "' not available on this node"),
                );
            }
        }
        if let Some(m) = check_selector(pod, &self.node_labels) {
            return AdmissionResult::Reject(m);
        }
        if let Some(m) = check_taints(&self.node_taints, pod) {
            return AdmissionResult::Reject(m);
        }
        if let Some(m) = check_claims(&pod.resource_claims) {
            return AdmissionResult::Reject(m);
        }
        AdmissionResult::Admit
    }
}

// ---------------------------------------------------------------------------
// Laws
// ---------------------------------------------------------------------------

proof fn lemma_no_conflict(ports: Seq<(u16, Protocol)>, used: Map<u32, String>)
    requires
        port_conflict(ports, used) is None,
    ensures
        forall|k: u32| #[trigger] takes_code(ports, k) ==> !used.contains_key(k),
    decreases ports.len(),
{
    if ports.len() > 0 {
        let rest = ports.skip(1);
        lemma_no_conflict(rest, used);
        assert forall|k: u32| #[trigger] takes_code(ports, k) implies !used.contains_key(k) by {
            let j = choose|j: int|
                0 <= j < ports.len() && port_code((#[trigger] ports[j]).0, ports[j].1) == k;
            if j > 0 {
                assert(rest[j - 1] == ports[j]);
                assert(takes_code(rest, k));
            }
        }
    }
}

/// When a pod that was admitted is added, the node stays within what it has to
/// give: in pods, in CPU and in memory, runtime overhead counted in. And no
/// pod loses a host port to it.
pub proof fn law_admitted_pod_fits(
    ctrl: AdmissionController,
    pod: PodSpec,
    before: ResourceUsage,
    after: ResourceUsage,
    classes: Seq<Seq<char>>,
    overheads: Map<Seq<char>, StrMap<String>>,
)
    requires
        rejection(ctrl, pod, before, classes, overheads) is None,
        before.cpu_millicores + before.overhead_cpu_millicores <= ctrl.allocatable.cpu_millicores,
        before.memory_bytes + before.overhead_memory_bytes <= ctrl.allocatable.memory_bytes,
        with_pod(before, pod, overheads, after),
    ensures
        after.pod_count <= ctrl.allocatable.max_pods,
        after.cpu_millicores + after.overhead_cpu_millicores <= ctrl.allocatable.cpu_millicores,
        after.memory_bytes + after.overhead_memory_bytes <= ctrl.allocatable.memory_bytes,
        forall|k: u32| #[trigger]
            before.host_ports@.contains_key(k) ==> after.host_ports@.contains_key(k)
                && after.host_ports@[k] == before.host_ports@[k],
{
    lemma_no_conflict(host_ports_of(all_containers(pod)), before.host_ports@);
    assert forall|k: u32| #[trigger] before.host_ports@.contains_key(k) implies
        after.host_ports@.contains_key(k) && after.host_ports@[k] == before.host_ports@[k] by {
        assert(after.host_ports@.contains_key(k));
    }
}

/// Taking away a pod that was added leaves the usage as it was before, as long
/// as none of the pod's ports was in use.
pub proof fn law_remove_undoes_add(
    pod: PodSpec,
    before: ResourceUsage,
    between: ResourceUsage,
    after: ResourceUsage,
    overheads: Map<Seq<char>, StrMap<String>>,
)
    requires
        port_conflict(host_ports_of(all_containers(pod)), before.host_ports@) is None,
        with_pod(before, pod, overheads, between),
        without_pod(between, pod, overheads, after),
    ensures
        after.pod_count == before.pod_count,
        after.cpu_millicores == before.cpu_millicores,
        after.memory_bytes == before.memory_bytes,
        after.overhead_cpu_millicores == before.overhead_cpu_millicores,
        after.overhead_memory_bytes == before.overhead_memory_bytes,
        after.host_ports@ == before.host_ports@,
{
    lemma_no_conflict(host_ports_of(all_containers(pod)), before.host_ports@);
    let ports = host_ports_of(all_containers(pod));
    assert forall|k: u32| after.host_ports@.contains_key(k) == before.host_ports@.contains_key(k) by {
        assert(between.host_ports@.contains_key(k) <==> before.host_ports@.contains_key(k)
            || takes_code(ports, k));
    }
    assert(after.host_ports@ =~= before.host_ports@);
}

/// A toleration with the operator `Exists` covers a taint of its key, or of
/// any key where it names none, whatever the value of the taint.
pub proof fn law_exists_tolerates_whatever_the_value(
    pod: PodSpec,
    i: int,
    taint: NodeTaint,
    other: NodeTaint,
)
    requires
        0 <= i < pod.tolerations@.len(),
        pod.tolerations@[i].operator is Exists,
        pod.tolerations@[i].key matches Some(k) ==> k@ == taint.key@,
        other.key@ == taint.key@,
    ensures
        tolerates(pod, taint),
        tolerates(pod, other),
{
    assert(covers(pod.tolerations@[i], taint));
    assert(covers(pod.tolerations@[i], other));
}

/// A toleration with the operator `Equal` covers a taint of its key only with
/// the same value: a pod that has no other tolerates just those.
pub proof fn law_equal_tolerates_the_same_value(pod: PodSpec, taint: NodeTaint)
    requires
        pod.tolerations@.len() == 1,
        pod.tolerations@[0].operator is Equal,
    ensures
        tolerates(pod, taint) <==> {
            &&& pod.tolerations@[0].key matches Some(k) ==> k@ == taint.key@
            &&& match (pod.tolerations@[0].value, taint.value) {
                (Some(a), Some(b)) => a@ == b@,
                (None, None) => true,
                _ => false,
            }
        },
{
    if tolerates(pod, taint) {
        let i = choose|i: int|
            0 <= i < pod.tolerations@.len() && covers(#[trigger] pod.tolerations@[i], taint);
        assert(i == 0);
    } else {
        assert(!covers(pod.tolerations@[0], taint));
    }
}

/// A taint of another key than those that the pod's tolerations name is not
/// tolerated, and a pod without tolerations tolerates nothing.
pub proof fn law_other_keys_are_not_tolerated(pod: PodSpec, taint: NodeTaint)
    requires
        forall|i: int|
            0 <= i < pod.tolerations@.len() ==> ((#[trigger] pod.tolerations@[i]).key matches Some(k)
                && k@ != taint.key@),
    ensures
        !tolerates(pod, taint),
{
}

/// The taints reject a pod exactly where one of them, of effect `NoSchedule`
/// or `NoExecute`, is one that the pod does not tolerate: `PreferNoSchedule`
/// never does.
pub proof fn law_taints_reject_what_is_not_tolerated(taints: Seq<NodeTaint>, pod: PodSpec)
    ensures
        untolerated(taints, pod) is Some <==> exists|j: int|
            0 <= j < taints.len() && ((#[trigger] taints[j]).effect is NoSchedule
                || taints[j].effect is NoExecute) && !tolerates(pod, taints[j]),
    decreases taints.len(),
{
    if taints.len() > 0 {
        let rest = taints.skip(1);
        law_taints_reject_what_is_not_tolerated(rest, pod);
        if exists|j: int|
            0 <= j < rest.len() && ((#[trigger] rest[j]).effect is NoSchedule
                || rest[j].effect is NoExecute) && !tolerates(pod, rest[j]) {
            let j = choose|j: int|
                0 <= j < rest.len() && ((#[trigger] rest[j]).effect is NoSchedule
                    || rest[j].effect is NoExecute) && !tolerates(pod, rest[j]);
            assert(taints[j + 1] == rest[j]);
        }
        if exists|j: int|
            0 <= j < taints.len() && ((#[trigger] taints[j]).effect is NoSchedule
                || taints[j].effect is NoExecute) && !tolerates(pod, taints[j]) {
            let j = choose|j: int|
                0 <= j < taints.len() && ((#[trigger] taints[j]).effect is NoSchedule
                    || taints[j].effect is NoExecute) && !tolerates(pod, taints[j]);
            if j > 0 {
                assert(rest[j - 1] == taints[j]);
            }
        }
    }
}

/// Where each taint that keeps pods off has a toleration with the operator
/// `Exists` for its key, the taints do not reject the pod.
pub proof fn law_exists_for_each_taint_is_enough(taints: Seq<NodeTaint>, pod: PodSpec)
    requires
        forall|j: int|
            0 <= j < taints.len() && !((#[trigger] taints[j]).effect is PreferNoSchedule)
                ==> exists|i: int|
                0 <= i < pod.tolerations@.len() && (#[trigger] pod.tolerations@[i]).operator is Exists
                    && (pod.tolerations@[i].key is None || pod.tolerations@[i].key->0@
                    == taints[j].key@),
    ensures
        untolerated(taints, pod) is None,
{
    law_taints_reject_what_is_not_tolerated(taints, pod);
    assert forall|j: int|
        0 <= j < taints.len() && !((#[trigger] taints[j]).effect is PreferNoSchedule) implies tolerates(
        pod,
        taints[j],
    ) by {
        let i = choose|i: int|
            0 <= i < pod.tolerations@.len() && (#[trigger] pod.tolerations@[i]).operator is Exists && (
            pod.tolerations@[i].key is None || pod.tolerations@[i].key->0@ == taints[j].key@);
        law_exists_tolerates_whatever_the_value(pod, i, taints[j], taints[j]);
    }
}

proof fn lemma_ports_of_has(ports: Seq<ContainerPort>, i: int, h: u16)
    requires
        0 <= i < ports.len(),
        ports[i].host_port == Some(h),
    ensures
        ports_of(ports).contains((h, ports[i].protocol)),
    decreases ports.len(),
{
    let front = ports_of(ports.drop_last());
    if i < ports.len() - 1 {
        assert(ports.drop_last()[i] == ports[i]);
        lemma_ports_of_has(ports.drop_last(), i, h);
        let k = choose|k: int| 0 <= k < front.len() && front[k] == (h, ports[i].protocol);
        assert(ports_of(ports)[k] == front[k]);
    } else {
        assert(ports_of(ports)[front.len() as int] == (h, ports[i].protocol));
    }
}

proof fn lemma_ports_of_from(ports: Seq<ContainerPort>, k: int) -> (i: int)
    requires
        0 <= k < ports_of(ports).len(),
    ensures
        0 <= i < ports.len(),
        ports[i].host_port == Some(ports_of(ports)[k].0),
        ports[i].protocol == ports_of(ports)[k].1,
    decreases ports.len(),
{
    let front = ports_of(ports.drop_last());
    if k < front.len() {
        let i = lemma_ports_of_from(ports.drop_last(), k);
        assert(ports.drop_last()[i] == ports[i]);
        i
    } else {
        ports.len() - 1
    }
}

proof fn lemma_host_ports_has(cs: Seq<ContainerSpec>, c: int, i: int, h: u16)
    requires
        0 <= c < cs.len(),
        0 <= i < cs[c].ports@.len(),
        cs[c].ports@[i].host_port == Some(h),
    ensures
        host_ports_of(cs).contains((h, cs[c].ports@[i].protocol)),
    decreases cs.len(),
{
    let front = host_ports_of(cs.drop_last());
    let last = ports_of(cs.last().ports@);
    let p = (h, cs[c].ports@[i].protocol);
    if c < cs.len() - 1 {
        assert(cs.drop_last()[c] == cs[c]);
        lemma_host_ports_has(cs.drop_last(), c, i, h);
        let k = choose|k: int| 0 <= k < front.len() && front[k] == p;
        assert(host_ports_of(cs)[k] == front[k]);
    } else {
        lemma_ports_of_has(cs.last().ports@, i, h);
        let k = choose|k: int| 0 <= k < last.len() && last[k] == p;
        assert(host_ports_of(cs)[front.len() + k] == last[k]);
    }
}

proof fn lemma_host_ports_from(cs: Seq<ContainerSpec>, k: int) -> (r: (int, int))
    requires
        0 <= k < host_ports_of(cs).len(),
    ensures
        0 <= r.0 < cs.len(),
        0 <= r.1 < cs[r.0].ports@.len(),
        cs[r.0].ports@[r.1].host_port == Some(host_ports_of(cs)[k].0),
        cs[r.0].ports@[r.1].protocol == host_ports_of(cs)[k].1,
    decreases cs.len(),
{
    let front = host_ports_of(cs.drop_last());
    if k < front.len() {
        let r = lemma_host_ports_from(cs.drop_last(), k);
        assert(cs.drop_last()[r.0] == cs[r.0]);
        r
    } else {
        let i = lemma_ports_of_from(cs.last().ports@, k - front.len());
        (cs.len() - 1, i)
    }
}

proof fn lemma_conflict(ports: Seq<(u16, Protocol)>, used: Map<u32, String>, k: int)
    requires
        0 <= k < ports.len(),
        used.contains_key(port_code(ports[k].0, ports[k].1)),
    ensures
        port_conflict(ports, used) is Some,
    decreases ports.len(),
{
    if k > 0 {
        assert(ports.skip(1)[k - 1] == ports[k]);
        lemma_conflict(ports.skip(1), used, k - 1);
    }
}

/// Whether a container of the pod, an init container among them, asks for the
/// host port under the protocol.
pub open spec fn asks_for_port(pod: PodSpec, port: u16, protocol: Protocol) -> bool {
    exists|c: int, i: int|
        0 <= c < all_containers(pod).len() && 0 <= i < all_containers(pod)[c].ports@.len()
            && #[trigger] all_containers(pod)[c].ports@[i].host_port == Some(port)
            && all_containers(pod)[c].ports@[i].protocol == protocol
}

/// A pod conflicts over host ports exactly where one that it asks for is
/// taken, under the same protocol.
pub proof fn law_conflicts_are_over_ports_asked_for(pod: PodSpec, used: Map<u32, String>)
    ensures
        port_conflict(host_ports_of(all_containers(pod)), used) is Some <==> exists|
            port: u16,
            protocol: Protocol,
        | #[trigger]
            asks_for_port(pod, port, protocol) && used.contains_key(port_code(port, protocol)),
{
    let cs = all_containers(pod);
    let ports = host_ports_of(cs);
    if exists|port: u16, protocol: Protocol| #[trigger]
        asks_for_port(pod, port, protocol) && used.contains_key(port_code(port, protocol)) {
        let (port, protocol) = choose|port: u16, protocol: Protocol| #[trigger]
            asks_for_port(pod, port, protocol) && used.contains_key(port_code(port, protocol));
        let (c, i) = choose|c: int, i: int|
            0 <= c < cs.len() && 0 <= i < cs[c].ports@.len()
                && #[trigger] cs[c].ports@[i].host_port == Some(port) && cs[c].ports@[i].protocol
                == protocol;
        lemma_host_ports_has(cs, c, i, port);
        let k = choose|k: int| 0 <= k < ports.len() && ports[k] == (port, protocol);
        lemma_conflict(ports, used, k);
    }
    if port_conflict(ports, used) is Some {
        lemma_conflict_source(ports, used);
        let k = choose|k: int|
            0 <= k < ports.len() && used.contains_key(
                port_code((#[trigger] ports[k]).0, ports[k].1),
            );
        let r = lemma_host_ports_from(cs, k);
        assert(asks_for_port(pod, ports[k].0, ports[k].1)) by {
            assert(cs[r.0].ports@[r.1].host_port == Some(ports[k].0));
        }
    }
}

proof fn lemma_conflict_source(ports: Seq<(u16, Protocol)>, used: Map<u32, String>)
    requires
        port_conflict(ports, used) is Some,
    ensures
        exists|k: int|
            0 <= k < ports.len() && used.contains_key(
                port_code((#[trigger] ports[k]).0, ports[k].1),
            ),
    decreases ports.len(),
{
    if !used.contains_key(port_code(ports[0].0, ports[0].1)) {
        let rest = ports.skip(1);
        lemma_conflict_source(rest, used);
        let k = choose|k: int|
            0 <= k < rest.len() && used.contains_key(port_code((#[trigger] rest[k]).0, rest[k].1));
        assert(ports[k + 1] == rest[k]);
    }
}

proof fn lemma_selectors(pairs: Seq<(Seq<char>, String)>, labels: Map<Seq<char>, String>)
    ensures
        selector_mismatch(pairs, labels) is None <==> forall|i: int|
            0 <= i < pairs.len() ==> labels.contains_key((#[trigger] pairs[i]).0)
                && labels[pairs[i].0]@ == pairs[i].1@,
    decreases pairs.len(),
{
    if pairs.len() > 0 {
        let rest = pairs.skip(1);
        lemma_selectors(rest, labels);
        if selector_mismatch(pairs, labels) is None {
            assert forall|i: int| 0 <= i < pairs.len() implies labels.contains_key(
                (#[trigger] pairs[i]).0,
            ) && labels[pairs[i].0]@ == pairs[i].1@ by {
                if i > 0 {
                    assert(rest[i - 1] == pairs[i]);
                }
            }
        }
        if forall|i: int|
            0 <= i < pairs.len() ==> labels.contains_key((#[trigger] pairs[i]).0)
                && labels[pairs[i].0]@ == pairs[i].1@ {
            assert(labels.contains_key(pairs[0].0));
            assert forall|i: int| 0 <= i < rest.len() implies labels.contains_key(
                (#[trigger] rest[i]).0,
            ) && labels[rest[i].0]@ == rest[i].1@ by {
                assert(rest[i] == pairs[i + 1]);
            }
        }
    }
}

proof fn lemma_claims(claims: Seq<ResourceClaimRef>)
    ensures
        unready_claim(claims) is None <==> forall|i: int|
            0 <= i < claims.len() ==> (#[trigger] claims[i]).allocated && claims[i].prepared,
    decreases claims.len(),
{
    if claims.len() > 0 {
        let rest = claims.skip(1);
        lemma_claims(rest);
        if unready_claim(claims) is None {
            assert forall|i: int| 0 <= i < claims.len() implies (#[trigger] claims[i]).allocated
                && claims[i].prepared by {
                if i > 0 {
                    assert(rest[i - 1] == claims[i]);
                }
            }
        }
        if forall|i: int|
            0 <= i < claims.len() ==> (#[trigger] claims[i]).allocated && claims[i].prepared {
            assert(claims[0].allocated && claims[0].prepared);
            assert forall|i: int| 0 <= i < rest.len() implies (#[trigger] rest[i]).allocated
                && rest[i].prepared by {
                assert(rest[i] == claims[i + 1]);
            }
        }
    }
}

/// A pod is admitted exactly where there is room for one more, what it asks
/// for and what the pods have together stay within the node, none of its host
/// ports is taken, its runtime class is known, the node has each label that it
/// selects by, it tolerates the taints that keep pods off, and each of its
/// claims is allocated and prepared.
pub proof fn law_admission_is_exact(
    ctrl: AdmissionController,
    pod: PodSpec,
    usage: ResourceUsage,
    classes: Seq<Seq<char>>,
    overheads: Map<Seq<char>, StrMap<String>>,
    r: AdmissionResult,
)
    requires
        outcome_is(rejection(ctrl, pod, usage, classes, overheads), r),
        distinct_keys(pod.node_selector.pairs()),
        usage.cpu_millicores + usage.overhead_cpu_millicores <= ctrl.allocatable.cpu_millicores,
        usage.memory_bytes + usage.overhead_memory_bytes <= ctrl.allocatable.memory_bytes,
    ensures
        r is Admit <==> {
            &&& usage.pod_count < ctrl.allocatable.max_pods
            &&& usage.cpu_millicores + usage.overhead_cpu_millicores + pod_cpu(pod)
                + pod_cpu_overhead(pod, overheads) <= ctrl.allocatable.cpu_millicores
            &&& usage.memory_bytes + usage.overhead_memory_bytes + pod_memory(pod)
                + pod_memory_overhead(pod, overheads) <= ctrl.allocatable.memory_bytes
            &&& forall|port: u16, protocol: Protocol| #[trigger]
                asks_for_port(pod, port, protocol) ==> !usage.host_ports@.contains_key(
                    port_code(port, protocol),
                )
            &&& pod.runtime_class_name matches Some(rc) ==> classes.contains(rc@)
            &&& forall|k: Seq<char>| #[trigger]
                pod.node_selector@.contains_key(k) ==> ctrl.node_labels@.contains_key(k)
                    && ctrl.node_labels@[k]@ == pod.node_selector@[k]@
            &&& forall|j: int|
                0 <= j < ctrl.node_taints@.len() && !((#[trigger] ctrl.node_taints@[j]).effect
                    is PreferNoSchedule) ==> tolerates(pod, ctrl.node_taints@[j])
            &&& forall|i: int|
                0 <= i < pod.resource_claims@.len() ==> (#[trigger] pod.resource_claims@[i]).allocated
                    && pod.resource_claims@[i].prepared
        },
{
    let pairs = pod.node_selector.pairs();
    let labels = ctrl.node_labels@;
    law_conflicts_are_over_ports_asked_for(pod, usage.host_ports@);
    lemma_selectors(pairs, labels);
    law_taints_reject_what_is_not_tolerated(ctrl.node_taints@, pod);
    lemma_claims(pod.resource_claims@);
    assert forall|k: Seq<char>| #[trigger]
        pod.node_selector@.contains_key(k) && selector_mismatch(
        pairs,
        labels,
    ) is None implies labels.contains_key(k) && labels[k]@ == pod.node_selector@[k]@ by {
        lemma_map_of_dom(pairs, k);
        let i = choose|i: int| 0 <= i < pairs.len() && (#[trigger] pairs[i]).0 == k;
        lemma_map_of_value(pairs, i);
    }
    if forall|k: Seq<char>| #[trigger]
        pod.node_selector@.contains_key(k) ==> labels.contains_key(k) && labels[k]@
            == pod.node_selector@[k]@ {
        assert forall|i: int| 0 <= i < pairs.len() implies labels.contains_key(
            (#[trigger] pairs[i]).0,
        ) && labels[pairs[i].0]@ == pairs[i].1@ by {
            lemma_map_of_value(pairs, i);
            assert(pod.node_selector@.contains_key(pairs[i].0));
        }
    }
}

/// A pod that was added has each host port that it asks for.
pub proof fn law_added_pod_has_its_ports(
    before: ResourceUsage,
    pod: PodSpec,
    overheads: Map<Seq<char>, StrMap<String>>,
    after: ResourceUsage,
    port: u16,
    protocol: Protocol,
)
    requires
        with_pod(before, pod, overheads, after),
        asks_for_port(pod, port, protocol),
    ensures
        after.host_ports@.contains_key(port_code(port, protocol)),
        after.host_ports@[port_code(port, protocol)] == pod.uid.0,
{
    let cs = all_containers(pod);
    let (c, i) = choose|c: int, i: int|
        0 <= c < cs.len() && 0 <= i < cs[c].ports@.len()
            && #[trigger] cs[c].ports@[i].host_port == Some(port) && cs[c].ports@[i].protocol
            == protocol;
    lemma_host_ports_has(cs, c, i, port);
    let ports = host_ports_of(cs);
    let k = choose|k: int| 0 <= k < ports.len() && ports[k] == (port, protocol);
    let code = port_code(port, protocol);
    assert(port_code(ports[k].0, ports[k].1) == code);
    assert(takes_code(ports, code));
    assert(after.host_ports@.contains_key(code));
}

proof fn lemma_total_request_add(a: Seq<ContainerSpec>, b: Seq<ContainerSpec>, key: Seq<char>)
    ensures
        total_request(a + b, key) == total_request(a, key) + total_request(b, key),
    decreases b.len(),
{
    if b.len() == 0 {
        assert(a + b =~= a);
    } else {
        assert((a + b).drop_last() =~= a + b.drop_last());
        lemma_total_request_add(a, b.drop_last(), key);
    }
}

/// What one more container asks for is added to what the pod asks for, whether
/// it is an init container or not: its request for CPU to the CPU, its request
/// for memory to the memory, and nothing where it has no request.
pub proof fn law_each_container_counts(
    pod: PodSpec,
    bigger: PodSpec,
    c: ContainerSpec,
    cpu: i64,
    memory: i64,
)
    requires
        bigger.containers@ == pod.containers@.push(c) && bigger.init_containers@
            == pod.init_containers@ || bigger.containers@ == pod.containers@
            && bigger.init_containers@ == pod.init_containers@.push(c),
        cpu >= 0,
        memory >= 0,
        c.resources.requests@.contains_key("cpu"@) ==> c.resources.requests@["cpu"@].value == cpu,
        !c.resources.requests@.contains_key("cpu"@) ==> cpu == 0,
        c.resources.requests@.contains_key("memory"@) ==> c.resources.requests@["memory"@].value
            == memory,
        !c.resources.requests@.contains_key("memory"@) ==> memory == 0,
    ensures
        pod_cpu(bigger) == pod_cpu(pod) + cpu,
        pod_memory(bigger) == pod_memory(pod) + memory,
{
    let a = pod.containers@;
    let b = pod.init_containers@;
    assert(a.push(c).drop_last() =~= a);
    assert(b.push(c).drop_last() =~= b);
    lemma_total_request_add(a, b, "cpu"@);
    lemma_total_request_add(a, b, "memory"@);
    lemma_total_request_add(bigger.containers@, bigger.init_containers@, "cpu"@);
    lemma_total_request_add(bigger.containers@, bigger.init_containers@, "memory"@);
}

/// A pod without containers asks for nothing.
pub proof fn law_no_container_asks_for_nothing(pod: PodSpec)
    requires
        pod.containers@.len() == 0,
        pod.init_containers@.len() == 0,
    ensures
        pod_cpu(pod) == 0,
        pod_memory(pod) == 0,
        forall|port: u16, protocol: Protocol| !#[trigger] asks_for_port(pod, port, protocol),
{
}

/// The overhead of a runtime class is read in cores, or in thousandths of one
/// with the suffix `m`, and in bytes, or in units of 1024 bytes, of its square
/// and of its cube with the suffixes `Ki`, `Mi` and `Gi`.
pub proof fn law_overheads_are_read(n: nat)
    requires
        n * 1024 * 1024 * 1024 <= u64::MAX,
    ensures
        cpu_overhead(Some(dec(n) + "m"@)) == n,
        cpu_overhead(Some(dec(n))) == n * 1000,
        memory_overhead(Some(dec(n))) == n,
        memory_overhead(Some(dec(n) + "Ki"@)) == n * 1024,
        memory_overhead(Some(dec(n) + "Mi"@)) == n * 1024 * 1024,
        memory_overhead(Some(dec(n) + "Gi"@)) == n * 1024 * 1024 * 1024,
        cpu_overhead(None) == 0,
        memory_overhead(None) == 0,
{
    reveal_strlit("m");
    reveal_strlit("Ki");
    reveal_strlit("Mi");
    reveal_strlit("Gi");
    lemma_dec_suffixed(n, "m"@);
    lemma_dec_suffixed(n, "Ki"@);
    lemma_dec_suffixed(n, "Mi"@);
    lemma_dec_suffixed(n, "Gi"@);
    lemma_dec_suffixed(n, Seq::empty());
    assert(dec(n) + Seq::<char>::empty() =~= dec(n));
    let d = dec(n).len() as int;
    let m = dec(n) + "Mi"@;
    let g = dec(n) + "Gi"@;
    assert(m.last() == 'i' && g.last() == 'i');
    assert(m[d] == 'M' && g[d] == 'G');
    lemma_other_suffix(dec(n), "m"@);
    lemma_other_suffix(m, "Ki"@);
    lemma_other_suffix(g, "Ki"@);
    lemma_other_suffix(g, "Mi"@);
    lemma_other_suffix(dec(n), "Ki"@);
    lemma_other_suffix(dec(n), "Mi"@);
    lemma_other_suffix(dec(n), "Gi"@);
}

/// The overhead of a pod is that of its own runtime class: the entry `cpu` for
/// the CPU, the entry `memory` for the memory, and nothing where the pod names
/// no class or the class has no entry.
pub proof fn law_overhead_is_of_the_own_class(
    pod: PodSpec,
    overheads: Map<Seq<char>, StrMap<String>>,
    n: nat,
)
    requires
        n * 1000 <= u64::MAX,
    ensures
        pod.runtime_class_name is None ==> pod_cpu_overhead(pod, overheads) == 0
            && pod_memory_overhead(pod, overheads) == 0,
        pod.runtime_class_name matches Some(rc) ==> {
            &&& !overheads.contains_key(rc@) ==> pod_cpu_overhead(pod, overheads) == 0
                && pod_memory_overhead(pod, overheads) == 0
            &&& overheads.contains_key(rc@) && overheads[rc@]@.contains_key("cpu"@)
                && overheads[rc@]@["cpu"@]@ == dec(n) + "m"@ ==> pod_cpu_overhead(pod, overheads)
                == n
            &&& overheads.contains_key(rc@) && overheads[rc@]@.contains_key("memory"@)
                && overheads[rc@]@["memory"@]@ == dec(n) ==> pod_memory_overhead(pod, overheads)
                == n
        },
{
    reveal_strlit("m");
    reveal_strlit("Ki");
    reveal_strlit("Mi");
    reveal_strlit("Gi");
    lemma_dec_suffixed(n, "m"@);
    lemma_dec_suffixed(n, Seq::empty());
    assert(dec(n) + Seq::<char>::empty() =~= dec(n));
    lemma_other_suffix(dec(n), "Ki"@);
    lemma_other_suffix(dec(n), "Mi"@);
    lemma_other_suffix(dec(n), "Gi"@);
}

/// Effects and protocols are told apart by their texts, each its own name.
pub proof fn law_effects_and_protocols_have_their_names(e: TaintEffect, p: Protocol)
    ensures
        effect_text(e) == "NoSchedule"@ <==> e is NoSchedule,
        effect_text(e) == "PreferNoSchedule"@ <==> e is PreferNoSchedule,
        effect_text(e) == "NoExecute"@ <==> e is NoExecute,
        protocol_text(p) == "TCP"@ <==> p is TCP,
        protocol_text(p) == "UDP"@ <==> p is UDP,
        protocol_text(p) == "SCTP"@ <==> p is SCTP,
{
    reveal_strlit("NoSchedule");
    reveal_strlit("PreferNoSchedule");
    reveal_strlit("NoExecute");
    reveal_strlit("TCP");
    reveal_strlit("UDP");
    reveal_strlit("SCTP");
    assert("NoSchedule"@.len() == 10 && "PreferNoSchedule"@.len() == 16 && "NoExecute"@.len() == 9);
    assert("TCP"@[0] == 'T' && "UDP"@[0] == 'U' && "SCTP"@[0] == 'S');
}

/// The first claim that is not ready is named, with what it lacks.
pub proof fn law_unready_claims_are_named(claims: Seq<ResourceClaimRef>)
    requires
        claims.len() > 0,
    ensures
        !claims[0].allocated ==> unready_claim(claims) == Some(
            "resource claim '"@ + claims[0].name@ + "' is not allocated"@,
        ),
        claims[0].allocated && !claims[0].prepared ==> unready_claim(claims) == Some(
            "resource claim '"@ + claims[0].name@ + "' is not prepared"@,
        ),
        claims[0].allocated && claims[0].prepared ==> unready_claim(claims) == unready_claim(
            claims.skip(1),
        ),
{
}

/// A taint that is not tolerated is named with its key, its value and its effect.
pub proof fn law_untolerated_taints_are_named(taints: Seq<NodeTaint>, pod: PodSpec)
    requires
        taints.len() > 0,
        untolerated(taints, pod) != untolerated(taints.skip(1), pod),
    ensures
        taints[0].value matches Some(v) ==> untolerated(taints, pod) == Some(
            "pod does not tolerate taint "@ + taints[0].key@ + "="@ + ("Some("@ + debug_quoted(v@)
                + ")"@) + ":"@ + effect_text(taints[0].effect),
        ),
        taints[0].value is None ==> untolerated(taints, pod) == Some(
            "pod does not tolerate taint "@ + taints[0].key@ + "="@ + "None"@ + ":"@ + effect_text(
                taints[0].effect,
            ),
        ),
{
}

/// The first label that a node lacks is named with the value that is asked for.
pub proof fn law_missing_labels_are_named(
    pairs: Seq<(Seq<char>, String)>,
    labels: Map<Seq<char>, String>,
)
    requires
        pairs.len() > 0,
    ensures
        !labels.contains_key(pairs[0].0) || labels[pairs[0].0]@ != pairs[0].1@ ==> selector_mismatch(
            pairs,
            labels,
        ) == Some("node selector mismatch: '"@ + pairs[0].0 + "="@ + pairs[0].1@ + "' not on node"@),
        labels.contains_key(pairs[0].0) && labels[pairs[0].0]@ == pairs[0].1@ ==> selector_mismatch(
            pairs,
            labels,
        ) == selector_mismatch(pairs.skip(1), labels),
{
}

} // verus!
