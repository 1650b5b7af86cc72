//! Pressure signals of a node, read from the kernel's own accounts.
use crate::decimal::{law_natural_numbers_are_read, number_of, parse_decimal, whole_multiple};
use crate::procfs::{kib_to_bytes, meminfo_kib, meminfo_kib_of};
use crate::strmap::StrMap;
use crate::text::{
    dec, has_suffix, is_digit, law_trimming_keeps_what_is_within, lemma_dec_suffixed,
    lemma_other_suffix, natural_upto, parse_u64, strip_suffix, trim, trimmed, without_suffix,
};
use vstd::prelude::*;

verus! {

/// What is available on a node.
#[derive(Debug, Clone, Copy, PartialEq, Eq, Structural)]
pub struct ResourceSignals {
    pub memory_available_bytes: u64,
    pub nodefs_available_bytes: u64,
    pub nodefs_inodes_free: u64,
    pub imagefs_available_bytes: u64,
    /// How many more processes there can be.
    pub pid_available: u64,
    pub nodefs_total_bytes: u64,
    pub imagefs_total_bytes: u64,
}

impl Default for ResourceSignals {
    fn default() -> (r: Self)
        ensures
            r == (ResourceSignals {
                memory_available_bytes: 0,
                nodefs_available_bytes: 0,
                nodefs_inodes_free: 0,
                imagefs_available_bytes: 0,
                pid_available: 0,
                nodefs_total_bytes: 0,
                imagefs_total_bytes: 0,
            }),
    {
        ResourceSignals {
            memory_available_bytes: 0,
            nodefs_available_bytes: 0,
            nodefs_inodes_free: 0,
            imagefs_available_bytes: 0,
            pid_available: 0,
            nodefs_total_bytes: 0,
            imagefs_total_bytes: 0,
        }
    }
}

/// The statistics of a file system.
#[derive(Debug, Clone, Copy, PartialEq, Eq, Structural)]
pub struct FsStat {
    /// The size of a block in bytes.
    pub block_bytes: u64,
    pub blocks_available: u64,
    pub inodes_free: u64,
    pub blocks_total: u64,
}

impl FsStat {
    /// The sizes in bytes fit 64 bits.
    pub open spec fn wf(self) -> bool {
        &&& self.blocks_available * self.block_bytes <= u64::MAX
        &&& self.blocks_total * self.block_bytes <= u64::MAX
    }
}

/// What was read from the kernel; a part that could not be read is missing.
#[derive(Debug)]
pub struct KernelFacts {
    /// The memory information text.
    pub meminfo: Option<String>,
    pub nodefs: Option<FsStat>,
    pub imagefs: Option<FsStat>,
    /// The text of the process number limit.
    pub pid_max: Option<String>,
    /// The names in the process directory.
    pub proc_names: Vec<String>,
}

/// The available memory in KiB, or nothing where it cannot be read.
pub open spec fn available_kib(meminfo: Option<String>) -> nat {
    match meminfo {
        Some(t) => match meminfo_kib_of(t@, "MemAvailable:"@) {
            Some(k) => k,
            None => 0,
        },
        None => 0,
    }
}

/// The limit on process numbers.
pub open spec fn pid_limit(text: Option<String>) -> nat {
    match text {
        Some(t) => match natural_upto(trimmed(t@), u64::MAX as int) {
            Some(n) => n,
            None => 32768,
        },
        None => 32768,
    }
}

/// How many of the names are process numbers.
pub open spec fn process_count(names: Seq<String>) -> nat
    decreases names.len(),
{
    if names.len() == 0 {
        0
    } else {
        process_count(names.drop_last()) + if natural_upto(names.last()@, u64::MAX as int) is Some {
            1nat
        } else {
            0
        }
    }
}

impl KernelFacts {
    pub open spec fn wf(self) -> bool {
        &&& available_kib(self.meminfo) * 1024 <= u64::MAX
        &&& self.nodefs matches Some(f) ==> f.wf()
        &&& self.imagefs matches Some(f) ==> f.wf()
    }
}

/// The sizes of a file system: available bytes, free inodes and all bytes.
pub open spec fn fs_sizes(f: Option<FsStat>) -> (nat, nat, nat) {
    match f {
        Some(s) => (
            (s.blocks_available * s.block_bytes) as nat,
            s.inodes_free as nat,
            (s.blocks_total * s.block_bytes) as nat,
        ),
        None => (0, 0, 0),
    }
}

fn read_fs(f: Option<FsStat>) -> (r: (u64, u64, u64))
    requires
        f matches Some(s) ==> s.wf(),
    ensures
        (r.0 as nat, r.1 as nat, r.2 as nat) == fs_sizes(f),
{
    match f {
        Some(s) => {
            assert(s.blocks_available * s.block_bytes >= 0) by (nonlinear_arith)
                requires
                    s.blocks_available >= 0,
                    s.block_bytes >= 0,
            ;
            assert(s.blocks_total * s.block_bytes >= 0) by (nonlinear_arith)
                requires
                    s.blocks_total >= 0,
                    s.block_bytes >= 0,
            ;
            (s.blocks_available * s.block_bytes, s.inodes_free, s.blocks_total * s.block_bytes)
        },
        None => (0, 0, 0),
    }
}

fn count_processes(names: &Vec<String>) -> (r: u64)
    ensures
        r == process_count(names@),
{
    let mut n: u64 = 0;
    let mut i: usize = 0;
    while i < names.len()
        invariant
            i <= names@.len(),
            n <= i,
            n == process_count(names@.take(i as int)),
        decreases names@.len() - i,
    {
        assert(names@.take(i + 1).drop_last() =~= names@.take(i as int));
        if parse_u64(names[i].as_str()).is_some() {
            n = n + 1;
        }
        i = i + 1;
    }
    assert(names@.take(i as int) =~= names@);
    n
}

/// The signals that the facts give: what could not be read counts as nothing
/// available, and the limit on process numbers as the usual one.
pub fn collect_signals(facts: &KernelFacts) -> (r: ResourceSignals)
    requires
        facts.wf(),
    ensures
        r.memory_available_bytes == available_kib(facts.meminfo) * 1024,
        (
            r.nodefs_available_bytes as nat,
            r.nodefs_inodes_free as nat,
            r.nodefs_total_bytes as nat,
        ) == fs_sizes(facts.nodefs),
        r.imagefs_available_bytes == fs_sizes(facts.imagefs).0,
        r.imagefs_total_bytes == fs_sizes(facts.imagefs).2,
        facts.nodefs matches Some(f) ==> {
            &&& r.nodefs_available_bytes == f.blocks_available * f.block_bytes
            &&& r.nodefs_total_bytes == f.blocks_total * f.block_bytes
            &&& r.nodefs_inodes_free == f.inodes_free
        },
        facts.imagefs matches Some(f) ==> {
            &&& r.imagefs_available_bytes == f.blocks_available * f.block_bytes
            &&& r.imagefs_total_bytes == f.blocks_total * f.block_bytes
        },
        r.pid_available == if pid_limit(facts.pid_max) > process_count(facts.proc_names@) {
            pid_limit(facts.pid_max) - process_count(facts.proc_names@)
        } else {
            0
        },
{
    let kib: u64 = match &facts.meminfo {
        Some(t) => match meminfo_kib(t.as_str(), "MemAvailable:") {
            Some(k) => k,
            None => 0,
        },
        None => 0,
    };
    let nodefs: (u64, u64, u64) = read_fs(facts.nodefs);
    let imagefs: (u64, u64, u64) = read_fs(facts.imagefs);
    let limit: u64 = match &facts.pid_max {
        Some(t) => match parse_u64(trim(t.as_str())) {
            Some(n) => n,
            None => 32768,
        },
        None => 32768,
    };
    ResourceSignals {
        memory_available_bytes: kib_to_bytes(kib),
        nodefs_available_bytes: nodefs.0,
        nodefs_inodes_free: nodefs.1,
        imagefs_available_bytes: imagefs.0,
        pid_available: limit.saturating_sub(count_processes(&facts.proc_names)),
        nodefs_total_bytes: nodefs.2,
        imagefs_total_bytes: imagefs.2,
    }
}

// ---------------------------------------------------------------------------
// Thresholds
// ---------------------------------------------------------------------------

pub open spec fn natural_or_zero(s: Seq<char>) -> nat {
    match natural_upto(s, u64::MAX as int) {
        Some(n) => n,
        None => 0,
    }
}

/// The number of bytes that a text denotes; zero where it denotes none.
pub open spec fn bytes_of(s: Seq<char>) -> nat {
    let n = s.len();
    if has_suffix(s, "Ki"@) {
        natural_or_zero(s.take(n - 2)) * 1024
    } else if has_suffix(s, "Mi"@) {
        natural_or_zero(s.take(n - 2)) * 1024 * 1024
    } else if has_suffix(s, "Gi"@) {
        natural_or_zero(s.take(n - 2)) * 1024 * 1024 * 1024
    } else {
        natural_or_zero(s)
    }
}

fn parse_or_zero(s: &str) -> (r: u64)
    ensures
        r == natural_or_zero(s@),
{
    match parse_u64(s) {
        Some(n) => n,
        None => 0,
    }
}

/// Parses a number of bytes such as `100Mi`; zero where the text is no number.
pub fn parse_bytes(s: &str) -> (r: u64)
    requires
        bytes_of(s@) <= u64::MAX,
    ensures
        r == bytes_of(s@),
{
    proof {
        reveal_strlit("Ki");
        reveal_strlit("Mi");
        reveal_strlit("Gi");
    }
    if let Some(n) = strip_suffix(s, "Ki") {
        return parse_or_zero(n) * 1024;
    }
    if let Some(n) = strip_suffix(s, "Mi") {
        return parse_or_zero(n) * 1024 * 1024;
    }
    if let Some(n) = strip_suffix(s, "Gi") {
        return parse_or_zero(n) * 1024 * 1024 * 1024;
    }
    parse_or_zero(s)
}

/// The amount below which a threshold is crossed: a part of `total` for a
/// percentage, else a number of bytes.
pub open spec fn amount_below(threshold: Seq<char>, total: u64) -> nat {
    match without_suffix(threshold, "%"@) {
        Some(p) => match number_of(p) {
            Some(n) => whole_multiple(n, total as nat, 2),
            None => 0,
        },
        None => bytes_of(threshold),
    }
}

/// Whether `signal_value` is below a threshold such as `100Mi` or `10%`.
pub fn threshold_exceeded(signal_value: u64, total: u64, threshold: &str) -> (r: bool)
    requires
        fits(threshold@),
    ensures
        r == (signal_value < amount_below(threshold@, total)),
{
    match strip_suffix(threshold, "%") {
        Some(p) => {
            let amount: u64 = match parse_decimal(p) {
                Some(d) => d.times(total, 2),
                None => 0,
            };
            signal_value < amount
        },
        None => signal_value < parse_bytes(threshold),
    }
}

/// Which pressures the signals show.
#[derive(Debug, Clone, Copy, PartialEq, Eq, Structural)]
pub struct PressureConditions {
    pub memory_pressure: bool,
    pub disk_pressure: bool,
    pub pid_pressure: bool,
}

impl Default for PressureConditions {
    fn default() -> (r: Self)
        ensures
            !r.memory_pressure && !r.disk_pressure && !r.pid_pressure,
    {
        PressureConditions { memory_pressure: false, disk_pressure: false, pid_pressure: false }
    }
}

/// The number of processes below which the process threshold is crossed.
pub open spec fn pid_amount(threshold: Seq<char>) -> nat {
    match natural_upto(threshold, u64::MAX as int) {
        Some(n) => n,
        None => 1000,
    }
}

/// Whether the threshold of a signal is crossed.
pub open spec fn signal_crossed(
    s: ResourceSignals,
    hard: Map<Seq<char>, String>,
    signal: Seq<char>,
) -> bool {
    hard.contains_key(signal) && {
        let t = hard[signal]@;
        if signal == "memory.available"@ {
            s.memory_available_bytes < amount_below(
                t,
                (s.memory_available_bytes + s.nodefs_total_bytes) as u64,
            )
        } else if signal == "nodefs.available"@ {
            s.nodefs_available_bytes < amount_below(t, s.nodefs_total_bytes)
        } else if signal == "nodefs.inodesFree"@ {
            s.nodefs_inodes_free < amount_below(t, 1_000_000)
        } else if signal == "imagefs.available"@ {
            s.imagefs_available_bytes < amount_below(t, s.imagefs_total_bytes)
        } else if signal == "pid.available"@ {
            s.pid_available < pid_amount(t)
        } else {
            false
        }
    }
}

/// Whether a threshold's number of bytes, where it is one, fits 64 bits.
pub open spec fn fits(threshold: Seq<char>) -> bool {
    without_suffix(threshold, "%"@) is None ==> bytes_of(threshold) <= u64::MAX
}

/// Whether the thresholds on bytes and inodes fit 64 bits.
pub open spec fn byte_thresholds_fit(hard: Map<Seq<char>, String>) -> bool {
    &&& hard.contains_key("memory.available"@) ==> fits(hard["memory.available"@]@)
    &&& hard.contains_key("nodefs.available"@) ==> fits(hard["nodefs.available"@]@)
    &&& hard.contains_key("nodefs.inodesFree"@) ==> fits(hard["nodefs.inodesFree"@]@)
    &&& hard.contains_key("imagefs.available"@) ==> fits(hard["imagefs.available"@]@)
}

fn crosses(hard: &StrMap<String>, signal: &str, value: u64, total: u64) -> (r: bool)
    requires
        hard@.contains_key(signal@) ==> fits(hard@[signal@]@),
    ensures
        r == (hard@.contains_key(signal@) && value < amount_below(hard@[signal@]@, total)),
{
    match hard.get(signal) {
        Some(t) => threshold_exceeded(value, total, t.as_str()),
        None => false,
    }
}

/// Which pressures the signals show under hard thresholds.
pub fn evaluate_pressure(signals: &ResourceSignals, eviction_hard: &StrMap<String>) -> (r:
    PressureConditions)
    requires
        byte_thresholds_fit(eviction_hard@),
        eviction_hard@.contains_key("memory.available"@) ==> signals.memory_available_bytes
            + signals.nodefs_total_bytes <= u64::MAX,
    ensures
        r.memory_pressure == signal_crossed(*signals, eviction_hard@, "memory.available"@),
        r.disk_pressure == (signal_crossed(*signals, eviction_hard@, "nodefs.available"@)
            || signal_crossed(*signals, eviction_hard@, "nodefs.inodesFree"@) || signal_crossed(
            *signals,
            eviction_hard@,
            "imagefs.available"@,
        )),
        r.pid_pressure == signal_crossed(*signals, eviction_hard@, "pid.available"@),
{
    proof {
        reveal_strlit("memory.available");
        reveal_strlit("nodefs.available");
        reveal_strlit("nodefs.inodesFree");
        reveal_strlit("imagefs.available");
        reveal_strlit("pid.available");
        assert("memory.available"@[0] == 'm' && "nodefs.available"@[0] == 'n'
            && "nodefs.inodesFree"@[0] == 'n' && "imagefs.available"@[0] == 'i'
            && "pid.available"@[0] == 'p');
        assert("nodefs.available"@.len() != "nodefs.inodesFree"@.len());
    }
    let memory_pressure = if eviction_hard.contains_key("memory.available") {
        crosses(
            eviction_hard,
            "memory.available",
            signals.memory_available_bytes,
            signals.memory_available_bytes + signals.nodefs_total_bytes,
        )
    } else {
        false
    };
    let nodefs = crosses(
        eviction_hard,
        "nodefs.available",
        signals.nodefs_available_bytes,
        signals.nodefs_total_bytes,
    );
    let inodes = crosses(
        eviction_hard,
        "nodefs.inodesFree",
        signals.nodefs_inodes_free,
        1_000_000,
    );
    let imagefs = crosses(
        eviction_hard,
        "imagefs.available",
        signals.imagefs_available_bytes,
        signals.imagefs_total_bytes,
    );
    let pid_pressure = match eviction_hard.get("pid.available") {
        Some(t) => signals.pid_available < (match parse_u64(t.as_str()) {
            Some(n) => n,
            None => 1000,
        }),
        None => false,
    };
    PressureConditions {
        memory_pressure,
        disk_pressure: nodefs || inodes || imagefs,
        pid_pressure,
    }
}

proof fn lemma_signal_texts()
    ensures
        "Ki"@ == seq!['K', 'i'],
        "Mi"@ == seq!['M', 'i'],
        "Gi"@ == seq!['G', 'i'],
        "%"@ == seq!['%'],
        "memory.available"@ != "nodefs.available"@,
        "memory.available"@ != "nodefs.inodesFree"@,
        "memory.available"@ != "imagefs.available"@,
        "memory.available"@ != "pid.available"@,
        "nodefs.available"@ != "nodefs.inodesFree"@,
        "nodefs.available"@ != "imagefs.available"@,
        "nodefs.available"@ != "pid.available"@,
        "nodefs.inodesFree"@ != "imagefs.available"@,
        "nodefs.inodesFree"@ != "pid.available"@,
        "imagefs.available"@ != "pid.available"@,
{
    reveal_strlit("Ki");
    reveal_strlit("Mi");
    reveal_strlit("Gi");
    reveal_strlit("%");
    reveal_strlit("memory.available");
    reveal_strlit("nodefs.available");
    reveal_strlit("nodefs.inodesFree");
    reveal_strlit("imagefs.available");
    reveal_strlit("pid.available");
    assert("memory.available"@.len() == 16 && "memory.available"@[0] == 'm');
    assert("nodefs.available"@.len() == 16 && "nodefs.available"@[0] == 'n');
    assert("nodefs.inodesFree"@.len() == 17 && "nodefs.inodesFree"@[0] == 'n');
    assert("imagefs.available"@.len() == 17 && "imagefs.available"@[0] == 'i');
    assert("pid.available"@.len() == 13);
}

/// A number with one of the suffixes `Ki`, `Mi` and `Gi` is that many times
/// 1024 bytes, its square or its cube, a bare number is taken as it is, and a
/// number with a percent sign is that part of the whole, rounded down.
pub proof fn law_amounts_are_read(n: nat, total: u64)
    requires
        n * 1024 * 1024 * 1024 <= u64::MAX,
        n * total / 100 <= u64::MAX,
    ensures
        amount_below(dec(n) + "Ki"@, total) == n * 1024,
        amount_below(dec(n) + "Mi"@, total) == n * 1024 * 1024,
        amount_below(dec(n) + "Gi"@, total) == n * 1024 * 1024 * 1024,
        amount_below(dec(n), total) == n,
        amount_below(dec(n) + "%"@, total) == n * total / 100,
        pid_amount(dec(n)) == n,
{
    lemma_signal_texts();
    lemma_dec_suffixed(n, "Ki"@);
    lemma_dec_suffixed(n, "Mi"@);
    lemma_dec_suffixed(n, "Gi"@);
    lemma_dec_suffixed(n, "%"@);
    lemma_dec_suffixed(n, Seq::empty());
    law_natural_numbers_are_read(n, total as nat);
    let d = dec(n).len() as int;
    let k = dec(n) + "Ki"@;
    let m = dec(n) + "Mi"@;
    let g = dec(n) + "Gi"@;
    assert(k.last() == 'i' && m.last() == 'i' && g.last() == 'i');
    assert(m[d] == 'M' && g[d] == 'G');
    lemma_other_suffix(k, "%"@);
    lemma_other_suffix(m, "%"@);
    lemma_other_suffix(g, "%"@);
    lemma_other_suffix(dec(n), "%"@);
    lemma_other_suffix(m, "Ki"@);
    lemma_other_suffix(g, "Ki"@);
    lemma_other_suffix(g, "Mi"@);
    lemma_other_suffix(dec(n), "Ki"@);
    lemma_other_suffix(dec(n), "Mi"@);
    lemma_other_suffix(dec(n), "Gi"@);
}

/// A signal crosses its threshold where less of its own resource is available
/// than that asks for; the memory, the file systems, the inodes and the
/// processes each have their own. A signal without a threshold never does.
pub proof fn law_signals_have_their_resources(
    s: ResourceSignals,
    hard: Map<Seq<char>, String>,
    signal: Seq<char>,
    n: nat,
)
    requires
        n <= u64::MAX,
        hard.contains_key(signal) ==> hard[signal]@ == dec(n),
    ensures
        !hard.contains_key(signal) ==> !signal_crossed(s, hard, signal),
        hard.contains_key(signal) && signal == "memory.available"@ ==> (signal_crossed(
            s,
            hard,
            signal,
        ) <==> s.memory_available_bytes < n),
        hard.contains_key(signal) && signal == "nodefs.available"@ ==> (signal_crossed(
            s,
            hard,
            signal,
        ) <==> s.nodefs_available_bytes < n),
        hard.contains_key(signal) && signal == "nodefs.inodesFree"@ ==> (signal_crossed(
            s,
            hard,
            signal,
        ) <==> s.nodefs_inodes_free < n),
        hard.contains_key(signal) && signal == "imagefs.available"@ ==> (signal_crossed(
            s,
            hard,
            signal,
        ) <==> s.imagefs_available_bytes < n),
        hard.contains_key(signal) && signal == "pid.available"@ ==> (signal_crossed(
            s,
            hard,
            signal,
        ) <==> s.pid_available < n),
{
    lemma_signal_texts();
    lemma_dec_suffixed(n, Seq::empty());
    lemma_other_suffix(dec(n), "%"@);
    lemma_other_suffix(dec(n), "Ki"@);
    lemma_other_suffix(dec(n), "Mi"@);
    lemma_other_suffix(dec(n), "Gi"@);
}

/// A percentage of a file system is a part of its own size.
pub proof fn law_percentages_are_of_the_own_file_system(
    s: ResourceSignals,
    hard: Map<Seq<char>, String>,
    signal: Seq<char>,
    percent: nat,
)
    requires
        percent <= 100,
        hard.contains_key(signal),
        hard[signal]@ == dec(percent) + "%"@,
    ensures
        signal == "nodefs.available"@ ==> (signal_crossed(s, hard, signal)
            <==> s.nodefs_available_bytes < percent * s.nodefs_total_bytes / 100),
        signal == "imagefs.available"@ ==> (signal_crossed(s, hard, signal)
            <==> s.imagefs_available_bytes < percent * s.imagefs_total_bytes / 100),
{
    lemma_signal_texts();
    lemma_dec_suffixed(percent, "%"@);
    law_natural_numbers_are_read(percent, s.nodefs_total_bytes as nat);
    law_natural_numbers_are_read(percent, s.imagefs_total_bytes as nat);
    assert(percent * s.nodefs_total_bytes <= 100 * u64::MAX) by (nonlinear_arith)
        requires
            percent <= 100,
            s.nodefs_total_bytes <= u64::MAX,
    ;
    assert(percent * s.imagefs_total_bytes <= 100 * u64::MAX) by (nonlinear_arith)
        requires
            percent <= 100,
            s.imagefs_total_bytes <= u64::MAX,
    ;
}

/// Each name that is a number counts as one process, and no other does.
pub proof fn law_processes_are_counted(names: Seq<String>, name: String, n: nat)
    ensures
        name@ == dec(n) && n <= u64::MAX ==> process_count(names.push(name)) == process_count(names)
            + 1,
        name@.len() > 0 && !is_digit(name@.last()) ==> process_count(names.push(name))
            == process_count(names),
{
    assert(names.push(name).drop_last() =~= names);
    lemma_dec_suffixed(n, Seq::empty());
    if name@.len() > 0 && !is_digit(name@.last()) {
        if name@[0] == '+' && name@.len() > 1 {
            assert(name@.skip(1).last() == name@.last());
        }
    }
}

/// The limit on process numbers and the available memory are read from the
/// kernel's texts; without them there are the usual limit and no memory.
pub proof fn law_kernel_texts_are_read(pid_max: Option<String>, meminfo: Option<String>, n: nat)
    requires
        n <= u64::MAX,
    ensures
        pid_max matches Some(t) ==> (t@ == dec(n) ==> pid_limit(pid_max) == n),
        pid_max matches Some(t) ==> (t@ == dec(n) + seq!['\n'] ==> pid_limit(pid_max) == n),
        pid_max is None ==> pid_limit(pid_max) == 32768,
        meminfo matches Some(t) ==> (meminfo_kib_of(t@, "MemAvailable:"@) == Some(n)
            ==> available_kib(meminfo) == n),
        meminfo is None ==> available_kib(meminfo) == 0,
{
    lemma_dec_suffixed(n, Seq::empty());
    assert(dec(n) + Seq::<char>::empty() =~= dec(n));
    law_trimming_keeps_what_is_within(Seq::empty(), dec(n), seq!['\n']);
    assert(Seq::<char>::empty() + dec(n) + seq!['\n'] =~= dec(n) + seq!['\n']);
}

/// Each entry that is a number counts as a process, and no other does.
pub proof fn law_numbered_entries_are_processes(names: Seq<String>, name: String)
    ensures
        process_count(Seq::empty()) == 0,
        natural_upto(name@, u64::MAX as int) is Some ==> process_count(names.push(name))
            == process_count(names) + 1,
        natural_upto(name@, u64::MAX as int) is None ==> process_count(names.push(name))
            == process_count(names),
{
    assert(names.push(name).drop_last() =~= names);
}

/// What cannot be read has its stand-in.
pub proof fn law_unreadable_amounts_have_stand_ins(s: Seq<char>, f: FsStat)
    ensures
        natural_upto(s, u64::MAX as int) is None ==> pid_amount(s) == 1000 && natural_or_zero(s) == 0,
        fs_sizes(None) == (0nat, 0nat, 0nat),
        fs_sizes(Some(f)).0 == f.blocks_available * f.block_bytes,
        fs_sizes(Some(f)).1 == f.inodes_free,
        fs_sizes(Some(f)).2 == f.blocks_total * f.block_bytes,
{
    assert(f.blocks_available * f.block_bytes >= 0 && f.blocks_total * f.block_bytes >= 0)
        by (nonlinear_arith)
        requires
            f.blocks_available >= 0 && f.block_bytes >= 0 && f.blocks_total >= 0,
    ;
}

/// A share that is no number asks for nothing.
pub proof fn law_unreadable_shares_ask_for_nothing(p: Seq<char>, total: u64)
    requires
        number_of(p) is None,
    ensures
        amount_below(p + "%"@, total) == 0,
{
    let s = p + "%"@;
    reveal_strlit("%");
    assert(s.skip(s.len() - "%"@.len()) =~= "%"@);
    assert(s.take(s.len() - "%"@.len()) =~= p);
}

} // verus!
