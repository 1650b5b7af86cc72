//! Eviction thresholds and the pressure that a node is under.
pub mod manager;
pub mod pressure;

use crate::decimal::{
    law_natural_numbers_are_read, number_of, parse_decimal, whole_multiple, Decimal, Number,
};
use crate::strmap::StrMap;
use crate::text::{
    dec, lemma_dec_suffixed, lemma_other_suffix, natural_upto, parse_u64, same, strip_suffix, trim,
    trimmed, without_suffix,
};
use vstd::prelude::*;

verus! {

/// How much of a resource has to stay available.
#[derive(Debug)]
pub enum ThresholdValue {
    /// A number of bytes or of items.
    Absolute(u64),
    /// A part of the capacity, in percent.
    Percentage(Decimal),
}

/// What a threshold value denotes.
pub enum ThresholdModel {
    Absolute(nat),
    Percentage(Number),
}

impl View for ThresholdValue {
    type V = ThresholdModel;

    open spec fn view(&self) -> ThresholdModel {
        match *self {
            ThresholdValue::Absolute(n) => ThresholdModel::Absolute(n as nat),
            ThresholdValue::Percentage(d) => ThresholdModel::Percentage(d@),
        }
    }
}

impl ThresholdValue {
    pub open spec fn wf(self) -> bool {
        match self {
            ThresholdValue::Absolute(_) => true,
            ThresholdValue::Percentage(d) => d.wf(),
        }
    }
}

/// The threshold of a resource.
#[derive(Debug)]
pub struct EvictionThreshold {
    pub resource: String,
    pub value: ThresholdValue,
}

/// The amount below which a threshold is crossed.
pub open spec fn threshold_amount(t: ThresholdModel, capacity: u64) -> nat {
    match t {
        ThresholdModel::Absolute(n) => n,
        ThresholdModel::Percentage(p) => whole_multiple(p, capacity as nat, 2),
    }
}

/// What a threshold text denotes: a percentage or a quantity.
pub open spec fn threshold_of(text: Seq<char>) -> Option<ThresholdModel> {
    let t = trimmed(text);
    match without_suffix(t, "%"@) {
        Some(p) => match number_of(p) {
            Some(n) => Some(ThresholdModel::Percentage(n)),
            None => None,
        },
        None => match quantity_of(t) {
            Some(n) => Some(ThresholdModel::Absolute(n)),
            None => None,
        },
    }
}

impl EvictionThreshold {
    /// Parses a threshold such as `100Mi` or `10%`.
    pub fn parse(resource: &str, value: &str) -> (r: Option<Self>)
        ensures
            match r {
                Some(t) => t.resource@ == resource@ && t.value.wf() && threshold_of(value@) == Some(
                    t.value@,
                ),
                None => threshold_of(value@) is None,
            },
    {
        let t = trim(value);
        match strip_suffix(t, "%") {
            Some(p) => match parse_decimal(p) {
                Some(d) => Some(
                    EvictionThreshold {
                        resource: resource.to_owned(),
                        value: ThresholdValue::Percentage(d),
                    },
                ),
                None => None,
            },
            None => match parse_quantity(t) {
                Some(n) => Some(
                    EvictionThreshold {
                        resource: resource.to_owned(),
                        value: ThresholdValue::Absolute(n),
                    },
                ),
                None => None,
            },
        }
    }

    /// Whether less is available than the threshold demands.
    pub fn is_exceeded(&self, current: u64, capacity: u64) -> (r: bool)
        requires
            self.value.wf(),
        ensures
            r == (current < threshold_amount(self.value@, capacity)),
    {
        match &self.value {
            ThresholdValue::Absolute(n) => current < *n,
            ThresholdValue::Percentage(p) => current < p.times(capacity, 2),
        }
    }
}

// ---------------------------------------------------------------------------
// Quantities
// ---------------------------------------------------------------------------

/// The number before `suffix` times `factor`, where `s` is a number with that
/// suffix.
pub open spec fn suffixed(s: Seq<char>, suffix: Seq<char>, factor: nat) -> Option<nat> {
    match without_suffix(s, suffix) {
        Some(p) => match number_of(p) {
            Some(n) => Some(whole_multiple(n, factor, 0)),
            None => None,
        },
        None => None,
    }
}

/// What a quantity text denotes: a decimal number with a binary or decimal
/// suffix, or a plain natural number.
pub open spec fn quantity_of(s: Seq<char>) -> Option<nat> {
    if suffixed(s, "Ki"@, 1024) is Some {
        suffixed(s, "Ki"@, 1024)
    } else if suffixed(s, "Mi"@, 0x10_0000) is Some {
        suffixed(s, "Mi"@, 0x10_0000)
    } else if suffixed(s, "Gi"@, 0x4000_0000) is Some {
        suffixed(s, "Gi"@, 0x4000_0000)
    } else if suffixed(s, "Ti"@, 0x100_0000_0000) is Some {
        suffixed(s, "Ti"@, 0x100_0000_0000)
    } else if suffixed(s, "Pi"@, 0x4_0000_0000_0000) is Some {
        suffixed(s, "Pi"@, 0x4_0000_0000_0000)
    } else if suffixed(s, "K"@, 1000) is Some {
        suffixed(s, "K"@, 1000)
    } else if suffixed(s, "M"@, 1_000_000) is Some {
        suffixed(s, "M"@, 1_000_000)
    } else if suffixed(s, "G"@, 1_000_000_000) is Some {
        suffixed(s, "G"@, 1_000_000_000)
    } else if suffixed(s, "T"@, 1_000_000_000_000) is Some {
        suffixed(s, "T"@, 1_000_000_000_000)
    } else {
        natural_upto(s, u64::MAX as int)
    }
}

fn parse_suffixed(s: &str, suffix: &str, factor: u64) -> (r: Option<u64>)
    ensures
        match r {
            Some(n) => suffixed(s@, suffix@, factor as nat) == Some(n as nat),
            None => suffixed(s@, suffix@, factor as nat) is None,
        },
{
    match strip_suffix(s, suffix) {
        Some(p) => match parse_decimal(p) {
            Some(d) => Some(d.times(factor, 0)),
            None => None,
        },
        None => None,
    }
}

/// Parses a quantity such as `512Ki`, `1.5Gi` or `1073741824`.
pub fn parse_quantity(s: &str) -> (r: Option<u64>)
    ensures
        match r {
            Some(n) => quantity_of(s@) == Some(n as nat),
            None => quantity_of(s@) is None,
        },
{
    if let Some(n) = parse_suffixed(s, "Ki", 1024) {
        return Some(n);
    }
    if let Some(n) = parse_suffixed(s, "Mi", 0x10_0000) {
        return Some(n);
    }
    if let Some(n) = parse_suffixed(s, "Gi", 0x4000_0000) {
        return Some(n);
    }
    if let Some(n) = parse_suffixed(s, "Ti", 0x100_0000_0000) {
        return Some(n);
    }
    if let Some(n) = parse_suffixed(s, "Pi", 0x4_0000_0000_0000) {
        return Some(n);
    }
    if let Some(n) = parse_suffixed(s, "K", 1000) {
        return Some(n);
    }
    if let Some(n) = parse_suffixed(s, "M", 1_000_000) {
        return Some(n);
    }
    if let Some(n) = parse_suffixed(s, "G", 1_000_000_000) {
        return Some(n);
    }
    if let Some(n) = parse_suffixed(s, "T", 1_000_000_000_000) {
        return Some(n);
    }
    parse_u64(s)
}

// ---------------------------------------------------------------------------
// Evaluation
// ---------------------------------------------------------------------------

/// The pressures that a node is under.
#[derive(Debug, Clone, Copy, PartialEq, Eq, Structural)]
pub struct ResourcePressure {
    pub memory_pressure: bool,
    pub disk_pressure: bool,
    pub pid_pressure: bool,
}

impl Default for ResourcePressure {
    fn default() -> (r: Self)
        ensures
            !r.memory_pressure && !r.disk_pressure && !r.pid_pressure,
    {
        ResourcePressure { memory_pressure: false, disk_pressure: false, pid_pressure: false }
    }
}

/// The resources of a node and what of them is available.
#[derive(Debug, Clone, Copy, PartialEq, Eq, Structural)]
pub struct NodeResources {
    pub available_memory_bytes: u64,
    pub total_memory_bytes: u64,
    pub available_disk_bytes: u64,
    pub total_disk_bytes: u64,
    pub available_pids: u64,
    pub total_pids: u64,
}

/// A resource and its threshold.
pub type ThresholdEntry = (Seq<char>, ThresholdModel);

pub open spec fn entries_of(v: Seq<EvictionThreshold>) -> Seq<ThresholdEntry> {
    v.map_values(|t: EvictionThreshold| (t.resource@, t.value@))
}

/// The thresholds of a configuration; those that cannot be read are left out.
pub open spec fn configured(pairs: Seq<(Seq<char>, String)>) -> Seq<ThresholdEntry>
    decreases pairs.len(),
{
    if pairs.len() == 0 {
        Seq::empty()
    } else {
        let front = configured(pairs.drop_last());
        match threshold_of(pairs.last().1@) {
            Some(t) => front.push((pairs.last().0, t)),
            None => front,
        }
    }
}

/// Whether some threshold of `resource` is crossed.
pub open spec fn crossed(
    thresholds: Seq<ThresholdEntry>,
    resource: Seq<char>,
    current: u64,
    capacity: u64,
) -> bool {
    exists|i: int|
        0 <= i < thresholds.len() && (#[trigger] thresholds[i]).0 == resource && current
            < threshold_amount(thresholds[i].1, capacity)
}

/// The pressures under hard thresholds.
pub open spec fn pressure_of(
    thresholds: Seq<ThresholdEntry>,
    resources: NodeResources,
) -> ResourcePressure {
    ResourcePressure {
        memory_pressure: crossed(
            thresholds,
            "memory.available"@,
            resources.available_memory_bytes,
            resources.total_memory_bytes,
        ),
        disk_pressure: crossed(
            thresholds,
            "nodefs.available"@,
            resources.available_disk_bytes,
            resources.total_disk_bytes,
        ),
        pid_pressure: crossed(
            thresholds,
            "pid.available"@,
            resources.available_pids,
            resources.total_pids,
        ),
    }
}

/// Evaluates thresholds against what a node has available.
#[derive(Debug)]
pub struct EvictionEvaluator {
    pub hard_thresholds: Vec<EvictionThreshold>,
    pub soft_thresholds: Vec<EvictionThreshold>,
}

fn read_thresholds(m: &StrMap<String>) -> (r: Vec<EvictionThreshold>)
    ensures
        entries_of(r@) == configured(m.pairs()),
        forall|i: int| 0 <= i < r@.len() ==> (#[trigger] r@[i]).value.wf(),
{
    let n: usize = m.len();
    let mut out: Vec<EvictionThreshold> = Vec::new();
    let mut i: usize = 0;
    assert(entries_of(out@) =~= configured(m.pairs().take(0)));
    while i < n
        invariant
            i <= n == m.pairs().len(),
            entries_of(out@) == configured(m.pairs().take(i as int)),
            forall|k: int| 0 <= k < out@.len() ==> (#[trigger] out@[k]).value.wf(),
        decreases n - i,
    {
        let ghost before = out@;
        assert(m.pairs().take(i + 1).drop_last() =~= m.pairs().take(i as int));
        if let Some(t) = EvictionThreshold::parse(m.key_at(i).as_str(), m.value_at(i).as_str()) {
            out.push(t);
            assert(entries_of(out@) =~= entries_of(before).push((t.resource@, t.value@)));
        }
        i = i + 1;
    }
    assert(m.pairs().take(i as int) =~= m.pairs());
    out
}

impl EvictionEvaluator {
    pub open spec fn wf(self) -> bool {
        &&& forall|i: int|
            0 <= i < self.hard_thresholds@.len() ==> (#[trigger] self.hard_thresholds@[i]).value.wf()
        &&& forall|i: int|
            0 <= i < self.soft_thresholds@.len() ==> (#[trigger] self.soft_thresholds@[i]).value.wf()
    }

    /// An evaluator of the configured thresholds; those that cannot be read
    /// are left out.
    pub fn new(hard: &StrMap<String>, soft: &StrMap<String>) -> (r: Self)
        ensures
            r.wf(),
            entries_of(r.hard_thresholds@) == configured(hard.pairs()),
            entries_of(r.soft_thresholds@) == configured(soft.pairs()),
    {
        EvictionEvaluator {
            hard_thresholds: read_thresholds(hard),
            soft_thresholds: read_thresholds(soft),
        }
    }

    fn crosses(&self, resource: &str, current: u64, capacity: u64) -> (r: bool)
        requires
            self.wf(),
        ensures
            r == crossed(entries_of(self.hard_thresholds@), resource@, current, capacity),
    {
        let ghost entries = entries_of(self.hard_thresholds@);
        let mut i: usize = 0;
        while i < self.hard_thresholds.len()
            invariant
                i <= self.hard_thresholds@.len(),
                self.wf(),
                entries == entries_of(self.hard_thresholds@),
                forall|k: int|
                    0 <= k < i ==> !((#[trigger] entries[k]).0 == resource@ && current
                        < threshold_amount(entries[k].1, capacity)),
            decreases self.hard_thresholds@.len() - i,
        {
            let t = &self.hard_thresholds[i];
            assert(entries[i as int] == (t.resource@, t.value@));
            if same(t.resource.as_str(), resource) && t.is_exceeded(current, capacity) {
                return true;
            }
            i = i + 1;
        }
        false
    }

    /// The pressures that the node is under, by the hard thresholds.
    pub fn evaluate(&self, resources: &NodeResources) -> (r: ResourcePressure)
        requires
            self.wf(),
        ensures
            r == pressure_of(entries_of(self.hard_thresholds@), *resources),
    {
        ResourcePressure {
            memory_pressure: self.crosses(
                "memory.available",
                resources.available_memory_bytes,
                resources.total_memory_bytes,
            ),
            disk_pressure: self.crosses(
                "nodefs.available",
                resources.available_disk_bytes,
                resources.total_disk_bytes,
            ),
            pid_pressure: self.crosses(
                "pid.available",
                resources.available_pids,
                resources.total_pids,
            ),
        }
    }
}

/// More available of every resource never brings a pressure that was not
/// there before.
pub proof fn law_more_available_less_pressure(
    thresholds: Seq<ThresholdEntry>,
    a: NodeResources,
    b: NodeResources,
)
    requires
        a.total_memory_bytes == b.total_memory_bytes,
        a.total_disk_bytes == b.total_disk_bytes,
        a.total_pids == b.total_pids,
        a.available_memory_bytes <= b.available_memory_bytes,
        a.available_disk_bytes <= b.available_disk_bytes,
        a.available_pids <= b.available_pids,
    ensures
        pressure_of(thresholds, b).memory_pressure ==> pressure_of(thresholds, a).memory_pressure,
        pressure_of(thresholds, b).disk_pressure ==> pressure_of(thresholds, a).disk_pressure,
        pressure_of(thresholds, b).pid_pressure ==> pressure_of(thresholds, a).pid_pressure,
{
}

/// A number with a suffix is the number times what the suffix stands for: `Ki`
/// to `Pi` are powers of 1024, `K` to `T` powers of 1000. A bare number is taken
/// as it is.
pub proof fn law_quantity_suffixes_scale(n: nat, unit: Seq<char>, factor: nat)
    requires
        (unit == "Ki"@ && factor == 1024)
            || (unit == "Mi"@ && factor == 0x10_0000)
            || (unit == "Gi"@ && factor == 0x4000_0000)
            || (unit == "Ti"@ && factor == 0x100_0000_0000)
            || (unit == "Pi"@ && factor == 0x4_0000_0000_0000)
            || (unit == "K"@ && factor == 1000)
            || (unit == "M"@ && factor == 1_000_000)
            || (unit == "G"@ && factor == 1_000_000_000)
            || (unit == "T"@ && factor == 1_000_000_000_000),
        n * factor <= u64::MAX,
    ensures
        quantity_of(dec(n) + unit) == Some(n * factor),
        quantity_of(dec(n)) == Some(n),
{
    assert(n <= n * factor) by (nonlinear_arith)
        requires
            factor >= 1,
    ;
    lemma_dec_suffixed(n, Seq::empty());
    lemma_other_units(dec(n));
    lemma_unit_texts();
    lemma_dec_suffixed(n, unit);
    law_natural_numbers_are_read(n, factor);
    let s = dec(n) + unit;
    assert(suffixed(s, unit, factor) == Some(n * factor));
    assert(s.last() == unit.last());
    if unit.len() == 2 {
        assert(s[s.len() - 2] == unit[0]);
    }
    lemma_other_units(s);
}

/// A text ends in those units alone whose characters are its last ones.
proof fn lemma_other_units(s: Seq<char>)
    requires
        s.len() > 0,
        s.last() == 'i' ==> s.len() >= 2,
    ensures
        (s.last() != 'i' || s[s.len() - 2] != 'K') ==> suffixed(s, "Ki"@, 1024) is None,
        (s.last() != 'i' || s[s.len() - 2] != 'M') ==> suffixed(s, "Mi"@, 0x10_0000) is None,
        (s.last() != 'i' || s[s.len() - 2] != 'G') ==> suffixed(s, "Gi"@, 0x4000_0000) is None,
        (s.last() != 'i' || s[s.len() - 2] != 'T') ==> suffixed(s, "Ti"@, 0x100_0000_0000) is None,
        (s.last() != 'i' || s[s.len() - 2] != 'P') ==> suffixed(s, "Pi"@, 0x4_0000_0000_0000) is None,
        s.last() != 'K' ==> suffixed(s, "K"@, 1000) is None,
        s.last() != 'M' ==> suffixed(s, "M"@, 1_000_000) is None,
        s.last() != 'G' ==> suffixed(s, "G"@, 1_000_000_000) is None,
        s.last() != 'T' ==> suffixed(s, "T"@, 1_000_000_000_000) is None,
{
    lemma_unit_texts();
    if s.last() != 'i' || s[s.len() - 2] != 'K' {
        lemma_other_suffix(s, "Ki"@);
    }
    if s.last() != 'i' || s[s.len() - 2] != 'M' {
        lemma_other_suffix(s, "Mi"@);
    }
    if s.last() != 'i' || s[s.len() - 2] != 'G' {
        lemma_other_suffix(s, "Gi"@);
    }
    if s.last() != 'i' || s[s.len() - 2] != 'T' {
        lemma_other_suffix(s, "Ti"@);
    }
    if s.last() != 'i' || s[s.len() - 2] != 'P' {
        lemma_other_suffix(s, "Pi"@);
    }
    if s.last() != 'K' {
        lemma_other_suffix(s, "K"@);
    }
    if s.last() != 'M' {
        lemma_other_suffix(s, "M"@);
    }
    if s.last() != 'G' {
        lemma_other_suffix(s, "G"@);
    }
    if s.last() != 'T' {
        lemma_other_suffix(s, "T"@);
    }
}

proof fn lemma_unit_texts()
    ensures
        "Ki"@ == seq!['K', 'i'],
        "Mi"@ == seq!['M', 'i'],
        "Gi"@ == seq!['G', 'i'],
        "Ti"@ == seq!['T', 'i'],
        "Pi"@ == seq!['P', 'i'],
        "K"@ == seq!['K'],
        "M"@ == seq!['M'],
        "G"@ == seq!['G'],
        "T"@ == seq!['T'],
        "%"@ == seq!['%'],
{
    reveal_strlit("Ki");
    reveal_strlit("Mi");
    reveal_strlit("Gi");
    reveal_strlit("Ti");
    reveal_strlit("Pi");
    reveal_strlit("K");
    reveal_strlit("M");
    reveal_strlit("G");
    reveal_strlit("T");
    reveal_strlit("%");
}

/// A number with a percent sign is that part of the capacity, rounded down, and
/// one without is taken as it is.
pub proof fn law_thresholds_are_amounts(n: nat, capacity: u64)
    requires
        n <= u64::MAX,
        n * capacity / 100 <= u64::MAX,
    ensures
        threshold_of(dec(n) + "%"@) matches Some(t) && threshold_amount(t, capacity) == n * capacity
            / 100,
        threshold_of(dec(n)) matches Some(t) && threshold_amount(t, capacity) == n,
{
    lemma_unit_texts();
    lemma_dec_suffixed(n, "%"@);
    lemma_dec_suffixed(n, Seq::empty());
    assert(dec(n) + Seq::<char>::empty() =~= dec(n));
    law_natural_numbers_are_read(n, capacity as nat);
    lemma_other_suffix(dec(n), "%"@);
    lemma_other_units(dec(n));
}

/// Each pressure comes from its own resource: a node is under memory pressure
/// where less memory is available than some threshold of `memory.available`
/// asks for, and is not where no threshold speaks of memory; and so for disk
/// and `nodefs.available`, and for processes and `pid.available`.
pub proof fn law_each_pressure_has_its_resource(
    thresholds: Seq<ThresholdEntry>,
    r: NodeResources,
    i: int,
    n: nat,
)
    requires
        0 <= i < thresholds.len(),
        thresholds[i].1 == ThresholdModel::Absolute(n),
    ensures
        thresholds[i].0 == "memory.available"@ && r.available_memory_bytes < n ==> pressure_of(
            thresholds,
            r,
        ).memory_pressure,
        thresholds[i].0 == "nodefs.available"@ && r.available_disk_bytes < n ==> pressure_of(
            thresholds,
            r,
        ).disk_pressure,
        thresholds[i].0 == "pid.available"@ && r.available_pids < n ==> pressure_of(
            thresholds,
            r,
        ).pid_pressure,
        thresholds.len() == 1 ==> {
            let p = pressure_of(thresholds, r);
            &&& p.memory_pressure <==> thresholds[0].0 == "memory.available"@
                && r.available_memory_bytes < n
            &&& p.disk_pressure <==> thresholds[0].0 == "nodefs.available"@
                && r.available_disk_bytes < n
            &&& p.pid_pressure <==> thresholds[0].0 == "pid.available"@ && r.available_pids < n
        },
{
}

/// What is available of one resource has no part in the pressure on another.
pub proof fn law_pressures_are_independent(
    thresholds: Seq<ThresholdEntry>,
    a: NodeResources,
    b: NodeResources,
)
    ensures
        a.available_memory_bytes == b.available_memory_bytes && a.total_memory_bytes
            == b.total_memory_bytes ==> pressure_of(thresholds, a).memory_pressure == pressure_of(
            thresholds,
            b,
        ).memory_pressure,
        a.available_disk_bytes == b.available_disk_bytes && a.total_disk_bytes
            == b.total_disk_bytes ==> pressure_of(thresholds, a).disk_pressure == pressure_of(
            thresholds,
            b,
        ).disk_pressure,
        a.available_pids == b.available_pids && a.total_pids == b.total_pids ==> pressure_of(
            thresholds,
            a,
        ).pid_pressure == pressure_of(thresholds, b).pid_pressure,
{
}

/// A threshold that can be read is kept with its resource, and one that cannot
/// be read is left out.
pub proof fn law_readable_thresholds_are_kept(
    pairs: Seq<(Seq<char>, String)>,
    resource: Seq<char>,
    text: String,
)
    ensures
        threshold_of(text@) matches Some(t) ==> configured(pairs.push((resource, text)))
            == configured(pairs).push((resource, t)),
        threshold_of(text@) is None ==> configured(pairs.push((resource, text))) == configured(
            pairs,
        ),
        configured(Seq::<(Seq<char>, String)>::empty()).len() == 0,
{
    assert(pairs.push((resource, text)).drop_last() =~= pairs);
}

} // verus!
