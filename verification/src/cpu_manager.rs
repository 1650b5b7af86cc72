//! Exclusive and shared CPUs.
//!
//! Under the static policy a container of a guaranteed pod that asks for whole
//! CPUs gets CPUs of its own; every other container shares the rest.
use crate::error::KubeletError;
use crate::fileops::{ops, push_op, FileOp, Op};
use crate::json::{
    json_pretty, json_read, jsons, lemma_array_json, lemma_object_json, opt_json, plain_within,
    read_json, write_json_pretty, Json, JsonNumber, JsonValue, MAX_NESTING,
};
use crate::pairmap::{PairKey, PairMap};
use crate::strmap::{distinct_keys, lemma_map_of_dom, map_of, StrMap};
use crate::text::{
    cat2, cat3, cat4, chars_of, dec, decimal, find_from, first_index, is_digit, is_ws, join, joined,
    lemma_dec_digits, lemma_first_index_bounds, lemma_first_index_is, lemma_joined_push,
    lemma_natural_of_dec, natural_upto, parse_u32, pieces, same, split, string_of, texts, trim,
    trimmed,
};
use crate::types::{PodUID, QosClass};
use vstd::prelude::*;

verus! {

// ---------------------------------------------------------------------------
// Sets of CPUs
// ---------------------------------------------------------------------------

pub open spec fn increasing(s: Seq<u32>) -> bool {
    forall|i: int, j: int| 0 <= i < j < s.len() ==> s[i] < s[j]
}

/// The numbers from `a` to `b`, both included.
pub open spec fn between(a: int, b: int) -> Set<u32> {
    Set::new(|c: u32| a <= c <= b)
}

/// A set of CPU numbers, kept in increasing order.
#[derive(Debug)]
pub struct CpuSet {
    cpus: Vec<u32>,
}

impl Default for CpuSet {
    fn default() -> (r: Self)
        ensures
            r@ == Set::<u32>::empty(),
    {
        CpuSet::empty()
    }
}

impl View for CpuSet {
    type V = Set<u32>;

    open spec fn view(&self) -> Set<u32> {
        self.seq().to_set()
    }
}

/// The CPUs that one part of a list denotes: a number, a range of two numbers
/// with a dash in between, or nothing; or why it denotes none.
pub open spec fn part_of(part: Seq<char>) -> Result<Set<u32>, Seq<char>> {
    let p = trimmed(part);
    let i = first_index(p, '-') as int;
    if p.len() == 0 {
        Ok(Set::empty())
    } else if i < p.len() {
        let a = p.take(i);
        let b = p.skip(i + 1);
        match (
            natural_upto(trimmed(a), u32::MAX as int),
            natural_upto(trimmed(b), u32::MAX as int),
        ) {
            (Some(m), Some(n)) => Ok(between(m as int, n as int)),
            (None, _) => Err("invalid cpuset range start '"@ + a + "'"@),
            (_, None) => Err("invalid cpuset range end '"@ + b + "'"@),
        }
    } else {
        match natural_upto(p, u32::MAX as int) {
            Some(n) => Ok(set![n as u32]),
            None => Err("invalid cpu id '"@ + p + "'"@),
        }
    }
}

/// The CPUs that the parts of a list denote together; the first part that
/// denotes none says why.
pub open spec fn parts_of(parts: Seq<Seq<char>>) -> Result<Set<u32>, Seq<char>>
    decreases parts.len(),
{
    if parts.len() == 0 {
        Ok(Set::empty())
    } else {
        match part_of(parts[0]) {
            Err(e) => Err(e),
            Ok(s) => match parts_of(parts.skip(1)) {
                Err(e) => Err(e),
                Ok(t) => Ok(s.union(t)),
            },
        }
    }
}

/// The CPUs that a list such as `0-3,6,8-10` denotes.
pub open spec fn cpuset_of(s: Seq<char>) -> Result<Set<u32>, Seq<char>> {
    parts_of(pieces(s, ','))
}

/// The maximal runs of successive numbers of an increasing sequence.
pub open spec fn runs(s: Seq<u32>) -> Seq<(u32, u32)>
    decreases s.len(),
{
    if s.len() == 0 {
        Seq::empty()
    } else {
        let r = runs(s.drop_last());
        if r.len() > 0 && r.last().1 + 1 == s.last() {
            r.drop_last().push((r.last().0, s.last()))
        } else {
            r.push((s.last(), s.last()))
        }
    }
}

pub open spec fn run_text(r: (u32, u32)) -> Seq<char> {
    if r.0 == r.1 {
        dec(r.0 as nat)
    } else {
        dec(r.0 as nat) + "-"@ + dec(r.1 as nat)
    }
}

pub open spec fn run_texts(rs: Seq<(u32, u32)>) -> Seq<Seq<char>> {
    rs.map_values(|r: (u32, u32)| run_text(r))
}

/// The list that denotes an increasing sequence of CPUs, with runs collapsed.
pub open spec fn cpuset_text(s: Seq<u32>) -> Seq<char> {
    joined(run_texts(runs(s)), ","@)
}

proof fn lemma_increasing_set(s: Seq<u32>)
    requires
        increasing(s),
    ensures
        s.no_duplicates(),
        s.to_set().len() == s.len(),
        s.to_set().finite(),
{
    assert(s.no_duplicates());
    s.unique_seq_to_set();
}

impl CpuSet {
    /// The CPUs in increasing order.
    pub closed spec fn seq(&self) -> Seq<u32> {
        self.cpus@
    }

    #[verifier::type_invariant]
    spec fn inv(self) -> bool {
        increasing(self.cpus@)
    }

    /// The set without any CPU.
    pub fn empty() -> (r: Self)
        ensures
            r@ == Set::<u32>::empty(),
            r.seq() == Seq::<u32>::empty(),
    {
        let cpus: Vec<u32> = Vec::new();
        assert(cpus@.to_set() =~= Set::<u32>::empty());
        CpuSet { cpus }
    }

    /// The set of the given CPUs.
    pub fn new(cpus: Vec<u32>) -> (r: Self)
        ensures
            r@ == cpus@.to_set(),
    {
        let mut r = CpuSet::empty();
        let mut i: usize = 0;
        assert(r@ =~= cpus@.take(0).to_set());
        while i < cpus.len()
            invariant
                i <= cpus@.len(),
                r@ == cpus@.take(i as int).to_set(),
            decreases cpus@.len() - i,
        {
            let one = CpuSet::from_range(cpus[i], cpus[i]);
            r = r.union(&one);
            proof {
                let a = cpus@.take(i as int);
                let b = cpus@.take(i + 1);
                assert forall|c: u32| b.to_set().contains(c) == (a.to_set().contains(c) || c
                    == cpus@[i as int]) by {
                    assert(b =~= a.push(cpus@[i as int]));
                    if a.contains(c) {
                        let k = choose|k: int| 0 <= k < a.len() && a[k] == c;
                        assert(b[k] == c);
                    }
                    if c == cpus@[i as int] {
                        assert(b[i as int] == c);
                    }
                    if b.contains(c) {
                        let k = choose|k: int| 0 <= k < b.len() && b[k] == c;
                        if k < i {
                            assert(a[k] == c);
                        }
                    }
                }
                assert(r@ =~= b.to_set());
            }
            i = i + 1;
        }
        assert(cpus@.take(i as int) =~= cpus@);
        r
    }

    /// The CPUs from `start` to `end`, both included.
    pub fn from_range(start: u32, end: u32) -> (r: Self)
        ensures
            r@ == between(start as int, end as int),
    {
        let mut cpus: Vec<u32> = Vec::new();
        let mut next: u64 = start as u64;
        while next <= end as u64
            invariant
                start <= next,
                next <= end + 1 || next == start,
                end <= u32::MAX,
                cpus@.len() == next - start,
                forall|i: int| 0 <= i < cpus@.len() ==> cpus@[i] == start + i,
            decreases end + 1 - next,
        {
            cpus.push(next as u32);
            next = next + 1;
        }
        proof {
            assert forall|c: u32| cpus@.to_set().contains(c) == between(
                start as int,
                end as int,
            ).contains(c) by {
                if start <= c <= end {
                    assert(cpus@[c - start] == c);
                }
            }
            assert(cpus@.to_set() =~= between(start as int, end as int));
        }
        CpuSet { cpus }
    }

    /// A copy of the set.
    pub fn copied(&self) -> (r: Self)
        ensures
            r@ == self@,
            r.seq() == self.seq(),
    {
        proof {
            use_type_invariant(self);
        }
        let mut cpus: Vec<u32> = Vec::new();
        let mut i: usize = 0;
        while i < self.cpus.len()
            invariant
                i <= self.cpus@.len(),
                cpus@ == self.cpus@.take(i as int),
            decreases self.cpus@.len() - i,
        {
            cpus.push(self.cpus[i]);
            i = i + 1;
            assert(cpus@ =~= self.cpus@.take(i as int));
        }
        assert(cpus@ =~= self.cpus@);
        CpuSet { cpus }
    }

    /// Reads a list such as `0-3,6,8-10`.
    pub fn parse(s: &str) -> (r: Result<Self, KubeletError>)
        ensures
            match cpuset_of(s@) {
                Ok(set) => r matches Ok(c) && c@ == set,
                Err(m) => r matches Err(KubeletError::Config(e)) && e@ == m,
            },
    {
        let parts = split(s, ',');
        let mut acc = CpuSet::empty();
        let mut i: usize = 0;
        let ghost ps = texts(parts@);
        proof {
            assert(ps.skip(0) =~= ps);
            match parts_of(ps) {
                Ok(t) => {
                    assert(acc@.union(t) =~= t);
                },
                Err(_) => {},
            }
        }
        while i < parts.len()
            invariant
                i <= parts@.len(),
                ps == texts(parts@),
                ps == pieces(s@, ','),
                match parts_of(ps.skip(i as int)) {
                    Ok(t) => parts_of(ps) == Ok::<Set<u32>, Seq<char>>(acc@.union(t)),
                    Err(e) => parts_of(ps) == Err::<Set<u32>, Seq<char>>(e),
                },
            decreases parts@.len() - i,
        {
            proof {
                assert(ps.skip(i as int)[0] == parts@[i as int]@);
                assert(ps.skip(i as int).skip(1) =~= ps.skip(i + 1));
            }
            match Self::parse_part(parts[i].as_str()) {
                Ok(one) => {
                    let ghost before = acc@;
                    acc = acc.union(&one);
                    proof {
                        match parts_of(ps.skip(i + 1)) {
                            Ok(t) => {
                                assert(before.union(one@.union(t)) =~= acc@.union(t));
                            },
                            Err(_) => {},
                        }
                    }
                },
                Err(e) => {
                    return Err(e);
                },
            }
            i = i + 1;
        }
        assert(acc@.union(Set::<u32>::empty()) =~= acc@);
        Ok(acc)
    }

    fn parse_part(part: &str) -> (r: Result<Self, KubeletError>)
        ensures
            match part_of(part@) {
                Ok(set) => r matches Ok(c) && c@ == set,
                Err(m) => r matches Err(KubeletError::Config(e)) && e@ == m,
            },
    {
        let p = trim(part);
        if p.is_empty() {
            return Ok(CpuSet::empty());
        }
        let v = chars_of(p);
        let i: usize = find_from(&v, 0, '-');
        assert(v@.skip(0) =~= v@);
        if i < v.len() {
            let a = string_of(&v, 0, i);
            let b = string_of(&v, i + 1, v.len());
            assert(a@ =~= p@.take(i as int));
            assert(b@ =~= p@.skip(i + 1));
            let m = match parse_u32(trim(a.as_str())) {
                Some(m) => m,
                None => {
                    return Err(
                        KubeletError::Config(
                            cat3("invalid cpuset range start '", a.as_str(), "'"),
                        ),
                    );
                },
            };
            let n = match parse_u32(trim(b.as_str())) {
                Some(n) => n,
                None => {
                    return Err(
                        KubeletError::Config(cat3("invalid cpuset range end '", b.as_str(), "'")),
                    );
                },
            };
            Ok(CpuSet::from_range(m, n))
        } else {
            match parse_u32(p) {
                Some(n) => {
                    let r = CpuSet::from_range(n, n);
                    assert(between(n as int, n as int) =~= set![n]);
                    Ok(r)
                },
                None => Err(KubeletError::Config(cat3("invalid cpu id '", p, "'"))),
            }
        }
    }

    /// The list that denotes the set, with runs collapsed.
    pub fn to_cpuset_string(&self) -> (r: String)
        ensures
            r@ == cpuset_text(self.seq()),
            increasing(self.seq()),
            cpuset_of(r@) == Ok::<Set<u32>, Seq<char>>(self@),
    {
        proof {
            use_type_invariant(self);
            lemma_format_parses(self.cpus@);
        }
        let n: usize = self.cpus.len();
        let mut parts: Vec<String> = Vec::new();
        if n == 0 {
            assert(run_texts(runs(self.cpus@)) =~= Seq::<Seq<char>>::empty());
            return String::new();
        }
        let ghost s = self.cpus@;
        let mut start: u32 = self.cpus[0];
        let mut end: u32 = start;
        let mut i: usize = 1;
        proof {
            assert(s.take(1).drop_last() =~= Seq::<u32>::empty());
            assert(runs(Seq::<u32>::empty()) =~= Seq::<(u32, u32)>::empty());
            assert(s.take(1).last() == s[0]);
            assert(runs(s.take(1)) =~= seq![(s[0], s[0])]);
            assert(texts(parts@) =~= run_texts(runs(s.take(1)).drop_last()));
        }
        while i < n
            invariant
                1 <= i <= n == s.len(),
                s == self.cpus@,
                increasing(s),
                end == s[i - 1],
                runs(s.take(i as int)).len() > 0,
                runs(s.take(i as int)).last() == (start, end),
                texts(parts@) == run_texts(runs(s.take(i as int)).drop_last()),
            decreases n - i,
        {
            let cpu: u32 = self.cpus[i];
            let ghost r = runs(s.take(i as int));
            let ghost before = parts@;
            proof {
                assert(s.take(i + 1).drop_last() =~= s.take(i as int));
                assert(s.take(i + 1).last() == cpu);
                assert(s[i - 1] < s[i as int]);
            }
            if cpu == end + 1 {
                end = cpu;
                assert(runs(s.take(i + 1)).drop_last() =~= r.drop_last());
            } else {
                let t = Self::format_run(start, end);
                parts.push(t);
                proof {
                    assert(runs(s.take(i + 1)) =~= r.push((cpu, cpu)));
                    assert(runs(s.take(i + 1)).drop_last() =~= r);
                    assert(r =~= r.drop_last().push((start, end)));
                    assert(texts(parts@) =~= texts(before).push(t@));
                    assert(run_texts(r) =~= run_texts(r.drop_last()).push(run_text((start, end))));
                }
                start = cpu;
                end = cpu;
            }
            i = i + 1;
        }
        let t = Self::format_run(start, end);
        let ghost before = parts@;
        parts.push(t);
        proof {
            assert(s.take(i as int) =~= s);
            let r = runs(s);
            assert(r =~= r.drop_last().push((start, end)));
            assert(texts(parts@) =~= texts(before).push(t@));
            assert(run_texts(r) =~= run_texts(r.drop_last()).push(run_text((start, end))));
        }
        join(&parts, ",")
    }

    fn format_run(start: u32, end: u32) -> (r: String)
        ensures
            r@ == run_text((start, end)),
    {
        let a = decimal(start as u64);
        if start == end {
            return a;
        }
        let b = decimal(end as u64);
        cat3(a.as_str(), "-", b.as_str())
    }

    /// The CPUs in increasing order.
    pub fn to_vec(&self) -> (r: Vec<u32>)
        ensures
            r@ == self.seq(),
            increasing(r@),
    {
        proof {
            use_type_invariant(self);
        }
        let c = self.copied();
        c.cpus
    }

    /// The number of CPUs.
    pub fn len(&self) -> (n: usize)
        ensures
            n == self@.len(),
            n == self.seq().len(),
            self@.finite(),
            increasing(self.seq()),
    {
        proof {
            use_type_invariant(self);
            lemma_increasing_set(self.cpus@);
        }
        self.cpus.len()
    }

    /// Whether there is no CPU.
    pub fn is_empty(&self) -> (r: bool)
        ensures
            r == (self@ == Set::<u32>::empty()),
    {
        if self.cpus.len() == 0 {
            assert(self@ =~= Set::<u32>::empty());
            true
        } else {
            assert(self@.contains(self.cpus@[0]));
            false
        }
    }

    /// Whether the CPU is in the set.
    pub fn contains(&self, cpu: u32) -> (r: bool)
        ensures
            r == self@.contains(cpu),
    {
        let mut i: usize = 0;
        while i < self.cpus.len()
            invariant
                i <= self.cpus@.len(),
                forall|k: int| 0 <= k < i ==> self.cpus@[k] != cpu,
            decreases self.cpus@.len() - i,
        {
            if self.cpus[i] == cpu {
                assert(self.cpus@.contains(cpu));
                return true;
            }
            i = i + 1;
        }
        false
    }

    /// Takes the `count` CPUs with the smallest numbers out of the set; takes
    /// none where there are fewer.
    pub fn take(&mut self, count: usize) -> (r: Option<CpuSet>)
        ensures
            match r {
                Some(t) => {
                    &&& count <= old(self).seq().len()
                    &&& t.seq() == old(self).seq().take(count as int)
                    &&& final(self).seq() == old(self).seq().skip(count as int)
                    &&& t@.len() == count
                    &&& t@.disjoint(final(self)@)
                    &&& t@.union(final(self)@) == old(self)@
                },
                None => count > old(self).seq().len() && *final(self) == *old(self),
            },
    {
        proof {
            use_type_invariant(&*self);
        }
        if self.cpus.len() < count {
            return None;
        }
        let ghost s = self.cpus@;
        let mut taken: Vec<u32> = Vec::new();
        let mut rest: Vec<u32> = Vec::new();
        let mut i: usize = 0;
        while i < self.cpus.len()
            invariant
                i <= self.cpus@.len(),
                self.cpus@ == s,
                count <= s.len(),
                *self == *old(self),
                taken@ == s.take(if i < count {
                    i as int
                } else {
                    count as int
                }),
                rest@ == s.subrange(
                    if i < count {
                        i as int
                    } else {
                        count as int
                    },
                    i as int,
                ),
            decreases self.cpus@.len() - i,
        {
            if i < count {
                taken.push(self.cpus[i]);
            } else {
                rest.push(self.cpus[i]);
            }
            i = i + 1;
            assert(taken@ =~= s.take(
                if i < count {
                    i as int
                } else {
                    count as int
                },
            ));
            assert(rest@ =~= s.subrange(
                if i < count {
                    i as int
                } else {
                    count as int
                },
                i as int,
            ));
        }
        proof {
            assert(taken@ =~= s.take(count as int));
            assert(rest@ =~= s.skip(count as int));
            lemma_increasing_set(taken@);
            assert forall|c: u32| s.to_set().contains(c) == (taken@.to_set().contains(c)
                || rest@.to_set().contains(c)) by {
                if s.contains(c) {
                    let k = choose|k: int| 0 <= k < s.len() && s[k] == c;
                    if k < count {
                        assert(taken@[k] == c);
                    } else {
                        assert(rest@[k - count] == c);
                    }
                }
                if taken@.contains(c) {
                    let k = choose|k: int| 0 <= k < taken@.len() && taken@[k] == c;
                    assert(s[k] == c);
                }
                if rest@.contains(c) {
                    let k = choose|k: int| 0 <= k < rest@.len() && rest@[k] == c;
                    assert(s[k + count] == c);
                }
            }
            assert(taken@.to_set().union(rest@.to_set()) =~= s.to_set());
            assert forall|c: u32| !(taken@.to_set().contains(c) && rest@.to_set().contains(c)) by {
                if taken@.contains(c) && rest@.contains(c) {
                    let k = choose|k: int| 0 <= k < taken@.len() && taken@[k] == c;
                    let j = choose|j: int| 0 <= j < rest@.len() && rest@[j] == c;
                    assert(s[k] < s[j + count]);
                }
            }
            assert(taken@.to_set().disjoint(rest@.to_set()));
        }
        self.cpus = rest;
        Some(CpuSet { cpus: taken })
    }

    /// The CPUs that are in either set.
    pub fn union(&self, other: &CpuSet) -> (r: CpuSet)
        ensures
            r@ == self@.union(other@),
    {
        proof {
            use_type_invariant(self);
            use_type_invariant(other);
        }
        let mut cpus: Vec<u32> = Vec::new();
        let mut i: usize = 0;
        let mut j: usize = 0;
        let ghost a = self.cpus@;
        let ghost b = other.cpus@;
        while i < self.cpus.len() || j < other.cpus.len()
            invariant
                a == self.cpus@,
                b == other.cpus@,
                i <= a.len(),
                j <= b.len(),
                increasing(a),
                increasing(b),
                increasing(cpus@),
                forall|k: int, m: int| 0 <= k < cpus@.len() && i <= m < a.len() ==> cpus@[k] < a[m],
                forall|k: int, m: int| 0 <= k < cpus@.len() && j <= m < b.len() ==> cpus@[k] < b[m],
                forall|c: u32|
                    cpus@.contains(c) <==> a.take(i as int).contains(c) || b.take(
                        j as int,
                    ).contains(c),
            decreases a.len() - i + b.len() - j,
        {
            let from_a: bool = i < self.cpus.len() && (j >= other.cpus.len() || self.cpus[i]
                <= other.cpus[j]);
            let from_b: bool = j < other.cpus.len() && (i >= self.cpus.len() || other.cpus[j]
                <= self.cpus[i]);
            let cpu: u32 = if from_a {
                self.cpus[i]
            } else {
                other.cpus[j]
            };
            let ghost before = cpus@;
            let ghost i0 = i as int;
            let ghost j0 = j as int;
            cpus.push(cpu);
            if from_a {
                i = i + 1;
            }
            if from_b {
                j = j + 1;
            }
            proof {
                lemma_contains_push(before, cpu);
                if from_a {
                    assert(a.take(i0 + 1) =~= a.take(i0).push(a[i0]));
                    lemma_contains_push(a.take(i0), a[i0]);
                }
                if from_b {
                    assert(b.take(j0 + 1) =~= b.take(j0).push(b[j0]));
                    lemma_contains_push(b.take(j0), b[j0]);
                }
            }
        }
        proof {
            assert(a.take(i as int) =~= a);
            assert(b.take(j as int) =~= b);
            assert(cpus@.to_set() =~= a.to_set().union(b.to_set()));
        }
        CpuSet { cpus }
    }

    /// The CPUs of this set that are not in the other.
    pub fn difference(&self, other: &CpuSet) -> (r: CpuSet)
        ensures
            r@ == self@.difference(other@),
    {
        proof {
            use_type_invariant(self);
        }
        let mut cpus: Vec<u32> = Vec::new();
        let mut i: usize = 0;
        let ghost a = self.cpus@;
        while i < self.cpus.len()
            invariant
                a == self.cpus@,
                i <= a.len(),
                increasing(a),
                increasing(cpus@),
                forall|k: int, m: int| 0 <= k < cpus@.len() && i <= m < a.len() ==> cpus@[k] < a[m],
                forall|c: u32|
                    cpus@.contains(c) <==> a.take(i as int).contains(c) && !other@.contains(c),
            decreases a.len() - i,
        {
            let cpu: u32 = self.cpus[i];
            let ghost before = cpus@;
            if !other.contains(cpu) {
                cpus.push(cpu);
                proof {
                    lemma_contains_push(before, cpu);
                }
            }
            proof {
                assert(a.take(i + 1) =~= a.take(i as int).push(cpu));
                lemma_contains_push(a.take(i as int), cpu);
            }
            i = i + 1;
        }
        proof {
            assert(a.take(i as int) =~= a);
            assert(cpus@.to_set() =~= a.to_set().difference(other@));
        }
        CpuSet { cpus }
    }
}

proof fn lemma_contains_push(s: Seq<u32>, x: u32)
    ensures
        forall|c: u32| #[trigger] s.push(x).contains(c) <==> s.contains(c) || c == x,
{
    assert forall|c: u32| #[trigger] s.push(x).contains(c) <==> s.contains(c) || c == x by {
        if s.contains(c) {
            let k = choose|k: int| 0 <= k < s.len() && s[k] == c;
            assert(s.push(x)[k] == c);
        }
        if c == x {
            assert(s.push(x)[s.len() as int] == c);
        }
        if s.push(x).contains(c) {
            let k = choose|k: int| 0 <= k < s.push(x).len() && s.push(x)[k] == c;
            if k < s.len() {
                assert(s[k] == c);
            }
        }
    }
}

// ---------------------------------------------------------------------------
// Reading what was written
// ---------------------------------------------------------------------------

/// Whether some run of `rs` holds `c`.
spec fn covered(rs: Seq<(u32, u32)>, c: u32) -> bool {
    exists|i: int| 0 <= i < rs.len() && (#[trigger] rs[i]).0 <= c <= rs[i].1
}

proof fn lemma_runs_cover(s: Seq<u32>)
    requires
        increasing(s),
    ensures
        s.len() > 0 ==> runs(s).len() > 0 && runs(s).last().1 == s.last(),
        forall|i: int| 0 <= i < runs(s).len() ==> (#[trigger] runs(s)[i]).0 <= runs(s)[i].1,
        forall|c: u32| #[trigger] covered(runs(s), c) <==> s.contains(c),
    decreases s.len(),
{
    if s.len() > 0 {
        let front = s.drop_last();
        let x = s.last();
        assert(increasing(front));
        lemma_runs_cover(front);
        let r = runs(front);
        let q = runs(s);
        assert(s =~= front.push(x));
        lemma_contains_push(front, x);
        if r.len() > 0 && r.last().1 + 1 == x {
            let k = r.len() - 1;
            assert(q =~= r.drop_last().push((r.last().0, x)));
            assert(r[k].0 <= r[k].1);
            assert(q[k] == (r[k].0, x));
            assert forall|i: int| 0 <= i < q.len() implies (#[trigger] q[i]).0 <= q[i].1 by {
                if i < k {
                    assert(q[i] == r[i]);
                }
            }
            assert forall|c: u32| #[trigger] covered(q, c) <==> covered(r, c) || c == x by {
                if covered(r, c) {
                    let i = choose|i: int| 0 <= i < r.len() && (#[trigger] r[i]).0 <= c <= r[i].1;
                    if i < k {
                        assert(q[i] == r[i]);
                    } else {
                        assert(q[k].0 <= c <= q[k].1);
                    }
                }
                if c == x {
                    assert(q[k].0 <= c <= q[k].1);
                }
                if covered(q, c) {
                    let i = choose|i: int| 0 <= i < q.len() && (#[trigger] q[i]).0 <= c <= q[i].1;
                    if i < k {
                        assert(r[i] == q[i]);
                    } else if c != x {
                        assert(r[k].0 <= c <= r[k].1);
                    }
                }
            }
        } else {
            assert(q =~= r.push((x, x)));
            assert forall|i: int| 0 <= i < q.len() implies (#[trigger] q[i]).0 <= q[i].1 by {
                if i < r.len() {
                    assert(q[i] == r[i]);
                }
            }
            assert forall|c: u32| #[trigger] covered(q, c) <==> covered(r, c) || c == x by {
                if covered(r, c) {
                    let i = choose|i: int| 0 <= i < r.len() && (#[trigger] r[i]).0 <= c <= r[i].1;
                    assert(q[i] == r[i]);
                }
                if c == x {
                    assert(q[r.len() as int].0 <= c <= q[r.len() as int].1);
                }
                if covered(q, c) {
                    let i = choose|i: int| 0 <= i < q.len() && (#[trigger] q[i]).0 <= c <= q[i].1;
                    if i < r.len() {
                        assert(r[i] == q[i]);
                    }
                }
            }
        }
        assert forall|c: u32| #[trigger] covered(q, c) <==> s.contains(c) by {
            assert(covered(r, c) <==> front.contains(c));
        }
    }
}

/// A text whose first and last characters are not whitespace is not changed by
/// trimming.
proof fn lemma_trimmed_same(s: Seq<char>)
    requires
        s.len() > 0,
        !is_ws(s[0]),
        !is_ws(s.last()),
    ensures
        trimmed(s) == s,
{
}

proof fn lemma_dec_chars(n: nat)
    ensures
        dec(n).len() > 0,
        forall|i: int|
            0 <= i < dec(n).len() ==> is_digit(#[trigger] dec(n)[i]) && dec(n)[i] != '-' && dec(
                n,
            )[i] != ',' && !is_ws(dec(n)[i]),
{
    lemma_dec_digits(n);
}

proof fn lemma_run_parses(r: (u32, u32))
    requires
        r.0 <= r.1,
    ensures
        part_of(run_text(r)) == Ok::<Set<u32>, Seq<char>>(between(r.0 as int, r.1 as int)),
        !run_text(r).contains(','),
{
    let a = dec(r.0 as nat);
    let b = dec(r.1 as nat);
    lemma_dec_chars(r.0 as nat);
    lemma_dec_chars(r.1 as nat);
    lemma_natural_of_dec(r.0 as nat);
    lemma_natural_of_dec(r.1 as nat);
    lemma_trimmed_same(a);
    lemma_trimmed_same(b);
    let t = run_text(r);
    if r.0 == r.1 {
        lemma_first_index_is(t, '-', t.len() as int);
        assert(between(r.0 as int, r.1 as int) =~= set![r.0]);
    } else {
        reveal_strlit("-");
        assert("-"@.len() == 1);
        assert("-"@[0] == '-');
        assert(t[a.len() as int] == '-');
        assert forall|i: int| 0 <= i < a.len() implies t[i] != '-' by {
            assert(t[i] == a[i]);
        }
        lemma_first_index_is(t, '-', a.len() as int);
        assert(t[0] == a[0]);
        assert(t.last() == b.last());
        lemma_trimmed_same(t);
        assert(t.take(a.len() as int) =~= a);
        assert(t.skip(a.len() as int + 1) =~= b);
        assert forall|i: int| 0 <= i < t.len() implies t[i] != ',' by {
            if i < a.len() {
                assert(t[i] == a[i]);
            } else if i > a.len() {
                assert(t[i] == b[i - a.len() - 1]);
            }
        }
    }
}

proof fn lemma_pieces_push(a: Seq<char>, b: Seq<char>)
    requires
        !b.contains(','),
    ensures
        pieces(a + seq![','] + b, ',') == pieces(a, ',').push(b),
    decreases a.len(),
{
    let t = a + seq![','] + b;
    lemma_first_index_bounds(a, ',');
    let i = first_index(a, ',') as int;
    if i < a.len() {
        assert forall|k: int| 0 <= k < i implies t[k] != ',' by {
            assert(t[k] == a[k]);
        }
        assert(t[i] == a[i]);
        lemma_first_index_is(t, ',', i);
        let rest = a.skip(i + 1);
        assert(t.skip(i + 1) =~= rest + seq![','] + b);
        assert(t.take(i) =~= a.take(i));
        lemma_pieces_push(rest, b);
        assert(seq![a.take(i)] + pieces(rest, ',').push(b) =~= (seq![a.take(i)] + pieces(
            rest,
            ',',
        )).push(b));
    } else {
        assert forall|k: int| 0 <= k < a.len() implies t[k] != ',' by {
            assert(t[k] == a[k]);
        }
        assert(t[a.len() as int] == ',');
        lemma_first_index_is(t, ',', a.len() as int);
        assert(t.take(a.len() as int) =~= a);
        assert(t.skip(a.len() as int + 1) =~= b);
        assert forall|k: int| 0 <= k < b.len() implies b[k] != ',' by {
            if b[k] == ',' {
                assert(b.contains(','));
            }
        }
        lemma_first_index_is(b, ',', b.len() as int);
        assert(pieces(b, ',') =~= seq![b]);
        assert(pieces(a, ',') =~= seq![a]);
        assert(seq![a] + seq![b] =~= seq![a].push(b));
    }
}

/// Splitting what was joined gives the parts back.
proof fn lemma_pieces_of_joined(parts: Seq<Seq<char>>)
    requires
        parts.len() > 0,
        forall|i: int| 0 <= i < parts.len() ==> !(#[trigger] parts[i]).contains(','),
    ensures
        pieces(joined(parts, ","@), ',') == parts,
    decreases parts.len(),
{
    reveal_strlit(",");
    assert(","@ =~= seq![',']);
    if parts.len() == 1 {
        let p = parts[0];
        assert forall|k: int| 0 <= k < p.len() implies p[k] != ',' by {
            if p[k] == ',' {
                assert(p.contains(','));
            }
        }
        lemma_first_index_is(p, ',', p.len() as int);
        assert(pieces(p, ',') =~= parts);
    } else {
        let front = parts.drop_last();
        lemma_pieces_of_joined(front);
        assert(!parts.last().contains(','));
        lemma_pieces_push(joined(front, ","@), parts.last());
        assert(front.push(parts.last()) =~= parts);
    }
}

proof fn lemma_parts_union(parts: Seq<Seq<char>>, rs: Seq<(u32, u32)>)
    requires
        parts.len() == rs.len(),
        forall|i: int|
            0 <= i < rs.len() ==> part_of(#[trigger] parts[i]) == Ok::<Set<u32>, Seq<char>>(
                between(rs[i].0 as int, rs[i].1 as int),
            ),
    ensures
        parts_of(parts) == Ok::<Set<u32>, Seq<char>>(Set::new(|c: u32| covered(rs, c))),
    decreases parts.len(),
{
    let all = Set::new(|c: u32| covered(rs, c));
    if parts.len() == 0 {
        assert(all =~= Set::<u32>::empty());
    } else {
        let ps = parts.skip(1);
        let qs = rs.skip(1);
        assert forall|i: int| 0 <= i < qs.len() implies part_of(#[trigger] ps[i]) == Ok::<
            Set<u32>,
            Seq<char>,
        >(between(qs[i].0 as int, qs[i].1 as int)) by {
            assert(ps[i] == parts[i + 1]);
            assert(qs[i] == rs[i + 1]);
        }
        lemma_parts_union(ps, qs);
        let first = between(rs[0].0 as int, rs[0].1 as int);
        assert(part_of(parts[0]) == Ok::<Set<u32>, Seq<char>>(first));
        let rest = Set::new(|c: u32| covered(qs, c));
        assert forall|c: u32| all.contains(c) == first.union(rest).contains(c) by {
            if covered(rs, c) {
                let i = choose|i: int| 0 <= i < rs.len() && (#[trigger] rs[i]).0 <= c <= rs[i].1;
                if i > 0 {
                    assert(qs[i - 1] == rs[i]);
                    assert(covered(qs, c));
                }
            }
            if covered(qs, c) {
                let i = choose|i: int| 0 <= i < qs.len() && (#[trigger] qs[i]).0 <= c <= qs[i].1;
                assert(rs[i + 1] == qs[i]);
                assert(covered(rs, c));
            }
            if first.contains(c) {
                assert(rs[0].0 <= c <= rs[0].1);
                assert(covered(rs, c));
            }
        }
        assert(all =~= first.union(rest));
    }
}

proof fn lemma_format_parses(s: Seq<u32>)
    requires
        increasing(s),
    ensures
        cpuset_of(cpuset_text(s)) == Ok::<Set<u32>, Seq<char>>(s.to_set()),
{
    let rs = runs(s);
    let parts = run_texts(rs);
    lemma_runs_cover(s);
    assert forall|i: int| 0 <= i < rs.len() implies part_of(#[trigger] parts[i]) == Ok::<
        Set<u32>,
        Seq<char>,
    >(between(rs[i].0 as int, rs[i].1 as int)) && !parts[i].contains(',') by {
        assert(rs[i].0 <= rs[i].1);
        lemma_run_parses(rs[i]);
    }
    if s.len() == 0 {
        assert(parts =~= Seq::<Seq<char>>::empty());
        let e = Seq::<char>::empty();
        assert(cpuset_text(s) == e);
        assert(pieces(e, ',') =~= seq![e]);
        let none = Seq::<Seq<char>>::empty();
        assert(seq![e].skip(1) =~= none);
        assert(parts_of(none) == Ok::<Set<u32>, Seq<char>>(Set::empty()));
        assert(trimmed(e) == e);
        assert(part_of(e) == Ok::<Set<u32>, Seq<char>>(Set::empty()));
        assert(Set::<u32>::empty().union(Set::<u32>::empty()) =~= s.to_set());
    } else {
        lemma_pieces_of_joined(parts);
        lemma_parts_union(parts, rs);
        assert(Set::new(|c: u32| covered(rs, c)) =~= s.to_set()) by {
            assert forall|c: u32| s.to_set().contains(c) == covered(rs, c) by {}
        }
    }
}

/// Reading the list that denotes a set gives the set back.
pub proof fn law_parse_undoes_format(s: Seq<u32>)
    requires
        increasing(s),
    ensures
        cpuset_of(cpuset_text(s)) == Ok::<Set<u32>, Seq<char>>(s.to_set()),
{
    lemma_format_parses(s);
}

// ---------------------------------------------------------------------------
// The manager
// ---------------------------------------------------------------------------

#[derive(Debug, Clone, Copy, PartialEq, Eq, Structural)]
pub enum CpuManagerPolicy {
    NonePolicy,
    Static,
}

impl CpuManagerPolicy {
    /// Reads the name of a policy; any name but `static` means none.
    pub fn parse(s: &str) -> (r: Self)
        ensures
            r == if s@ == "static"@ {
                CpuManagerPolicy::Static
            } else {
                CpuManagerPolicy::NonePolicy
            },
    {
        if same(s, "static") {
            CpuManagerPolicy::Static
        } else {
            CpuManagerPolicy::NonePolicy
        }
    }

    /// The name of the policy.
    pub fn name(&self) -> (r: &'static str)
        ensures
            r@ == match *self {
                CpuManagerPolicy::Static => "static"@,
                CpuManagerPolicy::NonePolicy => "none"@,
            },
    {
        match self {
            CpuManagerPolicy::Static => "static",
            CpuManagerPolicy::NonePolicy => "none",
        }
    }
}

/// The CPUs of a container.
#[derive(Debug)]
pub struct CpuAssignment {
    pub pod_uid: PodUID,
    pub container_name: String,
    pub cpus: CpuSet,
    pub exclusive: bool,
}

/// Hands out CPUs to containers.
#[derive(Debug)]
pub struct CpuManager {
    pub policy: CpuManagerPolicy,
    /// All CPUs of the node.
    pub total_cpus: CpuSet,
    /// The CPUs that can still be given away for exclusive use.
    pub available_cpus: CpuSet,
    /// The CPUs that are never given away for exclusive use.
    pub reserved_cpus: CpuSet,
    /// The exclusive assignments by pod and container.
    pub assignments: PairMap<CpuAssignment>,
}

/// Whether the container `k` has the CPU `c` for itself.
pub open spec fn owns(m: Map<PairKey, CpuAssignment>, k: PairKey, c: u32) -> bool {
    m.contains_key(k) && m[k].exclusive && m[k].cpus@.contains(c)
}

/// The CPUs that some container has for itself.
pub open spec fn owned(m: Map<PairKey, CpuAssignment>) -> Set<u32> {
    Set::new(|c: u32| exists|k: PairKey| owns(m, k, c))
}

/// What is known of a container's assignment.
pub open spec fn assignment_is(
    a: CpuAssignment,
    pod_uid: PodUID,
    container: Seq<char>,
    cpus: Set<u32>,
) -> bool {
    a.pod_uid == pod_uid && a.container_name@ == container && a.cpus@ == cpus && a.exclusive
}

/// `after` is `before` with the `n` smallest of the available CPUs given to a
/// container that had none.
pub open spec fn given(
    before: CpuManager,
    pod_uid: PodUID,
    container: Seq<char>,
    n: int,
    cpus: CpuSet,
    after: CpuManager,
) -> bool {
    let key = (pod_uid.0@, container);
    &&& !before.assignments@.contains_key(key)
    &&& n <= before.available_cpus.seq().len()
    &&& cpus.seq() == before.available_cpus.seq().take(n)
    &&& after.available_cpus.seq() == before.available_cpus.seq().skip(n)
    &&& cpus@.disjoint(after.available_cpus@)
    &&& cpus@.union(after.available_cpus@) == before.available_cpus@
    &&& after.assignments@.contains_key(key)
    &&& assignment_is(after.assignments@[key], pod_uid, container, cpus@)
    &&& after.assignments@ == before.assignments@.insert(key, after.assignments@[key])
    &&& after.policy == before.policy
    &&& after.total_cpus == before.total_cpus
    &&& after.reserved_cpus == before.reserved_cpus
}

/// `after` is `before` with the CPUs of a container given back, where it had
/// any.
pub open spec fn given_back(before: CpuManager, key: PairKey, after: CpuManager) -> bool {
    &&& after.assignments@ == before.assignments@.remove(key)
    &&& after.available_cpus@ == if before.assignments@.contains_key(key)
        && before.assignments@[key].exclusive {
        before.available_cpus@.union(before.assignments@[key].cpus@)
    } else {
        before.available_cpus@
    }
    &&& after.policy == before.policy
    &&& after.total_cpus == before.total_cpus
    &&& after.reserved_cpus == before.reserved_cpus
}

impl CpuManager {
    /// Every CPU that is not reserved is either available or belongs to
    /// exactly one container.
    pub open spec fn wf(self) -> bool {
        let m = self.assignments@;
        &&& forall|k: PairKey| #[trigger] m.contains_key(k) ==> m[k].exclusive
        &&& forall|c: u32| #[trigger]
            self.total_cpus@.difference(self.reserved_cpus@).contains(c) <==> (
            self.available_cpus@.contains(c) || owned(m).contains(c))
        &&& forall|k: PairKey, c: u32| #[trigger]
            owns(m, k, c) ==> !self.available_cpus@.contains(c)
        &&& forall|k: PairKey, l: PairKey, c: u32| #[trigger]
            owns(m, k, c) && #[trigger] owns(m, l, c) ==> k == l
    }

    /// The CPUs that containers without CPUs of their own share.
    pub open spec fn shared(self) -> Set<u32> {
        self.total_cpus@.difference(owned(self.assignments@))
    }

    /// A manager of the CPUs `total_cpus`, of which `reserved_cpus` are never
    /// given away.
    pub fn new(policy: &str, total_cpus: CpuSet, reserved_cpus: CpuSet) -> (r: Self)
        ensures
            r.wf(),
            r.policy == if policy@ == "static"@ {
                CpuManagerPolicy::Static
            } else {
                CpuManagerPolicy::NonePolicy
            },
            r.total_cpus == total_cpus,
            r.reserved_cpus == reserved_cpus,
            r.available_cpus@ == total_cpus@.difference(reserved_cpus@),
            r.assignments@ == Map::<PairKey, CpuAssignment>::empty(),
    {
        let available_cpus = total_cpus.difference(&reserved_cpus);
        CpuManager {
            policy: CpuManagerPolicy::parse(policy),
            available_cpus,
            reserved_cpus,
            total_cpus,
            assignments: PairMap::new(),
        }
    }

    /// The CPUs of a host on which that many threads can run at a time; one
    /// where the number is not known.
    pub fn detect_host_cpus(parallelism: Option<u32>) -> (r: CpuSet)
        requires
            parallelism != Some(0u32),
        ensures
            r@ == between(
                0,
                match parallelism {
                    Some(n) => n - 1,
                    None => 0,
                },
            ),
    {
        let count: u32 = match parallelism {
            Some(n) => n,
            None => 1,
        };
        CpuSet::from_range(0, count - 1)
    }

    /// Gives CPUs to a container: CPUs of its own where the policy is static,
    /// the pod is guaranteed and whole CPUs are asked for; else those that are
    /// shared. A container that has CPUs of its own gets the same again.
    pub fn assign(
        &mut self,
        pod_uid: &PodUID,
        container_name: &str,
        qos: QosClass,
        cpu_request_millicores: u64,
    ) -> (r: Result<CpuSet, KubeletError>)
        requires
            old(self).wf(),
        ensures
            final(self).wf(),
            ({
                let key = (pod_uid.0@, container_name@);
                let n = cpu_request_millicores as int / 1000;
                if old(self).policy == CpuManagerPolicy::NonePolicy {
                    r matches Ok(c) && c@ == old(self).total_cpus@ && *final(self) == *old(self)
                } else if old(self).assignments@.contains_key(key) {
                    r matches Ok(c) && c@ == old(self).assignments@[key].cpus@ && *final(self)
                        == *old(self)
                } else if qos == QosClass::Guaranteed && cpu_request_millicores % 1000 == 0 {
                    if n <= old(self).available_cpus.seq().len() {
                        r matches Ok(c) && given(
                            *old(self),
                            *pod_uid,
                            container_name@,
                            n,
                            c,
                            *final(self),
                        )
                    } else {
                        r matches Err(KubeletError::Resource(m)) && m@ == "not enough CPUs: need "@
                            + dec(n as nat) + ", available "@ + dec(
                            old(self).available_cpus.seq().len(),
                        ) && *final(self) == *old(self)
                    }
                } else {
                    r matches Ok(c) && c@ == old(self).shared() && *final(self) == *old(self)
                }
            }),
    {
        if self.policy == CpuManagerPolicy::NonePolicy {
            return Ok(self.total_cpus.copied());
        }
        if let Some(existing) = self.assignments.get(pod_uid.0.as_str(), container_name) {
            return Ok(existing.cpus.copied());
        }
        if !(qos == QosClass::Guaranteed && cpu_request_millicores % 1000 == 0) {
            return Ok(self.shared_pool());
        }
        let need: u64 = cpu_request_millicores / 1000;
        let available: usize = self.available_cpus.len();
        if need > available as u64 {
            let a = decimal(need);
            let b = decimal(available as u64);
            return Err(
                KubeletError::Resource(
                    cat4("not enough CPUs: need ", a.as_str(), ", available ", b.as_str()),
                ),
            );
        }
        let ghost before = *self;
        match self.available_cpus.take(need as usize) {
            Some(cpus) => {
                let a = CpuAssignment {
                    pod_uid: pod_uid.copied(),
                    container_name: container_name.to_owned(),
                    cpus: cpus.copied(),
                    exclusive: true,
                };
                self.assignments.insert(pod_uid.0.as_str(), container_name, a);
                proof {
                    lemma_given_keeps_wf(
                        before,
                        *pod_uid,
                        container_name@,
                        need as int,
                        cpus,
                        *self,
                    );
                }
                Ok(cpus)
            },
            None => Ok(CpuSet::empty()),
        }
    }

    /// Gives the CPUs of a container back.
    pub fn release(&mut self, pod_uid: &PodUID, container_name: &str)
        requires
            old(self).wf(),
        ensures
            final(self).wf(),
            given_back(*old(self), (pod_uid.0@, container_name@), *final(self)),
    {
        let ghost before = *self;
        let ghost key = (pod_uid.0@, container_name@);
        match self.assignments.remove(pod_uid.0.as_str(), container_name) {
            Some(a) => {
                if a.exclusive {
                    self.available_cpus = self.available_cpus.union(&a.cpus);
                }
            },
            None => {},
        }
        proof {
            lemma_given_back_keeps_wf(before, key, *self);
        }
    }

    /// The CPUs that containers without CPUs of their own share: all but those
    /// that some container has for itself.
    pub fn shared_pool(&self) -> (r: CpuSet)
        ensures
            r@ == self.shared(),
    {
        let n: usize = self.assignments.len();
        let ghost pairs = self.assignments.pairs();
        let mut acc = CpuSet::empty();
        let mut i: usize = 0;
        assert(owned(map_of(pairs.take(0))) =~= Set::<u32>::empty());
        while i < n
            invariant
                i <= n == pairs.len(),
                pairs == self.assignments.pairs(),
                distinct_keys(pairs),
                acc@ == owned(map_of(pairs.take(i as int))),
            decreases n - i,
        {
            let a = self.assignments.value_at(i);
            let ghost front = pairs.take(i as int);
            let ghost k = pairs[i as int].0;
            proof {
                assert(pairs.take(i + 1).drop_last() =~= front);
                lemma_map_of_dom(front, k);
                assert forall|j: int| 0 <= j < i implies (#[trigger] front[j]).0 != k by {
                    assert(pairs[j].0 != pairs[i as int].0);
                }
            }
            if a.exclusive {
                acc = acc.union(&a.cpus);
            }
            proof {
                let m = map_of(front);
                let q = map_of(pairs.take(i + 1));
                assert(q == m.insert(k, *a));
                assert forall|c: u32| owned(q).contains(c) == (owned(m).contains(c) || (a.exclusive
                    && a.cpus@.contains(c))) by {
                    if owned(m).contains(c) {
                        let l = choose|l: PairKey| owns(m, l, c);
                        assert(owns(q, l, c));
                    }
                    if a.exclusive && a.cpus@.contains(c) {
                        assert(owns(q, k, c));
                    }
                    if owned(q).contains(c) {
                        let l = choose|l: PairKey| owns(q, l, c);
                        if l != k {
                            assert(owns(m, l, c));
                        }
                    }
                }
                assert(acc@ =~= owned(q));
            }
            i = i + 1;
        }
        assert(pairs.take(i as int) =~= pairs);
        self.total_cpus.difference(&acc)
    }

    pub fn policy(&self) -> (r: &CpuManagerPolicy)
        ensures
            *r == self.policy,
    {
        &self.policy
    }

    /// How many CPUs can still be given away for exclusive use.
    pub fn available_count(&self) -> (r: usize)
        ensures
            r == self.available_cpus@.len(),
    {
        self.available_cpus.len()
    }

    /// How many CPUs are reserved.
    pub fn reserved_count(&self) -> (r: usize)
        ensures
            r == self.reserved_cpus@.len(),
    {
        self.reserved_cpus.len()
    }

    /// How many containers have CPUs of their own.
    pub fn assignment_count(&self) -> (r: usize)
        ensures
            r == self.assignments@.len(),
    {
        self.assignments.len()
    }

    /// How many CPUs the node has.
    pub fn total_count(&self) -> (r: usize)
        ensures
            r == self.total_cpus@.len(),
    {
        self.total_cpus.len()
    }

    /// The state as it is written to the checkpoint file.
    pub fn checkpoint(&self) -> (r: JsonValue)
        ensures
            exists|s: Seq<u32>|
                {
                    &&& increasing(s)
                    &&& s.to_set() == self.shared()
                    &&& cpuset_of(cpuset_text(s)) == Ok::<Set<u32>, Seq<char>>(self.shared())
                    &&& r@ == #[trigger] state_json(*self, s)
                },
    {
        let n: usize = self.assignments.len();
        let ghost all = assignment_jsons(*self);
        let mut assignments: Vec<JsonValue> = Vec::new();
        let mut i: usize = 0;
        while i < n
            invariant
                i <= n == self.assignments.pairs().len(),
                all == assignment_jsons(*self),
                jsons(assignments@) == all.take(i as int),
            decreases n - i,
        {
            let ghost before = assignments@;
            let v = assignment_value(self.assignments.value_at(i));
            assert(all[i as int] == v@);
            assignments.push(v);
            i = i + 1;
            assert(jsons(assignments@) =~= jsons(before).push(v@));
            assert(jsons(assignments@) =~= all.take(i as int));
        }
        assert(all.take(i as int) =~= all);
        let pool = self.shared_pool();
        let mut m: StrMap<JsonValue> = StrMap::new();
        m.insert("cpuAssignments".to_owned(), JsonValue::Array(assignments));
        m.insert("defaultCpuSet".to_owned(), JsonValue::Str(pool.to_cpuset_string()));
        m.insert("policyName".to_owned(), JsonValue::Str(self.policy.name().to_owned()));
        proof {
            lemma_array_json(assignments);
            lemma_object_json(m);
            assert(m@.map_values(|v: JsonValue| v@) =~= state_members(*self, pool.seq()));
            assert(JsonValue::Object(m)@ == state_json(*self, pool.seq()));
        }
        JsonValue::Object(m)
    }

    /// What saves the state in the file at `path`. A load of what is written
    /// gives the state back.
    pub fn save_checkpoint(&self, path: &str) -> (r: Vec<FileOp>)
        ensures
            exists|s: Seq<u32>|
                {
                    let v = #[trigger] state_json(*self, s);
                    &&& increasing(s)
                    &&& s.to_set() == self.shared()
                    &&& ops(r@) == seq![Op::Write(path@, json_pretty(v))]
                    &&& json_read(json_pretty(v)) == Some(v)
                },
    {
        let state = self.checkpoint();
        let mut out: Vec<FileOp> = Vec::new();
        assert(ops(out@) =~= Seq::<Op>::empty());
        let content = write_json_pretty(&state);
        push_op(&mut out, FileOp::Write { path: path.to_owned(), content });
        proof {
            let s = choose|s: Seq<u32>|
                increasing(s) && s.to_set() == self.shared() && state@ == #[trigger] state_json(
                    *self,
                    s,
                );
            lemma_state_is_plain(*self, s);
            assert(ops(out@) =~= seq![Op::Write(path@, json_pretty(state_json(*self, s)))]);
        }
        out
    }

    /// The failure to save the state, where there is one.
    pub fn checkpoint_saved(outcome: &Result<(), String>) -> (r: Result<(), KubeletError>)
        ensures
            match *outcome {
                Ok(_) => r is Ok,
                Err(e) => r matches Err(KubeletError::Config(m)) && m@
                    == "save cpumanager checkpoint: "@ + e@,
            },
    {
        match outcome {
            Ok(_) => Ok(()),
            Err(e) => Err(KubeletError::Config(cat2("save cpumanager checkpoint: ", e.as_str()))),
        }
    }

    /// The state that the text of a checkpoint file holds; none where there is
    /// no file, or where it cannot be read.
    pub fn load_checkpoint(text: &Option<String>) -> (r: Option<JsonValue>)
        ensures
            opt_json(r) == match *text {
                Some(t) => json_read(t@),
                None => None,
            },
    {
        match text {
            Some(t) => read_json(t.as_str()),
            None => None,
        }
    }
}

pub open spec fn number_jsons(s: Seq<u32>) -> Seq<Json> {
    s.map_values(|c: u32| Json::Int(c as int))
}

pub open spec fn assignment_members(a: CpuAssignment) -> Map<Seq<char>, Json> {
    map![
        "container_name"@ => Json::Text(a.container_name@),
        "cpus"@ => Json::Array(number_jsons(a.cpus.seq())),
        "exclusive"@ => Json::Bool(a.exclusive),
        "pod_uid"@ => Json::Text(a.pod_uid.0@),
    ]
}

/// The CPUs of a container as the checkpoint file holds them.
pub open spec fn assignment_json(a: CpuAssignment) -> Json {
    Json::Object(assignment_members(a))
}

pub open spec fn assignment_jsons(m: CpuManager) -> Seq<Json> {
    m.assignments.pairs().map_values(|p: (PairKey, CpuAssignment)| assignment_json(p.1))
}

pub open spec fn state_members(m: CpuManager, shared: Seq<u32>) -> Map<Seq<char>, Json> {
    map![
        "cpuAssignments"@ => Json::Array(assignment_jsons(m)),
        "defaultCpuSet"@ => Json::Text(cpuset_text(shared)),
        "policyName"@ => Json::Text(
            match m.policy {
                CpuManagerPolicy::Static => "static"@,
                CpuManagerPolicy::NonePolicy => "none"@,
            },
        ),
    ]
}

/// The state of the manager as the checkpoint file holds it, by the CPUs that
/// containers share.
pub open spec fn state_json(m: CpuManager, shared: Seq<u32>) -> Json {
    Json::Object(state_members(m, shared))
}

fn assignment_value(a: &CpuAssignment) -> (r: JsonValue)
    ensures
        r@ == assignment_json(*a),
{
    let cpus = a.cpus.to_vec();
    let mut numbers: Vec<JsonValue> = Vec::new();
    let mut i: usize = 0;
    while i < cpus.len()
        invariant
            i <= cpus@.len(),
            jsons(numbers@) == number_jsons(cpus@).take(i as int),
        decreases cpus@.len() - i,
    {
        let ghost before = numbers@;
        let v = JsonValue::Number(JsonNumber::PosInt(cpus[i] as u64));
        numbers.push(v);
        assert(jsons(numbers@) =~= jsons(before).push(v@));
        i = i + 1;
        assert(jsons(numbers@) =~= number_jsons(cpus@).take(i as int));
    }
    assert(number_jsons(cpus@).take(i as int) =~= number_jsons(cpus@));
    let mut m: StrMap<JsonValue> = StrMap::new();
    m.insert("container_name".to_owned(), JsonValue::Str(a.container_name.clone()));
    m.insert("cpus".to_owned(), JsonValue::Array(numbers));
    m.insert("exclusive".to_owned(), JsonValue::Bool(a.exclusive));
    m.insert("pod_uid".to_owned(), JsonValue::Str(a.pod_uid.0.clone()));
    proof {
        lemma_array_json(numbers);
        lemma_object_json(m);
        assert(m@.map_values(|v: JsonValue| v@) =~= assignment_members(*a));
    }
    JsonValue::Object(m)
}

/// The state has no fractions and does not nest deep.
proof fn lemma_state_is_plain(m: CpuManager, shared: Seq<u32>)
    ensures
        plain_within(state_json(m, shared), MAX_NESTING as nat),
{
    let levels = MAX_NESTING as nat;
    let all = assignment_jsons(m);
    assert forall|i: int| 0 <= i < all.len() implies plain_within(
        #[trigger] all[i],
        (levels - 2) as nat,
    ) by {
        let a = m.assignments.pairs()[i].1;
        let numbers = number_jsons(a.cpus.seq());
        assert forall|j: int| 0 <= j < numbers.len() implies plain_within(
            #[trigger] numbers[j],
            (levels - 4) as nat,
        ) by {}
        assert(plain_within(Json::Array(numbers), (levels - 3) as nat));
        let members = assignment_members(a);
        assert forall|k: Seq<char>| #[trigger] members.contains_key(k) implies plain_within(
            members[k],
            (levels - 3) as nat,
        ) by {}
        assert(all[i] == Json::Object(members));
    }
    assert(plain_within(Json::Array(all), (levels - 1) as nat));
    let members = state_members(m, shared);
    assert forall|k: Seq<char>| #[trigger] members.contains_key(k) implies plain_within(
        members[k],
        (levels - 1) as nat,
    ) by {}
}

proof fn lemma_given_keeps_wf(
    before: CpuManager,
    pod_uid: PodUID,
    container: Seq<char>,
    n: int,
    cpus: CpuSet,
    after: CpuManager,
)
    requires
        before.wf(),
        given(before, pod_uid, container, n, cpus, after),
    ensures
        after.wf(),
{
    let key = (pod_uid.0@, container);
    let m = before.assignments@;
    let q = after.assignments@;
    assert forall|k: PairKey, c: u32| #[trigger] owns(q, k, c) <==> owns(m, k, c) || (k == key
        && cpus@.contains(c)) by {}
    assert forall|c: u32| owned(q).contains(c) == (owned(m).contains(c) || cpus@.contains(c)) by {
        if owned(m).contains(c) {
            let l = choose|l: PairKey| owns(m, l, c);
            assert(owns(q, l, c));
        }
        if cpus@.contains(c) {
            assert(owns(q, key, c));
        }
        if owned(q).contains(c) {
            let l = choose|l: PairKey| owns(q, l, c);
            assert(owns(m, l, c) || l == key);
        }
    }
    assert forall|c: u32| before.available_cpus@.contains(c) == (cpus@.contains(c)
        || after.available_cpus@.contains(c)) by {
        assert(before.available_cpus@.contains(c) == cpus@.union(after.available_cpus@).contains(
            c,
        ));
    }
    assert forall|k: PairKey, c: u32| #[trigger] owns(q, k, c) implies !after.available_cpus@.contains(
        c,
    ) by {
        if owns(m, k, c) {
            assert(!before.available_cpus@.contains(c));
        }
    }
    assert forall|k: PairKey, l: PairKey, c: u32| #[trigger]
        owns(q, k, c) && #[trigger] owns(q, l, c) implies k == l by {
        if owns(m, k, c) && l == key {
            assert(before.available_cpus@.contains(c));
        }
        if owns(m, l, c) && k == key {
            assert(before.available_cpus@.contains(c));
        }
    }
    assert forall|c: u32| #[trigger]
        after.total_cpus@.difference(after.reserved_cpus@).contains(c) <==> (
        after.available_cpus@.contains(c) || owned(q).contains(c)) by {
        assert(before.total_cpus@.difference(before.reserved_cpus@).contains(c) <==> (
        before.available_cpus@.contains(c) || owned(m).contains(c)));
    }
}

proof fn lemma_given_back_keeps_wf(before: CpuManager, key: PairKey, after: CpuManager)
    requires
        before.wf(),
        given_back(before, key, after),
    ensures
        after.wf(),
{
    let m = before.assignments@;
    let q = after.assignments@;
    assert forall|k: PairKey, c: u32| #[trigger] owns(q, k, c) <==> owns(m, k, c) && k != key by {}
    assert forall|c: u32| owned(m).contains(c) == (owned(q).contains(c) || owns(m, key, c)) by {
        if owned(m).contains(c) {
            let l = choose|l: PairKey| owns(m, l, c);
            assert(owns(q, l, c) || l == key);
        }
        if owned(q).contains(c) {
            let l = choose|l: PairKey| owns(q, l, c);
            assert(owns(m, l, c));
        }
    }
    assert forall|c: u32| after.available_cpus@.contains(c) == (before.available_cpus@.contains(c)
        || owns(m, key, c)) by {}
    assert forall|k: PairKey, c: u32| #[trigger] owns(q, k, c) implies !after.available_cpus@.contains(
        c,
    ) by {
        assert(owns(m, k, c));
        if owns(m, key, c) {
            assert(k == key);
        }
    }
    assert forall|k: PairKey, l: PairKey, c: u32| #[trigger]
        owns(q, k, c) && #[trigger] owns(q, l, c) implies k == l by {
        assert(owns(m, k, c) && owns(m, l, c));
    }
    assert forall|c: u32| #[trigger]
        after.total_cpus@.difference(after.reserved_cpus@).contains(c) <==> (
        after.available_cpus@.contains(c) || owned(q).contains(c)) by {
        assert(before.total_cpus@.difference(before.reserved_cpus@).contains(c) <==> (
        before.available_cpus@.contains(c) || owned(m).contains(c)));
    }
}

// ---------------------------------------------------------------------------
// Laws
// ---------------------------------------------------------------------------

/// No CPU belongs to two containers, none that belongs to a container is
/// shared or available, and no reserved CPU belongs to a container.
pub proof fn law_exclusive_cpus(m: CpuManager, k: PairKey, l: PairKey, c: u32)
    requires
        m.wf(),
        m.assignments@.contains_key(k),
        m.assignments@[k].cpus@.contains(c),
    ensures
        m.assignments@.contains_key(l) && m.assignments@[l].cpus@.contains(c) ==> l == k,
        !m.shared().contains(c),
        !m.available_cpus@.contains(c),
        m.total_cpus@.contains(c),
        !m.reserved_cpus@.contains(c),
{
    assert(owns(m.assignments@, k, c));
    assert(owned(m.assignments@).contains(c));
    assert(m.total_cpus@.difference(m.reserved_cpus@).contains(c));
    if m.assignments@.contains_key(l) && m.assignments@[l].cpus@.contains(c) {
        assert(owns(m.assignments@, l, c));
    }
}

/// Giving the CPUs of a container back right after they were given restores
/// what is available and who has CPUs of their own.
pub proof fn law_release_undoes_assign(
    before: CpuManager,
    pod_uid: PodUID,
    container: Seq<char>,
    n: int,
    cpus: CpuSet,
    between: CpuManager,
    after: CpuManager,
)
    requires
        before.wf(),
        given(before, pod_uid, container, n, cpus, between),
        given_back(between, (pod_uid.0@, container), after),
    ensures
        after.available_cpus@ == before.available_cpus@,
        after.assignments@ == before.assignments@,
        after.shared() == before.shared(),
{
    assert(after.available_cpus@ =~= before.available_cpus@);
    assert(after.assignments@ =~= before.assignments@);
}

/// Every CPU that is not reserved is available or belongs to a container.
pub proof fn law_no_cpu_is_lost(m: CpuManager, c: u32)
    requires
        m.wf(),
        m.total_cpus@.contains(c),
        !m.reserved_cpus@.contains(c),
    ensures
        m.available_cpus@.contains(c) || exists|k: PairKey|
            m.assignments@.contains_key(k) && (#[trigger] m.assignments@[k]).cpus@.contains(c),
{
    assert(m.total_cpus@.difference(m.reserved_cpus@).contains(c));
    if !m.available_cpus@.contains(c) {
        assert(owned(m.assignments@).contains(c));
        let k = choose|k: PairKey| owns(m.assignments@, k, c);
        assert(m.assignments@[k].cpus@.contains(c));
    }
}

/// The CPUs that a container gets are as many as it asks for, were free, and
/// are the lowest of those; the others stay free.
pub proof fn law_lowest_cpus_are_given(
    before: CpuManager,
    pod_uid: PodUID,
    container: Seq<char>,
    n: int,
    cpus: CpuSet,
    after: CpuManager,
    i: int,
    j: int,
)
    requires
        given(before, pod_uid, container, n, cpus, after),
        increasing(before.available_cpus.seq()),
        0 <= n,
        0 <= i < cpus.seq().len(),
        0 <= j < after.available_cpus.seq().len(),
    ensures
        cpus.seq().len() == n,
        after.available_cpus.seq().len() == before.available_cpus.seq().len() - n,
        cpus.seq()[i] < after.available_cpus.seq()[j],
        before.available_cpus.seq().contains(cpus.seq()[i]),
        before.available_cpus.seq().contains(after.available_cpus.seq()[j]),
        after.assignments@[(pod_uid.0@, container)].pod_uid.0@ == pod_uid.0@,
        after.assignments@[(pod_uid.0@, container)].container_name@ == container,
        after.assignments@[(pod_uid.0@, container)].exclusive,
{
    let s = before.available_cpus.seq();
    assert(cpus.seq()[i] == s[i]);
    assert(after.available_cpus.seq()[j] == s[n + j]);
}

/// A range of CPUs holds both its ends and what lies between.
pub proof fn law_ranges_hold_their_ends(a: u32, b: u32, c: u32)
    ensures
        between(a as int, b as int).contains(c) <==> a <= c && c <= b,
{
}

/// The state that is kept names the policy, the CPUs that are shared, and of
/// each assignment whose it is and which CPUs it has.
pub proof fn law_kept_state_names_its_parts(m: CpuManager, shared: Seq<u32>, i: int)
    ensures
        state_json(m, shared) is Object,
        state_json(m, shared)->Object_0["defaultCpuSet"@] == Json::Text(cpuset_text(shared)),
        m.policy is Static ==> state_json(m, shared)->Object_0["policyName"@] == Json::Text(
            "static"@,
        ),
        m.policy is NonePolicy ==> state_json(m, shared)->Object_0["policyName"@] == Json::Text(
            "none"@,
        ),
        state_json(m, shared)->Object_0["cpuAssignments"@] is Array,
        0 <= i < m.assignments.pairs().len() ==> {
            let a = m.assignments.pairs()[i].1;
            let v = state_json(m, shared)->Object_0["cpuAssignments"@]->Array_0[i];
            &&& v is Object
            &&& v->Object_0["pod_uid"@] == Json::Text(a.pod_uid.0@)
            &&& v->Object_0["container_name"@] == Json::Text(a.container_name@)
            &&& v->Object_0["exclusive"@] == Json::Bool(a.exclusive)
            &&& v->Object_0["cpus"@] is Array
            &&& v->Object_0["cpus"@]->Array_0.len() == a.cpus.seq().len()
        },
{
    reveal_strlit("cpuAssignments");
    reveal_strlit("defaultCpuSet");
    reveal_strlit("policyName");
    reveal_strlit("container_name");
    reveal_strlit("cpus");
    reveal_strlit("exclusive");
    reveal_strlit("pod_uid");
    assert("cpuAssignments"@[0] == 'c' && "defaultCpuSet"@[0] == 'd' && "policyName"@[0] == 'p');
    assert("container_name"@.len() == 14 && "cpus"@.len() == 4 && "exclusive"@.len() == 9
        && "pod_uid"@.len() == 7);
}

/// Giving CPUs back changes neither the policy nor which CPUs there are and
/// which are reserved.
pub proof fn law_giving_back_keeps_the_machine(
    before: CpuManager,
    key: PairKey,
    after: CpuManager,
)
    requires
        given_back(before, key, after),
    ensures
        after.reserved_cpus == before.reserved_cpus,
        after.total_cpus == before.total_cpus,
        after.policy == before.policy,
        !after.assignments@.contains_key(key),
{
}

/// Ranges of CPUs are written with commas between them.
pub proof fn law_ranges_are_separated_by_commas(s: Seq<u32>)
    ensures
        runs(s).len() == 1 ==> cpuset_text(s) == run_text(runs(s)[0]),
        runs(s).len() == 2 ==> cpuset_text(s) == run_text(runs(s)[0]) + ","@ + run_text(runs(s)[1]),
{
    let rs = runs(s);
    if rs.len() == 1 {
        assert(run_texts(rs) =~= seq![run_text(rs[0])]);
        assert(joined(seq![run_text(rs[0])], ","@) == run_text(rs[0]));
    }
    if rs.len() == 2 {
        let one = seq![run_text(rs[0])];
        assert(run_texts(rs) =~= one.push(run_text(rs[1])));
        lemma_joined_push(one, ","@, run_text(rs[1]));
        assert(joined(one, ","@) == run_text(rs[0]));
    }
}

/// A part of a list that cannot be read is told with what was wrong in it.
pub proof fn law_unreadable_parts_are_told(start: Seq<char>, end: Seq<char>)
    requires
        !start.contains('-'),
        trimmed(start + seq!['-'] + end) == start + seq!['-'] + end,
    ensures
        natural_upto(trimmed(start), u32::MAX as int) is None ==> part_of(start + seq!['-'] + end)
            == Err::<Set<u32>, Seq<char>>("invalid cpuset range start '"@ + start + "'"@),
        natural_upto(trimmed(start), u32::MAX as int) is Some && natural_upto(
            trimmed(end),
            u32::MAX as int,
        ) is None ==> part_of(start + seq!['-'] + end) == Err::<Set<u32>, Seq<char>>(
            "invalid cpuset range end '"@ + end + "'"@,
        ),
{
    let p = start + seq!['-'] + end;
    let k = start.len() as int;
    assert forall|i: int| 0 <= i < k implies p[i] != '-' by {
        assert(start.contains(start[i]));
        assert(p[i] == start[i]);
    }
    assert(p[k] == '-');
    lemma_first_index_is(p, '-', k);
    assert(p.take(k) =~= start);
    assert(p.skip(k + 1) =~= end);
}

} // verus!
