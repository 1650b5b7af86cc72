//! Resource quantities in the notation of the cluster API.
use crate::text::{
    dec, has_suffix, i64_of, lemma_dec_suffixed, lemma_other_suffix, parse_i64, same, strip_suffix,
    trim, trimmed,
};
use crate::types::{ResourceQuantity, ResourceUnit};
use vstd::prelude::*;

verus! {

/// The 64-bit signed number nearest to `n`.
pub open spec fn nearest_i64(n: int) -> i64 {
    if n < i64::MIN {
        i64::MIN
    } else if n > i64::MAX {
        i64::MAX
    } else {
        n as i64
    }
}

/// `a` times `b`, or the nearest 64-bit signed number.
pub fn times_saturating(a: i64, b: u64) -> (r: i64)
    ensures
        r == nearest_i64(a * b),
{
    assert(-0x8000_0000_0000_0000 * 0x1_0000_0000_0000_0000 <= a * b <= 0x7fff_ffff_ffff_ffff
        * 0xffff_ffff_ffff_ffff) by (nonlinear_arith)
        requires
            -0x8000_0000_0000_0000 <= a <= 0x7fff_ffff_ffff_ffff,
            0 <= b <= 0xffff_ffff_ffff_ffff,
    ;
    let p: i128 = a as i128 * b as i128;
    if p < i64::MIN as i128 {
        i64::MIN
    } else if p > i64::MAX as i128 {
        i64::MAX
    } else {
        p as i64
    }
}

/// The integer that `s` denotes, times `factor`, in `unit`.
pub open spec fn scaled(s: Seq<char>, factor: nat, unit: ResourceUnit) -> Option<ResourceQuantity> {
    match i64_of(s) {
        Some(n) => Some(ResourceQuantity { value: nearest_i64(n * factor), unit }),
        None => None,
    }
}

/// What a quantity text denotes. The first suffix that fits decides: binary
/// and decimal multiples of bytes, thousandths of a core, or a plain count.
pub open spec fn k8s_quantity(text: Seq<char>) -> Option<ResourceQuantity> {
    let s = trimmed(text);
    let n = s.len();
    if has_suffix(s, "Ki"@) {
        scaled(s.take(n - 2), 1024, ResourceUnit::Bytes)
    } else if has_suffix(s, "Mi"@) {
        scaled(s.take(n - 2), 1024 * 1024, ResourceUnit::Bytes)
    } else if has_suffix(s, "Gi"@) {
        scaled(s.take(n - 2), 1024 * 1024 * 1024, ResourceUnit::Bytes)
    } else if has_suffix(s, "Ti"@) {
        scaled(s.take(n - 2), 1024 * 1024 * 1024 * 1024, ResourceUnit::Bytes)
    } else if has_suffix(s, "k"@) {
        scaled(s.take(n - 1), 1000, ResourceUnit::Bytes)
    } else if has_suffix(s, "M"@) {
        scaled(s.take(n - 1), 1_000_000, ResourceUnit::Bytes)
    } else if has_suffix(s, "G"@) {
        scaled(s.take(n - 1), 1_000_000_000, ResourceUnit::Bytes)
    } else if has_suffix(s, "m"@) {
        scaled(s.take(n - 1), 1, ResourceUnit::Millicores)
    } else {
        scaled(s, 1, ResourceUnit::Count)
    }
}

/// What a quantity text denotes for the resource `key`: a plain count of CPUs
/// is a number of whole cores.
pub open spec fn k8s_quantity_for_key(key: Seq<char>, text: Seq<char>) -> Option<ResourceQuantity> {
    match k8s_quantity(text) {
        Some(q) => if key == "cpu"@ && q.unit == ResourceUnit::Count {
            Some(
                ResourceQuantity {
                    value: nearest_i64(q.value * 1000),
                    unit: ResourceUnit::Millicores,
                },
            )
        } else {
            Some(q)
        },
        None => None,
    }
}

fn parse_scaled(s: &str, factor: u64, unit: ResourceUnit) -> (r: Option<ResourceQuantity>)
    ensures
        r == scaled(s@, factor as nat, unit),
{
    match parse_i64(s) {
        Some(n) => Some(ResourceQuantity { value: times_saturating(n, factor), unit }),
        None => None,
    }
}

/// Parses a quantity text.
pub fn parse_k8s_quantity(s: &str) -> (r: Option<ResourceQuantity>)
    ensures
        r == k8s_quantity(s@),
{
    proof {
        reveal_strlit("Ki");
        reveal_strlit("Mi");
        reveal_strlit("Gi");
        reveal_strlit("Ti");
        reveal_strlit("k");
        reveal_strlit("M");
        reveal_strlit("G");
        reveal_strlit("m");
    }
    let s = trim(s);
    if let Some(x) = strip_suffix(s, "Ki") {
        return parse_scaled(x, 1024, ResourceUnit::Bytes);
    }
    if let Some(x) = strip_suffix(s, "Mi") {
        return parse_scaled(x, 1024 * 1024, ResourceUnit::Bytes);
    }
    if let Some(x) = strip_suffix(s, "Gi") {
        return parse_scaled(x, 1024 * 1024 * 1024, ResourceUnit::Bytes);
    }
    if let Some(x) = strip_suffix(s, "Ti") {
        return parse_scaled(x, 1024 * 1024 * 1024 * 1024, ResourceUnit::Bytes);
    }
    if let Some(x) = strip_suffix(s, "k") {
        return parse_scaled(x, 1000, ResourceUnit::Bytes);
    }
    if let Some(x) = strip_suffix(s, "M") {
        return parse_scaled(x, 1_000_000, ResourceUnit::Bytes);
    }
    if let Some(x) = strip_suffix(s, "G") {
        return parse_scaled(x, 1_000_000_000, ResourceUnit::Bytes);
    }
    if let Some(x) = strip_suffix(s, "m") {
        return parse_scaled(x, 1, ResourceUnit::Millicores);
    }
    parse_scaled(s, 1, ResourceUnit::Count)
}

/// Parses a quantity text for the resource `key`.
pub fn parse_k8s_quantity_for_key(key: &str, s: &str) -> (r: Option<ResourceQuantity>)
    ensures
        r == k8s_quantity_for_key(key@, s@),
{
    match parse_k8s_quantity(s) {
        Some(q) => if same(key, "cpu") && q.unit == ResourceUnit::Count {
            Some(
                ResourceQuantity {
                    value: times_saturating(q.value, 1000),
                    unit: ResourceUnit::Millicores,
                },
            )
        } else {
            Some(q)
        },
        None => None,
    }
}

/// The amount that a number with a suffix denotes, for every number: `Ki`, `Mi`,
/// `Gi` and `Ti` are powers of 1024 bytes, `k`, `M` and `G` powers of 1000, `m`
/// thousandths of a core, and a bare number a count; as an amount of `cpu`, a
/// bare number counts whole cores.
pub proof fn law_suffixes_scale(n: nat)
    requires
        n * 1024 * 1024 * 1024 * 1024 <= i64::MAX,
    ensures
        k8s_quantity(dec(n) + "Ki"@) == Some(
            ResourceQuantity { value: (n * 1024) as i64, unit: ResourceUnit::Bytes },
        ),
        k8s_quantity(dec(n) + "Mi"@) == Some(
            ResourceQuantity { value: (n * 1024 * 1024) as i64, unit: ResourceUnit::Bytes },
        ),
        k8s_quantity(dec(n) + "Gi"@) == Some(
            ResourceQuantity { value: (n * 1024 * 1024 * 1024) as i64, unit: ResourceUnit::Bytes },
        ),
        k8s_quantity(dec(n) + "Ti"@) == Some(
            ResourceQuantity {
                value: (n * 1024 * 1024 * 1024 * 1024) as i64,
                unit: ResourceUnit::Bytes,
            },
        ),
        k8s_quantity(dec(n) + "k"@) == Some(
            ResourceQuantity { value: (n * 1000) as i64, unit: ResourceUnit::Bytes },
        ),
        k8s_quantity(dec(n) + "M"@) == Some(
            ResourceQuantity { value: (n * 1000 * 1000) as i64, unit: ResourceUnit::Bytes },
        ),
        k8s_quantity(dec(n) + "G"@) == Some(
            ResourceQuantity { value: (n * 1000 * 1000 * 1000) as i64, unit: ResourceUnit::Bytes },
        ),
        k8s_quantity(dec(n) + "m"@) == Some(
            ResourceQuantity { value: n as i64, unit: ResourceUnit::Millicores },
        ),
        k8s_quantity(dec(n)) == Some(
            ResourceQuantity { value: n as i64, unit: ResourceUnit::Count },
        ),
        k8s_quantity_for_key("cpu"@, dec(n)) == Some(
            ResourceQuantity { value: (n * 1000) as i64, unit: ResourceUnit::Millicores },
        ),
        k8s_quantity_for_key("cpu"@, dec(n) + "m"@) == Some(
            ResourceQuantity { value: n as i64, unit: ResourceUnit::Millicores },
        ),
        k8s_quantity_for_key("memory"@, dec(n)) == Some(
            ResourceQuantity { value: n as i64, unit: ResourceUnit::Count },
        ),
{
    lemma_quantity_suffixes();
    lemma_dec_suffixed(n, "Ki"@);
    lemma_dec_suffixed(n, "Mi"@);
    lemma_dec_suffixed(n, "Gi"@);
    lemma_dec_suffixed(n, "Ti"@);
    lemma_dec_suffixed(n, "k"@);
    lemma_dec_suffixed(n, "M"@);
    lemma_dec_suffixed(n, "G"@);
    lemma_dec_suffixed(n, "m"@);
    lemma_dec_suffixed(n, Seq::empty());
    assert(dec(n) + Seq::<char>::empty() =~= dec(n));
    lemma_only_suffix(dec(n) + "Ki"@);
    lemma_only_suffix(dec(n) + "Mi"@);
    lemma_only_suffix(dec(n) + "Gi"@);
    lemma_only_suffix(dec(n) + "Ti"@);
    lemma_only_suffix(dec(n) + "k"@);
    lemma_only_suffix(dec(n) + "M"@);
    lemma_only_suffix(dec(n) + "G"@);
    lemma_only_suffix(dec(n) + "m"@);
    lemma_only_suffix(dec(n));
    let d = dec(n).len() as int;
    assert(i64_of(dec(n)) == Some(n as i64));
    let m = dec(n) + "Mi"@;
    assert(m[d] == 'M' && m.last() == 'i');
    assert(k8s_quantity(m) == scaled(dec(n), 0x10_0000, ResourceUnit::Bytes));
    let g = dec(n) + "Gi"@;
    assert(g[d] == 'G' && g.last() == 'i');
    assert(k8s_quantity(g) == scaled(dec(n), 0x4000_0000, ResourceUnit::Bytes));
    let t = dec(n) + "Ti"@;
    assert(t[d] == 'T' && t.last() == 'i');
    assert(!has_suffix(t, "Ki"@) && !has_suffix(t, "Mi"@) && !has_suffix(t, "Gi"@));
    assert(k8s_quantity(t) == scaled(dec(n), 0x100_0000_0000, ResourceUnit::Bytes));
}

proof fn lemma_quantity_suffixes()
    ensures
        "Ki"@ == seq!['K', 'i'],
        "Mi"@ == seq!['M', 'i'],
        "Gi"@ == seq!['G', 'i'],
        "Ti"@ == seq!['T', 'i'],
        "k"@ == seq!['k'],
        "M"@ == seq!['M'],
        "G"@ == seq!['G'],
        "m"@ == seq!['m'],
        "cpu"@ != "memory"@,
{
    reveal_strlit("Ki");
    reveal_strlit("Mi");
    reveal_strlit("Gi");
    reveal_strlit("Ti");
    reveal_strlit("k");
    reveal_strlit("M");
    reveal_strlit("G");
    reveal_strlit("m");
    reveal_strlit("cpu");
    reveal_strlit("memory");
    assert("cpu"@.len() != "memory"@.len());
}

/// A text ends in those suffixes alone whose characters are its last ones.
proof fn lemma_only_suffix(s: Seq<char>)
    requires
        s.len() > 0,
    ensures
        s.len() >= 2 && s.last() == 'i' && s[s.len() - 2] != 'K' ==> !has_suffix(s, "Ki"@),
        s.len() >= 2 && s.last() == 'i' && s[s.len() - 2] != 'M' ==> !has_suffix(s, "Mi"@),
        s.len() >= 2 && s.last() == 'i' && s[s.len() - 2] != 'G' ==> !has_suffix(s, "Gi"@),
        s.len() >= 2 && s.last() == 'i' && s[s.len() - 2] != 'T' ==> !has_suffix(s, "Ti"@),
        s.last() != 'i' ==> !has_suffix(s, "Ki"@) && !has_suffix(s, "Mi"@) && !has_suffix(
            s,
            "Gi"@,
        ) && !has_suffix(s, "Ti"@),
        s.last() != 'k' ==> !has_suffix(s, "k"@),
        s.last() != 'M' ==> !has_suffix(s, "M"@),
        s.last() != 'G' ==> !has_suffix(s, "G"@),
        s.last() != 'm' ==> !has_suffix(s, "m"@),
{
    lemma_quantity_suffixes();
    if s.last() != 'i' || (s.len() >= 2 && s[s.len() - 2] != 'K') {
        lemma_other_suffix(s, "Ki"@);
    }
    if s.last() != 'i' || (s.len() >= 2 && s[s.len() - 2] != 'M') {
        lemma_other_suffix(s, "Mi"@);
    }
    if s.last() != 'i' || (s.len() >= 2 && s[s.len() - 2] != 'G') {
        lemma_other_suffix(s, "Gi"@);
    }
    if s.last() != 'i' || (s.len() >= 2 && s[s.len() - 2] != 'T') {
        lemma_other_suffix(s, "Ti"@);
    }
    if s.last() != 'k' {
        lemma_other_suffix(s, "k"@);
    }
    if s.last() != 'M' {
        lemma_other_suffix(s, "M"@);
    }
    if s.last() != 'G' {
        lemma_other_suffix(s, "G"@);
    }
    if s.last() != 'm' {
        lemma_other_suffix(s, "m"@);
    }
}

} // verus!
