//! Discovery of the features of a node: what its processors, its memory, its
//! kernel and its operating system offer.
pub mod labels;

use crate::paths::{join_path, path_join};
use crate::procfs::{find_line, kib_to_bytes, line_with, meminfo_kib, meminfo_kib_of, nth_word, word_at};
use crate::strmap::{
    copy_map, copy_text_map, distinct_keys, lemma_map_of_dom, lookup, map_of, StrMap,
};
use crate::text::{
    cat2, cat3, dec, decimal, has_prefix, holds, lemma_dec_suffixed, lemma_first_index_is, lines,
    lines_of, natural_upto, opt_text, parse_u64, pieces, split, split_whitespace, starts_with,
    strip_prefixes, texts, to_uppercase, trim, trim_char, trimmed, unicode_uppercase,
    without_leading, without_prefixes, without_trailing, words,
};
use vstd::prelude::*;

verus! {

/// The features of a node.
#[derive(Debug)]
pub struct NodeFeatures {
    /// The feature flags of the processors.
    pub cpu_flags: Vec<String>,
    pub cpu_cores: u32,
    /// The number of logical processors.
    pub cpu_threads: u32,
    pub cpu_model: String,
    pub memory_bytes: u64,
    /// The number of huge pages of each size.
    pub hugepages: StrMap<u64>,
    pub kernel_version: String,
    pub os_image: String,
    pub architecture: String,
    pub nvidia_gpu_count: u32,
    pub container_runtime_version: String,
    pub extended_resources: StrMap<u64>,
    pub labels: StrMap<String>,
}

impl Default for NodeFeatures {
    fn default() -> (r: Self)
        ensures
            r.cpu_flags@.len() == 0,
            r.cpu_cores == 0,
            r.cpu_threads == 0,
            r.cpu_model@.len() == 0,
            r.memory_bytes == 0,
            r.hugepages@ == Map::<Seq<char>, u64>::empty(),
            r.kernel_version@.len() == 0,
            r.os_image@.len() == 0,
            r.architecture@.len() == 0,
            r.nvidia_gpu_count == 0,
            r.container_runtime_version@.len() == 0,
            r.extended_resources@ == Map::<Seq<char>, u64>::empty(),
            r.labels@ == Map::<Seq<char>, String>::empty(),
    {
        NodeFeatures {
            cpu_flags: Vec::new(),
            cpu_cores: 0,
            cpu_threads: 0,
            cpu_model: String::new(),
            memory_bytes: 0,
            hugepages: StrMap::new(),
            kernel_version: String::new(),
            os_image: String::new(),
            architecture: String::new(),
            nvidia_gpu_count: 0,
            container_runtime_version: String::new(),
            extended_resources: StrMap::new(),
            labels: StrMap::new(),
        }
    }
}

// ---------------------------------------------------------------------------
// Labels
// ---------------------------------------------------------------------------

/// The text of the label `k`.
pub open spec fn label(m: Map<Seq<char>, String>, k: Seq<char>) -> Option<Seq<char>> {
    opt_text(lookup(m, k))
}

pub(crate) fn put(labels: &mut StrMap<String>, k: String, v: &str)
    ensures
        forall|q: Seq<char>| #[trigger]
            label(final(labels)@, q) == if q == k@ {
                Some(v@)
            } else {
                label(old(labels)@, q)
            },
{
    labels.insert(k, v.to_owned());
}

/// The number of huge pages, of which there are some, that `k` stands for: their
/// size is between `prefix` and `suffix`.
pub open spec fn page_count(
    pages: Map<Seq<char>, u64>,
    prefix: Seq<char>,
    suffix: Seq<char>,
    k: Seq<char>,
) -> Option<u64> {
    let size = k.subrange(prefix.len() as int, k.len() - suffix.len());
    if k.len() >= prefix.len() + suffix.len() && k == prefix + size + suffix && pages.contains_key(
        size,
    ) && pages[size] > 0 {
        Some(pages[size])
    } else {
        None
    }
}

/// A further size changes what its own key stands for, and nothing else.
pub(crate) proof fn lemma_page_count(
    pages: Map<Seq<char>, u64>,
    size: Seq<char>,
    n: u64,
    prefix: Seq<char>,
    suffix: Seq<char>,
)
    ensures
        forall|k: Seq<char>| #[trigger]
            page_count(pages.insert(size, n), prefix, suffix, k) == if k == prefix + size + suffix {
                if n > 0 {
                    Some(n)
                } else {
                    None
                }
            } else {
                page_count(pages, prefix, suffix, k)
            },
{
    assert forall|k: Seq<char>| #[trigger]
        page_count(pages.insert(size, n), prefix, suffix, k) == if k == prefix + size + suffix {
            if n > 0 {
                Some(n)
            } else {
                None
            }
        } else {
            page_count(pages, prefix, suffix, k)
        } by {
        let own = k.subrange(prefix.len() as int, k.len() - suffix.len());
        if k == prefix + size + suffix {
            assert(own =~= size);
        } else if own == size {
            assert(k != prefix + own + suffix);
        }
    }
}

/// The first entries of a map of pages, and one more.
pub(crate) proof fn lemma_next_page(pairs: Seq<(Seq<char>, u64)>, i: int, prefix: Seq<char>, suffix: Seq<char>)
    requires
        0 <= i < pairs.len(),
        distinct_keys(pairs),
    ensures
        map_of(pairs.take(i + 1)) == map_of(pairs.take(i)).insert(pairs[i].0, pairs[i].1),
        page_count(map_of(pairs.take(i)), prefix, suffix, prefix + pairs[i].0 + suffix) is None,
{
    let front = pairs.take(i);
    assert(pairs.take(i + 1).drop_last() =~= front);
    lemma_map_of_dom(front, pairs[i].0);
    assert forall|j: int| 0 <= j < i implies (#[trigger] front[j]).0 != pairs[i].0 by {
        assert(pairs[j].0 != pairs[i].0);
    }
    let k = prefix + pairs[i].0 + suffix;
    assert(k.subrange(prefix.len() as int, k.len() - suffix.len()) =~= pairs[i].0);
}

/// Adds a label for each size of huge pages of which there are some: with their
/// number, or with `true`.
pub(crate) fn put_pages(
    labels: &mut StrMap<String>,
    pages: &StrMap<u64>,
    prefix: &str,
    suffix: &str,
    counts: bool,
)
    ensures
        forall|k: Seq<char>| #[trigger]
            label(final(labels)@, k) == match page_count(pages@, prefix@, suffix@, k) {
                Some(n) => Some(
                    if counts {
                        dec(n as nat)
                    } else {
                        "true"@
                    },
                ),
                None => label(old(labels)@, k),
            },
{
    let n: usize = pages.len();
    let ghost pairs = pages.pairs();
    let ghost start = labels@;
    let mut i: usize = 0;
    assert(map_of(pairs.take(0)) =~= Map::<Seq<char>, u64>::empty());
    while i < n
        invariant
            i <= n == pairs.len(),
            pairs == pages.pairs(),
            distinct_keys(pairs),
            forall|k: Seq<char>| #[trigger]
                label(labels@, k) == match page_count(
                    map_of(pairs.take(i as int)),
                    prefix@,
                    suffix@,
                    k,
                ) {
                    Some(n) => Some(
                        if counts {
                            dec(n as nat)
                        } else {
                            "true"@
                        },
                    ),
                    None => label(start, k),
                },
        decreases n - i,
    {
        let count: u64 = *pages.value_at(i);
        proof {
            lemma_next_page(pairs, i as int, prefix@, suffix@);
            lemma_page_count(
                map_of(pairs.take(i as int)),
                pairs[i as int].0,
                count,
                prefix@,
                suffix@,
            );
        }
        if count > 0 {
            let k = cat3(prefix, pages.key_at(i).as_str(), suffix);
            if counts {
                let v = decimal(count);
                put(labels, k, v.as_str());
            } else {
                put(labels, k, "true");
            }
        }
        i = i + 1;
    }
    assert(pairs.take(i as int) =~= pairs);
}

/// Whether `k` is the key of one of the flags.
pub open spec fn is_flag_key(
    flags: Seq<Seq<char>>,
    key: spec_fn(Seq<char>) -> Seq<char>,
    k: Seq<char>,
) -> bool {
    exists|i: int| 0 <= i < flags.len() && k == key(#[trigger] flags[i])
}

pub open spec fn cpuid_key() -> spec_fn(Seq<char>) -> Seq<char> {
    |flag: Seq<char>| "feature.node.kubernetes.io/cpu-cpuid."@ + unicode_uppercase(flag)
}

/// The label `k` of a node with the given features.
pub open spec fn label_of(f: NodeFeatures, k: Seq<char>) -> Option<Seq<char>> {
    match page_count(
        f.hugepages@,
        "feature.node.kubernetes.io/memory-numa.hugepages-"@,
        Seq::empty(),
        k,
    ) {
        Some(n) => Some(dec(n as nat)),
        None => if k == "feature.node.kubernetes.io/system-os_release.ID"@ {
            Some(f.architecture@)
        } else if is_flag_key(texts(f.cpu_flags@), cpuid_key(), k) {
            Some("true"@)
        } else {
            label(f.labels@, k)
        },
    }
}

impl NodeFeatures {
    /// The labels of the node.
    pub fn to_labels(&self) -> (r: StrMap<String>)
        ensures
            forall|k: Seq<char>| #[trigger] label(r@, k) == label_of(*self, k),
    {
        let mut labels = copy_text_map(&self.labels);
        let mut i: usize = 0;
        let ghost flags = texts(self.cpu_flags@);
        while i < self.cpu_flags.len()
            invariant
                i <= self.cpu_flags@.len(),
                flags == texts(self.cpu_flags@),
                forall|k: Seq<char>| #[trigger]
                    label(labels@, k) == if is_flag_key(flags.take(i as int), cpuid_key(), k) {
                        Some("true"@)
                    } else {
                        label(self.labels@, k)
                    },
            decreases self.cpu_flags@.len() - i,
        {
            let upper = to_uppercase(self.cpu_flags[i].as_str());
            let key = cat2("feature.node.kubernetes.io/cpu-cpuid.", upper.as_str());
            proof {
                lemma_next_flag(flags, cpuid_key(), i as int);
            }
            put(&mut labels, key, "true");
            i = i + 1;
        }
        assert(flags.take(i as int) =~= flags);
        put(
            &mut labels,
            "feature.node.kubernetes.io/system-os_release.ID".to_owned(),
            self.architecture.as_str(),
        );
        put_pages(
            &mut labels,
            &self.hugepages,
            "feature.node.kubernetes.io/memory-numa.hugepages-",
            "",
            true,
        );
        proof {
            reveal_strlit("");
            assert(""@ =~= Seq::<char>::empty());
        }
        labels
    }

    /// The extended resources of the node.
    pub fn to_extended_resources(&self) -> (r: StrMap<u64>)
        ensures
            r@ == self.extended_resources@,
    {
        copy_map(&self.extended_resources)
    }
}

/// The keys of the first flags, and of one more.
pub(crate) proof fn lemma_next_flag(flags: Seq<Seq<char>>, key: spec_fn(Seq<char>) -> Seq<char>, i: int)
    requires
        0 <= i < flags.len(),
    ensures
        forall|k: Seq<char>| #[trigger]
            is_flag_key(flags.take(i + 1), key, k) == (k == key(flags[i]) || is_flag_key(
                flags.take(i),
                key,
                k,
            )),
{
    let next = flags.take(i + 1);
    let front = flags.take(i);
    assert forall|k: Seq<char>| #[trigger]
        is_flag_key(next, key, k) == (k == key(flags[i]) || is_flag_key(front, key, k)) by {
        assert(next[i] == flags[i]);
        if is_flag_key(front, key, k) {
            let j = choose|j: int| 0 <= j < front.len() && k == key(#[trigger] front[j]);
            assert(next[j] == front[j]);
        }
        if is_flag_key(next, key, k) {
            let j = choose|j: int| 0 <= j < next.len() && k == key(#[trigger] next[j]);
            if j < i {
                assert(front[j] == next[j]);
            }
        }
    }
}

// ---------------------------------------------------------------------------
// Discovery
// ---------------------------------------------------------------------------

/// A directory of huge pages, and the text of its count where it can be read.
#[derive(Debug)]
pub struct HugepageDir {
    pub name: String,
    pub count: Option<String>,
}

/// What the system tells of itself. What cannot be read is missing.
#[derive(Debug)]
pub struct SystemFacts {
    pub cpuinfo: Option<String>,
    pub meminfo: Option<String>,
    pub hugepages: Option<Vec<HugepageDir>>,
    pub version: Option<String>,
    pub os_release: Option<String>,
    /// The architecture and the operating system that the agent was built for.
    pub arch: String,
    pub os: String,
}

/// Looks for the features of the node.
#[derive(Debug)]
pub struct FeatureScanner {
    pub proc_path: String,
    pub sys_path: String,
}

/// The text after the first colon of a line, up to the next one.
pub open spec fn value_of(line: Seq<char>) -> Option<Seq<char>> {
    if pieces(line, ':').len() > 1 {
        Some(pieces(line, ':')[1])
    } else {
        None
    }
}

fn value(line: &str) -> (r: Option<String>)
    ensures
        opt_text(r) == value_of(line@),
{
    let parts = split(line, ':');
    assert(texts(parts@).len() == parts@.len());
    if parts.len() > 1 {
        assert(texts(parts@)[1] == parts@[1]@);
        Some(parts[1].clone())
    } else {
        None
    }
}

/// The number of logical processors.
pub open spec fn thread_count(lines: Seq<Seq<char>>) -> nat
    decreases lines.len(),
{
    if lines.len() == 0 {
        0
    } else {
        thread_count(lines.drop_last()) + if has_prefix(lines.last(), "processor"@) {
            1nat
        } else {
            0nat
        }
    }
}

/// The identifiers of the cores.
pub open spec fn core_ids(lines: Seq<Seq<char>>) -> Set<Seq<char>>
    decreases lines.len(),
{
    if lines.len() == 0 {
        Set::empty()
    } else {
        let front = core_ids(lines.drop_last());
        match value_of(lines.last()) {
            Some(v) => if has_prefix(lines.last(), "core id"@) {
                front.insert(trimmed(v))
            } else {
                front
            },
            None => front,
        }
    }
}

/// The first model name that is given; empty where there is none.
pub open spec fn model_name(lines: Seq<Seq<char>>) -> Seq<char>
    decreases lines.len(),
{
    if lines.len() == 0 {
        Seq::empty()
    } else {
        let front = model_name(lines.drop_last());
        match value_of(lines.last()) {
            Some(v) => if has_prefix(lines.last(), "model name"@) && front.len() == 0 {
                trimmed(v)
            } else {
                front
            },
            None => front,
        }
    }
}

/// The first flags that are given; none where there are none.
pub open spec fn flag_names(lines: Seq<Seq<char>>) -> Seq<Seq<char>>
    decreases lines.len(),
{
    if lines.len() == 0 {
        Seq::empty()
    } else {
        let front = flag_names(lines.drop_last());
        let line = lines.last();
        if (has_prefix(line, "flags"@) || has_prefix(line, "Features"@)) && front.len() == 0 {
            match value_of(line) {
                Some(v) => words(v),
                None => Seq::empty(),
            }
        } else {
            front
        }
    }
}

/// The number of cores: of their identifiers, or else of the logical processors.
pub open spec fn core_count(lines: Seq<Seq<char>>) -> nat {
    if core_ids(lines).len() == 0 {
        thread_count(lines)
    } else {
        core_ids(lines).len()
    }
}

/// The lines of an optional text.
pub open spec fn lines_or_none(content: Option<String>) -> Seq<Seq<char>> {
    match content {
        Some(c) => lines_of(c@),
        None => Seq::empty(),
    }
}

/// What the features say of the processors.
pub open spec fn cpu_features(f: NodeFeatures, lines: Seq<Seq<char>>) -> bool {
    &&& f.cpu_threads == thread_count(lines)
    &&& f.cpu_cores == core_count(lines)
    &&& f.cpu_model@ == model_name(lines)
    &&& texts(f.cpu_flags@) == flag_names(lines)
}

/// The number of huge pages of each size.
pub open spec fn page_counts(dirs: Seq<HugepageDir>) -> Map<Seq<char>, u64>
    decreases dirs.len(),
{
    if dirs.len() == 0 {
        Map::empty()
    } else {
        let front = page_counts(dirs.drop_last());
        let d = dirs.last();
        match d.count {
            Some(c) => match natural_upto(trimmed(c@), u64::MAX as int) {
                Some(n) => if has_prefix(d.name@, "hugepages-"@) {
                    front.insert(without_prefixes(d.name@, "hugepages-"@), n as u64)
                } else {
                    front
                },
                None => front,
            },
            None => front,
        }
    }
}

pub open spec fn dirs_or_none(dirs: Option<Vec<HugepageDir>>) -> Seq<HugepageDir> {
    match dirs {
        Some(d) => d@,
        None => Seq::empty(),
    }
}

/// The memory in bytes; zero where it is not given.
pub open spec fn memory_of(meminfo: Option<String>) -> nat {
    match meminfo {
        Some(c) => match meminfo_kib_of(c@, "MemTotal:"@) {
            Some(k) => k * 1024,
            None => 0,
        },
        None => 0,
    }
}

/// The version of the kernel: the third word, where there is one.
pub open spec fn kernel_of(version: Option<String>) -> Seq<char> {
    match version {
        Some(c) => match word_at(c@, 2) {
            Some(w) => w,
            None => "unknown"@,
        },
        None => Seq::empty(),
    }
}

/// The name of the operating system that its release information gives.
pub open spec fn pretty_name(os_release: Option<String>) -> Seq<char> {
    match line_with(lines_or_none(os_release), "PRETTY_NAME="@) {
        Some(l) => without_trailing(
            without_leading(without_prefixes(l, "PRETTY_NAME="@), '"'),
            '"',
        ),
        None => Seq::empty(),
    }
}

/// The name of the operating system.
pub open spec fn os_of(facts: SystemFacts) -> Seq<char> {
    if pretty_name(facts.os_release).len() == 0 {
        facts.os@
    } else {
        pretty_name(facts.os_release)
    }
}

/// What the features are for what the system tells of itself.
pub open spec fn features_of(f: NodeFeatures, facts: SystemFacts) -> bool {
    &&& cpu_features(f, lines_or_none(facts.cpuinfo))
    &&& f.memory_bytes == memory_of(facts.meminfo)
    &&& f.hugepages@ == page_counts(dirs_or_none(facts.hugepages))
    &&& f.kernel_version@ == kernel_of(facts.version)
    &&& f.os_image@ == os_of(facts)
    &&& f.architecture@ == facts.arch@
    &&& f.nvidia_gpu_count == 0
    &&& f.container_runtime_version@.len() == 0
    &&& f.extended_resources@ == Map::<Seq<char>, u64>::empty()
    &&& f.labels@ == Map::<Seq<char>, String>::empty()
}

/// Whether the numbers of processors and of bytes fit their types.
pub open spec fn counts_fit(facts: SystemFacts) -> bool {
    &&& lines_or_none(facts.cpuinfo).len() <= u32::MAX
    &&& memory_of(facts.meminfo) <= u64::MAX
}

proof fn lemma_pushed_set(s: Seq<Seq<char>>, x: Seq<char>)
    ensures
        s.push(x).to_set() == s.to_set().insert(x),
{
    let t = s.push(x);
    assert forall|y: Seq<char>| t.to_set().contains(y) == s.to_set().insert(x).contains(y) by {
        if s.contains(y) {
            let i = choose|i: int| 0 <= i < s.len() && s[i] == y;
            assert(t[i] == y);
        }
        assert(t[s.len() as int] == x);
        if t.contains(y) {
            let i = choose|i: int| 0 <= i < t.len() && t[i] == y;
            assert(i < s.len() ==> s[i] == y);
        }
    }
    assert(t.to_set() =~= s.to_set().insert(x));
}

fn scan_cpu(features: &mut NodeFeatures, cpuinfo: &Option<String>)
    requires
        lines_or_none(*cpuinfo).len() <= u32::MAX,
        old(features).cpu_flags@.len() == 0,
        old(features).cpu_cores == 0,
        old(features).cpu_threads == 0,
        old(features).cpu_model@.len() == 0,
    ensures
        cpu_features(*final(features), lines_or_none(*cpuinfo)),
        *final(features) == (NodeFeatures {
            cpu_flags: final(features).cpu_flags,
            cpu_cores: final(features).cpu_cores,
            cpu_threads: final(features).cpu_threads,
            cpu_model: final(features).cpu_model,
            ..*old(features)
        }),
{
    let content = match cpuinfo {
        Some(c) => c,
        None => {
            assert(core_ids(Seq::empty()).len() == 0);
            assert(features.cpu_model@ =~= Seq::<char>::empty());
            assert(texts(features.cpu_flags@) =~= Seq::<Seq<char>>::empty());
            return ;
        },
    };
    let rows = lines(content.as_str());
    let ghost all = texts(rows@);
    let mut ids: Vec<String> = Vec::new();
    let mut threads: u32 = 0;
    let mut model = String::new();
    let mut flags: Vec<String> = Vec::new();
    let mut i: usize = 0;
    proof {
        assert(all.take(0) =~= Seq::<Seq<char>>::empty());
        assert(texts(ids@).to_set() =~= Set::<Seq<char>>::empty());
        assert(texts(flags@) =~= Seq::<Seq<char>>::empty());
        assert(model@ =~= Seq::<char>::empty());
    }
    while i < rows.len()
        invariant
            i <= rows@.len(),
            all == texts(rows@),
            all.len() == rows@.len() <= u32::MAX,
            threads == thread_count(all.take(i as int)),
            threads <= i,
            texts(ids@).to_set() == core_ids(all.take(i as int)),
            texts(ids@).no_duplicates(),
            ids@.len() <= i,
            model@ == model_name(all.take(i as int)),
            texts(flags@) == flag_names(all.take(i as int)),
        decreases rows@.len() - i,
    {
        let line = rows[i].as_str();
        let v = value(line);
        proof {
            assert(all[i as int] == line@);
            assert(all.take(i + 1).drop_last() =~= all.take(i as int));
            assert(all.take(i + 1).last() == line@);
            assert(texts(flags@).len() == flags@.len());
        }
        if starts_with(line, "processor") {
            threads = threads + 1;
        }
        if let Some(value) = &v {
            if starts_with(line, "core id") {
                let id = trim(value.as_str());
                let ghost before = ids@;
                if !holds(&ids, id) {
                    ids.push(id.to_owned());
                    proof {
                        assert(texts(ids@) =~= texts(before).push(id@));
                        lemma_pushed_set(texts(before), id@);
                    }
                } else {
                    assert(texts(ids@).to_set() =~= texts(before).to_set().insert(id@));
                }
            }
            if starts_with(line, "model name") && model.as_str().is_empty() {
                model = trim(value.as_str()).to_owned();
            }
        }
        if (starts_with(line, "flags") || starts_with(line, "Features")) && flags.len() == 0 {
            flags = match &v {
                Some(value) => split_whitespace(value.as_str()),
                None => Vec::new(),
            };
            assert(v is None ==> texts(flags@) =~= Seq::<Seq<char>>::empty());
        }
        i = i + 1;
    }
    assert(all.take(i as int) =~= all);
    proof {
        texts(ids@).unique_seq_to_set();
    }
    features.cpu_threads = threads;
    features.cpu_cores = if ids.len() == 0 {
        threads
    } else {
        ids.len() as u32
    };
    features.cpu_model = model;
    features.cpu_flags = flags;
}

fn scan_hugepages(dirs: &Option<Vec<HugepageDir>>) -> (r: StrMap<u64>)
    ensures
        r@ == page_counts(dirs_or_none(*dirs)),
{
    let mut out: StrMap<u64> = StrMap::new();
    let dirs = match dirs {
        Some(d) => d,
        None => {
            return out;
        },
    };
    let mut i: usize = 0;
    assert(dirs@.take(0) =~= Seq::<HugepageDir>::empty());
    while i < dirs.len()
        invariant
            i <= dirs@.len(),
            out@ == page_counts(dirs@.take(i as int)),
        decreases dirs@.len() - i,
    {
        let d = &dirs[i];
        assert(dirs@.take(i + 1).drop_last() =~= dirs@.take(i as int));
        if starts_with(d.name.as_str(), "hugepages-") {
            if let Some(c) = &d.count {
                if let Some(n) = parse_u64(trim(c.as_str())) {
                    let size = strip_prefixes(d.name.as_str(), "hugepages-");
                    out.insert(size.to_owned(), n);
                }
            }
        }
        i = i + 1;
    }
    assert(dirs@.take(i as int) =~= dirs@);
    out
}

fn scan_memory(meminfo: &Option<String>) -> (r: u64)
    requires
        memory_of(*meminfo) <= u64::MAX,
    ensures
        r == memory_of(*meminfo),
{
    match meminfo {
        Some(c) => match meminfo_kib(c.as_str(), "MemTotal:") {
            Some(k) => kib_to_bytes(k),
            None => 0,
        },
        None => 0,
    }
}

fn scan_kernel(version: &Option<String>) -> (r: String)
    ensures
        r@ == kernel_of(*version),
{
    match version {
        Some(c) => match nth_word(c.as_str(), 2) {
            Some(w) => w,
            None => "unknown".to_owned(),
        },
        None => {
            let r = String::new();
            assert(r@ =~= Seq::<char>::empty());
            r
        },
    }
}

fn scan_os(facts: &SystemFacts) -> (r: String)
    ensures
        r@ == os_of(*facts),
{
    let line = match &facts.os_release {
        Some(c) => find_line(c.as_str(), "PRETTY_NAME="),
        None => None,
    };
    if let Some(l) = line {
        let name = trim_char(strip_prefixes(l.as_str(), "PRETTY_NAME="), '"');
        if !name.is_empty() {
            return name.to_owned();
        }
    }
    facts.os.clone()
}

impl FeatureScanner {
    pub fn new() -> (r: Self)
        ensures
            r.proc_path@ == "/proc"@,
            r.sys_path@ == "/sys"@,
    {
        FeatureScanner { proc_path: "/proc".to_owned(), sys_path: "/sys".to_owned() }
    }

    /// A scanner of a system whose files are below `root`.
    pub fn with_root(root: &str) -> (r: Self)
        ensures
            r.proc_path@ == path_join(root@, "proc"@),
            r.sys_path@ == path_join(root@, "sys"@),
    {
        FeatureScanner { proc_path: join_path(root, "proc"), sys_path: join_path(root, "sys") }
    }

    /// The file with the processors.
    pub fn cpuinfo_path(&self) -> (r: String)
        ensures
            r@ == path_join(self.proc_path@, "cpuinfo"@),
    {
        join_path(self.proc_path.as_str(), "cpuinfo")
    }

    /// The file with the memory.
    pub fn meminfo_path(&self) -> (r: String)
        ensures
            r@ == path_join(self.proc_path@, "meminfo"@),
    {
        join_path(self.proc_path.as_str(), "meminfo")
    }

    /// The file with the version of the kernel.
    pub fn version_path(&self) -> (r: String)
        ensures
            r@ == path_join(self.proc_path@, "version"@),
    {
        join_path(self.proc_path.as_str(), "version")
    }

    /// The directory with those of the huge pages.
    pub fn hugepages_path(&self) -> (r: String)
        ensures
            r@ == path_join(self.sys_path@, "kernel/mm/hugepages"@),
    {
        join_path(self.sys_path.as_str(), "kernel/mm/hugepages")
    }

    /// The features of the node, from what its system tells of itself.
    pub fn scan(&self, facts: &SystemFacts) -> (r: NodeFeatures)
        requires
            counts_fit(*facts),
        ensures
            features_of(r, *facts),
    {
        let mut features = NodeFeatures::default();
        features.architecture = facts.arch.clone();
        scan_cpu(&mut features, &facts.cpuinfo);
        features.memory_bytes = scan_memory(&facts.meminfo);
        features.hugepages = scan_hugepages(&facts.hugepages);
        features.kernel_version = scan_kernel(&facts.version);
        features.os_image = scan_os(facts);
        features
    }
}

impl Default for FeatureScanner {
    fn default() -> (r: Self)
        ensures
            r.proc_path@ == "/proc"@,
            r.sys_path@ == "/sys"@,
    {
        FeatureScanner::new()
    }
}

/// The number of NVIDIA devices, of which `entries` are the entries of their
/// directory that could be read; missing where there is no such directory.
pub fn detect_nvidia_gpus(entries: &Option<Vec<String>>) -> (r: u64)
    ensures
        r == match *entries {
            Some(e) => e@.len(),
            None => 0,
        },
{
    match entries {
        Some(e) => e.len() as u64,
        None => 0,
    }
}

/// The pages of a size are found under their own key, and only where there are
/// some.
pub proof fn law_pages_have_their_keys(
    pages: Map<Seq<char>, u64>,
    prefix: Seq<char>,
    suffix: Seq<char>,
    size: Seq<char>,
)
    ensures
        pages.contains_key(size) && pages[size] > 0 ==> page_count(
            pages,
            prefix,
            suffix,
            prefix + size + suffix,
        ) == Some(pages[size]),
        !pages.contains_key(size) || pages[size] == 0 ==> page_count(
            pages,
            prefix,
            suffix,
            prefix + size + suffix,
        ) is None,
{
    let k = prefix + size + suffix;
    assert(k.subrange(prefix.len() as int, k.len() - suffix.len()) =~= size);
}

/// The labels of a node give the number of huge pages of each size, a label
/// for each feature of its processors, and its architecture.
pub proof fn law_features_are_labelled(f: NodeFeatures, size: Seq<char>, i: int)
    ensures
        f.hugepages@.contains_key(size) && f.hugepages@[size] > 0 ==> label_of(
            f,
            "feature.node.kubernetes.io/memory-numa.hugepages-"@ + size,
        ) == Some(dec(f.hugepages@[size] as nat)),
        label_of(f, "feature.node.kubernetes.io/system-os_release.ID"@) == Some(f.architecture@),
        0 <= i < f.cpu_flags@.len() ==> label_of(
            f,
            "feature.node.kubernetes.io/cpu-cpuid."@ + unicode_uppercase(f.cpu_flags@[i]@),
        ) == Some("true"@),
{
    let prefix = "feature.node.kubernetes.io/memory-numa.hugepages-"@;
    let os = "feature.node.kubernetes.io/system-os_release.ID"@;
    let cpu = "feature.node.kubernetes.io/cpu-cpuid."@;
    law_pages_have_their_keys(f.hugepages@, prefix, Seq::empty(), size);
    assert(prefix + size + Seq::<char>::empty() =~= prefix + size);
    reveal_strlit("feature.node.kubernetes.io/memory-numa.hugepages-");
    reveal_strlit("feature.node.kubernetes.io/system-os_release.ID");
    reveal_strlit("feature.node.kubernetes.io/cpu-cpuid.");
    assert(prefix[27] == 'm' && os[27] == 's' && cpu[27] == 'c');
    lemma_other_prefix(f.hugepages@, prefix, Seq::empty(), os, 27);
    if 0 <= i < f.cpu_flags@.len() {
        let k = cpu + unicode_uppercase(f.cpu_flags@[i]@);
        assert(k[27] == 'c');
        lemma_other_prefix(f.hugepages@, prefix, Seq::empty(), k, 27);
        assert(texts(f.cpu_flags@)[i] == f.cpu_flags@[i]@);
        assert(k == cpuid_key()(texts(f.cpu_flags@)[i]));
        assert(is_flag_key(texts(f.cpu_flags@), cpuid_key(), k));
    }
}

/// A key that does not begin with the prefix counts no pages.
pub(crate) proof fn lemma_other_prefix(
    pages: Map<Seq<char>, u64>,
    prefix: Seq<char>,
    suffix: Seq<char>,
    k: Seq<char>,
    i: int,
)
    requires
        0 <= i < prefix.len(),
        i < k.len() ==> k[i] != prefix[i],
    ensures
        page_count(pages, prefix, suffix, k) is None,
{
    let size = k.subrange(prefix.len() as int, k.len() - suffix.len());
    if k.len() >= prefix.len() + suffix.len() && k == prefix + size + suffix {
        assert((prefix + size + suffix)[i] == prefix[i]);
    }
}

/// Each entry of a processor counts as one thread, and each number of a core
/// once, however many threads it has.
pub proof fn law_threads_and_cores_are_counted(lines: Seq<Seq<char>>, line: Seq<char>)
    ensures
        has_prefix(line, "processor"@) ==> thread_count(lines.push(line)) == thread_count(lines)
            + 1,
        !has_prefix(line, "processor"@) ==> thread_count(lines.push(line)) == thread_count(lines),
        has_prefix(line, "core id"@) && value_of(line) is Some ==> core_ids(lines.push(line))
            == core_ids(lines).insert(trimmed(value_of(line)->0)),
        !has_prefix(line, "core id"@) ==> core_ids(lines.push(line)) == core_ids(lines),
        core_ids(lines).len() > 0 ==> core_count(lines) == core_ids(lines).len(),
        core_ids(lines).len() == 0 ==> core_count(lines) == thread_count(lines),
{
    assert(lines.push(line).drop_last() =~= lines);
}

/// The model and the flags are those of the first processor that names any.
pub proof fn law_first_processor_is_described(lines: Seq<Seq<char>>, line: Seq<char>)
    ensures
        model_name(lines).len() > 0 ==> model_name(lines.push(line)) == model_name(lines),
        model_name(lines).len() == 0 && has_prefix(line, "model name"@) && value_of(line) is Some
            ==> model_name(lines.push(line)) == trimmed(value_of(line)->0),
        flag_names(lines).len() > 0 ==> flag_names(lines.push(line)) == flag_names(lines),
        flag_names(lines).len() == 0 && (has_prefix(line, "flags"@) || has_prefix(
            line,
            "Features"@,
        )) && value_of(line) is Some ==> flag_names(lines.push(line)) == words(value_of(line)->0),
{
    assert(lines.push(line).drop_last() =~= lines);
}

/// The features of a node are read each from its own source.
pub proof fn law_features_come_from_their_sources(f: NodeFeatures, facts: SystemFacts, kib: nat)
    requires
        features_of(f, facts),
    ensures
        facts.meminfo matches Some(c) ==> (meminfo_kib_of(c@, "MemTotal:"@) == Some(kib)
            ==> f.memory_bytes == kib * 1024),
        facts.meminfo is None ==> f.memory_bytes == 0,
        facts.version matches Some(c) ==> (word_at(c@, 2) matches Some(w) ==> f.kernel_version@
            == w),
        f.architecture@ == facts.arch@,
        facts.os_release is None ==> f.os_image@ == facts.os@,
        facts.cpuinfo is None ==> f.cpu_threads == 0,
        facts.cpuinfo matches Some(c) ==> f.cpu_threads == thread_count(lines_of(c@))
            && f.cpu_cores == core_count(lines_of(c@)),
{
}

/// A directory of huge pages gives the number of pages of the size in its name.
pub proof fn law_huge_pages_are_read(
    dirs: Seq<HugepageDir>,
    d: HugepageDir,
    size: Seq<char>,
    n: nat,
)
    requires
        n <= u64::MAX,
        !has_prefix(size, "hugepages-"@),
    ensures
        d.name@ == "hugepages-"@ + size && opt_text(d.count) == Some(dec(n)) ==> page_counts(
            dirs.push(d),
        ) == page_counts(dirs).insert(size, n as u64),
        d.count is None ==> page_counts(dirs.push(d)) == page_counts(dirs),
        !has_prefix(d.name@, "hugepages-"@) ==> page_counts(dirs.push(d)) == page_counts(dirs),
{
    reveal_strlit("hugepages-");
    assert(dirs.push(d).drop_last() =~= dirs);
    lemma_dec_suffixed(n, Seq::empty());
    assert(dec(n) + Seq::<char>::empty() =~= dec(n));
    let p = "hugepages-"@;
    let s = p + size;
    assert(s.take(p.len() as int) =~= p);
    assert(s.skip(p.len() as int) =~= size);
    assert(without_prefixes(size, p) == size);
    assert(without_prefixes(s, p) == size);
}

/// A line without a colon has no value, and one with a colon has what stands
/// behind it.
pub proof fn law_values_stand_behind_colons(key: Seq<char>, value: Seq<char>)
    requires
        !key.contains(':'),
        !value.contains(':'),
    ensures
        value_of(key) is None,
        value_of(key + seq![':'] + value) == Some(value),
{
    let line = key + seq![':'] + value;
    let k = key.len() as int;
    assert forall|i: int| 0 <= i < k implies key[i] != ':' by {
        assert(key.contains(key[i]));
    }
    assert forall|i: int| 0 <= i < value.len() implies value[i] != ':' by {
        assert(value.contains(value[i]));
    }
    lemma_first_index_is(key, ':', k);
    lemma_first_index_is(value, ':', value.len() as int);
    assert forall|i: int| 0 <= i < k implies line[i] != ':' by {
        assert(line[i] == key[i]);
    }
    assert(line[k] == ':');
    lemma_first_index_is(line, ':', k);
    assert(line.skip(k + 1) =~= value);
    assert(pieces(value, ':') == seq![value]);
    assert(pieces(line, ':') == seq![line.take(k)] + pieces(value, ':'));
    assert(pieces(line, ':')[1] == value);
}

/// What cannot be read of a system counts as nothing, and what is not looked
/// for is left empty.
pub proof fn law_features_are_otherwise_empty(f: NodeFeatures, facts: SystemFacts, key: Seq<char>)
    requires
        features_of(f, facts),
    ensures
        facts.meminfo matches Some(c) ==> (meminfo_kib_of(c@, "MemTotal:"@) is None
            ==> f.memory_bytes == 0),
        f.nvidia_gpu_count == 0,
        f.container_runtime_version@.len() == 0,
        !f.extended_resources@.contains_key(key),
        !f.labels@.contains_key(key),
{
}

/// The pretty name of a release stands between the quotes of its line.
pub proof fn law_release_has_its_pretty_name(os_release: Option<String>, name: Seq<char>)
    requires
        name.len() > 0,
        name[0] != '"',
        name.last() != '"',
        line_with(lines_or_none(os_release), "PRETTY_NAME="@) == Some(
            "PRETTY_NAME="@ + seq!['"'] + name + seq!['"'],
        ),
    ensures
        pretty_name(os_release) == name,
{
    reveal_strlit("PRETTY_NAME=");
    let p = "PRETTY_NAME="@;
    let quoted = seq!['"'] + name + seq!['"'];
    let line = p + seq!['"'] + name + seq!['"'];
    assert(line.take(p.len() as int) =~= p);
    assert(line.skip(p.len() as int) =~= quoted);
    assert(p[0] == 'P' && quoted[0] == '"');
    if has_prefix(quoted, p) {
        assert(quoted.take(p.len() as int)[0] == quoted[0]);
    }
    assert(without_prefixes(quoted, p) == quoted);
    assert(without_prefixes(line, p) == quoted);
    let half = name + seq!['"'];
    assert(quoted.skip(1) =~= half);
    assert(half[0] == name[0]);
    assert(without_leading(half, '"') == half);
    assert(without_leading(quoted, '"') == half);
    assert(half.last() == '"' && half.drop_last() =~= name);
    assert(without_trailing(name, '"') == name);
    assert(without_trailing(half, '"') == name);
}

/// The processor has the name and the flags that the system gives it.
pub proof fn law_processor_has_its_name_and_flags(f: NodeFeatures, facts: SystemFacts)
    requires
        features_of(f, facts),
    ensures
        facts.cpuinfo matches Some(c) ==> f.cpu_model@ == model_name(lines_of(c@)) && texts(
            f.cpu_flags@,
        ) == flag_names(lines_of(c@)),
        facts.cpuinfo is None ==> f.cpu_model@ == model_name(Seq::empty()),
{
}

} // verus!
