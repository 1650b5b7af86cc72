//! The labels and the extended resources with which a node announces its
//! features.
use crate::error::KubeletError;
use crate::json::{field, JsonValue};
use crate::kube_status::{is_text, members_are, string_value};
use crate::nfd::{
    NodeFeatures, is_flag_key, label, law_pages_have_their_keys, lemma_next_flag, lemma_next_page,
    lemma_other_prefix, lemma_page_count, page_count, put, put_pages,
};
use crate::strmap::{collect_entries, distinct_keys, lookup, map_kept, map_of, StrMap};
use crate::text::{cat2, cat3, dec, decimal, pieces, replace_char, split, texts, with_replaced};
use vstd::prelude::*;

verus! {

pub open spec fn cpu_key() -> spec_fn(Seq<char>) -> Seq<char> {
    |flag: Seq<char>| "feature.node.kubernetes.io/cpu-"@ + with_replaced(flag, '_', '-')
}

/// The announced label `k` of a node with the given features.
pub open spec fn feature_label(f: NodeFeatures, k: Seq<char>) -> Option<Seq<char>> {
    if page_count(
        f.hugepages@,
        "feature.node.kubernetes.io/hugepages-"@,
        "kB"@,
        k,
    ) is Some {
        Some("true"@)
    } else if f.nvidia_gpu_count > 0 && k == "nvidia.com/gpu.count"@ {
        Some(dec(f.nvidia_gpu_count as nat))
    } else if f.nvidia_gpu_count > 0 && k == "nvidia.com/gpu.present"@ {
        Some("true"@)
    } else if k == "feature.node.kubernetes.io/system-os_release.ID"@ {
        Some(f.os_image@)
    } else if k == "feature.node.kubernetes.io/kernel-version.major"@ {
        Some(pieces(f.kernel_version@, '.')[0])
    } else if k == "feature.node.kubernetes.io/kernel-version.full"@ {
        Some(f.kernel_version@)
    } else if k == "feature.node.kubernetes.io/cpu-hardware_multithreading"@ {
        Some(
            if f.cpu_threads > f.cpu_cores {
                "true"@
            } else {
                "false"@
            },
        )
    } else if is_flag_key(texts(f.cpu_flags@), cpu_key(), k) {
        Some("true"@)
    } else {
        None
    }
}

/// The labels that announce the features of a node.
pub fn features_to_labels(features: &NodeFeatures) -> (r: StrMap<String>)
    ensures
        forall|k: Seq<char>| #[trigger] label(r@, k) == feature_label(*features, k),
{
    let mut labels: StrMap<String> = StrMap::new();
    let mut i: usize = 0;
    let ghost flags = texts(features.cpu_flags@);
    while i < features.cpu_flags.len()
        invariant
            i <= features.cpu_flags@.len(),
            flags == texts(features.cpu_flags@),
            forall|k: Seq<char>| #[trigger]
                label(labels@, k) == if is_flag_key(flags.take(i as int), cpu_key(), k) {
                    Some("true"@)
                } else {
                    None
                },
        decreases features.cpu_flags@.len() - i,
    {
        let normalized = replace_char(features.cpu_flags[i].as_str(), '_', '-');
        let key = cat2("feature.node.kubernetes.io/cpu-", normalized.as_str());
        proof {
            lemma_next_flag(flags, cpu_key(), i as int);
        }
        put(&mut labels, key, "true");
        i = i + 1;
    }
    assert(flags.take(i as int) =~= flags);
    put(
        &mut labels,
        "feature.node.kubernetes.io/cpu-hardware_multithreading".to_owned(),
        if features.cpu_threads > features.cpu_cores {
            "true"
        } else {
            "false"
        },
    );
    put(
        &mut labels,
        "feature.node.kubernetes.io/kernel-version.full".to_owned(),
        features.kernel_version.as_str(),
    );
    let parts = split(features.kernel_version.as_str(), '.');
    assert(texts(parts@)[0] == parts@[0]@);
    put(
        &mut labels,
        "feature.node.kubernetes.io/kernel-version.major".to_owned(),
        parts[0].as_str(),
    );
    put(
        &mut labels,
        "feature.node.kubernetes.io/system-os_release.ID".to_owned(),
        features.os_image.as_str(),
    );
    if features.nvidia_gpu_count > 0 {
        let count = decimal(features.nvidia_gpu_count as u64);
        put(&mut labels, "nvidia.com/gpu.present".to_owned(), "true");
        put(&mut labels, "nvidia.com/gpu.count".to_owned(), count.as_str());
    }
    put_pages(
        &mut labels,
        &features.hugepages,
        "feature.node.kubernetes.io/hugepages-",
        "kB",
        false,
    );
    labels
}

/// The amount of the extended resource `k` of a node with the given features.
pub open spec fn feature_resource(f: NodeFeatures, k: Seq<char>) -> Option<u64> {
    match page_count(f.hugepages@, "hugepages-"@, "kB"@, k) {
        Some(n) => Some(n),
        None => if f.nvidia_gpu_count > 0 && k == "nvidia.com/gpu"@ {
            Some(f.nvidia_gpu_count as u64)
        } else {
            None
        },
    }
}

fn put_amount(resources: &mut StrMap<u64>, k: String, n: u64)
    ensures
        forall|q: Seq<char>| #[trigger]
            lookup(final(resources)@, q) == if q == k@ {
                Some(n)
            } else {
                lookup(old(resources)@, q)
            },
{
    resources.insert(k, n);
}

/// The extended resources of a node with the given features.
pub fn features_to_extended_resources(features: &NodeFeatures) -> (r: StrMap<u64>)
    ensures
        forall|k: Seq<char>| #[trigger] lookup(r@, k) == feature_resource(*features, k),
{
    let mut resources: StrMap<u64> = StrMap::new();
    if features.nvidia_gpu_count > 0 {
        resources.insert("nvidia.com/gpu".to_owned(), features.nvidia_gpu_count as u64);
    }
    let pages = &features.hugepages;
    let n: usize = pages.len();
    let ghost pairs = pages.pairs();
    let ghost start = resources@;
    let mut i: usize = 0;
    assert(map_of(pairs.take(0)) =~= Map::<Seq<char>, u64>::empty());
    while i < n
        invariant
            i <= n == pairs.len(),
            pairs == pages.pairs(),
            distinct_keys(pairs),
            forall|k: Seq<char>| #[trigger]
                lookup(resources@, k) == match page_count(
                    map_of(pairs.take(i as int)),
                    "hugepages-"@,
                    "kB"@,
                    k,
                ) {
                    Some(n) => Some(n),
                    None => lookup(start, k),
                },
        decreases n - i,
    {
        let count: u64 = *pages.value_at(i);
        proof {
            lemma_next_page(pairs, i as int, "hugepages-"@, "kB"@);
            lemma_page_count(
                map_of(pairs.take(i as int)),
                pairs[i as int].0,
                count,
                "hugepages-"@,
                "kB"@,
            );
        }
        if count > 0 {
            let k = cat3("hugepages-", pages.key_at(i).as_str(), "kB");
            put_amount(&mut resources, k, count);
        }
        i = i + 1;
    }
    assert(pairs.take(i as int) =~= pairs);
    resources
}

// ---------------------------------------------------------------------------
// Announcing
// ---------------------------------------------------------------------------

pub open spec fn label_rel() -> spec_fn(Seq<char>, String, Option<JsonValue>) -> bool {
    |k: Seq<char>, t: String, v: Option<JsonValue>| is_text(v, t@)
}

pub open spec fn metadata_json(name: Seq<char>, labels: Map<Seq<char>, String>, v: JsonValue) -> bool {
    &&& members_are(v, set!["name"@, "labels"@])
    &&& is_text(field(v, "name"@), name)
    &&& field(v, "labels"@) matches Some(JsonValue::Object(m)) && map_kept(labels, m@, label_rel())
}

/// The patch that gives a node its labels.
pub open spec fn label_patch(name: Seq<char>, labels: Map<Seq<char>, String>, v: JsonValue) -> bool {
    &&& members_are(v, set!["apiVersion"@, "kind"@, "metadata"@])
    &&& is_text(field(v, "apiVersion"@), "v1"@)
    &&& is_text(field(v, "kind"@), "Node"@)
    &&& field(v, "metadata"@) matches Some(m) && metadata_json(name, labels, m)
}

fn label_value(k: &String, t: &String) -> (v: Option<JsonValue>)
    ensures
        is_text(v, t@),
{
    Some(string_value(t.as_str()))
}

fn metadata_value(name: &str, labels: &StrMap<String>) -> (v: JsonValue)
    ensures
        metadata_json(name@, labels@, v),
{
    let values = collect_entries(labels, label_value, Ghost(label_rel()));
    let mut m: StrMap<JsonValue> = StrMap::new();
    m.insert("name".to_owned(), string_value(name));
    m.insert("labels".to_owned(), JsonValue::Object(values));
    proof {
        reveal_strlit("name");
        reveal_strlit("labels");
        assert("name"@.len() == 4);
        assert("labels"@.len() == 6);
        assert(m@.dom() =~= set!["name"@, "labels"@]);
    }
    JsonValue::Object(m)
}

/// The patch that gives a node its labels; nothing where there is no connection
/// to an API server.
pub fn write_node_labels(node_name: &str, labels: &StrMap<String>, connected: bool) -> (r: Option<
    JsonValue,
>)
    ensures
        match r {
            Some(v) => connected && label_patch(node_name@, labels@, v),
            None => !connected,
        },
{
    if !connected {
        return None;
    }
    let mut m: StrMap<JsonValue> = StrMap::new();
    m.insert("apiVersion".to_owned(), string_value("v1"));
    m.insert("kind".to_owned(), string_value("Node"));
    m.insert("metadata".to_owned(), metadata_value(node_name, labels));
    proof {
        reveal_strlit("apiVersion");
        reveal_strlit("kind");
        reveal_strlit("metadata");
        assert("apiVersion"@.len() == 10);
        assert("kind"@.len() == 4);
        assert("metadata"@.len() == 8);
        assert(m@.dom() =~= set!["apiVersion"@, "kind"@, "metadata"@]);
    }
    Some(JsonValue::Object(m))
}

/// What sending the patch yields.
pub fn labels_written(outcome: &Result<(), String>) -> (r: Result<(), KubeletError>)
    ensures
        match *outcome {
            Ok(_) => r is Ok,
            Err(e) => r matches Err(KubeletError::NodeStatus(m)) && m@ == "PATCH node labels: "@
                + e@,
        },
{
    match outcome {
        Ok(_) => Ok(()),
        Err(e) => Err(KubeletError::NodeStatus(cat2("PATCH node labels: ", e.as_str()))),
    }
}

/// The labels of a node say how many graphics processors it has, which kernel
/// and system it runs, whether its cores have several threads, and which sizes
/// of huge pages and which flags there are.
pub proof fn law_node_features_are_labelled(f: NodeFeatures, size: Seq<char>)
    ensures
        f.nvidia_gpu_count > 0 ==> feature_label(f, "nvidia.com/gpu.count"@) == Some(
            dec(f.nvidia_gpu_count as nat),
        ),
        f.nvidia_gpu_count > 0 ==> feature_label(f, "nvidia.com/gpu.present"@) == Some("true"@),
        feature_label(f, "feature.node.kubernetes.io/system-os_release.ID"@) == Some(f.os_image@),
        feature_label(f, "feature.node.kubernetes.io/kernel-version.full"@) == Some(
            f.kernel_version@,
        ),
        feature_label(f, "feature.node.kubernetes.io/kernel-version.major"@) == Some(
            pieces(f.kernel_version@, '.')[0],
        ),
        f.cpu_threads > f.cpu_cores ==> feature_label(
            f,
            "feature.node.kubernetes.io/cpu-hardware_multithreading"@,
        ) == Some("true"@),
        f.cpu_threads <= f.cpu_cores ==> feature_label(
            f,
            "feature.node.kubernetes.io/cpu-hardware_multithreading"@,
        ) == Some("false"@),
        f.hugepages@.contains_key(size) && f.hugepages@[size] > 0 ==> feature_label(
            f,
            "feature.node.kubernetes.io/hugepages-"@ + size + "kB"@,
        ) == Some("true"@),
{
    let prefix = "feature.node.kubernetes.io/hugepages-"@;
    let suffix = "kB"@;
    let count = "nvidia.com/gpu.count"@;
    let present = "nvidia.com/gpu.present"@;
    let os = "feature.node.kubernetes.io/system-os_release.ID"@;
    let full = "feature.node.kubernetes.io/kernel-version.full"@;
    let major = "feature.node.kubernetes.io/kernel-version.major"@;
    let threads = "feature.node.kubernetes.io/cpu-hardware_multithreading"@;
    reveal_strlit("feature.node.kubernetes.io/hugepages-");
    reveal_strlit("nvidia.com/gpu.count");
    reveal_strlit("nvidia.com/gpu.present");
    reveal_strlit("feature.node.kubernetes.io/system-os_release.ID");
    reveal_strlit("feature.node.kubernetes.io/kernel-version.full");
    reveal_strlit("feature.node.kubernetes.io/kernel-version.major");
    reveal_strlit("feature.node.kubernetes.io/cpu-hardware_multithreading");
    assert(prefix[0] == 'f' && prefix[27] == 'h');
    assert(count[0] == 'n' && present[0] == 'n' && count.len() == 20 && present.len() == 22);
    assert(os[27] == 's' && full[27] == 'k' && major[27] == 'k' && threads[27] == 'c');
    assert(full.len() == 46 && major.len() == 47);
    assert(os[0] == 'f' && full[0] == 'f' && major[0] == 'f' && threads[0] == 'f');
    lemma_other_prefix(f.hugepages@, prefix, suffix, count, 0);
    lemma_other_prefix(f.hugepages@, prefix, suffix, present, 0);
    lemma_other_prefix(f.hugepages@, prefix, suffix, os, 27);
    lemma_other_prefix(f.hugepages@, prefix, suffix, full, 27);
    lemma_other_prefix(f.hugepages@, prefix, suffix, major, 27);
    lemma_other_prefix(f.hugepages@, prefix, suffix, threads, 27);
    law_pages_have_their_keys(f.hugepages@, prefix, suffix, size);
}

/// What a node offers besides CPU and memory: its huge pages by size, and its
/// graphics processors where it has any.
pub proof fn law_node_resources_are_offered(f: NodeFeatures, size: Seq<char>)
    ensures
        f.nvidia_gpu_count > 0 ==> feature_resource(f, "nvidia.com/gpu"@) == Some(
            f.nvidia_gpu_count as u64,
        ),
        f.nvidia_gpu_count == 0 ==> feature_resource(f, "nvidia.com/gpu"@) is None,
        f.hugepages@.contains_key(size) && f.hugepages@[size] > 0 ==> feature_resource(
            f,
            "hugepages-"@ + size + "kB"@,
        ) == Some(f.hugepages@[size]),
{
    let prefix = "hugepages-"@;
    let suffix = "kB"@;
    let gpu = "nvidia.com/gpu"@;
    reveal_strlit("hugepages-");
    reveal_strlit("nvidia.com/gpu");
    assert(prefix[0] == 'h' && gpu[0] == 'n');
    lemma_other_prefix(f.hugepages@, prefix, suffix, gpu, 0);
    law_pages_have_their_keys(f.hugepages@, prefix, suffix, size);
}

/// The patch that writes labels names the node and holds each label with its
/// value.
pub proof fn law_label_patch_holds_the_labels(
    name: Seq<char>,
    labels: Map<Seq<char>, String>,
    v: JsonValue,
    k: Seq<char>,
)
    requires
        label_patch(name, labels, v),
    ensures
        field(v, "metadata"@) matches Some(m) && {
            &&& is_text(field(m, "name"@), name)
            &&& field(m, "labels"@) matches Some(l) && {
                &&& labels.contains_key(k) ==> is_text(field(l, k), labels[k]@)
                &&& !labels.contains_key(k) ==> field(l, k) is None
            }
        },
{
    let m = field(v, "metadata"@)->0;
    let l = field(m, "labels"@)->0->Object_0;
    if labels.contains_key(k) {
        assert(label_rel()(k, labels[k], lookup(l@, k)));
    }
}

/// Each flag of the processor has a key of its own name.
pub proof fn law_flags_have_their_keys(flag: Seq<char>)
    ensures
        cpu_key()(flag) == "feature.node.kubernetes.io/cpu-"@ + with_replaced(flag, '_', '-'),
{
}

/// The patch is of the node by its name.
pub proof fn law_label_patch_names_the_node(
    name: Seq<char>,
    labels: Map<Seq<char>, String>,
    v: JsonValue,
)
    requires
        label_patch(name, labels, v),
    ensures
        members_are(v, set!["apiVersion"@, "kind"@, "metadata"@]),
        is_text(field(v, "apiVersion"@), "v1"@),
        is_text(field(v, "kind"@), "Node"@),
        field(v, "metadata"@) is Some && is_text(field(field(v, "metadata"@)->0, "name"@), name),
{
}

} // verus!
