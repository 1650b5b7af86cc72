//! Relations between a list and the list that is made of it item by item.
use crate::text::{chars_of, texts};
use vstd::prelude::*;
use vstd::seq_lib::{to_multiset_build, to_multiset_remove};

verus! {

/// `out` holds, in order, one item for each item of `items`, related to it by
/// `rel`.
pub open spec fn mapped<A, B>(items: Seq<A>, out: Seq<B>, rel: spec_fn(A, B) -> bool) -> bool {
    items.len() == out.len() && forall|i: int|
        0 <= i < items.len() ==> rel(#[trigger] items[i], out[i])
}

/// `out` holds, in order, one item for each item of `items` that `rel` relates
/// to an item; those that `rel` relates to nothing are left out.
pub open spec fn kept<A, B>(items: Seq<A>, out: Seq<B>, rel: spec_fn(A, Option<B>) -> bool) -> bool
    decreases items.len(),
{
    if items.len() == 0 {
        out.len() == 0
    } else {
        ||| rel(items.last(), None) && kept(items.drop_last(), out, rel)
        ||| out.len() > 0 && rel(items.last(), Some(out.last())) && kept(
            items.drop_last(),
            out.drop_last(),
            rel,
        )
    }
}

/// Each item that was kept comes from one of `items`.
pub(crate) proof fn lemma_kept_from<A, B>(
    items: Seq<A>,
    out: Seq<B>,
    rel: spec_fn(A, Option<B>) -> bool,
    k: int,
)
    requires
        kept(items, out, rel),
        0 <= k < out.len(),
    ensures
        exists|i: int| 0 <= i < items.len() && rel(#[trigger] items[i], Some(out[k])),
    decreases items.len(),
{
    let front = items.drop_last();
    if rel(items.last(), None) && kept(front, out, rel) {
        lemma_kept_from(front, out, rel, k);
        let i = choose|i: int| 0 <= i < front.len() && rel(#[trigger] front[i], Some(out[k]));
        assert(items[i] == front[i]);
    } else if k == out.len() - 1 {
        assert(items[items.len() - 1] == items.last());
    } else {
        lemma_kept_from(front, out.drop_last(), rel, k);
        let i = choose|i: int|
            0 <= i < front.len() && rel(#[trigger] front[i], Some(out.drop_last()[k]));
        assert(items[i] == front[i]);
    }
}

/// An item that is not left out has its like among those that were kept.
pub(crate) proof fn lemma_kept_has<A, B>(
    items: Seq<A>,
    out: Seq<B>,
    rel: spec_fn(A, Option<B>) -> bool,
    i: int,
)
    requires
        kept(items, out, rel),
        0 <= i < items.len(),
        !rel(items[i], None),
    ensures
        exists|k: int| 0 <= k < out.len() && rel(items[i], Some(#[trigger] out[k])),
    decreases items.len(),
{
    let front = items.drop_last();
    if i == items.len() - 1 {
        assert(out[out.len() - 1] == out.last());
    } else {
        assert(front[i] == items[i]);
        if rel(items.last(), None) && kept(front, out, rel) {
            lemma_kept_has(front, out, rel, i);
        } else {
            let rest = out.drop_last();
            lemma_kept_has(front, rest, rel, i);
            let k = choose|k: int| 0 <= k < rest.len() && rel(items[i], Some(#[trigger] rest[k]));
            assert(out[k] == rest[k]);
        }
    }
}

/// Applies `f` to each item.
pub(crate) fn map_all<A, B, F: Fn(&A) -> B>(
    items: &Vec<A>,
    f: F,
    Ghost(rel): Ghost<spec_fn(A, B) -> bool>,
) -> (out: Vec<B>)
    requires
        forall|a: &A| call_requires(f, (a,)),
        forall|a: &A, b: B| #[trigger] call_ensures(f, (a,), b) ==> rel(*a, b),
    ensures
        mapped(items@, out@, rel),
{
    let mut out: Vec<B> = Vec::new();
    let mut i: usize = 0;
    while i < items.len()
        invariant
            i <= items@.len(),
            out@.len() == i,
            forall|a: &A| call_requires(f, (a,)),
            forall|a: &A, b: B| #[trigger] call_ensures(f, (a,), b) ==> rel(*a, b),
            forall|k: int| 0 <= k < i ==> rel(#[trigger] items@[k], out@[k]),
        decreases items@.len() - i,
    {
        let b = f(&items[i]);
        out.push(b);
        i = i + 1;
    }
    out
}

/// Applies `f` to each item and keeps what it yields.
pub(crate) fn collect_some<A, B, F: Fn(&A) -> Option<B>>(
    items: &Vec<A>,
    f: F,
    Ghost(rel): Ghost<spec_fn(A, Option<B>) -> bool>,
) -> (out: Vec<B>)
    requires
        forall|a: &A| call_requires(f, (a,)),
        forall|a: &A, b: Option<B>| #[trigger] call_ensures(f, (a,), b) ==> rel(*a, b),
    ensures
        kept(items@, out@, rel),
{
    let mut out: Vec<B> = Vec::new();
    let mut i: usize = 0;
    while i < items.len()
        invariant
            i <= items@.len(),
            forall|a: &A| call_requires(f, (a,)),
            forall|a: &A, b: Option<B>| #[trigger] call_ensures(f, (a,), b) ==> rel(*a, b),
            kept(items@.take(i as int), out@, rel),
        decreases items@.len() - i,
    {
        let ghost before = out@;
        let r = f(&items[i]);
        assert(items@.take(i + 1).drop_last() =~= items@.take(i as int));
        match r {
            Some(b) => {
                out.push(b);
                assert(out@.drop_last() =~= before);
            },
            None => {},
        }
        i = i + 1;
    }
    assert(items@.take(i as int) =~= items@);
    out
}

// ---------------------------------------------------------------------------
// Stable order
// ---------------------------------------------------------------------------

/// A sort key: compared by its first number, then by its second.
pub type SortKey = (i128, i128);

/// Whether item `a` comes before item `b`: by key, and in the given order where
/// the keys are equal.
pub open spec fn comes_before(keys: Seq<SortKey>, a: int, b: int) -> bool {
    keys[a].0 < keys[b].0 || (keys[a].0 == keys[b].0 && (keys[a].1 < keys[b].1 || (keys[a].1
        == keys[b].1 && a < b)))
}

/// `order` holds every index of `keys` once, each before those that come after
/// it: the outcome of a stable sort.
pub open spec fn stable_order(keys: Seq<SortKey>, order: Seq<usize>) -> bool {
    &&& order.len() == keys.len()
    &&& forall|i: int| 0 <= i < order.len() ==> #[trigger] order[i] < keys.len()
    &&& forall|i: int, j: int|
        0 <= i < j < order.len() ==> comes_before(
            keys,
            #[trigger] order[i] as int,
            #[trigger] order[j] as int,
        )
}

/// In a stable order no index occurs twice.
pub proof fn lemma_stable_order_distinct(keys: Seq<SortKey>, order: Seq<usize>)
    requires
        stable_order(keys, order),
    ensures
        order.no_duplicates(),
{
    assert forall|i: int, j: int| 0 <= i < order.len() && 0 <= j < order.len() && i != j implies
        order[i] != order[j] by {
        if i < j {
            assert(comes_before(keys, order[i] as int, order[j] as int));
        } else {
            assert(comes_before(keys, order[j] as int, order[i] as int));
        }
    }
}

fn above(a: SortKey, b: SortKey) -> (r: bool)
    ensures
        r == (a.0 > b.0 || (a.0 == b.0 && a.1 > b.1)),
{
    a.0 > b.0 || (a.0 == b.0 && a.1 > b.1)
}

/// The indices of `keys` in the order of a stable sort.
pub fn sort_indices(keys: &Vec<SortKey>) -> (order: Vec<usize>)
    ensures
        stable_order(keys@, order@),
{
    let mut order: Vec<usize> = Vec::new();
    let mut n: usize = 0;
    while n < keys.len()
        invariant
            n <= keys@.len(),
            order@.len() == n,
            forall|i: int| 0 <= i < order@.len() ==> #[trigger] order@[i] < n,
            forall|i: int, j: int|
                0 <= i < j < order@.len() ==> comes_before(
                    keys@,
                    #[trigger] order@[i] as int,
                    #[trigger] order@[j] as int,
                ),
        decreases keys@.len() - n,
    {
        let mut pos: usize = order.len();
        while pos > 0 && above(keys[order[pos - 1]], keys[n])
            invariant
                pos <= order@.len() == n,
                n < keys@.len(),
                forall|i: int| 0 <= i < order@.len() ==> #[trigger] order@[i] < n,
                forall|i: int|
                    pos <= i < order@.len() ==> comes_before(
                        keys@,
                        n as int,
                        #[trigger] order@[i] as int,
                    ),
            decreases pos,
        {
            pos = pos - 1;
        }
        let ghost before = order@;
        order.insert(pos, n);
        proof {
            assert forall|i: int, j: int| 0 <= i < j < order@.len() implies comes_before(
                keys@,
                #[trigger] order@[i] as int,
                #[trigger] order@[j] as int,
            ) by {
                let a = if i < pos {
                    i
                } else {
                    i - 1
                };
                let b = if j < pos {
                    j
                } else {
                    j - 1
                };
                if i == pos {
                    assert(order@[j] == before[b]);
                } else if j == pos {
                    assert(order@[i] == before[a]);
                    if a < pos - 1 {
                        assert(comes_before(keys@, before[a] as int, before[pos - 1] as int));
                    }
                } else {
                    assert(order@[i] == before[a]);
                    assert(order@[j] == before[b]);
                    assert(comes_before(keys@, before[a] as int, before[b] as int));
                }
            }
            assert forall|i: int| 0 <= i < order@.len() implies #[trigger] order@[i] < n + 1 by {
                if i < pos {
                    assert(order@[i] == before[i]);
                } else if i > pos {
                    assert(order@[i] == before[i - 1]);
                }
            }
        }
        n = n + 1;
    }
    order
}

// ---------------------------------------------------------------------------
// Order of texts
// ---------------------------------------------------------------------------

/// Whether `a` comes before `b` or is equal to it, character by character.
pub open spec fn text_le(a: Seq<char>, b: Seq<char>) -> bool
    decreases a.len(),
{
    a.len() == 0 || (b.len() > 0 && (a[0] < b[0] || (a[0] == b[0] && text_le(a.skip(1), b.skip(1)))))
}

/// Whether the texts stand in order.
pub open spec fn in_text_order(s: Seq<Seq<char>>) -> bool {
    forall|i: int, j: int| 0 <= i < j < s.len() ==> text_le(#[trigger] s[i], #[trigger] s[j])
}

proof fn lemma_text_le_total(a: Seq<char>, b: Seq<char>)
    ensures
        text_le(a, b) || text_le(b, a),
    decreases a.len(),
{
    if a.len() > 0 && b.len() > 0 {
        lemma_text_le_total(a.skip(1), b.skip(1));
    }
}

proof fn lemma_text_le_trans(a: Seq<char>, b: Seq<char>, c: Seq<char>)
    requires
        text_le(a, b),
        text_le(b, c),
    ensures
        text_le(a, c),
    decreases a.len(),
{
    if a.len() > 0 && a[0] == b[0] && b[0] == c[0] {
        lemma_text_le_trans(a.skip(1), b.skip(1), c.skip(1));
    }
}

/// Whether `a` comes before `b` or is equal to it.
pub fn text_at_most(a: &str, b: &str) -> (r: bool)
    ensures
        r == text_le(a@, b@),
{
    let v = chars_of(a);
    let w = chars_of(b);
    let mut i: usize = 0;
    assert(v@.skip(0) =~= v@);
    assert(w@.skip(0) =~= w@);
    while i < v.len()
        invariant
            i <= v@.len(),
            i <= w@.len(),
            v@ == a@,
            w@ == b@,
            text_le(v@, w@) == text_le(v@.skip(i as int), w@.skip(i as int)),
        decreases v@.len() - i,
    {
        if i >= w.len() {
            return false;
        }
        assert(v@.skip(i as int)[0] == v@[i as int]);
        assert(w@.skip(i as int)[0] == w@[i as int]);
        assert(v@.skip(i as int).skip(1) =~= v@.skip(i + 1));
        assert(w@.skip(i as int).skip(1) =~= w@.skip(i + 1));
        if v[i] < w[i] {
            return true;
        }
        if v[i] != w[i] {
            return false;
        }
        i = i + 1;
    }
    true
}

/// Puts texts in order.
pub fn sort_texts(v: Vec<String>) -> (r: Vec<String>)
    ensures
        in_text_order(texts(r@)),
        texts(r@).to_multiset() == texts(v@).to_multiset(),
{
    let mut out: Vec<String> = Vec::new();
    let mut i: usize = 0;
    assert(texts(out@) =~= texts(v@).take(0));
    while i < v.len()
        invariant
            i <= v@.len(),
            out@.len() == i,
            in_text_order(texts(out@)),
            texts(out@).to_multiset() == texts(v@).take(i as int).to_multiset(),
        decreases v@.len() - i,
    {
        let ghost before = texts(out@);
        let mut pos: usize = out.len();
        while pos > 0 && !text_at_most(out[pos - 1].as_str(), v[i].as_str())
            invariant
                pos <= out@.len() == i,
                i < v@.len(),
                before == texts(out@),
                in_text_order(before),
                forall|k: int|
                    pos <= k < out@.len() ==> text_le(v@[i as int]@, #[trigger] before[k]),
            decreases pos,
        {
            proof {
                assert(before[pos - 1] == out@[pos - 1]@);
                lemma_text_le_total(before[pos - 1], v@[i as int]@);
            }
            pos = pos - 1;
        }
        let t = v[i].clone();
        out.insert(pos, t);
        proof {
            let now = texts(out@);
            assert(now =~= before.insert(pos as int, t@));
            assert(now.remove(pos as int) =~= before);
            to_multiset_remove(now, pos as int);
            assert(now.to_multiset().count(now[pos as int]) > 0) by {
                broadcast use vstd::seq_lib::group_to_multiset_ensures;

                assert(now.contains(now[pos as int]));
            }
            assert(now.to_multiset() =~= before.to_multiset().insert(t@));
            assert(texts(v@).take(i + 1) =~= texts(v@).take(i as int).push(t@));
            to_multiset_build(texts(v@).take(i as int), t@);
            assert forall|a: int, b: int| 0 <= a < b < now.len() implies text_le(
                #[trigger] now[a],
                #[trigger] now[b],
            ) by {
                let x = if a < pos {
                    a
                } else {
                    a - 1
                };
                let y = if b < pos {
                    b
                } else {
                    b - 1
                };
                if a == pos {
                    assert(now[b] == before[y]);
                } else if b == pos {
                    assert(now[a] == before[x]);
                    if pos > 0 {
                        assert(before[pos - 1] == now[pos - 1]);
                        if x < pos - 1 {
                            lemma_text_le_trans(before[x], before[pos - 1], t@);
                        }
                    }
                } else {
                    assert(now[a] == before[x] && now[b] == before[y]);
                }
            }
        }
        i = i + 1;
    }
    assert(texts(v@).take(i as int) =~= texts(v@));
    out
}

/// Texts are in order of the first character in which they differ, and a text
/// comes before those that go on from it.
pub proof fn law_texts_are_ordered_by_their_first_difference(
    common: Seq<char>,
    a: char,
    b: char,
    s: Seq<char>,
    t: Seq<char>,
)
    requires
        a < b,
    ensures
        text_le(common + seq![a] + s, common + seq![b] + t),
        !text_le(common + seq![b] + t, common + seq![a] + s),
        text_le(common, common + t),
        t.len() > 0 ==> !text_le(common + t, common),
    decreases common.len(),
{
    let x = common + seq![a] + s;
    let y = common + seq![b] + t;
    if common.len() > 0 {
        let rest = common.skip(1);
        law_texts_are_ordered_by_their_first_difference(rest, a, b, s, t);
        assert(x[0] == common[0] && y[0] == common[0]);
        assert(x.skip(1) =~= rest + seq![a] + s);
        assert(y.skip(1) =~= rest + seq![b] + t);
        assert((common + t)[0] == common[0]);
        assert((common + t).skip(1) =~= rest + t);
    } else {
        assert(x[0] == a && y[0] == b);
        assert(common + t =~= t);
    }
}

/// Sorting puts lower keys first, the first part of a key before the second,
/// and leaves what has the same key in the order in which it was.
pub proof fn law_lower_keys_come_first(keys: Seq<SortKey>, order: Seq<usize>, i: int, j: int)
    requires
        stable_order(keys, order),
        0 <= i < j < order.len(),
    ensures
        keys[order[i] as int].0 <= keys[order[j] as int].0,
        keys[order[i] as int].0 == keys[order[j] as int].0 ==> keys[order[i] as int].1
            <= keys[order[j] as int].1,
        keys[order[i] as int] == keys[order[j] as int] ==> order[i] < order[j],
        order.len() == keys.len(),
{
    assert(comes_before(keys, order[i] as int, order[j] as int));
}

} // verus!
