//! A map from strings to values that keeps its entries in the order in which
//! their keys were first inserted.
use crate::text::{holds, same, texts};
use vstd::prelude::*;

verus! {

/// Whether no key occurs twice in `pairs`.
pub open spec fn distinct_keys<K, V>(pairs: Seq<(K, V)>) -> bool {
    forall|i: int, j: int|
        0 <= i < j < pairs.len() ==> (#[trigger] pairs[i]).0 != (#[trigger] pairs[j]).0
}

/// The map that a list of entries denotes; a later entry replaces an earlier
/// one of the same key.
pub open spec fn map_of<K, V>(pairs: Seq<(K, V)>) -> Map<K, V>
    decreases pairs.len(),
{
    if pairs.len() == 0 {
        Map::empty()
    } else {
        map_of(pairs.drop_last()).insert(pairs.last().0, pairs.last().1)
    }
}

/// Whether some entry of `pairs` has the key `k`.
pub open spec fn has_key<K, V>(pairs: Seq<(K, V)>, k: K) -> bool {
    exists|i: int| 0 <= i < pairs.len() && (#[trigger] pairs[i]).0 == k
}

/// The keys of the denoted map are the keys of the entries.
pub proof fn lemma_map_of_dom<K, V>(pairs: Seq<(K, V)>, k: K)
    ensures
        map_of(pairs).contains_key(k) <==> has_key(pairs, k),
    decreases pairs.len(),
{
    if pairs.len() > 0 {
        let front = pairs.drop_last();
        lemma_map_of_dom(front, k);
        if has_key(front, k) {
            let i = choose|i: int| 0 <= i < front.len() && (#[trigger] front[i]).0 == k;
            assert(pairs[i].0 == k);
        }
        if has_key(pairs, k) {
            let i = choose|i: int| 0 <= i < pairs.len() && (#[trigger] pairs[i]).0 == k;
            if i < pairs.len() - 1 {
                assert(front[i].0 == k);
            }
        }
    }
}

/// Where no key occurs twice, each entry's value is the value of its key.
pub proof fn lemma_map_of_value<K, V>(pairs: Seq<(K, V)>, i: int)
    requires
        distinct_keys(pairs),
        0 <= i < pairs.len(),
    ensures
        map_of(pairs).contains_key(pairs[i].0),
        map_of(pairs)[pairs[i].0] == pairs[i].1,
    decreases pairs.len(),
{
    let front = pairs.drop_last();
    assert forall|a: int, b: int| 0 <= a < b < front.len() implies (#[trigger] front[a]).0 != (
    #[trigger] front[b]).0 by {
        assert(pairs[a].0 != pairs[b].0);
    }
    if i < pairs.len() - 1 {
        lemma_map_of_value(front, i);
        assert(pairs[i].0 != pairs[pairs.len() - 1].0);
        assert(front[i] == pairs[i]);
    }
}

/// Where no key occurs twice, the map has as many entries as the list.
pub proof fn lemma_map_of_len<K, V>(pairs: Seq<(K, V)>)
    requires
        distinct_keys(pairs),
    ensures
        map_of(pairs).dom().finite(),
        map_of(pairs).len() == pairs.len(),
    decreases pairs.len(),
{
    if pairs.len() > 0 {
        let front = pairs.drop_last();
        assert forall|a: int, b: int| 0 <= a < b < front.len() implies (#[trigger] front[a]).0 != (
        #[trigger] front[b]).0 by {
            assert(pairs[a].0 != pairs[b].0);
        }
        lemma_map_of_len(front);
        lemma_map_of_dom(front, pairs.last().0);
        assert forall|i: int| 0 <= i < front.len() implies (#[trigger] front[i]).0
            != pairs.last().0 by {
            assert(pairs[i].0 != pairs[pairs.len() - 1].0);
        }
    }
}

proof fn lemma_distinct_front<K, V>(pairs: Seq<(K, V)>)
    requires
        distinct_keys(pairs),
        pairs.len() > 0,
    ensures
        distinct_keys(pairs.drop_last()),
        !map_of(pairs.drop_last()).contains_key(pairs.last().0),
{
    let front = pairs.drop_last();
    assert forall|a: int, b: int| 0 <= a < b < front.len() implies (#[trigger] front[a]).0 != (
    #[trigger] front[b]).0 by {
        assert(pairs[a].0 != pairs[b].0);
    }
    lemma_map_of_dom(front, pairs.last().0);
    assert forall|i: int| 0 <= i < front.len() implies (#[trigger] front[i]).0 != pairs.last().0 by {
        assert(pairs[i].0 != pairs[pairs.len() - 1].0);
    }
}

pub proof fn lemma_map_of_update<K, V>(pairs: Seq<(K, V)>, i: int, v: V)
    requires
        distinct_keys(pairs),
        0 <= i < pairs.len(),
    ensures
        distinct_keys(pairs.update(i, (pairs[i].0, v))),
        map_of(pairs.update(i, (pairs[i].0, v))) == map_of(pairs).insert(pairs[i].0, v),
    decreases pairs.len(),
{
    let k = pairs[i].0;
    let next = pairs.update(i, (k, v));
    assert forall|a: int, b: int| 0 <= a < b < next.len() implies (#[trigger] next[a]).0 != (
    #[trigger] next[b]).0 by {
        assert(pairs[a].0 != pairs[b].0);
    }
    let front = pairs.drop_last();
    lemma_distinct_front(pairs);
    if i == pairs.len() - 1 {
        assert(next.drop_last() =~= front);
        assert(map_of(next) =~= map_of(pairs).insert(k, v));
    } else {
        lemma_map_of_update(front, i, v);
        assert(next.drop_last() =~= front.update(i, (k, v)));
        assert(pairs[i].0 != pairs[pairs.len() - 1].0);
        assert(map_of(next) =~= map_of(pairs).insert(k, v));
    }
}

pub proof fn lemma_map_of_remove<K, V>(pairs: Seq<(K, V)>, i: int)
    requires
        distinct_keys(pairs),
        0 <= i < pairs.len(),
    ensures
        distinct_keys(pairs.remove(i)),
        map_of(pairs.remove(i)) == map_of(pairs).remove(pairs[i].0),
    decreases pairs.len(),
{
    let k = pairs[i].0;
    let next = pairs.remove(i);
    let front = pairs.drop_last();
    lemma_distinct_front(pairs);
    if i == pairs.len() - 1 {
        assert(next =~= front);
        assert(map_of(next) =~= map_of(pairs).remove(k));
    } else {
        lemma_map_of_remove(front, i);
        assert(next.drop_last() =~= front.remove(i));
        assert(next.last() == pairs.last());
        assert(pairs[i].0 != pairs[pairs.len() - 1].0);
        assert(map_of(next) =~= map_of(pairs).remove(k));
        lemma_map_of_dom(front.remove(i), pairs.last().0);
        assert(!map_of(front.remove(i)).contains_key(pairs.last().0));
        assert forall|a: int, b: int| 0 <= a < b < next.len() implies (#[trigger] next[a]).0 != (
        #[trigger] next[b]).0 by {
            if b < next.len() - 1 {
                assert(front.remove(i)[a].0 != front.remove(i)[b].0);
            } else {
                assert(front.remove(i)[a].0 != pairs.last().0);
            }
        }
    }
}

/// A map with string keys.
#[derive(Debug)]
pub struct StrMap<V> {
    entries: Vec<(String, V)>,
}

spec fn plain<V>(entries: Seq<(String, V)>) -> Seq<(Seq<char>, V)> {
    entries.map_values(|e: (String, V)| (e.0@, e.1))
}

impl<V> View for StrMap<V> {
    type V = Map<Seq<char>, V>;

    open spec fn view(&self) -> Map<Seq<char>, V> {
        map_of(self.pairs())
    }
}

impl<V> StrMap<V> {
    /// The entries in the order in which their keys were first inserted.
    pub closed spec fn pairs(&self) -> Seq<(Seq<char>, V)> {
        plain(self.entries@)
    }

    #[verifier::type_invariant]
    spec fn inv(self) -> bool {
        distinct_keys(plain(self.entries@))
    }

    /// An empty map.
    pub fn new() -> (r: Self)
        ensures
            r@ == Map::<Seq<char>, V>::empty(),
            r.pairs() == Seq::<(Seq<char>, V)>::empty(),
    {
        let entries: Vec<(String, V)> = Vec::new();
        assert(plain(entries@) =~= Seq::<(Seq<char>, V)>::empty());
        StrMap { entries }
    }

    /// The map that a list of entries denotes.
    pub fn from_entries(entries: Vec<(String, V)>) -> (r: Self)
        ensures
            r@ == map_of(entries@.map_values(|e: (String, V)| (e.0@, e.1))),
    {
        let ghost all = plain(entries@);
        let mut rest = entries;
        let mut r: StrMap<V> = StrMap::new();
        let ghost mut n: int = 0;
        assert(all.take(0) =~= Seq::<(Seq<char>, V)>::empty());
        assert(all.skip(0) =~= all);
        while rest.len() > 0
            invariant
                0 <= n <= all.len(),
                plain(rest@) == all.skip(n),
                r@ == map_of(all.take(n)),
            decreases rest@.len(),
        {
            let ghost before = rest@;
            let (k, v) = rest.remove(0);
            proof {
                assert(all.skip(n).len() == before.len());
                assert(plain(before)[0] == (k@, v));
                assert(all.skip(n)[0] == all[n]);
                assert(all[n] == (k@, v));
                assert(all.take(n + 1).drop_last() =~= all.take(n));
                assert forall|j: int| 0 <= j < rest@.len() implies plain(rest@)[j] == all.skip(
                    n + 1,
                )[j] by {
                    assert(plain(before)[j + 1] == all.skip(n)[j + 1]);
                }
                assert(plain(rest@) =~= all.skip(n + 1));
                n = n + 1;
            }
            r.insert(k, v);
        }
        assert(all.take(n) =~= all);
        assert(all =~= entries@.map_values(|e: (String, V)| (e.0@, e.1)));
        r
    }

    /// The number of entries.
    pub fn len(&self) -> (n: usize)
        ensures
            n == self.pairs().len(),
            n == self@.len(),
            self@.dom().finite(),
            distinct_keys(self.pairs()),
    {
        proof {
            use_type_invariant(self);
            lemma_map_of_len(self.pairs());
        }
        self.entries.len()
    }

    /// Whether there is no entry.
    pub fn is_empty(&self) -> (r: bool)
        ensures
            r == (self@ == Map::<Seq<char>, V>::empty()),
            r == (self.pairs().len() == 0),
    {
        let n: usize = self.len();
        proof {
            if n > 0 {
                lemma_map_of_value(self.pairs(), 0);
            }
        }
        n == 0
    }

    /// The key of the `i`-th entry.
    pub fn key_at(&self, i: usize) -> (k: &String)
        requires
            i < self.pairs().len(),
        ensures
            k@ == self.pairs()[i as int].0,
    {
        &self.entries[i].0
    }

    /// The value of the `i`-th entry.
    pub fn value_at(&self, i: usize) -> (v: &V)
        requires
            i < self.pairs().len(),
        ensures
            *v == self.pairs()[i as int].1,
    {
        &self.entries[i].1
    }

    /// The position of the entry with the key `k`, or the number of entries.
    fn position(&self, k: &str) -> (i: usize)
        ensures
            i <= self.entries@.len(),
            i < self.entries@.len() ==> self.entries@[i as int].0@ == k@,
            i == self.entries@.len() ==> !has_key(self.pairs(), k@),
    {
        let mut i: usize = 0;
        while i < self.entries.len()
            invariant
                i <= self.entries@.len(),
                forall|j: int| 0 <= j < i ==> (#[trigger] self.pairs()[j]).0 != k@,
            decreases self.entries@.len() - i,
        {
            if same(self.entries[i].0.as_str(), k) {
                return i;
            }
            assert(self.pairs()[i as int].0 != k@);
            i = i + 1;
        }
        i
    }

    /// The value of the key `k`.
    pub fn get(&self, k: &str) -> (r: Option<&V>)
        ensures
            match r {
                Some(v) => self@.contains_key(k@) && *v == self@[k@],
                None => !self@.contains_key(k@),
            },
    {
        let i: usize = self.position(k);
        proof {
            use_type_invariant(self);
            lemma_map_of_dom(self.pairs(), k@);
        }
        if i < self.entries.len() {
            proof {
                lemma_map_of_value(self.pairs(), i as int);
            }
            Some(&self.entries[i].1)
        } else {
            None
        }
    }

    /// Whether there is an entry with the key `k`.
    pub fn contains_key(&self, k: &str) -> (r: bool)
        ensures
            r == self@.contains_key(k@),
    {
        self.get(k).is_some()
    }

    /// Sets the value of the key `k`, which keeps its place where it has one.
    pub fn insert(&mut self, k: String, v: V)
        ensures
            final(self)@ == old(self)@.insert(k@, v),
            !old(self)@.contains_key(k@) ==> final(self).pairs() == old(self).pairs().push((k@, v)),
    {
        let i: usize = self.position(k.as_str());
        proof {
            use_type_invariant(&*self);
            lemma_map_of_dom(self.pairs(), k@);
        }
        let ghost before = self.pairs();
        let mut entries: Vec<(String, V)> = Vec::new();
        std::mem::swap(&mut entries, &mut self.entries);
        if i < entries.len() {
            proof {
                lemma_map_of_value(before, i as int);
                lemma_map_of_update(before, i as int, v);
            }
            entries.set(i, (k, v));
            assert(plain(entries@) =~= before.update(i as int, (before[i as int].0, v)));
        } else {
            entries.push((k, v));
            proof {
                let next = before.push((k@, v));
                assert(plain(entries@) =~= next);
                assert(next.drop_last() =~= before);
                assert forall|a: int, b: int| 0 <= a < b < next.len() implies (#[trigger] next[a]).0
                    != (#[trigger] next[b]).0 by {
                    if b == before.len() {
                        assert(before[a].0 != k@);
                    } else {
                        assert(before[a].0 != before[b].0);
                    }
                }
            }
        }
        self.entries = entries;
    }

    /// Removes the entry of the key `k` and hands out its value.
    pub fn remove(&mut self, k: &str) -> (r: Option<V>)
        ensures
            final(self)@ == old(self)@.remove(k@),
            r == if old(self)@.contains_key(k@) {
                Some(old(self)@[k@])
            } else {
                None
            },
    {
        let i: usize = self.position(k);
        proof {
            use_type_invariant(&*self);
            lemma_map_of_dom(self.pairs(), k@);
        }
        let ghost before = self.pairs();
        if i < self.entries.len() {
            let mut entries: Vec<(String, V)> = Vec::new();
            std::mem::swap(&mut entries, &mut self.entries);
            proof {
                lemma_map_of_value(before, i as int);
                lemma_map_of_remove(before, i as int);
            }
            let e = entries.remove(i);
            assert(plain(entries@) =~= before.remove(i as int));
            self.entries = entries;
            Some(e.1)
        } else {
            assert(self@.remove(k@) =~= self@);
            None
        }
    }
}

/// A value of the denoted map is that of some entry.
proof fn lemma_map_of_source<K, V>(pairs: Seq<(K, V)>, k: K) -> (i: int)
    requires
        map_of(pairs).contains_key(k),
    ensures
        0 <= i < pairs.len(),
        map_of(pairs)[k] == pairs[i].1,
    decreases pairs.len(),
{
    if pairs.last().0 == k {
        pairs.len() - 1
    } else {
        lemma_map_of_source(pairs.drop_last(), k)
    }
}

/// The values of a map are parts of it, so that definitions can recur into them.
pub proof fn lemma_values_are_parts<V>(m: StrMap<V>)
    ensures
        forall|k: Seq<char>| #[trigger]
            m@.contains_key(k) ==> decreases_to!(m => m@[k]),
{
    assert forall|k: Seq<char>| #[trigger] m@.contains_key(k) implies decreases_to!(m => m@[k]) by {
        let i = lemma_map_of_source(m.pairs(), k);
        assert(m@[k] == m.entries@[i].1);
        assert(decreases_to!(m => m.entries));
        assert(decreases_to!(m.entries => m.entries@));
        assert(decreases_to!(m.entries@ => m.entries@[i]));
        assert(decreases_to!(m.entries@[i] => m.entries@[i].1));
    }
}

impl<V> StrMap<V> {
    /// Removes the entries whose keys are not in `keep`.
    pub fn retain_keys(&mut self, keep: &Vec<String>)
        ensures
            forall|k: Seq<char>| #[trigger]
                final(self)@.contains_key(k) <==> old(self)@.contains_key(k) && texts(
                    keep@,
                ).contains(k),
            forall|k: Seq<char>| #[trigger]
                final(self)@.contains_key(k) ==> final(self)@[k] == old(self)@[k],
    {
        let n: usize = self.len();
        let ghost pairs = self.pairs();
        let mut gone: Vec<String> = Vec::new();
        let mut i: usize = 0;
        while i < n
            invariant
                i <= n == pairs.len(),
                pairs == self.pairs(),
                *self == *old(self),
                forall|k: Seq<char>| #[trigger]
                    texts(gone@).contains(k) ==> !texts(keep@).contains(k),
                forall|j: int|
                    0 <= j < i && !texts(keep@).contains((#[trigger] pairs[j]).0) ==> texts(
                        gone@,
                    ).contains(pairs[j].0),
            decreases n - i,
        {
            let ghost before = texts(gone@);
            let key = self.key_at(i);
            if !holds(keep, key.as_str()) {
                gone.push(key.clone());
                proof {
                    let now = texts(gone@);
                    assert(now =~= before.push(key@));
                    assert(now[before.len() as int] == key@);
                    assert forall|k: Seq<char>| #[trigger] now.contains(k) implies !texts(
                        keep@,
                    ).contains(k) by {
                        let x = choose|x: int| 0 <= x < now.len() && now[x] == k;
                        if x < before.len() {
                            assert(before[x] == k);
                            assert(before.contains(k));
                        }
                    }
                    assert forall|j: int|
                        0 <= j < i + 1 && !texts(keep@).contains(
                            (#[trigger] pairs[j]).0,
                        ) implies now.contains(pairs[j].0) by {
                        if j < i {
                            assert(before.contains(pairs[j].0));
                            let x = choose|x: int| 0 <= x < before.len() && before[x] == pairs[j].0;
                            assert(now[x] == pairs[j].0);
                        }
                    }
                }
            }
            i = i + 1;
        }
        let ghost start = self@;
        let mut g: usize = 0;
        while g < gone.len()
            invariant
                g <= gone@.len(),
                start == old(self)@,
                forall|k: Seq<char>| #[trigger]
                    self@.contains_key(k) <==> start.contains_key(k) && !texts(gone@).take(
                        g as int,
                    ).contains(k),
                forall|k: Seq<char>| #[trigger]
                    self@.contains_key(k) ==> self@[k] == start[k],
            decreases gone@.len() - g,
        {
            let ghost before = self@;
            let key = gone[g].as_str();
            let _ = self.remove(key);
            proof {
                let a = texts(gone@).take(g as int);
                let b = texts(gone@).take(g + 1);
                assert(b =~= a.push(key@));
                assert forall|k: Seq<char>| #[trigger] self@.contains_key(k) <==> (
                start.contains_key(k) && !b.contains(k)) by {
                    assert(before.contains_key(k) || !before.contains_key(k));
                    if a.contains(k) {
                        let x = choose|x: int| 0 <= x < a.len() && a[x] == k;
                        assert(b[x] == k);
                    }
                    if b.contains(k) {
                        let x = choose|x: int| 0 <= x < b.len() && b[x] == k;
                        if x < a.len() {
                            assert(a[x] == k);
                        }
                    }
                    assert(b[a.len() as int] == key@);
                }
                assert forall|k: Seq<char>| #[trigger] self@.contains_key(k) implies self@[k]
                    == start[k] by {
                    assert(before.contains_key(k));
                }
            }
            g = g + 1;
        }
        proof {
            assert(texts(gone@).take(g as int) =~= texts(gone@));
            assert forall|k: Seq<char>| #[trigger] self@.contains_key(k) <==> (
            start.contains_key(k) && texts(keep@).contains(k)) by {
                if start.contains_key(k) && !texts(keep@).contains(k) {
                    lemma_map_of_dom(pairs, k);
                    let j = choose|j: int| 0 <= j < pairs.len() && (#[trigger] pairs[j]).0 == k;
                    assert(texts(gone@).contains(pairs[j].0));
                }
            }
        }
    }
}

impl<V> Default for StrMap<V> {
    fn default() -> (r: Self)
        ensures
            r@ == Map::<Seq<char>, V>::empty(),
            r.pairs() == Seq::<(Seq<char>, V)>::empty(),
    {
        StrMap::new()
    }
}

/// A copy of a map of strings.
pub fn copy_text_map(m: &StrMap<String>) -> (r: StrMap<String>)
    ensures
        r@ == m@,
        r.pairs() == m.pairs(),
{
    let n: usize = m.len();
    let mut r: StrMap<String> = StrMap::new();
    let mut i: usize = 0;
    while i < n
        invariant
            i <= n == m.pairs().len(),
            distinct_keys(m.pairs()),
            r.pairs() == m.pairs().take(i as int),
        decreases n - i,
    {
        proof {
            lemma_map_of_dom(r.pairs(), m.pairs()[i as int].0);
            assert forall|j: int| 0 <= j < i implies (#[trigger] r.pairs()[j]).0
                != m.pairs()[i as int].0 by {
                assert(m.pairs()[j].0 != m.pairs()[i as int].0);
            }
        }
        r.insert(m.key_at(i).clone(), m.value_at(i).clone());
        i = i + 1;
        assert(r.pairs() =~= m.pairs().take(i as int));
    }
    assert(r.pairs() =~= m.pairs());
    r
}

/// A copy of a map of values that can be copied.
pub fn copy_map<V: Copy>(m: &StrMap<V>) -> (r: StrMap<V>)
    ensures
        r@ == m@,
        r.pairs() == m.pairs(),
{
    let n: usize = m.len();
    let mut r: StrMap<V> = StrMap::new();
    let mut i: usize = 0;
    while i < n
        invariant
            i <= n == m.pairs().len(),
            distinct_keys(m.pairs()),
            r.pairs() == m.pairs().take(i as int),
        decreases n - i,
    {
        proof {
            lemma_map_of_dom(r.pairs(), m.pairs()[i as int].0);
            assert forall|j: int| 0 <= j < i implies (#[trigger] r.pairs()[j]).0
                != m.pairs()[i as int].0 by {
                assert(m.pairs()[j].0 != m.pairs()[i as int].0);
            }
        }
        r.insert(m.key_at(i).clone(), *m.value_at(i));
        i = i + 1;
        assert(r.pairs() =~= m.pairs().take(i as int));
    }
    assert(r.pairs() =~= m.pairs());
    r
}

/// The value of the key `k`, where there is one.
pub open spec fn lookup<V>(m: Map<Seq<char>, V>, k: Seq<char>) -> Option<V> {
    if m.contains_key(k) {
        Some(m[k])
    } else {
        None
    }
}

/// `out` has a value for those keys of `m` that `rel` relates to a value, and
/// for no others.
pub open spec fn map_kept<V, W>(
    m: Map<Seq<char>, V>,
    out: Map<Seq<char>, W>,
    rel: spec_fn(Seq<char>, V, Option<W>) -> bool,
) -> bool {
    &&& forall|k: Seq<char>| #[trigger] out.contains_key(k) ==> m.contains_key(k)
    &&& forall|k: Seq<char>| #[trigger] m.contains_key(k) ==> rel(k, m[k], lookup(out, k))
}

/// Applies `f` to each entry and keeps, under the same key, what it yields.
pub(crate) fn collect_entries<V, W, F: Fn(&String, &V) -> Option<W>>(
    m: &StrMap<V>,
    f: F,
    Ghost(rel): Ghost<spec_fn(Seq<char>, V, Option<W>) -> bool>,
) -> (out: StrMap<W>)
    requires
        forall|k: &String, v: &V| call_requires(f, (k, v)),
        forall|k: &String, v: &V, w: Option<W>| #[trigger]
            call_ensures(f, (k, v), w) ==> rel(k@, *v, w),
    ensures
        map_kept(m@, out@, rel),
{
    let n: usize = m.len();
    let mut out: StrMap<W> = StrMap::new();
    let mut i: usize = 0;
    let ghost pairs = m.pairs();
    assert(map_of(pairs.take(0)) =~= Map::<Seq<char>, V>::empty());
    while i < n
        invariant
            i <= n == pairs.len(),
            pairs == m.pairs(),
            distinct_keys(pairs),
            forall|k: &String, v: &V| call_requires(f, (k, v)),
            forall|k: &String, v: &V, w: Option<W>| #[trigger]
                call_ensures(f, (k, v), w) ==> rel(k@, *v, w),
            map_kept(map_of(pairs.take(i as int)), out@, rel),
        decreases n - i,
    {
        let k = m.key_at(i);
        let v = m.value_at(i);
        let w = f(k, v);
        let ghost front = pairs.take(i as int);
        let ghost next = pairs.take(i + 1);
        proof {
            assert(next.drop_last() =~= front);
            lemma_map_of_dom(front, k@);
            assert forall|j: int| 0 <= j < i implies (#[trigger] front[j]).0 != k@ by {
                assert(pairs[j].0 != pairs[i as int].0);
            }
            assert(!map_of(front).contains_key(k@));
            assert(!out@.contains_key(k@));
        }
        let ghost before = out@;
        match w {
            Some(x) => {
                out.insert(k.clone(), x);
            },
            None => {},
        }
        proof {
            assert(map_of(next) == map_of(front).insert(k@, *v));
            assert forall|q: Seq<char>| #[trigger] map_of(next).contains_key(q) implies rel(
                q,
                map_of(next)[q],
                lookup(out@, q),
            ) by {
                if q != k@ {
                    assert(map_of(front).contains_key(q));
                    assert(lookup(out@, q) == lookup(before, q));
                }
            }
            assert forall|q: Seq<char>| #[trigger] out@.contains_key(q) implies map_of(
                next,
            ).contains_key(q) by {
                if q != k@ {
                    assert(before.contains_key(q));
                }
            }
        }
        i = i + 1;
    }
    assert(pairs.take(i as int) =~= pairs);
    out
}

} // verus!
