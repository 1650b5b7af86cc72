//! A map from pairs of strings to values that keeps its entries in the order
//! in which their keys were first inserted.
use crate::strmap::{
    distinct_keys, has_key, lemma_map_of_dom, lemma_map_of_len, lemma_map_of_remove,
    lemma_map_of_update, lemma_map_of_value, map_of,
};
use crate::text::same;
use vstd::prelude::*;

verus! {

/// The texts of a pair of strings.
pub type PairKey = (Seq<char>, Seq<char>);

/// A map whose keys are pairs of strings.
#[derive(Debug)]
pub struct PairMap<V> {
    entries: Vec<((String, String), V)>,
}

spec fn plain<V>(entries: Seq<((String, String), V)>) -> Seq<(PairKey, V)> {
    entries.map_values(|e: ((String, String), V)| ((e.0.0@, e.0.1@), e.1))
}

impl<V> View for PairMap<V> {
    type V = Map<PairKey, V>;

    open spec fn view(&self) -> Map<PairKey, V> {
        map_of(self.pairs())
    }
}

impl<V> PairMap<V> {
    /// The entries in the order in which their keys were first inserted.
    pub closed spec fn pairs(&self) -> Seq<(PairKey, V)> {
        plain(self.entries@)
    }

    #[verifier::type_invariant]
    spec fn inv(self) -> bool {
        distinct_keys(plain(self.entries@))
    }

    /// An empty map.
    pub fn new() -> (r: Self)
        ensures
            r@ == Map::<PairKey, V>::empty(),
            r.pairs() == Seq::<(PairKey, V)>::empty(),
    {
        let entries: Vec<((String, String), V)> = Vec::new();
        assert(plain(entries@) =~= Seq::<(PairKey, V)>::empty());
        PairMap { entries }
    }

    /// The number of entries.
    pub fn len(&self) -> (n: usize)
        ensures
            n == self.pairs().len(),
            n == self@.len(),
            self@.dom().finite(),
            distinct_keys(self.pairs()),
    {
        proof {
            use_type_invariant(self);
            lemma_map_of_len(self.pairs());
        }
        self.entries.len()
    }

    /// The value of the `i`-th entry.
    pub fn value_at(&self, i: usize) -> (v: &V)
        requires
            i < self.pairs().len(),
        ensures
            *v == self.pairs()[i as int].1,
    {
        &self.entries[i].1
    }

    /// The position of the entry with the key `(a, b)`, or the number of
    /// entries.
    fn position(&self, a: &str, b: &str) -> (i: usize)
        ensures
            i <= self.entries@.len(),
            i < self.entries@.len() ==> self.pairs()[i as int].0 == (a@, b@),
            i == self.entries@.len() ==> !has_key(self.pairs(), (a@, b@)),
    {
        let mut i: usize = 0;
        while i < self.entries.len()
            invariant
                i <= self.entries@.len(),
                forall|j: int| 0 <= j < i ==> (#[trigger] self.pairs()[j]).0 != (a@, b@),
            decreases self.entries@.len() - i,
        {
            if same(self.entries[i].0.0.as_str(), a) && same(self.entries[i].0.1.as_str(), b) {
                return i;
            }
            assert(self.pairs()[i as int].0 != (a@, b@));
            i = i + 1;
        }
        i
    }

    /// The value of the key `(a, b)`.
    pub fn get(&self, a: &str, b: &str) -> (r: Option<&V>)
        ensures
            match r {
                Some(v) => self@.contains_key((a@, b@)) && *v == self@[(a@, b@)],
                None => !self@.contains_key((a@, b@)),
            },
    {
        let i: usize = self.position(a, b);
        proof {
            use_type_invariant(self);
            lemma_map_of_dom(self.pairs(), (a@, b@));
        }
        if i < self.entries.len() {
            proof {
                lemma_map_of_value(self.pairs(), i as int);
            }
            Some(&self.entries[i].1)
        } else {
            None
        }
    }

    /// Sets the value of the key `(a, b)`, which keeps its place where it has
    /// one.
    pub fn insert(&mut self, a: &str, b: &str, v: V)
        ensures
            final(self)@ == old(self)@.insert((a@, b@), v),
            !old(self)@.contains_key((a@, b@)) ==> final(self).pairs() == old(self).pairs().push(
                ((a@, b@), v),
            ),
    {
        let i: usize = self.position(a, b);
        proof {
            use_type_invariant(&*self);
            lemma_map_of_dom(self.pairs(), (a@, b@));
        }
        let ghost before = self.pairs();
        let mut entries: Vec<((String, String), V)> = Vec::new();
        std::mem::swap(&mut entries, &mut self.entries);
        if i < entries.len() {
            proof {
                lemma_map_of_value(before, i as int);
                lemma_map_of_update(before, i as int, v);
            }
            entries.set(i, ((a.to_owned(), b.to_owned()), v));
            assert(plain(entries@) =~= before.update(i as int, (before[i as int].0, v)));
        } else {
            entries.push(((a.to_owned(), b.to_owned()), v));
            proof {
                let next = before.push(((a@, b@), v));
                assert(plain(entries@) =~= next);
                assert(next.drop_last() =~= before);
                assert forall|m: int, n: int| 0 <= m < n < next.len() implies (#[trigger] next[m]).0
                    != (#[trigger] next[n]).0 by {
                    if n == before.len() {
                        assert(before[m].0 != (a@, b@));
                    } else {
                        assert(before[m].0 != before[n].0);
                    }
                }
            }
        }
        self.entries = entries;
    }

    /// Removes the entry of the key `(a, b)` and hands out its value.
    pub fn remove(&mut self, a: &str, b: &str) -> (r: Option<V>)
        ensures
            final(self)@ == old(self)@.remove((a@, b@)),
            r == if old(self)@.contains_key((a@, b@)) {
                Some(old(self)@[(a@, b@)])
            } else {
                None
            },
            match r {
                Some(v) => exists|i: int|
                    0 <= i < old(self).pairs().len() && #[trigger] old(self).pairs()[i] == (
                        (a@, b@),
                        v,
                    ) && final(self).pairs() == old(self).pairs().remove(i),
                None => final(self).pairs() == old(self).pairs(),
            },
    {
        let i: usize = self.position(a, b);
        proof {
            use_type_invariant(&*self);
            lemma_map_of_dom(self.pairs(), (a@, b@));
        }
        let ghost before = self.pairs();
        if i < self.entries.len() {
            let mut entries: Vec<((String, String), V)> = Vec::new();
            std::mem::swap(&mut entries, &mut self.entries);
            proof {
                lemma_map_of_value(before, i as int);
                lemma_map_of_remove(before, i as int);
            }
            let e = entries.remove(i);
            assert(plain(entries@) =~= before.remove(i as int));
            assert(before[i as int] == ((a@, b@), e.1));
            self.entries = entries;
            Some(e.1)
        } else {
            assert(self@.remove((a@, b@)) =~= self@);
            None
        }
    }
}

} // verus!
