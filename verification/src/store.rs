//! Records that are kept under a name in a concurrent map.
use dashmap::DashMap;
use vstd::prelude::*;

verus! {

#[verifier::external_type_specification]
#[verifier::external_body]
#[verifier::reject_recursive_types(K)]
#[verifier::reject_recursive_types(V)]
#[verifier::reject_recursive_types(S)]
pub struct ExDashMap<K, V, S>(dashmap::DashMap<K, V, S>);

/// What a `DashMap` holds: the number of each name.
pub uninterp spec fn numbers(m: DashMap<String, u64>) -> Map<Seq<char>, u64>;

/// No names at all.
pub open spec fn no_numbers() -> Map<Seq<char>, u64> {
    Map::empty()
}

/// Calls `DashMap::new`, which yields a map without entries.
#[verifier::external_body]
fn new_map() -> (r: DashMap<String, u64>)
    ensures
        numbers(r) == no_numbers(),
{
    DashMap::new()
}

/// Calls `DashMap::insert`, which sets the value of a key, and replaces the one
/// that the key had. The map is borrowed mutably, so that nothing else refers
/// to it during the call.
#[verifier::external_body]
fn set_number(m: &mut DashMap<String, u64>, k: String, n: u64)
    ensures
        numbers(*final(m)) == numbers(*old(m)).insert(k@, n),
{
    m.insert(k, n);
}

/// Calls `DashMap::get`, and copies the value of the key.
#[verifier::external_body]
fn number_of_name(m: &DashMap<String, u64>, k: &str) -> (r: Option<u64>)
    ensures
        match r {
            Some(n) => numbers(*m).contains_key(k@) && numbers(*m)[k@] == n,
            None => !numbers(*m).contains_key(k@),
        },
{
    m.get(k).map(|e| *e.value())
}

/// Calls `DashMap::remove`, which removes the entry of a key, where there is one,
/// and returns its value.
#[verifier::external_body]
fn forget_number(m: &mut DashMap<String, u64>, k: &str) -> (r: Option<u64>)
    ensures
        numbers(*final(m)) == numbers(*old(m)).remove(k@),
        match r {
            Some(n) => numbers(*old(m)).contains_key(k@) && numbers(*old(m))[k@] == n,
            None => !numbers(*old(m)).contains_key(k@),
        },
{
    m.remove(k).map(|e| e.1)
}

/// Calls `DashMap::len`: the number of entries.
#[verifier::external_body]
fn count_numbers(m: &DashMap<String, u64>) -> (n: usize)
    ensures
        n == numbers(*m).len(),
{
    m.len()
}

/// Calls `DashMap::iter`, which yields each entry once. In which order they come
/// is not said: it differs from map to map.
#[verifier::external_body]
fn list_numbers(m: &DashMap<String, u64>) -> (r: Vec<(String, u64)>)
    ensures
        forall|k: Seq<char>| #[trigger]
            numbers(*m).contains_key(k) ==> exists|i: int|
                0 <= i < r@.len() && (#[trigger] r@[i]).0@ == k,
        forall|i: int|
            0 <= i < r@.len() ==> numbers(*m).contains_key((#[trigger] r@[i]).0@) && numbers(
                *m,
            )[r@[i].0@] == r@[i].1,
        forall|i: int, j: int|
            0 <= i < j < r@.len() ==> (#[trigger] r@[i]).0@ != (#[trigger] r@[j]).0@,
{
    m.iter().map(|e| (e.key().clone(), *e.value())).collect()
}

/// Records under their names. The map gives each name the place of its record.
#[derive(Debug)]
pub struct Store<T> {
    index: DashMap<String, u64>,
    places: Vec<Option<T>>,
}

/// A list that holds each record of a map once.
pub open spec fn lists_all<T>(m: Map<Seq<char>, T>, r: Seq<(String, &T)>) -> bool {
    &&& forall|k: Seq<char>| #[trigger]
        m.contains_key(k) ==> exists|i: int| 0 <= i < r.len() && (#[trigger] r[i]).0@ == k
    &&& forall|i: int|
        0 <= i < r.len() ==> m.contains_key((#[trigger] r[i]).0@) && m[r[i].0@] == *r[i].1
    &&& forall|i: int, j: int| 0 <= i < j < r.len() ==> (#[trigger] r[i]).0@ != (#[trigger] r[j]).0@
}

impl<T> View for Store<T> {
    type V = Map<Seq<char>, T>;

    closed spec fn view(&self) -> Map<Seq<char>, T> {
        numbers(self.index).map_values(|n: u64| self.places@[n as int]->0)
    }
}

impl<T> Store<T> {
    /// Each name has a place of its own, with a record.
    pub closed spec fn wf(self) -> bool {
        &&& forall|k: Seq<char>| #[trigger]
            numbers(self.index).contains_key(k) ==> numbers(self.index)[k] < self.places@.len()
                && self.places@[numbers(self.index)[k] as int] is Some
        &&& forall|k: Seq<char>, q: Seq<char>|
            #[trigger]
            numbers(self.index).contains_key(k) && #[trigger] numbers(self.index).contains_key(q)
                && k != q ==> numbers(self.index)[k] != numbers(self.index)[q]
    }

    /// A store without records.
    pub fn new() -> (r: Self)
        ensures
            r.wf(),
            r@ == Map::<Seq<char>, T>::empty(),
    {
        let r = Store { index: new_map(), places: Vec::new() };
        assert(r@ =~= Map::<Seq<char>, T>::empty());
        r
    }

    /// The number of records.
    pub fn len(&self) -> (n: usize)
        ensures
            n == self@.len(),
    {
        assert(self@.dom() =~= numbers(self.index).dom());
        count_numbers(&self.index)
    }

    /// The record of a name.
    pub fn get(&self, k: &str) -> (r: Option<&T>)
        requires
            self.wf(),
        ensures
            match r {
                Some(v) => self@.contains_key(k@) && *v == self@[k@],
                None => !self@.contains_key(k@),
            },
    {
        match number_of_name(&self.index, k) {
            Some(n) => {
                assert(n < self.places.len());
                self.places[n as usize].as_ref()
            },
            None => None,
        }
    }

    /// Sets the record of a name.
    pub fn insert(&mut self, k: String, v: T)
        requires
            old(self).wf(),
        ensures
            final(self).wf(),
            final(self)@ == old(self)@.insert(k@, v),
    {
        match number_of_name(&self.index, k.as_str()) {
            Some(n) => {
                assert(n < self.places.len());
                self.places.set(n as usize, Some(v));
            },
            None => {
                let n: u64 = self.places.len() as u64;
                self.places.push(Some(v));
                set_number(&mut self.index, k, n);
            },
        }
        assert(self@ =~= old(self)@.insert(k@, v));
    }

    /// Removes the record of a name, and returns it.
    pub fn remove(&mut self, k: &str) -> (r: Option<T>)
        requires
            old(self).wf(),
        ensures
            final(self).wf(),
            final(self)@ == old(self)@.remove(k@),
            match r {
                Some(v) => old(self)@.contains_key(k@) && v == old(self)@[k@],
                None => !old(self)@.contains_key(k@),
            },
    {
        match forget_number(&mut self.index, k) {
            Some(n) => {
                let mut v: Option<T> = None;
                assert(numbers(old(self).index).contains_key(k@));
                assert(n < self.places.len());
                std::mem::swap(&mut v, &mut self.places[n as usize]);
                assert(self@ =~= old(self)@.remove(k@));
                v
            },
            None => {
                assert(self@ =~= old(self)@.remove(k@));
                None
            },
        }
    }

    /// All records with their names, in no particular order.
    pub fn list(&self) -> (r: Vec<(String, &T)>)
        requires
            self.wf(),
        ensures
            lists_all(self@, r@),
    {
        let names = list_numbers(&self.index);
        let mut out: Vec<(String, &T)> = Vec::new();
        let mut i: usize = 0;
        assert(self@.dom() =~= numbers(self.index).dom());
        while i < names.len()
            invariant
                i <= names@.len(),
                self.wf(),
                out@.len() == i,
                forall|j: int|
                    0 <= j < names@.len() ==> numbers(self.index).contains_key(
                        (#[trigger] names@[j]).0@,
                    ) && numbers(self.index)[names@[j].0@] == names@[j].1,
                forall|j: int| 0 <= j < i ==> (#[trigger] out@[j]).0@ == names@[j].0@,
                forall|j: int|
                    0 <= j < i ==> self@.contains_key((#[trigger] out@[j]).0@)
                        && self@[out@[j].0@] == *out@[j].1,
            decreases names@.len() - i,
        {
            let n: u64 = names[i].1;
            assert(numbers(self.index).contains_key(names@[i as int].0@));
            assert(n < self.places.len());
            if let Some(v) = &self.places[n as usize] {
                out.push((names[i].0.clone(), v));
            }
            i = i + 1;
        }
        assert forall|a: int, b: int| 0 <= a < b < out@.len() implies (#[trigger] out@[a]).0@ != (
        #[trigger] out@[b]).0@ by {
            assert(names@[a].0@ != names@[b].0@);
        }
        assert forall|k: Seq<char>| #[trigger] self@.contains_key(k) implies exists|a: int|
            0 <= a < out@.len() && (#[trigger] out@[a]).0@ == k by {
            assert(numbers(self.index).contains_key(k));
            let a = choose|a: int| 0 <= a < names@.len() && (#[trigger] names@[a]).0@ == k;
            assert(out@[a].0@ == k);
        }
        out
    }
}

/// A listing holds each entry once, with its value, and nothing else.
pub proof fn law_listings_are_complete<T>(
    m: Map<Seq<char>, T>,
    r: Seq<(String, &T)>,
    k: Seq<char>,
    i: int,
    j: int,
)
    requires
        lists_all(m, r),
        0 <= i < r.len(),
    ensures
        m.contains_key(r[i].0@) && m[r[i].0@] == *r[i].1,
        m.contains_key(k) ==> exists|n: int| 0 <= n < r.len() && (#[trigger] r[n]).0@ == k,
        0 <= j < r.len() && i != j ==> r[i].0@ != r[j].0@,
{
    if i < j < r.len() {
        assert(r[i].0@ != r[j].0@);
    }
    if 0 <= j < i {
        assert(r[j].0@ != r[i].0@);
    }
}

} // verus!
