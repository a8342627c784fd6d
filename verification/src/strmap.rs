//! A map keyed by strings that keeps its entries in insertion order.
use vstd::prelude::*;
use crate::model::Model;

verus! {

/// The model of a string-keyed map: its entries, in insertion order.
pub type Entries<M> = Seq<(Seq<char>, M)>;

/// No key occurs twice among the entries.
pub open spec fn unique_keys<M>(s: Entries<M>) -> bool {
    forall|i: int, j: int| 0 <= i < s.len() && 0 <= j < s.len() && i != j ==> s[i].0 != s[j].0
}

/// Some entry has key `k`.
pub open spec fn has_key<M>(s: Entries<M>, k: Seq<char>) -> bool {
    exists|i: int| 0 <= i < s.len() && s[i].0 == k
}

/// The position of the first entry with key `k`, or -1 when there is none.
pub open spec fn key_index<M>(s: Entries<M>, k: Seq<char>) -> int
    decreases s.len(),
{
    if s.len() == 0 {
        -1
    } else {
        let p = key_index(s.drop_last(), k);
        if p >= 0 {
            p
        } else if s.last().0 == k {
            s.len() - 1
        } else {
            -1
        }
    }
}

/// The value stored under key `k`.
pub open spec fn lookup<M>(s: Entries<M>, k: Seq<char>) -> Option<M> {
    let p = key_index(s, k);
    if p >= 0 {
        Some(s[p].1)
    } else {
        None
    }
}

/// The entries after storing `v` under `k`: an existing entry keeps its place, a new key
/// goes last.
pub open spec fn inserted<M>(s: Entries<M>, k: Seq<char>, v: M) -> Entries<M> {
    let p = key_index(s, k);
    if p >= 0 {
        s.update(p, (k, v))
    } else {
        s.push((k, v))
    }
}

/// The entries that storing `s`'s entries one after another into an empty map gives: a key
/// keeps the place of its first entry and the value of its last.
pub open spec fn collected<M>(s: Entries<M>) -> Entries<M>
    decreases s.len(),
{
    if s.len() == 0 {
        Seq::empty()
    } else {
        inserted(collected(s.drop_last()), s.last().0, s.last().1)
    }
}

/// The position of the last entry with key `k`, or -1 when there is none.
pub open spec fn last_key_index<M>(s: Entries<M>, k: Seq<char>) -> int
    decreases s.len(),
{
    if s.len() == 0 {
        -1
    } else if s.last().0 == k {
        s.len() - 1
    } else {
        last_key_index(s.drop_last(), k)
    }
}

/// The entries as a finite map.
pub open spec fn as_map<M>(s: Entries<M>) -> Map<Seq<char>, M> {
    Map::new(|k: Seq<char>| has_key(s, k), |k: Seq<char>| lookup(s, k)->0)
}

pub proof fn lemma_key_index<M>(s: Entries<M>, k: Seq<char>)
    ensures
        -1 <= key_index(s, k) < s.len(),
        key_index(s, k) >= 0 <==> has_key(s, k),
        key_index(s, k) >= 0 ==> s[key_index(s, k)].0 == k,
        forall|j: int| 0 <= j < key_index(s, k) ==> s[j].0 != k,
        key_index(s, k) < 0 ==> forall|j: int| 0 <= j < s.len() ==> s[j].0 != k,
    decreases s.len(),
{
    if s.len() > 0 {
        lemma_key_index(s.drop_last(), k);
        let p = key_index(s.drop_last(), k);
        if p >= 0 {
            assert(s.drop_last()[p] == s[p]);
        }
        assert forall|j: int| 0 <= j < s.len() - 1 implies s.drop_last()[j] == s[j] by {}
        if key_index(s, k) >= 0 {
            assert(has_key(s, k));
        }
    }
}

/// What storing a value under a key changes: that key finds the value, other keys find
/// what they found.
pub proof fn lemma_inserted<M>(s: Entries<M>, k: Seq<char>, v: M)
    ensures
        forall|k2: Seq<char>| #[trigger] has_key(inserted(s, k, v), k2) <==> (has_key(s, k2) || k2 == k),
        forall|k2: Seq<char>| #[trigger] lookup(inserted(s, k, v), k2) == if k2 == k { Some(v) } else { lookup(s, k2) },
{
    lemma_key_index(s, k);
    let r = inserted(s, k, v);
    assert forall|k2: Seq<char>| #[trigger] has_key(r, k2) <==> (has_key(s, k2) || k2 == k) by {
        lemma_key_index(s, k2);
        lemma_key_index(r, k2);
        if has_key(s, k2) {
            let j = choose|j: int| 0 <= j < s.len() && s[j].0 == k2;
            assert(r[j].0 == k2);
        }
        if k2 == k {
            let p = key_index(s, k);
            if p >= 0 {
                assert(r[p].0 == k);
            } else {
                assert(r[s.len() as int].0 == k);
            }
        }
    }
    assert forall|k2: Seq<char>| #[trigger] lookup(r, k2) == if k2 == k { Some(v) } else { lookup(s, k2) } by {
        lemma_key_index(s, k2);
        lemma_key_index(r, k2);
        let p = key_index(s, k);
        let q = key_index(s, k2);
        let qr = key_index(r, k2);
        if k2 == k {
            if p >= 0 {
                assert(r[p].0 == k);
                assert(qr <= p);
                assert forall|j: int| 0 <= j < p implies r[j].0 != k by {
                    assert(r[j] == s[j]);
                }
            } else {
                assert(r[s.len() as int].0 == k);
                assert forall|j: int| 0 <= j < s.len() implies r[j].0 != k by {
                    assert(r[j] == s[j]);
                }
            }
        } else {
            if q >= 0 {
                assert(r[q] == s[q]);
                assert forall|j: int| 0 <= j < q implies r[j].0 != k2 by {
                    if j == p {
                        assert(r[j].0 == k);
                    } else {
                        assert(r[j] == s[j]);
                    }
                }
            } else {
                assert forall|j: int| 0 <= j < r.len() implies r[j].0 != k2 by {
                    if j < s.len() && j != p {
                        assert(r[j] == s[j]);
                    }
                }
            }
        }
    }
}

/// Storing a value and then taking the models of the values is taking the models and then
/// storing the value's model.
pub proof fn lemma_inserted_map_values<A, B>(s: Entries<A>, k: Seq<char>, v: A, f: spec_fn(A) -> B)
    ensures
        inserted(s, k, v).map_values(|e: (Seq<char>, A)| (e.0, f(e.1)))
            == inserted(s.map_values(|e: (Seq<char>, A)| (e.0, f(e.1))), k, f(v)),
{
    let t = s.map_values(|e: (Seq<char>, A)| (e.0, f(e.1)));
    lemma_same_keys(s, t, k);
    lemma_key_index(s, k);
    let p = key_index(s, k);
    if p >= 0 {
        assert(s.update(p, (k, v)).map_values(|e: (Seq<char>, A)| (e.0, f(e.1))) =~= t.update(p, (k, f(v))));
    } else {
        assert(s.push((k, v)).map_values(|e: (Seq<char>, A)| (e.0, f(e.1))) =~= t.push((k, f(v))));
    }
}

/// Two entry lists with the same keys at the same places find a key at the same place.
pub proof fn lemma_same_keys<A, B>(s: Entries<A>, t: Entries<B>, k: Seq<char>)
    requires
        s.len() == t.len(),
        forall|i: int| 0 <= i < s.len() ==> #[trigger] s[i].0 == t[i].0,
    ensures
        key_index(s, k) == key_index(t, k),
    decreases s.len(),
{
    if s.len() > 0 {
        assert forall|i: int| 0 <= i < s.len() - 1 implies #[trigger] s.drop_last()[i].0 == t.drop_last()[i].0 by {
            assert(s.drop_last()[i] == s[i]);
            assert(t.drop_last()[i] == t[i]);
        }
        lemma_same_keys(s.drop_last(), t.drop_last(), k);
    }
}

pub proof fn lemma_unique_key_index<M>(s: Entries<M>, i: int)
    requires
        unique_keys(s),
        0 <= i < s.len(),
    ensures
        key_index(s, s[i].0) == i,
{
    lemma_key_index(s, s[i].0);
}

/// A map from strings to values, in insertion order, with no key twice.
#[derive(Debug)]
pub struct StrMap<V> {
    entries: Vec<(String, V)>,
}

impl<V: Model> Model for StrMap<V> {
    type M = Entries<V::M>;

    closed spec fn model(&self) -> Entries<V::M> {
        self.entries@.map_values(|e: (String, V)| (e.0@, e.1.model()))
    }

    fn duplicate(&self) -> (r: Self) {
        proof {
            use_type_invariant(self);
        }
        let mut entries: Vec<(String, V)> = Vec::new();
        let mut i: usize = 0;
        while i < self.entries.len()
            invariant
                i <= self.entries.len(),
                entries@.len() == i,
                forall|j: int|
                    0 <= j < i ==> (#[trigger] entries@[j]).0@ == self.entries@[j].0@
                        && entries@[j].1.model() == self.entries@[j].1.model(),
            decreases self.entries.len() - i,
        {
            let key = self.entries[i].0.clone();
            let value = self.entries[i].1.duplicate();
            entries.push((key, value));
            i = i + 1;
        }
        let r = StrMap { entries };
        assert(r.model() =~= self.model());
        r
    }
}

/// A value held by a map is part of the map.
pub broadcast proof fn lemma_map_value_decreases<V>(m: StrMap<V>, i: int)
    requires
        0 <= i < m.raw().len(),
    ensures
        decreases_to!(m => #[trigger] m.raw()[i].1),
{
    assert(decreases_to!(m => m.entries));
    assert(decreases_to!(m.entries => m.entries@));
    assert(decreases_to!(m.entries@ => m.entries@[i]));
    assert(decreases_to!(m.entries@[i] => m.entries@[i].1));
}

impl<V: Model> Clone for StrMap<V> {
    fn clone(&self) -> (r: Self)
        ensures
            r.model() == self.model(),
    {
        self.duplicate()
    }
}

impl<V> StrMap<V> {
    /// The entries themselves, each key by its view.
    pub closed spec fn raw(&self) -> Seq<(Seq<char>, V)> {
        self.entries@.map_values(|e: (String, V)| (e.0@, e.1))
    }

    #[verifier::type_invariant]
    spec fn keys_are_unique(self) -> bool {
        forall|i: int, j: int|
            0 <= i < self.entries@.len() && 0 <= j < self.entries@.len() && i != j
                ==> self.entries@[i].0@ != self.entries@[j].0@
    }
}

impl<V: Model> StrMap<V> {
    /// The model holds the keys of the entries and the models of their values.
    pub proof fn lemma_raw(&self)
        ensures
            self.raw().len() == self.model().len(),
            forall|i: int| 0 <= i < self.raw().len() ==> #[trigger] self.raw()[i].0 == self.model()[i].0
                && self.model()[i].1 == self.raw()[i].1.model(),
            forall|k: Seq<char>| #[trigger] key_index(self.raw(), k) == key_index(self.model(), k),
    {
        assert forall|k: Seq<char>| #[trigger] key_index(self.raw(), k) == key_index(self.model(), k) by {
            lemma_same_keys(self.raw(), self.model(), k);
        }
    }

    /// An empty map.
    pub fn new() -> (r: Self)
        ensures
            r.model() == Seq::<(Seq<char>, V::M)>::empty(),
    {
        let r = StrMap { entries: Vec::new() };
        assert(r.model() =~= Seq::<(Seq<char>, V::M)>::empty());
        r
    }

    /// The number of entries; no key occurs twice among them.
    pub fn len(&self) -> (r: usize)
        ensures
            r == self.model().len(),
            unique_keys(self.model()),
    {
        proof {
            use_type_invariant(self);
        }
        self.entries.len()
    }

    pub fn is_empty(&self) -> (r: bool)
        ensures
            r == (self.model().len() == 0),
    {
        self.entries.len() == 0
    }

    /// The key of the `i`-th entry.
    pub fn key_at(&self, i: usize) -> (r: &String)
        requires
            i < self.model().len(),
        ensures
            r@ == self.model()[i as int].0,
    {
        &self.entries[i].0
    }

    /// The value of the `i`-th entry.
    pub fn value_at(&self, i: usize) -> (r: &V)
        requires
            i < self.model().len(),
        ensures
            r.model() == self.model()[i as int].1,
            *r == self.raw()[i as int].1,
    {
        &self.entries[i].1
    }

    /// The position of `key` among the entries.
    pub fn index_of(&self, key: &String) -> (r: Option<usize>)
        ensures
            match r {
                Some(i) => i as int == key_index(self.model(), key@),
                None => key_index(self.model(), key@) == -1,
            },
    {
        proof {
            lemma_key_index(self.model(), key@);
        }
        let mut i: usize = 0;
        while i < self.entries.len()
            invariant
                i <= self.entries@.len(),
                self.model().len() == self.entries@.len(),
                forall|j: int| 0 <= j < i ==> self.model()[j].0 != key@,
                -1 <= key_index(self.model(), key@) < self.model().len(),
                key_index(self.model(), key@) >= 0 ==> self.model()[key_index(self.model(), key@)].0 == key@,
                forall|j: int| 0 <= j < key_index(self.model(), key@) ==> self.model()[j].0 != key@,
                key_index(self.model(), key@) < 0 ==> forall|j: int| 0 <= j < self.model().len() ==> self.model()[j].0 != key@,
            decreases self.entries.len() - i,
        {
            if self.entries[i].0 == *key {
                assert(self.model()[i as int].0 == key@);
                return Some(i);
            }
            assert(self.model()[i as int].0 == self.entries@[i as int].0@);
            i = i + 1;
        }
        None
    }

    /// The value stored under `key`.
    pub fn get(&self, key: &String) -> (r: Option<&V>)
        ensures
            r.is_some() == has_key(self.model(), key@),
            match r {
                Some(v) => lookup(self.model(), key@) == Some(v.model()) && lookup(self.raw(), key@) == Some(*v),
                None => lookup(self.model(), key@) is None && lookup(self.raw(), key@) is None,
            },
    {
        proof {
            lemma_key_index(self.model(), key@);
            self.lemma_raw();
        }
        match self.index_of(key) {
            Some(i) => Some(&self.entries[i].1),
            None => None,
        }
    }

    pub fn contains_key(&self, key: &String) -> (r: bool)
        ensures
            r == has_key(self.model(), key@),
    {
        proof {
            lemma_key_index(self.model(), key@);
        }
        self.index_of(key).is_some()
    }

    /// Stores `value` under `key`, in place of what was stored there.
    pub fn insert(&mut self, key: String, value: V)
        ensures
            final(self).model() == inserted(old(self).model(), key@, value.model()),
            final(self).raw() == inserted(old(self).raw(), key@, value),
    {
        proof {
            use_type_invariant(&*self);
            lemma_key_index(self.model(), key@);
            self.lemma_raw();
        }
        let ghost old_model = self.model();
        let ghost old_raw = self.raw();
        let ghost v = value;
        let position = self.index_of(&key);
        let mut entries: Vec<(String, V)> = Vec::new();
        std::mem::swap(&mut entries, &mut self.entries);
        let ghost k = key@;
        let ghost vm = value.model();
        match position {
            Some(i) => {
                entries.set(i, (key, value));
            },
            None => {
                entries.push((key, value));
            },
        }
        let ghost new_model = entries@.map_values(|e: (String, V)| (e.0@, e.1.model()));
        let ghost new_raw = entries@.map_values(|e: (String, V)| (e.0@, e.1));
        proof {
            if position.is_some() {
                assert(new_model =~= old_model.update(key_index(old_model, k), (k, vm)));
                assert(new_raw =~= old_raw.update(key_index(old_raw, k), (k, v)));
            } else {
                assert(new_model =~= old_model.push((k, vm)));
                assert(new_raw =~= old_raw.push((k, v)));
            }
            assert forall|i: int, j: int|
                0 <= i < entries@.len() && 0 <= j < entries@.len() && i != j
                implies entries@[i].0@ != entries@[j].0@ by {
                assert(new_model[i].0 == entries@[i].0@);
                assert(new_model[j].0 == entries@[j].0@);
            }
        }
        self.entries = entries;
    }
}


impl<V: Model> StrMap<V> {
    /// Replaces the value of the `i`-th entry; the key keeps its place.
    pub(crate) fn set_value(&mut self, i: usize, value: V)
        requires
            i < old(self).model().len(),
        ensures
            final(self).model() == old(self).model().update(i as int, (old(self).model()[i as int].0, value.model())),
            final(self).raw() == old(self).raw().update(i as int, (old(self).raw()[i as int].0, value)),
    {
        proof {
            use_type_invariant(&*self);
        }
        let ghost old_model = self.model();
        let ghost old_raw = self.raw();
        let ghost v = value;
        let ghost vm = value.model();
        let mut entries: Vec<(String, V)> = Vec::new();
        std::mem::swap(&mut entries, &mut self.entries);
        let key = entries[i].0.clone();
        entries.set(i, (key, value));
        let ghost new_model = entries@.map_values(|e: (String, V)| (e.0@, e.1.model()));
        let ghost new_raw = entries@.map_values(|e: (String, V)| (e.0@, e.1));
        proof {
            assert(new_model =~= old_model.update(i as int, (old_model[i as int].0, vm)));
            assert(new_raw =~= old_raw.update(i as int, (old_raw[i as int].0, v)));
            assert forall|x: int, y: int|
                0 <= x < entries@.len() && 0 <= y < entries@.len() && x != y
                implies entries@[x].0@ != entries@[y].0@ by {
                assert(new_model[x].0 == entries@[x].0@);
                assert(new_model[y].0 == entries@[y].0@);
                assert(old_model[x].0 != old_model[y].0);
            }
        }
        self.entries = entries;
    }

    /// Removes the entry under `key`, and gives back its position, key and value.
    pub(crate) fn remove_entry(&mut self, key: &String) -> (r: Option<(usize, String, V)>)
        ensures
            match r {
                Some((i, k, v)) => {
                    &&& i as int == key_index(old(self).model(), key@)
                    &&& k@ == key@
                    &&& v.model() == old(self).model()[i as int].1
                    &&& final(self).model() == old(self).model().remove(i as int)
                },
                None => {
                    &&& key_index(old(self).model(), key@) == -1
                    &&& final(self).model() == old(self).model()
                },
            },
    {
        proof {
            use_type_invariant(&*self);
            lemma_key_index(self.model(), key@);
        }
        let ghost old_model = self.model();
        match self.index_of(key) {
            Some(i) => {
                let mut entries: Vec<(String, V)> = Vec::new();
                std::mem::swap(&mut entries, &mut self.entries);
                let (k, v) = entries.remove(i);
                let ghost new_model = entries@.map_values(|e: (String, V)| (e.0@, e.1.model()));
                proof {
                    assert(new_model =~= old_model.remove(i as int));
                    assert forall|x: int, y: int|
                        0 <= x < entries@.len() && 0 <= y < entries@.len() && x != y
                        implies entries@[x].0@ != entries@[y].0@ by {
                        assert(new_model[x].0 == entries@[x].0@);
                        assert(new_model[y].0 == entries@[y].0@);
                    }
                }
                self.entries = entries;
                Some((i, k, v))
            },
            None => None,
        }
    }

    /// Puts an entry under a key that is not in the map at position `i`.
    pub(crate) fn insert_entry(&mut self, i: usize, key: String, value: V)
        requires
            i <= old(self).model().len(),
            !has_key(old(self).model(), key@),
        ensures
            final(self).model() == old(self).model().insert(i as int, (key@, value.model())),
    {
        proof {
            use_type_invariant(&*self);
        }
        let ghost old_model = self.model();
        let ghost k = key@;
        let ghost vm = value.model();
        let mut entries: Vec<(String, V)> = Vec::new();
        std::mem::swap(&mut entries, &mut self.entries);
        entries.insert(i, (key, value));
        let ghost new_model = entries@.map_values(|e: (String, V)| (e.0@, e.1.model()));
        proof {
            assert(new_model =~= old_model.insert(i as int, (k, vm)));
            assert forall|x: int, y: int|
                0 <= x < entries@.len() && 0 <= y < entries@.len() && x != y
                implies entries@[x].0@ != entries@[y].0@ by {
                assert(new_model[x].0 == entries@[x].0@);
                assert(new_model[y].0 == entries@[y].0@);
                if x != i && y != i {
                    let x0 = if x < i { x } else { x - 1 };
                    let y0 = if y < i { y } else { y - 1 };
                    assert(old_model[x0].0 != old_model[y0].0);
                } else if x == i {
                    let y0 = if y < i { y } else { y - 1 };
                    assert(old_model[y0].0 != k);
                } else {
                    let x0 = if x < i { x } else { x - 1 };
                    assert(old_model[x0].0 != k);
                }
            }
        }
        self.entries = entries;
    }
}

/// Two entry lists hold the same keys with the same values, whatever their order.
pub open spec fn same_entries<M>(a: Entries<M>, b: Entries<M>) -> bool {
    as_map(a) == as_map(b)
}

impl StrMap<String> {
    /// Whether every entry of `self` is in `other` with the same value.
    fn included_in(&self, other: &StrMap<String>) -> (r: bool)
        ensures
            r == forall|k: Seq<char>| has_key(self.model(), k) ==> has_key(other.model(), k)
                && lookup(self.model(), k) == lookup(other.model(), k),
    {
        let n = self.len();
        let mut i: usize = 0;
        while i < n
            invariant
                n == self.model().len(),
                unique_keys(self.model()),
                i <= n,
                forall|j: int| 0 <= j < i ==> has_key(other.model(), #[trigger] self.model()[j].0)
                    && lookup(self.model(), self.model()[j].0) == lookup(other.model(), self.model()[j].0),
            decreases n - i,
        {
            let key = self.key_at(i);
            let value = self.value_at(i);
            proof {
                lemma_unique_key_index(self.model(), i as int);
                lemma_key_index(other.model(), key@);
            }
            match other.get(key) {
                Some(found) => {
                    if *found != *value {
                        return false;
                    }
                },
                None => {
                    return false;
                },
            }
            i = i + 1;
        }
        proof {
            assert forall|k: Seq<char>| has_key(self.model(), k) implies has_key(other.model(), k)
                && lookup(self.model(), k) == lookup(other.model(), k) by {
                let j = choose|j: int| 0 <= j < self.model().len() && self.model()[j].0 == k;
                assert(has_key(other.model(), self.model()[j].0));
            }
        }
        true
    }
}

impl PartialEq for StrMap<String> {
    fn eq(&self, other: &Self) -> (r: bool) {
        let r = self.included_in(other) && other.included_in(self);
        proof {
            if r {
                assert(as_map(self.model()) =~= as_map(other.model()));
            } else {
                if as_map(self.model()) == as_map(other.model()) {
                    assert forall|k: Seq<char>| has_key(self.model(), k) implies has_key(other.model(), k)
                        && lookup(self.model(), k) == lookup(other.model(), k) by {
                        assert(as_map(self.model()).contains_key(k));
                        lemma_key_index(self.model(), k);
                        lemma_key_index(other.model(), k);
                        assert(as_map(self.model())[k] == as_map(other.model())[k]);
                    }
                    assert forall|k: Seq<char>| has_key(other.model(), k) implies has_key(self.model(), k)
                        && lookup(other.model(), k) == lookup(self.model(), k) by {
                        assert(as_map(other.model()).contains_key(k));
                        lemma_key_index(self.model(), k);
                        lemma_key_index(other.model(), k);
                        assert(as_map(self.model())[k] == as_map(other.model())[k]);
                    }
                }
            }
        }
        r
    }
}

impl vstd::std_specs::cmp::PartialEqSpecImpl for StrMap<String> {
    open spec fn obeys_eq_spec() -> bool {
        true
    }

    open spec fn eq_spec(&self, other: &StrMap<String>) -> bool {
        same_entries(self.model(), other.model())
    }
}

} // verus!
