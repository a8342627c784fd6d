//! Merging one value into another, and filling what is missing.
use vstd::prelude::*;
use std::sync::Arc;
use crate::model::Model;
use crate::strmap::{StrMap, Entries, has_key, lookup, key_index, unique_keys, lemma_key_index};

verus! {

/// A value into which another value of its type can be merged.
pub trait Merge: Model {
    /// `r` is what merging `b` into `a` gives.
    spec fn merged(a: Self::M, b: Self::M, r: Self::M) -> bool;

    fn merge(&mut self, other: &Self)
        ensures
            Self::merged(old(self).model(), other.model(), final(self).model()),
    ;
}

/// A value that takes another value only where it has none.
pub trait Overwrite: Model {
    spec fn overwritten(a: Self::M, b: Self::M) -> Self::M;

    fn overwrite(&mut self, other: &Self)
        ensures
            final(self).model() == Self::overwritten(old(self).model(), other.model()),
    ;
}

/// Merging a string replaces it.
impl Merge for String {
    open spec fn merged(a: Seq<char>, b: Seq<char>, r: Seq<char>) -> bool {
        r == b
    }

    fn merge(&mut self, other: &Self) {
        *self = other.clone();
    }
}

/// Merging a vector appends a copy of the other vector.
impl<T: Model> Merge for Vec<T> {
    open spec fn merged(a: Seq<T::M>, b: Seq<T::M>, r: Seq<T::M>) -> bool {
        r == a + b
    }

    fn merge(&mut self, other: &Self) {
        let mut copy = other.duplicate();
        let ghost a = self.model();
        self.append(&mut copy);
        assert(self.model() =~= a + other.model());
        assert(Self::merged(a, other.model(), self.model()));
    }
}

/// Merging an option: a missing value takes the other one, two values merge, and a
/// missing other value changes nothing.
impl<T: Merge> Merge for Option<T> {
    open spec fn merged(a: Option<T::M>, b: Option<T::M>, r: Option<T::M>) -> bool {
        match (a, b) {
            (None, Some(y)) => r == Some(y),
            (Some(x), Some(y)) => r is Some && T::merged(x, y, r->0),
            _ => r == a,
        }
    }

    fn merge(&mut self, other: &Self) {
        match (self.as_mut(), other) {
            (None, Some(other_value)) => {
                *self = Some(other_value.duplicate());
            },
            (Some(value), Some(other_value)) => {
                value.merge(other_value);
            },
            _ => {},
        }
    }
}

/// Overwriting an option fills it only when it is empty.
impl<T: Model> Overwrite for Option<T> {
    open spec fn overwritten(a: Option<T::M>, b: Option<T::M>) -> Option<T::M> {
        match (a, b) {
            (None, Some(y)) => Some(y),
            _ => a,
        }
    }

    fn overwrite(&mut self, other: &Self) {
        match (self.as_ref(), other) {
            (None, Some(other_value)) => {
                *self = Some(other_value.duplicate());
            },
            _ => {},
        }
    }
}

/// `Arc::ptr_eq`: whether two handles point to one allocation. Handles to one
/// allocation hold the same value; which equal values share an allocation is not stated.
#[verifier::external_body]
pub(crate) fn same_allocation<T>(a: &Arc<T>, b: &Arc<T>) -> (r: bool)
    ensures
        r ==> *a == *b,
{
    Arc::ptr_eq(a, b)
}

/// Merging into a shared value: nothing happens when both handles share one allocation,
/// otherwise the handle is replaced by one to the merged value; other holders of the old
/// value keep it. Contracts see a shared value by what it holds, not by its allocation, so
/// `merged` says: the result is the merged value, or, where both hold equal values, it may
/// also be the value left as it was.
impl<T: Merge> Merge for Arc<T> {
    open spec fn merged(a: Arc<T>, b: Arc<T>, r: Arc<T>) -> bool {
        (a == b && r == a) || T::merged((*a).model(), (*b).model(), (*r).model())
    }

    fn merge(&mut self, other: &Self) {
        if same_allocation(self, other) {
            return;
        }
        let mut value = (**self).duplicate();
        value.merge(&**other);
        *self = Arc::new(value);
    }
}

/// The entries of `b` whose key is not in `a`, in their order.
pub open spec fn new_entries<M>(a: Entries<M>, b: Entries<M>) -> Entries<M> {
    b.filter(|e: (Seq<char>, M)| !has_key(a, e.0))
}

/// `r` is `a` merged with `b`: the entries of `a` keep their place, the value of a key that
/// `b` holds too is merged with `b`'s value, and the entries of `b` under new keys follow in
/// their order.
pub open spec fn entries_merged<V: Merge>(a: Entries<V::M>, b: Entries<V::M>, r: Entries<V::M>) -> bool {
    &&& r.len() == a.len() + new_entries(a, b).len()
    &&& forall|i: int|
        #![trigger r[i]]
        0 <= i < a.len() ==> r[i].0 == a[i].0 && (if has_key(b, a[i].0) {
            V::merged(a[i].1, lookup(b, a[i].0)->0, r[i].1)
        } else {
            r[i].1 == a[i].1
        })
    &&& r.subrange(a.len() as int, r.len() as int) == new_entries(a, b)
}

proof fn lemma_filter_push<A>(s: Seq<A>, pred: spec_fn(A) -> bool, e: A)
    ensures
        pred(e) ==> s.push(e).filter(pred) == s.filter(pred).push(e),
        !pred(e) ==> s.push(e).filter(pred) == s.filter(pred),
{
    reveal(Seq::filter);
    assert(s.push(e).drop_last() =~= s);
}

/// Merging a map merges the values of shared keys and adds the other entries.
impl<V: Merge> Merge for StrMap<V> {
    open spec fn merged(a: Entries<V::M>, b: Entries<V::M>, r: Entries<V::M>) -> bool {
        entries_merged::<V>(a, b, r)
    }

    fn merge(&mut self, other: &Self) {
        let ghost a = self.model();
        let ghost b = other.model();
        let n = other.len();
        let _ = self.len();
        let mut i: usize = 0;
        assert(b.take(0) =~= Seq::<(Seq<char>, V::M)>::empty());
        assert(new_entries(a, b.take(0)) =~= Seq::<(Seq<char>, V::M)>::empty()) by {
            reveal(Seq::filter);
        }
        assert(self.model().subrange(a.len() as int, a.len() as int) =~= Seq::<(Seq<char>, V::M)>::empty());
        while i < n
            invariant
                n == b.len(),
                i <= n,
                b == other.model(),
                unique_keys(a),
                unique_keys(b),
                unique_keys(self.model()),
                entries_merged::<V>(a, b.take(i as int), self.model()),
            decreases n - i,
        {
            let key = other.key_at(i);
            let value = other.value_at(i);
            let ghost cur = self.model();
            let ghost k = b[i as int].0;
            let ghost bi = b.take(i as int);
            let ghost bn = b.take(i + 1);
            assert(bn =~= bi.push(b[i as int]));
            assert(!has_key(bi, k)) by {
                if has_key(bi, k) {
                    let j = choose|j: int| 0 <= j < bi.len() && bi[j].0 == k;
                    assert(b[j].0 == b[i as int].0);
                }
            }
            proof {
                lemma_key_index(a, k);
                lemma_key_index(cur, k);
                lemma_key_index(bn, k);
                lemma_filter_push(bi, |e: (Seq<char>, V::M)| !has_key(a, e.0), b[i as int]);
            }
            // a key of `b` is in the merged map exactly when it is in `a`
            assert(has_key(cur, k) == has_key(a, k)) by {
                if has_key(cur, k) && !has_key(a, k) {
                    let j = choose|j: int| 0 <= j < cur.len() && cur[j].0 == k;
                    if j < a.len() {
                        assert(cur[j].0 == a[j].0);
                    } else {
                        assert(cur.subrange(a.len() as int, cur.len() as int)[j - a.len()] == cur[j]);
                        let ne = new_entries(a, bi);
                        assert(ne[j - a.len()].0 == k);
                        assert(ne.contains(ne[j - a.len()]));
                        bi.lemma_filter_contains_rev(|e: (Seq<char>, V::M)| !has_key(a, e.0), ne[j - a.len()]);
                    }
                }
                if has_key(a, k) {
                    let p = key_index(a, k);
                    assert(cur[p].0 == a[p].0);
                }
            }
            self.merge_at(key, value);
            proof {
                let next = self.model();
                if has_key(a, k) {
                    let p = key_index(a, k);
                    assert(lookup(bn, k) == Some(b[i as int].1));
                    assert forall|j: int| 0 <= j < a.len() implies #[trigger] next[j].0 == a[j].0 && (if has_key(bn, a[j].0) {
                        V::merged(a[j].1, lookup(bn, a[j].0)->0, next[j].1)
                    } else {
                        next[j].1 == a[j].1
                    }) by {
                        if j != p {
                            assert(a[j].0 != k);
                            assert(next[j] == cur[j]);
                            assert(has_key(bn, a[j].0) == has_key(bi, a[j].0));
                            if has_key(bi, a[j].0) {
                                lemma_key_index(bi, a[j].0);
                                lemma_key_index(bn, a[j].0);
                                assert(lookup(bn, a[j].0) == lookup(bi, a[j].0));
                            }
                        } else {
                            assert(next[j].0 == a[j].0);
                        }
                    }
                    assert(next.subrange(a.len() as int, next.len() as int) =~= cur.subrange(a.len() as int, cur.len() as int));
                } else {
                    assert forall|j: int| 0 <= j < a.len() implies #[trigger] next[j].0 == a[j].0 && (if has_key(bn, a[j].0) {
                        V::merged(a[j].1, lookup(bn, a[j].0)->0, next[j].1)
                    } else {
                        next[j].1 == a[j].1
                    }) by {
                        assert(a[j].0 != k);
                        assert(next[j] == cur[j]);
                        assert(has_key(bn, a[j].0) == has_key(bi, a[j].0));
                        if has_key(bi, a[j].0) {
                            lemma_key_index(bi, a[j].0);
                            lemma_key_index(bn, a[j].0);
                            assert(lookup(bn, a[j].0) == lookup(bi, a[j].0));
                        }
                    }
                    assert(next.subrange(a.len() as int, next.len() as int) =~= cur.subrange(a.len() as int, cur.len() as int).push(b[i as int]));
                }
            }
            i = i + 1;
        }
        assert(b.take(n as int) =~= b);
    }
}

impl<V: Merge> StrMap<V> {
    /// Merges `value` into the value stored under `key`, or stores a copy of it under a new key.
    pub fn merge_at(&mut self, key: &String, value: &V)
        ensures
            ({
                let a = old(self).model();
                let r = final(self).model();
                let p = key_index(a, key@);
                if p >= 0 {
                    &&& r.len() == a.len()
                    &&& r[p].0 == key@
                    &&& V::merged(a[p].1, value.model(), r[p].1)
                    &&& forall|j: int| 0 <= j < a.len() && j != p ==> r[j] == a[j]
                } else {
                    r == a.push((key@, value.model()))
                }
            }),
    {
        let ghost a = self.model();
        let _ = self.len();
        proof {
            lemma_key_index(a, key@);
        }
        match self.remove_entry(key) {
            Some((i, stored_key, mut stored)) => {
                stored.merge(value);
                proof {
                    assert(!has_key(self.model(), key@)) by {
                        if has_key(self.model(), key@) {
                            let j = choose|j: int| 0 <= j < self.model().len() && self.model()[j].0 == key@;
                            let j0 = if j < i { j } else { j + 1 };
                            assert(a[j0].0 == key@);
                        }
                    }
                }
                self.insert_entry(i, stored_key, stored);
                assert(self.model() =~= a.update(i as int, (key@, stored.model())));
            },
            None => {
                self.insert(key.clone(), value.duplicate());
            },
        }
    }
}

} // verus!
