//! Converting every item of a list.
use vstd::prelude::*;

verus! {

/// `d` is what converting a clone of `s` gives.
pub open spec fn converted_from<S: Clone, D: From<S>>(s: S, d: D) -> bool {
    exists|c: S| #[trigger] cloned::<S>(s, c) && call_ensures(D::from, (c,), d)
}

/// Each item of `source`, cloned and converted, in order.
pub fn map<S: Clone, D: From<S>>(source: &Vec<S>) -> (r: Vec<D>)
    ensures
        r@.len() == source@.len(),
        forall|i: int| 0 <= i < r@.len() ==> #[trigger] converted_from(source@[i], r@[i]),
{
    let mut converted: Vec<D> = Vec::new();
    let mut i: usize = 0;
    while i < source.len()
        invariant
            i <= source@.len(),
            converted@.len() == i,
            forall|j: int| 0 <= j < i ==> #[trigger] converted_from(source@[j], converted@[j]),
        decreases source.len() - i,
    {
        let copy = source[i].clone();
        let ghost c = copy;
        assert(cloned::<S>(source@[i as int], c));
        let item: D = copy.into();
        assert(converted_from(source@[i as int], item));
        let ghost before = converted@;
        converted.push(item);
        assert(forall|j: int| 0 <= j < i ==> converted@[j] == before[j]);
        i = i + 1;
    }
    converted
}

} // verus!
