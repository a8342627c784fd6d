//! Mathematical models of the library's values and verified copies of them.
use vstd::prelude::*;
use std::sync::Arc;

verus! {

/// A value with a mathematical model and a copy operation that keeps the model.
///
/// Shared handles (`Arc`) are modelled by themselves: copying a handle shares the
/// same value, it does not rebuild it.
pub trait Model: Sized {
    type M;

    spec fn model(&self) -> Self::M;

    fn duplicate(&self) -> (r: Self)
        ensures
            r.model() == self.model(),
    ;
}

impl Model for String {
    type M = Seq<char>;

    open spec fn model(&self) -> Seq<char> {
        self@
    }

    fn duplicate(&self) -> (r: Self) {
        self.clone()
    }
}

impl Model for bool {
    type M = bool;

    open spec fn model(&self) -> bool {
        *self
    }

    fn duplicate(&self) -> (r: Self) {
        *self
    }
}

impl<T> Model for Arc<T> {
    type M = Arc<T>;

    open spec fn model(&self) -> Arc<T> {
        *self
    }

    fn duplicate(&self) -> (r: Self) {
        Arc::clone(self)
    }
}

/// The model of a sequence of values, element by element.
pub open spec fn seq_model<T: Model>(s: Seq<T>) -> Seq<T::M> {
    s.map_values(|t: T| t.model())
}

impl<T: Model> Model for Vec<T> {
    type M = Seq<T::M>;

    open spec fn model(&self) -> Seq<T::M> {
        seq_model(self@)
    }

    fn duplicate(&self) -> (r: Self) {
        let mut r: Vec<T> = Vec::new();
        let mut i: usize = 0;
        while i < self.len()
            invariant
                i <= self.len(),
                r@.len() == i,
                forall|j: int| 0 <= j < i ==> #[trigger] r@[j].model() == self@[j].model(),
            decreases self.len() - i,
        {
            r.push(self[i].duplicate());
            i = i + 1;
        }
        assert(r.model() =~= self.model());
        r
    }
}

impl<T: Model> Model for Option<T> {
    type M = Option<T::M>;

    open spec fn model(&self) -> Option<T::M> {
        match self {
            Some(t) => Some(t.model()),
            None => None,
        }
    }

    fn duplicate(&self) -> (r: Self) {
        match self {
            Some(t) => Some(t.duplicate()),
            None => None,
        }
    }
}

} // verus!
