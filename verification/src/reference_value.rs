//! Values given in place or by reference to a shared value, possibly not yet resolved.
use vstd::prelude::*;
use crate::model::Model;
use crate::merge::Merge;
use crate::thread::{Readonly, readonly};
use crate::strmap::{StrMap, Entries, same_entries};

verus! {

/// A value together with the reference it was found under.
#[derive(Debug, Clone)]
pub struct ReferencedValue<T> {
    pub reference: String,
    pub value: T,
}

impl<T: Model> Model for ReferencedValue<T> {
    type M = (Seq<char>, T::M);

    open spec fn model(&self) -> (Seq<char>, T::M) {
        (self.reference@, self.value.model())
    }

    fn duplicate(&self) -> (r: Self) {
        ReferencedValue { reference: self.reference.clone(), value: self.value.duplicate() }
    }
}

/// Merging referenced values: the reference is the other's, the values merge.
impl<T: Merge> Merge for ReferencedValue<T> {
    open spec fn merged(a: (Seq<char>, T::M), b: (Seq<char>, T::M), r: (Seq<char>, T::M)) -> bool {
        r.0 == b.0 && T::merged(a.1, b.1, r.1)
    }

    fn merge(&mut self, other: &Self) {
        let ghost a = self.model();
        self.reference = other.reference.clone();
        self.value.merge(&other.value);
        assert(Self::merged(a, other.model(), self.model()));
    }
}

/// The model of a value that is given by reference, in place, or only named.
pub enum RefModel<T, M> {
    /// Named by a reference that is not resolved.
    Ref(Seq<char>),
    /// Found under a reference: the reference and the shared value.
    Referenced(Seq<char>, Readonly<T>),
    /// Given in place.
    Value(M),
}

/// A value given by reference to a shared value, or in place.
#[derive(Debug, Clone)]
pub enum RefOrValue<T> {
    ReferencedValue(ReferencedValue<Readonly<T>>),
    Value(T),
}

/// A value that is named by a reference not resolved yet, found by reference, or given in
/// place.
#[derive(Debug, Clone)]
pub enum LazyRefOrValue<T> {
    Ref(String),
    ReferencedValue(ReferencedValue<Readonly<T>>),
    Value(T),
}

/// A shared value that is named by a reference not resolved yet, or found by reference.
#[derive(Debug, Clone)]
pub enum LazyRef<T> {
    Ref(String),
    ReferencedValue(ReferencedValue<Readonly<T>>),
}

impl<T: Model> Model for RefOrValue<T> {
    type M = RefModel<T, T::M>;

    open spec fn model(&self) -> RefModel<T, T::M> {
        match self {
            RefOrValue::ReferencedValue(rv) => RefModel::Referenced(rv.reference@, rv.value),
            RefOrValue::Value(v) => RefModel::Value(v.model()),
        }
    }

    fn duplicate(&self) -> (r: Self) {
        match self {
            RefOrValue::ReferencedValue(rv) => RefOrValue::ReferencedValue(
                ReferencedValue { reference: rv.reference.clone(), value: rv.value.duplicate() },
            ),
            RefOrValue::Value(v) => RefOrValue::Value(v.duplicate()),
        }
    }
}

impl<T: Model> Model for LazyRefOrValue<T> {
    type M = RefModel<T, T::M>;

    open spec fn model(&self) -> RefModel<T, T::M> {
        match self {
            LazyRefOrValue::Ref(reference) => RefModel::Ref(reference@),
            LazyRefOrValue::ReferencedValue(rv) => RefModel::Referenced(rv.reference@, rv.value),
            LazyRefOrValue::Value(v) => RefModel::Value(v.model()),
        }
    }

    fn duplicate(&self) -> (r: Self) {
        match self {
            LazyRefOrValue::Ref(reference) => LazyRefOrValue::Ref(reference.clone()),
            LazyRefOrValue::ReferencedValue(rv) => LazyRefOrValue::ReferencedValue(
                ReferencedValue { reference: rv.reference.clone(), value: rv.value.duplicate() },
            ),
            LazyRefOrValue::Value(v) => LazyRefOrValue::Value(v.duplicate()),
        }
    }
}

impl<T> Model for LazyRef<T> {
    type M = RefModel<T, ()>;

    open spec fn model(&self) -> RefModel<T, ()> {
        match self {
            LazyRef::Ref(reference) => RefModel::Ref(reference@),
            LazyRef::ReferencedValue(rv) => RefModel::Referenced(rv.reference@, rv.value),
        }
    }

    fn duplicate(&self) -> (r: Self) {
        match self {
            LazyRef::Ref(reference) => LazyRef::Ref(reference.clone()),
            LazyRef::ReferencedValue(rv) => LazyRef::ReferencedValue(
                ReferencedValue { reference: rv.reference.clone(), value: rv.value.duplicate() },
            ),
        }
    }
}

/// The value a model stands for, when there is one: the shared value's or the value in place.
pub open spec fn model_value<T: Model>(m: RefModel<T, T::M>) -> Option<T::M> {
    match m {
        RefModel::Ref(_) => None,
        RefModel::Referenced(_, shared) => Some((*shared).model()),
        RefModel::Value(v) => Some(v),
    }
}

/// The reference a model names, when there is one.
pub open spec fn model_reference<T, M>(m: RefModel<T, M>) -> Option<Seq<char>> {
    match m {
        RefModel::Ref(reference) => Some(reference),
        RefModel::Referenced(reference, _) => Some(reference),
        RefModel::Value(_) => None,
    }
}

/// `r` is what merging `b` into `a` gives: a reference is renamed by the other's reference,
/// a shared value takes in a value merged into it, a value in place merged with a shared
/// value becomes a new shared value under the other's reference, and an unresolved
/// reference takes whatever the other holds.
pub open spec fn ref_merged<T: Merge>(a: RefModel<T, T::M>, b: RefModel<T, T::M>, r: RefModel<T, T::M>) -> bool {
    match (a, b) {
        (RefModel::Ref(_), RefModel::Ref(rb)) => r == RefModel::<T, T::M>::Ref(rb),
        (RefModel::Ref(_), RefModel::Referenced(rb, pb)) => r == RefModel::<T, T::M>::Referenced(rb, pb),
        (RefModel::Ref(_), RefModel::Value(vb)) => r == RefModel::<T, T::M>::Value(vb),
        (RefModel::Referenced(_, pa), RefModel::Ref(rb)) => r == RefModel::<T, T::M>::Referenced(rb, pa),
        (RefModel::Referenced(_, pa), RefModel::Referenced(rb, pb)) => match r {
            RefModel::Referenced(rr, pr) => rr == rb && <Readonly<T> as Merge>::merged(pa, pb, pr),
            _ => false,
        },
        (RefModel::Referenced(ra, pa), RefModel::Value(vb)) => match r {
            RefModel::Referenced(rr, pr) => rr == ra && T::merged((*pa).model(), vb, (*pr).model()),
            _ => false,
        },
        (RefModel::Value(_), RefModel::Ref(_)) => r == a,
        (RefModel::Value(va), RefModel::Referenced(rb, pb)) => match r {
            RefModel::Referenced(rr, pr) => rr == rb && T::merged(va, (*pb).model(), (*pr).model()),
            _ => false,
        },
        (RefModel::Value(va), RefModel::Value(vb)) => match r {
            RefModel::Value(vr) => T::merged(va, vb, vr),
            _ => false,
        },
    }
}

/// Merges `value` into the shared value behind `rv`: the handle is replaced by one to the
/// merged value, under the same reference.
fn merge_into_shared<T: Merge>(rv: &mut ReferencedValue<Readonly<T>>, value: &T)
    ensures
        final(rv).reference@ == old(rv).reference@,
        T::merged((*old(rv).value).model(), value.model(), (*final(rv).value).model()),
{
    let mut merged = (*rv.value).duplicate();
    merged.merge(value);
    rv.value = readonly(merged);
}

/// A new shared value: `value` with the shared value behind `rv` merged into it, under
/// `rv`'s reference.
fn merge_from_shared<T: Merge>(value: &T, rv: &ReferencedValue<Readonly<T>>) -> (r: ReferencedValue<Readonly<T>>)
    ensures
        r.reference@ == rv.reference@,
        T::merged(value.model(), (*rv.value).model(), (*r.value).model()),
{
    let mut merged = value.duplicate();
    merged.merge(&*rv.value);
    ReferencedValue { reference: rv.reference.clone(), value: readonly(merged) }
}

impl<T: Merge> Merge for RefOrValue<T> {
    open spec fn merged(a: RefModel<T, T::M>, b: RefModel<T, T::M>, r: RefModel<T, T::M>) -> bool {
        ref_merged::<T>(a, b, r)
    }

    fn merge(&mut self, other: &Self) {
        match other {
            RefOrValue::ReferencedValue(rv2) => {
                let next = match self {
                    RefOrValue::ReferencedValue(rv1) => {
                        rv1.merge(rv2);
                        None
                    },
                    RefOrValue::Value(v1) => Some(merge_from_shared(v1, rv2)),
                };
                if let Some(rv) = next {
                    *self = RefOrValue::ReferencedValue(rv);
                }
            },
            RefOrValue::Value(v2) => match self {
                RefOrValue::ReferencedValue(rv1) => merge_into_shared(rv1, v2),
                RefOrValue::Value(v1) => v1.merge(v2),
            },
        }
    }
}

impl<T: Merge> Merge for LazyRefOrValue<T> {
    open spec fn merged(a: RefModel<T, T::M>, b: RefModel<T, T::M>, r: RefModel<T, T::M>) -> bool {
        ref_merged::<T>(a, b, r)
    }

    fn merge(&mut self, other: &Self) {
        match other {
            LazyRefOrValue::Ref(ref2) => match self {
                LazyRefOrValue::Ref(ref1) => {
                    *ref1 = ref2.clone();
                },
                LazyRefOrValue::ReferencedValue(rv1) => {
                    rv1.reference = ref2.clone();
                },
                LazyRefOrValue::Value(_) => {},
            },
            LazyRefOrValue::ReferencedValue(rv2) => {
                let next = match self {
                    LazyRefOrValue::Ref(_) => Some(
                        ReferencedValue { reference: rv2.reference.clone(), value: rv2.value.duplicate() },
                    ),
                    LazyRefOrValue::ReferencedValue(rv1) => {
                        rv1.merge(rv2);
                        None
                    },
                    LazyRefOrValue::Value(v1) => Some(merge_from_shared(v1, rv2)),
                };
                if let Some(rv) = next {
                    *self = LazyRefOrValue::ReferencedValue(rv);
                }
            },
            LazyRefOrValue::Value(v2) => {
                let next = match self {
                    LazyRefOrValue::Ref(_) => Some(v2.duplicate()),
                    LazyRefOrValue::ReferencedValue(rv1) => {
                        merge_into_shared(rv1, v2);
                        None
                    },
                    LazyRefOrValue::Value(v1) => {
                        v1.merge(v2);
                        None
                    },
                };
                if let Some(v) = next {
                    *self = LazyRefOrValue::Value(v);
                }
            },
        }
    }
}

/// Merging unresolved or shared references: a reference is renamed by the other's
/// reference, an unresolved reference takes the other's shared value, and two shared
/// values merge.
impl<T: Merge> Merge for LazyRef<T> {
    open spec fn merged(a: RefModel<T, ()>, b: RefModel<T, ()>, r: RefModel<T, ()>) -> bool {
        match (a, b) {
            (RefModel::Ref(_), RefModel::Ref(rb)) => r == RefModel::<T, ()>::Ref(rb),
            (RefModel::Ref(_), RefModel::Referenced(rb, pb)) => r == RefModel::<T, ()>::Referenced(rb, pb),
            (RefModel::Referenced(_, pa), RefModel::Ref(rb)) => r == RefModel::<T, ()>::Referenced(rb, pa),
            (RefModel::Referenced(_, pa), RefModel::Referenced(rb, pb)) => match r {
                RefModel::Referenced(rr, pr) => rr == rb && <Readonly<T> as Merge>::merged(pa, pb, pr),
                _ => false,
            },
            _ => r == a,
        }
    }

    fn merge(&mut self, other: &Self) {
        match other {
            LazyRef::Ref(ref2) => match self {
                LazyRef::Ref(ref1) => {
                    *ref1 = ref2.clone();
                },
                LazyRef::ReferencedValue(rv1) => {
                    rv1.reference = ref2.clone();
                },
            },
            LazyRef::ReferencedValue(rv2) => {
                let copy = match self {
                    LazyRef::Ref(_) => true,
                    LazyRef::ReferencedValue(rv1) => {
                        rv1.merge(rv2);
                        false
                    },
                };
                if copy {
                    *self = LazyRef::ReferencedValue(
                        ReferencedValue { reference: rv2.reference.clone(), value: rv2.value.duplicate() },
                    );
                }
            },
        }
    }
}

impl<T: Model> RefOrValue<T> {
    /// A copy of the value: the shared value's, or the value in place.
    pub fn unwrap(&self) -> (r: T)
        ensures
            Some(r.model()) == model_value::<T>(self.model()),
    {
        match self {
            RefOrValue::ReferencedValue(rv) => (*rv.value).duplicate(),
            RefOrValue::Value(v) => v.duplicate(),
        }
    }
}

impl<T: Model> LazyRefOrValue<T> {
    /// A copy of the value, when it is known: the shared value's or the value in place.
    pub fn value(&self) -> (r: Option<T>)
        ensures
            match r {
                Some(v) => model_value::<T>(self.model()) == Some(v.model()),
                None => model_value::<T>(self.model()) is None,
            },
    {
        match self {
            LazyRefOrValue::Ref(_) => None,
            LazyRefOrValue::ReferencedValue(rv) => Some((*rv.value).duplicate()),
            LazyRefOrValue::Value(v) => Some(v.duplicate()),
        }
    }

    /// The reference the value is named by, when it has one.
    pub fn reference(&self) -> (r: Option<String>)
        ensures
            match r {
                Some(reference) => model_reference(self.model()) == Some(reference@),
                None => model_reference(self.model()) is None,
            },
    {
        match self {
            LazyRefOrValue::Ref(reference) => Some(reference.clone()),
            LazyRefOrValue::ReferencedValue(rv) => Some(rv.reference.clone()),
            LazyRefOrValue::Value(_) => None,
        }
    }

    /// The shared `value` found under `reference`.
    pub fn to_referenced_value(reference: String, value: Readonly<T>) -> (r: LazyRefOrValue<T>)
        ensures
            r.model() == RefModel::<T, T::M>::Referenced(reference@, value),
    {
        LazyRefOrValue::ReferencedValue(ReferencedValue { reference, value })
    }

    /// The shared value, when the value was found by reference.
    pub fn referenced_value(&self) -> (r: Option<Readonly<T>>)
        ensures
            match self.model() {
                RefModel::Referenced(_, shared) => r == Some(shared),
                _ => r is None,
            },
    {
        match self {
            LazyRefOrValue::ReferencedValue(rv) => Some(rv.value.duplicate()),
            _ => None,
        }
    }

    /// The value as resolved: `None` while the reference is not resolved.
    pub fn to_ref_or_value(&self) -> (r: Option<RefOrValue<T>>)
        ensures
            match self.model() {
                RefModel::Ref(_) => r is None,
                _ => r is Some && r->0.model() == self.model(),
            },
    {
        match self {
            LazyRefOrValue::Ref(_) => None,
            LazyRefOrValue::ReferencedValue(rv) => Some(RefOrValue::ReferencedValue(
                ReferencedValue { reference: rv.reference.clone(), value: rv.value.duplicate() },
            )),
            LazyRefOrValue::Value(v) => Some(RefOrValue::Value(v.duplicate())),
        }
    }
}

impl<T: Model + Default> LazyRefOrValue<T> {
    /// The value as resolved, with the default value in place of a reference that is not
    /// resolved.
    pub fn into_ref_or_value(self) -> (r: RefOrValue<T>)
        ensures
            match self.model() {
                RefModel::Ref(_) => r is Value && call_ensures(T::default, (), r->Value_0),
                _ => r.model() == self.model(),
            },
    {
        match self {
            LazyRefOrValue::Ref(_) => RefOrValue::Value(T::default()),
            LazyRefOrValue::ReferencedValue(rv) => RefOrValue::ReferencedValue(rv),
            LazyRefOrValue::Value(v) => RefOrValue::Value(v),
        }
    }
}

impl<T> LazyRef<T> {
    /// The shared `value` found under `reference`.
    pub fn new_referenced_value(reference: String, value: Readonly<T>) -> (r: LazyRef<T>)
        ensures
            r.model() == RefModel::<T, ()>::Referenced(reference@, value),
    {
        LazyRef::ReferencedValue(ReferencedValue { reference, value })
    }

    /// A copy of the reference and the shared value, when the reference is resolved.
    pub fn referenced_value(&self) -> (r: Option<ReferencedValue<Readonly<T>>>)
        ensures
            match self.model() {
                RefModel::Referenced(reference, shared) => r is Some && r->0.reference@ == reference
                    && r->0.value == shared,
                _ => r is None,
            },
    {
        match self {
            LazyRef::ReferencedValue(rv) => Some(
                ReferencedValue { reference: rv.reference.clone(), value: rv.value.duplicate() },
            ),
            LazyRef::Ref(_) => None,
        }
    }

    /// The reference.
    pub fn reference(&self) -> (r: String)
        ensures
            Some(r@) == model_reference(self.model()),
    {
        match self {
            LazyRef::Ref(reference) => reference.clone(),
            LazyRef::ReferencedValue(rv) => rv.reference.clone(),
        }
    }
}

/// Two models stand for the same thing: equal values in place, or the same reference,
/// resolved or not. Shared values are told apart by their reference alone.
pub open spec fn same_ref_model<T, M>(a: RefModel<T, M>, b: RefModel<T, M>, values_match: spec_fn(M, M) -> bool) -> bool {
    match (a, b) {
        (RefModel::Value(x), RefModel::Value(y)) => values_match(x, y),
        (RefModel::Ref(x), RefModel::Ref(y)) => x == y,
        (RefModel::Referenced(x, _), RefModel::Referenced(y, _)) => x == y,
        _ => false,
    }
}

/// Argument lists in place match when they are equal.
pub open spec fn same_arguments(a: RefModel<Vec<String>, Seq<Seq<char>>>, b: RefModel<Vec<String>, Seq<Seq<char>>>) -> bool {
    same_ref_model(a, b, |x: Seq<Seq<char>>, y: Seq<Seq<char>>| x == y)
}

/// Environments in place match when they hold the same variables with the same values.
pub open spec fn same_environments(a: RefModel<StrMap<String>, Entries<Seq<char>>>, b: RefModel<StrMap<String>, Entries<Seq<char>>>) -> bool {
    same_ref_model(a, b, |x: Entries<Seq<char>>, y: Entries<Seq<char>>| same_entries(x, y))
}

/// Whether two lists of strings are equal.
pub fn strings_equal(a: &Vec<String>, b: &Vec<String>) -> (r: bool)
    ensures
        r == (a.model() == b.model()),
{
    if a.len() != b.len() {
        assert(a.model().len() != b.model().len());
        return false;
    }
    let mut i: usize = 0;
    while i < a.len()
        invariant
            a@.len() == b@.len(),
            i <= a@.len(),
            forall|j: int| 0 <= j < i ==> a@[j]@ == b@[j]@,
        decreases a.len() - i,
    {
        if a[i] != b[i] {
            assert(a.model()[i as int] != b.model()[i as int]);
            return false;
        }
        i = i + 1;
    }
    assert(a.model() =~= b.model());
    true
}

impl PartialEq for LazyRefOrValue<Vec<String>> {
    fn eq(&self, other: &Self) -> (r: bool) {
        match (self, other) {
            (LazyRefOrValue::Value(l0), LazyRefOrValue::Value(r0)) => strings_equal(l0, r0),
            (LazyRefOrValue::Ref(l0), LazyRefOrValue::Ref(r0)) => *l0 == *r0,
            (LazyRefOrValue::ReferencedValue(l0), LazyRefOrValue::ReferencedValue(r0)) => l0.reference == r0.reference,
            _ => false,
        }
    }
}

impl vstd::std_specs::cmp::PartialEqSpecImpl for LazyRefOrValue<Vec<String>> {
    open spec fn obeys_eq_spec() -> bool {
        true
    }

    open spec fn eq_spec(&self, other: &LazyRefOrValue<Vec<String>>) -> bool {
        same_arguments(self.model(), other.model())
    }
}

impl PartialEq for LazyRefOrValue<StrMap<String>> {
    fn eq(&self, other: &Self) -> (r: bool) {
        match (self, other) {
            (LazyRefOrValue::Value(l0), LazyRefOrValue::Value(r0)) => *l0 == *r0,
            (LazyRefOrValue::Ref(l0), LazyRefOrValue::Ref(r0)) => *l0 == *r0,
            (LazyRefOrValue::ReferencedValue(l0), LazyRefOrValue::ReferencedValue(r0)) => l0.reference == r0.reference,
            _ => false,
        }
    }
}

impl vstd::std_specs::cmp::PartialEqSpecImpl for LazyRefOrValue<StrMap<String>> {
    open spec fn obeys_eq_spec() -> bool {
        true
    }

    open spec fn eq_spec(&self, other: &LazyRefOrValue<StrMap<String>>) -> bool {
        same_environments(self.model(), other.model())
    }
}

impl PartialEq for RefOrValue<Vec<String>> {
    fn eq(&self, other: &Self) -> (r: bool) {
        match (self, other) {
            (RefOrValue::Value(l0), RefOrValue::Value(r0)) => strings_equal(l0, r0),
            (RefOrValue::ReferencedValue(l0), RefOrValue::ReferencedValue(r0)) => l0.reference == r0.reference,
            _ => false,
        }
    }
}

impl vstd::std_specs::cmp::PartialEqSpecImpl for RefOrValue<Vec<String>> {
    open spec fn obeys_eq_spec() -> bool {
        true
    }

    open spec fn eq_spec(&self, other: &RefOrValue<Vec<String>>) -> bool {
        same_arguments(self.model(), other.model())
    }
}

impl PartialEq for RefOrValue<StrMap<String>> {
    fn eq(&self, other: &Self) -> (r: bool) {
        match (self, other) {
            (RefOrValue::Value(l0), RefOrValue::Value(r0)) => *l0 == *r0,
            (RefOrValue::ReferencedValue(l0), RefOrValue::ReferencedValue(r0)) => l0.reference == r0.reference,
            _ => false,
        }
    }
}

impl vstd::std_specs::cmp::PartialEqSpecImpl for RefOrValue<StrMap<String>> {
    open spec fn obeys_eq_spec() -> bool {
        true
    }

    open spec fn eq_spec(&self, other: &RefOrValue<StrMap<String>>) -> bool {
        same_environments(self.model(), other.model())
    }
}

impl<T> PartialEq for LazyRef<T> {
    fn eq(&self, other: &Self) -> (r: bool) {
        match (self, other) {
            (LazyRef::Ref(l0), LazyRef::Ref(r0)) => *l0 == *r0,
            (LazyRef::ReferencedValue(l0), LazyRef::ReferencedValue(r0)) => l0.reference == r0.reference,
            _ => false,
        }
    }
}

impl<T> vstd::std_specs::cmp::PartialEqSpecImpl for LazyRef<T> {
    open spec fn obeys_eq_spec() -> bool {
        true
    }

    open spec fn eq_spec(&self, other: &LazyRef<T>) -> bool {
        same_ref_model(self.model(), other.model(), |x: (), y: ()| true)
    }
}

impl<T> PartialEq for ReferencedValue<Readonly<T>> {
    fn eq(&self, other: &Self) -> (r: bool) {
        self.reference == other.reference
    }
}

impl<T> vstd::std_specs::cmp::PartialEqSpecImpl for ReferencedValue<Readonly<T>> {
    open spec fn obeys_eq_spec() -> bool {
        true
    }

    open spec fn eq_spec(&self, other: &ReferencedValue<Readonly<T>>) -> bool {
        self.reference@ == other.reference@
    }
}

} // verus!
