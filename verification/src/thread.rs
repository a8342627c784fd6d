//! Values shared between the parts of a definition.
use vstd::prelude::*;
use std::sync::Arc;
use crate::model::Model;

verus! {

/// A value shared by several owners; a copy of the handle shares the same value.
pub type Readonly<T> = Arc<T>;

/// Shares `value`.
pub fn readonly<T>(value: T) -> (r: Readonly<T>)
    ensures
        *r == value,
{
    Arc::new(value)
}

/// The errors of the parallel work on definitions.
pub enum ThreadError {
    Poison,
    Join,
}

/// Reading a copy of a shared value.
pub trait Read<T> {
    fn read_ref_or_default(&self) -> T;

    fn read_or_default(self) -> T;
}

impl<T: Model> Read<T> for Readonly<T> {
    /// A copy of the shared value.
    fn read_ref_or_default(&self) -> (r: T)
        ensures
            r.model() == (**self).model(),
    {
        (**self).duplicate()
    }

    /// A copy of the shared value.
    fn read_or_default(self) -> (r: T)
        ensures
            r.model() == (*self).model(),
    {
        (*self).duplicate()
    }
}

} // verus!
