//! The arguments and environments that a program is run with.
use vstd::prelude::*;
use crate::reference_value::{RefOrValue, LazyRefOrValue};
use crate::strmap::StrMap;

verus! {

/// Arguments given in place or by reference.
pub type Arguments = RefOrValue<Vec<String>>;

/// Environment variables given in place or by reference.
pub type Environment = RefOrValue<StrMap<String>>;

/// Arguments given in place, by reference, or named by a reference not resolved yet.
pub type DraftArguments = LazyRefOrValue<Vec<String>>;

/// Environment variables given in place, by reference, or named by a reference not
/// resolved yet.
pub type DraftEnvironments = LazyRefOrValue<StrMap<String>>;

} // verus!
