//! Environments as written, and as a definition holds them.
use vstd::prelude::*;
use crate::model::Model;
use crate::cli::DraftEnvironments;
use crate::reference_value::{LazyRefOrValue, RefModel};
use crate::processor::EnvironmentsModel;
use crate::dto::{EnvironmentDto, EnvironmentDtoModel};
use crate::definition::definition::Definition;
use crate::definition::finders::{find_by_path, item_found};

verus! {

/// The environment a written environment stands for in `definition`: the environment its
/// reference names when it is found, the unresolved reference otherwise, and the variables
/// written in place.
pub open spec fn read_environment(definition: Definition, environment: EnvironmentDtoModel) -> EnvironmentsModel {
    match environment {
        EnvironmentDtoModel::Reference(reference) => match item_found(find_by_path(definition, reference), |d: Definition| d.environments.model()) {
            Some(found) => RefModel::Referenced(reference, found),
            None => RefModel::Ref(reference),
        },
        EnvironmentDtoModel::Value(values) => RefModel::Value(values),
    }
}

/// An environment as written: a reference, resolved or not, is written as the reference.
pub open spec fn written_environment(environment: EnvironmentsModel) -> EnvironmentDtoModel {
    match environment {
        RefModel::Ref(reference) => EnvironmentDtoModel::Reference(reference),
        RefModel::Referenced(reference, _) => EnvironmentDtoModel::Reference(reference),
        RefModel::Value(values) => EnvironmentDtoModel::Value(values),
    }
}

/// The environments as written.
pub fn from_environments(environments: Vec<DraftEnvironments>) -> (r: Vec<EnvironmentDto>)
    ensures
        r.model() == environments.model().map_values(|e: EnvironmentsModel| written_environment(e)),
{
    let mut written: Vec<EnvironmentDto> = Vec::new();
    let mut i: usize = 0;
    while i < environments.len()
        invariant
            i <= environments@.len(),
            written@.len() == i,
            forall|j: int| 0 <= j < i ==> (#[trigger] written@[j]).model() == written_environment(environments@[j].model()),
        decreases environments.len() - i,
    {
        let environment = match &environments[i] {
            LazyRefOrValue::Ref(reference) => EnvironmentDto::Reference(reference.clone()),
            LazyRefOrValue::ReferencedValue(rv) => EnvironmentDto::Reference(rv.reference.clone()),
            LazyRefOrValue::Value(values) => EnvironmentDto::Value(values.duplicate()),
        };
        written.push(environment);
        i = i + 1;
    }
    assert(written.model() =~= environments.model().map_values(|e: EnvironmentsModel| written_environment(e)));
    written
}

/// The environments that the written `dto_environments` stand for in `definition`.
pub fn to_environments(dto_environments: &Vec<EnvironmentDto>, definition: &Definition) -> (r: Vec<DraftEnvironments>)
    ensures
        r.model() == dto_environments.model().map_values(|e: EnvironmentDtoModel| read_environment(*definition, e)),
{
    let mut environments: Vec<DraftEnvironments> = Vec::new();
    let mut i: usize = 0;
    while i < dto_environments.len()
        invariant
            i <= dto_environments@.len(),
            environments@.len() == i,
            forall|j: int| 0 <= j < i ==> (#[trigger] environments@[j]).model() == read_environment(*definition, dto_environments@[j].model()),
        decreases dto_environments.len() - i,
    {
        let read = match &dto_environments[i] {
            EnvironmentDto::Reference(reference) => match definition.find_environment(reference) {
                Some(found) => LazyRefOrValue::to_referenced_value(reference.clone(), found),
                None => LazyRefOrValue::Ref(reference.clone()),
            },
            EnvironmentDto::Value(values) => LazyRefOrValue::Value(values.duplicate()),
        };
        environments.push(read);
        i = i + 1;
    }
    assert(environments.model() =~= dto_environments.model().map_values(|e: EnvironmentDtoModel| read_environment(*definition, e)));
    environments
}

} // verus!
