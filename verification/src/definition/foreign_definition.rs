//! A definition that an edge leads to: where it comes from and what was read from there.
use vstd::prelude::*;
use crate::model::Model;
use crate::definition::definition::{Definition, DefinitionModel};
use crate::definition::input::{DraftDefinitionInput, InputModel};
use crate::processor::{DraftProcessorOverride};

verus! {

/// A definition that an edge leads to.
#[derive(Debug, Clone)]
pub struct ForeignDefinition {
    pub input: Option<DraftDefinitionInput>,
    pub output: Option<Definition>,
}

pub struct ForeignDefinitionModel {
    pub input: Option<InputModel<<DraftProcessorOverride as Model>::M>>,
    pub output: Option<DefinitionModel>,
}

impl Model for ForeignDefinition {
    type M = ForeignDefinitionModel;

    open spec fn model(&self) -> ForeignDefinitionModel {
        ForeignDefinitionModel { input: self.input.model(), output: self.output.model() }
    }

    fn duplicate(&self) -> (r: Self) {
        ForeignDefinition { input: self.input.duplicate(), output: self.output.duplicate() }
    }
}

impl ForeignDefinition {
    /// A definition still to be read from `input`.
    pub fn input(input: DraftDefinitionInput) -> (r: Self)
        ensures
            r.model() == (ForeignDefinitionModel { input: Some(input.model()), output: None }),
            r.input == Some(input),
            r.output is None,
    {
        ForeignDefinition { input: Some(input), output: None }
    }

    /// A definition given as it is.
    pub fn output(output: Definition) -> (r: Self)
        ensures
            r.model() == (ForeignDefinitionModel { input: None, output: Some(output.model()) }),
            r.input is None,
            r.output == Some(output),
    {
        ForeignDefinition { input: None, output: Some(output) }
    }
}

} // verus!
