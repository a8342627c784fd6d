//! Where a definition comes from.
use vstd::prelude::*;
use crate::model::Model;
use crate::merge::Merge;
use crate::json::{JsonValue, JsonModel, json_merge};
use crate::processor::{DraftProcessorOverride, DefinedProcessorOverride, DefinedProcessorOverrideModel};
use crate::contexts::defined_override;

verus! {

/// Where a definition comes from: a file, an identifier, a text, a value, or what a
/// processor prints.
#[derive(Debug, Clone)]
pub enum BaseDefinitionInput<TProcessor> {
    File(String),
    Id(String),
    Text(String),
    Value(JsonValue),
    Processor(TProcessor),
}

pub enum InputModel<P> {
    File(Seq<char>),
    Id(Seq<char>),
    Text(Seq<char>),
    Value(JsonModel),
    Processor(P),
}

impl<P: Model> Model for BaseDefinitionInput<P> {
    type M = InputModel<P::M>;

    open spec fn model(&self) -> InputModel<P::M> {
        match self {
            BaseDefinitionInput::File(s) => InputModel::File(s@),
            BaseDefinitionInput::Id(s) => InputModel::Id(s@),
            BaseDefinitionInput::Text(s) => InputModel::Text(s@),
            BaseDefinitionInput::Value(v) => InputModel::Value(v.model()),
            BaseDefinitionInput::Processor(p) => InputModel::Processor(p.model()),
        }
    }

    fn duplicate(&self) -> (r: Self) {
        match self {
            BaseDefinitionInput::File(s) => BaseDefinitionInput::File(s.clone()),
            BaseDefinitionInput::Id(s) => BaseDefinitionInput::Id(s.clone()),
            BaseDefinitionInput::Text(s) => BaseDefinitionInput::Text(s.clone()),
            BaseDefinitionInput::Value(v) => BaseDefinitionInput::Value(v.duplicate()),
            BaseDefinitionInput::Processor(p) => BaseDefinitionInput::Processor(p.duplicate()),
        }
    }
}

/// Merging inputs: two values merge, anything else is replaced by the other input.
impl<P: Model> Merge for BaseDefinitionInput<P> {
    open spec fn merged(a: InputModel<P::M>, b: InputModel<P::M>, r: InputModel<P::M>) -> bool {
        match (a, b) {
            (InputModel::Value(x), InputModel::Value(y)) => r == InputModel::<P::M>::Value(json_merge(x, y)),
            _ => r == b,
        }
    }

    fn merge(&mut self, other: &Self) {
        match (self, other) {
            (BaseDefinitionInput::Value(value), BaseDefinitionInput::Value(other_value)) => {
                value.merge(other_value);
            },
            (this, other) => {
                *this = other.duplicate();
            },
        }
    }
}

/// An input that may name a processor not resolved yet.
pub type DraftDefinitionInput = BaseDefinitionInput<DraftProcessorOverride>;

/// An input whose processor is resolved.
pub type DefinedDefinitionInput = BaseDefinitionInput<DefinedProcessorOverride>;

/// The input with its processor resolved: `None` when it names a processor that is missing
/// or not found yet.
pub open spec fn defined_input(input: InputModel<<DraftProcessorOverride as Model>::M>) -> Option<InputModel<DefinedProcessorOverrideModel>> {
    match input {
        InputModel::File(s) => Some(InputModel::File(s)),
        InputModel::Id(s) => Some(InputModel::Id(s)),
        InputModel::Text(s) => Some(InputModel::Text(s)),
        InputModel::Value(v) => Some(InputModel::Value(v)),
        InputModel::Processor(p) => match defined_override(p) {
            Some(d) => Some(InputModel::Processor(d)),
            None => None,
        },
    }
}

impl DraftDefinitionInput {
    /// This input with its processor resolved; `None` when its processor is missing or not
    /// found yet.
    pub fn to_defined(&self) -> (r: Option<DefinedDefinitionInput>)
        ensures
            r.model() == defined_input(self.model()),
    {
        match self {
            BaseDefinitionInput::File(file) => Some(BaseDefinitionInput::File(file.clone())),
            BaseDefinitionInput::Id(id) => Some(BaseDefinitionInput::Id(id.clone())),
            BaseDefinitionInput::Text(text) => Some(BaseDefinitionInput::Text(text.clone())),
            BaseDefinitionInput::Value(value) => Some(BaseDefinitionInput::Value(value.duplicate())),
            BaseDefinitionInput::Processor(processor) => match processor.map() {
                Some(defined) => Some(BaseDefinitionInput::Processor(defined)),
                None => None,
            },
        }
    }
}

} // verus!
