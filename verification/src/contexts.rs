//! What a processor is told about the metadata and edge it runs for.
use vstd::prelude::*;
use crate::model::Model;
use crate::json::{JsonMap, JsonModel};
use crate::strmap::Entries;
use crate::thread::Readonly;
use crate::reference_value::{LazyRef, ReferencedValue, RefModel};
use crate::processor::{DraftProcessorOverride, DefinedProcessorOverride, DefinedProcessorOverrideModel, ProcessorOverrideModel};
use crate::definition::metadata::Metadata;

verus! {

/// The use of a processor that a possibly unresolved use resolves to: one whose processor
/// was found by reference.
pub open spec fn defined_override(p: <DraftProcessorOverride as Model>::M) -> Option<DefinedProcessorOverrideModel> {
    match p.processor {
        Some(RefModel::Referenced(reference, shared)) => Some(ProcessorOverrideModel {
            arguments: p.arguments,
            environments: p.environments,
            processor: (reference, shared),
        }),
        _ => None,
    }
}

impl DraftProcessorOverride {
    /// This use with its processor resolved; `None` when the processor is missing or not
    /// found yet.
    pub fn map(&self) -> (r: Option<DefinedProcessorOverride>)
        ensures
            match r {
                Some(d) => defined_override(self.model()) == Some(d.model()),
                None => defined_override(self.model()) is None,
            },
    {
        if let Some(inner_processor) = self.processor.as_ref() {
            if let LazyRef::ReferencedValue(inner_processor) = inner_processor {
                Some(DefinedProcessorOverride {
                    arguments: self.arguments.duplicate(),
                    environments: self.environments.duplicate(),
                    processor: ReferencedValue {
                        reference: inner_processor.reference.clone(),
                        value: inner_processor.value.duplicate(),
                    },
                })
            } else {
                None
            }
        } else {
            None
        }
    }
}

/// What a processor may write into: the metadata, the edge, or both.
#[derive(Debug, Clone, PartialEq, Eq, Structural)]
pub struct WritePermissionsDto {
    pub metadata: bool,
    pub edge: bool,
}

impl WritePermissionsDto {
    pub fn both() -> (r: Self)
        ensures
            r.metadata && r.edge,
    {
        Self { edge: true, metadata: true }
    }

    pub fn edge() -> (r: Self)
        ensures
            !r.metadata && r.edge,
    {
        Self { edge: true, metadata: false }
    }

    pub fn metadata() -> (r: Self)
        ensures
            r.metadata && !r.edge,
    {
        Self { edge: false, metadata: true }
    }
}

/// A named JSON object handed to a processor.
#[derive(Debug, Clone, PartialEq)]
pub struct ContextDto {
    pub name: String,
    pub value: JsonMap,
}

impl ContextDto {
    pub fn new(name: String, value: JsonMap) -> (r: Self)
        ensures
            r.name == name,
            r.value == value,
    {
        Self { name, value }
    }
}

/// What a processor is told: where the definition is, what it may write, the metadata,
/// the edge if it runs for one, and the processor's reference.
#[derive(Debug, Clone, PartialEq)]
pub struct DefinitionContextDto {
    pub location: Option<String>,
    pub write: WritePermissionsDto,
    pub metadata: ContextDto,
    pub edge: Option<ContextDto>,
    pub processor_reference: String,
}

/// A processor to run, with what it is told and the metadata its results go to.
#[derive(Debug)]
pub struct ProcessorContext {
    pub definition: DefinitionContextDto,
    pub processor: DefinedProcessorOverride,
    pub metadata: Readonly<Metadata>,
}

pub struct DefinitionContextModel {
    pub location: Option<Seq<char>>,
    pub write_metadata: bool,
    pub write_edge: bool,
    pub metadata: (Seq<char>, Entries<JsonModel>),
    pub edge: Option<(Seq<char>, Entries<JsonModel>)>,
    pub processor_reference: Seq<char>,
}

pub struct ProcessorContextModel {
    pub definition: DefinitionContextModel,
    pub processor: DefinedProcessorOverrideModel,
    pub metadata: Readonly<Metadata>,
}

impl ContextDto {
    pub open spec fn context_model(&self) -> (Seq<char>, Entries<JsonModel>) {
        (self.name@, self.value.model())
    }
}

impl DefinitionContextDto {
    pub open spec fn context_model(&self) -> DefinitionContextModel {
        DefinitionContextModel {
            location: self.location.model(),
            write_metadata: self.write.metadata,
            write_edge: self.write.edge,
            metadata: self.metadata.context_model(),
            edge: match self.edge {
                Some(edge) => Some(edge.context_model()),
                None => None,
            },
            processor_reference: self.processor_reference@,
        }
    }
}

/// The models of a list of processor contexts.
pub open spec fn contexts_model(v: Seq<ProcessorContext>) -> Seq<ProcessorContextModel> {
    v.map_values(|c: ProcessorContext| c.context_model())
}

impl ProcessorContext {
    pub open spec fn context_model(&self) -> ProcessorContextModel {
        ProcessorContextModel {
            definition: self.definition.context_model(),
            processor: self.processor.model(),
            metadata: self.metadata,
        }
    }
}

} // verus!
