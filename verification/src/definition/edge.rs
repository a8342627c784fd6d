//! Edges: what links a metadata to a processor and to the definition it leads to.
use vstd::prelude::*;
use crate::model::Model;
use crate::json::JsonMap;
use crate::strmap::Entries;
use crate::json::JsonModel;
use crate::cli::{DraftArguments, DraftEnvironments};
use crate::reference_value::{LazyRefOrValue, RefModel};
use crate::processor::{DraftProcessorOverride, ArgumentsModel, EnvironmentsModel};
use crate::definition::definition::{Definition, DefinitionModel};
use crate::definition::foreign_definition::ForeignDefinition;
use crate::thread::Readonly;

verus! {

/// An edge of a definition.
#[derive(Debug, Clone)]
pub struct Edge {
    pub definition: Option<Readonly<ForeignDefinition>>,
    pub processor: Option<DraftProcessorOverride>,
    pub other: JsonMap,
}

pub struct EdgeModel {
    pub definition: Option<Readonly<ForeignDefinition>>,
    pub processor: Option<<DraftProcessorOverride as Model>::M>,
    pub other: Entries<JsonModel>,
}

impl Model for Edge {
    type M = EdgeModel;

    open spec fn model(&self) -> EdgeModel {
        EdgeModel {
            definition: self.definition,
            processor: self.processor.model(),
            other: self.other.model(),
        }
    }

    fn duplicate(&self) -> (r: Self) {
        let definition = match &self.definition {
            Some(d) => Some(d.duplicate()),
            None => None,
        };
        Edge { definition, processor: self.processor.duplicate(), other: self.other.duplicate() }
    }
}

/// The use of an edge by a metadata, with arguments, environments and a definition of its
/// own.
#[derive(Debug, Clone)]
pub struct EdgeOverride {
    pub arguments: Vec<DraftArguments>,
    pub environments: Vec<DraftEnvironments>,
    pub edge: LazyRefOrValue<Edge>,
    pub other: JsonMap,
    pub definition: Option<Definition>,
}

pub struct EdgeOverrideModel {
    pub arguments: Seq<ArgumentsModel>,
    pub environments: Seq<EnvironmentsModel>,
    pub edge: RefModel<Edge, EdgeModel>,
    pub other: Entries<JsonModel>,
    pub definition: Option<DefinitionModel>,
}

impl Model for EdgeOverride {
    type M = EdgeOverrideModel;

    open spec fn model(&self) -> EdgeOverrideModel {
        EdgeOverrideModel {
            arguments: self.arguments.model(),
            environments: self.environments.model(),
            edge: self.edge.model(),
            other: self.other.model(),
            definition: self.definition.model(),
        }
    }

    fn duplicate(&self) -> (r: Self) {
        EdgeOverride {
            arguments: self.arguments.duplicate(),
            environments: self.environments.duplicate(),
            edge: self.edge.duplicate(),
            other: self.other.duplicate(),
            definition: self.definition.duplicate(),
        }
    }
}

impl EdgeOverride {
    /// The use of `edge` with nothing of its own.
    pub fn edge(edge: LazyRefOrValue<Edge>) -> (r: Self)
        ensures
            r.model() == (EdgeOverrideModel {
                arguments: Seq::empty(),
                environments: Seq::empty(),
                edge: edge.model(),
                other: Seq::empty(),
                definition: None,
            }),
    {
        let r = EdgeOverride {
            arguments: Vec::new(),
            definition: None,
            edge,
            environments: Vec::new(),
            other: JsonMap::new(),
        };
        assert(r.arguments.model() =~= Seq::<ArgumentsModel>::empty());
        assert(r.environments.model() =~= Seq::<EnvironmentsModel>::empty());
        r
    }
}

} // verus!
