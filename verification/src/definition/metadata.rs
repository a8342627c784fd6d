//! Metadata: a node of a definition, with its edges, tags and processor.
use vstd::prelude::*;
use crate::model::Model;
use crate::json::{JsonMap, JsonModel};
use crate::strmap::{StrMap, Entries};
use crate::reference_value::{LazyRefOrValue, RefModel};
use crate::processor::DraftProcessorOverride;
use crate::definition::edge::{EdgeOverride, EdgeOverrideModel};
use crate::definition::tag::{RefTag, TagModel};

verus! {

/// A node of a definition.
#[derive(Debug, Clone)]
pub struct Metadata {
    pub edges: StrMap<EdgeOverride>,
    pub tags: StrMap<LazyRefOrValue<RefTag>>,
    pub other: JsonMap,
    pub processor: Option<DraftProcessorOverride>,
}

pub struct MetadataModel {
    pub edges: Entries<EdgeOverrideModel>,
    pub tags: Entries<RefModel<RefTag, (Seq<char>, TagModel)>>,
    pub other: Entries<JsonModel>,
    pub processor: Option<<DraftProcessorOverride as Model>::M>,
}

impl Model for Metadata {
    type M = MetadataModel;

    open spec fn model(&self) -> MetadataModel {
        MetadataModel {
            edges: self.edges.model(),
            tags: self.tags.model(),
            other: self.other.model(),
            processor: self.processor.model(),
        }
    }

    fn duplicate(&self) -> (r: Self) {
        Metadata {
            edges: self.edges.duplicate(),
            tags: self.tags.duplicate(),
            other: self.other.duplicate(),
            processor: self.processor.duplicate(),
        }
    }
}

} // verus!
