//! A definition and what it holds.
use vstd::prelude::*;
use crate::model::Model;
use crate::strmap::{StrMap, Entries};
use crate::thread::Readonly;
use crate::processor::Processor;
use crate::definition::metadata::Metadata;
use crate::definition::edge::Edge;
use crate::definition::tag::RefTag;
use crate::definition::foreign_definition::ForeignDefinition;
use crate::definition::edge::{EdgeOverride, EdgeOverrideModel};
use crate::definition::metadata::MetadataModel;
use crate::json::{JsonMap, JsonModel};
use crate::reference_value::{LazyRefOrValue, model_value};
use crate::processor::{DefinedProcessorOverride, DefinedProcessorOverrideModel, ProcessorOverrideModel, matching_defined_override};
use crate::contexts::{
    ContextDto, DefinitionContextDto, DefinitionContextModel, ProcessorContext, ProcessorContextModel,
    WritePermissionsDto, contexts_model, defined_override,
};

verus! {

/// A definition: its metadata, edges, tags, processors, arguments, environments, the
/// definitions its edges lead to, and the definition it was found in.
#[derive(Debug, Clone)]
pub struct Definition {
    pub parent: Option<Readonly<Definition>>,
    pub name: String,
    pub id: String,
    pub location: Option<String>,
    pub metadata: StrMap<Readonly<Metadata>>,
    pub edges: StrMap<Readonly<Edge>>,
    pub tags: StrMap<Readonly<RefTag>>,
    pub processors: StrMap<Readonly<Processor>>,
    pub arguments: StrMap<Readonly<Vec<String>>>,
    pub environments: StrMap<Readonly<StrMap<String>>>,
    pub foreign_definitions: StrMap<Readonly<ForeignDefinition>>,
}

pub struct DefinitionModel {
    pub parent: Option<Readonly<Definition>>,
    pub name: Seq<char>,
    pub id: Seq<char>,
    pub location: Option<Seq<char>>,
    pub metadata: Entries<Readonly<Metadata>>,
    pub edges: Entries<Readonly<Edge>>,
    pub tags: Entries<Readonly<RefTag>>,
    pub processors: Entries<Readonly<Processor>>,
    pub arguments: Entries<Readonly<Vec<String>>>,
    pub environments: Entries<Readonly<StrMap<String>>>,
    pub foreign_definitions: Entries<Readonly<ForeignDefinition>>,
}

impl Model for Definition {
    type M = DefinitionModel;

    open spec fn model(&self) -> DefinitionModel {
        DefinitionModel {
            parent: self.parent,
            name: self.name@,
            id: self.id@,
            location: self.location.model(),
            metadata: self.metadata.model(),
            edges: self.edges.model(),
            tags: self.tags.model(),
            processors: self.processors.model(),
            arguments: self.arguments.model(),
            environments: self.environments.model(),
            foreign_definitions: self.foreign_definitions.model(),
        }
    }

    fn duplicate(&self) -> (r: Self) {
        let parent = match &self.parent {
            Some(p) => Some(p.duplicate()),
            None => None,
        };
        Definition {
            parent,
            name: self.name.clone(),
            id: self.id.clone(),
            location: self.location.duplicate(),
            metadata: self.metadata.duplicate(),
            edges: self.edges.duplicate(),
            tags: self.tags.duplicate(),
            processors: self.processors.duplicate(),
            arguments: self.arguments.duplicate(),
            environments: self.environments.duplicate(),
            foreign_definitions: self.foreign_definitions.duplicate(),
        }
    }
}

/// What an edge of a metadata gives a processor: the edge's use of a processor, resolved,
/// with the arguments and environments of the metadata's use of the edge put first, and the
/// edge's JSON; none when the edge, its processor or the processor's reference is
/// not resolved.
pub open spec fn edge_context(eo: EdgeOverrideModel) -> Option<(DefinedProcessorOverrideModel, Entries<JsonModel>)> {
    match model_value::<Edge>(eo.edge) {
        Some(e) => match e.processor {
            Some(p) => match defined_override(p) {
                Some(d) => Some((
                    ProcessorOverrideModel {
                        arguments: eo.arguments + d.arguments,
                        environments: eo.environments + d.environments,
                        processor: d.processor,
                    },
                    e.other,
                )),
                None => None,
            },
            None => None,
        },
        None => None,
    }
}

/// The edges of a metadata that lead to a resolved processor, in order: the edge's name, its
/// JSON and the use of the processor.
pub open spec fn edge_contexts(edges: Entries<EdgeOverrideModel>) -> Seq<(Seq<char>, Entries<JsonModel>, DefinedProcessorOverrideModel)>
    decreases edges.len(),
{
    if edges.len() == 0 {
        Seq::empty()
    } else {
        let rest = edge_contexts(edges.drop_last());
        match edge_context(edges.last().1) {
            Some((p, other)) => rest.push((edges.last().0, other, p)),
            None => rest,
        }
    }
}

/// The metadata's own use of a processor, resolved.
pub open spec fn metadata_processor(m: MetadataModel) -> Option<DefinedProcessorOverrideModel> {
    match m.processor {
        Some(p) => defined_override(p),
        None => None,
    }
}

/// The context of a processor run for an edge of the metadata `metadata` named `key`: when
/// the metadata's own processor is the edge's, it runs once for both and may write both;
/// otherwise the edge's processor runs and may write the edge only.
pub open spec fn edge_processor_context(
    location: Option<Seq<char>>,
    key: Seq<char>,
    metadata: Readonly<Metadata>,
    ec: (Seq<char>, Entries<JsonModel>, DefinedProcessorOverrideModel),
) -> ProcessorContextModel {
    let m = (*metadata).model();
    let mp = metadata_processor(m);
    let both = mp is Some && matching_defined_override(mp->0, ec.2);
    ProcessorContextModel {
        definition: DefinitionContextModel {
            location,
            write_metadata: both,
            write_edge: true,
            metadata: (key, m.other),
            edge: Some((ec.0, ec.1)),
            processor_reference: ec.2.processor.0,
        },
        processor: if both { mp->0 } else { ec.2 },
        metadata,
    }
}

/// The processors to run for the metadata `metadata` named `key`: one per edge that leads to
/// a resolved processor, then, when none of them may write the metadata, the metadata's own
/// resolved processor, which may write the metadata only.
pub open spec fn metadata_contexts(location: Option<Seq<char>>, key: Seq<char>, metadata: Readonly<Metadata>) -> Seq<ProcessorContextModel> {
    let m = (*metadata).model();
    let edge_runs = edge_contexts(m.edges).map_values(
        |ec: (Seq<char>, Entries<JsonModel>, DefinedProcessorOverrideModel)| edge_processor_context(location, key, metadata, ec),
    );
    let mp = metadata_processor(m);
    if mp is Some && forall|i: int| 0 <= i < edge_runs.len() ==> !(#[trigger] edge_runs[i]).definition.write_metadata {
        edge_runs.push(ProcessorContextModel {
            definition: DefinitionContextModel {
                location,
                write_metadata: true,
                write_edge: false,
                metadata: (key, m.other),
                edge: None,
                processor_reference: mp->0.processor.0,
            },
            processor: mp->0,
            metadata,
        })
    } else {
        edge_runs
    }
}

/// The processors to run for a definition at `location` with the metadata `metadata`: those of
/// each metadata, one metadata after another.
pub open spec fn definition_contexts(location: Option<Seq<char>>, metadata: Entries<Readonly<Metadata>>) -> Seq<ProcessorContextModel>
    decreases metadata.len(),
{
    if metadata.len() == 0 {
        Seq::empty()
    } else {
        definition_contexts(location, metadata.drop_last()) + metadata_contexts(location, metadata.last().0, metadata.last().1)
    }
}

/// The edge's use of a processor, resolved, and the edge's JSON.
fn edge_context_of(eo: &EdgeOverride) -> (r: Option<(DefinedProcessorOverride, JsonMap)>)
    ensures
        match r {
            Some((p, other)) => edge_context(eo.model()) == Some((p.model(), other.model())),
            None => edge_context(eo.model()) is None,
        },
{
    let edge: &Edge = match &eo.edge {
        LazyRefOrValue::Ref(_) => {
            return None;
        },
        LazyRefOrValue::ReferencedValue(rv) => &*rv.value,
        LazyRefOrValue::Value(e) => e,
    };
    match &edge.processor {
        Some(p) => match p.map() {
            Some(d) => Some((d.with(eo.arguments.duplicate(), eo.environments.duplicate()), edge.other.clone())),
            None => None,
        },
        None => None,
    }
}

/// The processors to run for the metadata `metadata` named `key` of a definition at
/// `location`.
fn metadata_processors_contexts(location: &Option<String>, key: &String, metadata: &Readonly<Metadata>) -> (r: Vec<ProcessorContext>)
    ensures
        contexts_model(r@) == metadata_contexts(location.model(), key@, *metadata),
{
    let ghost loc = location.model();
    let ghost mv = *metadata;
    let m: &Metadata = &**metadata;
    let ghost mm = m.model();
    let mp = match &m.processor {
        Some(p) => p.map(),
        None => None,
    };
    assert(match mp {
        Some(d) => metadata_processor(mm) == Some(d.model()),
        None => metadata_processor(mm) is None,
    });
    let ghost edges = mm.edges;
    let n = m.edges.len();
    let mut contexts: Vec<ProcessorContext> = Vec::new();
    let mut i: usize = 0;
    assert(edges.take(0) =~= Seq::<(Seq<char>, EdgeOverrideModel)>::empty());
    assert(contexts_model(contexts@) =~= edge_contexts(edges.take(0)).map_values(
        |ec: (Seq<char>, Entries<JsonModel>, DefinedProcessorOverrideModel)| edge_processor_context(loc, key@, mv, ec),
    ));
    while i < n
        invariant
            n == edges.len(),
            i <= n,
            edges == m.edges.model(),
            mm == m.model(),
            mv == *metadata,
            *m == *mv,
            loc == location.model(),
            match mp {
                Some(d) => metadata_processor(mm) == Some(d.model()),
                None => metadata_processor(mm) is None,
            },
            contexts_model(contexts@) == edge_contexts(edges.take(i as int)).map_values(
                |ec: (Seq<char>, Entries<JsonModel>, DefinedProcessorOverrideModel)| edge_processor_context(loc, key@, mv, ec),
            ),
        decreases n - i,
    {
        let eo = m.edges.value_at(i);
        let edge_key = m.edges.key_at(i);
        assert(edges.take(i + 1).drop_last() =~= edges.take(i as int));
        assert(edges.take(i + 1).last() == edges[i as int]);
        let ghost before = contexts@;
        match edge_context_of(eo) {
            Some((p, other)) => {
                let ghost ec = (edge_key@, other.model(), p.model());
                let edge = ContextDto::new(edge_key.clone(), other);
                let metadata_context = ContextDto::new(key.clone(), m.other.clone());
                let both = match &mp {
                    Some(d) => *d == p,
                    None => false,
                };
                let reference = p.processor.reference.clone();
                let context = if both {
                    let d = match &mp {
                        Some(d) => d.duplicate(),
                        None => p,
                    };
                    ProcessorContext {
                        definition: DefinitionContextDto {
                            location: location.duplicate(),
                            write: WritePermissionsDto::both(),
                            metadata: metadata_context,
                            edge: Some(edge),
                            processor_reference: reference,
                        },
                        processor: d,
                        metadata: metadata.duplicate(),
                    }
                } else {
                    ProcessorContext {
                        definition: DefinitionContextDto {
                            location: location.duplicate(),
                            write: WritePermissionsDto::edge(),
                            metadata: metadata_context,
                            edge: Some(edge),
                            processor_reference: reference,
                        },
                        processor: p,
                        metadata: metadata.duplicate(),
                    }
                };
                contexts.push(context);
                assert(context.context_model() == edge_processor_context(loc, key@, mv, ec));
                assert(edge_contexts(edges.take(i + 1)) == edge_contexts(edges.take(i as int)).push(ec));
                assert(contexts@ == before.push(context));
                assert(contexts_model(contexts@) =~= contexts_model(before).push(context.context_model()));
            },
            None => {
                assert(edge_contexts(edges.take(i + 1)) == edge_contexts(edges.take(i as int)));
            },
        }
        assert(contexts_model(contexts@) =~= edge_contexts(edges.take(i + 1)).map_values(
            |ec: (Seq<char>, Entries<JsonModel>, DefinedProcessorOverrideModel)| edge_processor_context(loc, key@, mv, ec),
        ));
        i = i + 1;
    }
    assert(edges.take(n as int) =~= edges);
    let ghost edge_runs = contexts_model(contexts@);
    let mut metadata_written = false;
    let mut j: usize = 0;
    while j < contexts.len()
        invariant
            j <= contexts@.len(),
            edge_runs == contexts_model(contexts@),
            metadata_written == exists|x: int| 0 <= x < j && (#[trigger] edge_runs[x]).definition.write_metadata,
        decreases contexts.len() - j,
    {
        if contexts[j].definition.write.metadata {
            metadata_written = true;
        }
        assert(edge_runs[j as int] == contexts@[j as int].context_model());
        j = j + 1;
    }
    if !metadata_written {
        if let Some(d) = mp {
            let context = ProcessorContext {
                definition: DefinitionContextDto {
                    location: location.duplicate(),
                    write: WritePermissionsDto::metadata(),
                    metadata: ContextDto::new(key.clone(), m.other.clone()),
                    edge: None,
                    processor_reference: d.processor.reference.clone(),
                },
                processor: d,
                metadata: metadata.duplicate(),
            };
            contexts.push(context);
            assert(contexts_model(contexts@) =~= edge_runs.push(context.context_model()));
        }
    }
    contexts
}

impl Definition {
    /// The processors to run for this definition: for each metadata, one per edge that leads
    /// to a resolved processor, and the metadata's own processor when no edge's run covers it.
    pub fn processors_contexts(&self) -> (r: Vec<ProcessorContext>)
        ensures
            contexts_model(r@) == definition_contexts(self.location.model(), self.metadata.model()),
    {
        let ghost metadata = self.metadata.model();
        let ghost loc = self.location.model();
        let n = self.metadata.len();
        let mut all: Vec<ProcessorContext> = Vec::new();
        let mut i: usize = 0;
        assert(metadata.take(0) =~= Seq::<(Seq<char>, Readonly<Metadata>)>::empty());
        assert(contexts_model(all@) =~= Seq::<ProcessorContextModel>::empty());
        while i < n
            invariant
                n == metadata.len(),
                i <= n,
                metadata == self.metadata.model(),
                loc == self.location.model(),
                contexts_model(all@) == definition_contexts(loc, metadata.take(i as int)),
            decreases n - i,
        {
            let key = self.metadata.key_at(i);
            let value = self.metadata.value_at(i);
            let mut part = metadata_processors_contexts(&self.location, key, value);
            let ghost before = all@;
            let ghost added = part@;
            all.append(&mut part);
            assert(metadata.take(i + 1).drop_last() =~= metadata.take(i as int));
            assert(metadata.take(i + 1).last() == metadata[i as int]);
            assert(all@ == before + added);
            assert(contexts_model(all@) =~= contexts_model(before) + contexts_model(added));
            i = i + 1;
        }
        assert(metadata.take(n as int) =~= metadata);
        all
    }
}

} // verus!
