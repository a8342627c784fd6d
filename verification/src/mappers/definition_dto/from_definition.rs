//! A definition written back in its written form.
use vstd::prelude::*;
use crate::model::Model;
use crate::strmap::{StrMap, lookup, lemma_map_value_decreases};
use crate::thread::Readonly;
use crate::reference_value::{RefModel, model_reference};
use crate::processor::{Processor, ProcessorModel, InstallModel, DraftProcessorOverride, DraftProcessorOverrideModel, EnvironmentsModel};
use crate::definition::definition::Definition;
use crate::definition::metadata::Metadata;
use crate::definition::edge::{Edge, EdgeOverride};
use crate::definition::tag::{RefTag, TagModel};
use crate::dto::{
    DefinitionDto, DefinitionDtoModel, MetadataDto, MetadataDtoModel, MetadataEdge, MetadataEdgeModel, EdgeDto,
    EdgeDtoModel, ForeignDefinitionDto, ForeignDefinitionDtoModel, ProcessorDto, ProcessorDtoModel, InstallDto,
    InstallDtoModel, ProcessorOverrideDto, ProcessorOverrideDtoModel, ReferenceOrObjectDto, ReferenceOrObjectModel,
    TagDto, entries_model, definition_dto_model, metadata_dto_model, metadata_edge_model, edge_dto_model,
};
use crate::mappers::arguments::{written_arguments, from_arguments};
use crate::mappers::environments::{written_environment, from_environments};
use crate::mappers::tags::{written_tag, from_tags};

verus! {

broadcast use lemma_map_value_decreases;

/// A use of a processor as written: the reference of its processor, when it has one, and its
/// arguments and environments as written.
pub open spec fn written_processor_override(p: DraftProcessorOverrideModel) -> ProcessorOverrideDtoModel {
    ProcessorOverrideDtoModel {
        reference: match p.processor {
            Some(processor) => model_reference(processor),
            None => None,
        },
        arguments: written_arguments(p.arguments),
        environments: p.environments.map_values(|e: EnvironmentsModel| written_environment(e)),
    }
}

/// An install as written.
pub open spec fn written_install(install: InstallModel) -> InstallDtoModel {
    InstallDtoModel {
        program: install.program,
        arguments: written_arguments(install.arguments),
        environments: install.environments.map_values(|e: EnvironmentsModel| written_environment(e)),
        current_directory: install.current_directory,
    }
}

/// A processor as written.
pub open spec fn written_processor(processor: ProcessorModel) -> ProcessorDtoModel {
    ProcessorDtoModel {
        arguments: written_arguments(processor.arguments),
        environments: processor.environments.map_values(|e: EnvironmentsModel| written_environment(e)),
        program: processor.program,
        install: match processor.install {
            Some(install) => Some(written_install(install)),
            None => None,
        },
        current_directory: processor.current_directory,
    }
}

/// The tags of a metadata as written: the references they are named by; a tag given in place
/// is left out.
pub open spec fn written_tag_references(tags: Seq<(Seq<char>, RefModel<RefTag, (Seq<char>, TagModel)>)>) -> Seq<Seq<char>>
    decreases tags.len(),
{
    if tags.len() == 0 {
        Seq::empty()
    } else {
        let rest = written_tag_references(tags.drop_last());
        match model_reference(tags.last().1) {
            Some(reference) => rest.push(reference),
            None => rest,
        }
    }
}

/// The tags under the root tag `#` of a definition, as written; none without a root tag.
pub open spec fn written_root_tags(d: Definition) -> Seq<(Seq<char>, crate::dto::TagDtoModel)> {
    match lookup(d.tags.model(), seq!['#']) {
        Some(root) => (*root).value.tags@.map_values(
            |e: (String, Readonly<RefTag>)| ((*e.1).reference@, written_tag((*e.1).value)),
        ),
        None => Seq::empty(),
    }
}

/// A definition as written. The identifier is not written.
pub open spec fn written_definition(d: Definition) -> DefinitionDtoModel
    decreases d, 2int,
{
    DefinitionDtoModel {
        name: d.name@,
        id: None,
        location: d.location.model(),
        metadata: Seq::new(
            d.metadata.raw().len(),
            |i: int|
                if 0 <= i < d.metadata.raw().len() {
                    (d.metadata.raw()[i].0, written_metadata(*d.metadata.raw()[i].1))
                } else {
                    arbitrary()
                },
        ),
        edges: Seq::new(
            d.edges.raw().len(),
            |i: int|
                if 0 <= i < d.edges.raw().len() {
                    (d.edges.raw()[i].0, written_edge(*d.edges.raw()[i].1))
                } else {
                    arbitrary()
                },
        ),
        tags: written_root_tags(d),
        processors: d.processors.model().map_values(
            |e: (Seq<char>, Readonly<Processor>)| (e.0, written_processor((*e.1).model())),
        ),
        arguments: d.arguments.model().map_values(|e: (Seq<char>, Readonly<Vec<String>>)| (e.0, (*e.1).model())),
        environments: d.environments.model().map_values(
            |e: (Seq<char>, Readonly<StrMap<String>>)| (e.0, (*e.1).model()),
        ),
    }
}

/// A metadata as written: each edge in place, named by its key.
pub open spec fn written_metadata(m: Metadata) -> MetadataDtoModel
    decreases m, 1int,
{
    MetadataDtoModel {
        edges: Seq::new(
            m.edges.raw().len(),
            |i: int|
                if 0 <= i < m.edges.raw().len() {
                    ReferenceOrObjectModel::Object(written_metadata_edge(m.edges.raw()[i].0, m.edges.raw()[i].1))
                } else {
                    arbitrary()
                },
        ),
        tags: written_tag_references(m.tags.model()),
        other: m.other.model(),
        processor: match m.processor.model() {
            Some(p) => Some(ReferenceOrObjectModel::Object(written_processor_override(p))),
            None => None,
        },
    }
}

/// An edge of a metadata, named `key`, as written.
pub open spec fn written_metadata_edge(key: Seq<char>, eo: EdgeOverride) -> MetadataEdgeModel
    decreases eo, 0int,
{
    MetadataEdgeModel {
        reference: key,
        other: eo.other.model(),
        arguments: written_arguments(eo.arguments.model()),
        environments: eo.environments.model().map_values(|e: EnvironmentsModel| written_environment(e)),
        definition: match eo.definition {
            Some(inner) => Some(written_definition(inner)),
            None => None,
        },
    }
}

/// An edge as written: the definition it leads to is written when it was read, and its use
/// of a processor in place.
pub open spec fn written_edge(e: Edge) -> EdgeDtoModel
    decreases e, 1int,
{
    EdgeDtoModel {
        definition: match e.definition {
            Some(foreign) => match (*foreign).output {
                Some(output) => Some(ForeignDefinitionDtoModel::Definition(written_definition(output))),
                None => None,
            },
            None => None,
        },
        processor: match e.processor.model() {
            Some(p) => Some(ReferenceOrObjectModel::Object(written_processor_override(p))),
            None => None,
        },
        other: e.other.model(),
    }
}

/// A use of a processor as written.
fn processor_override_dto(p: &DraftProcessorOverride) -> (r: ProcessorOverrideDto)
    ensures
        r.model() == written_processor_override(p.model()),
{
    ProcessorOverrideDto {
        reference: match &p.processor {
            Some(processor) => Some(processor.reference()),
            None => None,
        },
        arguments: from_arguments(p.arguments.duplicate()),
        environments: from_environments(p.environments.duplicate()),
    }
}

/// The tags of a metadata as written.
fn tag_references(tags: &StrMap<crate::reference_value::LazyRefOrValue<RefTag>>) -> (r: Vec<String>)
    ensures
        r.model() == written_tag_references(tags.model()),
{
    let ghost m = tags.model();
    let n = tags.len();
    let mut references: Vec<String> = Vec::new();
    let mut i: usize = 0;
    assert(m.take(0) =~= Seq::<(Seq<char>, RefModel<RefTag, (Seq<char>, TagModel)>)>::empty());
    assert(references.model() =~= Seq::<Seq<char>>::empty());
    while i < n
        invariant
            n == m.len(),
            i <= n,
            m == tags.model(),
            references.model() == written_tag_references(m.take(i as int)),
        decreases n - i,
    {
        assert(m.take(i + 1).drop_last() =~= m.take(i as int));
        let ghost before = references.model();
        match tags.value_at(i).reference() {
            Some(reference) => {
                references.push(reference);
                assert(references.model() =~= before.push(reference@));
            },
            None => {},
        }
        i = i + 1;
    }
    assert(m.take(n as int) =~= m);
    references
}

impl DefinitionDto {
    /// The definition written back: its metadata with their edges in place, its edges with
    /// the definitions they lead to when these were read, the tags under its root tag, its
    /// processors, arguments and environments.
    pub fn from_definition(definition: &Definition) -> (r: DefinitionDto)
        ensures
            r.model() == written_definition(*definition),
        decreases definition, 3int,
    {
        let metadata = Self::read_metadata(definition);
        let edges = Self::read_edges(definition);
        let r = DefinitionDto {
            name: definition.name.clone(),
            id: None,
            location: definition.location.duplicate(),
            metadata,
            edges,
            tags: Self::read_tags(definition),
            processors: Self::read_processors(definition),
            arguments: Self::read_arguments(definition),
            environments: Self::read_environments(definition),
        };
        assert(definition_dto_model(r).metadata =~= written_definition(*definition).metadata);
        assert(definition_dto_model(r).edges =~= written_definition(*definition).edges);
        r
    }

    fn read_metadata(definition: &Definition) -> (r: Vec<(String, MetadataDto)>)
        ensures
            r@.len() == definition.metadata.raw().len(),
            forall|i: int| 0 <= i < r@.len() ==> (#[trigger] r@[i]).0@ == definition.metadata.raw()[i].0
                && metadata_dto_model(r@[i].1) == written_metadata(*definition.metadata.raw()[i].1),
        decreases definition, 2int,
    {
        let n = definition.metadata.len();
        proof {
            definition.metadata.lemma_raw();
        }
        let mut written: Vec<(String, MetadataDto)> = Vec::new();
        let mut i: usize = 0;
        while i < n
            invariant
                n == definition.metadata.raw().len(),
                n == definition.metadata.model().len(),
                forall|j: int| 0 <= j < n ==> #[trigger] definition.metadata.raw()[j].0 == definition.metadata.model()[j].0,
                i <= n,
                written@.len() == i,
                forall|j: int| 0 <= j < i ==> (#[trigger] written@[j]).0@ == definition.metadata.raw()[j].0
                    && metadata_dto_model(written@[j].1) == written_metadata(*definition.metadata.raw()[j].1),
            decreases n - i,
        {
            let key = definition.metadata.key_at(i);
            let value = definition.metadata.value_at(i);
            proof {
                assert(decreases_to!(*definition => definition.metadata));
                assert(decreases_to!(definition.metadata => definition.metadata.raw()[i as int].1));
            }
            let dto = Self::metadata_dto(&**value);
            written.push((key.clone(), dto));
            i = i + 1;
        }
        written
    }

    fn metadata_dto(metadata: &Metadata) -> (r: MetadataDto)
        ensures
            metadata_dto_model(r) == written_metadata(*metadata),
        decreases metadata, 1int,
    {
        let n = metadata.edges.len();
        proof {
            metadata.edges.lemma_raw();
        }
        let mut edges: Vec<ReferenceOrObjectDto<MetadataEdge>> = Vec::new();
        let mut i: usize = 0;
        while i < n
            invariant
                n == metadata.edges.raw().len(),
                n == metadata.edges.model().len(),
                forall|j: int| 0 <= j < n ==> #[trigger] metadata.edges.raw()[j].0 == metadata.edges.model()[j].0,
                i <= n,
                edges@.len() == i,
                forall|j: int| 0 <= j < i ==> match #[trigger] edges@[j] {
                    ReferenceOrObjectDto::Object(e) => metadata_edge_model(e) == written_metadata_edge(
                        metadata.edges.raw()[j].0,
                        metadata.edges.raw()[j].1,
                    ),
                    _ => false,
                },
            decreases n - i,
        {
            let key = metadata.edges.key_at(i);
            let edge = metadata.edges.value_at(i);
            proof {
                assert(decreases_to!(*metadata => metadata.edges));
                assert(decreases_to!(metadata.edges => metadata.edges.raw()[i as int].1));
            }
            let definition = match &edge.definition {
                Some(inner) => Some(Self::from_definition(inner)),
                None => None,
            };
            let written = MetadataEdge {
                arguments: from_arguments(edge.arguments.duplicate()),
                definition,
                environments: from_environments(edge.environments.duplicate()),
                other: edge.other.duplicate(),
                reference: key.clone(),
            };
            edges.push(ReferenceOrObjectDto::Object(written));
            i = i + 1;
        }
        let processor = match &metadata.processor {
            Some(p) => Some(ReferenceOrObjectDto::Object(processor_override_dto(p))),
            None => None,
        };
        let r = MetadataDto {
            other: metadata.other.duplicate(),
            processor,
            tags: tag_references(&metadata.tags),
            edges,
        };
        assert(metadata_dto_model(r).edges =~= written_metadata(*metadata).edges);
        r
    }

    fn read_edges(definition: &Definition) -> (r: Vec<(String, EdgeDto)>)
        ensures
            r@.len() == definition.edges.raw().len(),
            forall|i: int| 0 <= i < r@.len() ==> (#[trigger] r@[i]).0@ == definition.edges.raw()[i].0
                && edge_dto_model(r@[i].1) == written_edge(*definition.edges.raw()[i].1),
        decreases definition, 2int,
    {
        let n = definition.edges.len();
        proof {
            definition.edges.lemma_raw();
        }
        let mut written: Vec<(String, EdgeDto)> = Vec::new();
        let mut i: usize = 0;
        while i < n
            invariant
                n == definition.edges.raw().len(),
                n == definition.edges.model().len(),
                forall|j: int| 0 <= j < n ==> #[trigger] definition.edges.raw()[j].0 == definition.edges.model()[j].0,
                i <= n,
                written@.len() == i,
                forall|j: int| 0 <= j < i ==> (#[trigger] written@[j]).0@ == definition.edges.raw()[j].0
                    && edge_dto_model(written@[j].1) == written_edge(*definition.edges.raw()[j].1),
            decreases n - i,
        {
            let key = definition.edges.key_at(i);
            let edge: &Edge = &**definition.edges.value_at(i);
            proof {
                assert(decreases_to!(*definition => definition.edges));
                assert(decreases_to!(definition.edges => definition.edges.raw()[i as int].1));
            }
            let foreign_definition = match &edge.definition {
                Some(foreign) => match &foreign.output {
                    Some(output) => Some(ForeignDefinitionDto::Definition(Self::from_definition(output))),
                    None => None,
                },
                None => None,
            };
            let processor = match &edge.processor {
                Some(p) => Some(ReferenceOrObjectDto::Object(processor_override_dto(p))),
                None => None,
            };
            let dto = EdgeDto { definition: foreign_definition, other: edge.other.duplicate(), processor };
            written.push((key.clone(), dto));
            i = i + 1;
        }
        written
    }

    fn read_environments(definition: &Definition) -> (r: Vec<(String, StrMap<String>)>)
        ensures
            entries_model(r@) == definition.environments.model().map_values(
                |e: (Seq<char>, Readonly<StrMap<String>>)| (e.0, (*e.1).model()),
            ),
    {
        let n = definition.environments.len();
        let mut written: Vec<(String, StrMap<String>)> = Vec::new();
        let mut i: usize = 0;
        while i < n
            invariant
                n == definition.environments.model().len(),
                i <= n,
                written@.len() == i,
                forall|j: int| 0 <= j < i ==> (#[trigger] written@[j]).0@ == definition.environments.model()[j].0
                    && written@[j].1.model() == (*definition.environments.model()[j].1).model(),
            decreases n - i,
        {
            let key = definition.environments.key_at(i);
            let value = definition.environments.value_at(i);
            written.push((key.clone(), (**value).duplicate()));
            i = i + 1;
        }
        assert(entries_model(written@) =~= definition.environments.model().map_values(
            |e: (Seq<char>, Readonly<StrMap<String>>)| (e.0, (*e.1).model()),
        ));
        written
    }

    fn read_arguments(definition: &Definition) -> (r: Vec<(String, Vec<String>)>)
        ensures
            entries_model(r@) == definition.arguments.model().map_values(
                |e: (Seq<char>, Readonly<Vec<String>>)| (e.0, (*e.1).model()),
            ),
    {
        let n = definition.arguments.len();
        let mut written: Vec<(String, Vec<String>)> = Vec::new();
        let mut i: usize = 0;
        while i < n
            invariant
                n == definition.arguments.model().len(),
                i <= n,
                written@.len() == i,
                forall|j: int| 0 <= j < i ==> (#[trigger] written@[j]).0@ == definition.arguments.model()[j].0
                    && written@[j].1.model() == (*definition.arguments.model()[j].1).model(),
            decreases n - i,
        {
            let key = definition.arguments.key_at(i);
            let value = definition.arguments.value_at(i);
            written.push((key.clone(), (**value).duplicate()));
            i = i + 1;
        }
        assert(entries_model(written@) =~= definition.arguments.model().map_values(
            |e: (Seq<char>, Readonly<Vec<String>>)| (e.0, (*e.1).model()),
        ));
        written
    }

    fn read_processors(definition: &Definition) -> (r: Vec<(String, ProcessorDto)>)
        ensures
            entries_model(r@) == definition.processors.model().map_values(
                |e: (Seq<char>, Readonly<Processor>)| (e.0, written_processor((*e.1).model())),
            ),
    {
        let n = definition.processors.len();
        let mut written: Vec<(String, ProcessorDto)> = Vec::new();
        let mut i: usize = 0;
        while i < n
            invariant
                n == definition.processors.model().len(),
                i <= n,
                written@.len() == i,
                forall|j: int| 0 <= j < i ==> (#[trigger] written@[j]).0@ == definition.processors.model()[j].0
                    && written@[j].1.model() == written_processor((*definition.processors.model()[j].1).model()),
            decreases n - i,
        {
            let key = definition.processors.key_at(i);
            let processor: &Processor = &**definition.processors.value_at(i);
            let install = match &processor.install {
                Some(install) => Some(InstallDto {
                    arguments: from_arguments(install.arguments.duplicate()),
                    environments: from_environments(install.environments.duplicate()),
                    current_directory: install.current_directory.duplicate(),
                    program: install.program.clone(),
                }),
                None => None,
            };
            let dto = ProcessorDto {
                arguments: from_arguments(processor.arguments.duplicate()),
                current_directory: processor.current_directory.duplicate(),
                environments: from_environments(processor.environments.duplicate()),
                program: processor.program.clone(),
                install,
            };
            written.push((key.clone(), dto));
            i = i + 1;
        }
        assert(entries_model(written@) =~= definition.processors.model().map_values(
            |e: (Seq<char>, Readonly<Processor>)| (e.0, written_processor((*e.1).model())),
        ));
        written
    }

    fn read_tags(definition: &Definition) -> (r: Vec<(String, TagDto)>)
        ensures
            entries_model(r@) == written_root_tags(*definition),
    {
        let root = "#".to_owned();
        proof {
            reveal_strlit("#");
            assert(root@ =~= seq!['#']);
        }
        match definition.tags.get(&root) {
            Some(tag) => from_tags(&tag.value.tags),
            None => {
                let r: Vec<(String, TagDto)> = Vec::new();
                assert(entries_model(r@) =~= Seq::<(Seq<char>, crate::dto::TagDtoModel)>::empty());
                r
            },
        }
    }
}

} // verus!
