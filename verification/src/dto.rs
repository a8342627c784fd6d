//! Definitions as they are written: plain values that mirror the JSON of a definition file.
//! A JSON object of named entries is a list of name and value, in the order written.
use vstd::prelude::*;
use crate::model::Model;
use crate::json::{JsonMap, JsonValue, JsonModel, json_model};
use crate::strmap::{StrMap, Entries};

verus! {

/// Environment variables written in place, or a reference to them.
#[derive(Debug)]
pub enum EnvironmentDto {
    Reference(String),
    Value(StrMap<String>),
}

pub enum EnvironmentDtoModel {
    Reference(Seq<char>),
    Value(Entries<Seq<char>>),
}

impl Model for EnvironmentDto {
    type M = EnvironmentDtoModel;

    open spec fn model(&self) -> EnvironmentDtoModel {
        match self {
            EnvironmentDto::Reference(r) => EnvironmentDtoModel::Reference(r@),
            EnvironmentDto::Value(v) => EnvironmentDtoModel::Value(v.model()),
        }
    }

    fn duplicate(&self) -> (r: Self) {
        match self {
            EnvironmentDto::Reference(reference) => EnvironmentDto::Reference(reference.clone()),
            EnvironmentDto::Value(value) => EnvironmentDto::Value(value.duplicate()),
        }
    }
}

/// A use of a processor as written: the processor's reference, and arguments and
/// environments of its own.
#[derive(Debug)]
pub struct ProcessorOverrideDto {
    pub reference: Option<String>,
    pub arguments: Vec<String>,
    pub environments: Vec<EnvironmentDto>,
}

pub struct ProcessorOverrideDtoModel {
    pub reference: Option<Seq<char>>,
    pub arguments: Seq<Seq<char>>,
    pub environments: Seq<EnvironmentDtoModel>,
}

impl Model for ProcessorOverrideDto {
    type M = ProcessorOverrideDtoModel;

    open spec fn model(&self) -> ProcessorOverrideDtoModel {
        ProcessorOverrideDtoModel {
            reference: self.reference.model(),
            arguments: self.arguments.model(),
            environments: self.environments.model(),
        }
    }

    fn duplicate(&self) -> (r: Self) {
        ProcessorOverrideDto {
            reference: self.reference.duplicate(),
            arguments: self.arguments.duplicate(),
            environments: self.environments.duplicate(),
        }
    }
}

/// How a program is installed, as written.
#[derive(Debug)]
pub struct InstallDto {
    pub program: String,
    pub arguments: Vec<String>,
    pub environments: Vec<EnvironmentDto>,
    pub current_directory: Option<String>,
}

pub struct InstallDtoModel {
    pub program: Seq<char>,
    pub arguments: Seq<Seq<char>>,
    pub environments: Seq<EnvironmentDtoModel>,
    pub current_directory: Option<Seq<char>>,
}

impl Model for InstallDto {
    type M = InstallDtoModel;

    open spec fn model(&self) -> InstallDtoModel {
        InstallDtoModel {
            program: self.program@,
            arguments: self.arguments.model(),
            environments: self.environments.model(),
            current_directory: self.current_directory.model(),
        }
    }

    fn duplicate(&self) -> (r: Self) {
        InstallDto {
            program: self.program.clone(),
            arguments: self.arguments.duplicate(),
            environments: self.environments.duplicate(),
            current_directory: self.current_directory.duplicate(),
        }
    }
}

/// A processor as written.
#[derive(Debug)]
pub struct ProcessorDto {
    pub arguments: Vec<String>,
    pub environments: Vec<EnvironmentDto>,
    pub program: String,
    pub install: Option<InstallDto>,
    pub current_directory: Option<String>,
}

pub struct ProcessorDtoModel {
    pub arguments: Seq<Seq<char>>,
    pub environments: Seq<EnvironmentDtoModel>,
    pub program: Seq<char>,
    pub install: Option<InstallDtoModel>,
    pub current_directory: Option<Seq<char>>,
}

impl Model for ProcessorDto {
    type M = ProcessorDtoModel;

    open spec fn model(&self) -> ProcessorDtoModel {
        ProcessorDtoModel {
            arguments: self.arguments.model(),
            environments: self.environments.model(),
            program: self.program@,
            install: self.install.model(),
            current_directory: self.current_directory.model(),
        }
    }

    fn duplicate(&self) -> (r: Self) {
        ProcessorDto {
            arguments: self.arguments.duplicate(),
            environments: self.environments.duplicate(),
            program: self.program.clone(),
            install: self.install.duplicate(),
            current_directory: self.current_directory.duplicate(),
        }
    }
}

/// A reference written as a string, or an object written in place.
#[derive(Debug)]
pub enum ReferenceOrObjectDto<V> {
    Reference(String),
    Object(V),
}

pub enum ReferenceOrObjectModel<M> {
    Reference(Seq<char>),
    Object(M),
}

impl<V: Model> Model for ReferenceOrObjectDto<V> {
    type M = ReferenceOrObjectModel<V::M>;

    open spec fn model(&self) -> ReferenceOrObjectModel<V::M> {
        match self {
            ReferenceOrObjectDto::Reference(r) => ReferenceOrObjectModel::Reference(r@),
            ReferenceOrObjectDto::Object(v) => ReferenceOrObjectModel::Object(v.model()),
        }
    }

    fn duplicate(&self) -> (r: Self) {
        match self {
            ReferenceOrObjectDto::Reference(reference) => ReferenceOrObjectDto::Reference(reference.clone()),
            ReferenceOrObjectDto::Object(value) => ReferenceOrObjectDto::Object(value.duplicate()),
        }
    }
}

/// A tag as written, with the tags under it.
#[derive(Debug)]
pub struct TagDto {
    pub label: Option<String>,
    pub tags: Vec<(String, TagDto)>,
    pub other: JsonValue,
}

pub struct TagDtoModel {
    pub label: Option<Seq<char>>,
    pub tags: Seq<(Seq<char>, TagDtoModel)>,
    pub other: JsonModel,
}

pub open spec fn tag_dto_model(t: TagDto) -> TagDtoModel
    decreases t,
{
    TagDtoModel {
        label: t.label.model(),
        tags: Seq::new(
            t.tags@.len(),
            |i: int|
                if 0 <= i < t.tags@.len() {
                    (t.tags@[i].0@, tag_dto_model(t.tags@[i].1))
                } else {
                    (Seq::empty(), TagDtoModel { label: None, tags: Seq::empty(), other: JsonModel::Null })
                },
        ),
        other: json_model(t.other),
    }
}

fn duplicate_tag_dto(t: &TagDto) -> (r: TagDto)
    ensures
        tag_dto_model(r) == tag_dto_model(*t),
    decreases t,
{
    let mut tags: Vec<(String, TagDto)> = Vec::new();
    let mut i: usize = 0;
    while i < t.tags.len()
        invariant
            i <= t.tags@.len(),
            tags@.len() == i,
            forall|j: int| 0 <= j < i ==> (#[trigger] tags@[j]).0@ == t.tags@[j].0@
                && tag_dto_model(tags@[j].1) == tag_dto_model(t.tags@[j].1),
        decreases t.tags.len() - i,
    {
        proof {
            assert(decreases_to!(*t => t.tags));
            assert(decreases_to!(t.tags => t.tags@[i as int]));
            assert(decreases_to!(t.tags@[i as int] => t.tags@[i as int].1));
        }
        let inner = duplicate_tag_dto(&t.tags[i].1);
        tags.push((t.tags[i].0.clone(), inner));
        i = i + 1;
    }
    let r = TagDto { label: t.label.duplicate(), tags, other: t.other.duplicate() };
    assert(tag_dto_model(r).tags =~= tag_dto_model(*t).tags);
    r
}

impl Model for TagDto {
    type M = TagDtoModel;

    open spec fn model(&self) -> TagDtoModel {
        tag_dto_model(*self)
    }

    fn duplicate(&self) -> (r: Self) {
        duplicate_tag_dto(self)
    }
}

/// The model of a list of named entries.
pub open spec fn entries_model<V: Model>(v: Seq<(String, V)>) -> Seq<(Seq<char>, V::M)> {
    v.map_values(|e: (String, V)| (e.0@, e.1.model()))
}

/// A copy of a list of named entries.
pub fn duplicate_entries<V: Model>(v: &Vec<(String, V)>) -> (r: Vec<(String, V)>)
    ensures
        entries_model(r@) == entries_model(v@),
{
    let mut r: Vec<(String, V)> = Vec::new();
    let mut i: usize = 0;
    while i < v.len()
        invariant
            i <= v@.len(),
            r@.len() == i,
            forall|j: int| 0 <= j < i ==> (#[trigger] r@[j]).0@ == v@[j].0@ && r@[j].1.model() == v@[j].1.model(),
        decreases v.len() - i,
    {
        r.push((v[i].0.clone(), v[i].1.duplicate()));
        i = i + 1;
    }
    assert(entries_model(r@) =~= entries_model(v@));
    r
}

/// An edge of a metadata as written: the edge's reference, with JSON, arguments,
/// environments and a definition of its own.
#[derive(Debug)]
pub struct MetadataEdge {
    pub reference: String,
    pub other: JsonMap,
    pub arguments: Vec<String>,
    pub environments: Vec<EnvironmentDto>,
    pub definition: Option<DefinitionDto>,
}

/// A metadata as written.
#[derive(Debug)]
pub struct MetadataDto {
    pub edges: Vec<ReferenceOrObjectDto<MetadataEdge>>,
    pub tags: Vec<String>,
    pub other: JsonMap,
    pub processor: Option<ReferenceOrObjectDto<ProcessorOverrideDto>>,
}

/// Where the definition an edge leads to comes from, as written: a text (a path, a JSON
/// document or a processor's reference), a definition in place, or a use of a processor.
#[derive(Debug)]
pub enum ForeignDefinitionDto {
    String(String),
    Definition(DefinitionDto),
    Processor(ProcessorOverrideDto),
}

/// An edge as written.
#[derive(Debug)]
pub struct EdgeDto {
    pub definition: Option<ForeignDefinitionDto>,
    pub processor: Option<ReferenceOrObjectDto<ProcessorOverrideDto>>,
    pub other: JsonMap,
}

/// A definition as written.
#[derive(Debug)]
pub struct DefinitionDto {
    pub name: String,
    pub id: Option<String>,
    pub location: Option<String>,
    pub metadata: Vec<(String, MetadataDto)>,
    pub edges: Vec<(String, EdgeDto)>,
    pub tags: Vec<(String, TagDto)>,
    pub processors: Vec<(String, ProcessorDto)>,
    pub arguments: Vec<(String, Vec<String>)>,
    pub environments: Vec<(String, StrMap<String>)>,
}

pub struct MetadataEdgeModel {
    pub reference: Seq<char>,
    pub other: Entries<JsonModel>,
    pub arguments: Seq<Seq<char>>,
    pub environments: Seq<EnvironmentDtoModel>,
    pub definition: Option<DefinitionDtoModel>,
}

pub struct MetadataDtoModel {
    pub edges: Seq<ReferenceOrObjectModel<MetadataEdgeModel>>,
    pub tags: Seq<Seq<char>>,
    pub other: Entries<JsonModel>,
    pub processor: Option<ReferenceOrObjectModel<ProcessorOverrideDtoModel>>,
}

pub enum ForeignDefinitionDtoModel {
    String(Seq<char>),
    Definition(DefinitionDtoModel),
    Processor(ProcessorOverrideDtoModel),
}

pub struct EdgeDtoModel {
    pub definition: Option<ForeignDefinitionDtoModel>,
    pub processor: Option<ReferenceOrObjectModel<ProcessorOverrideDtoModel>>,
    pub other: Entries<JsonModel>,
}

pub struct DefinitionDtoModel {
    pub name: Seq<char>,
    pub id: Option<Seq<char>>,
    pub location: Option<Seq<char>>,
    pub metadata: Seq<(Seq<char>, MetadataDtoModel)>,
    pub edges: Seq<(Seq<char>, EdgeDtoModel)>,
    pub tags: Seq<(Seq<char>, TagDtoModel)>,
    pub processors: Seq<(Seq<char>, ProcessorDtoModel)>,
    pub arguments: Seq<(Seq<char>, Seq<Seq<char>>)>,
    pub environments: Seq<(Seq<char>, Entries<Seq<char>>)>,
}

pub open spec fn definition_dto_model(d: DefinitionDto) -> DefinitionDtoModel
    decreases d, 3int,
{
    DefinitionDtoModel {
        name: d.name@,
        id: d.id.model(),
        location: d.location.model(),
        metadata: Seq::new(
            d.metadata@.len(),
            |i: int|
                if 0 <= i < d.metadata@.len() {
                    (d.metadata@[i].0@, metadata_dto_model(d.metadata@[i].1))
                } else {
                    arbitrary()
                },
        ),
        edges: Seq::new(
            d.edges@.len(),
            |i: int|
                if 0 <= i < d.edges@.len() {
                    (d.edges@[i].0@, edge_dto_model(d.edges@[i].1))
                } else {
                    arbitrary()
                },
        ),
        tags: entries_model(d.tags@),
        processors: entries_model(d.processors@),
        arguments: entries_model(d.arguments@),
        environments: entries_model(d.environments@),
    }
}

pub open spec fn metadata_dto_model(m: MetadataDto) -> MetadataDtoModel
    decreases m, 2int,
{
    MetadataDtoModel {
        edges: Seq::new(
            m.edges@.len(),
            |i: int|
                if 0 <= i < m.edges@.len() {
                    match m.edges@[i] {
                        ReferenceOrObjectDto::Reference(r) => ReferenceOrObjectModel::Reference(r@),
                        ReferenceOrObjectDto::Object(e) => ReferenceOrObjectModel::Object(metadata_edge_model(e)),
                    }
                } else {
                    arbitrary()
                },
        ),
        tags: m.tags.model(),
        other: m.other.model(),
        processor: m.processor.model(),
    }
}

pub open spec fn metadata_edge_model(e: MetadataEdge) -> MetadataEdgeModel
    decreases e, 1int,
{
    MetadataEdgeModel {
        reference: e.reference@,
        other: e.other.model(),
        arguments: e.arguments.model(),
        environments: e.environments.model(),
        definition: match e.definition {
            Some(d) => Some(definition_dto_model(d)),
            None => None,
        },
    }
}

pub open spec fn edge_dto_model(e: EdgeDto) -> EdgeDtoModel
    decreases e, 2int,
{
    EdgeDtoModel {
        definition: match e.definition {
            Some(f) => Some(foreign_definition_dto_model(f)),
            None => None,
        },
        processor: e.processor.model(),
        other: e.other.model(),
    }
}

pub open spec fn foreign_definition_dto_model(f: ForeignDefinitionDto) -> ForeignDefinitionDtoModel
    decreases f, 1int,
{
    match f {
        ForeignDefinitionDto::String(s) => ForeignDefinitionDtoModel::String(s@),
        ForeignDefinitionDto::Definition(d) => ForeignDefinitionDtoModel::Definition(definition_dto_model(d)),
        ForeignDefinitionDto::Processor(p) => ForeignDefinitionDtoModel::Processor(p.model()),
    }
}

fn duplicate_definition_dto(d: &DefinitionDto) -> (r: DefinitionDto)
    ensures
        definition_dto_model(r) == definition_dto_model(*d),
    decreases d, 3int,
{
    let mut metadata: Vec<(String, MetadataDto)> = Vec::new();
    let mut i: usize = 0;
    while i < d.metadata.len()
        invariant
            i <= d.metadata@.len(),
            metadata@.len() == i,
            forall|j: int| 0 <= j < i ==> (#[trigger] metadata@[j]).0@ == d.metadata@[j].0@
                && metadata_dto_model(metadata@[j].1) == metadata_dto_model(d.metadata@[j].1),
        decreases d.metadata.len() - i,
    {
        proof {
            assert(decreases_to!(*d => d.metadata));
            assert(decreases_to!(d.metadata => d.metadata@[i as int]));
            assert(decreases_to!(d.metadata@[i as int] => d.metadata@[i as int].1));
        }
        let value = duplicate_metadata_dto(&d.metadata[i].1);
        metadata.push((d.metadata[i].0.clone(), value));
        i = i + 1;
    }
    let mut edges: Vec<(String, EdgeDto)> = Vec::new();
    let mut i: usize = 0;
    while i < d.edges.len()
        invariant
            i <= d.edges@.len(),
            edges@.len() == i,
            forall|j: int| 0 <= j < i ==> (#[trigger] edges@[j]).0@ == d.edges@[j].0@
                && edge_dto_model(edges@[j].1) == edge_dto_model(d.edges@[j].1),
        decreases d.edges.len() - i,
    {
        proof {
            assert(decreases_to!(*d => d.edges));
            assert(decreases_to!(d.edges => d.edges@[i as int]));
            assert(decreases_to!(d.edges@[i as int] => d.edges@[i as int].1));
        }
        let value = duplicate_edge_dto(&d.edges[i].1);
        edges.push((d.edges[i].0.clone(), value));
        i = i + 1;
    }
    let r = DefinitionDto {
        name: d.name.clone(),
        id: d.id.duplicate(),
        location: d.location.duplicate(),
        metadata,
        edges,
        tags: duplicate_entries(&d.tags),
        processors: duplicate_entries(&d.processors),
        arguments: duplicate_entries(&d.arguments),
        environments: duplicate_entries(&d.environments),
    };
    assert(definition_dto_model(r).metadata =~= definition_dto_model(*d).metadata);
    assert(definition_dto_model(r).edges =~= definition_dto_model(*d).edges);
    r
}

fn duplicate_metadata_dto(m: &MetadataDto) -> (r: MetadataDto)
    ensures
        metadata_dto_model(r) == metadata_dto_model(*m),
    decreases m, 2int,
{
    let mut edges: Vec<ReferenceOrObjectDto<MetadataEdge>> = Vec::new();
    let mut i: usize = 0;
    while i < m.edges.len()
        invariant
            i <= m.edges@.len(),
            edges@.len() == i,
            forall|j: int| 0 <= j < i ==> (match (#[trigger] edges@[j], m.edges@[j]) {
                (ReferenceOrObjectDto::Reference(a), ReferenceOrObjectDto::Reference(b)) => a@ == b@,
                (ReferenceOrObjectDto::Object(a), ReferenceOrObjectDto::Object(b)) => metadata_edge_model(a) == metadata_edge_model(b),
                _ => false,
            }),
        decreases m.edges.len() - i,
    {
        let edge = match &m.edges[i] {
            ReferenceOrObjectDto::Reference(reference) => ReferenceOrObjectDto::Reference(reference.clone()),
            ReferenceOrObjectDto::Object(e) => {
                proof {
                    assert(decreases_to!(*m => m.edges));
                    assert(decreases_to!(m.edges => m.edges@[i as int]));
                    assert(decreases_to!(m.edges@[i as int] => *e));
                }
                ReferenceOrObjectDto::Object(duplicate_metadata_edge(e))
            },
        };
        edges.push(edge);
        i = i + 1;
    }
    let r = MetadataDto {
        edges,
        tags: m.tags.duplicate(),
        other: m.other.duplicate(),
        processor: m.processor.duplicate(),
    };
    assert(metadata_dto_model(r).edges =~= metadata_dto_model(*m).edges);
    r
}

fn duplicate_metadata_edge(e: &MetadataEdge) -> (r: MetadataEdge)
    ensures
        metadata_edge_model(r) == metadata_edge_model(*e),
    decreases e, 1int,
{
    let definition = match &e.definition {
        Some(d) => Some(duplicate_definition_dto(d)),
        None => None,
    };
    MetadataEdge {
        reference: e.reference.clone(),
        other: e.other.duplicate(),
        arguments: e.arguments.duplicate(),
        environments: e.environments.duplicate(),
        definition,
    }
}

fn duplicate_edge_dto(e: &EdgeDto) -> (r: EdgeDto)
    ensures
        edge_dto_model(r) == edge_dto_model(*e),
    decreases e, 2int,
{
    let definition = match &e.definition {
        Some(f) => Some(duplicate_foreign_definition_dto(f)),
        None => None,
    };
    EdgeDto { definition, processor: e.processor.duplicate(), other: e.other.duplicate() }
}

fn duplicate_foreign_definition_dto(f: &ForeignDefinitionDto) -> (r: ForeignDefinitionDto)
    ensures
        foreign_definition_dto_model(r) == foreign_definition_dto_model(*f),
    decreases f, 1int,
{
    match f {
        ForeignDefinitionDto::String(s) => ForeignDefinitionDto::String(s.clone()),
        ForeignDefinitionDto::Definition(d) => ForeignDefinitionDto::Definition(duplicate_definition_dto(d)),
        ForeignDefinitionDto::Processor(p) => ForeignDefinitionDto::Processor(p.duplicate()),
    }
}

impl Model for DefinitionDto {
    type M = DefinitionDtoModel;

    open spec fn model(&self) -> DefinitionDtoModel {
        definition_dto_model(*self)
    }

    fn duplicate(&self) -> (r: Self) {
        duplicate_definition_dto(self)
    }
}

impl Model for MetadataDto {
    type M = MetadataDtoModel;

    open spec fn model(&self) -> MetadataDtoModel {
        metadata_dto_model(*self)
    }

    fn duplicate(&self) -> (r: Self) {
        duplicate_metadata_dto(self)
    }
}

impl Model for MetadataEdge {
    type M = MetadataEdgeModel;

    open spec fn model(&self) -> MetadataEdgeModel {
        metadata_edge_model(*self)
    }

    fn duplicate(&self) -> (r: Self) {
        duplicate_metadata_edge(self)
    }
}

impl Model for EdgeDto {
    type M = EdgeDtoModel;

    open spec fn model(&self) -> EdgeDtoModel {
        edge_dto_model(*self)
    }

    fn duplicate(&self) -> (r: Self) {
        duplicate_edge_dto(self)
    }
}

impl Model for ForeignDefinitionDto {
    type M = ForeignDefinitionDtoModel;

    open spec fn model(&self) -> ForeignDefinitionDtoModel {
        foreign_definition_dto_model(*self)
    }

    fn duplicate(&self) -> (r: Self) {
        duplicate_foreign_definition_dto(self)
    }
}

/// What a processor adds to the edge and to the metadata it ran for.
#[derive(Debug)]
pub struct EnrichmentDto {
    pub edge: Option<JsonMap>,
    pub metadata: Option<JsonMap>,
}

/// What a processor gives back: what it adds, and a definition the edge leads to.
#[derive(Debug)]
pub struct ProcessorResultDto {
    pub enrichment: Option<EnrichmentDto>,
    pub definition: Option<DefinitionDto>,
}

/// A definition's identifier and name.
#[derive(Debug)]
pub struct DefinitionSummaryDto {
    pub id: String,
    pub name: String,
}

impl ReferenceOrObjectDto<MetadataEdge> {
    /// The edge's reference.
    pub fn reference(&self) -> (r: String)
        ensures
            r@ == match self.model() {
                ReferenceOrObjectModel::Reference(reference) => reference,
                ReferenceOrObjectModel::Object(edge) => edge.reference,
            },
    {
        match self {
            ReferenceOrObjectDto::Reference(reference) => reference.clone(),
            ReferenceOrObjectDto::Object(edge) => edge.reference.clone(),
        }
    }

    /// The edge's own arguments; none for a bare reference.
    pub fn arguments(&self) -> (r: Vec<String>)
        ensures
            r.model() == match self.model() {
                ReferenceOrObjectModel::Reference(_) => Seq::empty(),
                ReferenceOrObjectModel::Object(edge) => edge.arguments,
            },
    {
        match self {
            ReferenceOrObjectDto::Reference(_) => {
                let r: Vec<String> = Vec::new();
                assert(r.model() =~= Seq::<Seq<char>>::empty());
                r
            },
            ReferenceOrObjectDto::Object(edge) => edge.arguments.duplicate(),
        }
    }

    /// The edge's own environments; none for a bare reference.
    pub fn environments(&self) -> (r: Vec<EnvironmentDto>)
        ensures
            r.model() == match self.model() {
                ReferenceOrObjectModel::Reference(_) => Seq::empty(),
                ReferenceOrObjectModel::Object(edge) => edge.environments,
            },
    {
        match self {
            ReferenceOrObjectDto::Reference(_) => {
                let r: Vec<EnvironmentDto> = Vec::new();
                assert(r.model() =~= Seq::<EnvironmentDtoModel>::empty());
                r
            },
            ReferenceOrObjectDto::Object(edge) => edge.environments.duplicate(),
        }
    }

    /// The edge's own definition; none for a bare reference.
    pub fn definition(&self) -> (r: Option<DefinitionDto>)
        ensures
            r.model() == match self.model() {
                ReferenceOrObjectModel::Reference(_) => None,
                ReferenceOrObjectModel::Object(edge) => edge.definition,
            },
    {
        match self {
            ReferenceOrObjectDto::Reference(_) => None,
            ReferenceOrObjectDto::Object(edge) => edge.definition.duplicate(),
        }
    }

    /// The edge's own JSON; an empty object for a bare reference.
    pub fn other(&self) -> (r: JsonMap)
        ensures
            r.model() == match self.model() {
                ReferenceOrObjectModel::Reference(_) => Seq::empty(),
                ReferenceOrObjectModel::Object(edge) => edge.other,
            },
    {
        match self {
            ReferenceOrObjectDto::Reference(_) => JsonMap::new(),
            ReferenceOrObjectDto::Object(edge) => edge.other.duplicate(),
        }
    }
}

} // verus!
