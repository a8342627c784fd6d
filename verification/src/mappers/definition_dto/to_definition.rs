//! Reading a definition from its written form.
use vstd::prelude::*;
use vstd::string::StringExecFns;
use crate::model::Model;
use crate::strmap::{
    StrMap, Entries, lookup, inserted, collected, has_key, key_index, last_key_index, lemma_key_index,
    lemma_inserted, lemma_inserted_map_values,
};
use crate::thread::{Readonly, readonly};
use crate::json::{JsonValue, JsonModel, JsonMap};
use crate::reference_value::{LazyRef, LazyRefOrValue, RefModel};
use crate::processor::{
    Enrichment, ProcessorResult, Processor, ProcessorModel, Install, InstallModel, DraftProcessorOverride, DraftProcessorOverrideModel,
    ProcessorOverrideModel,
};
use crate::definition::definition::Definition;
use crate::definition::metadata::Metadata;
use crate::definition::edge::{Edge, EdgeModel, EdgeOverride, EdgeOverrideModel};
use crate::definition::tag::{Tag, TagModel, RefTag};
use crate::definition::foreign_definition::{ForeignDefinition, ForeignDefinitionModel};
use crate::definition::input::{BaseDefinitionInput, InputModel};
use crate::definition::finders::{find_by_path, item_found};
use crate::dto::{
    DefinitionDto, MetadataDto, MetadataEdge, EdgeDto, EdgeDtoModel, ForeignDefinitionDto, ForeignDefinitionDtoModel,
    ProcessorDto, ProcessorDtoModel, InstallDtoModel, EnvironmentDto, EnvironmentDtoModel, ReferenceOrObjectDto,
    TagDto, entries_model, ProcessorResultDto,
};
use crate::mappers::arguments::{read_argument, to_arguments};
use crate::mappers::environments::{read_environment, to_environments};
use crate::mappers::processors::{read_node_processor, read_processor_override, to_node_processor, to_processor_override};
use crate::mappers::tags::{to_tags, tags_built, tag_entries_model, tag_entry_model, TagEntry, TagEntryModel};

verus! {

/// What a text written as the source of a definition was found to be: the path of a file
/// that exists, or a JSON document. A text that is neither names a processor.
#[derive(Debug)]
pub enum TextDefinition {
    File,
    Value(JsonValue),
}

pub enum TextDefinitionModel {
    File,
    Value(JsonModel),
}

impl Model for TextDefinition {
    type M = TextDefinitionModel;

    open spec fn model(&self) -> TextDefinitionModel {
        match self {
            TextDefinition::File => TextDefinitionModel::File,
            TextDefinition::Value(v) => TextDefinitionModel::Value(v.model()),
        }
    }

    fn duplicate(&self) -> (r: Self) {
        match self {
            TextDefinition::File => TextDefinition::File,
            TextDefinition::Value(v) => TextDefinition::Value(v.duplicate()),
        }
    }
}

// ---------------------------------------------------------------------------------------
// Keys of foreign definitions

/// `s` with `|` and `\` escaped by a `\`.
pub open spec fn escaped(s: Seq<char>) -> Seq<char>
    decreases s.len(),
{
    if s.len() == 0 {
        Seq::empty()
    } else {
        escaped(s.drop_last()) + if s.last() == '|' || s.last() == '\\' {
            seq!['\\', s.last()]
        } else {
            seq![s.last()]
        }
    }
}

/// The parts, each escaped and closed by a `|`, one after another.
pub open spec fn key_of_parts(parts: Seq<Seq<char>>) -> Seq<char>
    decreases parts.len(),
{
    if parts.len() == 0 {
        Seq::empty()
    } else {
        key_of_parts(parts.drop_last()) + escaped(parts.last()) + seq!['|']
    }
}

/// The parts of an optional text: the text, or nothing.
pub open spec fn optional_parts(s: Option<Seq<char>>) -> Seq<Seq<char>> {
    match s {
        Some(t) => seq![t],
        None => Seq::empty(),
    }
}

/// The names and values of environment variables, one after another.
pub open spec fn variables_parts(variables: Entries<Seq<char>>) -> Seq<Seq<char>>
    decreases variables.len(),
{
    if variables.len() == 0 {
        Seq::empty()
    } else {
        variables_parts(variables.drop_last()) + seq![variables.last().0, variables.last().1]
    }
}

/// The key of a written environment.
pub open spec fn environment_key(e: EnvironmentDtoModel) -> Seq<char> {
    match e {
        EnvironmentDtoModel::Reference(r) => key_of_parts(seq![seq!['r'], r]),
        EnvironmentDtoModel::Value(variables) => key_of_parts(seq![seq!['v']] + variables_parts(variables)),
    }
}

/// The key under which a definition keeps what an edge's written foreign definition stands
/// for: edges that write the same text, the same use of a processor, or a definition with
/// the same name and location share it.
pub open spec fn foreign_key(f: ForeignDefinitionDtoModel) -> Seq<char> {
    match f {
        ForeignDefinitionDtoModel::String(s) => key_of_parts(seq![seq!['s'], s]),
        ForeignDefinitionDtoModel::Definition(d) => key_of_parts(seq![seq!['d'], d.name] + optional_parts(d.location)),
        ForeignDefinitionDtoModel::Processor(p) => key_of_parts(
            seq![seq!['p'], key_of_parts(optional_parts(p.reference)), key_of_parts(p.arguments)]
                + p.environments.map_values(|e: EnvironmentDtoModel| environment_key(e)),
        ),
    }
}

/// Appends `part`, escaped and closed by a `|`, to `out`.
fn push_part(out: &mut String, part: &String)
    ensures
        final(out)@ == old(out)@ + escaped(part@) + seq!['|'],
{
    let text = part.as_str();
    let n = text.unicode_len();
    let ghost start = out@;
    let mut i: usize = 0;
    proof {
        reveal_strlit("\\");
        reveal_strlit("|");
    }
    assert(part@.subrange(0, 0) =~= Seq::<char>::empty());
    while i < n
        invariant
            n == part@.len(),
            text@ == part@,
            i <= n,
            out@ == start + escaped(part@.subrange(0, i as int)),
            "\\"@ == seq!['\\'],
            "|"@ == seq!['|'],
        decreases n - i,
    {
        let c = text.get_char(i);
        let ghost before = out@;
        if c == '|' || c == '\\' {
            out.append("\\");
        }
        out.append(text.substring_char(i, i + 1));
        assert(part@.subrange(0, i + 1).drop_last() =~= part@.subrange(0, i as int));
        assert(part@.subrange(0, i + 1).last() == c);
        if c == '|' || c == '\\' {
            assert(out@ =~= before + seq!['\\', c]);
        } else {
            assert(out@ =~= before + seq![c]);
        }
        assert(out@ =~= start + escaped(part@.subrange(0, i + 1)));
        i = i + 1;
    }
    assert(part@.subrange(0, n as int) =~= part@);
    out.append("|");
}

/// The parts, each escaped and closed by a `|`, one after another.
fn parts_key(parts: &Vec<String>) -> (r: String)
    ensures
        r@ == key_of_parts(parts.model()),
{
    let mut out = String::new();
    let mut i: usize = 0;
    assert(parts.model().take(0) =~= Seq::<Seq<char>>::empty());
    while i < parts.len()
        invariant
            i <= parts@.len(),
            out@ == key_of_parts(parts.model().take(i as int)),
        decreases parts.len() - i,
    {
        push_part(&mut out, &parts[i]);
        assert(parts.model().take(i + 1).drop_last() =~= parts.model().take(i as int));
        assert(parts.model().take(i + 1).last() == parts@[i as int]@);
        i = i + 1;
    }
    assert(parts.model().take(parts@.len() as int) =~= parts.model());
    out
}

/// Adds `text` after the parts.
fn push_text(parts: &mut Vec<String>, text: String)
    ensures
        final(parts).model() == old(parts).model().push(text@),
{
    let ghost before = parts.model();
    parts.push(text);
    assert(parts.model() =~= before.push(text@));
}

fn environment_key_of(e: &EnvironmentDto) -> (r: String)
    ensures
        r@ == environment_key(e.model()),
{
    proof {
        reveal_strlit("r");
            assert("r"@ =~= seq!['r']);
        reveal_strlit("v");
            assert("v"@ =~= seq!['v']);
    }
    let mut parts: Vec<String> = Vec::new();
    match e {
        EnvironmentDto::Reference(reference) => {
            push_text(&mut parts, "r".to_owned());
            push_text(&mut parts, reference.clone());
            assert(parts.model() =~= seq![seq!['r'], reference@]);
        },
        EnvironmentDto::Value(variables) => {
            push_text(&mut parts, "v".to_owned());
            let n = variables.len();
            let ghost vm = variables.model();
            let mut i: usize = 0;
            assert(vm.take(0) =~= Seq::<(Seq<char>, Seq<char>)>::empty());
            assert(parts.model() =~= seq![seq!['v']] + variables_parts(vm.take(0)));
            while i < n
                invariant
                    n == vm.len(),
                    vm == variables.model(),
                    i <= n,
                    parts.model() == seq![seq!['v']] + variables_parts(vm.take(i as int)),
                decreases n - i,
            {
                let ghost before = parts.model();
                push_text(&mut parts, variables.key_at(i).clone());
                push_text(&mut parts, variables.value_at(i).clone());
                assert(vm.take(i + 1).drop_last() =~= vm.take(i as int));
                assert(parts.model() =~= before + seq![vm[i as int].0, vm[i as int].1]);
                i = i + 1;
            }
            assert(vm.take(n as int) =~= vm);
        },
    }
    parts_key(&parts)
}

impl ForeignDefinitionDto {
    /// The key under which a definition keeps what this written foreign definition stands
    /// for.
    pub fn key(&self) -> (r: String)
        ensures
            r@ == foreign_key(self.model()),
    {
        proof {
            reveal_strlit("s");
            assert("s"@ =~= seq!['s']);
            reveal_strlit("d");
            assert("d"@ =~= seq!['d']);
            reveal_strlit("p");
            assert("p"@ =~= seq!['p']);
        }
        let mut parts: Vec<String> = Vec::new();
        match self {
            ForeignDefinitionDto::String(text) => {
                push_text(&mut parts, "s".to_owned());
                push_text(&mut parts, text.clone());
                assert(parts.model() =~= seq![seq!['s'], text@]);
            },
            ForeignDefinitionDto::Definition(d) => {
                push_text(&mut parts, "d".to_owned());
                push_text(&mut parts, d.name.clone());
                match &d.location {
                    Some(location) => {
                        push_text(&mut parts, location.clone());
                    },
                    None => {},
                }
                assert(parts.model() =~= seq![seq!['d'], d.name@] + optional_parts(d.location.model()));
            },
            ForeignDefinitionDto::Processor(p) => {
                push_text(&mut parts, "p".to_owned());
                let mut reference: Vec<String> = Vec::new();
                match &p.reference {
                    Some(r) => {
                        push_text(&mut reference, r.clone());
                    },
                    None => {},
                }
                assert(reference.model() =~= optional_parts(p.reference.model()));
                push_text(&mut parts, parts_key(&reference));
                push_text(&mut parts, parts_key(&p.arguments));
                let ghost head = parts.model();
                assert(head =~= seq![seq!['p'], key_of_parts(optional_parts(p.reference.model())), key_of_parts(p.arguments.model())]);
                let mut i: usize = 0;
                while i < p.environments.len()
                    invariant
                        i <= p.environments@.len(),
                        parts.model() == head + p.environments.model().take(i as int).map_values(
                            |e: EnvironmentDtoModel| environment_key(e),
                        ),
                    decreases p.environments.len() - i,
                {
                    let ghost before = parts.model();
                    push_text(&mut parts, environment_key_of(&p.environments[i]));
                    assert(p.environments.model().take(i + 1) =~= p.environments.model().take(i as int).push(p.environments@[i as int].model()));
                    assert(parts.model() =~= head + p.environments.model().take(i + 1).map_values(
                        |e: EnvironmentDtoModel| environment_key(e),
                    ));
                    i = i + 1;
                }
                assert(p.environments.model().take(p.environments@.len() as int) =~= p.environments.model());
            },
        }
        parts_key(&parts)
    }
}

// ---------------------------------------------------------------------------------------
// What a written definition stands for

/// The model of a map of shared values: each key with the model of its value.
pub open spec fn shared_model<X: Model>(s: Entries<Readonly<X>>) -> Entries<X::M> {
    s.map_values(|e: (Seq<char>, Readonly<X>)| (e.0, (*e.1).model()))
}

proof fn lemma_shared_inserted<X: Model>(s: Entries<Readonly<X>>, k: Seq<char>, a: Readonly<X>)
    ensures
        shared_model(inserted(s, k, a)) == inserted(shared_model(s), k, (*a).model()),
{
    let t = shared_model(s);
    crate::strmap::lemma_same_keys(s, t, k);
    lemma_key_index(s, k);
    let p = key_index(s, k);
    if p >= 0 {
        assert(shared_model(s.update(p, (k, a))) =~= t.update(p, (k, (*a).model())));
    } else {
        assert(shared_model(s.push((k, a))) =~= t.push((k, (*a).model())));
    }
}

/// An install that a written install stands for in `d`.
pub open spec fn read_install(d: Definition, install: InstallDtoModel) -> InstallModel {
    InstallModel {
        arguments: install.arguments.map_values(|a: Seq<char>| read_argument(d, a)),
        program: install.program,
        environments: install.environments.map_values(|e: EnvironmentDtoModel| read_environment(d, e)),
        current_directory: install.current_directory,
    }
}

/// The processor that a written processor stands for in `d`.
pub open spec fn read_processor(d: Definition, processor: ProcessorDtoModel) -> ProcessorModel {
    ProcessorModel {
        arguments: processor.arguments.map_values(|a: Seq<char>| read_argument(d, a)),
        program: processor.program,
        install: match processor.install {
            Some(install) => Some(read_install(d, install)),
            None => None,
        },
        environments: processor.environments.map_values(|e: EnvironmentDtoModel| read_environment(d, e)),
        current_directory: processor.current_directory,
    }
}

/// Where a definition written as the text `text` comes from in `d`: the file it is the path
/// of, the JSON document it is, or else the processor it names, found or not.
pub open spec fn text_input(d: Definition, texts: Entries<TextDefinitionModel>, text: Seq<char>) -> InputModel<DraftProcessorOverrideModel> {
    match lookup(texts, text) {
        Some(TextDefinitionModel::File) => InputModel::File(text),
        Some(TextDefinitionModel::Value(v)) => InputModel::Value(v),
        None => InputModel::Processor(ProcessorOverrideModel {
            arguments: Seq::empty(),
            environments: Seq::empty(),
            processor: Some(match item_found(find_by_path(d, text), |x: Definition| x.processors.model()) {
                Some(p) => RefModel::Referenced(text, p),
                None => RefModel::Ref(text),
            }),
        }),
    }
}

/// The edge that a written edge stands for in `d`, with `foreign` the foreign definitions
/// kept by key.
pub open spec fn read_edge(d: Definition, foreign: Entries<Readonly<ForeignDefinition>>, e: EdgeDtoModel) -> EdgeModel {
    EdgeModel {
        definition: match e.definition {
            Some(f) => lookup(foreign, foreign_key(f)),
            None => None,
        },
        processor: match e.processor {
            Some(p) => Some(read_node_processor(d, p)),
            None => None,
        },
        other: e.other,
    }
}

/// The edge that `reference` names in `d`, found or not.
pub open spec fn read_edge_reference(d: Definition, reference: Seq<char>) -> RefModel<Edge, EdgeModel> {
    match item_found(find_by_path(d, reference), |x: Definition| x.edges.model()) {
        Some(e) => RefModel::Referenced(reference, e),
        None => RefModel::Ref(reference),
    }
}

/// The tag that `reference` names in `d`, found or not.
pub open spec fn read_tag(d: Definition, reference: Seq<char>) -> RefModel<RefTag, (Seq<char>, TagModel)> {
    match item_found(find_by_path(d, reference), |x: Definition| x.tags.model()) {
        Some(t) => RefModel::Referenced(reference, t),
        None => RefModel::Ref(reference),
    }
}

/// The reference of an edge of a metadata as written.
pub open spec fn edge_reference(e: ReferenceOrObjectDto<MetadataEdge>) -> Seq<char> {
    match e {
        ReferenceOrObjectDto::Reference(r) => r@,
        ReferenceOrObjectDto::Object(me) => me.reference@,
    }
}

/// The key of the foreign definition that the `j`-th written edge has, if any.
pub open spec fn edge_foreign_key(edges: Seq<(String, EdgeDto)>, j: int) -> Option<Seq<char>> {
    match edges[j].1.definition {
        Some(f) => Some(foreign_key(f.model())),
        None => None,
    }
}

/// The `j`-th written edge has a foreign definition, and no edge before it one with the
/// same key.
pub open spec fn first_foreign(edges: Seq<(String, EdgeDto)>, j: int) -> bool {
    &&& edge_foreign_key(edges, j) is Some
    &&& forall|i: int| 0 <= i < j ==> edge_foreign_key(edges, i) != edge_foreign_key(edges, j)
}

/// No entry after the `j`-th has its name.
pub open spec fn last_named<V>(entries: Seq<(String, V)>, j: int) -> bool {
    forall|i: int| j < i < entries.len() ==> entries[i].0@ != entries[j].0@
}

/// No edge after the `j`-th has its reference.
pub open spec fn last_referenced(edges: Seq<ReferenceOrObjectDto<MetadataEdge>>, j: int) -> bool {
    forall|i: int| j < i < edges.len() ==> edge_reference(edges[i]) != edge_reference(edges[j])
}

/// A definition under construction at one of its stages: it has the parent, arguments and
/// environments of the finished definition `r`, no metadata, and, as asked, its processors,
/// or its edges and tags, or none of them yet.
pub open spec fn stage_of(s: Definition, r: Definition, with_processors: bool, with_edges_and_tags: bool) -> bool {
    &&& s.parent == r.parent
    &&& s.metadata.model().len() == 0
    &&& s.arguments.model() == r.arguments.model()
    &&& s.environments.model() == r.environments.model()
    &&& if with_processors {
        s.processors.model() == r.processors.model()
    } else {
        s.processors.model().len() == 0
    }
    &&& if with_edges_and_tags {
        s.edges.model() == r.edges.model() && s.tags.model() == r.tags.model()
    } else {
        s.edges.model().len() == 0 && s.tags.model().len() == 0
    }
}

/// The root tag `#`, under which the tags directly under it are named by their path.
pub open spec fn root_children(entries: Seq<TagEntryModel>) -> Seq<(Seq<char>, Readonly<RefTag>)>
    decreases entries.len(),
{
    if entries.len() == 0 {
        Seq::empty()
    } else {
        let rest = root_children(entries.drop_last());
        if entries.last().2 == seq!['#'] {
            rest.push((entries.last().1, entries.last().3))
        } else {
            rest
        }
    }
}

/// `r` holds, under its path, each tag read from `entries`, and the root tag `#` with the
/// tags directly under it.
pub open spec fn tags_listed_from(entries: Seq<TagEntryModel>, r: Entries<Readonly<RefTag>>) -> bool {
    let root = lookup(r, seq!['#']);
    &&& root is Some
    &&& r == inserted(collected(entries.map_values(|e: TagEntryModel| (e.1, e.3))), seq!['#'], root->0)
    &&& (*root->0).model() == (seq!['#'], TagModel { label: None, tags: root_children(entries), other: JsonModel::Null })
}

/// `r` holds the tags read from the written `tags`, each under its path, and the root tag.
pub open spec fn tags_listed(tags: Seq<(String, TagDto)>, r: Entries<Readonly<RefTag>>) -> bool {
    exists|entries: Seq<TagEntryModel>| #[trigger] tags_built(seq!['#'], tags, entries) && tags_listed_from(entries, r)
}

/// `fd` is what the written foreign definition `f` stands for in `d`: a definition in place
/// is read with no location and no parent, a text is a file, a JSON document or a
/// processor's reference, and a use of a processor is read as one.
pub open spec fn foreign_read(d: Definition, texts: Entries<TextDefinitionModel>, f: ForeignDefinitionDto, fd: ForeignDefinition) -> bool
    decreases f, 0int,
{
    match f {
        ForeignDefinitionDto::String(text) => fd.model() == (ForeignDefinitionModel { input: Some(text_input(d, texts, text@)), output: None }),
        ForeignDefinitionDto::Processor(p) => fd.model() == (ForeignDefinitionModel {
            input: Some(InputModel::Processor(read_processor_override(d, p.model()))),
            output: None,
        }),
        ForeignDefinitionDto::Definition(ready) => fd.input is None && match fd.output {
            Some(out) => mapped_definition(ready, None, None, texts, out),
            None => false,
        },
    }
}

/// `foreign` holds, by key, what the foreign definitions of the written `edges` stand for in
/// `d`; edges whose foreign definitions have one key share what the first of them stands for.
pub open spec fn foreign_definitions_read(
    d: Definition,
    texts: Entries<TextDefinitionModel>,
    edges: Seq<(String, EdgeDto)>,
    foreign: Entries<Readonly<ForeignDefinition>>,
) -> bool
    decreases edges, 1int,
{
    &&& forall|k: Seq<char>| #[trigger] has_key(foreign, k) <==> exists|j: int| 0 <= j < edges.len() && edge_foreign_key(edges, j) == Some(k)
    &&& forall|j: int| 0 <= j < edges.len() && #[trigger] first_foreign(edges, j) ==> match edges[j].1.definition {
        Some(f) => foreign_read(d, texts, f, *lookup(foreign, foreign_key(f.model()))->0),
        None => true,
    }
}

/// `eo` is what the written edge `e` of a metadata stands for in `d`: the edge its reference
/// names, found or not, and, for an edge written in place, its arguments, environments, JSON
/// and its definition read with no location and no parent.
pub open spec fn edge_override_read(d: Definition, texts: Entries<TextDefinitionModel>, e: ReferenceOrObjectDto<MetadataEdge>, eo: EdgeOverride) -> bool
    decreases e, 0int,
{
    match e {
        ReferenceOrObjectDto::Reference(r) => eo.model() == (EdgeOverrideModel {
            arguments: Seq::empty(),
            environments: Seq::empty(),
            edge: read_edge_reference(d, r@),
            other: Seq::empty(),
            definition: None,
        }),
        ReferenceOrObjectDto::Object(me) => {
            &&& eo.arguments.model() == me.arguments.model().map_values(|a: Seq<char>| read_argument(d, a))
            &&& eo.environments.model() == me.environments.model().map_values(|x: EnvironmentDtoModel| read_environment(d, x))
            &&& eo.edge.model() == read_edge_reference(d, me.reference@)
            &&& eo.other.model() == me.other.model()
            &&& match me.definition {
                Some(dd) => eo.definition matches Some(x) && mapped_definition(dd, None, None, texts, x),
                None => eo.definition is None,
            }
        },
    }
}

/// `m` is what the written metadata `md` stands for in `d`: its edges by reference, the last
/// written edge of a reference standing for it; its tags by reference, found or not; its
/// JSON; and its use of a processor.
pub open spec fn metadata_read(d: Definition, texts: Entries<TextDefinitionModel>, md: MetadataDto, m: Metadata) -> bool
    decreases md, 0int,
{
    &&& m.other.model() == md.other.model()
    &&& m.processor.model() == match md.processor {
        Some(p) => Some(read_node_processor(d, p.model())),
        None => None,
    }
    &&& m.tags.model() == collected(md.tags@.map_values(|t: String| (t@, read_tag(d, t@))))
    &&& forall|k: Seq<char>| #[trigger] has_key(m.edges.model(), k) <==> exists|j: int| 0 <= j < md.edges@.len() && edge_reference(md.edges@[j]) == k
    &&& forall|j: int| 0 <= j < md.edges@.len() && #[trigger] last_referenced(md.edges@, j) ==> edge_override_read(
        d,
        texts,
        md.edges@[j],
        lookup(m.edges.raw(), edge_reference(md.edges@[j]))->0,
    )
}

/// `m` holds, by name, what the written metadata `metas` stand for in `d`; the last written
/// metadata of a name stands for it.
pub open spec fn metadata_map_read(d: Definition, texts: Entries<TextDefinitionModel>, metas: Seq<(String, MetadataDto)>, m: Entries<Readonly<Metadata>>) -> bool
    decreases metas, 1int,
{
    &&& forall|k: Seq<char>| #[trigger] has_key(m, k) <==> exists|j: int| 0 <= j < metas.len() && metas[j].0@ == k
    &&& forall|j: int| 0 <= j < metas.len() && #[trigger] last_named(metas, j) ==> metadata_read(d, texts, metas[j].1, *lookup(m, metas[j].0@)->0)
}

/// `r` is the definition that the written `dto` stands for, found at `location` under
/// `parent`, built in stages `s1`, `s2` and `s4`: its name; its identifier when written; its
/// location, or else `location`; its arguments and environments; its processors, read in
/// `s1`; its foreign definitions and edges, read in `s2`; its tags; and its metadata, read in
/// `s4`.
pub open spec fn stages_of(
    dto: DefinitionDto,
    location: Option<Seq<char>>,
    parent: Option<Readonly<Definition>>,
    texts: Entries<TextDefinitionModel>,
    r: Definition,
    s1: Definition,
    s2: Definition,
    s4: Definition,
) -> bool
    decreases dto, 2int,
{
    &&& r.parent == parent
    &&& r.name@ == dto.name@
    &&& (dto.id matches Some(id) ==> r.id@ == id@)
    &&& (dto.id is None ==> uuid_v4_text(r.id@))
    &&& r.location.model() == match dto.location {
        Some(l) => Some(l@),
        None => location,
    }
    &&& shared_model(r.arguments.model()) == collected(entries_model(dto.arguments@))
    &&& shared_model(r.environments.model()) == collected(entries_model(dto.environments@))
    &&& stage_of(s1, r, false, false)
    &&& stage_of(s2, r, true, false)
    &&& stage_of(s4, r, true, true)
    &&& shared_model(r.processors.model()) == collected(
        dto.processors@.map_values(|e: (String, ProcessorDto)| (e.0@, read_processor(s1, e.1.model()))),
    )
    &&& foreign_definitions_read(s2, texts, dto.edges@, r.foreign_definitions.model())
    &&& shared_model(r.edges.model()) == collected(
        dto.edges@.map_values(|e: (String, EdgeDto)| (e.0@, read_edge(s2, r.foreign_definitions.model(), e.1.model()))),
    )
    &&& tags_listed(dto.tags@, r.tags.model())
    &&& metadata_map_read(s4, texts, dto.metadata@, r.metadata.model())
}

/// `r` is the definition that the written `dto` stands for, found at `location` under
/// `parent`, with `texts` telling what its written texts are.
pub open spec fn mapped_definition(
    dto: DefinitionDto,
    location: Option<Seq<char>>,
    parent: Option<Readonly<Definition>>,
    texts: Entries<TextDefinitionModel>,
    r: Definition,
) -> bool
    decreases dto, 3int,
{
    exists|s1: Definition, s2: Definition, s4: Definition|
        #![trigger stage_of(s1, r, false, false), stage_of(s2, r, true, false), stage_of(s4, r, true, true)]
        stages_of(dto, location, parent, texts, r, s1, s2, s4)
}

// ---------------------------------------------------------------------------------------
// Reading

/// The text of a version 4 UUID: 36 characters, with `-` after the 8th, 12th, 16th and 20th
/// hexadecimal digit, and `4`, the version, as the 13th digit.
pub open spec fn uuid_v4_text(s: Seq<char>) -> bool {
    &&& s.len() == 36
    &&& s[8] == '-'
    &&& s[13] == '-'
    &&& s[14] == '4'
    &&& s[18] == '-'
    &&& s[23] == '-'
}

/// `uuid::Uuid::new_v4`, written as text by its `to_string`: a new random identifier, in the
/// hyphenated form that uuid's `Display` writes, with the version digit `4`. Which digits
/// it holds otherwise is left unsaid: they come from the system's random source.
#[verifier::external_body]
fn new_id() -> (r: String)
    ensures
        uuid_v4_text(r@),
{
    uuid::Uuid::new_v4().to_string()
}

/// Each written entry shared under its name; the last entry of a name is kept.
fn share_entries<V: Model>(entries: &Vec<(String, V)>) -> (r: StrMap<Readonly<V>>)
    ensures
        shared_model(r.model()) == collected(entries_model(entries@)),
{
    let mut shared: StrMap<Readonly<V>> = StrMap::new();
    let mut i: usize = 0;
    assert(entries_model(entries@.take(0)) =~= Seq::<(Seq<char>, V::M)>::empty());
    assert(shared_model(shared.model()) =~= Seq::<(Seq<char>, V::M)>::empty());
    while i < entries.len()
        invariant
            i <= entries@.len(),
            shared_model(shared.model()) == collected(entries_model(entries@.take(i as int))),
        decreases entries.len() - i,
    {
        let ghost before = shared.model();
        let value = readonly(entries[i].1.duplicate());
        shared.insert(entries[i].0.clone(), value);
        proof {
            lemma_shared_inserted(before, entries@[i as int].0@, value);
            assert(entries_model(entries@.take(i + 1)).drop_last() =~= entries_model(entries@.take(i as int)));
            assert(entries_model(entries@.take(i + 1)).last() == (entries@[i as int].0@, entries@[i as int].1.model()));
        }
        i = i + 1;
    }
    assert(entries@.take(entries@.len() as int) =~= entries@);
    shared
}

impl DefinitionDto {
    /// The written arguments, each shared under its name.
    pub fn arguments(&self) -> (r: StrMap<Readonly<Vec<String>>>)
        ensures
            shared_model(r.model()) == collected(entries_model(self.arguments@)),
    {
        share_entries(&self.arguments)
    }

    /// The written environments, each shared under its name.
    pub fn environments(&self) -> (r: StrMap<Readonly<StrMap<String>>>)
        ensures
            shared_model(r.model()) == collected(entries_model(self.environments@)),
    {
        share_entries(&self.environments)
    }

    /// The written tags and all the tags under them, each under its path, and the root tag
    /// `#` with the tags directly under it.
    pub fn list_tags(&self) -> (r: StrMap<Readonly<RefTag>>)
        ensures
            tags_listed(self.tags@, r.model()),
    {
        let root_path = "#".to_owned();
        proof {
            reveal_strlit("#");
            assert(root_path@ =~= seq!['#']);
        }
        let entries = to_tags(&root_path, &self.tags);
        let ghost em = tag_entries_model(entries@);
        let mut all: StrMap<Readonly<RefTag>> = StrMap::new();
        let mut children: Vec<(String, Readonly<RefTag>)> = Vec::new();
        let mut i: usize = 0;
        assert(em.take(0) =~= Seq::<TagEntryModel>::empty());
        assert(em.take(0).map_values(|e: TagEntryModel| (e.1, e.3)) =~= Seq::<(Seq<char>, Readonly<RefTag>)>::empty());
        assert(all.model() =~= Seq::<(Seq<char>, Readonly<RefTag>)>::empty());
        assert(children@.map_values(|e: (String, Readonly<RefTag>)| (e.0@, e.1)) =~= Seq::<(Seq<char>, Readonly<RefTag>)>::empty());
        while i < entries.len()
            invariant
                i <= entries@.len(),
                em == tag_entries_model(entries@),
                root_path@ == seq!['#'],
                all.model() == collected(em.take(i as int).map_values(|e: TagEntryModel| (e.1, e.3))),
                children@.map_values(|e: (String, Readonly<RefTag>)| (e.0@, e.1)) == root_children(em.take(i as int)),
            decreases entries.len() - i,
        {
            let ghost before_children = children@;
            all.insert(entries[i].1.clone(), entries[i].3.duplicate());
            if entries[i].2 == root_path {
                children.push((entries[i].1.clone(), entries[i].3.duplicate()));
                assert(children@.map_values(|e: (String, Readonly<RefTag>)| (e.0@, e.1)) =~= before_children.map_values(
                    |e: (String, Readonly<RefTag>)| (e.0@, e.1),
                ).push((entries@[i as int].1@, entries@[i as int].3)));
            }
            assert(em.take(i + 1).drop_last() =~= em.take(i as int));
            assert(em.take(i + 1).last() == tag_entry_model(entries@[i as int]));
            assert(em.take(i + 1).map_values(|e: TagEntryModel| (e.1, e.3)).drop_last() =~= em.take(i as int).map_values(
                |e: TagEntryModel| (e.1, e.3),
            ));
            i = i + 1;
        }
        assert(em.take(entries@.len() as int) =~= em);
        let root = readonly(crate::reference_value::ReferencedValue {
            reference: root_path.clone(),
            value: Tag { label: None, tags: children, other: JsonValue::Null },
        });
        let ghost before = all.model();
        all.insert(root_path, root);
        proof {
            lemma_inserted(before, seq!['#'], root);
            assert(tags_built(seq!['#'], self.tags@, em));
            assert(tags_listed_from(em, all.model()));
        }
        all
    }
}

/// The processor that the written `processor` stands for in `d`.
fn read_processor_in(processor: &ProcessorDto, d: &Definition) -> (r: Processor)
    ensures
        r.model() == read_processor(*d, processor.model()),
{
    let install = match &processor.install {
        Some(install) => Some(Install {
            arguments: to_arguments(&install.arguments, d),
            environments: to_environments(&install.environments, d),
            program: install.program.clone(),
            current_directory: install.current_directory.duplicate(),
        }),
        None => None,
    };
    Processor {
        arguments: to_arguments(&processor.arguments, d),
        program: processor.program.clone(),
        install,
        environments: to_environments(&processor.environments, d),
        current_directory: processor.current_directory.duplicate(),
    }
}

/// Where a definition written as the text `text` comes from in `d`.
fn text_definition_input(text: &String, d: &Definition, texts: &StrMap<TextDefinition>) -> (r: crate::definition::input::DraftDefinitionInput)
    ensures
        r.model() == text_input(*d, texts.model(), text@),
{
    match texts.get(text) {
        Some(TextDefinition::File) => BaseDefinitionInput::File(text.clone()),
        Some(TextDefinition::Value(v)) => BaseDefinitionInput::Value(v.duplicate()),
        None => {
            let processor = match d.find_processor(text) {
                Some(found) => LazyRef::new_referenced_value(text.clone(), found),
                None => LazyRef::Ref(text.clone()),
            };
            BaseDefinitionInput::Processor(DraftProcessorOverride::processor(&Some(processor)))
        },
    }
}

/// What the written foreign definition `f` stands for in `d`.
fn read_foreign(f: &ForeignDefinitionDto, d: &Definition, texts: &StrMap<TextDefinition>) -> (r: ForeignDefinition)
    ensures
        foreign_read(*d, texts.model(), *f, r),
    decreases f, 0int,
{
    match f {
        ForeignDefinitionDto::Definition(ready) => ForeignDefinition::output(ready.map_ref(None, None, texts)),
        ForeignDefinitionDto::String(text) => ForeignDefinition::input(text_definition_input(text, d, texts)),
        ForeignDefinitionDto::Processor(p) => ForeignDefinition::input(BaseDefinitionInput::Processor(to_processor_override(p, d))),
    }
}

impl DefinitionDto {
    /// Reads the written processors into `definition`.
    fn set_processors(&self, definition: &mut Definition)
        ensures
            *final(definition) == (Definition { processors: final(definition).processors, ..*old(definition) }),
            shared_model(final(definition).processors.model()) == collected(
                self.processors@.map_values(|e: (String, ProcessorDto)| (e.0@, read_processor(*old(definition), e.1.model()))),
            ),
    {
        let ghost d = *definition;
        let ghost read = self.processors@.map_values(|e: (String, ProcessorDto)| (e.0@, read_processor(d, e.1.model())));
        let mut processors: StrMap<Readonly<Processor>> = StrMap::new();
        let mut i: usize = 0;
        assert(read.take(0) =~= Seq::<(Seq<char>, ProcessorModel)>::empty());
        assert(shared_model(processors.model()) =~= Seq::<(Seq<char>, ProcessorModel)>::empty());
        while i < self.processors.len()
            invariant
                i <= self.processors@.len(),
                d == *definition,
                read == self.processors@.map_values(|e: (String, ProcessorDto)| (e.0@, read_processor(d, e.1.model()))),
                shared_model(processors.model()) == collected(read.take(i as int)),
            decreases self.processors.len() - i,
        {
            let ghost before = processors.model();
            let processor = readonly(read_processor_in(&self.processors[i].1, &*definition));
            processors.insert(self.processors[i].0.clone(), processor);
            proof {
                lemma_shared_inserted(before, self.processors@[i as int].0@, processor);
                assert(read.take(i + 1).drop_last() =~= read.take(i as int));
            }
            i = i + 1;
        }
        assert(read.take(read.len() as int) =~= read);
        definition.processors = processors;
    }

    /// The written edges and their foreign definitions, read in `d`.
    fn read_edges_in(&self, d: &Definition, texts: &StrMap<TextDefinition>) -> (r: (StrMap<Readonly<Edge>>, StrMap<Readonly<ForeignDefinition>>))
        ensures
            foreign_definitions_read(*d, texts.model(), self.edges@, r.1.model()),
            shared_model(r.0.model()) == collected(
                self.edges@.map_values(|e: (String, EdgeDto)| (e.0@, read_edge(*d, r.1.model(), e.1.model()))),
            ),
        decreases self, 1int,
    {
        let ghost tm = texts.model();
        let n = self.edges.len();
        let mut foreign: StrMap<Readonly<ForeignDefinition>> = StrMap::new();
        let mut edges: StrMap<Readonly<Edge>> = StrMap::new();
        let mut i: usize = 0;
        assert(self.edges@.take(0) =~= Seq::<(String, EdgeDto)>::empty());
        assert(shared_model(edges.model()) =~= Seq::<(Seq<char>, EdgeModel)>::empty());
        assert(self.edges@.take(0).map_values(|e: (String, EdgeDto)| (e.0@, read_edge(*d, foreign.model(), e.1.model()))) =~= Seq::<(Seq<char>, EdgeModel)>::empty());
        while i < n
            invariant
                n == self.edges@.len(),
                i <= n,
                tm == texts.model(),
                foreign_definitions_read(*d, tm, self.edges@.take(i as int), foreign.model()),
                shared_model(edges.model()) == collected(
                    self.edges@.take(i as int).map_values(|e: (String, EdgeDto)| (e.0@, read_edge(*d, foreign.model(), e.1.model()))),
                ),
            decreases n - i,
        {
            let ghost prefix = self.edges@.take(i as int);
            let ghost next = self.edges@.take(i + 1);
            let ghost f0 = foreign.model();
            let ghost e0 = edges.model();
            assert(next.drop_last() =~= prefix);
            assert(forall|j: int| 0 <= j < i ==> #[trigger] next[j] == prefix[j]);
            assert(next[i as int] == self.edges@[i as int]);
            let key = &self.edges[i].0;
            let e = &self.edges[i].1;
            let definition = match &e.definition {
                None => None,
                Some(f) => {
                    let k = f.key();
                    match foreign.get(&k) {
                        Some(existing) => Some(existing.duplicate()),
                        None => {
                            proof {
                                assert(decreases_to!(*self => self.edges));
                                assert(decreases_to!(self.edges => self.edges@[i as int]));
                                assert(decreases_to!(self.edges@[i as int] => self.edges@[i as int].1));
                                assert(decreases_to!(self.edges@[i as int].1 => self.edges@[i as int].1.definition));
                            }
                            let created = readonly(read_foreign(f, d, texts));
                            foreign.insert(k, created.duplicate());
                            Some(created)
                        },
                    }
                },
            };
            let ghost f1 = foreign.model();
            proof {
                // the foreign definitions read so far keep what they held
                if f1 != f0 {
                    let k = foreign_key(e.definition->0.model());
                    lemma_inserted(f0, k, definition->0);
                    assert(!has_key(f0, k));
                }
                assert(foreign_definitions_read(*d, tm, next, f1)) by {
                    assert forall|k: Seq<char>| #[trigger] has_key(f1, k) <==> exists|j: int| 0 <= j < next.len() && edge_foreign_key(next, j) == Some(k) by {
                        if has_key(f1, k) && !has_key(f0, k) {
                            assert(edge_foreign_key(next, i as int) == Some(k));
                        }
                        if has_key(f0, k) {
                            let j = choose|j: int| 0 <= j < prefix.len() && edge_foreign_key(prefix, j) == Some(k);
                            assert(edge_foreign_key(next, j) == Some(k));
                        }
                        if exists|j: int| 0 <= j < next.len() && edge_foreign_key(next, j) == Some(k) {
                            let j = choose|j: int| 0 <= j < next.len() && edge_foreign_key(next, j) == Some(k);
                            if j < i {
                                assert(edge_foreign_key(prefix, j) == Some(k));
                            }
                        }
                    }
                    assert forall|j: int| 0 <= j < next.len() && #[trigger] first_foreign(next, j) implies match next[j].1.definition {
                        Some(f) => foreign_read(*d, tm, f, *lookup(f1, foreign_key(f.model()))->0),
                        None => true,
                    } by {
                        if j < i {
                            assert forall|x: int| 0 <= x < j implies edge_foreign_key(prefix, x) != edge_foreign_key(prefix, j) by {
                                assert(edge_foreign_key(next, x) != edge_foreign_key(next, j));
                            }
                            assert(first_foreign(prefix, j));
                            assert(has_key(f0, edge_foreign_key(prefix, j)->0));
                        } else {
                            if has_key(f0, edge_foreign_key(next, j)->0) {
                                let x = choose|x: int| 0 <= x < prefix.len() && edge_foreign_key(prefix, x) == edge_foreign_key(next, j);
                                assert(edge_foreign_key(next, x) == edge_foreign_key(next, j));
                            }
                        }
                    }
                }
                // the edges read so far lead to the same foreign definitions
                assert forall|j: int| 0 <= j < i implies read_edge(*d, f0, #[trigger] prefix[j].1.model()) == read_edge(*d, f1, prefix[j].1.model()) by {
                    if prefix[j].1.definition is Some {
                        let k = edge_foreign_key(prefix, j)->0;
                        assert(has_key(f0, k));
                    }
                }
                assert(prefix.map_values(|x: (String, EdgeDto)| (x.0@, read_edge(*d, f0, x.1.model())))
                    =~= prefix.map_values(|x: (String, EdgeDto)| (x.0@, read_edge(*d, f1, x.1.model()))));
            }
            let processor = match &e.processor {
                Some(p) => Some(to_node_processor(p, d)),
                None => None,
            };
            let edge = readonly(Edge { definition, processor, other: e.other.duplicate() });
            assert((*edge).model() == read_edge(*d, f1, e.model()));
            edges.insert(key.clone(), edge);
            proof {
                lemma_shared_inserted(e0, key@, edge);
                assert(next.map_values(|x: (String, EdgeDto)| (x.0@, read_edge(*d, f1, x.1.model()))).drop_last()
                    =~= prefix.map_values(|x: (String, EdgeDto)| (x.0@, read_edge(*d, f1, x.1.model()))));
            }
            i = i + 1;
        }
        assert(self.edges@.take(n as int) =~= self.edges@);
        (edges, foreign)
    }

    /// Reads the written edges and their foreign definitions into `definition`.
    fn set_edges(&self, definition: &mut Definition, texts: &StrMap<TextDefinition>)
        ensures
            *final(definition) == (Definition {
                edges: final(definition).edges,
                foreign_definitions: final(definition).foreign_definitions,
                ..*old(definition)
            }),
            foreign_definitions_read(*old(definition), texts.model(), self.edges@, final(definition).foreign_definitions.model()),
            shared_model(final(definition).edges.model()) == collected(
                self.edges@.map_values(
                    |e: (String, EdgeDto)| (e.0@, read_edge(*old(definition), final(definition).foreign_definitions.model(), e.1.model())),
                ),
            ),
        decreases self, 2int,
    {
        let (edges, foreign) = self.read_edges_in(&*definition, texts);
        definition.edges = edges;
        definition.foreign_definitions = foreign;
    }
}

/// What the written edge `e` of a metadata stands for in `d`.
fn read_edge_override(e: &ReferenceOrObjectDto<MetadataEdge>, d: &Definition, texts: &StrMap<TextDefinition>) -> (r: EdgeOverride)
    ensures
        edge_override_read(*d, texts.model(), *e, r),
    decreases e, 0int,
{
    match e {
        ReferenceOrObjectDto::Reference(reference) => {
            let edge = match d.find_edge(reference) {
                Some(found) => LazyRefOrValue::to_referenced_value(reference.clone(), found),
                None => LazyRefOrValue::Ref(reference.clone()),
            };
            EdgeOverride::edge(edge)
        },
        ReferenceOrObjectDto::Object(metadata_edge) => {
            let edge = match d.find_edge(&metadata_edge.reference) {
                Some(found) => LazyRefOrValue::to_referenced_value(metadata_edge.reference.clone(), found),
                None => LazyRefOrValue::Ref(metadata_edge.reference.clone()),
            };
            let definition = match &metadata_edge.definition {
                Some(inner) => Some(inner.map_ref(None, None, texts)),
                None => None,
            };
            EdgeOverride {
                arguments: to_arguments(&metadata_edge.arguments, d),
                environments: to_environments(&metadata_edge.environments, d),
                edge,
                other: metadata_edge.other.duplicate(),
                definition,
            }
        },
    }
}

/// What the written metadata `md` stands for in `d`.
fn read_metadata_dto(md: &MetadataDto, d: &Definition, texts: &StrMap<TextDefinition>) -> (r: Metadata)
    ensures
        metadata_read(*d, texts.model(), *md, r),
    decreases md, 1int,
{
    let ghost tm = texts.model();
    let mut edges: StrMap<EdgeOverride> = StrMap::new();
    let mut i: usize = 0;
    while i < md.edges.len()
        invariant
            i <= md.edges@.len(),
            tm == texts.model(),
            forall|k: Seq<char>| #[trigger] has_key(edges.model(), k) <==> exists|j: int| 0 <= j < i && edge_reference(md.edges@[j]) == k,
            forall|j: int| 0 <= j < i && #[trigger] last_referenced(md.edges@.take(i as int), j) ==> edge_override_read(
                *d,
                tm,
                md.edges@[j],
                lookup(edges.raw(), edge_reference(md.edges@[j]))->0,
            ),
        decreases md.edges.len() - i,
    {
        let ghost m0 = edges.model();
        let ghost r0 = edges.raw();
        proof {
            assert(decreases_to!(*md => md.edges));
            assert(decreases_to!(md.edges => md.edges@[i as int]));
            edges.lemma_raw();
        }
        let reference = md.edges[i].reference();
        let edge = read_edge_override(&md.edges[i], d, texts);
        edges.insert(reference, edge);
        proof {
            lemma_inserted(m0, reference@, edge.model());
            lemma_inserted(r0, reference@, edge);
            let prefix = md.edges@.take(i as int);
            let next = md.edges@.take(i + 1);
            assert forall|k: Seq<char>| #[trigger] has_key(edges.model(), k) <==> exists|j: int| 0 <= j < i + 1 && edge_reference(md.edges@[j]) == k by {
                if has_key(edges.model(), k) && k != reference@ {
                    assert(has_key(m0, k));
                }
            }
            assert forall|j: int| 0 <= j < i + 1 && #[trigger] last_referenced(next, j) implies edge_override_read(
                *d,
                tm,
                md.edges@[j],
                lookup(edges.raw(), edge_reference(md.edges@[j]))->0,
            ) by {
                if j < i {
                    assert(next[i as int] == md.edges@[i as int]);
                    assert(edge_reference(md.edges@[j]) != reference@);
                    assert forall|x: int| j < x < prefix.len() implies edge_reference(prefix[x]) != edge_reference(prefix[j]) by {
                        assert(prefix[x] == next[x]);
                    }
                    assert(last_referenced(prefix, j));
                }
            }
        }
        i = i + 1;
    }
    assert(md.edges@.take(md.edges@.len() as int) =~= md.edges@);
    let ghost read_tags = md.tags@.map_values(|t: String| (t@, read_tag(*d, t@)));
    let mut tags: StrMap<LazyRefOrValue<RefTag>> = StrMap::new();
    let mut i: usize = 0;
    assert(read_tags.take(0) =~= Seq::<(Seq<char>, RefModel<RefTag, (Seq<char>, TagModel)>)>::empty());
    while i < md.tags.len()
        invariant
            i <= md.tags@.len(),
            read_tags == md.tags@.map_values(|t: String| (t@, read_tag(*d, t@))),
            tags.model() == collected(read_tags.take(i as int)),
        decreases md.tags.len() - i,
    {
        let tag = &md.tags[i];
        let read = match d.find_tag(tag) {
            Some(found) => LazyRefOrValue::to_referenced_value(tag.clone(), found),
            None => LazyRefOrValue::Ref(tag.clone()),
        };
        tags.insert(tag.clone(), read);
        assert(read_tags.take(i + 1).drop_last() =~= read_tags.take(i as int));
        i = i + 1;
    }
    assert(read_tags.take(read_tags.len() as int) =~= read_tags);
    let processor = match &md.processor {
        Some(p) => Some(to_node_processor(p, d)),
        None => None,
    };
    Metadata { edges, tags, other: md.other.duplicate(), processor }
}

impl DefinitionDto {
    /// Reads the written metadata into `definition`.
    fn set_metadata(&self, definition: &mut Definition, texts: &StrMap<TextDefinition>)
        ensures
            *final(definition) == (Definition { metadata: final(definition).metadata, ..*old(definition) }),
            metadata_map_read(*old(definition), texts.model(), self.metadata@, final(definition).metadata.model()),
        decreases self, 2int,
    {
        let ghost d = *definition;
        let ghost tm = texts.model();
        let mut metadata: StrMap<Readonly<Metadata>> = StrMap::new();
        let mut i: usize = 0;
        while i < self.metadata.len()
            invariant
                i <= self.metadata@.len(),
                d == *definition,
                tm == texts.model(),
                forall|k: Seq<char>| #[trigger] has_key(metadata.model(), k) <==> exists|j: int| 0 <= j < i && self.metadata@[j].0@ == k,
                forall|j: int| 0 <= j < i && #[trigger] last_named(self.metadata@.take(i as int), j) ==> metadata_read(
                    d,
                    tm,
                    self.metadata@[j].1,
                    *lookup(metadata.model(), self.metadata@[j].0@)->0,
                ),
            decreases self.metadata.len() - i,
        {
            let ghost m0 = metadata.model();
            proof {
                assert(decreases_to!(*self => self.metadata));
                assert(decreases_to!(self.metadata => self.metadata@[i as int]));
                assert(decreases_to!(self.metadata@[i as int] => self.metadata@[i as int].1));
            }
            let read = readonly(read_metadata_dto(&self.metadata[i].1, &*definition, texts));
            let key = self.metadata[i].0.clone();
            metadata.insert(key, read);
            proof {
                lemma_inserted(m0, self.metadata@[i as int].0@, read);
                let prefix = self.metadata@.take(i as int);
                let next = self.metadata@.take(i + 1);
                assert forall|k: Seq<char>| #[trigger] has_key(metadata.model(), k) <==> exists|j: int| 0 <= j < i + 1 && self.metadata@[j].0@ == k by {
                    if has_key(metadata.model(), k) && k != self.metadata@[i as int].0@ {
                        assert(has_key(m0, k));
                    }
                }
                assert forall|j: int| 0 <= j < i + 1 && #[trigger] last_named(next, j) implies metadata_read(
                    d,
                    tm,
                    self.metadata@[j].1,
                    *lookup(metadata.model(), self.metadata@[j].0@)->0,
                ) by {
                    if j < i {
                        assert(next[i as int] == self.metadata@[i as int]);
                        assert(self.metadata@[j].0@ != self.metadata@[i as int].0@);
                        assert forall|x: int| j < x < prefix.len() implies prefix[x].0@ != prefix[j].0@ by {
                            assert(prefix[x] == next[x]);
                        }
                        assert(last_named(prefix, j));
                    }
                }
            }
            i = i + 1;
        }
        assert(self.metadata@.take(self.metadata@.len() as int) =~= self.metadata@);
        definition.metadata = metadata;
    }

    /// The definition that this written definition stands for, found at `location` under
    /// `parent`.
    fn map_ref(&self, location: Option<String>, parent: Option<Readonly<Definition>>, texts: &StrMap<TextDefinition>) -> (r: Definition)
        ensures
            mapped_definition(*self, location.model(), parent, texts.model(), r),
        decreases self, 3int,
    {
        let id = match &self.id {
            Some(id) => id.clone(),
            None => new_id(),
        };
        let found_location = match &self.location {
            Some(written) => Some(written.clone()),
            None => location,
        };
        let mut definition = Definition {
            parent,
            name: self.name.clone(),
            id,
            location: found_location,
            metadata: StrMap::new(),
            edges: StrMap::new(),
            tags: StrMap::new(),
            processors: StrMap::new(),
            arguments: self.arguments(),
            environments: self.environments(),
            foreign_definitions: StrMap::new(),
        };
        let ghost s1 = definition;
        self.set_processors(&mut definition);
        let ghost s2 = definition;
        self.set_edges(&mut definition, texts);
        definition.tags = self.list_tags();
        let ghost s4 = definition;
        self.set_metadata(&mut definition, texts);
        assert(stages_of(*self, location.model(), parent, texts.model(), definition, s1, s2, s4));
        assert(mapped_definition(*self, location.model(), parent, texts.model(), definition));
        definition
    }

    /// The definition that this written definition stands for, found at `location` under
    /// `parent`: its own location when it writes one.
    pub fn map_with_location(self, location: Option<String>, parent: Option<Readonly<Definition>>, texts: &StrMap<TextDefinition>) -> (r: Definition)
        ensures
            mapped_definition(self, location.model(), parent, texts.model(), r),
    {
        self.map_ref(location, parent, texts)
    }

    /// The definition that this written definition stands for, with no location and no
    /// parent given.
    pub fn map(self, texts: &StrMap<TextDefinition>) -> (r: Definition)
        ensures
            mapped_definition(self, None, None, texts.model(), r),
    {
        self.map_ref(None, None, texts)
    }

    /// The definition that this written definition stands for, found at `location`, with
    /// `location` as its location whatever it writes.
    pub fn map_overwrite_location(self, location: String, texts: &StrMap<TextDefinition>) -> (r: Definition)
        ensures
            r.location.model() == Some(location@),
            exists|m: Definition| #[trigger] mapped_definition(self, Some(location@), None, texts.model(), m)
                && r == (Definition { location: r.location, ..m }),
    {
        let mut definition = self.map_ref(Some(location.clone()), None, texts);
        let ghost m = definition;
        definition.location = Some(location);
        assert(mapped_definition(self, Some(location@), None, texts.model(), m));
        definition
    }
}

impl ProcessorResult {
    /// What a processor's written result stands for: what it adds, as written, and its
    /// definition read at `location` under `parent`.
    pub fn from_dto(result: ProcessorResultDto, location: Option<String>, parent: Readonly<Definition>, texts: &StrMap<TextDefinition>) -> (r: ProcessorResult)
        ensures
            match result.enrichment {
                Some(e) => r.enrichment matches Some(x) && x.edge.model() == e.edge.model() && x.metadata.model() == e.metadata.model(),
                None => r.enrichment is None,
            },
            match result.definition {
                Some(d) => r.definition matches Some(x) && mapped_definition(d, location.model(), Some(parent), texts.model(), x),
                None => r.definition is None,
            },
    {
        let enrichment = match result.enrichment {
            Some(e) => Some(Enrichment { edge: e.edge, metadata: e.metadata }),
            None => None,
        };
        let definition = match result.definition {
            Some(d) => Some(d.map_with_location(location, Some(parent), texts)),
            None => None,
        };
        ProcessorResult { enrichment, definition }
    }
}

} // verus!
