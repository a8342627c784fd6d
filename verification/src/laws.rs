//! What holds of the library's operations taken together.
use vstd::prelude::*;
use crate::model::Model;
use crate::strmap::{Entries, has_key, lookup, inserted, key_index, last_key_index, lemma_inserted, lemma_key_index, collected, unique_keys};
use crate::merge::{Merge, entries_merged, new_entries};
use crate::json::JsonModel;
use crate::reference_value::RefModel;
use crate::processor::{ArgumentsModel, EnvironmentsModel};
use crate::dto::EnvironmentDtoModel;
use crate::definition::definition::{Definition, definition_contexts, metadata_contexts, edge_contexts, edge_processor_context};
use crate::definition::metadata::Metadata;
use crate::definition::finders::{find_by_path, find_by_segments, path_segments, split_from, root_of, item_found, current_token, root_token, parent_token};
use crate::contexts::ProcessorContextModel;
use crate::mappers::arguments::{is_reference, read_argument, written_arguments};
use crate::mappers::environments::{read_environment, written_environment};
use crate::engine::appended;
use crate::thread::Readonly;
use crate::definition::metadata::MetadataModel;
use crate::definition::edge::EdgeOverrideModel;
use crate::contexts::DefinitionContextModel;
use crate::engine::enriched_metadata;
use crate::dto::{ProcessorOverrideDtoModel, ForeignDefinitionDtoModel};
use crate::mappers::definition_dto::to_definition::{
    escaped, key_of_parts, optional_parts, variables_parts, environment_key, foreign_key,
};
use crate::processor::DraftProcessorOverrideModel;
use crate::mappers::processors::{read_processor_override, strip_reference_prefix};
use crate::mappers::definition_dto::from_definition::written_processor_override;
use crate::reference_value::model_reference;
use crate::definition::tag::RefTag;
use crate::dto::{TagDto, TagDtoModel, entries_model, tag_dto_model, DefinitionDto, MetadataDto, EdgeDto, ProcessorDto};
use crate::mappers::tags::{TagEntryModel, tags_built, tag_built, block_len, tag_path, children_of, written_tag};
use crate::mappers::definition_dto::to_definition::{
    tags_listed, tags_listed_from, root_children, mapped_definition, stages_of, stage_of, shared_model, read_edge,
    read_processor, TextDefinitionModel,
};
use crate::mappers::definition_dto::from_definition::written_definition;
use crate::processor::Processor;
use crate::strmap::StrMap;
use crate::definition::definition::DefinitionModel;
use crate::definition::merging::{
    definition_merged, keys_taken, lemma_metadata_map_keys, lemma_edge_map_keys, lemma_shared_tag_map_keys,
    lemma_foreign_map_keys,
};

verus! {

/// Environments read in a definition and written back are the environments written: a
/// reference is written back as the reference, found or not.
pub proof fn law_environments_round_trip(d: Definition, written: Seq<EnvironmentDtoModel>)
    ensures
        written.map_values(|e: EnvironmentDtoModel| read_environment(d, e)).map_values(
            |e: EnvironmentsModel| written_environment(e),
        ) == written,
{
    let back = written.map_values(|e: EnvironmentDtoModel| read_environment(d, e)).map_values(
        |e: EnvironmentsModel| written_environment(e),
    );
    assert forall|i: int| 0 <= i < written.len() implies back[i] == written[i] by {
        match written[i] {
            EnvironmentDtoModel::Reference(r) => {},
            EnvironmentDtoModel::Value(v) => {},
        }
    }
    assert(back =~= written);
}

/// Whether a written argument stays when it is read in `d` and written back: an argument in
/// place stays, and so does a reference that names arguments of `d`.
pub open spec fn argument_kept(d: Definition, argument: Seq<char>) -> bool {
    !is_reference(argument) || item_found(find_by_path(d, argument), |x: Definition| x.arguments.model()) is Some
}

/// Arguments read in a definition and written back are the arguments written, less the
/// references that name no arguments there.
pub proof fn law_arguments_round_trip(d: Definition, written: Seq<Seq<char>>)
    ensures
        written_arguments(written.map_values(|a: Seq<char>| read_argument(d, a)))
            == written.filter(|a: Seq<char>| argument_kept(d, a)),
    decreases written.len(),
{
    reveal(Seq::filter);
    if written.len() > 0 {
        let rest = written.drop_last();
        law_arguments_round_trip(d, rest);
        let read = written.map_values(|a: Seq<char>| read_argument(d, a));
        assert(read.drop_last() =~= rest.map_values(|a: Seq<char>| read_argument(d, a)));
        assert(read.last() == read_argument(d, written.last()));
    }
}

proof fn lemma_segments_after_current(path: Seq<char>)
    ensures
        path_segments(seq!['.', '/'] + path) == seq![seq!['.']] + path_segments(path),
{
    let s = seq!['.', '/'] + path;
    assert(s.drop_first() =~= seq!['/'] + path);
    assert((seq!['/'] + path).drop_first() =~= path);
    assert(Seq::<char>::empty().push('.') =~= seq!['.']);
    assert(split_from(s, Seq::empty()) == split_from(seq!['/'] + path, seq!['.']));
    assert(split_from(seq!['/'] + path, seq!['.']) == seq![seq!['.']] + split_from(path, Seq::empty()));
}

/// A path that names something names the same thing after `./`.
pub proof fn law_current_segment(d: Definition, path: Seq<char>)
    requires
        path_segments(path).len() > 0,
    ensures
        find_by_path(d, seq!['.', '/'] + path) == find_by_path(d, path),
{
    lemma_segments_after_current(path);
    let s = seq![seq!['.']] + path_segments(path);
    assert(s[0] == current_token());
    assert(s[0] != root_token()) by {
        assert(s[0][0] != root_token()[0]);
    }
    assert(s.subrange(1, s.len() as int) =~= path_segments(path));
}

proof fn lemma_segments_after_parent(path: Seq<char>)
    ensures
        path_segments(seq!['.', '.', '/'] + path) == seq![seq!['.', '.']] + path_segments(path),
{
    let s = seq!['.', '.', '/'] + path;
    assert(s.drop_first() =~= seq!['.', '/'] + path);
    assert((seq!['.', '/'] + path).drop_first() =~= seq!['/'] + path);
    assert((seq!['/'] + path).drop_first() =~= path);
    assert(Seq::<char>::empty().push('.') =~= seq!['.']);
    assert(seq!['.'].push('.') =~= seq!['.', '.']);
    assert(split_from(s, Seq::empty()) == split_from(seq!['.', '/'] + path, seq!['.']));
    assert(split_from(seq!['.', '/'] + path, seq!['.']) == split_from(seq!['/'] + path, seq!['.', '.']));
    assert(split_from(seq!['/'] + path, seq!['.', '.']) == seq![seq!['.', '.']] + split_from(path, Seq::empty()));
}

/// A path that names something from a definition's parent names the same thing from the
/// definition after `../`; from a definition without a parent, such a path names nothing.
pub proof fn law_parent_segment(d: Definition, path: Seq<char>)
    requires
        path_segments(path).len() > 0,
    ensures
        find_by_path(d, seq!['.', '.', '/'] + path) == match d.parent {
            Some(p) => find_by_path(*p, path),
            None => None,
        },
{
    lemma_segments_after_parent(path);
    let s = seq![seq!['.', '.']] + path_segments(path);
    assert(s[0] == parent_token());
    assert(s[0] != current_token()) by {
        assert(s[0].len() != current_token().len());
    }
    assert(s[0] != root_token()) by {
        assert(s[0][0] != root_token()[0]);
    }
    assert(s.subrange(1, s.len() as int) =~= path_segments(path));
}

spec fn parent_of(d: Definition) -> Definition {
    *d.parent->0
}

proof fn lemma_root_has_no_parent(d: Definition)
    ensures
        root_of(d).parent is None,
        root_of(root_of(d)) == root_of(d),
    decreases d,
{
    if d.parent is Some {
        assert(decreases_to!(d => parent_of(d)));
        lemma_root_has_no_parent(parent_of(d));
    }
}

/// `#` names the root of a definition's chain of parents: a definition without a parent, its
/// own root.
pub proof fn law_root(d: Definition)
    ensures
        find_by_path(d, seq!['#']) == Some((None::<Seq<char>>, root_of(d))),
        root_of(d).parent is None,
        root_of(root_of(d)) == root_of(d),
{
    lemma_root_has_no_parent(d);
    assert(seq!['#'].drop_first() =~= Seq::<char>::empty());
    assert(Seq::<char>::empty().push('#') =~= seq!['#']);
    assert(split_from(seq!['#'], Seq::empty()) == split_from(Seq::<char>::empty(), seq!['#']));
    assert(path_segments(seq!['#']) =~= seq![seq!['#']]);
}

/// Every processor run may write what it runs for: one run for an edge may write the edge,
/// and one run for a metadata alone may write the metadata and no edge.
pub open spec fn run_writes_what_it_runs_for(c: ProcessorContextModel) -> bool {
    &&& c.definition.edge is Some ==> c.definition.write_edge
    &&& c.definition.edge is None ==> c.definition.write_metadata && !c.definition.write_edge
}

proof fn lemma_metadata_runs(location: Option<Seq<char>>, key: Seq<char>, metadata: Readonly<Metadata>)
    ensures
        forall|i: int| 0 <= i < metadata_contexts(location, key, metadata).len() ==> run_writes_what_it_runs_for(
            #[trigger] metadata_contexts(location, key, metadata)[i],
        ),
{
}

/// Each processor run of a definition may write what it runs for: the edge it runs for, or,
/// when it runs for a metadata alone, that metadata.
pub proof fn law_runs_write_what_they_run_for(location: Option<Seq<char>>, metadata: Entries<Readonly<Metadata>>)
    ensures
        forall|i: int| 0 <= i < definition_contexts(location, metadata).len() ==> run_writes_what_it_runs_for(
            #[trigger] definition_contexts(location, metadata)[i],
        ),
    decreases metadata.len(),
{
    if metadata.len() > 0 {
        law_runs_write_what_they_run_for(location, metadata.drop_last());
        lemma_metadata_runs(location, metadata.last().0, metadata.last().1);
        let before = definition_contexts(location, metadata.drop_last());
        let last = metadata_contexts(location, metadata.last().0, metadata.last().1);
        assert forall|i: int| 0 <= i < definition_contexts(location, metadata).len() implies run_writes_what_it_runs_for(
            #[trigger] definition_contexts(location, metadata)[i],
        ) by {
            if i < before.len() {
                assert(definition_contexts(location, metadata)[i] == before[i]);
            } else {
                assert(definition_contexts(location, metadata)[i] == last[i - before.len()]);
            }
        }
    }
}

/// A value stored under a key is what the key then finds; other keys find what they found.
pub proof fn law_read_after_write<M>(entries: Entries<M>, key: Seq<char>, value: M, other: Seq<char>)
    ensures
        lookup(inserted(entries, key, value), key) == Some(value),
        other != key ==> lookup(inserted(entries, key, value), other) == lookup(entries, other),
{
    lemma_inserted(entries, key, value);
}

/// A merged map holds the keys of both maps, and no other.
pub proof fn law_merge_keeps_keys<V: Merge>(a: Entries<V::M>, b: Entries<V::M>, r: Entries<V::M>, k: Seq<char>)
    requires
        entries_merged::<V>(a, b, r),
    ensures
        has_key(r, k) <==> has_key(a, k) || has_key(b, k),
{
    let tail = r.subrange(a.len() as int, r.len() as int);
    let pred = |e: (Seq<char>, V::M)| !has_key(a, e.0);
    if has_key(a, k) {
        let j = choose|j: int| 0 <= j < a.len() && a[j].0 == k;
        assert(r[j].0 == k);
    } else if has_key(b, k) {
        let j = choose|j: int| 0 <= j < b.len() && b[j].0 == k;
        assert(pred(b[j]));
        b.lemma_filter_contains(pred, j);
        assert(tail.contains(b[j]));
        let x = choose|x: int| 0 <= x < tail.len() && tail[x] == b[j];
        assert(r[a.len() + x] == tail[x]);
    }
    if has_key(r, k) {
        let j = choose|j: int| 0 <= j < r.len() && r[j].0 == k;
        if j >= a.len() {
            assert(tail[j - a.len()] == r[j]);
            assert(new_entries(a, b).contains(r[j]));
            b.lemma_filter_contains_rev(pred, r[j]);
            let x = choose|x: int| 0 <= x < b.len() && b[x] == r[j];
            assert(b[x].0 == k);
        } else {
            assert(a[j].0 == k);
        }
    }
}

/// The keys of a map's model are those of its entries.
proof fn lemma_raw_keys<V: Model>(m: StrMap<V>, k: Seq<char>)
    ensures
        has_key(keys_taken(m, m.raw().len() as int), k) <==> has_key(m.model(), k),
{
    m.lemma_raw();
    assert(keys_taken(m, m.raw().len() as int) =~= m.raw());
    lemma_key_index(m.raw(), k);
    lemma_key_index(m.model(), k);
}

/// A merged definition holds the metadata, edges, tags, processors, arguments, environments
/// and foreign definitions of both definitions, each by key, and no other.
pub proof fn law_definition_merge_keeps_keys(a: DefinitionModel, b: Definition, r: DefinitionModel, k: Seq<char>)
    requires
        definition_merged(a, b, r),
    ensures
        has_key(r.metadata, k) <==> has_key(a.metadata, k) || has_key(b.metadata.model(), k),
        has_key(r.edges, k) <==> has_key(a.edges, k) || has_key(b.edges.model(), k),
        has_key(r.tags, k) <==> has_key(a.tags, k) || has_key(b.tags.model(), k),
        has_key(r.processors, k) <==> has_key(a.processors, k) || has_key(b.processors.model(), k),
        has_key(r.arguments, k) <==> has_key(a.arguments, k) || has_key(b.arguments.model(), k),
        has_key(r.environments, k) <==> has_key(a.environments, k) || has_key(b.environments.model(), k),
        has_key(r.foreign_definitions, k) <==> has_key(a.foreign_definitions, k) || has_key(b.foreign_definitions.model(), k),
{
    lemma_metadata_map_keys(a.metadata, b.metadata, b.metadata.raw().len() as int, r.metadata, k);
    lemma_raw_keys(b.metadata, k);
    lemma_edge_map_keys(a.edges, b.edges, b.edges.raw().len() as int, r.edges, k);
    lemma_raw_keys(b.edges, k);
    lemma_shared_tag_map_keys(a.tags, b.tags, b.tags.raw().len() as int, r.tags, k);
    lemma_raw_keys(b.tags, k);
    lemma_foreign_map_keys(a.foreign_definitions, b.foreign_definitions, b.foreign_definitions.raw().len() as int, r.foreign_definitions, k);
    lemma_raw_keys(b.foreign_definitions, k);
    law_merge_keeps_keys::<Readonly<Processor>>(a.processors, b.processors.model(), r.processors, k);
    law_merge_keeps_keys::<Readonly<Vec<String>>>(a.arguments, b.arguments.model(), r.arguments, k);
    law_merge_keeps_keys::<Readonly<StrMap<String>>>(a.environments, b.environments.model(), r.environments, k);
}

/// The tags of `entries` read directly under the tag at `path`, in order.
pub open spec fn tags_under(entries: Seq<TagEntryModel>, path: Seq<char>) -> Seq<Readonly<RefTag>>
    decreases entries.len(),
{
    if entries.len() == 0 {
        Seq::empty()
    } else {
        let rest = tags_under(entries.drop_last(), path);
        if entries.last().2 == path {
            rest.push(entries.last().3)
        } else {
            rest
        }
    }
}

/// A tag as written back: its reference and its written form.
pub open spec fn written_back(t: Readonly<RefTag>) -> (Seq<char>, TagDtoModel) {
    ((*t).reference@, written_tag((*t).value))
}

proof fn lemma_tags_under_concat(a: Seq<TagEntryModel>, b: Seq<TagEntryModel>, path: Seq<char>)
    ensures
        tags_under(a + b, path) == tags_under(a, path) + tags_under(b, path),
    decreases b.len(),
{
    if b.len() == 0 {
        assert(a + b =~= a);
        assert(tags_under(a, path) + tags_under(b, path) =~= tags_under(a, path));
    } else {
        assert((a + b).drop_last() =~= a + b.drop_last());
        lemma_tags_under_concat(a, b.drop_last(), path);
        assert((a + b).last() == b.last());
        if b.last().2 == path {
            assert(tags_under(a, path) + tags_under(b, path) =~= (tags_under(a, path) + tags_under(b.drop_last(), path)).push(b.last().3));
        }
    }
}

proof fn lemma_children_under(entries: Seq<TagEntryModel>, path: Seq<char>)
    ensures
        children_of(entries, path).len() == tags_under(entries, path).len(),
        forall|i: int| 0 <= i < tags_under(entries, path).len() ==> #[trigger] children_of(entries, path)[i].1 == tags_under(entries, path)[i],
    decreases entries.len(),
{
    if entries.len() > 0 {
        lemma_children_under(entries.drop_last(), path);
    }
}

proof fn lemma_root_children_under(entries: Seq<TagEntryModel>)
    ensures
        root_children(entries).len() == tags_under(entries, seq!['#']).len(),
        forall|i: int| 0 <= i < tags_under(entries, seq!['#']).len() ==> #[trigger] root_children(entries)[i].1 == tags_under(entries, seq!['#'])[i],
    decreases entries.len(),
{
    if entries.len() > 0 {
        lemma_root_children_under(entries.drop_last());
    }
}

/// The tags read from written tags under the tag at `p` are directly under it or deeper.
proof fn lemma_built_depth(p: Seq<char>, tags: Seq<(String, TagDto)>, r: Seq<TagEntryModel>)
    requires
        tags_built(p, tags, r),
    ensures
        forall|i: int| 0 <= i < r.len() ==> #[trigger] r[i].2 == p || r[i].2.len() > p.len(),
    decreases tags, 0int,
{
    if tags.len() > 0 {
        assert(decreases_to!(tags => tags[tags.len() - 1]));
        let b = block_len(tags.last().1);
        let r1 = r.subrange(0, r.len() - b);
        let r2 = r.subrange(r.len() - b, r.len() as int);
        lemma_built_depth(p, tags.drop_last(), r1);
        lemma_block_depth(p, tags.last(), r2);
        assert forall|i: int| 0 <= i < r.len() implies #[trigger] r[i].2 == p || r[i].2.len() > p.len() by {
            if i < r.len() - b {
                assert(r[i] == r1[i]);
            } else {
                assert(r[i] == r2[i - (r.len() - b)]);
            }
        }
    }
}

proof fn lemma_block_depth(p: Seq<char>, entry: (String, TagDto), b: Seq<TagEntryModel>)
    requires
        tag_built(p, entry, b),
    ensures
        forall|i: int| 0 <= i < b.len() ==> #[trigger] b[i].2 == p || b[i].2.len() > p.len(),
        forall|i: int| 0 <= i < b.len() - 1 ==> #[trigger] b[i].2.len() > p.len(),
    decreases entry, 1int,
{
    let path = tag_path(p, entry.0@);
    lemma_built_depth(path, entry.1.tags@, b.drop_last());
    assert forall|i: int| 0 <= i < b.len() - 1 implies #[trigger] b[i].2.len() > p.len() by {
        assert(b[i] == b.drop_last()[i]);
    }
}

/// Written tags read under the tag at `p` and written back are the written tags.
proof fn lemma_built_written_back(p: Seq<char>, tags: Seq<(String, TagDto)>, r: Seq<TagEntryModel>)
    requires
        tags_built(p, tags, r),
    ensures
        tags_under(r, p).map_values(|t: Readonly<RefTag>| written_back(t)) == entries_model(tags),
    decreases tags, 0int,
{
    if tags.len() == 0 {
        assert(r.len() == 0);
        assert(tags_under(r, p).map_values(|t: Readonly<RefTag>| written_back(t)) =~= entries_model(tags));
    } else {
        assert(decreases_to!(tags => tags[tags.len() - 1]));
        let b = block_len(tags.last().1);
        let r1 = r.subrange(0, r.len() - b);
        let r2 = r.subrange(r.len() - b, r.len() as int);
        assert(r =~= r1 + r2);
        lemma_tags_under_concat(r1, r2, p);
        lemma_built_written_back(p, tags.drop_last(), r1);
        lemma_block_written_back(p, tags.last(), r2);
        assert(entries_model(tags) =~= entries_model(tags.drop_last()).push((tags.last().0@, tags.last().1.model())));
        assert(tags_under(r, p).map_values(|t: Readonly<RefTag>| written_back(t)) =~= tags_under(r1, p).map_values(
            |t: Readonly<RefTag>| written_back(t),
        ).push(written_back(r2.last().3)));
    }
}

proof fn lemma_block_written_back(p: Seq<char>, entry: (String, TagDto), b: Seq<TagEntryModel>)
    requires
        tag_built(p, entry, b),
    ensures
        tags_under(b, p) == seq![b.last().3],
        written_back(b.last().3) == (entry.0@, entry.1.model()),
    decreases entry, 1int,
{
    let key = entry.0@;
    let path = tag_path(p, key);
    let inner = b.drop_last();
    lemma_block_depth(p, entry, b);
    lemma_built_depth(path, entry.1.tags@, inner);
    assert(tags_under(inner, p) =~= Seq::<Readonly<RefTag>>::empty()) by {
        lemma_no_tags_under(inner, p);
        assert forall|i: int| 0 <= i < inner.len() implies #[trigger] inner[i].2 != p by {
            assert(inner[i] == b[i]);
        }
    }
    assert(b.drop_last() == inner);
    lemma_built_written_back(path, entry.1.tags@, inner);
    lemma_children_under(inner, path);
    let t = b.last().3;
    let value = (*t).value;
    let written = written_tag(value);
    let expected = tag_dto_model(entry.1);
    assert(value.tags@.map_values(|e: (String, Readonly<RefTag>)| (e.0@, e.1)) == children_of(inner, path));
    let under = tags_under(inner, path);
    assert(under.map_values(|x: Readonly<RefTag>| written_back(x)) == entries_model(entry.1.tags@));
    assert(value.tags@.len() == children_of(inner, path).len());
    assert(under.map_values(|x: Readonly<RefTag>| written_back(x)).len() == under.len());
    assert(entry.1.tags@.len() == entries_model(entry.1.tags@).len());
    assert(written.tags.len() == expected.tags.len());
    assert forall|i: int| 0 <= i < value.tags@.len() implies #[trigger] written.tags[i] == expected.tags[i] by {
        assert(written.tags[i] == written_back(value.tags@[i].1));
        assert(expected.tags[i] == (entry.1.tags@[i].0@, tag_dto_model(entry.1.tags@[i].1)));
        assert(value.tags@.map_values(|e: (String, Readonly<RefTag>)| (e.0@, e.1))[i] == (value.tags@[i].0@, value.tags@[i].1));
        assert(children_of(inner, path)[i].1 == tags_under(inner, path)[i]);
        assert(tags_under(inner, path).map_values(|x: Readonly<RefTag>| written_back(x))[i] == written_back(tags_under(inner, path)[i]));
        assert(entries_model(entry.1.tags@)[i] == (entry.1.tags@[i].0@, entry.1.tags@[i].1.model()));
    }
    assert(written.tags =~= expected.tags);
}

proof fn lemma_no_tags_under(entries: Seq<TagEntryModel>, p: Seq<char>)
    requires
        forall|i: int| 0 <= i < entries.len() ==> #[trigger] entries[i].2 != p,
    ensures
        tags_under(entries, p).len() == 0,
    decreases entries.len(),
{
    if entries.len() > 0 {
        assert(entries.last() == entries[entries.len() - 1]);
        lemma_no_tags_under(entries.drop_last(), p);
    }
}

/// Written tags listed under their paths and written back from the root tag `#` are the
/// written tags, at every depth: the same names in the same order, and for each the same
/// label, JSON and tags under it.
pub proof fn law_tags_round_trip(tags: Seq<(String, TagDto)>, r: Entries<Readonly<RefTag>>)
    requires
        tags_listed(tags, r),
    ensures
        lookup(r, seq!['#']) is Some,
        (*lookup(r, seq!['#'])->0).value.tags@.map_values(
            |e: (String, Readonly<RefTag>)| ((*e.1).reference@, written_tag((*e.1).value)),
        ) == entries_model(tags),
{
    let entries = choose|entries: Seq<TagEntryModel>| #[trigger] tags_built(seq!['#'], tags, entries) && tags_listed_from(entries, r);
    let root = lookup(r, seq!['#'])->0;
    let value = (*root).value;
    lemma_built_written_back(seq!['#'], tags, entries);
    lemma_root_children_under(entries);
    assert(value.tags@.map_values(|e: (String, Readonly<RefTag>)| (e.0@, e.1)) == root_children(entries));
    let back = value.tags@.map_values(|e: (String, Readonly<RefTag>)| ((*e.1).reference@, written_tag((*e.1).value)));
    assert forall|i: int| 0 <= i < back.len() implies #[trigger] back[i] == entries_model(tags)[i] by {
        assert(value.tags@.map_values(|e: (String, Readonly<RefTag>)| (e.0@, e.1))[i] == (value.tags@[i].0@, value.tags@[i].1));
        assert(root_children(entries)[i].1 == tags_under(entries, seq!['#'])[i]);
        assert(tags_under(entries, seq!['#']).map_values(|x: Readonly<RefTag>| written_back(x))[i] == written_back(tags_under(entries, seq!['#'])[i]));
    }
    assert(back =~= entries_model(tags));
}

/// Storing entries one after another keeps each key that they hold, and no other.
proof fn lemma_collected_keys<M>(s: Entries<M>, k: Seq<char>)
    ensures
        has_key(collected(s), k) <==> has_key(s, k),
    decreases s.len(),
{
    if s.len() > 0 {
        lemma_collected_keys(s.drop_last(), k);
        lemma_inserted(collected(s.drop_last()), s.last().0, s.last().1);
        if has_key(s, k) {
            let j = choose|j: int| 0 <= j < s.len() && s[j].0 == k;
            if j < s.len() - 1 {
                assert(s.drop_last()[j].0 == k);
            }
        }
        if has_key(s.drop_last(), k) {
            let j = choose|j: int| 0 <= j < s.len() - 1 && s.drop_last()[j].0 == k;
            assert(s[j].0 == k);
        }
    }
}

/// Entries under distinct keys, stored one after another, are those entries.
proof fn lemma_collected_unique<M>(s: Entries<M>)
    requires
        unique_keys(s),
    ensures
        collected(s) == s,
    decreases s.len(),
{
    if s.len() > 0 {
        let rest = s.drop_last();
        assert(unique_keys(rest)) by {
            assert forall|i: int, j: int| 0 <= i < rest.len() && 0 <= j < rest.len() && i != j implies rest[i].0 != rest[j].0 by {
                assert(rest[i] == s[i] && rest[j] == s[j]);
            }
        }
        lemma_collected_unique(rest);
        lemma_key_index(rest, s.last().0);
        if has_key(rest, s.last().0) {
            let j = choose|j: int| 0 <= j < rest.len() && rest[j].0 == s.last().0;
            assert(s[j].0 == s[s.len() - 1].0);
        }
        assert(rest.push(s.last()) =~= s);
    }
}

/// Entries renamed by nothing keep their keys.
proof fn lemma_same_key_list<A, B>(a: Entries<A>, b: Entries<B>, k: Seq<char>)
    requires
        a.len() == b.len(),
        forall|i: int| 0 <= i < a.len() ==> #[trigger] a[i].0 == b[i].0,
    ensures
        has_key(a, k) <==> has_key(b, k),
{
    if has_key(a, k) {
        let j = choose|j: int| 0 <= j < a.len() && a[j].0 == k;
        assert(b[j].0 == k);
    }
    if has_key(b, k) {
        let j = choose|j: int| 0 <= j < b.len() && b[j].0 == k;
        assert(a[j].0 == k);
    }
}

/// A written definition read and written back: the name, the location (its own, or the one
/// it was read at), the arguments, the environments and the tags at every depth are those
/// written, and the metadata, edges and processors are under the names written. The
/// identifier is not written back. Arguments and environments written twice under one name
/// keep only one entry, so the law speaks of written forms that name each once.
pub proof fn law_definition_round_trip(
    dto: DefinitionDto,
    location: Option<Seq<char>>,
    parent: Option<Readonly<Definition>>,
    texts: Entries<TextDefinitionModel>,
    r: Definition,
    k: Seq<char>,
)
    requires
        mapped_definition(dto, location, parent, texts, r),
        unique_keys(entries_model(dto.arguments@)),
        unique_keys(entries_model(dto.environments@)),
    ensures
        written_definition(r).name == dto.name@,
        written_definition(r).location == match dto.location {
            Some(l) => Some(l@),
            None => location,
        },
        written_definition(r).arguments == entries_model(dto.arguments@),
        written_definition(r).environments == entries_model(dto.environments@),
        written_definition(r).tags == entries_model(dto.tags@),
        has_key(written_definition(r).metadata, k) <==> has_key(entries_model(dto.metadata@), k),
        has_key(written_definition(r).edges, k) <==> has_key(entries_model(dto.edges@), k),
        has_key(written_definition(r).processors, k) <==> has_key(entries_model(dto.processors@), k),
{
    let (s1, s2, s4) = choose|s1: Definition, s2: Definition, s4: Definition|
        #![trigger stage_of(s1, r, false, false), stage_of(s2, r, true, false), stage_of(s4, r, true, true)]
        stages_of(dto, location, parent, texts, r, s1, s2, s4);
    let w = written_definition(r);
    lemma_collected_unique(entries_model(dto.arguments@));
    lemma_collected_unique(entries_model(dto.environments@));
    assert(w.arguments =~= shared_model(r.arguments.model()));
    assert(w.environments =~= shared_model(r.environments.model()));
    law_tags_round_trip(dto.tags@, r.tags.model());
    // metadata
    r.metadata.lemma_raw();
    lemma_same_key_list(w.metadata, r.metadata.model(), k);
    lemma_same_key_list(entries_model(dto.metadata@), dto.metadata@.map_values(|e: (String, MetadataDto)| (e.0@, e.0@)), k);
    if has_key(entries_model(dto.metadata@), k) {
        let j = choose|j: int| 0 <= j < entries_model(dto.metadata@).len() && entries_model(dto.metadata@)[j].0 == k;
        assert(dto.metadata@[j].0@ == k);
    }
    if has_key(r.metadata.model(), k) {
        let j = choose|j: int| 0 <= j < dto.metadata@.len() && dto.metadata@[j].0@ == k;
        assert(entries_model(dto.metadata@)[j].0 == k);
    }
    // edges
    r.edges.lemma_raw();
    let read_edges = dto.edges@.map_values(|e: (String, EdgeDto)| (e.0@, read_edge(s2, r.foreign_definitions.model(), e.1.model())));
    lemma_same_key_list(w.edges, r.edges.model(), k);
    lemma_same_key_list(r.edges.model(), shared_model(r.edges.model()), k);
    lemma_collected_keys(read_edges, k);
    lemma_same_key_list(read_edges, entries_model(dto.edges@), k);
    // processors
    let read_processors = dto.processors@.map_values(|e: (String, ProcessorDto)| (e.0@, read_processor(s1, e.1.model())));
    lemma_same_key_list(w.processors, r.processors.model(), k);
    lemma_same_key_list(r.processors.model(), shared_model(r.processors.model()), k);
    lemma_collected_keys(read_processors, k);
    lemma_same_key_list(read_processors, entries_model(dto.processors@), k);
}

proof fn lemma_segments_after_root(path: Seq<char>)
    ensures
        path_segments(seq!['#', '/'] + path) == seq![seq!['#']] + path_segments(path),
{
    let s = seq!['#', '/'] + path;
    assert(s.drop_first() =~= seq!['/'] + path);
    assert((seq!['/'] + path).drop_first() =~= path);
    assert(Seq::<char>::empty().push('#') =~= seq!['#']);
    assert(split_from(s, Seq::empty()) == split_from(seq!['/'] + path, seq!['#']));
    assert(split_from(seq!['/'] + path, seq!['#']) == seq![seq!['#']] + split_from(path, Seq::empty()));
}

/// A path after the root segment `#/` names, from any definition, what it names from the
/// root of that definition's chain of parents.
pub proof fn law_root_segment(d: Definition, path: Seq<char>)
    requires
        path_segments(path).len() > 0,
    ensures
        find_by_path(d, seq!['#', '/'] + path) == find_by_path(root_of(d), path),
{
    lemma_segments_after_root(path);
    let s = seq![seq!['#']] + path_segments(path);
    assert(s[0] == root_token());
    assert(s[0] != current_token()) by {
        assert(s[0][0] != current_token()[0]);
    }
    assert(s.subrange(1, s.len() as int) =~= path_segments(path));
}

/// A processor run that may write the edge it ran for appends the edge part of its result to
/// that edge's JSON, whether or not it may write the metadata too; the other edges stay as
/// they were.
pub proof fn law_edge_enrichment(
    m: MetadataModel,
    context: DefinitionContextModel,
    addition: Entries<JsonModel>,
    metadata: Option<Entries<JsonModel>>,
    name: Seq<char>,
    other: Seq<char>,
)
    requires
        context.write_edge,
        context.edge matches Some(e) && e.0 == name,
        has_key(m.edges, name),
        other != name,
    ensures
        has_key(enriched_metadata(m, context, Some(addition), metadata).edges, name),
        lookup(enriched_metadata(m, context, Some(addition), metadata).edges, name)->0.other
            == appended(lookup(m.edges, name)->0.other, addition),
        lookup(enriched_metadata(m, context, Some(addition), metadata).edges, other) == lookup(m.edges, other),
{
    let r = enriched_metadata(m, context, Some(addition), metadata);
    lemma_key_index(m.edges, name);
    let p = key_index(m.edges, name);
    let v = EdgeOverrideModel { other: appended(m.edges[p].1.other, addition), ..m.edges[p].1 };
    assert(r.edges == inserted(m.edges, name, v));
    lemma_inserted(m.edges, name, v);
}

/// A written use of a processor that names a processor of the definition is read as a use of
/// that processor with every written argument and every written environment, each read in the
/// definition, in order.
pub proof fn law_found_processor_use(d: Definition, written: ProcessorOverrideDtoModel)
    requires
        written.reference is Some,
        lookup(d.processors.model(), strip_reference_prefix(written.reference->0)) is Some,
    ensures
        read_processor_override(d, written).processor == Some(RefModel::<Processor, ()>::Referenced(
            written.reference->0,
            lookup(d.processors.model(), strip_reference_prefix(written.reference->0))->0,
        )),
        read_processor_override(d, written).arguments.len() == written.arguments.len(),
        forall|i: int| 0 <= i < written.arguments.len() ==>
            #[trigger] read_processor_override(d, written).arguments[i] == read_argument(d, written.arguments[i]),
        read_processor_override(d, written).environments.len() == written.environments.len(),
        forall|i: int| 0 <= i < written.environments.len() ==>
            #[trigger] read_processor_override(d, written).environments[i] == read_environment(d, written.environments[i]),
{
}

/// A use of a processor written back carries the reference of its processor, so reading the
/// written form again names the same processor, found or not.
pub proof fn law_processor_use_round_trip(d: Definition, p: DraftProcessorOverrideModel)
    requires
        p.processor matches Some(processor) && model_reference(processor) is Some,
    ensures
        written_processor_override(p).reference == model_reference(p.processor->0),
        read_processor_override(d, written_processor_override(p)).processor matches Some(q)
            && model_reference(q) == model_reference(p.processor->0),
{
}

/// The parts that a key holds, read back from its text `s`, with `cur` the part begun and
/// `acc` the parts read so far: `\` takes the next character as it is, `|` closes a part.
pub open spec fn read_parts(s: Seq<char>, cur: Seq<char>, acc: Seq<Seq<char>>) -> Seq<Seq<char>>
    decreases s.len(),
{
    if s.len() == 0 {
        acc
    } else if s[0] == '\\' && s.len() >= 2 {
        read_parts(s.subrange(2, s.len() as int), cur.push(s[1]), acc)
    } else if s[0] == '|' {
        read_parts(s.drop_first(), Seq::empty(), acc.push(cur))
    } else {
        read_parts(s.drop_first(), cur.push(s[0]), acc)
    }
}

proof fn lemma_read_escaped(p: Seq<char>, rest: Seq<char>, cur: Seq<char>, acc: Seq<Seq<char>>)
    ensures
        read_parts(escaped(p) + rest, cur, acc) == read_parts(rest, cur + p, acc),
    decreases p.len(),
{
    if p.len() == 0 {
        assert(escaped(p) + rest =~= rest);
        assert(cur + p =~= cur);
    } else {
        let q = p.drop_last();
        let c = p.last();
        let e = if c == '|' || c == '\\' { seq!['\\', c] } else { seq![c] };
        assert(escaped(p) == escaped(q) + e);
        assert(escaped(p) + rest =~= escaped(q) + (e + rest));
        lemma_read_escaped(q, e + rest, cur, acc);
        assert((cur + q).push(c) =~= cur + p);
        if c == '|' || c == '\\' {
            assert((e + rest).subrange(2, (e + rest).len() as int) =~= rest);
        } else {
            assert((e + rest).drop_first() =~= rest);
        }
    }
}

proof fn lemma_read_key(parts: Seq<Seq<char>>, rest: Seq<char>, acc: Seq<Seq<char>>)
    ensures
        read_parts(key_of_parts(parts) + rest, Seq::empty(), acc) == read_parts(rest, Seq::empty(), acc + parts),
    decreases parts.len(),
{
    if parts.len() == 0 {
        assert(key_of_parts(parts) + rest =~= rest);
        assert(acc + parts =~= acc);
    } else {
        let pd = parts.drop_last();
        let l = parts.last();
        let tail = escaped(l) + (seq!['|'] + rest);
        assert(key_of_parts(parts) + rest =~= key_of_parts(pd) + tail);
        lemma_read_key(pd, tail, acc);
        lemma_read_escaped(l, seq!['|'] + rest, Seq::empty(), acc + pd);
        assert(Seq::<char>::empty() + l =~= l);
        assert((seq!['|'] + rest).drop_first() =~= rest);
        assert((acc + pd).push(l) =~= acc + parts);
    }
}

/// Keys made of parts tell the parts apart: two keys are equal only for equal parts.
pub proof fn lemma_key_of_parts_injective(a: Seq<Seq<char>>, b: Seq<Seq<char>>)
    requires
        key_of_parts(a) == key_of_parts(b),
    ensures
        a == b,
{
    lemma_read_key(a, Seq::empty(), Seq::empty());
    lemma_read_key(b, Seq::empty(), Seq::empty());
    assert(key_of_parts(a) + Seq::<char>::empty() =~= key_of_parts(a));
    assert(key_of_parts(b) + Seq::<char>::empty() =~= key_of_parts(b));
    assert(Seq::<Seq<char>>::empty() + a =~= a);
    assert(Seq::<Seq<char>>::empty() + b =~= b);
}

proof fn lemma_variables_parts_len(v: Entries<Seq<char>>)
    ensures
        variables_parts(v).len() == 2 * v.len(),
    decreases v.len(),
{
    if v.len() > 0 {
        lemma_variables_parts_len(v.drop_last());
    }
}

proof fn lemma_variables_parts_injective(a: Entries<Seq<char>>, b: Entries<Seq<char>>)
    requires
        variables_parts(a) == variables_parts(b),
    ensures
        a == b,
    decreases a.len(),
{
    lemma_variables_parts_len(a);
    lemma_variables_parts_len(b);
    if a.len() > 0 {
        let pa = variables_parts(a);
        let n = pa.len();
        assert(variables_parts(a.drop_last()) =~= pa.subrange(0, n - 2));
        assert(variables_parts(b.drop_last()) =~= pa.subrange(0, n - 2));
        lemma_variables_parts_injective(a.drop_last(), b.drop_last());
        assert(pa[n - 2] == a.last().0 && pa[n - 1] == a.last().1);
        assert(pa[n - 2] == b.last().0 && pa[n - 1] == b.last().1);
        assert(a =~= a.drop_last().push(a.last()));
        assert(b =~= b.drop_last().push(b.last()));
    } else {
        assert(a =~= b);
    }
}

proof fn lemma_environment_key_injective(a: EnvironmentDtoModel, b: EnvironmentDtoModel)
    requires
        environment_key(a) == environment_key(b),
    ensures
        a == b,
{
    let pa = match a {
        EnvironmentDtoModel::Reference(r) => seq![seq!['r'], r],
        EnvironmentDtoModel::Value(variables) => seq![seq!['v']] + variables_parts(variables),
    };
    let pb = match b {
        EnvironmentDtoModel::Reference(r) => seq![seq!['r'], r],
        EnvironmentDtoModel::Value(variables) => seq![seq!['v']] + variables_parts(variables),
    };
    lemma_key_of_parts_injective(pa, pb);
    assert(pa[0] == pb[0]);
    assert(pa[0][0] == pb[0][0]);
    match (a, b) {
        (EnvironmentDtoModel::Value(x), EnvironmentDtoModel::Value(y)) => {
            assert(variables_parts(x) =~= pa.subrange(1, pa.len() as int));
            assert(variables_parts(y) =~= pb.subrange(1, pb.len() as int));
            lemma_variables_parts_injective(x, y);
        },
        _ => {},
    }
}

proof fn lemma_optional_parts_injective(a: Option<Seq<char>>, b: Option<Seq<char>>)
    requires
        optional_parts(a) == optional_parts(b),
    ensures
        a == b,
{
    if a is Some {
        assert(optional_parts(a)[0] == a->0);
    }
    if b is Some {
        assert(optional_parts(b)[0] == b->0);
    }
}

/// The key of a written foreign definition tells written forms apart: two keys are equal only
/// for the same text, for definitions with the same name and location, or for uses of a
/// processor with the same reference, arguments and environments.
pub proof fn law_foreign_keys_tell_sources_apart(f: ForeignDefinitionDtoModel, g: ForeignDefinitionDtoModel)
    requires
        foreign_key(f) == foreign_key(g),
    ensures
        match (f, g) {
            (ForeignDefinitionDtoModel::String(a), ForeignDefinitionDtoModel::String(b)) => a == b,
            (ForeignDefinitionDtoModel::Definition(a), ForeignDefinitionDtoModel::Definition(b)) => a.name == b.name
                && a.location == b.location,
            (ForeignDefinitionDtoModel::Processor(a), ForeignDefinitionDtoModel::Processor(b)) => a.reference == b.reference
                && a.arguments == b.arguments && a.environments == b.environments,
            _ => false,
        },
{
    let pf = foreign_parts(f);
    let pg = foreign_parts(g);
    assert(foreign_key(f) == key_of_parts(pf));
    assert(foreign_key(g) == key_of_parts(pg));
    lemma_key_of_parts_injective(pf, pg);
    assert(pf[0] == pg[0]);
    assert(pf[0][0] == pg[0][0]);
    match (f, g) {
        (ForeignDefinitionDtoModel::String(a), ForeignDefinitionDtoModel::String(b)) => {
            assert(pf[1] == pg[1]);
        },
        (ForeignDefinitionDtoModel::Definition(a), ForeignDefinitionDtoModel::Definition(b)) => {
            assert(pf[1] == pg[1]);
            assert(optional_parts(a.location) =~= pf.subrange(2, pf.len() as int));
            assert(optional_parts(b.location) =~= pg.subrange(2, pg.len() as int));
            lemma_optional_parts_injective(a.location, b.location);
        },
        (ForeignDefinitionDtoModel::Processor(a), ForeignDefinitionDtoModel::Processor(b)) => {
            assert(pf[1] == pg[1]);
            lemma_key_of_parts_injective(optional_parts(a.reference), optional_parts(b.reference));
            lemma_optional_parts_injective(a.reference, b.reference);
            assert(pf[2] == pg[2]);
            lemma_key_of_parts_injective(a.arguments, b.arguments);
            let ea = a.environments.map_values(|e: EnvironmentDtoModel| environment_key(e));
            let eb = b.environments.map_values(|e: EnvironmentDtoModel| environment_key(e));
            assert(ea =~= pf.subrange(3, pf.len() as int));
            assert(eb =~= pg.subrange(3, pg.len() as int));
            assert(ea.len() == eb.len());
            assert forall|i: int| 0 <= i < a.environments.len() implies a.environments[i] == b.environments[i] by {
                assert(ea[i] == eb[i]);
                lemma_environment_key_injective(a.environments[i], b.environments[i]);
            }
            assert(a.environments =~= b.environments);
        },
        _ => {},
    }
}

/// The parts that the key of a written foreign definition is made of.
spec fn foreign_parts(f: ForeignDefinitionDtoModel) -> Seq<Seq<char>> {
    match f {
        ForeignDefinitionDtoModel::String(s) => seq![seq!['s'], s],
        ForeignDefinitionDtoModel::Definition(d) => seq![seq!['d'], d.name] + optional_parts(d.location),
        ForeignDefinitionDtoModel::Processor(p) => seq![seq!['p'], key_of_parts(optional_parts(p.reference)), key_of_parts(p.arguments)]
            + p.environments.map_values(|e: EnvironmentDtoModel| environment_key(e)),
    }
}

/// What a processor adds to a JSON object: each of its members' names finds the last value
/// it adds under that name, and other names find what they found.
pub proof fn law_appended(a: Entries<JsonModel>, b: Entries<JsonModel>, k: Seq<char>)
    ensures
        has_key(appended(a, b), k) <==> has_key(a, k) || has_key(b, k),
        lookup(appended(a, b), k) == if has_key(b, k) {
            Some(b[last_key_index(b, k)].1)
        } else {
            lookup(a, k)
        },
    decreases b.len(),
{
    if b.len() > 0 {
        let rest = b.drop_last();
        law_appended(a, rest, k);
        lemma_inserted(appended(a, rest), b.last().0, b.last().1);
        if has_key(b, k) && b.last().0 != k {
            let j = choose|j: int| 0 <= j < b.len() && b[j].0 == k;
            assert(rest[j] == b[j]);
            assert(has_key(rest, k));
            lemma_last_key_index(rest, k);
        }
        if has_key(rest, k) {
            let j = choose|j: int| 0 <= j < rest.len() && rest[j].0 == k;
            assert(b[j] == rest[j]);
        }
        if b.last().0 != k && has_key(rest, k) {
            lemma_last_key_index(rest, k);
            assert(b[last_key_index(rest, k)] == rest[last_key_index(rest, k)]);
        }
    }
}

proof fn lemma_last_key_index<M>(s: Entries<M>, k: Seq<char>)
    requires
        has_key(s, k),
    ensures
        0 <= last_key_index(s, k) < s.len(),
        s[last_key_index(s, k)].0 == k,
    decreases s.len(),
{
    if s.last().0 != k {
        let j = choose|j: int| 0 <= j < s.len() && s[j].0 == k;
        assert(s.drop_last()[j] == s[j]);
        lemma_last_key_index(s.drop_last(), k);
        assert(s.drop_last()[last_key_index(s.drop_last(), k)] == s[last_key_index(s.drop_last(), k)]);
    }
}

} // verus!
