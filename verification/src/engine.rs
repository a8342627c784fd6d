//! What a processor's result changes in the definition it ran for.
use vstd::prelude::*;
use crate::model::Model;
use crate::strmap::{StrMap, Entries, lookup, inserted, key_index, has_key, lemma_key_index, lemma_inserted};
use crate::json::{JsonMap, JsonModel, lemma_map_model};
use crate::thread::{Readonly, readonly};
use crate::processor::{Enrichment, ProcessorResult};
use crate::contexts::{ProcessorContext, DefinitionContextModel};
use crate::definition::definition::Definition;
use crate::definition::metadata::{Metadata, MetadataModel};
use crate::definition::edge::{Edge, EdgeModel, EdgeOverride, EdgeOverrideModel};
use crate::definition::foreign_definition::ForeignDefinition;
use crate::merge::same_allocation;
use crate::json::json_equal;
use crate::processor::{DraftProcessorOverride, DraftProcessorOverrideModel};
use crate::definition::input::{DraftDefinitionInput, InputModel};
use crate::reference_value::{same_arguments, same_environments, same_ref_model};

verus! {

/// `b`'s members stored one after another into `a`, each in place of a member of its name.
pub open spec fn appended(a: Entries<JsonModel>, b: Entries<JsonModel>) -> Entries<JsonModel>
    decreases b.len(),
{
    if b.len() == 0 {
        a
    } else {
        inserted(appended(a, b.drop_last()), b.last().0, b.last().1)
    }
}

/// Stores `source`'s members one after another into `target`.
pub fn append_members(target: &mut JsonMap, source: &JsonMap)
    ensures
        final(target).model() == appended(old(target).model(), source.model()),
{
    let ghost start = target.model();
    let ghost sm = source.model();
    proof {
        lemma_map_model(*source);
    }
    let mut i: usize = 0;
    assert(sm.take(0) =~= Seq::<(Seq<char>, JsonModel)>::empty());
    while i < source.members.len()
        invariant
            i <= source.members@.len(),
            sm == source.model(),
            sm.len() == source.members@.len(),
            forall|j: int| 0 <= j < source.members@.len() ==> #[trigger] sm[j] == (source.members@[j].0@, crate::json::json_model(source.members@[j].1)),
            target.model() == appended(start, sm.take(i as int)),
        decreases source.members.len() - i,
    {
        target.insert(source.members[i].0.clone(), source.members[i].1.duplicate());
        assert(sm.take(i + 1).drop_last() =~= sm.take(i as int));
        assert(sm.take(i + 1).last() == sm[i as int]);
        i = i + 1;
    }
    assert(sm.take(sm.len() as int) =~= sm);
}

/// The metadata `m` after a processor that ran with `context` added `edge` to the edge it ran
/// for and `metadata` to the metadata, as far as the context lets it write.
pub open spec fn enriched_metadata(
    m: MetadataModel,
    context: DefinitionContextModel,
    edge: Option<Entries<JsonModel>>,
    metadata: Option<Entries<JsonModel>>,
) -> MetadataModel {
    let other = if context.write_metadata && metadata is Some {
        appended(m.other, metadata->0)
    } else {
        m.other
    };
    let edges = if context.write_edge && edge is Some && context.edge is Some && has_key(m.edges, context.edge.unwrap().0) {
        let name = context.edge.unwrap().0;
        let p = key_index(m.edges, name);
        m.edges.update(p, (name, EdgeOverrideModel { other: appended(m.edges[p].1.other, edge->0), ..m.edges[p].1 }))
    } else {
        m.edges
    };
    MetadataModel { other, edges, ..m }
}

/// Whether the edge named `name` of `m` leads to a definition of its own.
pub open spec fn edge_has_definition(m: Metadata, name: Seq<char>) -> bool {
    match lookup(m.edges.raw(), name) {
        Some(eo) => eo.definition is Some,
        None => false,
    }
}

/// The metadata after the enrichment.
fn enrich_metadata(metadata: &Metadata, context: &ProcessorContext, enrichment: &Enrichment) -> (r: Metadata)
    ensures
        r.model() == enriched_metadata(
            metadata.model(),
            context.definition.context_model(),
            enrichment.edge.model(),
            enrichment.metadata.model(),
        ),
{
    let mut enriched = metadata.duplicate();
    if context.definition.write.metadata {
        if let Some(addition) = &enrichment.metadata {
            append_members(&mut enriched.other, addition);
        }
    }
    if context.definition.write.edge {
        if let (Some(addition), Some(edge_context)) = (&enrichment.edge, &context.definition.edge) {
            let ghost before = enriched.edges.model();
            proof {
                lemma_key_index(before, edge_context.name@);
            }
            match enriched.edges.index_of(&edge_context.name) {
                Some(p) => {
                    let mut edge = enriched.edges.value_at(p).duplicate();
                    append_members(&mut edge.other, addition);
                    enriched.edges.insert(edge_context.name.clone(), edge);
                    assert(enriched.edges.model() =~= before.update(
                        p as int,
                        (edge_context.name@, EdgeOverrideModel { other: appended(before[p as int].1.other, addition.model()), ..before[p as int].1 }),
                    ));
                },
                None => {},
            }
        }
    }
    enriched
}

/// Applies a processor's result to `definition`: what it adds goes to the metadata it ran for
/// and to the edge it ran for, as far as its context lets it write; the metadata is found by
/// its name. Gives back the name of the edge it ran for when the processor gave back a
/// definition and that edge leads to a definition of its own, which is then to be
/// processed in turn.
pub fn handle_result(definition: &mut Definition, context: &ProcessorContext, result: &ProcessorResult) -> (r: Option<String>)
    ensures
        ({
            let key = context.definition.metadata.name@;
            let before = old(definition).metadata.model();
            let after = final(definition).metadata.model();
            &&& *final(definition) == (Definition { metadata: final(definition).metadata, ..*old(definition) })
            &&& match lookup(before, key) {
                Some(m) => {
                    &&& after.len() == before.len()
                    &&& forall|j: int| 0 <= j < before.len() && j != key_index(before, key) ==> after[j] == before[j]
                    &&& after[key_index(before, key)].0 == key
                    &&& (*after[key_index(before, key)].1).model() == match result.enrichment {
                        Some(e) => enriched_metadata((*m).model(), context.definition.context_model(), e.edge.model(), e.metadata.model()),
                        None => (*m).model(),
                    }
                    &&& r == if result.definition is Some && context.definition.edge is Some
                        && edge_has_definition(*after[key_index(before, key)].1, context.definition.edge->0.name@) {
                        Some(context.definition.edge->0.name)
                    } else {
                        None::<String>
                    }
                },
                None => after == before && r is None,
            }
        }),
{
    let key = &context.definition.metadata.name;
    let ghost before = definition.metadata.model();
    proof {
        lemma_key_index(before, key@);
    }
    let position = definition.metadata.index_of(key);
    match position {
        None => None,
        Some(p) => {
            let current: &Metadata = &**definition.metadata.value_at(p);
            let updated = match &result.enrichment {
                Some(enrichment) => enrich_metadata(current, context, enrichment),
                None => current.duplicate(),
            };
            let next = match (&result.definition, &context.definition.edge) {
                (Some(_), Some(edge_context)) => match updated.edges.get(&edge_context.name) {
                    Some(edge) => if edge.definition.is_some() {
                        Some(edge_context.name.clone())
                    } else {
                        None
                    },
                    None => None,
                },
                _ => None,
            };
            let shared = readonly(updated);
            definition.metadata.insert(key.clone(), shared);
            assert(definition.metadata.model() =~= before.update(p as int, (key@, shared)));
            next
        },
    }
}

/// Puts `inner` as the definition that the edge `edge` of the metadata `metadata` leads to,
/// when that edge leads to one.
pub fn set_edge_definition(definition: &mut Definition, metadata: &String, edge: &String, inner: Definition)
    ensures
        *final(definition) == (Definition { metadata: final(definition).metadata, ..*old(definition) }),
        ({
            let before = old(definition).metadata.model();
            let after = final(definition).metadata.model();
            match lookup(before, metadata@) {
                Some(m) if edge_has_definition(*m, edge@) => {
                    let p = key_index(before, metadata@);
                    let q = key_index((*m).edges.model(), edge@);
                    &&& after.len() == before.len()
                    &&& forall|j: int| 0 <= j < before.len() && j != p ==> after[j] == before[j]
                    &&& after[p].0 == metadata@
                    &&& (*after[p].1).model() == MetadataModel {
                        edges: (*m).model().edges.update(q, (edge@, EdgeOverrideModel { definition: Some(inner.model()), ..(*m).model().edges[q].1 })),
                        ..(*m).model()
                    }
                    &&& lookup((*after[p].1).edges.raw(), edge@) matches Some(eo) && eo.definition == Some(inner)
                },
                _ => after == before,
            }
        }),
{
    let ghost before = definition.metadata.model();
    proof {
        lemma_key_index(before, metadata@);
    }
    match definition.metadata.index_of(metadata) {
        None => {},
        Some(p) => {
            let current: &Metadata = &**definition.metadata.value_at(p);
            let ghost m = *current;
            proof {
                current.edges.lemma_raw();
                lemma_key_index(current.edges.model(), edge@);
                lemma_key_index(current.edges.raw(), edge@);
            }
            match current.edges.index_of(edge) {
                None => {},
                Some(q) => {
                    if current.edges.value_at(q).definition.is_some() {
                        let mut updated = current.duplicate();
                        let ghost edges_before = updated.edges.model();
                        let ghost raw_before = updated.edges.raw();
                        let mut edge_override = updated.edges.value_at(q).duplicate();
                        edge_override.definition = Some(inner);
                        let ghost eo = edge_override;
                        updated.edges.insert(edge.clone(), edge_override);
                        proof {
                            lemma_inserted(raw_before, edge@, eo);
                        }
                        assert(updated.edges.model() =~= edges_before.update(
                            q as int,
                            (edge@, EdgeOverrideModel { definition: Some(inner.model()), ..edges_before[q as int].1 }),
                        ));
                        let shared = readonly(updated);
                        definition.metadata.insert(metadata.clone(), shared);
                        assert(definition.metadata.model() =~= before.update(p as int, (metadata@, shared)));
                    }
                },
            }
        },
    }
}

/// Two uses of a processor to read a definition match: the same processor reference, resolved
/// or not, and matching arguments and environments, one by one.
pub open spec fn same_processor_use(a: DraftProcessorOverrideModel, b: DraftProcessorOverrideModel) -> bool {
    &&& a.arguments.len() == b.arguments.len()
    &&& forall|i: int| 0 <= i < a.arguments.len() ==> #[trigger] same_arguments(a.arguments[i], b.arguments[i])
    &&& a.environments.len() == b.environments.len()
    &&& forall|i: int| 0 <= i < a.environments.len() ==> #[trigger] same_environments(a.environments[i], b.environments[i])
    &&& match (a.processor, b.processor) {
        (Some(x), Some(y)) => same_ref_model(x, y, |u: (), v: ()| true),
        (None, None) => true,
        _ => false,
    }
}

/// Two places to read a definition from are the same: the same file, identifier or text,
/// the same JSON, or matching uses of a processor.
pub open spec fn same_source(a: InputModel<DraftProcessorOverrideModel>, b: InputModel<DraftProcessorOverrideModel>) -> bool {
    match (a, b) {
        (InputModel::File(x), InputModel::File(y)) => x == y,
        (InputModel::Id(x), InputModel::Id(y)) => x == y,
        (InputModel::Text(x), InputModel::Text(y)) => x == y,
        (InputModel::Value(x), InputModel::Value(y)) => x == y,
        (InputModel::Processor(x), InputModel::Processor(y)) => same_processor_use(x, y),
        _ => false,
    }
}

/// The foreign definition `x` waits for what `a` waits for: neither has been read, and both
/// are read from the same place, or neither says where.
pub open spec fn waits_for_same(x: ForeignDefinition, a: ForeignDefinition) -> bool {
    &&& x.output is None
    &&& a.output is None
    &&& match (x.input, a.input) {
        (Some(i), Some(j)) => same_source(i.model(), j.model()),
        (None, None) => true,
        _ => false,
    }
}

fn same_processor_use_of(a: &DraftProcessorOverride, b: &DraftProcessorOverride) -> (r: bool)
    ensures
        r == same_processor_use(a.model(), b.model()),
{
    let ghost am = a.model();
    let ghost bm = b.model();
    if a.arguments.len() != b.arguments.len() || a.environments.len() != b.environments.len() {
        return false;
    }
    let mut i: usize = 0;
    while i < a.arguments.len()
        invariant
            a.arguments@.len() == b.arguments@.len(),
            am == a.model(),
            bm == b.model(),
            i <= a.arguments@.len(),
            forall|j: int| 0 <= j < i ==> #[trigger] same_arguments(am.arguments[j], bm.arguments[j]),
        decreases a.arguments.len() - i,
    {
        assert(am.arguments[i as int] == a.arguments@[i as int].model());
        assert(bm.arguments[i as int] == b.arguments@[i as int].model());
        if a.arguments[i] != b.arguments[i] {
            return false;
        }
        i = i + 1;
    }
    let mut i: usize = 0;
    while i < a.environments.len()
        invariant
            a.environments@.len() == b.environments@.len(),
            a.arguments@.len() == b.arguments@.len(),
            am == a.model(),
            bm == b.model(),
            i <= a.environments@.len(),
            forall|j: int| 0 <= j < a.arguments@.len() ==> #[trigger] same_arguments(am.arguments[j], bm.arguments[j]),
            forall|j: int| 0 <= j < i ==> #[trigger] same_environments(am.environments[j], bm.environments[j]),
        decreases a.environments.len() - i,
    {
        assert(am.environments[i as int] == a.environments@[i as int].model());
        assert(bm.environments[i as int] == b.environments@[i as int].model());
        if a.environments[i] != b.environments[i] {
            return false;
        }
        i = i + 1;
    }
    match (&a.processor, &b.processor) {
        (Some(x), Some(y)) => *x == *y,
        (None, None) => true,
        _ => false,
    }
}

fn same_source_of(a: &DraftDefinitionInput, b: &DraftDefinitionInput) -> (r: bool)
    ensures
        r == same_source(a.model(), b.model()),
{
    match (a, b) {
        (DraftDefinitionInput::File(x), DraftDefinitionInput::File(y)) => *x == *y,
        (DraftDefinitionInput::Id(x), DraftDefinitionInput::Id(y)) => *x == *y,
        (DraftDefinitionInput::Text(x), DraftDefinitionInput::Text(y)) => *x == *y,
        (DraftDefinitionInput::Value(x), DraftDefinitionInput::Value(y)) => json_equal(x, y),
        (DraftDefinitionInput::Processor(x), DraftDefinitionInput::Processor(y)) => same_processor_use_of(x, y),
        _ => false,
    }
}

fn waits_for_same_of(x: &ForeignDefinition, a: &ForeignDefinition) -> (r: bool)
    ensures
        r == waits_for_same(*x, *a),
{
    if x.output.is_some() || a.output.is_some() {
        return false;
    }
    match (&x.input, &a.input) {
        (Some(i), Some(j)) => same_source_of(i, j),
        (None, None) => true,
        _ => false,
    }
}

/// Whether the edge `e` leads to a foreign definition that waits for what `a` waits for.
pub open spec fn edge_waits_for(e: Edge, a: ForeignDefinition) -> bool {
    match e.definition {
        Some(x) => waits_for_same(*x, a),
        None => false,
    }
}

/// Gives the foreign definition kept under `key` the definition read for it, `output`, when
/// it has none yet: the foreign definition is replaced by one that holds it, and so is the
/// foreign definition of each edge that waits for a definition from the same place.
pub fn fill_foreign_output(definition: &mut Definition, key: &String, output: Definition)
    ensures
        *final(definition) == (Definition {
            foreign_definitions: final(definition).foreign_definitions,
            edges: final(definition).edges,
            ..*old(definition)
        }),
        ({
            let before = old(definition).foreign_definitions.model();
            let after = final(definition).foreign_definitions.model();
            let edges_before = old(definition).edges.model();
            let edges_after = final(definition).edges.model();
            match lookup(before, key@) {
                Some(a) if (*a).output is None => {
                    let p = key_index(before, key@);
                    &&& after.len() == before.len()
                    &&& forall|j: int| 0 <= j < before.len() && j != p ==> after[j] == before[j]
                    &&& after[p].0 == key@
                    &&& (*after[p].1).input.model() == (*a).input.model()
                    &&& (*after[p].1).output == Some(output)
                    &&& edges_after.len() == edges_before.len()
                    &&& forall|j: int| 0 <= j < edges_before.len() ==> edges_after[j].0 == edges_before[j].0 && if edge_waits_for(
                        *edges_before[j].1,
                        *a,
                    ) {
                        (*edges_after[j].1).model() == (EdgeModel { definition: Some(after[p].1), ..(*edges_before[j].1).model() })
                    } else {
                        edges_after[j].1 == edges_before[j].1
                    }
                },
                _ => after == before && edges_after == edges_before,
            }
        }),
{
    let ghost before = definition.foreign_definitions.model();
    proof {
        lemma_key_index(before, key@);
    }
    let position = definition.foreign_definitions.index_of(key);
    match position {
        None => {},
        Some(p) => {
            let old_shared = definition.foreign_definitions.value_at(p).duplicate();
            if old_shared.output.is_none() {
                let filled = readonly(ForeignDefinition { input: old_shared.input.duplicate(), output: Some(output) });
                definition.foreign_definitions.insert(key.clone(), filled.duplicate());
                assert(definition.foreign_definitions.model() =~= before.update(p as int, (key@, filled)));
                let ghost edges_before = definition.edges.model();
                let ghost d1 = *definition;
                let n = definition.edges.len();
                let mut i: usize = 0;
                while i < n
                    invariant
                        n == edges_before.len(),
                        i <= n,
                        *definition == (Definition { edges: definition.edges, ..d1 }),
                        definition.edges.model().len() == n,
                        forall|j: int| 0 <= j < n ==> definition.edges.model()[j].0 == edges_before[j].0,
                        forall|j: int| 0 <= j < i ==> if edge_waits_for(*edges_before[j].1, *old_shared) {
                            (*definition.edges.model()[j].1).model() == (EdgeModel { definition: Some(filled), ..(*edges_before[j].1).model() })
                        } else {
                            definition.edges.model()[j].1 == edges_before[j].1
                        },
                        forall|j: int| i <= j < n ==> definition.edges.model()[j] == edges_before[j],
                    decreases n - i,
                {
                    let shares = match &definition.edges.value_at(i).definition {
                        Some(shared) => waits_for_same_of(&**shared, &*old_shared),
                        None => false,
                    };
                    if shares {
                        let current: &Edge = &**definition.edges.value_at(i);
                        let updated = Edge {
                            definition: Some(filled.duplicate()),
                            processor: current.processor.duplicate(),
                            other: current.other.duplicate(),
                        };
                        let ghost e0 = definition.edges.model();
                        let name = definition.edges.key_at(i).clone();
                        let _ = definition.edges.len();
                        proof {
                            crate::strmap::lemma_unique_key_index(e0, i as int);
                        }
                        let shared_edge = readonly(updated);
                        definition.edges.insert(name, shared_edge);
                        assert(definition.edges.model() =~= e0.update(i as int, (e0[i as int].0, shared_edge)));
                    }
                    i = i + 1;
                }
            }
        },
    }
}

} // verus!
