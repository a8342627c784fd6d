//! Merging a definition and its parts into one another.
//!
//! The parts of a definition lead back to definitions (an edge to the definition it reads,
//! a metadata's use of an edge to a definition of its own), so what merging one part means
//! is stated by relations that follow the merged value down, and the merges call one
//! another down the same way.
use vstd::prelude::*;
use crate::model::Model;
use crate::merge::{Merge, Overwrite, same_allocation};
use crate::strmap::{StrMap, Entries, has_key, key_index, lemma_key_index, lemma_map_value_decreases};
use crate::thread::{Readonly, readonly};
use crate::reference_value::{ReferencedValue, LazyRefOrValue, RefModel};
use crate::json::{JsonValue, JsonMap};
use crate::cli::{DraftArguments, DraftEnvironments};
use crate::processor::{Processor, DraftProcessorOverride};
use crate::definition::definition::{Definition, DefinitionModel};
use crate::definition::metadata::{Metadata, MetadataModel};
use crate::definition::edge::{Edge, EdgeModel, EdgeOverride, EdgeOverrideModel};
use crate::definition::foreign_definition::{ForeignDefinition, ForeignDefinitionModel};
use crate::definition::input::DraftDefinitionInput;
use crate::definition::tag::{Tag, TagModel, RefTag};

verus! {

broadcast use lemma_map_value_decreases;

/// What one entry of `b` merged into `mid` changes: an entry under the same key (the first
/// one) keeps its place and takes a merged value, any other entry is added at the end.
pub open spec fn entry_step<M>(mid: Entries<M>, k: Seq<char>, v: M, r: Entries<M>) -> bool {
    let p = key_index(mid, k);
    if p >= 0 {
        r.len() == mid.len() && r == mid.update(p, (k, r[p].1))
    } else {
        r == mid.push((k, v))
    }
}

/// The tags under a tag, each name by its view and each tag by its handle.
pub open spec fn tag_list_model(tags: Seq<(String, Readonly<RefTag>)>) -> Seq<(Seq<char>, Readonly<RefTag>)> {
    tags.map_values(|e: (String, Readonly<RefTag>)| (e.0@, e.1))
}

/// `r` is the tag `a` with the tag `b` merged into it: the label stays, or is `b`'s where
/// `a` has none; the JSON merges; the tags under `b` merge into those under `a`.
pub open spec fn tag_merged(a: TagModel, b: Tag, r: TagModel) -> bool
    decreases b, 0int,
{
    &&& r.label == <Option<String> as Overwrite>::overwritten(a.label, b.label.model())
    &&& <JsonValue as Merge>::merged(a.other, b.other.model(), r.other)
    &&& tag_list_merged(a.tags, b.tags, b.tags@.len() as int, r.tags)
}

/// `r` is the shared tag `a` with the shared tag `b` merged into it: nothing changes when
/// both are one, otherwise `r` is named by `b`'s reference and holds the tags merged.
pub open spec fn shared_tag_merged(a: Readonly<RefTag>, b: Readonly<RefTag>, r: Readonly<RefTag>) -> bool
    decreases b, 0int,
{
    ||| a == b && r == a
    ||| r.reference@ == b.reference@ && tag_merged(a.value.model(), b.value, r.value.model())
}

/// `r` is the tags `a` with the first `n` tags of `b` merged into them one after another.
pub open spec fn tag_list_merged(
    a: Seq<(Seq<char>, Readonly<RefTag>)>,
    b: Vec<(String, Readonly<RefTag>)>,
    n: int,
    r: Seq<(Seq<char>, Readonly<RefTag>)>,
) -> bool
    decreases b, n,
{
    if n <= 0 {
        r == a
    } else if n > b@.len() {
        false
    } else {
        let k = b@[n - 1].0@;
        let v = b@[n - 1].1;
        exists|mid: Seq<(Seq<char>, Readonly<RefTag>)>|
            tag_list_merged(a, b, n - 1, mid) && #[trigger] entry_step(mid, k, v, r) && (key_index(mid, k) >= 0
                ==> shared_tag_merged(mid[key_index(mid, k)].1, v, r[key_index(mid, k)].1))
    }
}

/// The position of the first tag named `key`.
fn tag_position(tags: &Vec<(String, Readonly<RefTag>)>, key: &String) -> (r: Option<usize>)
    ensures
        match r {
            Some(p) => p as int == key_index(tag_list_model(tags@), key@),
            None => key_index(tag_list_model(tags@), key@) == -1,
        },
{
    let ghost s = tag_list_model(tags@);
    proof {
        lemma_key_index(s, key@);
    }
    let mut i: usize = 0;
    while i < tags.len()
        invariant
            i <= tags@.len(),
            s == tag_list_model(tags@),
            forall|j: int| 0 <= j < i ==> s[j].0 != key@,
            -1 <= key_index(s, key@) < s.len(),
            key_index(s, key@) >= 0 ==> s[key_index(s, key@)].0 == key@,
            forall|j: int| 0 <= j < key_index(s, key@) ==> s[j].0 != key@,
            key_index(s, key@) < 0 ==> forall|j: int| 0 <= j < s.len() ==> s[j].0 != key@,
        decreases tags.len() - i,
    {
        assert(s[i as int].0 == tags@[i as int].0@);
        if tags[i].0 == *key {
            return Some(i);
        }
        i = i + 1;
    }
    None
}

/// Merges the tags `b` into the tags `a`, one after another.
fn merge_tag_list(a: &mut Vec<(String, Readonly<RefTag>)>, b: &Vec<(String, Readonly<RefTag>)>)
    ensures
        tag_list_merged(tag_list_model(old(a)@), *b, b@.len() as int, tag_list_model(final(a)@)),
    decreases b,
{
    let ghost a0 = tag_list_model(a@);
    let mut i: usize = 0;
    while i < b.len()
        invariant
            i <= b@.len(),
            tag_list_merged(a0, *b, i as int, tag_list_model(a@)),
        decreases b.len() - i,
    {
        let ghost mid = tag_list_model(a@);
        let key = &b[i].0;
        let value = &b[i].1;
        proof {
            lemma_key_index(mid, key@);
        }
        match tag_position(a, key) {
            Some(p) => {
                if !same_allocation(&a[p].1, value) {
                    proof {
                        assert(decreases_to!(*b => b@[i as int]));
                        assert(decreases_to!(b@[i as int] => b@[i as int].1));
                        assert(decreases_to!(b@[i as int].1 => (*b@[i as int].1).value));
                    }
                    let mut tag = a[p].1.value.duplicate();
                    tag.merge(&value.value);
                    let merged = readonly(ReferencedValue { reference: value.reference.clone(), value: tag });
                    let stored_key = a[p].0.clone();
                    a.set(p, (stored_key, merged));
                }
                assert(tag_list_model(a@) =~= mid.update(p as int, (key@, tag_list_model(a@)[p as int].1)));
            },
            None => {
                a.push((key.clone(), value.duplicate()));
                assert(tag_list_model(a@) =~= mid.push((key@, *value)));
            },
        }
        proof {
            let r = tag_list_model(a@);
            let k = key@;
            assert(b@[i as int].0@ == k);
            assert(entry_step(mid, k, *value, r));
            assert(key_index(mid, k) >= 0 ==> shared_tag_merged(mid[key_index(mid, k)].1, *value, r[key_index(mid, k)].1));
            let n = i + 1;
            assert(tag_list_merged(a0, *b, n - 1, mid));
            assert(tag_list_merged(a0, *b, n, r));
        }
        i = i + 1;
    }
}

impl Tag {
    /// Merges the tag `other` into this one: the label stays, or is `other`'s where there is
    /// none; the JSON merges; the tags under `other` merge into these.
    pub fn merge(&mut self, other: &Tag)
        ensures
            tag_merged(old(self).model(), *other, final(self).model()),
        decreases other,
    {
        self.label.overwrite(&other.label);
        self.other.merge(&other.other);
        merge_tag_list(&mut self.tags, &other.tags);
    }
}

/// `r` is the definition `a` with the definition `b` merged into it: the name and the
/// identifier are `b`'s, the location stays or is `b`'s where `a` has none, the metadata,
/// edges, tags, processors, arguments, environments and foreign definitions of `b` merge into
/// `a`'s, and the parent stays.
pub open spec fn definition_merged(a: DefinitionModel, b: Definition, r: DefinitionModel) -> bool
    decreases b, 0int,
{
    &&& r.parent == a.parent
    &&& r.name == b.name@
    &&& r.id == b.id@
    &&& r.location == <Option<String> as Overwrite>::overwritten(a.location, b.location.model())
    &&& metadata_map_merged(a.metadata, b.metadata, b.metadata.raw().len() as int, r.metadata)
    &&& edge_map_merged(a.edges, b.edges, b.edges.raw().len() as int, r.edges)
    &&& shared_tag_map_merged(a.tags, b.tags, b.tags.raw().len() as int, r.tags)
    &&& <StrMap<Readonly<Processor>> as Merge>::merged(a.processors, b.processors.model(), r.processors)
    &&& <StrMap<Readonly<Vec<String>>> as Merge>::merged(a.arguments, b.arguments.model(), r.arguments)
    &&& <StrMap<Readonly<StrMap<String>>> as Merge>::merged(a.environments, b.environments.model(), r.environments)
    &&& foreign_map_merged(a.foreign_definitions, b.foreign_definitions, b.foreign_definitions.raw().len() as int, r.foreign_definitions)
}

/// `r` is the definition `a`, when there is one, with the definition `b`, when there is
/// one, merged into it; a missing definition takes `b`.
pub open spec fn optional_definition_merged(a: Option<DefinitionModel>, b: Option<Definition>, r: Option<DefinitionModel>) -> bool
    decreases b, 0int,
{
    match b {
        Some(y) => match a {
            None => r == Some(y.model()),
            Some(x) => r matches Some(z) && definition_merged(x, y, z),
        },
        None => r == a,
    }
}

/// `r` is the shared metadata `a` with the shared metadata `b` merged into it: nothing
/// changes when both are one, otherwise `r` holds the merged metadata.
pub open spec fn shared_metadata_merged(a: Readonly<Metadata>, b: Readonly<Metadata>, r: Readonly<Metadata>) -> bool
    decreases b, 1int,
{
    ||| a == b && r == a
    ||| metadata_merged((*a).model(), *b, (*r).model())
}

/// `r` is the metadata `a` with the metadata `b` merged into it: its uses of edges, its tags,
/// its JSON and its use of a processor merge.
pub open spec fn metadata_merged(a: MetadataModel, b: Metadata, r: MetadataModel) -> bool
    decreases b, 0int,
{
    &&& edge_override_map_merged(a.edges, b.edges, b.edges.raw().len() as int, r.edges)
    &&& lazy_tag_map_merged(a.tags, b.tags, b.tags.raw().len() as int, r.tags)
    &&& <JsonMap as Merge>::merged(a.other, b.other.model(), r.other)
    &&& <Option<DraftProcessorOverride> as Merge>::merged(a.processor, b.processor.model(), r.processor)
}

/// `r` is the use of an edge `a` with the use `b` merged into it: the arguments and
/// environments of `b` follow `a`'s, the edges, the JSON and the definitions merge.
pub open spec fn edge_override_merged(a: EdgeOverrideModel, b: EdgeOverride, r: EdgeOverrideModel) -> bool
    decreases b, 0int,
{
    &&& <Vec<DraftArguments> as Merge>::merged(a.arguments, b.arguments.model(), r.arguments)
    &&& <Vec<DraftEnvironments> as Merge>::merged(a.environments, b.environments.model(), r.environments)
    &&& lazy_edge_merged(a.edge, b.edge, r.edge)
    &&& <JsonMap as Merge>::merged(a.other, b.other.model(), r.other)
    &&& optional_definition_merged(a.definition, b.definition, r.definition)
}

/// `r` is the edge `a`, named, shared or in place, with the edge `b` merged into it: a
/// reference is renamed by `b`'s reference, a shared edge takes in an edge merged into it, an
/// edge in place merged with a shared edge becomes a new shared edge under `b`'s reference,
/// and an unresolved reference takes whatever `b` holds.
pub open spec fn lazy_edge_merged(a: RefModel<Edge, EdgeModel>, b: LazyRefOrValue<Edge>, r: RefModel<Edge, EdgeModel>) -> bool
    decreases b, 0int,
{
    match b {
        LazyRefOrValue::Ref(rb) => match a {
            RefModel::Ref(_) => r == RefModel::<Edge, EdgeModel>::Ref(rb@),
            RefModel::Referenced(_, pa) => r == RefModel::<Edge, EdgeModel>::Referenced(rb@, pa),
            RefModel::Value(_) => r == a,
        },
        LazyRefOrValue::ReferencedValue(rv) => match a {
            RefModel::Ref(_) => r == RefModel::<Edge, EdgeModel>::Referenced(rv.reference@, rv.value),
            RefModel::Referenced(_, pa) => r matches RefModel::Referenced(rr, pr) && rr == rv.reference@
                && shared_edge_merged(pa, rv.value, pr),
            RefModel::Value(va) => r matches RefModel::Referenced(rr, pr) && rr == rv.reference@
                && edge_merged(va, *rv.value, (*pr).model()),
        },
        LazyRefOrValue::Value(vb) => match a {
            RefModel::Ref(_) => r == RefModel::<Edge, EdgeModel>::Value(vb.model()),
            RefModel::Referenced(ra, pa) => r matches RefModel::Referenced(rr, pr) && rr == ra
                && edge_merged((*pa).model(), vb, (*pr).model()),
            RefModel::Value(va) => r matches RefModel::Value(vr) && edge_merged(va, vb, vr),
        },
    }
}

/// `r` is the shared edge `a` with the shared edge `b` merged into it: nothing changes when
/// both are one, otherwise `r` holds the merged edge.
pub open spec fn shared_edge_merged(a: Readonly<Edge>, b: Readonly<Edge>, r: Readonly<Edge>) -> bool
    decreases b, 1int,
{
    ||| a == b && r == a
    ||| edge_merged((*a).model(), *b, (*r).model())
}

/// `r` is the edge `a` with the edge `b` merged into it: the definitions it leads to, its use
/// of a processor and its JSON merge.
pub open spec fn edge_merged(a: EdgeModel, b: Edge, r: EdgeModel) -> bool
    decreases b, 0int,
{
    &&& optional_shared_foreign_merged(a.definition, b.definition, r.definition)
    &&& <Option<DraftProcessorOverride> as Merge>::merged(a.processor, b.processor.model(), r.processor)
    &&& <JsonMap as Merge>::merged(a.other, b.other.model(), r.other)
}

/// `r` is the shared foreign definition `a`, when there is one, with `b`, when there is one,
/// merged into it; a missing one takes `b`.
pub open spec fn optional_shared_foreign_merged(
    a: Option<Readonly<ForeignDefinition>>,
    b: Option<Readonly<ForeignDefinition>>,
    r: Option<Readonly<ForeignDefinition>>,
) -> bool
    decreases b, 0int,
{
    match b {
        Some(y) => match a {
            None => r == Some(y),
            Some(x) => r matches Some(z) && shared_foreign_merged(x, y, z),
        },
        None => r == a,
    }
}

/// `r` is the shared foreign definition `a` with `b` merged into it: nothing changes when
/// both are one, otherwise `r` holds the merged foreign definition.
pub open spec fn shared_foreign_merged(a: Readonly<ForeignDefinition>, b: Readonly<ForeignDefinition>, r: Readonly<ForeignDefinition>) -> bool
    decreases b, 1int,
{
    ||| a == b && r == a
    ||| foreign_merged((*a).model(), *b, (*r).model())
}

/// `r` is the foreign definition `a` with `b` merged into it: where they are read from and
/// what was read merge.
pub open spec fn foreign_merged(a: ForeignDefinitionModel, b: ForeignDefinition, r: ForeignDefinitionModel) -> bool
    decreases b, 0int,
{
    &&& <Option<DraftDefinitionInput> as Merge>::merged(a.input, b.input.model(), r.input)
    &&& optional_definition_merged(a.output, b.output, r.output)
}

/// `r` is the tag `a`, named, shared or in place, with the tag `b` merged into it, as
/// [`lazy_edge_merged`] says of edges; a tag merged into another takes its reference.
pub open spec fn lazy_tag_merged(
    a: RefModel<RefTag, (Seq<char>, TagModel)>,
    b: LazyRefOrValue<RefTag>,
    r: RefModel<RefTag, (Seq<char>, TagModel)>,
) -> bool {
    match b {
        LazyRefOrValue::Ref(rb) => match a {
            RefModel::Ref(_) => r == RefModel::<RefTag, (Seq<char>, TagModel)>::Ref(rb@),
            RefModel::Referenced(_, pa) => r == RefModel::<RefTag, (Seq<char>, TagModel)>::Referenced(rb@, pa),
            RefModel::Value(_) => r == a,
        },
        LazyRefOrValue::ReferencedValue(rv) => match a {
            RefModel::Ref(_) => r == RefModel::<RefTag, (Seq<char>, TagModel)>::Referenced(rv.reference@, rv.value),
            RefModel::Referenced(_, pa) => r matches RefModel::Referenced(rr, pr) && rr == rv.reference@
                && shared_tag_merged(pa, rv.value, pr),
            RefModel::Value(va) => r matches RefModel::Referenced(rr, pr) && rr == rv.reference@
                && pr.reference@ == rv.value.reference@ && tag_merged(va.1, rv.value.value, pr.value.model()),
        },
        LazyRefOrValue::Value(vb) => match a {
            RefModel::Ref(_) => r == RefModel::<RefTag, (Seq<char>, TagModel)>::Value(vb.model()),
            RefModel::Referenced(ra, pa) => r matches RefModel::Referenced(rr, pr) && rr == ra
                && pr.reference@ == vb.reference@ && tag_merged(pa.value.model(), vb.value, pr.value.model()),
            RefModel::Value(va) => r matches RefModel::Value(vr) && vr.0 == vb.reference@ && tag_merged(va.1, vb.value, vr.1),
        },
    }
}

/// `r` is the entries `a` with the first `n` metadata of `b` merged into them one after
/// another.
pub open spec fn metadata_map_merged(
    a: Entries<Readonly<Metadata>>,
    b: StrMap<Readonly<Metadata>>,
    n: int,
    r: Entries<Readonly<Metadata>>,
) -> bool
    decreases b, n,
{
    if n <= 0 {
        r == a
    } else if n > b.raw().len() {
        false
    } else {
        let k = b.raw()[n - 1].0;
        let v = b.raw()[n - 1].1;
        exists|mid: Entries<Readonly<Metadata>>|
            metadata_map_merged(a, b, n - 1, mid) && #[trigger] entry_step(mid, k, v, r) && (key_index(mid, k) >= 0
                ==> shared_metadata_merged(mid[key_index(mid, k)].1, v, r[key_index(mid, k)].1))
    }
}

/// `r` is the entries `a` with the first `n` edges of `b` merged into them one after
/// another.
pub open spec fn edge_map_merged(
    a: Entries<Readonly<Edge>>,
    b: StrMap<Readonly<Edge>>,
    n: int,
    r: Entries<Readonly<Edge>>,
) -> bool
    decreases b, n,
{
    if n <= 0 {
        r == a
    } else if n > b.raw().len() {
        false
    } else {
        let k = b.raw()[n - 1].0;
        let v = b.raw()[n - 1].1;
        exists|mid: Entries<Readonly<Edge>>|
            edge_map_merged(a, b, n - 1, mid) && #[trigger] entry_step(mid, k, v, r) && (key_index(mid, k) >= 0
                ==> shared_edge_merged(mid[key_index(mid, k)].1, v, r[key_index(mid, k)].1))
    }
}

/// `r` is the entries `a` with the first `n` foreign definitions of `b` merged into them one after
/// another.
pub open spec fn foreign_map_merged(
    a: Entries<Readonly<ForeignDefinition>>,
    b: StrMap<Readonly<ForeignDefinition>>,
    n: int,
    r: Entries<Readonly<ForeignDefinition>>,
) -> bool
    decreases b, n,
{
    if n <= 0 {
        r == a
    } else if n > b.raw().len() {
        false
    } else {
        let k = b.raw()[n - 1].0;
        let v = b.raw()[n - 1].1;
        exists|mid: Entries<Readonly<ForeignDefinition>>|
            foreign_map_merged(a, b, n - 1, mid) && #[trigger] entry_step(mid, k, v, r) && (key_index(mid, k) >= 0
                ==> shared_foreign_merged(mid[key_index(mid, k)].1, v, r[key_index(mid, k)].1))
    }
}

/// `r` is the entries `a` with the first `n` tags of `b` merged into them one after
/// another.
pub open spec fn shared_tag_map_merged(
    a: Entries<Readonly<RefTag>>,
    b: StrMap<Readonly<RefTag>>,
    n: int,
    r: Entries<Readonly<RefTag>>,
) -> bool
    decreases b, n,
{
    if n <= 0 {
        r == a
    } else if n > b.raw().len() {
        false
    } else {
        let k = b.raw()[n - 1].0;
        let v = b.raw()[n - 1].1;
        exists|mid: Entries<Readonly<RefTag>>|
            shared_tag_map_merged(a, b, n - 1, mid) && #[trigger] entry_step(mid, k, v, r) && (key_index(mid, k) >= 0
                ==> shared_tag_merged(mid[key_index(mid, k)].1, v, r[key_index(mid, k)].1))
    }
}

/// `r` is the entries `a` with the first `n` uses of edges of `b` merged into them one after
/// another.
pub open spec fn edge_override_map_merged(a: Entries<EdgeOverrideModel>, b: StrMap<EdgeOverride>, n: int, r: Entries<EdgeOverrideModel>) -> bool
    decreases b, n,
{
    if n <= 0 {
        r == a
    } else if n > b.raw().len() {
        false
    } else {
        let k = b.raw()[n - 1].0;
        let v = b.raw()[n - 1].1;
        exists|mid: Entries<EdgeOverrideModel>|
            edge_override_map_merged(a, b, n - 1, mid) && #[trigger] entry_step(mid, k, v.model(), r) && (key_index(mid, k) >= 0
                ==> edge_override_merged(mid[key_index(mid, k)].1, v, r[key_index(mid, k)].1))
    }
}

/// `r` is the entries `a` with the first `n` tags of `b` merged into them one after
/// another.
pub open spec fn lazy_tag_map_merged(a: Entries<RefModel<RefTag, (Seq<char>, TagModel)>>, b: StrMap<LazyRefOrValue<RefTag>>, n: int, r: Entries<RefModel<RefTag, (Seq<char>, TagModel)>>) -> bool
    decreases b, n,
{
    if n <= 0 {
        r == a
    } else if n > b.raw().len() {
        false
    } else {
        let k = b.raw()[n - 1].0;
        let v = b.raw()[n - 1].1;
        exists|mid: Entries<RefModel<RefTag, (Seq<char>, TagModel)>>|
            lazy_tag_map_merged(a, b, n - 1, mid) && #[trigger] entry_step(mid, k, v.model(), r) && (key_index(mid, k) >= 0
                ==> lazy_tag_merged(mid[key_index(mid, k)].1, v, r[key_index(mid, k)].1))
    }
}

/// One entry merged in adds its key, if it was not there, and no other.
pub proof fn lemma_entry_step_keys<M>(mid: Entries<M>, k: Seq<char>, v: M, r: Entries<M>, x: Seq<char>)
    requires
        entry_step(mid, k, v, r),
    ensures
        has_key(r, x) <==> has_key(mid, x) || x == k,
{
    lemma_key_index(mid, k);
    let p = key_index(mid, k);
    if has_key(mid, x) {
        let j = choose|j: int| 0 <= j < mid.len() && mid[j].0 == x;
        assert(r[j].0 == x);
    }
    if x == k {
        if p >= 0 {
            assert(r[p].0 == k);
        } else {
            assert(r[mid.len() as int].0 == k);
        }
    }
    if has_key(r, x) {
        let j = choose|j: int| 0 <= j < r.len() && r[j].0 == x;
        if j < mid.len() && j != p {
            assert(mid[j].0 == x);
        }
    }
}

/// The first `n` entries of `b`, by key.
pub open spec fn keys_taken<V>(b: StrMap<V>, n: int) -> Seq<(Seq<char>, V)> {
    b.raw().take(n)
}

/// Merging entries into a map adds their keys and no other.
pub proof fn lemma_metadata_map_keys(a: Entries<Readonly<Metadata>>, b: StrMap<Readonly<Metadata>>, n: int, r: Entries<Readonly<Metadata>>, x: Seq<char>)
    requires
        0 <= n <= b.raw().len(),
        metadata_map_merged(a, b, n, r),
    ensures
        has_key(r, x) <==> has_key(a, x) || has_key(keys_taken(b, n), x),
    decreases n,
{
    if n > 0 {
        let k = b.raw()[n - 1].0;
        let v = b.raw()[n - 1].1;
        let mid = choose|mid: Entries<Readonly<Metadata>>|
            metadata_map_merged(a, b, n - 1, mid) && #[trigger] entry_step(mid, k, v, r) && (key_index(mid, k) >= 0
                ==> shared_metadata_merged(mid[key_index(mid, k)].1, v, r[key_index(mid, k)].1));
        lemma_metadata_map_keys(a, b, n - 1, mid, x);
        lemma_entry_step_keys(mid, k, v, r, x);
        let t = keys_taken(b, n);
        let s = keys_taken(b, n - 1);
        assert(t.drop_last() =~= s);
        if has_key(t, x) {
            let j = choose|j: int| 0 <= j < t.len() && t[j].0 == x;
            if j < n - 1 {
                assert(s[j].0 == x);
            }
        }
        if has_key(s, x) {
            let j = choose|j: int| 0 <= j < s.len() && s[j].0 == x;
            assert(t[j].0 == x);
        }
        if x == k {
            assert(t[n - 1].0 == x);
        }
    } else {
        assert(keys_taken(b, n).len() == 0);
    }
}

/// Merging entries into a map adds their keys and no other.
pub proof fn lemma_edge_map_keys(a: Entries<Readonly<Edge>>, b: StrMap<Readonly<Edge>>, n: int, r: Entries<Readonly<Edge>>, x: Seq<char>)
    requires
        0 <= n <= b.raw().len(),
        edge_map_merged(a, b, n, r),
    ensures
        has_key(r, x) <==> has_key(a, x) || has_key(keys_taken(b, n), x),
    decreases n,
{
    if n > 0 {
        let k = b.raw()[n - 1].0;
        let v = b.raw()[n - 1].1;
        let mid = choose|mid: Entries<Readonly<Edge>>|
            edge_map_merged(a, b, n - 1, mid) && #[trigger] entry_step(mid, k, v, r) && (key_index(mid, k) >= 0
                ==> shared_edge_merged(mid[key_index(mid, k)].1, v, r[key_index(mid, k)].1));
        lemma_edge_map_keys(a, b, n - 1, mid, x);
        lemma_entry_step_keys(mid, k, v, r, x);
        let t = keys_taken(b, n);
        let s = keys_taken(b, n - 1);
        assert(t.drop_last() =~= s);
        if has_key(t, x) {
            let j = choose|j: int| 0 <= j < t.len() && t[j].0 == x;
            if j < n - 1 {
                assert(s[j].0 == x);
            }
        }
        if has_key(s, x) {
            let j = choose|j: int| 0 <= j < s.len() && s[j].0 == x;
            assert(t[j].0 == x);
        }
        if x == k {
            assert(t[n - 1].0 == x);
        }
    } else {
        assert(keys_taken(b, n).len() == 0);
    }
}

/// Merging entries into a map adds their keys and no other.
pub proof fn lemma_shared_tag_map_keys(a: Entries<Readonly<RefTag>>, b: StrMap<Readonly<RefTag>>, n: int, r: Entries<Readonly<RefTag>>, x: Seq<char>)
    requires
        0 <= n <= b.raw().len(),
        shared_tag_map_merged(a, b, n, r),
    ensures
        has_key(r, x) <==> has_key(a, x) || has_key(keys_taken(b, n), x),
    decreases n,
{
    if n > 0 {
        let k = b.raw()[n - 1].0;
        let v = b.raw()[n - 1].1;
        let mid = choose|mid: Entries<Readonly<RefTag>>|
            shared_tag_map_merged(a, b, n - 1, mid) && #[trigger] entry_step(mid, k, v, r) && (key_index(mid, k) >= 0
                ==> shared_tag_merged(mid[key_index(mid, k)].1, v, r[key_index(mid, k)].1));
        lemma_shared_tag_map_keys(a, b, n - 1, mid, x);
        lemma_entry_step_keys(mid, k, v, r, x);
        let t = keys_taken(b, n);
        let s = keys_taken(b, n - 1);
        assert(t.drop_last() =~= s);
        if has_key(t, x) {
            let j = choose|j: int| 0 <= j < t.len() && t[j].0 == x;
            if j < n - 1 {
                assert(s[j].0 == x);
            }
        }
        if has_key(s, x) {
            let j = choose|j: int| 0 <= j < s.len() && s[j].0 == x;
            assert(t[j].0 == x);
        }
        if x == k {
            assert(t[n - 1].0 == x);
        }
    } else {
        assert(keys_taken(b, n).len() == 0);
    }
}

/// Merging entries into a map adds their keys and no other.
pub proof fn lemma_foreign_map_keys(a: Entries<Readonly<ForeignDefinition>>, b: StrMap<Readonly<ForeignDefinition>>, n: int, r: Entries<Readonly<ForeignDefinition>>, x: Seq<char>)
    requires
        0 <= n <= b.raw().len(),
        foreign_map_merged(a, b, n, r),
    ensures
        has_key(r, x) <==> has_key(a, x) || has_key(keys_taken(b, n), x),
    decreases n,
{
    if n > 0 {
        let k = b.raw()[n - 1].0;
        let v = b.raw()[n - 1].1;
        let mid = choose|mid: Entries<Readonly<ForeignDefinition>>|
            foreign_map_merged(a, b, n - 1, mid) && #[trigger] entry_step(mid, k, v, r) && (key_index(mid, k) >= 0
                ==> shared_foreign_merged(mid[key_index(mid, k)].1, v, r[key_index(mid, k)].1));
        lemma_foreign_map_keys(a, b, n - 1, mid, x);
        lemma_entry_step_keys(mid, k, v, r, x);
        let t = keys_taken(b, n);
        let s = keys_taken(b, n - 1);
        assert(t.drop_last() =~= s);
        if has_key(t, x) {
            let j = choose|j: int| 0 <= j < t.len() && t[j].0 == x;
            if j < n - 1 {
                assert(s[j].0 == x);
            }
        }
        if has_key(s, x) {
            let j = choose|j: int| 0 <= j < s.len() && s[j].0 == x;
            assert(t[j].0 == x);
        }
        if x == k {
            assert(t[n - 1].0 == x);
        }
    } else {
        assert(keys_taken(b, n).len() == 0);
    }
}

/// Merges the metadata `b` into `a`, one after another.
fn merge_metadata_map(a: &mut StrMap<Readonly<Metadata>>, b: &StrMap<Readonly<Metadata>>)
    ensures
        metadata_map_merged(old(a).model(), *b, b.raw().len() as int, final(a).model()),
    decreases b,
{
    proof {
        b.lemma_raw();
    }
    let ghost a0 = a.model();
    let n = b.len();
    let mut i: usize = 0;
    while i < n
        invariant
            n == b.raw().len(),
            n == b.model().len(),
            i <= n,
            metadata_map_merged(a0, *b, i as int, a.model()),
        decreases n - i,
    {
        let ghost mid = a.model();
        let key = b.key_at(i);
        let value = b.value_at(i);
        proof {
            lemma_key_index(mid, key@);
            b.lemma_raw();
        }
        match a.index_of(key) {
            Some(p) => {
                let stored = a.value_at(p);
                if !same_allocation(stored, value) {
                    proof {
                        lemma_map_value_decreases(*b, i as int);
                    }
                    let mut merged = (**stored).duplicate();
                    merged.merge(&**value);
                    a.set_value(p, readonly(merged));
                }
                assert(a.model() =~= mid.update(p as int, (key@, a.model()[p as int].1)));
            },
            None => {
                a.insert(key.clone(), value.duplicate());
            },
        }
        proof {
            let r = a.model();
            let k = key@;
            assert(b.raw()[i as int].0 == k);
            assert(entry_step(mid, k, *value, r));
            if key_index(mid, k) >= 0 {
                assert(shared_metadata_merged(mid[key_index(mid, k)].1, *value, r[key_index(mid, k)].1));
            }
            let m = i + 1;
            assert(metadata_map_merged(a0, *b, m - 1, mid));
            assert(metadata_map_merged(a0, *b, m, r));
        }
        i = i + 1;
    }
}

/// Merges the edges `b` into `a`, one after another.
fn merge_edge_map(a: &mut StrMap<Readonly<Edge>>, b: &StrMap<Readonly<Edge>>)
    ensures
        edge_map_merged(old(a).model(), *b, b.raw().len() as int, final(a).model()),
    decreases b,
{
    proof {
        b.lemma_raw();
    }
    let ghost a0 = a.model();
    let n = b.len();
    let mut i: usize = 0;
    while i < n
        invariant
            n == b.raw().len(),
            n == b.model().len(),
            i <= n,
            edge_map_merged(a0, *b, i as int, a.model()),
        decreases n - i,
    {
        let ghost mid = a.model();
        let key = b.key_at(i);
        let value = b.value_at(i);
        proof {
            lemma_key_index(mid, key@);
            b.lemma_raw();
        }
        match a.index_of(key) {
            Some(p) => {
                let stored = a.value_at(p);
                if !same_allocation(stored, value) {
                    proof {
                        lemma_map_value_decreases(*b, i as int);
                    }
                    let mut merged = (**stored).duplicate();
                    merged.merge(&**value);
                    a.set_value(p, readonly(merged));
                }
                assert(a.model() =~= mid.update(p as int, (key@, a.model()[p as int].1)));
            },
            None => {
                a.insert(key.clone(), value.duplicate());
            },
        }
        proof {
            let r = a.model();
            let k = key@;
            assert(b.raw()[i as int].0 == k);
            assert(entry_step(mid, k, *value, r));
            if key_index(mid, k) >= 0 {
                assert(shared_edge_merged(mid[key_index(mid, k)].1, *value, r[key_index(mid, k)].1));
            }
            let m = i + 1;
            assert(edge_map_merged(a0, *b, m - 1, mid));
            assert(edge_map_merged(a0, *b, m, r));
        }
        i = i + 1;
    }
}

/// Merges the foreign definitions `b` into `a`, one after another.
fn merge_foreign_map(a: &mut StrMap<Readonly<ForeignDefinition>>, b: &StrMap<Readonly<ForeignDefinition>>)
    ensures
        foreign_map_merged(old(a).model(), *b, b.raw().len() as int, final(a).model()),
    decreases b,
{
    proof {
        b.lemma_raw();
    }
    let ghost a0 = a.model();
    let n = b.len();
    let mut i: usize = 0;
    while i < n
        invariant
            n == b.raw().len(),
            n == b.model().len(),
            i <= n,
            foreign_map_merged(a0, *b, i as int, a.model()),
        decreases n - i,
    {
        let ghost mid = a.model();
        let key = b.key_at(i);
        let value = b.value_at(i);
        proof {
            lemma_key_index(mid, key@);
            b.lemma_raw();
        }
        match a.index_of(key) {
            Some(p) => {
                let stored = a.value_at(p);
                if !same_allocation(stored, value) {
                    proof {
                        lemma_map_value_decreases(*b, i as int);
                    }
                    let mut merged = (**stored).duplicate();
                    merged.merge(&**value);
                    a.set_value(p, readonly(merged));
                }
                assert(a.model() =~= mid.update(p as int, (key@, a.model()[p as int].1)));
            },
            None => {
                a.insert(key.clone(), value.duplicate());
            },
        }
        proof {
            let r = a.model();
            let k = key@;
            assert(b.raw()[i as int].0 == k);
            assert(entry_step(mid, k, *value, r));
            if key_index(mid, k) >= 0 {
                assert(shared_foreign_merged(mid[key_index(mid, k)].1, *value, r[key_index(mid, k)].1));
            }
            let m = i + 1;
            assert(foreign_map_merged(a0, *b, m - 1, mid));
            assert(foreign_map_merged(a0, *b, m, r));
        }
        i = i + 1;
    }
}

/// Merges the tags `b` into `a`, one after another.
fn merge_shared_tag_map(a: &mut StrMap<Readonly<RefTag>>, b: &StrMap<Readonly<RefTag>>)
    ensures
        shared_tag_map_merged(old(a).model(), *b, b.raw().len() as int, final(a).model()),
    decreases b,
{
    proof {
        b.lemma_raw();
    }
    let ghost a0 = a.model();
    let n = b.len();
    let mut i: usize = 0;
    while i < n
        invariant
            n == b.raw().len(),
            n == b.model().len(),
            i <= n,
            shared_tag_map_merged(a0, *b, i as int, a.model()),
        decreases n - i,
    {
        let ghost mid = a.model();
        let key = b.key_at(i);
        let value = b.value_at(i);
        proof {
            lemma_key_index(mid, key@);
            b.lemma_raw();
        }
        match a.index_of(key) {
            Some(p) => {
                let stored = a.value_at(p);
                if !same_allocation(stored, value) {
                    proof {
                        lemma_map_value_decreases(*b, i as int);
                    }
                    let mut tag = stored.value.duplicate();
                    proof {
                        assert(decreases_to!(b.raw()[i as int].1 => (*b.raw()[i as int].1).value));
                    }
                    tag.merge(&value.value);
                    let merged = ReferencedValue { reference: value.reference.clone(), value: tag };
                    a.set_value(p, readonly(merged));
                }
                assert(a.model() =~= mid.update(p as int, (key@, a.model()[p as int].1)));
            },
            None => {
                a.insert(key.clone(), value.duplicate());
            },
        }
        proof {
            let r = a.model();
            let k = key@;
            assert(b.raw()[i as int].0 == k);
            assert(entry_step(mid, k, *value, r));
            let m = i + 1;
            assert(shared_tag_map_merged(a0, *b, m - 1, mid));
            assert(shared_tag_map_merged(a0, *b, m, r));
        }
        i = i + 1;
    }
}

/// Merges the uses of edges `b` into `a`, one after another.
fn merge_edge_override_map(a: &mut StrMap<EdgeOverride>, b: &StrMap<EdgeOverride>)
    ensures
        edge_override_map_merged(old(a).model(), *b, b.raw().len() as int, final(a).model()),
    decreases b,
{
    proof {
        b.lemma_raw();
    }
    let ghost a0 = a.model();
    let n = b.len();
    let mut i: usize = 0;
    while i < n
        invariant
            n == b.raw().len(),
            n == b.model().len(),
            i <= n,
            edge_override_map_merged(a0, *b, i as int, a.model()),
        decreases n - i,
    {
        let ghost mid = a.model();
        let key = b.key_at(i);
        let value = b.value_at(i);
        proof {
            lemma_key_index(mid, key@);
            b.lemma_raw();
        }
        match a.index_of(key) {
            Some(p) => {
                let mut stored = a.value_at(p).duplicate();
                proof {
                    lemma_map_value_decreases(*b, i as int);
                }
                    stored.merge(value);
                a.set_value(p, stored);
            },
            None => {
                a.insert(key.clone(), value.duplicate());
            },
        }
        proof {
            let r = a.model();
            let k = key@;
            assert(b.raw()[i as int].0 == k);
            assert(entry_step(mid, k, value.model(), r));
            let m = i + 1;
            assert(edge_override_map_merged(a0, *b, m - 1, mid));
            assert(edge_override_map_merged(a0, *b, m, r));
        }
        i = i + 1;
    }
}

/// Merges the tags `b` into `a`, one after another.
fn merge_lazy_tag_map(a: &mut StrMap<LazyRefOrValue<RefTag>>, b: &StrMap<LazyRefOrValue<RefTag>>)
    ensures
        lazy_tag_map_merged(old(a).model(), *b, b.raw().len() as int, final(a).model()),
    decreases b,
{
    proof {
        b.lemma_raw();
    }
    let ghost a0 = a.model();
    let n = b.len();
    let mut i: usize = 0;
    while i < n
        invariant
            n == b.raw().len(),
            n == b.model().len(),
            i <= n,
            lazy_tag_map_merged(a0, *b, i as int, a.model()),
        decreases n - i,
    {
        let ghost mid = a.model();
        let key = b.key_at(i);
        let value = b.value_at(i);
        proof {
            lemma_key_index(mid, key@);
            b.lemma_raw();
        }
        match a.index_of(key) {
            Some(p) => {
                let mut stored = a.value_at(p).duplicate();
                proof {
                    lemma_map_value_decreases(*b, i as int);
                }
                    merge_lazy_tag(&mut stored, value);
                a.set_value(p, stored);
            },
            None => {
                a.insert(key.clone(), value.duplicate());
            },
        }
        proof {
            let r = a.model();
            let k = key@;
            assert(b.raw()[i as int].0 == k);
            assert(entry_step(mid, k, value.model(), r));
            let m = i + 1;
            assert(lazy_tag_map_merged(a0, *b, m - 1, mid));
            assert(lazy_tag_map_merged(a0, *b, m, r));
        }
        i = i + 1;
    }
}

/// Merges the definition `b`, when there is one, into `a`; a missing definition takes a copy
/// of `b`.
fn merge_optional_definition(a: &mut Option<Definition>, b: &Option<Definition>)
    ensures
        optional_definition_merged(old(a).model(), *b, final(a).model()),
    decreases b,
{
    match b {
        Some(y) => match a {
            Some(x) => {
                x.merge(y);
            },
            None => {
                *a = Some(y.duplicate());
            },
        },
        None => {},
    }
}

/// Merges the shared foreign definition `b`, when there is one, into `a`; a missing one
/// takes `b`.
fn merge_optional_shared_foreign(a: &mut Option<Readonly<ForeignDefinition>>, b: &Option<Readonly<ForeignDefinition>>)
    ensures
        optional_shared_foreign_merged(*old(a), *b, *final(a)),
    decreases b,
{
    match b {
        Some(y) => match a {
            Some(x) => {
                if !same_allocation(x, y) {
                    let mut merged = (**x).duplicate();
                    merged.merge(&**y);
                    *x = readonly(merged);
                }
            },
            None => {
                *a = Some(y.duplicate());
            },
        },
        None => {},
    }
}

/// Merges the edge `b`, named, shared or in place, into `a`.
fn merge_lazy_edge(a: &mut LazyRefOrValue<Edge>, b: &LazyRefOrValue<Edge>)
    ensures
        lazy_edge_merged(old(a).model(), *b, final(a).model()),
    decreases b,
{
    match b {
        LazyRefOrValue::Ref(ref2) => match a {
            LazyRefOrValue::Ref(ref1) => {
                *ref1 = ref2.clone();
            },
            LazyRefOrValue::ReferencedValue(rv1) => {
                rv1.reference = ref2.clone();
            },
            LazyRefOrValue::Value(_) => {},
        },
        LazyRefOrValue::ReferencedValue(rv2) => {
            let next = match a {
                LazyRefOrValue::Ref(_) => Some(
                    ReferencedValue { reference: rv2.reference.clone(), value: rv2.value.duplicate() },
                ),
                LazyRefOrValue::ReferencedValue(rv1) => {
                    rv1.reference = rv2.reference.clone();
                    if !same_allocation(&rv1.value, &rv2.value) {
                        let mut merged = (*rv1.value).duplicate();
                        merged.merge(&*rv2.value);
                        rv1.value = readonly(merged);
                    }
                    None
                },
                LazyRefOrValue::Value(v1) => {
                    let mut merged = v1.duplicate();
                    merged.merge(&*rv2.value);
                    Some(ReferencedValue { reference: rv2.reference.clone(), value: readonly(merged) })
                },
            };
            if let Some(rv) = next {
                *a = LazyRefOrValue::ReferencedValue(rv);
            }
        },
        LazyRefOrValue::Value(v2) => {
            let next = match a {
                LazyRefOrValue::Ref(_) => Some(v2.duplicate()),
                LazyRefOrValue::ReferencedValue(rv1) => {
                    let mut merged = (*rv1.value).duplicate();
                    merged.merge(v2);
                    rv1.value = readonly(merged);
                    None
                },
                LazyRefOrValue::Value(v1) => {
                    v1.merge(v2);
                    None
                },
            };
            if let Some(v) = next {
                *a = LazyRefOrValue::Value(v);
            }
        },
    }
}

/// Merges the tag `b`, named, shared or in place, into `a`.
fn merge_lazy_tag(a: &mut LazyRefOrValue<RefTag>, b: &LazyRefOrValue<RefTag>)
    ensures
        lazy_tag_merged(old(a).model(), *b, final(a).model()),
{
    match b {
        LazyRefOrValue::Ref(ref2) => match a {
            LazyRefOrValue::Ref(ref1) => {
                *ref1 = ref2.clone();
            },
            LazyRefOrValue::ReferencedValue(rv1) => {
                rv1.reference = ref2.clone();
            },
            LazyRefOrValue::Value(_) => {},
        },
        LazyRefOrValue::ReferencedValue(rv2) => {
            let next = match a {
                LazyRefOrValue::Ref(_) => Some(
                    ReferencedValue { reference: rv2.reference.clone(), value: rv2.value.duplicate() },
                ),
                LazyRefOrValue::ReferencedValue(rv1) => {
                    rv1.reference = rv2.reference.clone();
                    if !same_allocation(&rv1.value, &rv2.value) {
                        let mut tag = rv1.value.value.duplicate();
                        tag.merge(&rv2.value.value);
                        rv1.value = readonly(ReferencedValue { reference: rv2.value.reference.clone(), value: tag });
                    }
                    None
                },
                LazyRefOrValue::Value(v1) => {
                    let mut tag = v1.value.duplicate();
                    tag.merge(&rv2.value.value);
                    let merged = ReferencedValue { reference: rv2.value.reference.clone(), value: tag };
                    Some(ReferencedValue { reference: rv2.reference.clone(), value: readonly(merged) })
                },
            };
            if let Some(rv) = next {
                *a = LazyRefOrValue::ReferencedValue(rv);
            }
        },
        LazyRefOrValue::Value(v2) => {
            let next = match a {
                LazyRefOrValue::Ref(_) => Some(v2.duplicate()),
                LazyRefOrValue::ReferencedValue(rv1) => {
                    let mut tag = rv1.value.value.duplicate();
                    tag.merge(&v2.value);
                    rv1.value = readonly(ReferencedValue { reference: v2.reference.clone(), value: tag });
                    None
                },
                LazyRefOrValue::Value(v1) => {
                    v1.reference = v2.reference.clone();
                    v1.value.merge(&v2.value);
                    None
                },
            };
            if let Some(v) = next {
                *a = LazyRefOrValue::Value(v);
            }
        },
    }
}

impl Definition {
    /// Merges the definition `other` into this one: the name and the identifier become
    /// `other`'s, the location stays or is `other`'s where there is none, and the metadata,
    /// edges, tags, processors, arguments, environments and foreign definitions of `other`
    /// merge into these.
    pub fn merge(&mut self, other: &Definition)
        ensures
            definition_merged(old(self).model(), *other, final(self).model()),
        decreases other,
    {
        self.name = other.name.clone();
        self.id = other.id.clone();
        self.location.overwrite(&other.location);
        merge_metadata_map(&mut self.metadata, &other.metadata);
        merge_edge_map(&mut self.edges, &other.edges);
        merge_shared_tag_map(&mut self.tags, &other.tags);
        self.processors.merge(&other.processors);
        self.arguments.merge(&other.arguments);
        self.environments.merge(&other.environments);
        merge_foreign_map(&mut self.foreign_definitions, &other.foreign_definitions);
    }
}

impl Metadata {
    /// Merges the metadata `other` into this one: its uses of edges, its tags, its JSON and
    /// its use of a processor merge into these.
    pub fn merge(&mut self, other: &Metadata)
        ensures
            metadata_merged(old(self).model(), *other, final(self).model()),
        decreases other,
    {
        merge_edge_override_map(&mut self.edges, &other.edges);
        merge_lazy_tag_map(&mut self.tags, &other.tags);
        self.other.merge(&other.other);
        self.processor.merge(&other.processor);
    }
}

impl EdgeOverride {
    /// Merges the use of an edge `other` into this one: its arguments and environments follow
    /// these, and its edge, JSON and definition merge into these.
    pub fn merge(&mut self, other: &EdgeOverride)
        ensures
            edge_override_merged(old(self).model(), *other, final(self).model()),
        decreases other,
    {
        self.arguments.merge(&other.arguments);
        self.environments.merge(&other.environments);
        merge_lazy_edge(&mut self.edge, &other.edge);
        self.other.merge(&other.other);
        merge_optional_definition(&mut self.definition, &other.definition);
    }
}

impl Edge {
    /// Merges the edge `other` into this one: the definition it leads to, its use of a
    /// processor and its JSON merge into these.
    pub fn merge(&mut self, other: &Edge)
        ensures
            edge_merged(old(self).model(), *other, final(self).model()),
        decreases other,
    {
        merge_optional_shared_foreign(&mut self.definition, &other.definition);
        self.processor.merge(&other.processor);
        self.other.merge(&other.other);
    }
}

impl ForeignDefinition {
    /// Merges the foreign definition `other` into this one: where it is read from and what
    /// was read merge into these.
    pub fn merge(&mut self, other: &ForeignDefinition)
        ensures
            foreign_merged(old(self).model(), *other, final(self).model()),
        decreases other,
    {
        self.input.merge(&other.input);
        merge_optional_definition(&mut self.output, &other.output);
    }
}

} // verus!
