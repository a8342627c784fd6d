//! Tags as written, nested under one another, and as a definition holds them: each under
//! its path.
use vstd::prelude::*;
use vstd::string::StringExecFns;
use crate::model::Model;
use crate::json::json_model;
use crate::thread::{Readonly, readonly};
use crate::reference_value::ReferencedValue;
use crate::definition::tag::{Tag, TagModel, RefTag};
use crate::dto::{TagDto, TagDtoModel, entries_model, tag_dto_model};

verus! {

/// A tag read from its written form: its name, its path, the path of the tag it is under,
/// and the tag.
pub type TagEntry = (String, String, String, Readonly<RefTag>);

/// The model of a tag entry.
pub type TagEntryModel = (Seq<char>, Seq<char>, Seq<char>, Readonly<RefTag>);

pub open spec fn tag_entry_model(e: TagEntry) -> TagEntryModel {
    (e.0@, e.1@, e.2@, e.3)
}

pub open spec fn tag_entries_model(s: Seq<TagEntry>) -> Seq<TagEntryModel> {
    s.map_values(|e: TagEntry| tag_entry_model(e))
}

/// The path of the tag named `key` under the tag at `parent_path`.
pub open spec fn tag_path(parent_path: Seq<char>, key: Seq<char>) -> Seq<char> {
    parent_path + seq!['/'] + key
}

/// The entries directly under the tag at `path`: name and tag, in order.
pub open spec fn children_of(entries: Seq<TagEntryModel>, path: Seq<char>) -> Seq<(Seq<char>, Readonly<RefTag>)>
    decreases entries.len(),
{
    if entries.len() == 0 {
        Seq::empty()
    } else {
        let rest = children_of(entries.drop_last(), path);
        if entries.last().2 == path {
            rest.push((entries.last().0, entries.last().3))
        } else {
            rest
        }
    }
}

/// The number of entries that a written tag gives: one for itself and those of the tags
/// under it.
pub open spec fn block_len(tag: TagDto) -> nat
    decreases tag, 1int,
{
    1 + blocks_len(tag.tags@)
}

/// The number of entries that written tags give.
pub open spec fn blocks_len(tags: Seq<(String, TagDto)>) -> nat
    decreases tags, 0int,
{
    if tags.len() == 0 {
        0
    } else {
        proof {
            assert(decreases_to!(tags => tags[tags.len() - 1]));
        }
        blocks_len(tags.drop_last()) + block_len(tags.last().1)
    }
}

/// `r` holds the entries of the written `tags` under the tag at `parent_path`: for each
/// written tag in order, the entries of the tags under it and then its own.
pub open spec fn tags_built(parent_path: Seq<char>, tags: Seq<(String, TagDto)>, r: Seq<TagEntryModel>) -> bool
    decreases tags, 0int,
{
    if tags.len() == 0 {
        r.len() == 0
    } else {
        proof {
            assert(decreases_to!(tags => tags[tags.len() - 1]));
        }
        let b = block_len(tags.last().1);
        &&& r.len() == blocks_len(tags)
        &&& tags_built(parent_path, tags.drop_last(), r.subrange(0, r.len() - b))
        &&& tag_built(parent_path, tags.last(), r.subrange(r.len() - b, r.len() as int))
    }
}

/// `b` holds the entries of the written tag `entry` under the tag at `parent_path`: those of
/// the tags under it, then its own, a tag named by its key that holds the label, the JSON
/// and the tags directly under it.
pub open spec fn tag_built(parent_path: Seq<char>, entry: (String, TagDto), b: Seq<TagEntryModel>) -> bool
    decreases entry, 1int,
{
    let key = entry.0@;
    let path = tag_path(parent_path, key);
    let inner = b.drop_last();
    &&& b.len() >= 1
    &&& tags_built(path, entry.1.tags@, inner)
    &&& b.last().0 == key
    &&& b.last().1 == path
    &&& b.last().2 == parent_path
    &&& (*b.last().3).model() == (key, TagModel {
        label: entry.1.label.model(),
        tags: children_of(inner, path),
        other: json_model(entry.1.other),
    })
}

proof fn lemma_tags_built_len(parent_path: Seq<char>, tags: Seq<(String, TagDto)>, r: Seq<TagEntryModel>)
    requires
        tags_built(parent_path, tags, r),
    ensures
        r.len() == blocks_len(tags),
{
}

/// The entries under the tag at `path`, with their names and tags.
fn children(entries: &Vec<TagEntry>, path: &String) -> (r: Vec<(String, Readonly<RefTag>)>)
    ensures
        r@.map_values(|e: (String, Readonly<RefTag>)| (e.0@, e.1)) == children_of(tag_entries_model(entries@), path@),
{
    let ghost all = tag_entries_model(entries@);
    let mut found: Vec<(String, Readonly<RefTag>)> = Vec::new();
    let mut i: usize = 0;
    assert(all.take(0) =~= Seq::<TagEntryModel>::empty());
    assert(found@.map_values(|e: (String, Readonly<RefTag>)| (e.0@, e.1)) =~= Seq::<(Seq<char>, Readonly<RefTag>)>::empty());
    while i < entries.len()
        invariant
            i <= entries@.len(),
            all == tag_entries_model(entries@),
            found@.map_values(|e: (String, Readonly<RefTag>)| (e.0@, e.1)) == children_of(all.take(i as int), path@),
        decreases entries.len() - i,
    {
        assert(all.take(i + 1).drop_last() =~= all.take(i as int));
        assert(all.take(i + 1).last() == tag_entry_model(entries@[i as int]));
        let ghost before = found@;
        if entries[i].2 == *path {
            found.push((entries[i].0.clone(), entries[i].3.duplicate()));
            assert(found@.map_values(|e: (String, Readonly<RefTag>)| (e.0@, e.1)) =~= before.map_values(
                |e: (String, Readonly<RefTag>)| (e.0@, e.1),
            ).push((entries@[i as int].0@, entries@[i as int].3)));
        }
        i = i + 1;
    }
    assert(all.take(entries@.len() as int) =~= all);
    found
}

/// The tags of the written `tags` under the tag at `parent_path`, and all the tags under
/// them: for each written tag, the entries of the tags under it and then its own.
pub fn to_tags(parent_path: &String, tags: &Vec<(String, TagDto)>) -> (r: Vec<TagEntry>)
    ensures
        tags_built(parent_path@, tags@, tag_entries_model(r@)),
    decreases tags,
{
    let mut all: Vec<TagEntry> = Vec::new();
    let mut i: usize = 0;
    assert(tags@.take(0) =~= Seq::<(String, TagDto)>::empty());
    assert(tag_entries_model(all@) =~= Seq::<TagEntryModel>::empty());
    proof {
        reveal_strlit("/");
    }
    while i < tags.len()
        invariant
            i <= tags@.len(),
            tags_built(parent_path@, tags@.take(i as int), tag_entries_model(all@)),
            "/"@ == seq!['/'],
        decreases tags.len() - i,
    {
        let key = &tags[i].0;
        let written = &tags[i].1;
        let path = parent_path.clone().concat("/").concat(key.as_str());
        assert(path@ == tag_path(parent_path@, key@));
        proof {
            assert(decreases_to!(*tags => tags@[i as int]));
            assert(decreases_to!(tags@[i as int] => tags@[i as int].1));
            assert(decreases_to!(tags@[i as int].1 => tags@[i as int].1.tags));
        }
        let mut block = to_tags(&path, &written.tags);
        let ghost inner = tag_entries_model(block@);
        let tag = readonly(ReferencedValue {
            reference: key.clone(),
            value: Tag { label: written.label.duplicate(), tags: children(&block, &path), other: written.other.duplicate() },
        });
        block.push((key.clone(), path, parent_path.clone(), tag));
        let ghost b = tag_entries_model(block@);
        assert(b.drop_last() =~= inner);
        assert(tag_built(parent_path@, tags@[i as int], b));
        let ghost before = tag_entries_model(all@);
        proof {
            lemma_tags_built_len(parent_path@, tags@.take(i as int), before);
            lemma_tags_built_len(path@, written.tags@, inner);
        }
        all.append(&mut block);
        let ghost t = tags@.take(i + 1);
        assert(t.drop_last() =~= tags@.take(i as int));
        assert(t.last() == tags@[i as int]);
        assert(block_len(tags@[i as int].1) == 1 + blocks_len(written.tags@));
        assert(b.len() == block_len(tags@[i as int].1));
        assert(blocks_len(t) == blocks_len(tags@.take(i as int)) + block_len(tags@[i as int].1));
        assert(tag_entries_model(all@) =~= before + b);
        assert(tag_entries_model(all@).subrange(0, before.len() as int) =~= before);
        assert(tag_entries_model(all@).subrange(before.len() as int, tag_entries_model(all@).len() as int) =~= b);
        i = i + 1;
    }
    assert(tags@.take(tags@.len() as int) =~= tags@);
    all
}

/// A tag as written: its label, JSON, and the tags under it, each named by its reference.
pub open spec fn written_tag(tag: Tag) -> TagDtoModel
    decreases tag,
{
    TagDtoModel {
        label: tag.label.model(),
        tags: Seq::new(
            tag.tags@.len(),
            |i: int|
                if 0 <= i < tag.tags@.len() {
                    ((*tag.tags@[i].1).reference@, written_tag((*tag.tags@[i].1).value))
                } else {
                    arbitrary()
                },
        ),
        other: json_model(tag.other),
    }
}

/// The tags as written, each named by its reference.
pub fn from_tags(tags: &Vec<(String, Readonly<RefTag>)>) -> (r: Vec<(String, TagDto)>)
    ensures
        entries_model(r@) == tags@.map_values(|e: (String, Readonly<RefTag>)| ((*e.1).reference@, written_tag((*e.1).value))),
    decreases tags,
{
    let mut written: Vec<(String, TagDto)> = Vec::new();
    let mut i: usize = 0;
    while i < tags.len()
        invariant
            i <= tags@.len(),
            written@.len() == i,
            forall|j: int| 0 <= j < i ==> (#[trigger] written@[j]).0@ == (*tags@[j].1).reference@
                && written@[j].1.model() == written_tag((*tags@[j].1).value),
        decreases tags.len() - i,
    {
        let tag: &RefTag = &*tags[i].1;
        proof {
            assert(decreases_to!(*tags => tags@[i as int]));
            assert(decreases_to!(tags@[i as int] => tags@[i as int].1));
            assert(decreases_to!(tags@[i as int].1 => (*tags@[i as int].1).value));
            assert(decreases_to!((*tags@[i as int].1).value => (*tags@[i as int].1).value.tags));
        }
        let inner = from_tags(&tag.value.tags);
        let dto = TagDto { tags: inner, label: tag.value.label.duplicate(), other: tag.value.other.duplicate() };
        proof {
            let ghost expected = tag.value.tags@.map_values(|e: (String, Readonly<RefTag>)| ((*e.1).reference@, written_tag((*e.1).value)));
            assert(entries_model(inner@).len() == inner@.len());
            assert(inner@.len() == tag.value.tags@.len());
            assert forall|j: int| 0 <= j < inner@.len() implies tag_dto_model(dto).tags[j] == written_tag(tag.value).tags[j] by {
                assert(entries_model(inner@)[j] == (inner@[j].0@, inner@[j].1.model()));
                assert(expected[j] == ((*tag.value.tags@[j].1).reference@, written_tag((*tag.value.tags@[j].1).value)));
            }
            assert(tag_dto_model(dto).tags =~= written_tag(tag.value).tags);
        }
        written.push((tag.reference.clone(), dto));
        i = i + 1;
    }
    assert(entries_model(written@) =~= tags@.map_values(|e: (String, Readonly<RefTag>)| ((*e.1).reference@, written_tag((*e.1).value))));
    written
}

} // verus!
