//! Tags that metadata can carry, nested under one another.
use vstd::prelude::*;
use crate::model::Model;
use crate::json::{JsonValue, JsonModel};
use crate::reference_value::ReferencedValue;
use crate::thread::Readonly;

verus! {

/// A tag and the tags under it, by name.
#[derive(Debug, Clone)]
pub struct Tag {
    pub label: Option<String>,
    pub tags: Vec<(String, Readonly<RefTag>)>,
    pub other: JsonValue,
}

/// A tag with the path it is found under.
pub type RefTag = ReferencedValue<Tag>;

pub struct TagModel {
    pub label: Option<Seq<char>>,
    pub tags: Seq<(Seq<char>, Readonly<RefTag>)>,
    pub other: JsonModel,
}

impl Model for Tag {
    type M = TagModel;

    open spec fn model(&self) -> TagModel {
        TagModel {
            label: self.label.model(),
            tags: self.tags@.map_values(|e: (String, Readonly<RefTag>)| (e.0@, e.1)),
            other: self.other.model(),
        }
    }

    fn duplicate(&self) -> (r: Self) {
        let mut tags: Vec<(String, Readonly<RefTag>)> = Vec::new();
        let mut i: usize = 0;
        while i < self.tags.len()
            invariant
                i <= self.tags@.len(),
                tags@.len() == i,
                forall|j: int| 0 <= j < i ==> (#[trigger] tags@[j]).0@ == self.tags@[j].0@ && tags@[j].1 == self.tags@[j].1,
            decreases self.tags.len() - i,
        {
            tags.push((self.tags[i].0.clone(), self.tags[i].1.duplicate()));
            i = i + 1;
        }
        let r = Tag { label: self.label.duplicate(), tags, other: self.other.duplicate() };
        assert(r.model().tags =~= self.model().tags);
        r
    }
}

} // verus!
