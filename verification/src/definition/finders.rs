//! Finding what a path names, through parents and the definitions that edges lead to.
use vstd::prelude::*;
use crate::model::Model;
use crate::strmap::{StrMap, lookup};
use crate::thread::Readonly;
use crate::processor::Processor;
use crate::definition::definition::Definition;
use crate::definition::metadata::Metadata;
use crate::definition::edge::Edge;
use crate::definition::tag::RefTag;

verus! {

/// The segment that names the root definition.
pub open spec fn root_token() -> Seq<char> {
    seq!['#']
}

/// The segment that names the definition itself.
pub open spec fn current_token() -> Seq<char> {
    seq!['.']
}

/// The segment that names the parent definition.
pub open spec fn parent_token() -> Seq<char> {
    seq!['.', '.']
}

/// The segments after `current`, a segment begun and not yet closed, and the characters `s`.
pub open spec fn split_from(s: Seq<char>, current: Seq<char>) -> Seq<Seq<char>>
    decreases s.len(),
{
    if s.len() == 0 {
        if current.len() > 0 {
            seq![current]
        } else {
            Seq::empty()
        }
    } else if s[0] == '/' {
        (if current.len() > 0 {
            seq![current]
        } else {
            Seq::empty()
        }) + split_from(s.drop_first(), Seq::empty())
    } else {
        split_from(s.drop_first(), current.push(s[0]))
    }
}

/// The segments of a path: its non-empty parts between slashes, in order.
pub open spec fn path_segments(path: Seq<char>) -> Seq<Seq<char>> {
    split_from(path, Seq::empty())
}

/// The definition at the top of the chain of parents.
pub open spec fn root_of(d: Definition) -> Definition
    decreases d,
{
    match d.parent {
        Some(p) => root_of(*p),
        None => d,
    }
}

/// What the segments `s` name from the definition `d`: a definition, with the name of an
/// item of it when the segments end in one. `#` leads to the root, `..` to the parent, `.`
/// stays, and a metadata's name followed by one of its edges' names leads into the
/// definition of that edge. A last segment that leads nowhere names an item.
pub open spec fn find_by_segments(d: Definition, s: Seq<Seq<char>>) -> Option<(Option<Seq<char>>, Definition)>
    decreases s.len(),
{
    if s.len() == 0 {
        Some((None, d))
    } else if s.len() == 1 {
        if s[0] == root_token() {
            Some((None, root_of(d)))
        } else if s[0] == parent_token() {
            match d.parent {
                Some(p) => Some((None, *p)),
                None => None,
            }
        } else {
            Some((Some(s[0]), d))
        }
    } else if s[0] == current_token() {
        find_by_segments(d, s.subrange(1, s.len() as int))
    } else if s[0] == root_token() {
        find_by_segments(root_of(d), s.subrange(1, s.len() as int))
    } else if s[0] == parent_token() {
        match d.parent {
            Some(p) => find_by_segments(*p, s.subrange(1, s.len() as int)),
            None => None,
        }
    } else {
        match lookup(d.metadata.model(), s[0]) {
            Some(m) => match lookup((*m).edges.raw(), s[1]) {
                Some(eo) => match eo.definition {
                    Some(inner) => find_by_segments(inner, s.subrange(2, s.len() as int)),
                    None => None,
                },
                None => None,
            },
            None => None,
        }
    }
}

/// What a path names from the definition `d`; an empty path names nothing.
pub open spec fn find_by_path(d: Definition, path: Seq<char>) -> Option<(Option<Seq<char>>, Definition)> {
    let s = path_segments(path);
    if s.len() == 0 {
        None
    } else {
        find_by_segments(d, s)
    }
}

/// The item of `map` that a path names from the definition `d` with `items` as its map of
/// such items: none when the path names no item.
pub open spec fn item_found<V>(found: Option<(Option<Seq<char>>, Definition)>, items: spec_fn(Definition) -> Seq<(Seq<char>, V)>) -> Option<V> {
    match found {
        Some((Some(name), d)) => lookup(items(d), name),
        _ => None,
    }
}

/// Whether `segment` is the text `token`.
fn segment_is(segment: &String, token: &str) -> (r: bool)
    ensures
        r == (segment@ == token@),
{
    *segment == token.to_owned()
}

/// The segments of `path`.
fn split_path(path: &String) -> (r: Vec<String>)
    ensures
        r.model() == path_segments(path@),
{
    let text = path.as_str();
    let n = text.unicode_len();
    let ghost s = path@;
    let mut segments: Vec<String> = Vec::new();
    let mut start: usize = 0;
    let mut i: usize = 0;
    assert(s.subrange(0, n as int) =~= s);
    assert(s.subrange(0, 0) =~= Seq::<char>::empty());
    assert(segments.model() =~= Seq::<Seq<char>>::empty());
    while i < n
        invariant
            n == s.len(),
            text@ == s,
            s == path@,
            start <= i <= n,
            segments.model() + split_from(s.subrange(i as int, n as int), s.subrange(start as int, i as int)) == path_segments(s),
        decreases n - i,
    {
        let c = text.get_char(i);
        let ghost rest = s.subrange(i as int, n as int);
        let ghost current = s.subrange(start as int, i as int);
        let ghost before = segments.model();
        assert(rest[0] == c);
        assert(rest.drop_first() =~= s.subrange(i + 1, n as int));
        if c == '/' {
            if start < i {
                let segment = text.substring_char(start, i).to_owned();
                segments.push(segment);
                assert(segments.model() =~= before.push(current));
                assert(segments.model() + split_from(s.subrange(i + 1, n as int), Seq::empty())
                    =~= before + (seq![current] + split_from(s.subrange(i + 1, n as int), Seq::empty())));
            } else {
                assert(current.len() == 0);
                assert(seq![] + split_from(s.subrange(i + 1, n as int), Seq::empty())
                    =~= split_from(s.subrange(i + 1, n as int), Seq::empty()));
            }
            start = i + 1;
            assert(s.subrange(start as int, i + 1) =~= Seq::<char>::empty());
        } else {
            assert(current.push(c) =~= s.subrange(start as int, i + 1));
        }
        i = i + 1;
    }
    let ghost current = s.subrange(start as int, n as int);
    let ghost before = segments.model();
    assert(s.subrange(n as int, n as int) =~= Seq::<char>::empty());
    if start < n {
        let segment = text.substring_char(start, n).to_owned();
        segments.push(segment);
        assert(segments.model() =~= before + seq![current]);
    } else {
        assert(before + Seq::<Seq<char>>::empty() =~= before);
    }
    segments
}

/// A copy of a found definition and of the name of the item it leads to.
fn copy_found(found: Option<(Option<String>, &Definition)>) -> (r: Option<(Option<String>, Definition)>)
    ensures
        match (found, r) {
            (Some((t, d)), Some((rt, rd))) => rt.model() == t.model() && rd.model() == d.model(),
            (None, None) => true,
            _ => false,
        },
{
    match found {
        Some((name, definition)) => Some((name, definition.duplicate())),
        None => None,
    }
}

impl Definition {
    /// The definition at the top of the chain of parents.
    fn find_root(&self) -> (r: &Definition)
        ensures
            *r == root_of(*self),
        decreases self,
    {
        match &self.parent {
            Some(parent) => {
                proof {
                    assert(decreases_to!(*self => self.parent));
                }
                (**parent).find_root()
            },
            None => self,
        }
    }

    /// What `segments`, from the one at `from` on, name from this definition.
    fn find_definition_by_segments(&self, segments: &Vec<String>, from: usize) -> (r: Option<(Option<String>, &Definition)>)
        requires
            from <= segments@.len(),
        ensures
            ({
                let expected = find_by_segments(*self, segments.model().subrange(from as int, segments@.len() as int));
                match (r, expected) {
                    (Some((t, d)), Some((et, ed))) => t.model() == et && *d == ed,
                    (None, None) => true,
                    _ => false,
                }
            }),
        decreases segments@.len() - from,
    {
        let ghost s = segments.model().subrange(from as int, segments@.len() as int);
        let n = segments.len();
        if from == n {
            return Some((None, self));
        }
        let first = &segments[from];
        assert(s[0] == first@);
        proof {
            reveal_strlit("#");
            reveal_strlit("..");
            reveal_strlit(".");
        }
        if from + 1 == n {
            if segment_is(first, "#") {
                assert(s[0] =~= root_token());
                return Some((None, self.find_root()));
            }
            if segment_is(first, "..") {
                assert(s[0] =~= parent_token());
                return match &self.parent {
                    Some(parent) => Some((None, &**parent)),
                    None => None,
                };
            }
            assert(s[0] != root_token() && s[0] != parent_token()) by {
                if s[0] == root_token() {
                    assert(first@ =~= "#"@);
                }
                if s[0] == parent_token() {
                    assert(first@ =~= ".."@);
                }
            }
            return Some((Some(first.clone()), self));
        }
        assert(segments.model().subrange(from + 1, n as int) =~= s.subrange(1, s.len() as int));
        if segment_is(first, ".") {
            assert(s[0] =~= current_token());
            return self.find_definition_by_segments(segments, from + 1);
        }
        if segment_is(first, "#") {
            assert(s[0] =~= root_token());
            assert(s[0] != current_token()) by {
                assert(s[0][0] != current_token()[0]);
            }
            return self.find_root().find_definition_by_segments(segments, from + 1);
        }
        if segment_is(first, "..") {
            assert(s[0] =~= parent_token());
            return match &self.parent {
                Some(parent) => (**parent).find_definition_by_segments(segments, from + 1),
                None => None,
            };
        }
        assert(s[0] != root_token() && s[0] != parent_token() && s[0] != current_token()) by {
            if s[0] == root_token() {
                assert(first@ =~= "#"@);
            }
            if s[0] == parent_token() {
                assert(first@ =~= ".."@);
            }
            if s[0] == current_token() {
                assert(first@ =~= "."@);
            }
        }
        let second = &segments[from + 1];
        assert(s[1] == second@);
        assert(segments.model().subrange(from + 2, n as int) =~= s.subrange(2, s.len() as int));
        match self.metadata.get(first) {
            Some(metadata) => match (**metadata).edges.get(second) {
                Some(edge) => match &edge.definition {
                    Some(inner) => inner.find_definition_by_segments(segments, from + 2),
                    None => None,
                },
                None => None,
            },
            None => None,
        }
    }

    /// What `path` names from this definition, held by reference.
    fn locate(&self, path: &String) -> (r: Option<(Option<String>, &Definition)>)
        ensures
            match (r, find_by_path(*self, path@)) {
                (Some((t, d)), Some((et, ed))) => t.model() == et && *d == ed,
                (None, None) => true,
                _ => false,
            },
    {
        let segments = split_path(path);
        if segments.len() == 0 {
            return None;
        }
        assert(segments.model().subrange(0, segments@.len() as int) =~= segments.model());
        self.find_definition_by_segments(&segments, 0)
    }

    /// What `path` names from this definition: the definition it leads to, and the name of
    /// an item of that definition when the path ends in one. `#` leads to the root, `..` to
    /// the parent, `.` stays, and a metadata's name followed by an edge's name leads into
    /// the definition of that edge.
    pub fn find_definition_by_path(&self, path: &String) -> (r: Option<(Option<String>, Definition)>)
        ensures
            match (r, find_by_path(*self, path@)) {
                (Some((t, d)), Some((et, ed))) => t.model() == et && d.model() == ed.model(),
                (None, None) => true,
                _ => false,
            },
    {
        copy_found(self.locate(path))
    }

    /// The processor that `path` names.
    pub fn find_processor(&self, path: &String) -> (r: Option<Readonly<Processor>>)
        ensures
            r == item_found(find_by_path(*self, path@), |d: Definition| d.processors.model()),
    {
        match self.locate(path) {
            Some((Some(name), definition)) => match definition.processors.get(&name) {
                Some(found) => Some(found.duplicate()),
                None => None,
            },
            _ => None,
        }
    }

    /// The tag that `path` names.
    pub fn find_tag(&self, path: &String) -> (r: Option<Readonly<RefTag>>)
        ensures
            r == item_found(find_by_path(*self, path@), |d: Definition| d.tags.model()),
    {
        match self.locate(path) {
            Some((Some(name), definition)) => match definition.tags.get(&name) {
                Some(found) => Some(found.duplicate()),
                None => None,
            },
            _ => None,
        }
    }

    /// The metadata that `path` names.
    pub fn find_metadata(&self, path: &String) -> (r: Option<Readonly<Metadata>>)
        ensures
            r == item_found(find_by_path(*self, path@), |d: Definition| d.metadata.model()),
    {
        match self.locate(path) {
            Some((Some(name), definition)) => match definition.metadata.get(&name) {
                Some(found) => Some(found.duplicate()),
                None => None,
            },
            _ => None,
        }
    }

    /// The edge that `path` names.
    pub fn find_edge(&self, path: &String) -> (r: Option<Readonly<Edge>>)
        ensures
            r == item_found(find_by_path(*self, path@), |d: Definition| d.edges.model()),
    {
        match self.locate(path) {
            Some((Some(name), definition)) => match definition.edges.get(&name) {
                Some(found) => Some(found.duplicate()),
                None => None,
            },
            _ => None,
        }
    }

    /// The arguments that `path` names.
    pub fn find_argument(&self, path: &String) -> (r: Option<Readonly<Vec<String>>>)
        ensures
            r == item_found(find_by_path(*self, path@), |d: Definition| d.arguments.model()),
    {
        match self.locate(path) {
            Some((Some(name), definition)) => match definition.arguments.get(&name) {
                Some(found) => Some(found.duplicate()),
                None => None,
            },
            _ => None,
        }
    }

    /// The environment that `path` names.
    pub fn find_environment(&self, path: &String) -> (r: Option<Readonly<StrMap<String>>>)
        ensures
            r == item_found(find_by_path(*self, path@), |d: Definition| d.environments.model()),
    {
        match self.locate(path) {
            Some((Some(name), definition)) => match definition.environments.get(&name) {
                Some(found) => Some(found.duplicate()),
                None => None,
            },
            _ => None,
        }
    }
}

} // verus!
