//! JSON values, as the definitions hold them, and how one merges into another.
use vstd::prelude::*;
use crate::model::Model;
use crate::merge::Merge;
use crate::strmap::{Entries, key_index, lookup, inserted, lemma_key_index};

verus! {

/// A JSON value. A number keeps the text it was written with.
#[derive(Debug, PartialEq)]
pub enum JsonValue {
    Null,
    Bool(bool),
    Number(String),
    String(String),
    Array(Vec<JsonValue>),
    Object(JsonMap),
}

/// A JSON object: its members, by name, in order.
#[derive(Debug, PartialEq)]
pub struct JsonMap {
    pub members: Vec<(String, JsonValue)>,
}

/// The model of a JSON value.
pub enum JsonModel {
    Null,
    Bool(bool),
    Number(Seq<char>),
    String(Seq<char>),
    Array(Seq<JsonModel>),
    Object(Entries<JsonModel>),
}

pub open spec fn json_model(v: JsonValue) -> JsonModel
    decreases v,
{
    match v {
        JsonValue::Null => JsonModel::Null,
        JsonValue::Bool(b) => JsonModel::Bool(b),
        JsonValue::Number(n) => JsonModel::Number(n@),
        JsonValue::String(s) => JsonModel::String(s@),
        JsonValue::Array(items) => JsonModel::Array(
            Seq::new(
                items@.len(),
                |i: int|
                    if 0 <= i < items@.len() {
                        json_model(items@[i])
                    } else {
                        JsonModel::Null
                    },
            ),
        ),
        JsonValue::Object(o) => JsonModel::Object(
            Seq::new(
                o.members@.len(),
                |i: int|
                    if 0 <= i < o.members@.len() {
                        (o.members@[i].0@, json_model(o.members@[i].1))
                    } else {
                        (Seq::empty(), JsonModel::Null)
                    },
            ),
        ),
    }
}

/// `y`'s members merged one after another into `x`: a member under a name that `x` holds
/// already merges into that member, a member under a new name goes last.
pub open spec fn members_merge(x: Entries<JsonModel>, y: Entries<JsonModel>) -> Entries<JsonModel>
    decreases y, 0int,
{
    if y.len() == 0 {
        x
    } else {
        let m = members_merge(x, y.subrange(0, y.len() - 1));
        let k = y[y.len() - 1].0;
        let p = key_index(m, k);
        if p >= 0 {
            m.update(p, (k, json_merge(m[p].1, y[y.len() - 1].1)))
        } else {
            m.push((k, y[y.len() - 1].1))
        }
    }
}

/// Merging JSON: two objects merge member by member, anything else is replaced by the
/// other value.
pub open spec fn json_merge(a: JsonModel, b: JsonModel) -> JsonModel
    decreases b, 1int,
{
    match (a, b) {
        (JsonModel::Object(x), JsonModel::Object(y)) => JsonModel::Object(members_merge(x, y)),
        _ => b,
    }
}

impl Model for JsonMap {
    type M = Entries<JsonModel>;

    open spec fn model(&self) -> Entries<JsonModel> {
        json_model(JsonValue::Object(*self))->Object_0
    }

    fn duplicate(&self) -> (r: Self) {
        let r = JsonMap { members: duplicate_members(&self.members) };
        proof {
            lemma_members_model(r, *self);
        }
        r
    }
}

impl Model for JsonValue {
    type M = JsonModel;

    open spec fn model(&self) -> JsonModel {
        json_model(*self)
    }

    fn duplicate(&self) -> (r: Self) {
        duplicate_json(self)
    }
}

fn duplicate_json(v: &JsonValue) -> (r: JsonValue)
    ensures
        json_model(r) == json_model(*v),
    decreases v, 1int,
{
    match v {
        JsonValue::Null => JsonValue::Null,
        JsonValue::Bool(b) => JsonValue::Bool(*b),
        JsonValue::Number(n) => JsonValue::Number(n.clone()),
        JsonValue::String(s) => JsonValue::String(s.clone()),
        JsonValue::Array(items) => {
            let mut copy: Vec<JsonValue> = Vec::new();
            let mut i: usize = 0;
            while i < items.len()
                invariant
                    *v == JsonValue::Array(*items),
                    i <= items.len(),
                    copy@.len() == i,
                    forall|j: int| 0 <= j < i ==> json_model(#[trigger] copy@[j]) == json_model(items@[j]),
                decreases items.len() - i,
            {
                proof {
                    assert(decreases_to!(*v => v->Array_0));
                    assert(decreases_to!(v->Array_0 => items@[i as int]));
                }
                copy.push(duplicate_json(&items[i]));
                i = i + 1;
            }
            let r = JsonValue::Array(copy);
            assert(json_model(r)->Array_0 =~= json_model(*v)->Array_0);
            r
        },
        JsonValue::Object(o) => {
            proof {
                assert(decreases_to!(*v => *o));
                assert(decreases_to!(*o => o.members));
            }
            let m = JsonMap { members: duplicate_members(&o.members) };
            proof {
                lemma_members_model(m, *o);
            }
            JsonValue::Object(m)
        },
    }
}

pub proof fn lemma_map_model(m: JsonMap)
    ensures
        m.model().len() == m.members@.len(),
        forall|j: int| 0 <= j < m.members@.len() ==> #[trigger] m.model()[j] == (m.members@[j].0@, json_model(m.members@[j].1)),
{
}

proof fn lemma_members_model(a: JsonMap, b: JsonMap)
    requires
        a.members@.len() == b.members@.len(),
        forall|j: int| 0 <= j < a.members@.len() ==> (#[trigger] a.members@[j]).0@ == b.members@[j].0@
            && json_model(a.members@[j].1) == json_model(b.members@[j].1),
    ensures
        json_model(JsonValue::Object(a)) == json_model(JsonValue::Object(b)),
{
    assert(json_model(JsonValue::Object(a))->Object_0 =~= json_model(JsonValue::Object(b))->Object_0);
}

/// Whether two JSON values are the same value.
pub fn json_equal(a: &JsonValue, b: &JsonValue) -> (r: bool)
    ensures
        r == (json_model(*a) == json_model(*b)),
    decreases a, 1int,
{
    match (a, b) {
        (JsonValue::Null, JsonValue::Null) => true,
        (JsonValue::Bool(x), JsonValue::Bool(y)) => *x == *y,
        (JsonValue::Number(x), JsonValue::Number(y)) => *x == *y,
        (JsonValue::String(x), JsonValue::String(y)) => *x == *y,
        (JsonValue::Array(x), JsonValue::Array(y)) => {
            let ghost ma = json_model(*a)->Array_0;
            let ghost mb = json_model(*b)->Array_0;
            if x.len() != y.len() {
                assert(ma.len() != mb.len());
                return false;
            }
            let mut i: usize = 0;
            while i < x.len()
                invariant
                    i <= x@.len(),
                    x@.len() == y@.len(),
                    ma == json_model(*a)->Array_0,
                    mb == json_model(*b)->Array_0,
                    *a == JsonValue::Array(*x),
                    *b == JsonValue::Array(*y),
                    forall|j: int| 0 <= j < i ==> #[trigger] ma[j] == mb[j],
                decreases x.len() - i,
            {
                proof {
                    assert(decreases_to!(*a => *x));
                    assert(decreases_to!(*x => x@[i as int]));
                }
                assert(ma[i as int] == json_model(x@[i as int]));
                assert(mb[i as int] == json_model(y@[i as int]));
                if !json_equal(&x[i], &y[i]) {
                    return false;
                }
                i = i + 1;
            }
            assert(ma =~= mb);
            true
        },
        (JsonValue::Object(x), JsonValue::Object(y)) => members_equal(x, y),
        _ => false,
    }
}

/// Whether two JSON objects have the same members in the same order.
pub fn members_equal(a: &JsonMap, b: &JsonMap) -> (r: bool)
    ensures
        r == (a.model() == b.model()),
    decreases a, 0int,
{
    proof {
        lemma_map_model(*a);
        lemma_map_model(*b);
    }
    if a.members.len() != b.members.len() {
        return false;
    }
    let mut i: usize = 0;
    while i < a.members.len()
        invariant
            i <= a.members@.len(),
            a.members@.len() == b.members@.len(),
            a.model().len() == a.members@.len(),
            b.model().len() == b.members@.len(),
            forall|j: int| 0 <= j < a.members@.len() ==> #[trigger] a.model()[j] == (a.members@[j].0@, json_model(a.members@[j].1)),
            forall|j: int| 0 <= j < b.members@.len() ==> #[trigger] b.model()[j] == (b.members@[j].0@, json_model(b.members@[j].1)),
            forall|j: int| 0 <= j < i ==> #[trigger] a.model()[j] == b.model()[j],
        decreases a.members.len() - i,
    {
        proof {
            assert(decreases_to!(*a => a.members));
            assert(decreases_to!(a.members => a.members@[i as int]));
            assert(decreases_to!(a.members@[i as int] => a.members@[i as int].1));
        }
        assert(a.model()[i as int] == (a.members@[i as int].0@, json_model(a.members@[i as int].1)));
        assert(b.model()[i as int] == (b.members@[i as int].0@, json_model(b.members@[i as int].1)));
        if a.members[i].0 != b.members[i].0 {
            return false;
        }
        if !json_equal(&a.members[i].1, &b.members[i].1) {
            return false;
        }
        i = i + 1;
    }
    assert(a.model() =~= b.model());
    true
}

fn duplicate_members(members: &Vec<(String, JsonValue)>) -> (r: Vec<(String, JsonValue)>)
    ensures
        r@.len() == members@.len(),
        forall|j: int| 0 <= j < members@.len() ==> (#[trigger] r@[j]).0@ == members@[j].0@
            && json_model(r@[j].1) == json_model(members@[j].1),
    decreases members, 0int,
{
    let mut copy: Vec<(String, JsonValue)> = Vec::new();
    let mut i: usize = 0;
    while i < members.len()
        invariant
            i <= members.len(),
            copy@.len() == i,
            forall|j: int| 0 <= j < i ==> (#[trigger] copy@[j]).0@ == members@[j].0@
                && json_model(copy@[j].1) == json_model(members@[j].1),
        decreases members.len() - i,
    {
        proof {
            assert(decreases_to!(*members => members@[i as int]));
            assert(decreases_to!(members@[i as int] => members@[i as int].1));
        }
        let value = duplicate_json(&members[i].1);
        copy.push((members[i].0.clone(), value));
        i = i + 1;
    }
    copy
}

impl JsonMap {
    /// An object without members.
    pub fn new() -> (r: Self)
        ensures
            r.model() == Seq::<(Seq<char>, JsonModel)>::empty(),
    {
        let r = JsonMap { members: Vec::new() };
        assert(r.model() =~= Seq::<(Seq<char>, JsonModel)>::empty());
        r
    }

    /// The position of the first member named `key`.
    pub fn position(&self, key: &String) -> (r: Option<usize>)
        ensures
            self.model().len() == self.members@.len(),
            match r {
                Some(p) => p as int == key_index(self.model(), key@) && p < self.members@.len(),
                None => key_index(self.model(), key@) == -1,
            },
    {
        proof {
            lemma_key_index(self.model(), key@);
            lemma_map_model(*self);
        }
        let mut i: usize = 0;
        while i < self.members.len()
            invariant
                i <= self.members@.len(),
                self.model().len() == self.members@.len(),
                forall|j: int| 0 <= j < i ==> self.model()[j].0 != key@,
                -1 <= key_index(self.model(), key@) < self.model().len(),
                key_index(self.model(), key@) >= 0 ==> self.model()[key_index(self.model(), key@)].0 == key@,
                forall|j: int| 0 <= j < key_index(self.model(), key@) ==> self.model()[j].0 != key@,
                key_index(self.model(), key@) < 0 ==> forall|j: int| 0 <= j < self.model().len() ==> self.model()[j].0 != key@,
            decreases self.members.len() - i,
        {
            assert(self.model()[i as int].0 == self.members@[i as int].0@);
            if self.members[i].0 == *key {
                return Some(i);
            }
            i = i + 1;
        }
        None
    }

    /// The member named `key`.
    pub fn get(&self, key: &String) -> (r: Option<&JsonValue>)
        ensures
            match r {
                Some(v) => lookup(self.model(), key@) == Some(json_model(*v)),
                None => lookup(self.model(), key@) is None,
            },
    {
        match self.position(key) {
            Some(p) => {
                proof {
                    lemma_map_model(*self);
                }
                Some(&self.members[p].1)
            },
            None => None,
        }
    }

    /// Stores `value` under `key`, in place of the member named so, or last.
    pub fn insert(&mut self, key: String, value: JsonValue)
        ensures
            final(self).model() == inserted(old(self).model(), key@, json_model(value)),
    {
        let ghost old_model = self.model();
        let ghost k = key@;
        let ghost vm = json_model(value);
        match self.position(&key) {
            Some(p) => {
                self.members.set(p, (key, value));
                proof {
                    lemma_map_model(*self);
                }
                assert(self.model() =~= old_model.update(p as int, (k, vm)));
            },
            None => {
                self.members.push((key, value));
                proof {
                    lemma_map_model(*self);
                }
                assert(self.model() =~= old_model.push((k, vm)));
            },
        }
    }
}

/// Merging JSON: two objects merge member by member, anything else is replaced by the
/// other value.
impl Merge for JsonValue {
    open spec fn merged(a: JsonModel, b: JsonModel, r: JsonModel) -> bool {
        r == json_merge(a, b)
    }

    fn merge(&mut self, other: &Self) {
        merge_json(self, other)
    }
}

/// Merging objects merges their members one after another.
impl Merge for JsonMap {
    open spec fn merged(a: Entries<JsonModel>, b: Entries<JsonModel>, r: Entries<JsonModel>) -> bool {
        r == members_merge(a, b)
    }

    fn merge(&mut self, other: &Self) {
        merge_members(self, other)
    }
}

fn merge_json(a: &mut JsonValue, b: &JsonValue)
    ensures
        json_model(*final(a)) == json_merge(json_model(*old(a)), json_model(*b)),
    decreases b, 1int,
{
    match (a, b) {
        (JsonValue::Object(x), JsonValue::Object(y)) => {
            proof {
                assert(decreases_to!(*b => b->Object_0));
            }
            merge_members(x, y);
        },
        (a, b) => {
            *a = duplicate_json(b);
        },
    }
}

fn merge_members(x: &mut JsonMap, y: &JsonMap)
    ensures
        final(x).model() == members_merge(old(x).model(), y.model()),
    decreases y, 0int,
{
    let ghost x0 = x.model();
    let ghost ym = y.model();
    let n = y.members.len();
    let mut i: usize = 0;
    assert(ym.take(0) =~= Seq::<(Seq<char>, JsonModel)>::empty());
    while i < n
        invariant
            n == y.members@.len(),
            ym == y.model(),
            ym.len() == n,
            i <= n,
            x.model() == members_merge(x0, ym.take(i as int)),
        decreases n - i,
    {
        let ghost cur = x.model();
        proof {
            lemma_map_model(*x);
            lemma_map_model(*y);
        }
        assert(ym.take(i + 1).subrange(0, i as int) =~= ym.take(i as int));
        assert(ym[i as int] == (y.members@[i as int].0@, json_model(y.members@[i as int].1)));
        let key = &y.members[i].0;
        match x.position(key) {
            Some(p) => {
                proof {
                    assert(decreases_to!(*y => y.members));
                    assert(decreases_to!(y.members => y.members@[i as int]));
                    assert(decreases_to!(y.members@[i as int] => y.members@[i as int].1));
                }
                let ghost before_members = x.members@;
                proof {
                    lemma_key_index(cur, key@);
                }
                assert(cur[p as int].0 == key@);
                merge_json(&mut x.members[p].1, &y.members[i].1);
                proof {
                    lemma_map_model(*x);
                    assert forall|j: int| 0 <= j < before_members.len() && j != p implies x.members@[j] == before_members[j] by {}
                    assert(x.members@[p as int].0 == before_members[p as int].0);
                }
                assert(x.model() =~= cur.update(p as int, (key@, json_merge(cur[p as int].1, json_model(y.members@[i as int].1)))));
            },
            None => {
                let value = duplicate_json(&y.members[i].1);
                x.members.push((key.clone(), value));
                proof {
                    lemma_map_model(*x);
                }
                assert(x.model() =~= cur.push((key@, json_model(y.members@[i as int].1))));
            },
        }
        i = i + 1;
    }
    assert(ym.take(n as int) =~= ym);
}

impl Clone for JsonValue {
    fn clone(&self) -> (r: Self)
        ensures
            r.model() == self.model(),
    {
        duplicate_json(self)
    }
}

impl Clone for JsonMap {
    fn clone(&self) -> (r: Self)
        ensures
            r.model() == self.model(),
    {
        self.duplicate()
    }
}

} // verus!
