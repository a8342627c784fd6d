use std::sync::Arc;

use chara::definition::definition::Definition;
use chara::definition::edge::{Edge, EdgeOverride};
use chara::definition::foreign_definition::ForeignDefinition;
use chara::definition::input::BaseDefinitionInput;
use chara::definition::metadata::Metadata;
use chara::definition::tag::{RefTag, Tag};
use chara::json::{JsonMap, JsonValue};
use chara::reference_value::{LazyRefOrValue, ReferencedValue};
use chara::strmap::StrMap;
use chara::thread::{readonly, Readonly};

fn object(members: Vec<(&str, &str)>) -> JsonMap {
    let mut map = JsonMap::new();
    for (k, v) in members {
        map.insert(k.to_string(), JsonValue::String(v.to_string()));
    }
    map
}

fn definition(name: &str, id: &str, location: Option<&str>) -> Definition {
    Definition {
        parent: None,
        name: name.to_string(),
        id: id.to_string(),
        location: location.map(|l| l.to_string()),
        metadata: StrMap::new(),
        edges: StrMap::new(),
        tags: StrMap::new(),
        processors: StrMap::new(),
        arguments: StrMap::new(),
        environments: StrMap::new(),
        foreign_definitions: StrMap::new(),
    }
}

fn use_of_edge(arguments: &[&str], definition: Option<Definition>) -> EdgeOverride {
    EdgeOverride {
        arguments: vec![LazyRefOrValue::Value(arguments.iter().map(|a| a.to_string()).collect())],
        environments: vec![],
        edge: LazyRefOrValue::Ref("edge".to_string()),
        other: JsonMap::new(),
        definition,
    }
}

fn metadata(edges: Vec<(&str, EdgeOverride)>, other: Vec<(&str, &str)>) -> Metadata {
    let mut map = StrMap::new();
    for (key, edge) in edges {
        map.insert(key.to_string(), edge);
    }
    Metadata { edges: map, tags: StrMap::new(), other: object(other), processor: None }
}

fn tag(reference: &str, label: Option<&str>, tags: Vec<(&str, Readonly<RefTag>)>) -> Readonly<RefTag> {
    readonly(ReferencedValue {
        reference: reference.to_string(),
        value: Tag {
            label: label.map(|l| l.to_string()),
            tags: tags.into_iter().map(|(k, t)| (k.to_string(), t)).collect(),
            other: JsonValue::Null,
        },
    })
}

#[test]
fn merging_definitions_takes_the_name_and_identifier_and_keeps_the_location() {
    let mut a = definition("a", "1", Some("here"));
    a.merge(&definition("b", "2", Some("there")));
    assert_eq!(a.name, "b");
    assert_eq!(a.id, "2");
    assert_eq!(a.location, Some("here".to_string()));

    let mut c = definition("c", "3", None);
    c.merge(&definition("d", "4", Some("there")));
    assert_eq!(c.location, Some("there".to_string()));
}

#[test]
fn merging_definitions_merges_metadata_under_one_key_and_adds_the_others() {
    let mut a = definition("a", "1", None);
    a.metadata.insert("m".to_string(), readonly(metadata(vec![("e1", use_of_edge(&["x"], None))], vec![("kind", "a")])));
    let mut b = definition("b", "2", None);
    b.metadata.insert("m".to_string(), readonly(metadata(vec![("e2", use_of_edge(&["y"], None))], vec![("kind", "b")])));
    b.metadata.insert("n".to_string(), readonly(metadata(vec![], vec![])));
    a.merge(&b);

    assert_eq!(a.metadata.len(), 2);
    assert_eq!(a.metadata.key_at(0), "m");
    assert_eq!(a.metadata.key_at(1), "n");
    let m = a.metadata.value_at(0);
    assert_eq!(m.edges.len(), 2);
    assert_eq!(m.edges.key_at(0), "e1");
    assert_eq!(m.edges.key_at(1), "e2");
    assert_eq!(m.other.get(&"kind".to_string()), Some(&JsonValue::String("b".to_string())));
    assert!(Arc::ptr_eq(a.metadata.value_at(1), b.metadata.value_at(1)));
}

#[test]
fn merging_a_shared_value_into_itself_keeps_it() {
    let shared = readonly(metadata(vec![("e", use_of_edge(&["x"], None))], vec![]));
    let mut a = definition("a", "1", None);
    a.metadata.insert("m".to_string(), shared.clone());
    let mut b = definition("b", "2", None);
    b.metadata.insert("m".to_string(), shared.clone());
    a.merge(&b);
    assert!(Arc::ptr_eq(a.metadata.value_at(0), &shared));
    assert_eq!(a.metadata.value_at(0).edges.len(), 1);
}

#[test]
fn merging_uses_of_edges_appends_arguments_and_merges_their_definitions() {
    let mut a = use_of_edge(&["x"], None);
    a.merge(&use_of_edge(&["y"], Some(definition("inner", "i", None))));
    assert_eq!(a.arguments.len(), 2);
    assert_eq!(a.arguments[1].value(), Some(vec!["y".to_string()]));
    assert_eq!(a.definition.as_ref().map(|d| d.name.clone()), Some("inner".to_string()));

    let mut b = use_of_edge(&[], Some(definition("first", "i", Some("here"))));
    b.merge(&use_of_edge(&[], Some(definition("second", "j", None))));
    let merged = b.definition.unwrap();
    assert_eq!(merged.name, "second");
    assert_eq!(merged.location, Some("here".to_string()));
}

#[test]
fn merging_edges_merges_json_and_the_definitions_they_lead_to() {
    let read = readonly(ForeignDefinition::output(definition("read", "r", None)));
    let mut a = Edge { definition: None, processor: None, other: object(vec![("a", "1")]) };
    let b = Edge { definition: Some(read.clone()), processor: None, other: object(vec![("b", "2")]) };
    a.merge(&b);
    assert!(Arc::ptr_eq(a.definition.as_ref().unwrap(), &read));
    assert_eq!(a.other.get(&"a".to_string()), Some(&JsonValue::String("1".to_string())));
    assert_eq!(a.other.get(&"b".to_string()), Some(&JsonValue::String("2".to_string())));
}

#[test]
fn merging_foreign_definitions_merges_input_and_output() {
    let mut a = ForeignDefinition::input(BaseDefinitionInput::File("a.json".to_string()));
    a.merge(&ForeignDefinition::output(definition("read", "r", None)));
    assert!(matches!(&a.input, Some(BaseDefinitionInput::File(f)) if f == "a.json"));
    assert_eq!(a.output.as_ref().map(|d| d.name.clone()), Some("read".to_string()));

    let mut b = ForeignDefinition::input(BaseDefinitionInput::File("a.json".to_string()));
    b.merge(&ForeignDefinition::input(BaseDefinitionInput::Id("b".to_string())));
    assert!(matches!(&b.input, Some(BaseDefinitionInput::Id(id)) if id == "b"));
}

#[test]
fn merging_tags_keeps_the_label_and_merges_the_tags_under_them() {
    let child = tag("c", Some("child"), vec![]);
    let mut a = Tag { label: Some("a".to_string()), tags: vec![("x".to_string(), tag("x", Some("x"), vec![]))], other: JsonValue::Null };
    let b = Tag {
        label: Some("b".to_string()),
        tags: vec![("x".to_string(), tag("x2", None, vec![("c", child.clone())])), ("y".to_string(), child.clone())],
        other: JsonValue::Null,
    };
    a.merge(&b);
    assert_eq!(a.label, Some("a".to_string()));
    assert_eq!(a.tags.len(), 2);
    assert_eq!(a.tags[0].0, "x");
    assert_eq!(a.tags[0].1.reference, "x2");
    assert_eq!(a.tags[0].1.value.label, Some("x".to_string()));
    assert_eq!(a.tags[0].1.value.tags.len(), 1);
    assert!(Arc::ptr_eq(&a.tags[1].1, &child));

    let mut unlabeled = Tag { label: None, tags: vec![], other: JsonValue::Null };
    unlabeled.merge(&b);
    assert_eq!(unlabeled.label, Some("b".to_string()));
}

#[test]
fn merging_metadata_resolves_tags_and_merges_tags_in_place() {
    let found = tag("#/x", Some("x"), vec![]);
    let mut a = metadata(vec![], vec![]);
    a.tags.insert("t".to_string(), LazyRefOrValue::Ref("#/x".to_string()));
    a.tags.insert("u".to_string(), LazyRefOrValue::Value(ReferencedValue {
        reference: "u".to_string(),
        value: Tag { label: None, tags: vec![], other: JsonValue::Null },
    }));
    let mut b = metadata(vec![], vec![]);
    b.tags.insert("t".to_string(), LazyRefOrValue::to_referenced_value("#/x".to_string(), found.clone()));
    b.tags.insert("u".to_string(), LazyRefOrValue::Value(ReferencedValue {
        reference: "v".to_string(),
        value: Tag { label: Some("u".to_string()), tags: vec![], other: JsonValue::Null },
    }));
    a.merge(&b);
    assert_eq!(a.tags.len(), 2);
    assert!(Arc::ptr_eq(&a.tags.value_at(0).referenced_value().unwrap(), &found));
    match a.tags.value_at(1) {
        LazyRefOrValue::Value(v) => {
            assert_eq!(v.reference, "v");
            assert_eq!(v.value.label, Some("u".to_string()));
        },
        _ => panic!("the tag stays in place"),
    }
}
