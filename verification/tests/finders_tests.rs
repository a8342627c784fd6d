use chara::definition::definition::Definition;
use chara::definition::edge::{Edge, EdgeOverride};
use chara::definition::metadata::Metadata;
use chara::json::JsonMap;
use chara::processor::Processor;
use chara::reference_value::LazyRefOrValue;
use chara::strmap::StrMap;
use chara::thread::{readonly, Readonly};

fn empty_definition() -> Definition {
    Definition {
        parent: None,
        name: "".to_string(),
        id: "".to_string(),
        location: None,
        metadata: StrMap::new(),
        edges: StrMap::new(),
        tags: StrMap::new(),
        processors: StrMap::new(),
        arguments: StrMap::new(),
        environments: StrMap::new(),
        foreign_definitions: StrMap::new(),
    }
}

fn named(name: &str) -> Definition {
    let mut definition = empty_definition();
    definition.name = name.to_string();
    definition
}

fn with_parent(parent: Definition) -> Definition {
    let mut definition = empty_definition();
    definition.parent = Some(readonly(parent));
    definition
}

fn empty_edge() -> Edge {
    Edge { definition: None, processor: None, other: JsonMap::new() }
}

fn empty_metadata() -> Metadata {
    Metadata { edges: StrMap::new(), tags: StrMap::new(), other: JsonMap::new(), processor: None }
}

fn edge_override_to(definition: Definition, reference: &str, edge: Readonly<Edge>) -> EdgeOverride {
    EdgeOverride {
        arguments: vec![],
        environments: vec![],
        edge: LazyRefOrValue::to_referenced_value(reference.to_string(), edge),
        other: JsonMap::new(),
        definition: Some(definition),
    }
}

fn empty_processor() -> Processor {
    Processor {
        arguments: vec![],
        program: "".to_string(),
        install: None,
        environments: vec![],
        current_directory: None,
    }
}

#[test]
pub fn should_not_find_parent_on_empty_path() {
    let definition = empty_definition().find_definition_by_path(&"".to_string());
    assert!(definition.is_none());
}

#[test]
pub fn should_find_root_definition() {
    let parent = named("parent");
    let definition = with_parent(parent.clone())
        .find_definition_by_path(&"#/".to_string())
        .unwrap();

    assert_eq!(parent.name, definition.1.name);
}

#[test]
pub fn should_find_relative_definition() {
    let edge = readonly(empty_edge());
    let edge_override = edge_override_to(named("relative_definition"), "referenced_edge", edge.clone());
    let mut metadata = empty_metadata();
    metadata.edges.insert("referenced_edge".to_string(), edge_override);
    let mut parent = named("parent");
    parent.edges.insert("relative_edge".to_string(), edge.clone());
    parent.metadata.insert("relative_metadata".to_string(), readonly(metadata));
    let relative_definition = with_parent(parent)
        .find_definition_by_path(&"../relative_metadata/referenced_edge".to_string())
        .unwrap();

    assert_eq!("relative_definition", relative_definition.1.name);
}

#[test]
pub fn should_find_parent_definition() {
    let parent_definition = with_parent(named("parent"))
        .find_definition_by_path(&"..".to_string())
        .unwrap();

    assert_eq!("parent", parent_definition.1.name);
}

#[test]
pub fn should_find_inner_definition() {
    let inner_edge = readonly(empty_edge());
    let inner_edge_override = edge_override_to(named("inner_definition"), "referenced_edge", inner_edge.clone());
    let mut metadata = empty_metadata();
    metadata.edges.insert("referenced_edge".to_string(), inner_edge_override);
    let mut definition = empty_definition();
    definition.edges.insert("referenced_edge".to_string(), inner_edge);
    definition.metadata.insert("inner_metadata".to_string(), readonly(metadata));
    let relative_definition = definition
        .find_definition_by_path(&"./inner_metadata/referenced_edge".to_string())
        .unwrap();

    assert_eq!("inner_definition", relative_definition.1.name);
}

#[test]
pub fn should_find_parent_processor() {
    let mut parent = named("parent");
    let mut processor = empty_processor();
    processor.program = "test_program".to_string();
    parent.processors.insert("parent_processor".to_string(), readonly(processor));
    let processor = with_parent(parent)
        .find_processor(&"../parent_processor".to_string())
        .unwrap();

    assert_eq!("test_program", processor.program);
}

#[test]
pub fn a_path_after_a_parent_segment_names_what_it_names_from_the_parent() {
    let mut parent = named("parent");
    parent.processors.insert("p".to_string(), readonly(empty_processor()));
    let child = with_parent(parent);
    let from_parent = child.parent.as_ref().unwrap().find_processor(&"p".to_string()).unwrap();
    let from_child = child.find_processor(&"../p".to_string()).unwrap();
    assert!(std::sync::Arc::ptr_eq(&from_parent, &from_child));
    assert!(named("orphan").find_processor(&"../p".to_string()).is_none());
}
