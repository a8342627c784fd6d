use std::sync::Arc;

use chara::contexts::{ContextDto, DefinitionContextDto, WritePermissionsDto};
use chara::definition::definition::Definition;
use chara::definition::edge::{Edge, EdgeOverride};
use chara::definition::metadata::Metadata;
use chara::json::JsonMap;
use chara::processor::{Processor, ProcessorOverride};
use chara::reference_value::{LazyRef, LazyRefOrValue};
use chara::strmap::StrMap;
use chara::thread::{readonly, Readonly};

fn processor(program: &str) -> Readonly<Processor> {
    readonly(Processor {
        arguments: vec![],
        environments: vec![],
        install: None,
        program: program.to_string(),
        current_directory: None,
    })
}

fn definition_with_metadata(name: &str, id: &str, metadata: Vec<(&str, Readonly<Metadata>)>) -> Definition {
    let mut map = StrMap::new();
    for (key, value) in metadata {
        map.insert(key.to_string(), value);
    }
    Definition {
        parent: None,
        id: id.to_string(),
        location: None,
        name: name.to_string(),
        metadata: map,
        edges: StrMap::new(),
        tags: StrMap::new(),
        processors: StrMap::new(),
        arguments: StrMap::new(),
        environments: StrMap::new(),
        foreign_definitions: StrMap::new(),
    }
}

fn metadata_with_edge(edge_key: &str, edge: Readonly<Edge>, processor: Option<chara::processor::DraftProcessorOverride>) -> Readonly<Metadata> {
    let mut edges = StrMap::new();
    edges.insert(
        edge_key.to_string(),
        EdgeOverride {
            edge: LazyRefOrValue::to_referenced_value(edge_key.to_string(), edge),
            arguments: vec![],
            environments: vec![],
            definition: None,
            other: JsonMap::new(),
        },
    );
    readonly(Metadata { edges, processor, tags: StrMap::new(), other: JsonMap::new() })
}

#[test]
fn context_should_group_metadata_and_edge_referencing_same_processor() {
    let reused_processor = processor("test_program");
    let test_edge = readonly(Edge {
        definition: None,
        processor: Some(ProcessorOverride::processor(&Some(LazyRef::new_referenced_value(
            "reference".to_string(),
            reused_processor.clone(),
        )))),
        other: JsonMap::new(),
    });
    let test_metadata = metadata_with_edge(
        "test_edge",
        test_edge.clone(),
        Some(ProcessorOverride::processor(&Some(LazyRef::new_referenced_value(
            "reference".to_string(),
            reused_processor.clone(),
        )))),
    );

    let definition = definition_with_metadata("Test", "123", vec![("test_metadata", test_metadata)]);
    let contexts = definition.processors_contexts();
    assert_eq!(contexts.len(), 1);
    let expected_definition = DefinitionContextDto {
        location: None,
        write: WritePermissionsDto::both(),
        processor_reference: "reference".to_string(),
        edge: Some(ContextDto::new("test_edge".to_string(), JsonMap::new())),
        metadata: ContextDto::new("test_metadata".to_string(), JsonMap::new()),
    };
    assert_eq!(contexts[0].definition, expected_definition);
    assert!(Arc::ptr_eq(&contexts[0].processor.processor.value, &reused_processor));
}

#[test]
fn context_should_group_metadata_and_edge_referencing_same_enricher() {
    let reused_enricher = processor("test_program");
    let use_of_enricher = || {
        ProcessorOverride::processor(&Some(LazyRef::new_referenced_value(
            "enricher".to_string(),
            reused_enricher.clone(),
        )))
    };
    let test_edge = readonly(Edge { definition: None, processor: Some(use_of_enricher()), other: JsonMap::new() });
    let test_metadata = metadata_with_edge("test_edge", test_edge.clone(), Some(use_of_enricher()));

    let chara = definition_with_metadata("Test", "", vec![("test_metadata", test_metadata)]);
    let contexts = chara.processors_contexts();
    assert_eq!(contexts.len(), 1);
    assert_eq!(contexts[0].definition.write, WritePermissionsDto::both());
    assert_eq!(contexts[0].definition.edge, Some(ContextDto::new("test_edge".to_string(), JsonMap::new())));
    assert_eq!(contexts[0].definition.metadata, ContextDto::new("test_metadata".to_string(), JsonMap::new()));
    assert!(Arc::ptr_eq(&contexts[0].processor.processor.value, &reused_enricher));
}
