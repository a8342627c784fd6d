use std::sync::Arc;
use chara::model::Model;

use chara::contexts::{ContextDto, DefinitionContextDto, ProcessorContext, WritePermissionsDto};
use chara::definition::definition::Definition;
use chara::definition::edge::{Edge, EdgeOverride};
use chara::definition::foreign_definition::ForeignDefinition;
use chara::definition::input::BaseDefinitionInput;
use chara::definition::metadata::Metadata;
use chara::dto::{DefinitionDto, MetadataDto, MetadataEdge, ReferenceOrObjectDto};
use chara::engine::{append_members, fill_foreign_output, handle_result, set_edge_definition};
use chara::graph::Graph;
use chara::inputs::Inputs;
use chara::json::{JsonMap, JsonValue};
use chara::processor::{DraftProcessorOverride, Enrichment, Processor, ProcessorOverride, ProcessorResult};
use chara::reference_value::{LazyRef, LazyRefOrValue, ReferencedValue};
use chara::strmap::StrMap;
use chara::thread::{readonly, Readonly};

fn strings(values: &[&str]) -> Vec<String> {
    values.iter().map(|v| v.to_string()).collect()
}

fn variables(pairs: &[(&str, &str)]) -> StrMap<String> {
    let mut map = StrMap::new();
    for (k, v) in pairs {
        map.insert(k.to_string(), v.to_string());
    }
    map
}

fn object(members: Vec<(&str, &str)>) -> JsonMap {
    let mut map = JsonMap::new();
    for (k, v) in members {
        map.insert(k.to_string(), JsonValue::String(v.to_string()));
    }
    map
}

fn empty_definition(name: &str) -> Definition {
    Definition {
        parent: None,
        name: name.to_string(),
        id: "".to_string(),
        location: None,
        metadata: StrMap::new(),
        edges: StrMap::new(),
        tags: StrMap::new(),
        processors: StrMap::new(),
        arguments: StrMap::new(),
        environments: StrMap::new(),
        foreign_definitions: StrMap::new(),
    }
}

fn processor(program: &str) -> Readonly<Processor> {
    readonly(Processor { arguments: vec![], program: program.to_string(), install: None, environments: vec![], current_directory: None })
}

fn use_of(reference: &str, shared: &Readonly<Processor>) -> DraftProcessorOverride {
    ProcessorOverride::processor(&Some(LazyRef::new_referenced_value(reference.to_string(), shared.clone())))
}

fn edge_with(processor: Option<DraftProcessorOverride>) -> Readonly<Edge> {
    readonly(Edge { definition: None, processor, other: object(vec![("kind", "edge")]) })
}

fn metadata(edges: Vec<(&str, Readonly<Edge>, Option<Definition>)>, processor: Option<DraftProcessorOverride>) -> Metadata {
    let mut map = StrMap::new();
    for (key, edge, definition) in edges {
        map.insert(
            key.to_string(),
            EdgeOverride {
                arguments: vec![],
                environments: vec![],
                edge: LazyRefOrValue::to_referenced_value(key.to_string(), edge),
                other: JsonMap::new(),
                definition,
            },
        );
    }
    Metadata { edges: map, tags: StrMap::new(), other: object(vec![("kind", "metadata")]), processor }
}

fn with_metadata(key: &str, m: Metadata) -> Definition {
    let mut definition = empty_definition("d");
    definition.metadata.insert(key.to_string(), readonly(m));
    definition
}

#[test]
fn an_edge_with_another_processor_gets_a_run_of_its_own() {
    let edge_processor = processor("edge");
    let metadata_processor = processor("metadata");
    let m = metadata(vec![("e", edge_with(Some(use_of("edge", &edge_processor))), None)], Some(use_of("meta", &metadata_processor)));
    let contexts = with_metadata("m", m).processors_contexts();
    assert_eq!(contexts.len(), 2);
    assert_eq!(contexts[0].definition.write, WritePermissionsDto::edge());
    assert_eq!(contexts[0].definition.processor_reference, "edge");
    assert_eq!(contexts[0].definition.edge, Some(ContextDto::new("e".to_string(), object(vec![("kind", "edge")]))));
    assert_eq!(contexts[1].definition.write, WritePermissionsDto::metadata());
    assert_eq!(contexts[1].definition.processor_reference, "meta");
    assert!(contexts[1].definition.edge.is_none());
    assert_eq!(contexts[1].definition.metadata, ContextDto::new("m".to_string(), object(vec![("kind", "metadata")])));
    assert!(Arc::ptr_eq(&contexts[1].processor.processor.value, &metadata_processor));
}

#[test]
fn unresolved_processors_get_no_run() {
    let unresolved: DraftProcessorOverride = ProcessorOverride::processor(&Some(LazyRef::Ref("#/missing".to_string())));
    let m = metadata(vec![("e", edge_with(Some(unresolved.clone())), None), ("f", edge_with(None), None)], Some(unresolved));
    assert!(with_metadata("m", m).processors_contexts().is_empty());
    let alone = metadata(vec![], Some(use_of("p", &processor("p"))));
    let contexts = with_metadata("m", alone).processors_contexts();
    assert_eq!(contexts.len(), 1);
    assert_eq!(contexts[0].definition.write, WritePermissionsDto::metadata());
}

fn context_for(definition: &Definition, index: usize) -> ProcessorContext {
    definition.processors_contexts().into_iter().nth(index).unwrap()
}

#[test]
fn a_result_enriches_what_its_run_may_write() {
    let shared = processor("p");
    let m = metadata(vec![("e", edge_with(Some(use_of("p", &shared))), Some(empty_definition("inner")))], Some(use_of("p", &shared)));
    let mut definition = with_metadata("m", m);
    let context = context_for(&definition, 0);
    assert_eq!(context.definition.write, WritePermissionsDto::both());
    let result = ProcessorResult {
        enrichment: Some(Enrichment { edge: Some(object(vec![("found", "yes")])), metadata: Some(object(vec![("kind", "enriched")])) }),
        definition: Some(empty_definition("given")),
    };
    let next = handle_result(&mut definition, &context, &result);
    assert_eq!(next, Some("e".to_string()));
    let enriched = definition.metadata.get(&"m".to_string()).unwrap();
    assert_eq!(enriched.other, object(vec![("kind", "enriched")]));
    assert_eq!(enriched.edges.get(&"e".to_string()).unwrap().other, object(vec![("found", "yes")]));

    let mut processed = empty_definition("processed");
    processed.id = "7".to_string();
    set_edge_definition(&mut definition, &"m".to_string(), &"e".to_string(), processed);
    let updated = definition.metadata.get(&"m".to_string()).unwrap();
    assert_eq!(updated.edges.get(&"e".to_string()).unwrap().definition.as_ref().unwrap().name, "processed");
}

#[test]
fn a_result_writes_nothing_its_run_may_not_write() {
    let edge_processor = processor("edge");
    let m = metadata(vec![("e", edge_with(Some(use_of("edge", &edge_processor))), None)], None);
    let mut definition = with_metadata("m", m);
    let context = context_for(&definition, 0);
    assert_eq!(context.definition.write, WritePermissionsDto::edge());
    let result = ProcessorResult {
        enrichment: Some(Enrichment { edge: None, metadata: Some(object(vec![("kind", "changed")])) }),
        definition: Some(empty_definition("given")),
    };
    // the edge leads to no definition of its own: nothing is to be processed next
    assert_eq!(handle_result(&mut definition, &context, &result), None);
    assert_eq!(definition.metadata.get(&"m".to_string()).unwrap().other, object(vec![("kind", "metadata")]));
}

#[test]
fn appending_members_replaces_and_adds() {
    let mut target = object(vec![("a", "1"), ("b", "2")]);
    append_members(&mut target, &object(vec![("b", "3"), ("c", "4")]));
    assert_eq!(target, object(vec![("a", "1"), ("b", "3"), ("c", "4")]));
}

#[test]
fn a_read_definition_goes_to_every_edge_that_shares_its_source() {
    let foreign = readonly(ForeignDefinition::input(BaseDefinitionInput::File("./a.json".to_string())));
    let mut definition = empty_definition("d");
    definition.foreign_definitions.insert("k".to_string(), foreign.clone());
    definition.edges.insert("one".to_string(), readonly(Edge { definition: Some(foreign.clone()), processor: None, other: JsonMap::new() }));
    definition.edges.insert("two".to_string(), readonly(Edge { definition: Some(foreign.clone()), processor: None, other: JsonMap::new() }));
    definition.edges.insert("none".to_string(), readonly(Edge { definition: None, processor: None, other: JsonMap::new() }));
    fill_foreign_output(&mut definition, &"k".to_string(), empty_definition("read"));
    let filled = definition.foreign_definitions.get(&"k".to_string()).unwrap().clone();
    assert_eq!(filled.output.as_ref().unwrap().name, "read");
    assert!(Arc::ptr_eq(definition.edges.get(&"one".to_string()).unwrap().definition.as_ref().unwrap(), &filled));
    assert!(Arc::ptr_eq(definition.edges.get(&"two".to_string()).unwrap().definition.as_ref().unwrap(), &filled));
    assert!(definition.edges.get(&"none".to_string()).unwrap().definition.is_none());
    // a definition read already stays
    fill_foreign_output(&mut definition, &"k".to_string(), empty_definition("again"));
    assert_eq!(definition.foreign_definitions.get(&"k".to_string()).unwrap().output.as_ref().unwrap().name, "read");
}

#[test]
fn inputs_are_resolved_and_flattened() {
    let shared_arguments = readonly(strings(&["-a", "-b"]));
    let shared_environment = readonly(variables(&[("A", "shared"), ("B", "2")]));
    let process = readonly(Processor {
        arguments: vec![
            LazyRefOrValue::to_referenced_value("#/args".to_string(), shared_arguments),
            LazyRefOrValue::Ref("#/missing".to_string()),
            LazyRefOrValue::Value(strings(&["-c"])),
        ],
        program: "run".to_string(),
        install: None,
        environments: vec![LazyRefOrValue::to_referenced_value("#/env".to_string(), shared_environment)],
        current_directory: None,
    });
    assert_eq!(process.flatten_arguments(), strings(&["-a", "-b", "-c"]));
    let use_of_process = ProcessorOverride {
        arguments: vec![LazyRefOrValue::Value(strings(&["-own"]))],
        environments: vec![LazyRefOrValue::Value(variables(&[("A", "own")]))],
        processor: ReferencedValue { reference: "#/run".to_string(), value: process },
    };
    assert_eq!(use_of_process.flatten_arguments(), strings(&["-a", "-b", "-c", "-own"]));
    // its own environments come first, and a variable set twice has its last value
    let environments = use_of_process.flatten_environments();
    assert!(environments == variables(&[("A", "shared"), ("B", "2")]));
}

#[test]
fn inputs_are_defined_once_their_processor_is_found() {
    let file: chara::definition::input::DraftDefinitionInput = BaseDefinitionInput::File("a.json".to_string());
    assert!(matches!(file.to_defined(), Some(BaseDefinitionInput::File(f)) if f == "a.json"));
    let unresolved: chara::definition::input::DraftDefinitionInput =
        BaseDefinitionInput::Processor(ProcessorOverride::processor(&Some(LazyRef::Ref("#/p".to_string()))));
    assert!(unresolved.to_defined().is_none());
    let resolved: chara::definition::input::DraftDefinitionInput = BaseDefinitionInput::Processor(use_of("#/p", &processor("p")));
    assert!(matches!(resolved.to_defined(), Some(BaseDefinitionInput::Processor(_))));
}

fn written(name: &str, metadata: Vec<(&str, Vec<Option<DefinitionDto>>)>) -> DefinitionDto {
    DefinitionDto {
        name: name.to_string(),
        id: None,
        location: None,
        metadata: metadata
            .into_iter()
            .map(|(key, edges)| {
                (
                    key.to_string(),
                    MetadataDto {
                        edges: edges
                            .into_iter()
                            .map(|definition| {
                                ReferenceOrObjectDto::Object(MetadataEdge {
                                    reference: "#/e".to_string(),
                                    other: JsonMap::new(),
                                    arguments: vec![],
                                    environments: vec![],
                                    definition,
                                })
                            })
                            .collect(),
                        tags: vec![],
                        other: JsonMap::new(),
                        processor: None,
                    },
                )
            })
            .collect(),
        edges: vec![],
        tags: vec![],
        processors: vec![],
        arguments: vec![],
        environments: vec![],
    }
}

#[test]
fn a_graph_links_each_metadata_to_the_nodes_so_far() {
    let inner = written("inner", vec![("db", vec![])]);
    let graph = Graph::from_definition(written("app", vec![("api", vec![Some(inner)]), ("ui", vec![None])]));
    let nodes: Vec<String> = graph.nodes.iter().map(|n| n.id.clone()).collect();
    assert_eq!(nodes, strings(&["api", "db", "ui"]));
    let edges: Vec<(String, String, String)> = graph.edges.iter().map(|e| (e.id.clone(), e.source.clone(), e.target.clone())).collect();
    assert_eq!(
        edges,
        vec![
            ("[api]-[api]".to_string(), "api".to_string(), "api".to_string()),
            ("[api]-[db]".to_string(), "api".to_string(), "db".to_string()),
        ]
    );
}

#[test]
fn contexts_are_written_with_what_they_were_told() {
    let dto = DefinitionContextDto {
        location: Some("here".to_string()),
        write: WritePermissionsDto::metadata(),
        metadata: ContextDto::new("m".to_string(), JsonMap::new()),
        edge: None,
        processor_reference: "#/p".to_string(),
    };
    assert!(dto.write.metadata && !dto.write.edge);
    assert!(WritePermissionsDto::both().metadata && WritePermissionsDto::both().edge);
    assert!(!WritePermissionsDto::edge().metadata && WritePermissionsDto::edge().edge);
}

#[test]
fn an_edge_runs_with_the_arguments_and_environments_of_its_use_first() {
    let shared = processor("p");
    let mut own = use_of("p", &shared);
    own.arguments.push(LazyRefOrValue::Value(strings(&["--own"])));
    let mut m = metadata(vec![("e", edge_with(Some(own)), None)], Some(use_of("p", &shared)));
    let mut use_of_edge = m.edges.value_at(0).duplicate();
    use_of_edge.arguments.push(LazyRefOrValue::Value(strings(&["--first"])));
    use_of_edge.environments.push(LazyRefOrValue::Value(variables(&[("A", "1")])));
    m.edges.insert("e".to_string(), use_of_edge);
    let contexts = with_metadata("m", m).processors_contexts();
    assert_eq!(contexts.len(), 2);
    let run = &contexts[0].processor;
    assert_eq!(run.arguments.len(), 2);
    assert_eq!(run.arguments[0].value(), Some(strings(&["--first"])));
    assert_eq!(run.arguments[1].value(), Some(strings(&["--own"])));
    assert_eq!(run.environments.len(), 1);
    assert_eq!(contexts[0].definition.write, WritePermissionsDto::edge());
    assert_eq!(contexts[1].definition.write, WritePermissionsDto::metadata());
}

#[test]
fn a_graph_keeps_nodes_of_one_name_with_other_data() {
    let mut inner = written("inner", vec![("api", vec![])]);
    inner.metadata[0].1.other.insert("kind".to_string(), JsonValue::String("inner".to_string()));
    let same = written("same", vec![("api", vec![])]);
    let graph = Graph::from_definition(written("app", vec![("api", vec![Some(inner), Some(same)])]));
    let nodes: Vec<String> = graph.nodes.iter().map(|n| n.id.clone()).collect();
    assert_eq!(nodes, strings(&["api", "api"]));
    assert_eq!(graph.edges.len(), 1);
    assert_eq!(graph.edges[0].id, "[api]-[api]");
}

#[test]
fn a_definition_read_reaches_every_edge_waiting_for_the_same_source() {
    let mut definition = empty_definition("d");
    let foreign = readonly(ForeignDefinition::input(BaseDefinitionInput::File("./a.json".to_string())));
    let same_file = readonly(ForeignDefinition::input(BaseDefinitionInput::File("./a.json".to_string())));
    let other_file = readonly(ForeignDefinition::input(BaseDefinitionInput::File("./b.json".to_string())));
    definition.foreign_definitions.insert("k".to_string(), foreign.clone());
    definition.edges.insert("shared".to_string(), readonly(Edge { definition: Some(foreign), processor: None, other: JsonMap::new() }));
    definition.edges.insert("copy".to_string(), readonly(Edge { definition: Some(same_file), processor: None, other: JsonMap::new() }));
    definition.edges.insert("other".to_string(), readonly(Edge { definition: Some(other_file.clone()), processor: None, other: JsonMap::new() }));
    fill_foreign_output(&mut definition, &"k".to_string(), empty_definition("read"));
    let filled = definition.foreign_definitions.get(&"k".to_string()).unwrap().clone();
    assert!(Arc::ptr_eq(definition.edges.get(&"shared".to_string()).unwrap().definition.as_ref().unwrap(), &filled));
    assert!(Arc::ptr_eq(definition.edges.get(&"copy".to_string()).unwrap().definition.as_ref().unwrap(), &filled));
    assert!(Arc::ptr_eq(definition.edges.get(&"other".to_string()).unwrap().definition.as_ref().unwrap(), &other_file));
}

#[test]
fn two_processors_under_one_name_get_runs_of_their_own() {
    let edge_processor = processor("edge");
    let metadata_processor = processor("metadata");
    let m = metadata(vec![("e", edge_with(Some(use_of("p", &edge_processor))), None)], Some(use_of("p", &metadata_processor)));
    let contexts = with_metadata("m", m).processors_contexts();
    assert_eq!(contexts.len(), 2);
    assert_eq!(contexts[0].definition.write, WritePermissionsDto::edge());
    assert!(Arc::ptr_eq(&contexts[0].processor.processor.value, &edge_processor));
    assert_eq!(contexts[1].definition.write, WritePermissionsDto::metadata());
    assert!(Arc::ptr_eq(&contexts[1].processor.processor.value, &metadata_processor));
}
