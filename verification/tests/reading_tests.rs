use std::sync::Arc;

use chara::definition::definition::Definition;
use chara::definition::input::BaseDefinitionInput;
use chara::dto::{
    DefinitionDto, EdgeDto, EnvironmentDto, ForeignDefinitionDto, MetadataDto, MetadataEdge, ProcessorDto,
    ProcessorOverrideDto, ReferenceOrObjectDto, TagDto,
};
use chara::json::{JsonMap, JsonValue};
use chara::mappers::arguments::{from_arguments, starts_with_reference_prefix, to_arguments};
use chara::mappers::definition_dto::to_definition::TextDefinition;
use chara::mappers::environments::{from_environments, to_environments};
use chara::mappers::processors::{to_node_processor, to_processor_override, trim_reference_prefix};
use chara::mappers::tags::{from_tags, to_tags};
use chara::processor::Processor;
use chara::reference_value::{LazyRef, LazyRefOrValue};
use chara::strmap::StrMap;
use chara::thread::readonly;

fn empty_definition() -> Definition {
    Definition {
        parent: None,
        name: "".to_string(),
        id: "".to_string(),
        location: None,
        metadata: StrMap::new(),
        edges: StrMap::new(),
        tags: StrMap::new(),
        processors: StrMap::new(),
        arguments: StrMap::new(),
        environments: StrMap::new(),
        foreign_definitions: StrMap::new(),
    }
}

fn strings(values: &[&str]) -> Vec<String> {
    values.iter().map(|v| v.to_string()).collect()
}

fn variables(pairs: &[(&str, &str)]) -> StrMap<String> {
    let mut map = StrMap::new();
    for (k, v) in pairs {
        map.insert(k.to_string(), v.to_string());
    }
    map
}

fn processor(program: &str) -> Processor {
    Processor { arguments: vec![], program: program.to_string(), install: None, environments: vec![], current_directory: None }
}

fn written(name: &str) -> DefinitionDto {
    DefinitionDto {
        name: name.to_string(),
        id: None,
        location: None,
        metadata: vec![],
        edges: vec![],
        tags: vec![],
        processors: vec![],
        arguments: vec![],
        environments: vec![],
    }
}

fn tag(label: &str, tags: Vec<(&str, TagDto)>) -> TagDto {
    TagDto {
        label: Some(label.to_string()),
        tags: tags.into_iter().map(|(k, t)| (k.to_string(), t)).collect(),
        other: JsonValue::Null,
    }
}

#[test]
fn references_start_with_the_root_prefix() {
    assert!(starts_with_reference_prefix(&"#/args".to_string()));
    assert!(!starts_with_reference_prefix(&"#args".to_string()));
    assert!(!starts_with_reference_prefix(&"-h".to_string()));
    assert_eq!(trim_reference_prefix(&"#/#/name".to_string()), "name");
    assert_eq!(trim_reference_prefix(&"name".to_string()), "name");
}

#[test]
fn written_arguments_are_read_and_written_back() {
    let mut definition = empty_definition();
    let shared = readonly(strings(&["-v", "-q"]));
    definition.arguments.insert("common".to_string(), shared.clone());
    let read = to_arguments(&strings(&["-h", "#/common", "#/missing"]), &definition);
    assert_eq!(read.len(), 3);
    assert_eq!(read[0].value(), Some(strings(&["-h"])));
    assert!(Arc::ptr_eq(&read[1].referenced_value().unwrap(), &shared));
    assert_eq!(read[1].reference(), Some("#/common".to_string()));
    assert!(read[2] == LazyRefOrValue::Ref("#/missing".to_string()));
    // the reference that names nothing is left out when written back
    assert_eq!(from_arguments(read), strings(&["-h", "#/common"]));
}

#[test]
fn written_environments_are_read_and_written_back() {
    let mut definition = empty_definition();
    let shared = readonly(variables(&[("TOKEN", "TEST")]));
    definition.environments.insert("github".to_string(), shared.clone());
    let written = vec![
        EnvironmentDto::Reference("#/github".to_string()),
        EnvironmentDto::Reference("#/other".to_string()),
        EnvironmentDto::Value(variables(&[("A", "1")])),
    ];
    let read = to_environments(&written, &definition);
    assert!(Arc::ptr_eq(&read[0].referenced_value().unwrap(), &shared));
    assert!(read[1] == LazyRefOrValue::Ref("#/other".to_string()));
    assert!(read[2] == LazyRefOrValue::Value(variables(&[("A", "1")])));
    let back = from_environments(read);
    assert_eq!(back.len(), 3);
    assert!(matches!(&back[0], EnvironmentDto::Reference(r) if r == "#/github"));
    assert!(matches!(&back[1], EnvironmentDto::Reference(r) if r == "#/other"));
    assert!(matches!(&back[2], EnvironmentDto::Value(v) if *v == variables(&[("A", "1")])));
}

#[test]
fn processors_are_found_by_their_name() {
    let mut definition = empty_definition();
    let shared = readonly(processor("test_program"));
    definition.processors.insert("build".to_string(), shared.clone());
    let found = to_node_processor(&ReferenceOrObjectDto::Reference("#/build".to_string()), &definition);
    match found.processor {
        Some(LazyRef::ReferencedValue(rv)) => {
            assert_eq!(rv.reference, "#/build");
            assert!(Arc::ptr_eq(&rv.value, &shared));
        }
        _ => panic!("the processor is found"),
    }
    let missing = to_node_processor(&ReferenceOrObjectDto::Reference("#/other".to_string()), &definition);
    assert!(matches!(missing.processor, Some(LazyRef::Ref(r)) if r == "#/other"));

    let written = ProcessorOverrideDto {
        reference: Some("#/build".to_string()),
        arguments: strings(&["-x"]),
        environments: vec![],
    };
    let read = to_processor_override(&written, &definition);
    assert_eq!(read.arguments.len(), 1);
    assert!(matches!(read.processor, Some(LazyRef::ReferencedValue(_))));
    let unnamed = ProcessorOverrideDto { reference: None, arguments: strings(&["-x"]), environments: vec![] };
    let read = to_processor_override(&unnamed, &definition);
    assert_eq!(read.arguments.len(), 1);
    assert!(read.processor.is_none());
    let not_found = ProcessorOverrideDto { reference: Some("#/nope".to_string()), arguments: strings(&["-x"]), environments: vec![] };
    let read = to_processor_override(&not_found, &definition);
    assert!(read.arguments.is_empty());
}

#[test]
fn tags_are_read_under_their_paths() {
    let written_tags = vec![("a".to_string(), tag("A", vec![("b", tag("B", vec![]))])), ("c".to_string(), tag("C", vec![]))];
    let entries = to_tags(&"#".to_string(), &written_tags);
    let paths: Vec<(String, String, String)> = entries.iter().map(|(k, p, parent, _)| (k.clone(), p.clone(), parent.clone())).collect();
    assert_eq!(
        paths,
        vec![
            ("b".to_string(), "#/a/b".to_string(), "#/a".to_string()),
            ("a".to_string(), "#/a".to_string(), "#".to_string()),
            ("c".to_string(), "#/c".to_string(), "#".to_string()),
        ]
    );
    let a = &entries[1].3;
    assert_eq!(a.reference, "a");
    assert_eq!(a.value.label, Some("A".to_string()));
    assert_eq!(a.value.tags.len(), 1);
    assert_eq!(a.value.tags[0].0, "b");
    assert!(Arc::ptr_eq(&a.value.tags[0].1, &entries[0].3));

    let mut dto = written("tagged");
    dto.tags = written_tags;
    let all = dto.list_tags();
    assert_eq!(all.len(), 4);
    let root = all.get(&"#".to_string()).unwrap();
    assert_eq!(root.value.tags.len(), 2);
    assert_eq!(root.value.tags[0].0, "#/a");
    assert!(all.get(&"#/a/b".to_string()).is_some());

    let back = from_tags(&root.value.tags);
    assert_eq!(back.len(), 2);
    assert_eq!(back[0].0, "a");
    assert_eq!(back[0].1.tags.len(), 1);
    assert_eq!(back[0].1.tags[0].0, "b");
    assert_eq!(back[0].1.tags[0].1.label, Some("B".to_string()));
}

#[test]
fn foreign_definition_keys_tell_written_forms_apart() {
    let text = ForeignDefinitionDto::String("./a.json".to_string());
    let same_text = ForeignDefinitionDto::String("./a.json".to_string());
    let other_text = ForeignDefinitionDto::String("./b.json".to_string());
    let mut inline = written("./a.json");
    assert_eq!(text.key(), same_text.key());
    assert_ne!(text.key(), other_text.key());
    assert_ne!(text.key(), ForeignDefinitionDto::Definition(written("./a.json")).key());
    inline.location = Some("here".to_string());
    let located = ForeignDefinitionDto::Definition(inline);
    let mut inline_again = written("./a.json");
    inline_again.processors.push(("p".to_string(), ProcessorDto {
        arguments: vec![],
        environments: vec![],
        program: "x".to_string(),
        install: None,
        current_directory: None,
    }));
    inline_again.location = Some("here".to_string());
    // definitions in place are told apart by their name and location alone
    assert_eq!(located.key(), ForeignDefinitionDto::Definition(inline_again).key());
    assert_eq!(ForeignDefinitionDto::String("a|b".to_string()).key(), "s|a\\|b|");
}

fn texts_with(entries: Vec<(&str, TextDefinition)>) -> StrMap<TextDefinition> {
    let mut texts = StrMap::new();
    for (k, v) in entries {
        texts.insert(k.to_string(), v);
    }
    texts
}

#[test]
fn a_written_definition_is_read_with_its_parts_resolved() {
    let mut dto = written("library");
    dto.id = Some("42".to_string());
    dto.arguments.push(("workflow".to_string(), strings(&["-h"])));
    dto.environments.push(("github".to_string(), variables(&[("TOKEN", "TEST")])));
    dto.processors.push((
        "reusable_workflow".to_string(),
        ProcessorDto {
            arguments: strings(&["#/workflow"]),
            environments: vec![EnvironmentDto::Reference("#/github".to_string())],
            program: "run".to_string(),
            install: None,
            current_directory: None,
        },
    ));
    let edge = |definition: Option<ForeignDefinitionDto>| EdgeDto {
        definition,
        processor: Some(ReferenceOrObjectDto::Reference("#/reusable_workflow".to_string())),
        other: JsonMap::new(),
    };
    dto.edges.push(("workflows".to_string(), edge(Some(ForeignDefinitionDto::String("./workflows.json".to_string())))));
    dto.edges.push(("again".to_string(), edge(Some(ForeignDefinitionDto::String("./workflows.json".to_string())))));
    dto.edges.push(("inline".to_string(), edge(Some(ForeignDefinitionDto::String("{}".to_string())))));
    dto.edges.push(("by_processor".to_string(), edge(Some(ForeignDefinitionDto::String("#/reusable_workflow".to_string())))));
    dto.edges.push(("in_place".to_string(), edge(Some(ForeignDefinitionDto::Definition(written("inner"))))));
    dto.tags.push(("ci".to_string(), tag("CI", vec![])));
    dto.metadata.push((
        "CI".to_string(),
        MetadataDto {
            edges: vec![
                ReferenceOrObjectDto::Reference("#/workflows".to_string()),
                ReferenceOrObjectDto::Object(MetadataEdge {
                    reference: "#/in_place".to_string(),
                    other: JsonMap::new(),
                    arguments: strings(&["-x"]),
                    environments: vec![],
                    definition: Some(written("nested")),
                }),
            ],
            tags: strings(&["#/ci", "#/unknown"]),
            other: JsonMap::new(),
            processor: Some(ReferenceOrObjectDto::Reference("#/reusable_workflow".to_string())),
        },
    ));
    let texts = texts_with(vec![
        ("./workflows.json", TextDefinition::File),
        ("{}", TextDefinition::Value(JsonValue::Object(JsonMap::new()))),
    ]);
    let definition = dto.map_with_location(Some("/tmp/library.json".to_string()), None, &texts);

    assert_eq!(definition.name, "library");
    assert_eq!(definition.id, "42");
    assert_eq!(definition.location, Some("/tmp/library.json".to_string()));
    let processor = definition.processors.get(&"reusable_workflow".to_string()).unwrap();
    assert!(Arc::ptr_eq(&processor.arguments[0].referenced_value().unwrap(), definition.arguments.get(&"workflow".to_string()).unwrap()));
    assert!(Arc::ptr_eq(&processor.environments[0].referenced_value().unwrap(), definition.environments.get(&"github".to_string()).unwrap()));

    // edges that write the same source share one foreign definition
    assert_eq!(definition.foreign_definitions.len(), 4);
    let workflows = definition.edges.get(&"workflows".to_string()).unwrap();
    let again = definition.edges.get(&"again".to_string()).unwrap();
    assert!(Arc::ptr_eq(workflows.definition.as_ref().unwrap(), again.definition.as_ref().unwrap()));
    assert!(matches!(workflows.definition.as_ref().unwrap().input, Some(BaseDefinitionInput::File(ref f)) if f == "./workflows.json"));
    let inline = definition.edges.get(&"inline".to_string()).unwrap();
    assert!(matches!(inline.definition.as_ref().unwrap().input, Some(BaseDefinitionInput::Value(JsonValue::Object(_)))));
    let by_processor = definition.edges.get(&"by_processor".to_string()).unwrap();
    match &by_processor.definition.as_ref().unwrap().input {
        Some(BaseDefinitionInput::Processor(p)) => assert!(matches!(p.processor, Some(LazyRef::ReferencedValue(_)))),
        _ => panic!("a text that names a processor is read as that processor"),
    }
    let in_place = definition.edges.get(&"in_place".to_string()).unwrap();
    assert_eq!(in_place.definition.as_ref().unwrap().output.as_ref().unwrap().name, "inner");

    let tags = &definition.tags;
    assert!(tags.get(&"#".to_string()).is_some());
    assert!(tags.get(&"#/ci".to_string()).is_some());

    let metadata = definition.metadata.get(&"CI".to_string()).unwrap();
    let reference_edge = metadata.edges.get(&"#/workflows".to_string()).unwrap();
    assert!(Arc::ptr_eq(&reference_edge.edge.referenced_value().unwrap(), workflows));
    let object_edge = metadata.edges.get(&"#/in_place".to_string()).unwrap();
    assert_eq!(object_edge.arguments.len(), 1);
    assert_eq!(object_edge.definition.as_ref().unwrap().name, "nested");
    assert!(object_edge.definition.as_ref().unwrap().parent.is_none());
    // tags are kept under their paths, and a path finds an item by its last segment alone
    assert!(matches!(metadata.tags.get(&"#/ci".to_string()).unwrap(), LazyRefOrValue::Ref(r) if r == "#/ci"));
    assert!(matches!(metadata.tags.get(&"#/unknown".to_string()).unwrap(), LazyRefOrValue::Ref(r) if r == "#/unknown"));
    assert!(metadata.processor.as_ref().unwrap().map().is_some());

    // written back
    let back = DefinitionDto::from_definition(&definition);
    assert_eq!(back.name, "library");
    assert!(back.id.is_none());
    assert_eq!(back.location, Some("/tmp/library.json".to_string()));
    assert_eq!(back.arguments, vec![("workflow".to_string(), strings(&["-h"]))]);
    assert_eq!(back.processors[0].1.arguments, strings(&["#/workflow"]));
    assert_eq!(back.edges.len(), 5);
    let in_place_back = back.edges.iter().find(|(k, _)| k == "in_place").unwrap();
    assert!(matches!(&in_place_back.1.definition, Some(ForeignDefinitionDto::Definition(d)) if d.name == "inner"));
    let workflows_back = back.edges.iter().find(|(k, _)| k == "workflows").unwrap();
    assert!(workflows_back.1.definition.is_none());
    assert_eq!(back.metadata[0].1.tags, strings(&["#/ci", "#/unknown"]));
    assert_eq!(back.tags.len(), 1);
    assert_eq!(back.tags[0].0, "ci");
}

#[test]
fn a_written_definition_takes_the_location_it_is_read_from() {
    let texts = StrMap::new();
    let mut located = written("a");
    located.location = Some("written".to_string());
    let definition = located.map_overwrite_location("read".to_string(), &texts);
    assert_eq!(definition.location, Some("read".to_string()));
    let definition = written("b").map(&texts);
    assert!(definition.location.is_none());
    assert!(!definition.id.is_empty());
    let mut located = written("c");
    located.location = Some("written".to_string());
    let definition = located.map_with_location(Some("given".to_string()), None, &texts);
    assert_eq!(definition.location, Some("written".to_string()));
}

#[test]
fn a_definition_read_is_written_back_as_written() {
    let mut dto = written("round");
    dto.location = Some("here".to_string());
    dto.arguments = vec![("args".to_string(), vec!["-h".to_string()])];
    dto.tags = vec![("a".to_string(), tag("A", vec![("b", tag("B", vec![]))]))];
    let texts: StrMap<TextDefinition> = StrMap::new();
    let definition = dto.map(&texts);
    let id: Vec<char> = definition.id.chars().collect();
    assert_eq!(id.len(), 36);
    assert_eq!((id[8], id[13], id[14], id[18], id[23]), ('-', '-', '4', '-', '-'));
    let back = DefinitionDto::from_definition(&definition);
    assert_eq!(back.name, "round");
    assert_eq!(back.location, Some("here".to_string()));
    assert_eq!(back.arguments, vec![("args".to_string(), vec!["-h".to_string()])]);
    assert_eq!(back.tags.len(), 1);
    assert_eq!(back.tags[0].0, "a");
    assert_eq!(back.tags[0].1.label, Some("A".to_string()));
    assert_eq!(back.tags[0].1.tags[0].0, "b");
}
