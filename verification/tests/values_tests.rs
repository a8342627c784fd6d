use std::sync::Arc;

use chara::json::{JsonMap, JsonValue};
use chara::merge::{Merge, Overwrite};
use chara::model::Model;
use chara::processor::{Install, ProcessorOverride};
use chara::reference_value::{LazyRef, LazyRefOrValue, RefOrValue};
use chara::strmap::StrMap;
use chara::thread::{readonly, Read, ThreadError};

fn object(members: Vec<(&str, JsonValue)>) -> JsonMap {
    let mut map = JsonMap::new();
    for (k, v) in members {
        map.insert(k.to_string(), v);
    }
    map
}

fn text(s: &str) -> JsonValue {
    JsonValue::String(s.to_string())
}

fn strings(values: &[&str]) -> Vec<String> {
    values.iter().map(|v| v.to_string()).collect()
}

fn variables(pairs: &[(&str, &str)]) -> StrMap<String> {
    let mut map = StrMap::new();
    for (k, v) in pairs {
        map.insert(k.to_string(), v.to_string());
    }
    map
}

#[test]
fn map_insert_replaces_in_place_and_appends_new_keys() {
    let mut map = variables(&[("a", "1"), ("b", "2")]);
    map.insert("a".to_string(), "3".to_string());
    map.insert("c".to_string(), "4".to_string());
    assert_eq!(map.len(), 3);
    assert_eq!(map.key_at(0), "a");
    assert_eq!(map.value_at(0), "3");
    assert_eq!(map.key_at(2), "c");
    assert_eq!(map.get(&"b".to_string()), Some(&"2".to_string()));
    assert_eq!(map.get(&"z".to_string()), None);
    assert!(map.contains_key(&"c".to_string()));
    assert_eq!(map.index_of(&"c".to_string()), Some(2));
}

#[test]
fn maps_with_the_same_entries_are_equal_in_any_order() {
    let a = variables(&[("a", "1"), ("b", "2")]);
    let b = variables(&[("b", "2"), ("a", "1")]);
    let c = variables(&[("a", "1"), ("b", "3")]);
    assert!(a == b);
    assert!(a != c);
    assert!(variables(&[("a", "1")]) != a);
}

#[test]
fn merging_maps_merges_shared_keys_and_adds_the_others() {
    let mut a: StrMap<Vec<String>> = StrMap::new();
    a.insert("x".to_string(), strings(&["1"]));
    a.insert("y".to_string(), strings(&["2"]));
    let mut b: StrMap<Vec<String>> = StrMap::new();
    b.insert("y".to_string(), strings(&["3"]));
    b.insert("z".to_string(), strings(&["4"]));
    a.merge(&b);
    assert_eq!(a.len(), 3);
    assert_eq!(a.get(&"x".to_string()), Some(&strings(&["1"])));
    assert_eq!(a.get(&"y".to_string()), Some(&strings(&["2", "3"])));
    assert_eq!(a.key_at(2), "z");
    assert_eq!(a.value_at(2), &strings(&["4"]));
}

#[test]
fn merging_strings_replaces_and_vectors_append() {
    let mut s = "a".to_string();
    s.merge(&"b".to_string());
    assert_eq!(s, "b");
    let mut v = strings(&["a"]);
    v.merge(&strings(&["b", "c"]));
    assert_eq!(v, strings(&["a", "b", "c"]));
}

#[test]
fn merging_options_fills_merges_or_keeps() {
    let mut none: Option<Vec<String>> = None;
    none.merge(&Some(strings(&["a"])));
    assert_eq!(none, Some(strings(&["a"])));
    let mut some = Some(strings(&["a"]));
    some.merge(&Some(strings(&["b"])));
    assert_eq!(some, Some(strings(&["a", "b"])));
    some.merge(&None);
    assert_eq!(some, Some(strings(&["a", "b"])));
}

#[test]
fn overwriting_an_option_only_fills_it() {
    let mut none: Option<String> = None;
    none.overwrite(&Some("a".to_string()));
    assert_eq!(none, Some("a".to_string()));
    none.overwrite(&Some("b".to_string()));
    assert_eq!(none, Some("a".to_string()));
}

#[test]
fn merging_a_shared_value_with_itself_changes_nothing() {
    let shared = readonly(strings(&["a"]));
    let mut handle = shared.clone();
    handle.merge(&shared);
    assert!(Arc::ptr_eq(&handle, &shared));
    let other = readonly(strings(&["b"]));
    handle.merge(&other);
    assert_eq!(*handle, strings(&["a", "b"]));
    assert_eq!(*shared, strings(&["a"]));
}

#[test]
fn merging_json_objects_merges_members_recursively() {
    let mut a = JsonValue::Object(object(vec![
        ("keep", text("1")),
        ("nested", JsonValue::Object(object(vec![("x", text("a"))]))),
    ]));
    let b = JsonValue::Object(object(vec![
        ("nested", JsonValue::Object(object(vec![("y", text("b"))]))),
        ("new", JsonValue::Bool(true)),
    ]));
    a.merge(&b);
    let expected = JsonValue::Object(object(vec![
        ("keep", text("1")),
        ("nested", JsonValue::Object(object(vec![("x", text("a")), ("y", text("b"))]))),
        ("new", JsonValue::Bool(true)),
    ]));
    assert_eq!(a, expected);
    let mut c = text("old");
    c.merge(&JsonValue::Number("12".to_string()));
    assert_eq!(c, JsonValue::Number("12".to_string()));
}

#[test]
fn duplicated_json_is_equal() {
    let value = JsonValue::Array(vec![JsonValue::Null, JsonValue::Object(object(vec![("a", text("b"))]))]);
    assert_eq!(value.duplicate(), value);
    assert_eq!(value.clone(), value);
}

#[test]
fn reading_a_shared_value_copies_it() {
    let shared = readonly(strings(&["a", "b"]));
    assert_eq!(shared.read_ref_or_default(), strings(&["a", "b"]));
    assert_eq!(shared.clone().read_or_default(), strings(&["a", "b"]));
    let errors = [ThreadError::Poison, ThreadError::Join];
    assert_eq!(errors.len(), 2);
}

#[test]
fn lazy_reference_merge_renames_fills_and_merges() {
    let mut unresolved: LazyRefOrValue<Vec<String>> = LazyRefOrValue::Ref("a".to_string());
    unresolved.merge(&LazyRefOrValue::Ref("b".to_string()));
    assert_eq!(unresolved.reference(), Some("b".to_string()));
    unresolved.merge(&LazyRefOrValue::Value(strings(&["x"])));
    assert_eq!(unresolved.value(), Some(strings(&["x"])));
    unresolved.merge(&LazyRefOrValue::Value(strings(&["y"])));
    assert_eq!(unresolved.value(), Some(strings(&["x", "y"])));

    let shared = readonly(strings(&["s"]));
    let mut found = LazyRefOrValue::to_referenced_value("r".to_string(), shared.clone());
    found.merge(&LazyRefOrValue::Ref("renamed".to_string()));
    assert_eq!(found.reference(), Some("renamed".to_string()));
    assert!(Arc::ptr_eq(&found.referenced_value().unwrap(), &shared));
    found.merge(&LazyRefOrValue::Value(strings(&["t"])));
    assert_eq!(found.value(), Some(strings(&["s", "t"])));
    assert_eq!(*shared, strings(&["s"]));
}

#[test]
fn references_compare_by_reference_and_values_by_value() {
    let a: LazyRefOrValue<Vec<String>> = LazyRefOrValue::to_referenced_value("r".to_string(), readonly(strings(&["1"])));
    let b: LazyRefOrValue<Vec<String>> = LazyRefOrValue::to_referenced_value("r".to_string(), readonly(strings(&["2"])));
    assert!(a == b);
    assert!(LazyRefOrValue::Value(strings(&["1"])) == LazyRefOrValue::<Vec<String>>::Value(strings(&["1"])));
    assert!(LazyRefOrValue::Value(strings(&["1"])) != LazyRefOrValue::<Vec<String>>::Value(strings(&["2"])));
    assert!(LazyRefOrValue::<Vec<String>>::Ref("r".to_string()) != a);
    let e1: LazyRefOrValue<StrMap<String>> = LazyRefOrValue::Value(variables(&[("a", "1"), ("b", "2")]));
    let e2: LazyRefOrValue<StrMap<String>> = LazyRefOrValue::Value(variables(&[("b", "2"), ("a", "1")]));
    assert!(e1 == e2);
}

#[test]
fn resolved_values_unwrap_to_their_value() {
    let shared = readonly(strings(&["a"]));
    let found: LazyRefOrValue<Vec<String>> = LazyRefOrValue::to_referenced_value("r".to_string(), shared);
    assert_eq!(found.to_ref_or_value().unwrap().unwrap(), strings(&["a"]));
    let unresolved: LazyRefOrValue<Vec<String>> = LazyRefOrValue::Ref("r".to_string());
    assert!(unresolved.to_ref_or_value().is_none());
    match unresolved.into_ref_or_value() {
        RefOrValue::Value(v) => assert!(v.is_empty()),
        RefOrValue::ReferencedValue(_) => panic!("a reference that is not resolved gives the default value"),
    }
    let lazy: LazyRef<Vec<String>> = LazyRef::Ref("p".to_string());
    assert_eq!(lazy.reference(), "p");
    assert!(lazy.referenced_value().is_none());
}

#[test]
fn a_use_of_a_processor_puts_given_inputs_first() {
    let base: ProcessorOverride<LazyRefOrValue<Vec<String>>, LazyRefOrValue<StrMap<String>>, Option<LazyRef<Vec<String>>>> =
        ProcessorOverride::processor(&None);
    assert!(base.arguments.is_empty() && base.environments.is_empty());
    let mut own = base;
    own.arguments.push(LazyRefOrValue::Value(strings(&["own"])));
    let with = own.from_with(vec![LazyRefOrValue::Value(strings(&["given"]))], vec![]);
    assert_eq!(with.arguments.len(), 2);
    assert!(with.arguments[0] == LazyRefOrValue::Value(strings(&["given"])));
    assert!(with.arguments[1] == LazyRefOrValue::Value(strings(&["own"])));
    let same = own.with(vec![LazyRefOrValue::Value(strings(&["given"]))], vec![]);
    assert_eq!(same.arguments.len(), 2);
    assert!(same.arguments[0] == LazyRefOrValue::Value(strings(&["given"])));
}

#[test]
fn merging_installs_appends_and_fills() {
    let mut a = Install {
        arguments: vec![LazyRefOrValue::Value(strings(&["a"]))],
        program: "first".to_string(),
        environments: vec![],
        current_directory: None,
    };
    let b = Install {
        arguments: vec![LazyRefOrValue::Value(strings(&["b"]))],
        program: "second".to_string(),
        environments: vec![],
        current_directory: Some("dir".to_string()),
    };
    a.merge(&b);
    assert_eq!(a.arguments.len(), 2);
    assert_eq!(a.program, "second");
    assert_eq!(a.current_directory, Some("dir".to_string()));
}
