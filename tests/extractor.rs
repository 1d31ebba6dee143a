use elastic_cli::extractor::JSONExtractor;
use elastic_cli::json::JsonNode;

use std::collections::BTreeMap;

fn path(segments: &[&str]) -> Vec<String> {
    segments.iter().map(|s| s.to_string()).collect()
}

#[test]
fn field_names_join_path_segments_with_dots() {
    let extractor = JSONExtractor::default();
    assert_eq!("root.obj.strKey", extractor.field_name(&path(&["root", "obj", "strKey"])));
    assert_eq!("root.arr.0.value", extractor.field_name(&path(&["root", "arr", "0", "value"])));
    assert_eq!("root", extractor.field_name(&path(&["root"])));
    assert_eq!("", extractor.field_name(&path(&[])));
}

#[test]
fn default_extractor_shows_every_field() {
    let extractor = JSONExtractor::default();
    assert!(extractor.is_field_ok("root.obj.strKey"));
    assert!(extractor.is_field_ok("anything"));
}

#[test]
fn filtered_extractor_shows_only_named_fields() {
    let extractor = JSONExtractor::filtered(path(&["root.arr.2.value", "root.obj.strKey"]));
    assert!(extractor.is_field_ok("root.obj.strKey"));
    assert!(extractor.is_field_ok("root.arr.2.value"));
    assert!(!extractor.is_field_ok("root.obj.intKey"));
    assert!(!extractor.is_field_ok("root.arr.0.value"));
    assert!(!extractor.is_field_ok("root"));
}

fn scalar(text: &str) -> JsonNode {
    JsonNode::Scalar(text.to_string())
}

fn object(members: Vec<(&str, JsonNode)>) -> JsonNode {
    JsonNode::Object(members.into_iter().map(|(k, v)| (k.to_string(), v)).collect())
}

fn get_value() -> JsonNode {
    object(vec![(
        "root",
        object(vec![
            ("obj", object(vec![("strKey", scalar("str1")), ("intKey", scalar("1"))])),
            (
                "arr",
                JsonNode::Array(vec![
                    object(vec![("value", scalar("1"))]),
                    object(vec![("value", scalar("2"))]),
                    object(vec![("value", scalar("3"))]),
                ]),
            ),
        ]),
    )])
}

fn extract_map(extractor: &JSONExtractor, node: &JsonNode) -> BTreeMap<String, String> {
    extractor.extract(node).into_iter().collect()
}

#[test]
fn it_should_extract_values_from_json() {
    let map = extract_map(&JSONExtractor::default(), &get_value());
    assert_eq!(Some("str1".to_string()).as_ref(), map.get("root.obj.strKey"));
    assert_eq!(Some("1".to_string()).as_ref(), map.get("root.obj.intKey"));
    assert_eq!(Some("1".to_string()).as_ref(), map.get("root.arr.0.value"));
    assert_eq!(Some("2".to_string()).as_ref(), map.get("root.arr.1.value"));
    assert_eq!(Some("3".to_string()).as_ref(), map.get("root.arr.2.value"));

    assert_eq!(None, map.get("root"));
    assert_eq!(None, map.get("root.obj"));
    assert_eq!(None, map.get("root.obj.anotherKey"));
    assert_eq!(None, map.get("root.arr"));
    assert_eq!(None, map.get("root.arr.3.value"));
}

#[test]
fn it_should_filter_fields() {
    let fields = path(&["root.arr.2.value", "root.obj.strKey"]);
    let map = extract_map(&JSONExtractor::filtered(fields), &get_value());

    assert_eq!(Some("str1".to_string()).as_ref(), map.get("root.obj.strKey"));
    assert_eq!(Some("3".to_string()).as_ref(), map.get("root.arr.2.value"));

    assert_eq!(None, map.get("root.obj.intKey"));
    assert_eq!(None, map.get("root.arr.0.value"));
    assert_eq!(None, map.get("root.arr.1.value"));
    assert_eq!(None, map.get("root"));
    assert_eq!(None, map.get("root.obj"));
    assert_eq!(None, map.get("root.obj.anotherKey"));
    assert_eq!(None, map.get("root.arr"));
    assert_eq!(None, map.get("root.arr.3.value"));
}

#[test]
fn extraction_keeps_document_order() {
    let pairs = JSONExtractor::default().extract(&get_value());
    let names: Vec<&str> = pairs.iter().map(|(k, _)| k.as_str()).collect();
    assert_eq!(
        vec!["root.obj.strKey", "root.obj.intKey", "root.arr.0.value", "root.arr.1.value", "root.arr.2.value"],
        names
    );
    let twelve = JsonNode::Array((0..12).map(|i| scalar(&i.to_string())).collect());
    let pairs = JSONExtractor::default().extract(&twelve);
    assert_eq!(("11".to_string(), "11".to_string()), pairs[11]);
}
