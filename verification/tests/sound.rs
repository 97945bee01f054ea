use pico_configurator::{
    build_document, has_entry, import_value, is_sound, keys_distinct, nested_within, parse_value,
    welcome_value, Entry, Number, Value, MAX_DEPTH,
};

fn whole(n: u64) -> Value {
    Value::Number(Number { positive: true, mantissa: n, exponent: 0 })
}

fn entry(key: &str, value: Value) -> Entry {
    Entry { key: key.to_string(), value }
}

fn nest(levels: usize) -> Value {
    let mut value = whole(1);
    for _ in 0..levels {
        value = Value::Array(vec![value]);
    }
    value
}

#[test]
fn leaves_are_within_every_depth() {
    assert!(nested_within(&Value::Null, 0));
    assert!(nested_within(&whole(3), 0));
    assert!(nested_within(&Value::String("x".to_string()), 0));
}

#[test]
fn containers_need_one_level_each() {
    assert!(!nested_within(&Value::Array(vec![]), 0));
    assert!(nested_within(&Value::Array(vec![]), 1));
    assert!(!nested_within(&Value::Object(vec![]), 0));
    assert!(nested_within(&nest(3), 3));
    assert!(!nested_within(&nest(3), 2));
    let mixed = Value::Object(vec![entry("a", whole(1)), entry("b", nest(2))]);
    assert!(nested_within(&mixed, 3));
    assert!(!nested_within(&mixed, 2));
}

#[test]
fn has_entry_finds_keys_exactly() {
    let entries = vec![entry("Port", whole(1)), entry("Host", whole(2))];
    assert!(has_entry(&entries, "Port"));
    assert!(has_entry(&entries, "Host"));
    assert!(!has_entry(&entries, "port"));
    assert!(!has_entry(&entries, ""));
    assert!(!has_entry(&Vec::new(), "Port"));
}

#[test]
fn repeated_key_is_found_at_any_depth() {
    let flat = Value::Object(vec![entry("a", whole(1)), entry("b", whole(2)), entry("a", whole(3))]);
    assert!(!keys_distinct(&flat));
    let inside_object = Value::Object(vec![entry("outer", flat.clone())]);
    assert!(!keys_distinct(&inside_object));
    let inside_array = Value::Array(vec![whole(1), flat]);
    assert!(!keys_distinct(&inside_array));
}

#[test]
fn same_key_in_different_objects_is_no_repetition() {
    let value = Value::Object(vec![
        entry("A", Value::Object(vec![entry("Port", whole(1))])),
        entry("B", Value::Object(vec![entry("Port", whole(2))])),
        entry("Port", whole(3)),
    ]);
    assert!(keys_distinct(&value));
    assert!(is_sound(&value));
}

#[test]
fn sound_means_bounded_and_distinct() {
    assert!(is_sound(&nest(MAX_DEPTH)));
    assert!(!is_sound(&nest(MAX_DEPTH + 1)));
    let repeated = Value::Object(vec![entry("a", whole(1)), entry("a", whole(1))]);
    assert!(!is_sound(&repeated));
    assert!(is_sound(&welcome_value()));
    assert_eq!(MAX_DEPTH, 1024);
}

#[test]
fn parsed_values_are_sound() {
    let parsed = parse_value("{\"a\": {\"x\": 1, \"x\": 2}, \"b\": [{\"k\": 1, \"k\": 2}]}").unwrap();
    assert!(is_sound(&parsed));
    let expected = Value::Object(vec![
        entry("a", Value::Object(vec![entry("x", whole(2))])),
        entry("b", Value::Array(vec![Value::Object(vec![entry("k", whole(2))])])),
    ]);
    assert_eq!(parsed, expected);
}

#[test]
fn import_reads_a_parser_value_off_node_by_node() {
    let outside = json::parse("{\"a\": [1, \"two\", null, true], \"b\": {\"c\": -2.5}}").unwrap();
    let expected = Value::Object(vec![
        entry(
            "a",
            Value::Array(vec![
                whole(1),
                Value::String("two".to_string()),
                Value::Null,
                Value::Boolean(true),
            ]),
        ),
        entry(
            "b",
            Value::Object(vec![entry(
                "c",
                Value::Number(Number { positive: false, mantissa: 25, exponent: -1 }),
            )]),
        ),
    ]);
    assert_eq!(import_value(&outside, 2), Some(expected));
    assert_eq!(import_value(&outside, 1), None);
}

#[test]
fn import_of_a_leaf_needs_no_depth() {
    let outside = json::parse("\"leaf\"").unwrap();
    assert_eq!(import_value(&outside, 0), Some(Value::String("leaf".to_string())));
    let container = json::parse("[]").unwrap();
    assert_eq!(import_value(&container, 0), None);
}

#[test]
fn document_is_built_from_the_members_of_an_object() {
    let value = parse_value("{\"B\": 1, \"A\": {\"x\": true}}").unwrap();
    let settings = build_document(Some(&value));
    let keys: Vec<&str> = settings.keys().map(|k| k.as_str()).collect();
    assert_eq!(keys, vec!["Home$", "B", "A"]);
    assert_eq!(settings["Home$"], welcome_value());
    assert_eq!(settings["A"], parse_value("{\"x\": true}").unwrap());
}

#[test]
fn document_of_nothing_is_the_welcome_entry_alone() {
    let settings = build_document(None);
    assert_eq!(settings.len(), 1);
    assert_eq!(settings["Home$"], welcome_value());
    let leaf = whole(5);
    let of_leaf = build_document(Some(&leaf));
    assert_eq!(of_leaf.len(), 1);
}
