use pico_configurator::{parse_value, pretty_json, Entry, Number, Value};

fn whole(n: u64) -> Value {
    Value::Number(Number { positive: true, mantissa: n, exponent: 0 })
}

fn text(s: &str) -> Value {
    Value::String(s.to_string())
}

fn entry(key: &str, value: Value) -> Entry {
    Entry { key: key.to_string(), value }
}

fn object(entries: Vec<Entry>) -> Value {
    Value::Object(entries)
}

#[test]
fn prints_null_and_booleans() {
    assert_eq!(pretty_json(&Value::Null, 0), "null");
    assert_eq!(pretty_json(&Value::Boolean(true), 0), "true");
    assert_eq!(pretty_json(&Value::Boolean(false), 7), "false");
}

#[test]
fn prints_strings_quoted_and_unescaped() {
    assert_eq!(pretty_json(&text("pico"), 0), "\"pico\"");
    assert_eq!(pretty_json(&text(""), 0), "\"\"");
    assert_eq!(pretty_json(&text("a\"b\\c"), 0), "\"a\"b\\c\"");
}

#[test]
fn prints_integers_as_decimal_numerals() {
    assert_eq!(pretty_json(&whole(0), 0), "0");
    assert_eq!(pretty_json(&whole(443), 0), "443");
    assert_eq!(pretty_json(&whole(u64::MAX), 0), "18446744073709551615");
    let minus = Value::Number(Number { positive: false, mantissa: 12, exponent: 0 });
    assert_eq!(pretty_json(&minus, 0), "-12");
}

#[test]
fn prints_fractions_and_exponents() {
    let fraction = Value::Number(Number { positive: true, mantissa: 15, exponent: -1 });
    assert_eq!(pretty_json(&fraction, 0), "1.5");
    let small = Value::Number(Number { positive: false, mantissa: 149, exponent: -2 });
    assert_eq!(pretty_json(&small, 0), "-1.49");
    let round = Value::Number(Number { positive: true, mantissa: 3, exponent: 2 });
    assert_eq!(pretty_json(&round, 0), "300");
    let large = Value::Number(Number { positive: true, mantissa: 1, exponent: 30 });
    assert_eq!(pretty_json(&large, 0), "1e30");
}

#[test]
fn prints_a_fraction_without_its_trailing_zeros() {
    let padded = Value::Number(Number { positive: true, mantissa: 1000, exponent: -3 });
    assert_eq!(pretty_json(&padded, 0), "1");
    let half = Value::Number(Number { positive: true, mantissa: 250, exponent: -2 });
    assert_eq!(pretty_json(&half, 0), "2.5");
}

#[test]
fn prints_an_empty_object_on_three_lines() {
    assert_eq!(pretty_json(&object(vec![]), 2), "{\n\n}");
    assert_eq!(pretty_json(&Value::Array(vec![]), 4), "[\n\n  ]");
}

#[test]
fn prints_members_in_order_with_two_blanks_per_level() {
    let doc = object(vec![
        entry("Network", object(vec![entry("Port", whole(443)), entry("Host", text("pico"))])),
        entry("Enabled", Value::Boolean(true)),
        entry("Nothing", Value::Null),
    ]);
    let expected = "{\n  \"Network\": {\n    \"Port\": 443,\n    \"Host\": \"pico\"\n  },\n  \"Enabled\": true,\n  \"Nothing\": null\n}";
    assert_eq!(pretty_json(&doc, 2), expected);
}

#[test]
fn prints_arrays_one_item_per_line() {
    let doc = object(vec![entry("List", Value::Array(vec![whole(1), text("two"), Value::Array(vec![Value::Null])]))]);
    let expected = "{\n  \"List\": [\n    1,\n    \"two\",\n    [\n      null\n    ]\n  ]\n}";
    assert_eq!(pretty_json(&doc, 2), expected);
}

#[test]
fn closing_bracket_stands_two_blanks_left_of_the_members() {
    let doc = object(vec![entry("a", whole(1))]);
    assert_eq!(pretty_json(&doc, 6), "{\n      \"a\": 1\n    }");
}

#[test]
fn nested_port_is_printed_four_blanks_deep() {
    let doc = object(vec![entry("Network", object(vec![entry("Port", whole(443))]))]);
    assert_eq!(pretty_json(&doc, 2), "{\n  \"Network\": {\n    \"Port\": 443\n  }\n}");
}

#[test]
fn parsing_the_printed_text_gives_the_document_back() {
    let doc = object(vec![
        entry("Video", object(vec![
            entry("Bitrate", whole(100)),
            entry("Codec", text("hevc")),
            entry("Nested", object(vec![entry("Deep", Value::Boolean(false))])),
        ])),
        entry("Empty", object(vec![])),
        entry("Ratio", Value::Number(Number { positive: true, mantissa: 15, exponent: -1 })),
        entry("Below", Value::Number(Number { positive: false, mantissa: 7, exponent: 0 })),
        entry("List", Value::Array(vec![whole(1), Value::Null, text("x")])),
        entry("Nothing", Value::Null),
    ]);
    let printed = pretty_json(&doc, 2);
    assert_eq!(parse_value(&printed), Some(doc));
}

#[test]
fn printing_the_parsed_text_gives_the_text_back() {
    let printed = "{\n  \"Audio\": {\n    \"Volume\": 80,\n    \"Muted\": false\n  },\n  \"Name\": \"pico\"\n}";
    let doc = parse_value(printed).unwrap();
    assert_eq!(pretty_json(&doc, 2), printed);
}

#[test]
fn a_quote_inside_a_string_does_not_survive_the_round_trip() {
    let doc = object(vec![entry("Name", text("a\"b"))]);
    let printed = pretty_json(&doc, 2);
    assert_eq!(printed, "{\n  \"Name\": \"a\"b\"\n}");
    assert_eq!(parse_value(&printed), None);
}

#[test]
fn another_parser_reads_the_printed_text() {
    let doc = object(vec![
        entry("Network", object(vec![entry("Port", whole(443)), entry("Host", text("pico"))])),
        entry("Flags", Value::Array(vec![Value::Boolean(true), Value::Null])),
    ]);
    let read: serde_json::Value = serde_json::from_str(&pretty_json(&doc, 2)).unwrap();
    assert_eq!(read["Network"]["Port"].as_u64(), Some(443));
    assert_eq!(read["Network"]["Host"].as_str(), Some("pico"));
    assert_eq!(read["Flags"][0].as_bool(), Some(true));
    assert!(read["Flags"][1].is_null());
    assert_eq!(read.as_object().unwrap().len(), 2);
}

#[test]
fn prints_numbers_with_the_smallest_exponent() {
    let nothing = Value::Number(Number { positive: true, mantissa: 0, exponent: i16::MIN });
    assert_eq!(pretty_json(&nothing, 0), "0");
    let tiny = Value::Number(Number { positive: true, mantissa: 1, exponent: i16::MIN });
    assert_eq!(pretty_json(&tiny, 0), "1e-32768");
    let huge = Value::Number(Number { positive: false, mantissa: u64::MAX, exponent: i16::MAX });
    assert_eq!(pretty_json(&huge, 0), "-1.8446744073709551615e32786");
}
