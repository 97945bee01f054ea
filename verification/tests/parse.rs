use pico_configurator::{
    fractions_short, parse_value, Entry, Number, Value, MAX_DEPTH, MAX_FRACTION_DIGITS,
};

fn entry(key: &str, value: Value) -> Entry {
    Entry { key: key.to_string(), value }
}

#[test]
fn reads_every_variant() {
    assert_eq!(parse_value("null"), Some(Value::Null));
    assert_eq!(parse_value("true"), Some(Value::Boolean(true)));
    assert_eq!(parse_value("false"), Some(Value::Boolean(false)));
    assert_eq!(parse_value("\"hi\""), Some(Value::String("hi".to_string())));
    assert_eq!(
        parse_value("80"),
        Some(Value::Number(Number { positive: true, mantissa: 80, exponent: 0 }))
    );
    assert_eq!(parse_value("[]"), Some(Value::Array(vec![])));
    assert_eq!(parse_value("{}"), Some(Value::Object(vec![])));
}

#[test]
fn reads_the_parts_of_numbers() {
    assert_eq!(
        parse_value("-1.49"),
        Some(Value::Number(Number { positive: false, mantissa: 149, exponent: -2 }))
    );
    assert_eq!(
        parse_value("1.000"),
        Some(Value::Number(Number { positive: true, mantissa: 1000, exponent: -3 }))
    );
    assert_eq!(
        parse_value("2e3"),
        Some(Value::Number(Number { positive: true, mantissa: 2, exponent: 3 }))
    );
}

#[test]
fn reads_short_and_long_strings_alike() {
    let long = "x".repeat(100);
    let text = format!("[\"short\", \"{}\"]", long);
    assert_eq!(
        parse_value(&text),
        Some(Value::Array(vec![Value::String("short".to_string()), Value::String(long)]))
    );
}

#[test]
fn reads_escapes_into_characters() {
    assert_eq!(parse_value("\"a\\nb\""), Some(Value::String("a\nb".to_string())));
}

#[test]
fn reads_members_in_their_order() {
    let parsed = parse_value("{\"z\": 1, \"a\": {\"m\": [true, null], \"b\": \"t\"}, \"k\": false}");
    let one = Value::Number(Number { positive: true, mantissa: 1, exponent: 0 });
    let expected = Value::Object(vec![
        entry("z", one),
        entry(
            "a",
            Value::Object(vec![
                entry("m", Value::Array(vec![Value::Boolean(true), Value::Null])),
                entry("b", Value::String("t".to_string())),
            ]),
        ),
        entry("k", Value::Boolean(false)),
    ]);
    assert_eq!(parsed, Some(expected));
}

#[test]
fn refuses_what_is_not_json() {
    assert_eq!(parse_value(""), None);
    assert_eq!(parse_value("{"), None);
    assert_eq!(parse_value("{\"a\": }"), None);
    assert_eq!(parse_value("{\"a\": 1} trailing"), None);
}

#[test]
fn refuses_nesting_past_the_limit() {
    let deep = "[".repeat(MAX_DEPTH + 1) + &"]".repeat(MAX_DEPTH + 1);
    assert_eq!(parse_value(&deep), None);
}

#[test]
fn reads_moderate_nesting() {
    let nested = "[".repeat(40) + &"]".repeat(40);
    let mut expected = Value::Array(vec![]);
    for _ in 1..40 {
        expected = Value::Array(vec![expected]);
    }
    assert_eq!(parse_value(&nested), Some(expected));
}

#[test]
fn fractions_up_to_the_limit_are_short() {
    assert_eq!(MAX_FRACTION_DIGITS, 32768);
    assert!(fractions_short(""));
    assert!(fractions_short("no digit at all"));
    assert!(fractions_short("."));
    assert!(fractions_short(&(".".to_string() + &"7".repeat(MAX_FRACTION_DIGITS))));
    assert!(!fractions_short(&(".".to_string() + &"7".repeat(MAX_FRACTION_DIGITS + 1))));
    let late = "x1.5, ".repeat(10) + "0." + &"0123456789".repeat(3277);
    assert!(!fractions_short(&late));
}

#[test]
fn digits_that_follow_no_point_are_not_counted() {
    assert!(fractions_short(&"7".repeat(MAX_FRACTION_DIGITS + 1)));
    let spaced = ". ".to_string() + &"7".repeat(MAX_FRACTION_DIGITS + 1);
    assert!(fractions_short(&spaced));
    let two = "1.".to_string() + &"2".repeat(MAX_FRACTION_DIGITS) + "e" + &"3".repeat(40000);
    assert!(fractions_short(&two));
}

#[test]
fn other_characters_end_a_fraction() {
    let with_letter =
        ".".to_string() + &"9".repeat(MAX_FRACTION_DIGITS) + "a" + &"9".repeat(MAX_FRACTION_DIGITS);
    assert!(fractions_short(&with_letter));
    let with_wide_characters =
        ".".to_string() + &"9".repeat(MAX_FRACTION_DIGITS) + "\u{e9}\u{4e2d}" + &"9".repeat(5);
    assert!(fractions_short(&with_wide_characters));
    let wide_then_long = "\u{1f600}.".to_string() + &"4".repeat(MAX_FRACTION_DIGITS + 1);
    assert!(!fractions_short(&wide_then_long));
    let second_point = ".1.".to_string() + &"4".repeat(MAX_FRACTION_DIGITS + 1);
    assert!(!fractions_short(&second_point));
}

#[test]
fn fraction_of_as_many_digits_as_the_exponent_can_count_is_read() {
    let text = "0.".to_string() + &"0".repeat(MAX_FRACTION_DIGITS);
    assert_eq!(
        parse_value(&text),
        Some(Value::Number(Number { positive: true, mantissa: 0, exponent: i16::MIN }))
    );
    let text = "0.".to_string() + &"0".repeat(MAX_FRACTION_DIGITS - 1) + "1";
    assert_eq!(
        parse_value(&text),
        Some(Value::Number(Number { positive: true, mantissa: 1, exponent: i16::MIN }))
    );
    let negative = "-12.".to_string() + &"0".repeat(MAX_FRACTION_DIGITS) + "e5";
    assert_eq!(
        parse_value(&negative),
        Some(Value::Number(Number {
            positive: false,
            mantissa: 12000000000000000000,
            exponent: -13
        }))
    );
}

#[test]
fn fraction_of_one_digit_more_is_refused() {
    let text = "0.".to_string() + &"0".repeat(MAX_FRACTION_DIGITS + 1);
    assert_eq!(parse_value(&text), None);
    let inside = "{\"a\": [1, 0.".to_string() + &"0".repeat(MAX_FRACTION_DIGITS + 1) + "]}";
    assert_eq!(parse_value(&inside), None);
    let after_many = "1".repeat(30) + "." + &"0".repeat(MAX_FRACTION_DIGITS + 1);
    assert_eq!(parse_value(&after_many), None);
}

#[test]
fn long_runs_of_digits_elsewhere_go_to_the_parser() {
    let string = "\"".to_string() + &"1".repeat(MAX_FRACTION_DIGITS + 1) + "\"";
    assert_eq!(parse_value(&string), Some(Value::String("1".repeat(MAX_FRACTION_DIGITS + 1))));
    let integer = "9".repeat(30);
    assert_eq!(
        parse_value(&integer),
        Some(Value::Number(Number { positive: true, mantissa: 9999999999999999999, exponent: 11 }))
    );
    let beyond_every_exponent = "9".repeat(40000);
    assert_eq!(parse_value(&beyond_every_exponent), None);
    let exponent = "1e".to_string() + &"9".repeat(40000);
    assert_eq!(
        parse_value(&exponent),
        Some(Value::Number(Number { positive: true, mantissa: 1, exponent: i16::MAX }))
    );
}

#[test]
fn point_inside_a_string_counts_too() {
    let string = "\"v1.".to_string() + &"0".repeat(MAX_FRACTION_DIGITS + 1) + "\"";
    assert_eq!(parse_value(&string), None);
    let string = "\"v1.".to_string() + &"0".repeat(MAX_FRACTION_DIGITS) + "\"";
    assert!(parse_value(&string).is_some());
}
