use indexmap::IndexMap;
use pico_configurator::{
    load_changes, parse_value, save_text, saved_document, welcome_value, Entry, Number, Value,
};

fn keys(settings: &IndexMap<String, Value>) -> Vec<String> {
    settings.keys().cloned().collect()
}

fn whole(n: u64) -> Value {
    Value::Number(Number { positive: true, mantissa: n, exponent: 0 })
}

fn loaded(text: &str) -> IndexMap<String, Value> {
    let mut settings = IndexMap::new();
    let mut backup = None;
    assert!(load_changes(Some(text), &mut settings, &mut backup));
    settings
}

#[test]
fn welcome_entry_holds_the_greeting() {
    let expected = Value::Object(vec![Entry {
        key: "Welcome!".to_string(),
        value: Value::String(
            "Thank for downloading my simple project. \nfeel free to mess around!".to_string(),
        ),
    }]);
    assert_eq!(welcome_value(), expected);
}

#[test]
fn load_puts_the_welcome_entry_first() {
    let settings = loaded("{\"Network\": {\"Port\": 80}, \"Audio$\": {\"On\": true}}");
    assert_eq!(keys(&settings), vec!["Home$", "Network", "Audio$"]);
    assert_eq!(settings.get_index(0).unwrap().1, &welcome_value());
    assert_eq!(settings["Network"], parse_value("{\"Port\": 80}").unwrap());
}

#[test]
fn load_takes_the_text_as_snapshot() {
    let mut settings = IndexMap::new();
    let mut backup = Some("older".to_string());
    let text = "{ \"Network\" : {\"Port\":80} }";
    assert!(load_changes(Some(text), &mut settings, &mut backup));
    assert_eq!(backup, Some(text.to_string()));
}

#[test]
fn load_replaces_what_was_in_memory() {
    let mut settings = loaded("{\"Old\": 1, \"Network\": 2}");
    let mut backup = None;
    assert!(load_changes(Some("{\"Network\": 3}"), &mut settings, &mut backup));
    assert_eq!(keys(&settings), vec!["Home$", "Network"]);
    assert_eq!(settings["Network"], whole(3));
}

#[test]
fn missing_file_leaves_the_welcome_entry_alone_and_the_snapshot_as_it_was() {
    let mut settings = loaded("{\"Network\": {\"Port\": 80}}");
    let mut backup = Some("kept".to_string());
    assert!(!load_changes(None, &mut settings, &mut backup));
    assert_eq!(keys(&settings), vec!["Home$"]);
    assert_eq!(settings["Home$"], welcome_value());
    assert_eq!(backup, Some("kept".to_string()));
}

#[test]
fn malformed_text_is_a_failed_load() {
    let mut settings = IndexMap::new();
    let mut backup = None;
    assert!(!load_changes(Some("{\"Network\": "), &mut settings, &mut backup));
    assert_eq!(keys(&settings), vec!["Home$"]);
    assert_eq!(backup, None);
}

#[test]
fn text_that_is_no_object_loads_as_an_empty_document() {
    let mut settings = IndexMap::new();
    let mut backup = None;
    assert!(load_changes(Some("[1, 2]"), &mut settings, &mut backup));
    assert_eq!(keys(&settings), vec!["Home$"]);
    assert_eq!(backup, Some("[1, 2]".to_string()));
}

#[test]
fn entry_of_the_file_under_the_welcome_key_gives_way() {
    let settings = loaded("{\"A\": 1, \"Home$\": {\"Mine\": true}, \"B\": 2}");
    assert_eq!(keys(&settings), vec!["Home$", "A", "B"]);
    assert_eq!(settings["Home$"], welcome_value());
}

#[test]
fn key_that_comes_again_keeps_its_first_place_and_its_last_value() {
    let settings = loaded("{\"A\": 1, \"B\": 2, \"A\": 3}");
    assert_eq!(keys(&settings), vec!["Home$", "A", "B"]);
    assert_eq!(settings["A"], whole(3));
}

#[test]
fn save_leaves_the_welcome_entry_out() {
    let settings = loaded("{\"Network\": {\"Port\": 80}, \"On\": true}");
    let document = saved_document(&settings);
    assert_eq!(document, parse_value("{\"Network\": {\"Port\": 80}, \"On\": true}").unwrap());
    let text = save_text(&settings);
    assert_eq!(text, "{\n  \"Network\": {\n    \"Port\": 80\n  },\n  \"On\": true\n}");
    assert!(!text.contains("Home$"));
    assert!(!text.contains("Welcome!"));
}

#[test]
fn save_does_not_change_the_document_in_memory() {
    let settings = loaded("{\"Network\": {\"Port\": 80}}");
    let before = settings.clone();
    save_text(&settings);
    assert_eq!(settings, before);
}

#[test]
fn save_of_a_failed_load_writes_an_empty_object() {
    let mut settings = IndexMap::new();
    let mut backup = None;
    load_changes(None, &mut settings, &mut backup);
    assert_eq!(save_text(&settings), "{\n\n}");
}

#[test]
fn saved_text_loads_to_the_same_document() {
    let settings = loaded("{\"Video\": {\"Bitrate\": 100, \"Codec\": \"hevc\"}, \"Flag$\": false}");
    let again = loaded(&save_text(&settings));
    assert_eq!(again, settings);
}

#[test]
fn text_with_too_long_a_fraction_is_a_failed_load() {
    let mut settings = loaded("{\"Network\": {\"Port\": 80}}");
    let mut backup = Some("kept".to_string());
    let text = "{\"Ratio\": 0.".to_string() + &"0".repeat(32769) + "}";
    assert!(!load_changes(Some(&text), &mut settings, &mut backup));
    assert_eq!(keys(&settings), vec!["Home$"]);
    assert_eq!(backup, Some("kept".to_string()));
}
