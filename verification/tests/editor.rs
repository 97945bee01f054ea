use pico_configurator::{
    apply_edit, clamp_position, editor_for, number_from, path_label, position_of, Edit,
    EditError, Editor, Entry, Kind, Number, Value, SLIDER_MAX,
};

fn number(positive: bool, mantissa: u64, exponent: i16) -> Number {
    Number { positive, mantissa, exponent }
}

fn whole(n: u64) -> Value {
    Value::Number(number(true, n, 0))
}

#[test]
fn each_variant_gets_its_editor() {
    assert_eq!(editor_for(&Value::String("pico".to_string())), Editor::Text("pico".to_string()));
    assert_eq!(editor_for(&Value::Boolean(true)), Editor::Checkbox(true));
    assert_eq!(editor_for(&whole(80)), Editor::Slider(80));
    assert_eq!(editor_for(&Value::Null), Editor::Unsupported);
    assert_eq!(editor_for(&Value::Array(vec![whole(1)])), Editor::Unsupported);
    assert_eq!(editor_for(&Value::Object(vec![])), Editor::Unsupported);
}

#[test]
fn slider_shows_integers_inside_its_range_as_they_are() {
    assert_eq!(position_of(&number(true, 0, 0)), 0);
    assert_eq!(position_of(&number(true, 80, 0)), 80);
    assert_eq!(position_of(&number(true, 200, 0)), 200);
}

#[test]
fn slider_stops_at_its_ends() {
    assert_eq!(SLIDER_MAX, 200);
    assert_eq!(position_of(&number(true, 201, 0)), 200);
    assert_eq!(position_of(&number(true, 100000, 0)), 200);
    assert_eq!(position_of(&number(false, 1, 0)), 0);
    assert_eq!(position_of(&number(false, 300, 0)), 0);
}

#[test]
fn slider_reads_fractions_at_zero_decimal_places() {
    assert_eq!(position_of(&number(true, 19, -1)), 1);
    assert_eq!(position_of(&number(true, 5, -1)), 0);
    assert_eq!(position_of(&number(true, 12345, -2)), 123);
    assert_eq!(position_of(&number(true, 2, 1)), 20);
    assert_eq!(position_of(&number(true, 2, 3)), 200);
}

#[test]
fn slider_stands_at_zero_for_numbers_that_cannot_be_read() {
    assert_eq!(position_of(&number(true, 7, i16::MIN)), 0);
    assert_eq!(position_of(&number(false, 1 << 63, 0)), 0);
    assert_eq!(position_of(&number(false, 1 << 63, 5)), 0);
}

#[test]
fn clamp_position_keeps_to_the_range() {
    assert_eq!(clamp_position(None), 0);
    assert_eq!(clamp_position(Some(-1)), 0);
    assert_eq!(clamp_position(Some(0)), 0);
    assert_eq!(clamp_position(Some(137)), 137);
    assert_eq!(clamp_position(Some(200)), 200);
    assert_eq!(clamp_position(Some(201)), 200);
    assert_eq!(clamp_position(Some(i64::MAX)), 200);
    assert_eq!(clamp_position(Some(i64::MIN)), 0);
}

#[test]
fn edits_replace_the_payload_of_their_own_variant() {
    assert_eq!(
        apply_edit(&Value::String("old".to_string()), Edit::Text("new".to_string())),
        Ok(Value::String("new".to_string()))
    );
    assert_eq!(apply_edit(&Value::Boolean(false), Edit::Toggle(true)), Ok(Value::Boolean(true)));
    assert_eq!(apply_edit(&whole(80), Edit::Slide(200)), Ok(whole(200)));
    assert_eq!(apply_edit(&whole(80), Edit::Slide(0)), Ok(whole(0)));
}

#[test]
fn slider_edit_overwrites_a_stored_fraction_with_an_integer() {
    let stored = Value::Number(number(false, 15, -1));
    assert_eq!(apply_edit(&stored, Edit::Slide(7)), Ok(whole(7)));
}

#[test]
fn edit_of_another_variant_is_a_type_mismatch() {
    assert_eq!(apply_edit(&whole(80), Edit::Text("80".to_string())), Err(EditError::TypeMismatch));
    assert_eq!(apply_edit(&whole(80), Edit::Toggle(true)), Err(EditError::TypeMismatch));
    assert_eq!(
        apply_edit(&Value::String("a".to_string()), Edit::Slide(1)),
        Err(EditError::TypeMismatch)
    );
    assert_eq!(apply_edit(&Value::Boolean(true), Edit::Slide(1)), Err(EditError::TypeMismatch));
}

#[test]
fn leaves_without_an_editor_refuse_every_edit() {
    assert_eq!(apply_edit(&Value::Null, Edit::Toggle(true)), Err(EditError::TypeMismatch));
    assert_eq!(apply_edit(&Value::Array(vec![]), Edit::Slide(1)), Err(EditError::TypeMismatch));
    assert_eq!(
        apply_edit(&Value::Object(vec![]), Edit::Text("x".to_string())),
        Err(EditError::TypeMismatch)
    );
}

#[test]
fn slider_edit_stores_the_position_as_it_is_given() {
    assert_eq!(apply_edit(&whole(80), Edit::Slide(443)), Ok(whole(443)));
    assert_eq!(
        apply_edit(&whole(80), Edit::Slide(-1)),
        Ok(Value::Number(number(false, 1, 0)))
    );
}

#[test]
fn integers_become_sign_and_magnitude() {
    assert_eq!(number_from(0), number(true, 0, 0));
    assert_eq!(number_from(200), number(true, 200, 0));
    assert_eq!(number_from(-7), number(false, 7, 0));
    assert_eq!(number_from(i64::MAX), number(true, i64::MAX as u64, 0));
    assert_eq!(number_from(i64::MIN), number(false, 1 << 63, 0));
}

#[test]
fn an_accepted_edit_keeps_the_variant() {
    let leaves = vec![Value::String("a".to_string()), Value::Boolean(true), whole(3)];
    for leaf in leaves {
        let edit = match leaf.kind() {
            Kind::String => Edit::Text("b".to_string()),
            Kind::Boolean => Edit::Toggle(false),
            _ => Edit::Slide(4),
        };
        assert_eq!(apply_edit(&leaf, edit).unwrap().kind(), leaf.kind());
    }
}

#[test]
fn kind_names_the_variant() {
    assert_eq!(Value::Null.kind(), Kind::Null);
    assert_eq!(Value::Boolean(true).kind(), Kind::Boolean);
    assert_eq!(whole(1).kind(), Kind::Number);
    assert_eq!(Value::String(String::new()).kind(), Kind::String);
    assert_eq!(Value::Array(vec![]).kind(), Kind::Array);
    let object = Value::Object(vec![Entry { key: "k".to_string(), value: Value::Null }]);
    assert_eq!(object.kind(), Kind::Object);
}

#[test]
fn label_joins_the_path_and_the_key() {
    assert_eq!(path_label(&vec!["Network".to_string()], "Port"), "Network / Port");
    assert_eq!(
        path_label(&vec!["Network".to_string(), "Tls".to_string(), "Cert".to_string()], "Depth"),
        "Network / Tls / Cert / Depth"
    );
    assert_eq!(path_label(&Vec::new(), "Port"), "Port");
}
