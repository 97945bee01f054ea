use pico_configurator::{accept, parse_value, reconcile, Entry, Number, Value};
use std::cell::RefCell;

fn whole(n: u64) -> Value {
    Value::Number(Number { positive: true, mantissa: n, exponent: 0 })
}

fn text(s: &str) -> Value {
    Value::String(s.to_string())
}

fn entry(key: &str, value: Value) -> Entry {
    Entry { key: key.to_string(), value }
}

fn members(source: &str) -> Vec<Entry> {
    match parse_value(source) {
        Some(Value::Object(entries)) => entries,
        other => panic!("not an object: {:?}", other),
    }
}

fn sample() -> Vec<Entry> {
    members(
        "{\"Port\": 80, \"Host\": \"pico\", \"Tls\": {\"On\": true, \"Cert\": {\"Path\": \"c.pem\", \"Depth\": 3}}, \"Tags\": [1, 2], \"None\": null, \"Last\": false}",
    )
}

fn identity(_path: &Vec<String>, _key: &str, value: &Value, _stripe: bool) -> Value {
    value.clone()
}

#[test]
fn identity_visitor_returns_the_document() {
    let doc = sample();
    let mut stripe = true;
    let rebuilt = reconcile(&doc, &vec!["Network".to_string()], &mut stripe, &identity);
    assert_eq!(rebuilt, doc);
}

#[test]
fn identity_visitor_keeps_key_order_at_every_level() {
    let doc = members("{\"z\": {\"y\": 1, \"x\": {\"w\": 2, \"a\": 3}}, \"b\": 4, \"a\": 5}");
    let mut stripe = false;
    let rebuilt = reconcile(&doc, &Vec::new(), &mut stripe, &identity);
    let keys: Vec<&str> = rebuilt.iter().map(|e| e.key.as_str()).collect();
    assert_eq!(keys, vec!["z", "b", "a"]);
    match &rebuilt[0].value {
        Value::Object(inner) => {
            let keys: Vec<&str> = inner.iter().map(|e| e.key.as_str()).collect();
            assert_eq!(keys, vec!["y", "x"]);
            match &inner[1].value {
                Value::Object(innermost) => {
                    let keys: Vec<&str> = innermost.iter().map(|e| e.key.as_str()).collect();
                    assert_eq!(keys, vec!["w", "a"]);
                },
                other => panic!("not an object: {:?}", other),
            }
        },
        other => panic!("not an object: {:?}", other),
    }
}

#[test]
fn empty_document_is_rebuilt_empty_without_a_call() {
    let calls = RefCell::new(0);
    let visitor = |_: &Vec<String>, _: &str, value: &Value, _: bool| {
        *calls.borrow_mut() += 1;
        value.clone()
    };
    let mut stripe = true;
    let rebuilt = reconcile(&Vec::new(), &Vec::new(), &mut stripe, &visitor);
    assert_eq!(rebuilt, Vec::new());
    assert_eq!(*calls.borrow(), 0);
    assert!(stripe);
}

#[test]
fn visitor_sees_every_leaf_once_depth_first_with_its_path() {
    let doc = sample();
    let seen: RefCell<Vec<(Vec<String>, String)>> = RefCell::new(Vec::new());
    let visitor = |path: &Vec<String>, key: &str, value: &Value, _: bool| {
        seen.borrow_mut().push((path.clone(), key.to_string()));
        value.clone()
    };
    let mut stripe = true;
    reconcile(&doc, &vec!["Network".to_string()], &mut stripe, &visitor);
    let path = |keys: &[&str]| keys.iter().map(|k| k.to_string()).collect::<Vec<String>>();
    let expected = vec![
        (path(&["Network"]), "Port".to_string()),
        (path(&["Network"]), "Host".to_string()),
        (path(&["Network", "Tls"]), "On".to_string()),
        (path(&["Network", "Tls", "Cert"]), "Path".to_string()),
        (path(&["Network", "Tls", "Cert"]), "Depth".to_string()),
        (path(&["Network"]), "Tags".to_string()),
        (path(&["Network"]), "None".to_string()),
        (path(&["Network"]), "Last".to_string()),
    ];
    assert_eq!(*seen.borrow(), expected);
}

#[test]
fn visitor_is_not_called_for_objects() {
    let doc = members("{\"Outer\": {\"Inner\": {}}}");
    let calls = RefCell::new(0);
    let visitor = |_: &Vec<String>, _: &str, value: &Value, _: bool| {
        *calls.borrow_mut() += 1;
        value.clone()
    };
    let mut stripe = true;
    let rebuilt = reconcile(&doc, &Vec::new(), &mut stripe, &visitor);
    assert_eq!(*calls.borrow(), 0);
    assert_eq!(rebuilt, doc);
    assert!(stripe);
}

#[test]
fn stripe_flips_once_per_leaf_row_across_nesting() {
    let doc = sample();
    let stripes: RefCell<Vec<bool>> = RefCell::new(Vec::new());
    let visitor = |_: &Vec<String>, _: &str, value: &Value, stripe: bool| {
        stripes.borrow_mut().push(stripe);
        value.clone()
    };
    let mut stripe = true;
    reconcile(&doc, &Vec::new(), &mut stripe, &visitor);
    assert_eq!(*stripes.borrow(), vec![false, true, false, true, false, true, false, true]);
    assert!(stripe);
}

#[test]
fn stripe_after_an_odd_number_of_rows_is_flipped() {
    let doc = members("{\"a\": 1, \"b\": {\"c\": 2}, \"d\": 3}");
    let mut stripe = true;
    reconcile(&doc, &Vec::new(), &mut stripe, &identity);
    assert!(!stripe);
    reconcile(&doc, &Vec::new(), &mut stripe, &identity);
    assert!(stripe);
}

#[test]
fn replacement_lands_at_its_leaf_and_nowhere_else() {
    let doc = sample();
    let visitor = |path: &Vec<String>, key: &str, value: &Value, _: bool| {
        if path.len() == 3 && path[2] == "Cert" && key == "Depth" {
            whole(9)
        } else {
            value.clone()
        }
    };
    let mut stripe = true;
    let rebuilt = reconcile(&doc, &vec!["Network".to_string()], &mut stripe, &visitor);
    let expected = members(
        "{\"Port\": 80, \"Host\": \"pico\", \"Tls\": {\"On\": true, \"Cert\": {\"Path\": \"c.pem\", \"Depth\": 9}}, \"Tags\": [1, 2], \"None\": null, \"Last\": false}",
    );
    assert_eq!(rebuilt, expected);
}

#[test]
fn same_key_on_another_path_is_left_alone() {
    let doc = members("{\"A\": {\"Port\": 1}, \"B\": {\"Port\": 2}}");
    let visitor = |path: &Vec<String>, key: &str, value: &Value, _: bool| {
        if path.last().map(|k| k.as_str()) == Some("B") && key == "Port" {
            whole(200)
        } else {
            value.clone()
        }
    };
    let mut stripe = true;
    let rebuilt = reconcile(&doc, &Vec::new(), &mut stripe, &visitor);
    assert_eq!(rebuilt, members("{\"A\": {\"Port\": 1}, \"B\": {\"Port\": 200}}"));
}

#[test]
fn answer_of_another_variant_is_refused() {
    let doc = members("{\"Port\": 80, \"Host\": \"pico\", \"On\": true}");
    let visitor = |_: &Vec<String>, key: &str, _: &Value, _: bool| match key {
        "Port" => text("eighty"),
        "Host" => Value::Boolean(false),
        _ => Value::Null,
    };
    let mut stripe = true;
    let rebuilt = reconcile(&doc, &Vec::new(), &mut stripe, &visitor);
    assert_eq!(rebuilt, doc);
}

#[test]
fn null_and_arrays_pass_through_whatever_the_answer() {
    let doc = members("{\"Tags\": [1, 2], \"None\": null}");
    let visitor = |_: &Vec<String>, key: &str, _: &Value, _: bool| match key {
        "Tags" => Value::Array(vec![whole(7)]),
        _ => Value::Null,
    };
    let mut stripe = true;
    let rebuilt = reconcile(&doc, &Vec::new(), &mut stripe, &visitor);
    assert_eq!(rebuilt, doc);
    let wipe = |_: &Vec<String>, _: &str, _: &Value, _: bool| Value::Object(vec![]);
    assert_eq!(reconcile(&doc, &Vec::new(), &mut stripe, &wipe), doc);
}

#[test]
fn every_editable_variant_takes_an_answer_of_its_own_variant() {
    let doc = members("{\"Port\": 80, \"Host\": \"pico\", \"On\": true}");
    let visitor = |_: &Vec<String>, _: &str, value: &Value, _: bool| match value {
        Value::Number(_) => whole(443),
        Value::String(_) => text("quest"),
        Value::Boolean(b) => Value::Boolean(!b),
        other => other.clone(),
    };
    let mut stripe = true;
    let rebuilt = reconcile(&doc, &Vec::new(), &mut stripe, &visitor);
    assert_eq!(rebuilt, members("{\"Port\": 443, \"Host\": \"quest\", \"On\": false}"));
}

#[test]
fn number_out_of_the_slider_range_is_kept_until_touched() {
    let doc = members("{\"Big\": 100000, \"Minus\": -3, \"Half\": 0.5}");
    let mut stripe = true;
    assert_eq!(reconcile(&doc, &Vec::new(), &mut stripe, &identity), doc);
}

#[test]
fn accept_keeps_the_leaf_against_another_variant() {
    assert_eq!(accept(&whole(1), whole(2)), whole(2));
    assert_eq!(accept(&whole(1), text("2")), whole(1));
    assert_eq!(accept(&text("a"), text("b")), text("b"));
    assert_eq!(accept(&Value::Boolean(true), Value::Boolean(false)), Value::Boolean(false));
    assert_eq!(accept(&Value::Null, Value::Null), Value::Null);
    assert_eq!(accept(&Value::Null, whole(2)), Value::Null);
    let list = Value::Array(vec![whole(1)]);
    assert_eq!(accept(&list, Value::Array(vec![])), list);
    let nested = Value::Object(vec![entry("a", whole(1))]);
    assert_eq!(accept(&nested, Value::Object(vec![])), nested);
}

#[test]
fn deep_copy_equals_the_value() {
    let doc = Value::Object(sample());
    assert_eq!(doc.deep_copy(), doc);
    assert_eq!(doc.clone(), doc);
}
