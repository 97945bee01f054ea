//! Reading a document from text: the parser's value is read off node by node
//! into the library's own values, down to a bounded depth and with every key
//! once in its object.

use vstd::prelude::*;
use vstd::string::*;
use crate::json_backend::{
    fraction_run,
    fractions_fit,
    outside_bool,
    outside_item,
    outside_kind,
    outside_len,
    outside_member,
    outside_number,
    outside_str,
    outside_tree,
    parse_text,
    parsed,
    MAX_FRACTION_DIGITS,
};
use crate::sound::{has_entry, sound, well_keyed, within, MAX_DEPTH};
use crate::value::{
    doc_view,
    items_view,
    lemma_array_view,
    lemma_object_view,
    Entry,
    Json,
    Kind,
    Number,
    Value,
};

verus! {

/// The value that a value of the `json` crate stands for: the same variants,
/// payloads and children, read off one by one. There is none for a value
/// that is nested more than `depth` deep, or in which an object has a key
/// twice.
pub fn import_value(v: &json::JsonValue, depth: usize) -> (r: Option<Value>)
    ensures
        r is Some <==> within(outside_tree(*v), depth as nat) && well_keyed(outside_tree(*v)),
        r matches Some(value) ==> value@ == outside_tree(*v),
    decreases depth,
{
    match outside_kind(v) {
        Kind::Null => Some(Value::Null),
        Kind::Boolean => match outside_bool(v) {
            Some(b) => Some(Value::Boolean(b)),
            None => None,
        },
        Kind::Number => match outside_number(v) {
            Some((positive, mantissa, exponent)) => Some(
                Value::Number(Number { positive, mantissa, exponent }),
            ),
            None => None,
        },
        Kind::String => match outside_str(v) {
            Some(s) => Some(Value::String(String::from_str(s))),
            None => None,
        },
        Kind::Array => {
            if depth == 0 {
                return None;
            }
            let ghost items = outside_tree(*v)->Array_0;
            let n = outside_len(v);
            let mut out: Vec<Value> = Vec::new();
            let mut i: usize = 0;
            while i < n
                invariant
                    outside_tree(*v) == Json::Array(items),
                    n == items.len(),
                    depth > 0,
                    i <= n,
                    out@.len() == i,
                    forall|j: int| 0 <= j < i ==> (#[trigger] out@[j])@ == items[j],
                    forall|j: int|
                        0 <= j < i ==> within(#[trigger] items[j], (depth - 1) as nat)
                            && well_keyed(items[j]),
                decreases n - i,
            {
                match outside_item(v, i) {
                    Some(item) => match import_value(item, depth - 1) {
                        Some(value) => {
                            out.push(value);
                        },
                        None => {
                            return None;
                        },
                    },
                    None => {
                        return None;
                    },
                }
                i += 1;
            }
            proof {
                lemma_array_view(out);
                assert(items_view(out@) =~= items);
            }
            Some(Value::Array(out))
        },
        Kind::Object => {
            if depth == 0 {
                return None;
            }
            let ghost members = outside_tree(*v)->Object_0;
            let n = outside_len(v);
            let mut out: Vec<Entry> = Vec::new();
            let mut i: usize = 0;
            while i < n
                invariant
                    outside_tree(*v) == Json::Object(members),
                    n == members.len(),
                    depth > 0,
                    i <= n,
                    out@.len() == i,
                    forall|j: int| 0 <= j < i ==> (#[trigger] out@[j])@ == members[j],
                    forall|j: int|
                        0 <= j < i ==> within((#[trigger] members[j]).1, (depth - 1) as nat)
                            && well_keyed(members[j].1),
                    forall|j: int, k: int|
                        0 <= j < k < i ==> (#[trigger] members[j]).0 != (#[trigger] members[k]).0,
                decreases n - i,
            {
                match outside_member(v, i) {
                    Some((key, child)) => {
                        if has_entry(&out, key) {
                            proof {
                                let j = choose|j: int|
                                    0 <= j < i && (#[trigger] doc_view(out@)[j]).0 == key@;
                                assert(doc_view(out@)[j] == out@[j]@);
                                assert(members[j].0 == members[i as int].0);
                            }
                            return None;
                        }
                        match import_value(child, depth - 1) {
                            Some(value) => {
                                assert forall|j: int| 0 <= j < i implies (
                                #[trigger] members[j]).0 != key@ by {
                                    assert(doc_view(out@)[j] == out@[j]@);
                                }
                                out.push(Entry { key: String::from_str(key), value });
                            },
                            None => {
                                return None;
                            },
                        }
                    },
                    None => {
                        return None;
                    },
                }
                i += 1;
            }
            proof {
                lemma_object_view(out);
                assert(doc_view(out@) =~= members);
            }
            Some(Value::Object(out))
        },
    }
}

/// Whether the text has no decimal point with more than
/// [`MAX_FRACTION_DIGITS`] decimal digits directly behind it.
pub fn fractions_short(text: &str) -> (fit: bool)
    ensures
        fit == fractions_fit(text@),
{
    let bytes = text.as_bytes();
    let mut run: usize = 0;
    let mut i: usize = 0;
    while i < bytes.len()
        invariant
            i <= bytes@.len(),
            bytes@ == text.spec_bytes(),
            run == fraction_run(bytes@, i as nat),
            forall|n: nat| n <= i ==> #[trigger] fraction_run(bytes@, n) <= MAX_FRACTION_DIGITS,
        decreases bytes@.len() - i,
    {
        let byte = bytes[i];
        if 0x30 <= byte && byte <= 0x39 {
            if run > 0 {
                run = run + 1;
            } else if i >= 1 && bytes[i - 1] == 0x2e {
                run = 1;
            }
            if run > MAX_FRACTION_DIGITS {
                assert(fraction_run(bytes@, (i + 1) as nat) > MAX_FRACTION_DIGITS);
                return false;
            }
        } else {
            run = 0;
        }
        i += 1;
    }
    true
}

/// What reading `text` gives: the tree that `json::parse` makes of it, if
/// the text has no fraction of more than [`MAX_FRACTION_DIGITS`] digits, the
/// parser makes a tree of it and the tree is sound.
pub open spec fn parse_outcome(text: Seq<char>) -> Option<Json> {
    if !fractions_fit(text) {
        None
    } else {
        match parsed(text) {
            Some(tree) if sound(tree) => Some(tree),
            _ => None,
        }
    }
}

/// Reads a JSON value from text. There is no value where the text is not
/// JSON, is nested deeper than [`MAX_DEPTH`], has a key twice in an object,
/// or holds a decimal point with more than [`MAX_FRACTION_DIGITS`] digits
/// behind it, which the parser is not handed. (The parser itself keeps one
/// member for a key that a text repeats, the first in place and the last in
/// value.)
pub fn parse_value(text: &str) -> (r: Option<Value>)
    ensures
        match r {
            Some(value) => parse_outcome(text@) == Some(value@),
            None => parse_outcome(text@) is None,
        },
{
    if !fractions_short(text) {
        return None;
    }
    match parse_text(text) {
        Ok(outside) => import_value(&outside, MAX_DEPTH),
        Err(_) => None,
    }
}

} // verus!
