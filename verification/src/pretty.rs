//! The pretty printer: a value as indented text, two blanks per level.

use vstd::prelude::*;
use vstd::string::*;
use crate::sound::within;
use crate::json_backend::{print_number, printed_number};
use crate::text::{blank_text, blanks};
use crate::value::{doc_view, items_view, lemma_array_view, lemma_object_view, Entry, Json, Value};

verus! {

/// The text of `v` when its members are indented by `indent` blanks.
///
/// A container opens with its bracket and a line break, lists its members
/// one per line, separated by a comma, each indented by `indent` blanks and
/// rendered two blanks deeper, and closes on a line of its own, two blanks
/// less than `indent`. A string is quoted as it is, with no escaping. An
/// integer is its decimal numeral; a fraction is printed without the zeros
/// at its end.
pub open spec fn rendered(v: Json, indent: nat) -> Seq<char>
    decreases v, 0nat,
{
    match v {
        Json::Null => "null"@,
        Json::Boolean(b) => if b {
            "true"@
        } else {
            "false"@
        },
        Json::Number(n) => printed_number(n),
        Json::String(s) => "\""@ + s + "\""@,
        Json::Array(items) => "[\n"@ + rendered_items(items, items.len(), indent) + "\n"@ + blanks(
            (indent - 2) as nat,
        ) + "]"@,
        Json::Object(members) => "{\n"@ + rendered_members(members, members.len(), indent) + "\n"@
            + blanks((indent - 2) as nat) + "}"@,
    }
}

/// One member of an object on its line: blanks, the quoted key, a colon and
/// the value.
pub open spec fn rendered_member(member: (Seq<char>, Json), indent: nat) -> Seq<char>
    decreases member, 0nat,
{
    blanks(indent) + "\""@ + member.0 + "\": "@ + rendered(member.1, indent + 2)
}

/// The lines of the first `n` members of an object, separated by a comma and
/// a line break.
pub open spec fn rendered_members(members: Seq<(Seq<char>, Json)>, n: nat, indent: nat) -> Seq<
    char,
>
    decreases members, n,
{
    if n == 0 || n > members.len() {
        Seq::empty()
    } else if n == 1 {
        rendered_member(members[0], indent)
    } else {
        rendered_members(members, (n - 1) as nat, indent) + ",\n"@ + rendered_member(
            members[n - 1],
            indent,
        )
    }
}

/// The lines of the first `n` items of an array, separated by a comma and a
/// line break.
pub open spec fn rendered_items(items: Seq<Json>, n: nat, indent: nat) -> Seq<char>
    decreases items, n,
{
    if n == 0 || n > items.len() {
        Seq::empty()
    } else if n == 1 {
        blanks(indent) + rendered(items[0], indent + 2)
    } else {
        rendered_items(items, (n - 1) as nat, indent) + ",\n"@ + blanks(indent) + rendered(
            items[n - 1],
            indent + 2,
        )
    }
}

/// Whether `v` can be printed at `indent`: a container needs room for its
/// closing bracket two blanks to the left, and no indentation on the way down
/// may pass the largest `usize`.
pub open spec fn printable(v: Json, indent: nat) -> bool
    decreases v,
{
    match v {
        Json::Array(items) => 2 <= indent && indent + 2 <= usize::MAX && forall|i: int|
            0 <= i < items.len() ==> printable(#[trigger] items[i], indent + 2),
        Json::Object(members) => 2 <= indent && indent + 2 <= usize::MAX && forall|i: int|
            0 <= i < members.len() ==> printable((#[trigger] members[i]).1, indent + 2),
        _ => true,
    }
}

/// A value nested at most `depth` deep can be printed wherever the deepest
/// indentation fits the machine.
pub proof fn lemma_within_printable(v: Json, depth: nat, indent: nat)
    requires
        within(v, depth),
        2 <= indent,
        indent + 2 * depth <= usize::MAX,
    ensures
        printable(v, indent),
    decreases depth,
{
    match v {
        Json::Array(items) => {
            assert forall|i: int| 0 <= i < items.len() implies printable(
                #[trigger] items[i],
                indent + 2,
            ) by {
                lemma_within_printable(items[i], (depth - 1) as nat, indent + 2);
            }
        },
        Json::Object(members) => {
            assert forall|i: int| 0 <= i < members.len() implies printable(
                (#[trigger] members[i]).1,
                indent + 2,
            ) by {
                lemma_within_printable(members[i].1, (depth - 1) as nat, indent + 2);
            }
        },
        _ => {},
    }
}

/// The text of a JSON value, indented for reading.
///
/// `indent` is the number of blanks before each member of `json_value`
/// itself; the document as a whole is printed with `indent` 2.
pub fn pretty_json(json_value: &Value, indent: usize) -> (text: String)
    requires
        printable(json_value@, indent as nat),
    ensures
        text@ == rendered(json_value@, indent as nat),
    decreases json_value,
{
    match json_value {
        Value::Null => String::from_str("null"),
        Value::Boolean(b) => {
            if *b {
                String::from_str("true")
            } else {
                String::from_str("false")
            }
        },
        Value::Number(n) => print_number(n.positive, n.mantissa, n.exponent),
        Value::String(s) => {
            let mut text = String::from_str("\"");
            text.append(s.as_str());
            text.append("\"");
            text
        },
        Value::Array(items) => {
            proof {
                lemma_array_view(*items);
            }
            let lines = pretty_items(items, indent);
            let closing = blank_text(indent - 2);
            let mut text = String::from_str("[\n");
            text.append(lines.as_str());
            text.append("\n");
            text.append(closing.as_str());
            text.append("]");
            text
        },
        Value::Object(entries) => {
            proof {
                lemma_object_view(*entries);
            }
            let lines = pretty_members(entries, indent);
            let closing = blank_text(indent - 2);
            let mut text = String::from_str("{\n");
            text.append(lines.as_str());
            text.append("\n");
            text.append(closing.as_str());
            text.append("}");
            text
        },
    }
}

/// The lines of an object's members.
fn pretty_members(entries: &Vec<Entry>, indent: usize) -> (text: String)
    requires
        printable(Json::Object(doc_view(entries@)), indent as nat),
    ensures
        text@ == rendered_members(doc_view(entries@), entries@.len(), indent as nat),
    decreases entries,
{
    let ghost members = doc_view(entries@);
    let margin = blank_text(indent);
    let mut text = String::new();
    let mut i: usize = 0;
    while i < entries.len()
        invariant
            i <= entries@.len(),
            members == doc_view(entries@),
            members.len() == entries@.len(),
            margin@ == blanks(indent as nat),
            printable(Json::Object(members), indent as nat),
            text@ == rendered_members(members, i as nat, indent as nat),
        decreases entries@.len() - i,
    {
        let ghost before = text@;
        if i > 0 {
            text.append(",\n");
        }
        assert(Json::Object(members)->Object_0 == members);
        assert(printable(members[i as int].1, (indent + 2) as nat));
        let value = pretty_json(&entries[i].value, indent + 2);
        text.append(margin.as_str());
        text.append("\"");
        text.append(entries[i].key.as_str());
        text.append("\": ");
        text.append(value.as_str());
        proof {
            let line = rendered_member(members[i as int], indent as nat);
            assert(line =~= blanks(indent as nat) + "\""@ + entries@[i as int].key@ + "\": "@
                + value@);
            if i == 0 {
                assert(before =~= Seq::<char>::empty());
                assert(text@ =~= line);
            } else {
                assert(text@ =~= before + ",\n"@ + line);
            }
        }
        i += 1;
    }
    text
}

/// The lines of an array's items.
fn pretty_items(items: &Vec<Value>, indent: usize) -> (text: String)
    requires
        printable(Json::Array(items_view(items@)), indent as nat),
    ensures
        text@ == rendered_items(items_view(items@), items@.len(), indent as nat),
    decreases items,
{
    let ghost members = items_view(items@);
    let margin = blank_text(indent);
    let mut text = String::new();
    let mut i: usize = 0;
    while i < items.len()
        invariant
            i <= items@.len(),
            members == items_view(items@),
            members.len() == items@.len(),
            margin@ == blanks(indent as nat),
            printable(Json::Array(members), indent as nat),
            text@ == rendered_items(members, i as nat, indent as nat),
        decreases items@.len() - i,
    {
        let ghost before = text@;
        if i > 0 {
            text.append(",\n");
        }
        assert(Json::Array(members)->Array_0 == members);
        assert(printable(members[i as int], (indent + 2) as nat));
        let value = pretty_json(&items[i], indent + 2);
        text.append(margin.as_str());
        text.append(value.as_str());
        proof {
            let line = blanks(indent as nat) + value@;
            if i == 0 {
                assert(before =~= Seq::<char>::empty());
                assert(text@ =~= line);
            } else {
                assert(text@ =~= before + ",\n"@ + line);
                assert(text@ =~= before + ",\n"@ + blanks(indent as nat) + value@);
            }
        }
        i += 1;
    }
    text
}

} // verus!
