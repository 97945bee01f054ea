//! What holds of every value that the library loads: its nesting is bounded
//! and no object in it has a key twice.

use vstd::prelude::*;
use crate::members::{distinct_keys, has_key};
use crate::text::same_text;
use crate::value::{
    doc_view,
    items_view,
    lemma_array_view,
    lemma_object_view,
    Entry,
    Json,
    Members,
    Value,
};

verus! {

/// The deepest nesting that this library holds in memory.
pub const MAX_DEPTH: usize = 1024;

/// Whether containers in `v` are nested at most `depth` deep.
pub open spec fn within(v: Json, depth: nat) -> bool
    decreases depth,
{
    match v {
        Json::Array(items) => depth > 0 && forall|i: int|
            0 <= i < items.len() ==> within(#[trigger] items[i], (depth - 1) as nat),
        Json::Object(members) => depth > 0 && forall|i: int|
            0 <= i < members.len() ==> within((#[trigger] members[i]).1, (depth - 1) as nat),
        _ => true,
    }
}

/// Whether no object in `v`, at any depth, has two members with the same
/// key.
pub open spec fn well_keyed(v: Json) -> bool
    decreases v,
{
    match v {
        Json::Array(items) => forall|i: int|
            0 <= i < items.len() ==> well_keyed(#[trigger] items[i]),
        Json::Object(members) => distinct_keys(members) && forall|i: int|
            0 <= i < members.len() ==> well_keyed((#[trigger] members[i]).1),
        _ => true,
    }
}

/// Whether the library holds `v`: it is nested at most [`MAX_DEPTH`] deep and
/// its objects have distinct keys.
pub open spec fn sound(v: Json) -> bool {
    within(v, MAX_DEPTH as nat) && well_keyed(v)
}

/// Whether the library holds every value of the document.
pub open spec fn all_sound(members: Members) -> bool {
    forall|i: int| 0 <= i < members.len() ==> sound((#[trigger] members[i]).1)
}

/// The members of a sound object are sound.
pub proof fn lemma_sound_members(members: Members)
    requires
        sound(Json::Object(members)),
    ensures
        distinct_keys(members),
        all_sound(members),
{
    assert(Json::Object(members)->Object_0 == members);
    assert forall|i: int| 0 <= i < members.len() implies sound((#[trigger] members[i]).1) by {
        lemma_within_deeper(members[i].1, (MAX_DEPTH - 1) as nat, MAX_DEPTH as nat);
    }
}

/// A value within a depth is within every greater depth.
pub proof fn lemma_within_deeper(v: Json, depth: nat, deeper: nat)
    requires
        within(v, depth),
        depth <= deeper,
    ensures
        within(v, deeper),
    decreases depth,
{
    match v {
        Json::Array(items) => {
            assert forall|i: int| 0 <= i < items.len() implies within(
                #[trigger] items[i],
                (deeper - 1) as nat,
            ) by {
                lemma_within_deeper(items[i], (depth - 1) as nat, (deeper - 1) as nat);
            }
        },
        Json::Object(members) => {
            assert forall|i: int| 0 <= i < members.len() implies within(
                (#[trigger] members[i]).1,
                (deeper - 1) as nat,
            ) by {
                lemma_within_deeper(members[i].1, (depth - 1) as nat, (deeper - 1) as nat);
            }
        },
        _ => {},
    }
}

/// Whether some entry has this key.
pub fn has_entry(entries: &Vec<Entry>, key: &str) -> (found: bool)
    ensures
        found == has_key(doc_view(entries@), key@),
{
    let ghost members = doc_view(entries@);
    let mut i: usize = 0;
    while i < entries.len()
        invariant
            i <= entries@.len(),
            members == doc_view(entries@),
            members.len() == entries@.len(),
            forall|j: int| 0 <= j < i ==> (#[trigger] members[j]).0 != key@,
        decreases entries@.len() - i,
    {
        if same_text(entries[i].key.as_str(), key) {
            assert(members[i as int].0 == key@);
            return true;
        }
        i += 1;
    }
    false
}

/// Whether containers in `value` are nested at most `depth` deep.
pub fn nested_within(value: &Value, depth: usize) -> (r: bool)
    ensures
        r == within(value@, depth as nat),
    decreases depth,
{
    match value {
        Value::Array(items) => {
            proof {
                lemma_array_view(*items);
            }
            if depth == 0 {
                return false;
            }
            let ghost trees = items_view(items@);
            let mut i: usize = 0;
            while i < items.len()
                invariant
                    i <= items@.len(),
                    depth > 0,
                    trees == items_view(items@),
                    trees.len() == items@.len(),
                    value@ == Json::Array(trees),
                    forall|j: int| 0 <= j < i ==> within(#[trigger] trees[j], (depth - 1) as nat),
                decreases items@.len() - i,
            {
                if !nested_within(&items[i], depth - 1) {
                    assert(!within(trees[i as int], (depth - 1) as nat));
                    assert(Json::Array(trees)->Array_0 == trees);
                    return false;
                }
                i += 1;
            }
            assert(Json::Array(trees)->Array_0 == trees);
            true
        },
        Value::Object(entries) => {
            proof {
                lemma_object_view(*entries);
            }
            if depth == 0 {
                return false;
            }
            let ghost members = doc_view(entries@);
            let mut i: usize = 0;
            while i < entries.len()
                invariant
                    i <= entries@.len(),
                    depth > 0,
                    members == doc_view(entries@),
                    members.len() == entries@.len(),
                    value@ == Json::Object(members),
                    forall|j: int|
                        0 <= j < i ==> within((#[trigger] members[j]).1, (depth - 1) as nat),
                decreases entries@.len() - i,
            {
                if !nested_within(&entries[i].value, depth - 1) {
                    assert(!within(members[i as int].1, (depth - 1) as nat));
                    assert(Json::Object(members)->Object_0 == members);
                    return false;
                }
                i += 1;
            }
            assert(Json::Object(members)->Object_0 == members);
            true
        },
        _ => true,
    }
}

/// Whether no object in `value`, at any depth, has two members with the same
/// key.
pub fn keys_distinct(value: &Value) -> (r: bool)
    ensures
        r == well_keyed(value@),
    decreases value,
{
    match value {
        Value::Array(items) => {
            proof {
                lemma_array_view(*items);
            }
            items_keys_distinct(items)
        },
        Value::Object(entries) => {
            proof {
                lemma_object_view(*entries);
            }
            entries_keys_distinct(entries)
        },
        _ => true,
    }
}

/// Whether no object in the items of an array has a key twice.
fn items_keys_distinct(items: &Vec<Value>) -> (r: bool)
    ensures
        r == well_keyed(Json::Array(items_view(items@))),
    decreases items,
{
    let ghost trees = items_view(items@);
    assert(Json::Array(trees)->Array_0 == trees);
    let mut i: usize = 0;
    while i < items.len()
        invariant
            i <= items@.len(),
            trees == items_view(items@),
            trees.len() == items@.len(),
            forall|j: int| 0 <= j < i ==> well_keyed(#[trigger] trees[j]),
        decreases items@.len() - i,
    {
        if !keys_distinct(&items[i]) {
            assert(!well_keyed(trees[i as int]));
            assert(Json::Array(trees)->Array_0 == trees);
            return false;
        }
        i += 1;
    }
    true
}

/// Whether the members of an object have distinct keys, and no object in
/// their values has a key twice.
fn entries_keys_distinct(entries: &Vec<Entry>) -> (r: bool)
    ensures
        r == well_keyed(Json::Object(doc_view(entries@))),
    decreases entries,
{
    let ghost members = doc_view(entries@);
    assert(Json::Object(members)->Object_0 == members);
    let mut i: usize = 0;
    while i < entries.len()
        invariant
            i <= entries@.len(),
            members == doc_view(entries@),
            members.len() == entries@.len(),
            forall|j: int| 0 <= j < i ==> well_keyed((#[trigger] members[j]).1),
            forall|j: int, k: int|
                0 <= j < k < i ==> (#[trigger] members[j]).0 != (#[trigger] members[k]).0,
        decreases entries@.len() - i,
    {
        let mut j: usize = 0;
        while j < i
            invariant
                j <= i < entries@.len(),
                members == doc_view(entries@),
                members.len() == entries@.len(),
                forall|k: int| 0 <= k < j ==> (#[trigger] members[k]).0 != members[i as int].0,
            decreases i - j,
        {
            if same_text(entries[j].key.as_str(), entries[i].key.as_str()) {
                assert(members[j as int].0 == members[i as int].0);
                return false;
            }
            j += 1;
        }
        if !keys_distinct(&entries[i].value) {
            assert(!well_keyed(members[i as int].1));
            return false;
        }
        i += 1;
    }
    true
}

/// Whether the library holds `value`: it is nested at most [`MAX_DEPTH`] deep
/// and its objects have distinct keys.
pub fn is_sound(value: &Value) -> (r: bool)
    ensures
        r == sound(value@),
{
    nested_within(value, MAX_DEPTH) && keys_distinct(value)
}

} // verus!
