//! The settings store: what a load makes of the file's text, and the text
//! that a save writes.

use vstd::prelude::*;
use vstd::string::*;
use indexmap::IndexMap;
use crate::sound::{
    all_sound,
    lemma_sound_members,
    lemma_within_deeper,
    sound,
    well_keyed,
    within,
    MAX_DEPTH,
};
use crate::parse::{parse_outcome, parse_value};
use crate::members::{
    distinct_keys,
    has_key,
    inserted,
    inserted_before,
    lemma_inserted,
    lemma_inserted_distinct,
    lemma_inserted_first,
    lemma_inserted_first_distinct,
    lemma_without,
    without,
};
use crate::ordered_map::{
    map_clone,
    map_entries,
    map_get_index,
    map_insert,
    map_insert_before,
    map_len,
    map_new,
    map_shift_remove,
};
use crate::pretty::{lemma_within_printable, pretty_json, printable, rendered};
use crate::value::{doc_view, lemma_object_view, Entry, Json, Members, Value};

verus! {

/// The key of the welcome entry, which stands first in the document in
/// memory and is never written to disk.
pub open spec fn home_key() -> Seq<char> {
    "Home$"@
}

/// The welcome entry's value: one member with the greeting.
pub open spec fn welcome() -> Json {
    Json::Object(
        seq![
            (
                "Welcome!"@,
                Json::String(
                    "Thank for downloading my simple project. \nfeel free to mess around!"@,
                ),
            ),
        ],
    )
}

/// The welcome entry's value.
pub fn welcome_value() -> (value: Value)
    ensures
        value@ == welcome(),
{
    let mut entries: Vec<Entry> = Vec::new();
    entries.push(
        Entry {
            key: String::from_str("Welcome!"),
            value: Value::String(
                String::from_str(
                    "Thank for downloading my simple project. \nfeel free to mess around!",
                ),
            ),
        },
    );
    proof {
        lemma_object_view(entries);
        assert(doc_view(entries@) =~= welcome()->Object_0);
    }
    Value::Object(entries)
}

/// The members of the top-level value of a file: those of an object, none
/// for any other value.
pub open spec fn top_members(tree: Json) -> Members {
    match tree {
        Json::Object(members) => members,
        _ => Seq::empty(),
    }
}

/// The first `n` members put into an empty document one after the other: a
/// key that comes again replaces the value where the key stands.
pub open spec fn collected(members: Members, n: nat) -> Members
    decreases n,
{
    if n == 0 || n > members.len() {
        Seq::empty()
    } else {
        inserted(collected(members, (n - 1) as nat), members[n - 1].0, members[n - 1].1)
    }
}

/// The document with the welcome entry put first. An entry of the file under
/// the welcome entry's key gives way to it.
pub open spec fn with_home(members: Members) -> Members {
    inserted_before(members, 0, home_key(), welcome())
}

/// The document in memory after a load that found `tree` in the file.
pub open spec fn document_of(tree: Json) -> Members {
    with_home(collected(top_members(tree), top_members(tree).len()))
}

/// The document in memory after a load that failed: the welcome entry alone.
pub open spec fn empty_document() -> Members {
    with_home(Seq::empty())
}

/// What a load makes of the file: with no file, or a text that cannot be
/// read as a document, nothing.
pub open spec fn load_outcome(contents: Option<Seq<char>>) -> Option<Json> {
    match contents {
        None => None,
        Some(text) => parse_outcome(text),
    }
}

/// The members that a save writes: all but the welcome entry.
pub open spec fn saved_members(members: Members) -> Members {
    without(members, home_key())
}

/// The text that a save writes for the document in memory.
pub open spec fn saved_text(members: Members) -> Seq<char> {
    rendered(Json::Object(saved_members(members)), 2)
}

/// The characters of a file's text, where there is a file.
pub open spec fn contents_view(contents: Option<&str>) -> Option<Seq<char>> {
    match contents {
        Some(text) => Some(text@),
        None => None,
    }
}

/// The characters of the snapshot, where there is one.
pub open spec fn snapshot_view(backup: Option<String>) -> Option<Seq<char>> {
    match backup {
        Some(text) => Some(text@),
        None => None,
    }
}

/// Collected members have distinct keys, and their values are sound where
/// the values they were collected from are.
pub proof fn lemma_collected_sound(members: Members, n: nat)
    requires
        all_sound(members),
    ensures
        all_sound(collected(members, n)),
        distinct_keys(collected(members, n)),
    decreases n,
{
    if n == 0 || n > members.len() {
    } else {
        let before = collected(members, (n - 1) as nat);
        lemma_collected_sound(members, (n - 1) as nat);
        lemma_inserted(before, members[n - 1].0, members[n - 1].1);
        lemma_inserted_distinct(before, members[n - 1].0, members[n - 1].1);
    }
}

/// The welcome entry's value is sound.
pub proof fn lemma_welcome_sound()
    ensures
        sound(welcome()),
{
    let inner = welcome()->Object_0;
    assert forall|i: int| 0 <= i < inner.len() implies within((#[trigger] inner[i]).1, 0)
        && well_keyed(inner[i].1) by {}
    assert(within(welcome(), 1));
    lemma_within_deeper(welcome(), 1, MAX_DEPTH as nat);
}

/// With the welcome entry put first, it stands first, no other entry has its
/// key, the keys stay distinct and the values sound.
pub proof fn lemma_with_home(members: Members)
    requires
        all_sound(members),
        distinct_keys(members),
    ensures
        with_home(members).len() >= 1,
        with_home(members)[0] == (home_key(), welcome()),
        forall|i: int| 1 <= i < with_home(members).len() ==> (#[trigger] with_home(members)[i]).0
            != home_key(),
        all_sound(with_home(members)),
        distinct_keys(with_home(members)),
{
    let rest = without(members, home_key());
    let all = with_home(members);
    lemma_without(members, home_key());
    lemma_inserted_first(members, home_key(), welcome());
    lemma_inserted_first_distinct(members, home_key(), welcome());
    lemma_welcome_sound();
    assert forall|i: int| 0 <= i < all.len() implies sound((#[trigger] all[i]).1) by {
        if i >= 1 {
            assert(all[i] == rest[i - 1]);
            assert(members.contains(rest[i - 1]));
        }
    }
    assert forall|i: int| 1 <= i < all.len() implies (#[trigger] all[i]).0 != home_key() by {
        assert(all[i] == rest[i - 1]);
    }
}

/// The document in memory for what a load found: the members of the
/// top-level object in their order with the welcome entry put first, or the
/// welcome entry alone where the load found nothing.
pub fn build_document(found: Option<&Value>) -> (settings: IndexMap<String, Value>)
    requires
        found matches Some(value) ==> sound(value@),
    ensures
        map_entries(settings) == (match found {
            Some(value) => document_of(value@),
            None => empty_document(),
        }),
        map_entries(settings).len() >= 1,
        map_entries(settings)[0] == (home_key(), welcome()),
        all_sound(map_entries(settings)),
        distinct_keys(map_entries(settings)),
{
    let mut index_map = map_new();
    match found {
        Some(Value::Object(entries)) => {
            let ghost members = doc_view(entries@);
            proof {
                lemma_object_view(*entries);
                lemma_sound_members(members);
            }
            let mut i: usize = 0;
            while i < entries.len()
                invariant
                    i <= entries@.len(),
                    members == doc_view(entries@),
                    members.len() == entries@.len(),
                    map_entries(index_map) == collected(members, i as nat),
                decreases entries@.len() - i,
            {
                let key = entries[i].key.clone();
                let value = entries[i].value.deep_copy();
                map_insert(&mut index_map, key, value);
                i += 1;
            }
            proof {
                lemma_collected_sound(members, members.len());
            }
        },
        Some(other) => {
            assert(top_members(other@) =~= Seq::empty());
        },
        None => {},
    }
    proof {
        lemma_with_home(map_entries(index_map));
    }
    map_insert_before(&mut index_map, 0, String::from_str("Home$"), welcome_value());
    index_map
}

/// Loads the document from the text of the settings file.
///
/// `contents` is the file's text, or nothing where the file could not be
/// opened. A text that parses becomes the document: the members of its
/// top-level object in their order, with the welcome entry put first, and the
/// text itself becomes the snapshot. Without a file, or with a text that does
/// not parse, is nested too deep, repeats a key in an object or holds a
/// fraction of more digits than the parser is handed, the document is the
/// welcome entry alone and the snapshot stays as it was. The result says
/// which of the two it was.
pub fn load_changes(
    contents: Option<&str>,
    settings: &mut IndexMap<String, Value>,
    backup: &mut Option<String>,
) -> (ok: bool)
    ensures
        ok == load_outcome(contents_view(contents)) is Some,
        map_entries(*final(settings)) == (match load_outcome(contents_view(contents)) {
            Some(tree) => document_of(tree),
            None => empty_document(),
        }),
        snapshot_view(*final(backup)) == (if ok {
            contents_view(contents)
        } else {
            snapshot_view(*old(backup))
        }),
        map_entries(*final(settings)).len() >= 1,
        map_entries(*final(settings))[0] == (home_key(), welcome()),
        all_sound(map_entries(*final(settings))),
        distinct_keys(map_entries(*final(settings))),
{
    let found = match contents {
        Some(text) => parse_value(text),
        None => None,
    };
    if let Some(text) = contents {
        if found.is_some() {
            *backup = Some(String::from_str(text));
        }
    }
    *settings = build_document(found.as_ref());
    found.is_some()
}

/// The document that a save writes: the entries in memory but the welcome
/// entry, as one object.
pub fn saved_document(settings: &IndexMap<String, Value>) -> (document: Value)
    ensures
        document@ == Json::Object(saved_members(map_entries(*settings))),
{
    let mut after_changes = map_clone(settings);
    map_shift_remove(&mut after_changes, "Home$");
    let ghost members = map_entries(after_changes);
    let n = map_len(&after_changes);
    let mut entries: Vec<Entry> = Vec::new();
    let mut i: usize = 0;
    while i < n
        invariant
            i <= n,
            n == members.len(),
            members == map_entries(after_changes),
            entries@.len() == i,
            forall|j: int| 0 <= j < i ==> (#[trigger] entries@[j])@ == members[j],
        decreases n - i,
    {
        match map_get_index(&after_changes, i) {
            Some((key, value)) => {
                entries.push(Entry { key: key.clone(), value: value.deep_copy() });
            },
            None => {},
        }
        i += 1;
    }
    proof {
        lemma_object_view(entries);
        assert(doc_view(entries@) =~= members);
    }
    Value::Object(entries)
}

/// The text that a save writes: the document without the welcome entry,
/// printed with two blanks per level.
pub fn save_text(settings: &IndexMap<String, Value>) -> (text: String)
    requires
        all_sound(map_entries(*settings)),
    ensures
        text@ == saved_text(map_entries(*settings)),
{
    let document = saved_document(settings);
    proof {
        let members = map_entries(*settings);
        let saved = saved_members(members);
        lemma_without(members, home_key());
        assert forall|i: int| 0 <= i < saved.len() implies printable(
            (#[trigger] saved[i]).1,
            4,
        ) by {
            assert(members.contains(saved[i]));
            lemma_within_printable(saved[i].1, MAX_DEPTH as nat, 4);
        }
    }
    pretty_json(&document, 2)
}

/// No member of the document that a save writes has the welcome entry's
/// key.
pub proof fn lemma_saved_without_home(members: Members)
    ensures
        !has_key(saved_members(members), home_key()),
{
    lemma_without(members, home_key());
}

} // verus!
