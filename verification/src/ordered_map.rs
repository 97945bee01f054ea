//! The ordered map that holds the document's categories: `indexmap::IndexMap`
//! from category name to value. The contracts in this file are believed, not
//! proved; each says which method of the map it describes.

use vstd::prelude::*;
use indexmap::IndexMap;
use crate::members::{has_key, inserted, inserted_before, without};
use crate::value::{Json, Members, Value};

verus! {

/// The map type of the `indexmap` crate.
#[verifier::external_type_specification]
#[verifier::external_body]
#[verifier::reject_recursive_types(K)]
#[verifier::reject_recursive_types(V)]
#[verifier::reject_recursive_types(S)]
pub struct ExIndexMap<K, V, S>(IndexMap<K, V, S>);

/// What a map holds: its entries in their stored order, each key by its
/// characters and each value by its tree.
pub uninterp spec fn map_entries(m: IndexMap<String, Value>) -> Members;

/// `IndexMap::new`: a map without entries.
#[verifier::external_body]
pub(crate) fn map_new() -> (m: IndexMap<String, Value>)
    ensures
        map_entries(m) == Seq::<(Seq<char>, Json)>::empty(),
{
    IndexMap::new()
}

/// `IndexMap::len`: the number of entries.
#[verifier::external_body]
pub(crate) fn map_len(m: &IndexMap<String, Value>) -> (n: usize)
    ensures
        n == map_entries(*m).len(),
{
    m.len()
}

/// `IndexMap::get_index`: the entry at a position, nothing past the end.
#[verifier::external_body]
pub(crate) fn map_get_index<'a>(m: &'a IndexMap<String, Value>, i: usize) -> (r: Option<
    (&'a String, &'a Value),
>)
    ensures
        match r {
            Some(entry) => i < map_entries(*m).len() && map_entries(*m)[i as int] == (
                entry.0@,
                entry.1@,
            ),
            None => i >= map_entries(*m).len(),
        },
{
    m.get_index(i)
}

/// `IndexMap::get`: the value of the entry with this key, nothing where no
/// entry has it.
#[verifier::external_body]
pub(crate) fn map_get<'a>(m: &'a IndexMap<String, Value>, key: &str) -> (r: Option<&'a Value>)
    ensures
        match r {
            Some(value) => exists|i: int|
                0 <= i < map_entries(*m).len() && #[trigger] map_entries(*m)[i] == (key@, value@),
            None => !has_key(map_entries(*m), key@),
        },
{
    m.get(key)
}

/// `IndexMap::insert`: the value of a present key is replaced where it
/// stands; a new key is appended.
#[verifier::external_body]
pub(crate) fn map_insert(m: &mut IndexMap<String, Value>, key: String, value: Value)
    ensures
        map_entries(*final(m)) == inserted(map_entries(*old(m)), key@, value@),
{
    m.insert(key, value);
}

/// `IndexMap::insert_before`: the entry is put before the one at `index`,
/// and an entry that had the key is taken from its old place. The map
/// panics on an index past its length.
#[verifier::external_body]
pub(crate) fn map_insert_before(
    m: &mut IndexMap<String, Value>,
    index: usize,
    key: String,
    value: Value,
)
    requires
        index <= map_entries(*old(m)).len(),
    ensures
        map_entries(*final(m)) == inserted_before(map_entries(*old(m)), index as int, key@, value@),
{
    m.insert_before(index, key, value);
}

/// `IndexMap::shift_remove`: the entry with this key leaves and the
/// entries behind it close up.
#[verifier::external_body]
pub(crate) fn map_shift_remove(m: &mut IndexMap<String, Value>, key: &str)
    ensures
        map_entries(*final(m)) == without(map_entries(*old(m)), key@),
{
    m.shift_remove(key);
}

/// `IndexMap::clone`: a map with the same entries in the same order.
#[verifier::external_body]
pub(crate) fn map_clone(m: &IndexMap<String, Value>) -> (copy: IndexMap<String, Value>)
    ensures
        map_entries(copy) == map_entries(*m),
{
    m.clone()
}

} // verus!
