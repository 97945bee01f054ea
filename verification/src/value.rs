//! The JSON data model: values as the editor holds them, and the mathematical
//! trees that contracts speak of.

use vstd::prelude::*;

verus! {

/// A JSON number in decimal scientific form: `mantissa * 10^exponent`, with a
/// sign.
#[derive(Clone, Copy, Debug, PartialEq, Eq, Structural)]
pub struct Number {
    pub positive: bool,
    pub mantissa: u64,
    pub exponent: i16,
}

/// The variant tag of a JSON value.
#[derive(Clone, Copy, Debug, PartialEq, Eq, Structural)]
pub enum Kind {
    Null,
    Boolean,
    Number,
    String,
    Array,
    Object,
}

/// A JSON value as a mathematical tree. Objects are sequences of members, so
/// the order of keys is part of the value.
pub enum Json {
    Null,
    Boolean(bool),
    Number(Number),
    String(Seq<char>),
    Array(Seq<Json>),
    Object(Seq<(Seq<char>, Json)>),
}

/// The members of an object as contracts see them: key and tree, in order.
pub type Members = Seq<(Seq<char>, Json)>;

/// A path as contracts see it: the keys from a category down, in order.
pub type Path = Seq<Seq<char>>;

/// A JSON value held in memory.
#[derive(Debug, PartialEq)]
pub enum Value {
    Null,
    Boolean(bool),
    Number(Number),
    String(String),
    Array(Vec<Value>),
    Object(Vec<Entry>),
}

/// One member of an object: a key and its value.
#[derive(Debug, PartialEq)]
pub struct Entry {
    pub key: String,
    pub value: Value,
}

impl Json {
    /// The variant tag of this tree.
    pub open spec fn kind(self) -> Kind {
        match self {
            Json::Null => Kind::Null,
            Json::Boolean(_) => Kind::Boolean,
            Json::Number(_) => Kind::Number,
            Json::String(_) => Kind::String,
            Json::Array(_) => Kind::Array,
            Json::Object(_) => Kind::Object,
        }
    }
}

impl Value {
    /// The mathematical tree that this value stands for.
    pub open spec fn tree(&self) -> Json
        decreases self,
    {
        match self {
            Value::Null => Json::Null,
            Value::Boolean(b) => Json::Boolean(*b),
            Value::Number(n) => Json::Number(*n),
            Value::String(s) => Json::String(s@),
            Value::Array(items) => Json::Array(
                Seq::new(
                    items@.len(),
                    |i: int|
                        if 0 <= i < items@.len() {
                            items@[i].tree()
                        } else {
                            Json::Null
                        },
                ),
            ),
            Value::Object(entries) => Json::Object(
                Seq::new(
                    entries@.len(),
                    |i: int|
                        if 0 <= i < entries@.len() {
                            (entries@[i].key@, entries@[i].value.tree())
                        } else {
                            (Seq::empty(), Json::Null)
                        },
                ),
            ),
        }
    }
}

impl View for Value {
    type V = Json;

    open spec fn view(&self) -> Json {
        self.tree()
    }
}

impl View for Entry {
    type V = (Seq<char>, Json);

    open spec fn view(&self) -> (Seq<char>, Json) {
        (self.key@, self.value@)
    }
}

/// The members of an object, each by its view.
pub open spec fn doc_view(entries: Seq<Entry>) -> Seq<(Seq<char>, Json)> {
    Seq::new(entries.len(), |i: int| entries[i]@)
}

/// The keys of a path, each by its characters.
pub open spec fn path_view(path: Seq<String>) -> Path {
    Seq::new(path.len(), |i: int| path[i]@)
}

/// The members of an array, each by its view.
pub open spec fn items_view(items: Seq<Value>) -> Seq<Json> {
    Seq::new(items.len(), |i: int| items[i]@)
}

/// The view of an object is the view of its members, in order.
pub proof fn lemma_object_view(entries: Vec<Entry>)
    ensures
        Value::Object(entries)@ == Json::Object(doc_view(entries@)),
{
    assert(Value::Object(entries)@->Object_0 =~= doc_view(entries@));
}

/// The view of an array is the view of its items, in order.
pub proof fn lemma_array_view(items: Vec<Value>)
    ensures
        Value::Array(items)@ == Json::Array(items_view(items@)),
{
    assert(Value::Array(items)@->Array_0 =~= items_view(items@));
}

impl Value {
    /// The variant tag of this value.
    pub fn kind(&self) -> (k: Kind)
        ensures
            k == self@.kind(),
    {
        match self {
            Value::Null => Kind::Null,
            Value::Boolean(_) => Kind::Boolean,
            Value::Number(_) => Kind::Number,
            Value::String(_) => Kind::String,
            Value::Array(_) => Kind::Array,
            Value::Object(_) => Kind::Object,
        }
    }

    /// A copy of this value, equal to it at every depth.
    pub fn deep_copy(&self) -> (copy: Value)
        ensures
            copy@ == self@,
        decreases self,
    {
        match self {
            Value::Null => Value::Null,
            Value::Boolean(b) => Value::Boolean(*b),
            Value::Number(n) => Value::Number(*n),
            Value::String(s) => Value::String(s.clone()),
            Value::Array(items) => {
                let out = copy_items(items);
                proof {
                    lemma_array_view(out);
                    lemma_array_view(*items);
                }
                Value::Array(out)
            },
            Value::Object(entries) => {
                let out = copy_entries(entries);
                proof {
                    lemma_object_view(out);
                    lemma_object_view(*entries);
                }
                Value::Object(out)
            },
        }
    }
}

impl Clone for Value {
    fn clone(&self) -> (copy: Value)
        ensures
            copy@ == self@,
    {
        self.deep_copy()
    }
}

impl Clone for Entry {
    fn clone(&self) -> (copy: Entry)
        ensures
            copy@ == self@,
    {
        Entry { key: self.key.clone(), value: self.value.deep_copy() }
    }
}

/// A copy of the items of an array, equal to them at every depth.
pub fn copy_items(items: &Vec<Value>) -> (copy: Vec<Value>)
    ensures
        items_view(copy@) == items_view(items@),
    decreases items,
{
    let mut out: Vec<Value> = Vec::new();
    let mut i: usize = 0;
    while i < items.len()
        invariant
            i <= items@.len(),
            out@.len() == i,
            forall|j: int| 0 <= j < i ==> out@[j]@ == items@[j]@,
        decreases items@.len() - i,
    {
        let item = items[i].deep_copy();
        out.push(item);
        i += 1;
    }
    assert(items_view(out@) =~= items_view(items@));
    out
}

/// A copy of the members of an object, equal to them at every depth.
pub fn copy_entries(entries: &Vec<Entry>) -> (copy: Vec<Entry>)
    ensures
        doc_view(copy@) == doc_view(entries@),
    decreases entries,
{
    let mut out: Vec<Entry> = Vec::new();
    let mut i: usize = 0;
    while i < entries.len()
        invariant
            i <= entries@.len(),
            out@.len() == i,
            forall|j: int| 0 <= j < i ==> out@[j]@ == entries@[j]@,
        decreases entries@.len() - i,
    {
        let value = entries[i].value.deep_copy();
        out.push(Entry { key: entries[i].key.clone(), value });
        i += 1;
    }
    assert(doc_view(out@) =~= doc_view(entries@));
    out
}

} // verus!
