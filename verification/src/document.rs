//! Hierarchical documents and their mathematical model.

use crate::number::{is_json_number, is_number_text};
use vstd::prelude::*;
use vstd::string::*;

verus! {

/// The mathematical model of a document: a tree of scalars, arrays and
/// objects. An object is the sequence of its entries in insertion order.
pub enum Json {
    Null,
    Bool(bool),
    /// A number, held as its decimal text.
    Number(Seq<char>),
    Text(Seq<char>),
    Array(Seq<Json>),
    Object(Seq<(Seq<char>, Json)>),
}

/// A hierarchical document as the store and the registry exchange it.
#[derive(Debug)]
pub enum Document {
    Null,
    Bool(bool),
    /// A number, held as its decimal text.
    Number(String),
    Text(String),
    Array(Vec<Document>),
    Object(Vec<(String, Document)>),
}

/// The model of a sequence of documents.
pub open spec fn items_view(items: Seq<Document>) -> Seq<Json>
    decreases items,
{
    Seq::new(
        items.len(),
        |i: int|
            if 0 <= i < items.len() {
                items[i]@
            } else {
                Json::Null
            },
    )
}

/// The model of a sequence of object entries.
pub open spec fn entries_view(entries: Seq<(String, Document)>) -> Seq<(Seq<char>, Json)>
    decreases entries,
{
    Seq::new(
        entries.len(),
        |i: int|
            if 0 <= i < entries.len() {
                (entries[i].0@, entries[i].1@)
            } else {
                (Seq::empty(), Json::Null)
            },
    )
}

/// The model of a document that may be missing.
pub open spec fn option_view(doc: Option<Document>) -> Option<Json> {
    match doc {
        Some(d) => Some(d@),
        None => None,
    }
}

impl View for Document {
    type V = Json;

    open spec fn view(&self) -> Json
        decreases self,
    {
        match self {
            Document::Null => Json::Null,
            Document::Bool(b) => Json::Bool(*b),
            Document::Number(t) => Json::Number(t@),
            Document::Text(t) => Json::Text(t@),
            Document::Array(items) => Json::Array(items_view(items@)),
            Document::Object(entries) => Json::Object(entries_view(entries@)),
        }
    }
}

/// The index of the first entry with the given key, counted from `from`.
pub open spec fn index_from(entries: Seq<(Seq<char>, Json)>, key: Seq<char>, from: int) -> Option<int>
    decreases entries.len() - from,
{
    if from < 0 || from >= entries.len() {
        None
    } else if entries[from].0 == key {
        Some(from)
    } else {
        index_from(entries, key, from + 1)
    }
}

/// The index of the first entry with the given key.
pub open spec fn index_of(entries: Seq<(Seq<char>, Json)>, key: Seq<char>) -> Option<int> {
    index_from(entries, key, 0)
}

/// The value that a sequence of entries gives to a key: that of the first
/// entry with this key.
pub open spec fn lookup(entries: Seq<(Seq<char>, Json)>, key: Seq<char>) -> Option<Json> {
    match index_of(entries, key) {
        Some(i) => Some(entries[i].1),
        None => None,
    }
}

/// The entries after `key` has been given the value `value`: the first
/// entry with this key is overwritten, or a new entry is added at the end.
pub open spec fn put(entries: Seq<(Seq<char>, Json)>, key: Seq<char>, value: Json) -> Seq<
    (Seq<char>, Json),
> {
    match index_of(entries, key) {
        Some(i) => entries.update(i, (key, value)),
        None => entries.push((key, value)),
    }
}

/// No key occurs twice.
pub open spec fn distinct_keys(entries: Seq<(Seq<char>, Json)>) -> bool {
    forall|i: int, j: int|
        0 <= i < j < entries.len() ==> (#[trigger] entries[i]).0 != (#[trigger] entries[j]).0
}

impl Json {
    /// The member of an object under `key`; `None` for a missing key and
    /// for anything that is not an object.
    pub open spec fn get(self, key: Seq<char>) -> Option<Json> {
        match self {
            Json::Object(entries) => lookup(entries, key),
            _ => None,
        }
    }

    /// The text of a string node.
    pub open spec fn as_text(self) -> Option<Seq<char>> {
        match self {
            Json::Text(t) => Some(t),
            _ => None,
        }
    }

    /// The items of an array node.
    pub open spec fn as_items(self) -> Option<Seq<Json>> {
        match self {
            Json::Array(items) => Some(items),
            _ => None,
        }
    }

    /// The object in which `key` has been given `value`; anything that is
    /// not an object is left as it is.
    pub open spec fn with(self, key: Seq<char>, value: Json) -> Json {
        match self {
            Json::Object(entries) => Json::Object(put(entries, key, value)),
            _ => self,
        }
    }
}

/// Finds the first entry with the given key.
pub fn find(entries: &Vec<(String, Document)>, key: &String) -> (found: Option<usize>)
    ensures
        match found {
            Some(i) => i < entries.len() && index_of(entries_view(entries@), key@) == Some(
                i as int,
            ),
            None => index_of(entries_view(entries@), key@) is None,
        },
{
    let ghost model = entries_view(entries@);
    let mut i: usize = 0;
    while i < entries.len()
        invariant
            i <= entries.len(),
            model == entries_view(entries@),
            forall|j: int| 0 <= j < i ==> (#[trigger] model[j]).0 != key@,
        decreases entries.len() - i,
    {
        if entries[i].0 == *key {
            proof {
                lemma_index_of_first(model, key@, i as int);
            }
            return Some(i);
        }
        i += 1;
    }
    proof {
        lemma_index_of_absent(model, key@);
    }
    None
}

/// Gives `key` the value `value`: the first entry with this key is
/// overwritten in place, otherwise the entry is added at the end.
pub fn put_entry(entries: &mut Vec<(String, Document)>, key: String, value: Document)
    ensures
        entries_view(final(entries)@) == put(entries_view(old(entries)@), key@, value@),
{
    let ghost before = entries_view(entries@);
    let ghost key_model = key@;
    let ghost value_model = value@;
    match find(entries, &key) {
        Some(i) => {
            entries.set(i, (key, value));
        },
        None => {
            entries.push((key, value));
        },
    }
    assert(entries_view(entries@) =~= put(before, key_model, value_model));
}

impl Document {
    /// A string node.
    pub fn text(value: &str) -> (doc: Document)
        ensures
            doc@ == Json::Text(value@),
            proper(doc@),
    {
        Document::Text(String::from_str(value))
    }

    /// A number node with the given text, which must be a JSON number.
    pub fn number(value: &str) -> (doc: Document)
        requires
            is_json_number(value@),
        ensures
            doc@ == Json::Number(value@),
            proper(doc@),
    {
        Document::Number(String::from_str(value))
    }

    /// A number node with the given text, where that is a JSON number.
    pub fn try_number(value: &str) -> (doc: Option<Document>)
        ensures
            match doc {
                Some(d) => is_json_number(value@) && d@ == Json::Number(value@) && proper(d@),
                None => !is_json_number(value@),
            },
    {
        if is_number_text(value) {
            Some(Document::Number(String::from_str(value)))
        } else {
            None
        }
    }

    /// An object without entries.
    pub fn object() -> (doc: Document)
        ensures
            doc@ == Json::Object(Seq::empty()),
            proper(doc@),
    {
        let entries: Vec<(String, Document)> = Vec::new();
        assert(entries_view(entries@) =~= Seq::empty());
        Document::Object(entries)
    }

    /// An array without items.
    pub fn array() -> (doc: Document)
        ensures
            doc@ == Json::Array(Seq::empty()),
            proper(doc@),
    {
        let items: Vec<Document> = Vec::new();
        assert(items_view(items@) =~= Seq::empty());
        Document::Array(items)
    }

    /// The member under `key`, if this is an object that has one.
    pub fn get(&self, key: &str) -> (member: Option<&Document>)
        ensures
            match member {
                Some(d) => self@.get(key@) == Some(d@),
                None => self@.get(key@) is None,
            },
    {
        match self {
            Document::Object(entries) => {
                let key = String::from_str(key);
                match find(entries, &key) {
                    Some(i) => Some(&entries[i].1),
                    None => None,
                }
            },
            _ => None,
        }
    }

    /// The text of a string node.
    pub fn as_text(&self) -> (text: Option<&String>)
        ensures
            match text {
                Some(t) => self@.as_text() == Some(t@),
                None => self@.as_text() is None,
            },
    {
        match self {
            Document::Text(t) => Some(t),
            _ => None,
        }
    }

    /// The items of an array node.
    pub fn as_items(&self) -> (items: Option<&Vec<Document>>)
        ensures
            match items {
                Some(v) => self@.as_items() == Some(items_view(v@)),
                None => self@.as_items() is None,
            },
    {
        match self {
            Document::Array(items) => Some(items),
            _ => None,
        }
    }

    /// Gives `key` the value `value` in an object: an entry with this key
    /// is overwritten in place, otherwise the entry is added at the end.
    /// Anything that is not an object is handed back unchanged.
    pub fn with(self, key: &str, value: Document) -> (doc: Document)
        ensures
            doc@ == self@.with(key@, value@),
            proper(self@) && proper(value@) ==> proper(doc@),
    {
        match self {
            Document::Object(mut entries) => {
                proof {
                    if proper(self@) && proper(value@) {
                        lemma_put_proper(entries_view(entries@), key@, value@);
                    }
                }
                put_entry(&mut entries, String::from_str(key), value);
                Document::Object(entries)
            },
            other => other,
        }
    }

    /// Adds an item at the end of an array. Anything that is not an array
    /// is handed back unchanged.
    pub fn with_item(self, item: Document) -> (doc: Document)
        ensures
            doc@ == match self@ {
                Json::Array(items) => Json::Array(items.push(item@)),
                other => other,
            },
            proper(self@) && proper(item@) ==> proper(doc@),
    {
        match self {
            Document::Array(mut items) => {
                let ghost before = items_view(items@);
                items.push(item);
                assert(items_view(items@) =~= before.push(item@));
                proof {
                    if proper(Json::Array(before)) && proper(item@) {
                        lemma_push_proper(before, item@);
                    }
                }
                Document::Array(items)
            },
            other => other,
        }
    }

    /// A copy of the document.
    pub fn duplicate(&self) -> (copy: Document)
        ensures
            copy@ == self@,
        decreases self,
    {
        match self {
            Document::Null => Document::Null,
            Document::Bool(b) => Document::Bool(*b),
            Document::Number(t) => Document::Number(t.clone()),
            Document::Text(t) => Document::Text(t.clone()),
            Document::Array(items) => {
                let mut out: Vec<Document> = Vec::new();
                let mut i: usize = 0;
                while i < items.len()
                    invariant
                        i <= items.len(),
                        out@.len() == i,
                        forall|j: int| 0 <= j < i ==> (#[trigger] out@[j])@ == items@[j]@,
                        forall|j: int| 0 <= j < items@.len() ==> decreases_to!(self => items@[j]),
                    decreases items.len() - i,
                {
                    out.push(items[i].duplicate());
                    i += 1;
                }
                assert(items_view(out@) =~= items_view(items@));
                Document::Array(out)
            },
            Document::Object(entries) => {
                let mut out: Vec<(String, Document)> = Vec::new();
                let mut i: usize = 0;
                while i < entries.len()
                    invariant
                        i <= entries.len(),
                        out@.len() == i,
                        forall|j: int|
                            0 <= j < i ==> (#[trigger] out@[j]).0@ == entries@[j].0@ && out@[j].1@
                                == entries@[j].1@,
                        forall|j: int|
                            0 <= j < entries@.len() ==> decreases_to!(self => entries@[j].1),
                    decreases entries.len() - i,
                {
                    out.push((entries[i].0.clone(), entries[i].1.duplicate()));
                    i += 1;
                }
                assert(entries_view(out@) =~= entries_view(entries@));
                Document::Object(out)
            },
        }
    }
}

/// The value is proper: at any depth, every object has each key once and
/// every number is held as the text of a JSON number.
pub open spec fn proper(value: Json) -> bool
    decreases value,
{
    match value {
        Json::Number(text) => is_json_number(text),
        Json::Array(items) => forall|i: int|
            0 <= i < items.len() ==> proper(#[trigger] items[i]),
        Json::Object(entries) => distinct_keys(entries) && forall|i: int|
            0 <= i < entries.len() ==> proper((#[trigger] entries[i]).1),
        _ => true,
    }
}

/// The items of a proper array and the values of a proper object are
/// proper.
pub proof fn lemma_proper_parts(value: Json)
    requires
        proper(value),
    ensures
        value matches Json::Array(items) ==> forall|i: int|
            0 <= i < items.len() ==> proper(#[trigger] items[i]),
        value matches Json::Object(entries) ==> distinct_keys(entries) && forall|i: int|
            0 <= i < entries.len() ==> proper((#[trigger] entries[i]).1),
{
}

/// Adding a proper item keeps an array proper.
pub proof fn lemma_push_proper(items: Seq<Json>, item: Json)
    requires
        proper(Json::Array(items)),
        proper(item),
    ensures
        proper(Json::Array(items.push(item))),
{
    let after = items.push(item);
    lemma_proper_parts(Json::Array(items));
    assert forall|i: int| 0 <= i < after.len() implies proper(#[trigger] after[i]) by {
        if i < items.len() {
            let kept = items[i];
            assert(proper(kept));
            assert(after[i] == kept);
        } else {
            assert(after[i] == item);
        }
    }
}

/// Giving a key a proper value keeps an object proper.
pub proof fn lemma_put_proper(entries: Seq<(Seq<char>, Json)>, key: Seq<char>, value: Json)
    requires
        proper(Json::Object(entries)),
        proper(value),
    ensures
        proper(Json::Object(put(entries, key, value))),
{
    let after = put(entries, key, value);
    lemma_put_distinct(entries, key, value);
    lemma_index_from(entries, key, 0);
    assert forall|i: int| 0 <= i < after.len() implies proper((#[trigger] after[i]).1) by {
        if index_of(entries, key) == Some(i) {
        } else if i < entries.len() {
            assert(after[i] == entries[i]);
        }
    }
}

/// Two documents are the same value: scalars are equal, arrays are the
/// same item by item, and objects have as many entries and give every key
/// of the first the same value. The order of an object's entries does not
/// count.
pub open spec fn equivalent(a: Json, b: Json) -> bool
    decreases a,
{
    match a {
        Json::Null => b is Null,
        Json::Bool(x) => b == Json::Bool(x),
        Json::Number(x) => b == Json::Number(x),
        Json::Text(x) => b == Json::Text(x),
        Json::Array(items) => match b {
            Json::Array(others) => items.len() == others.len() && forall|i: int|
                0 <= i < items.len() ==> equivalent(#[trigger] items[i], others[i]),
            _ => false,
        },
        Json::Object(entries) => match b {
            Json::Object(others) => entries.len() == others.len() && forall|i: int|
                0 <= i < entries.len() ==> match lookup(others, (#[trigger] entries[i]).0) {
                    Some(value) => equivalent(entries[i].1, value),
                    None => false,
                },
            _ => false,
        },
    }
}

impl Document {
    /// Whether two documents are the same value, whatever the order of
    /// the entries of their objects.
    pub fn same_value(&self, other: &Document) -> (same: bool)
        ensures
            same == equivalent(self@, other@),
        decreases self,
    {
        match (self, other) {
            (Document::Null, Document::Null) => true,
            (Document::Bool(x), Document::Bool(y)) => *x == *y,
            (Document::Number(x), Document::Number(y)) => *x == *y,
            (Document::Text(x), Document::Text(y)) => *x == *y,
            (Document::Array(items), Document::Array(others)) => {
                if items.len() != others.len() {
                    assert(items_view(items@).len() != items_view(others@).len());
                    return false;
                }
                let ghost left = items_view(items@);
                let ghost right = items_view(others@);
                let mut i: usize = 0;
                while i < items.len()
                    invariant
                        i <= items.len(),
                        items.len() == others.len(),
                        left == items_view(items@),
                        right == items_view(others@),
                        self@ == Json::Array(left),
                        other@ == Json::Array(right),
                        forall|j: int| 0 <= j < i ==> equivalent(#[trigger] left[j], right[j]),
                        forall|j: int| 0 <= j < items@.len() ==> decreases_to!(self => items@[j]),
                    decreases items.len() - i,
                {
                    assert(left[i as int] == items@[i as int]@);
                    assert(right[i as int] == others@[i as int]@);
                    if !items[i].same_value(&others[i]) {
                        assert(!equivalent(left[i as int], right[i as int]));
                        return false;
                    }
                    i += 1;
                }
                true
            },
            (Document::Object(entries), Document::Object(others)) => {
                if entries.len() != others.len() {
                    assert(entries_view(entries@).len() != entries_view(others@).len());
                    return false;
                }
                let ghost left = entries_view(entries@);
                let ghost right = entries_view(others@);
                let mut i: usize = 0;
                while i < entries.len()
                    invariant
                        i <= entries.len(),
                        entries.len() == others.len(),
                        left == entries_view(entries@),
                        right == entries_view(others@),
                        self@ == Json::Object(left),
                        other@ == Json::Object(right),
                        forall|j: int|
                            0 <= j < i ==> match lookup(right, (#[trigger] left[j]).0) {
                                Some(value) => equivalent(left[j].1, value),
                                None => false,
                            },
                        forall|j: int|
                            0 <= j < entries@.len() ==> decreases_to!(self => entries@[j].1),
                    decreases entries.len() - i,
                {
                    assert(left[i as int] == (entries@[i as int].0@, entries@[i as int].1@));
                    match find(others, &entries[i].0) {
                        Some(k) => {
                            assert(right[k as int].1 == others@[k as int].1@);
                            if !entries[i].1.same_value(&others[k].1) {
                                return false;
                            }
                        },
                        None => {
                            return false;
                        },
                    }
                    i += 1;
                }
                true
            },
            _ => false,
        }
    }
}

/// What `index_from` finds is the first match at or after `from`.
pub proof fn lemma_index_from(entries: Seq<(Seq<char>, Json)>, key: Seq<char>, from: int)
    requires
        0 <= from,
    ensures
        match index_from(entries, key, from) {
            Some(i) => from <= i < entries.len() && entries[i].0 == key && forall|j: int|
                from <= j < i ==> (#[trigger] entries[j]).0 != key,
            None => forall|j: int| from <= j < entries.len() ==> (#[trigger] entries[j]).0 != key,
        },
    decreases entries.len() - from,
{
    if from < entries.len() && entries[from].0 != key {
        lemma_index_from(entries, key, from + 1);
    }
}

/// The first match is found from any position before it.
pub proof fn lemma_index_of_first(entries: Seq<(Seq<char>, Json)>, key: Seq<char>, i: int)
    requires
        0 <= i < entries.len(),
        entries[i].0 == key,
        forall|j: int| 0 <= j < i ==> (#[trigger] entries[j]).0 != key,
    ensures
        index_of(entries, key) == Some(i),
{
    lemma_index_from(entries, key, 0);
}

/// A key that no entry has is not found.
pub proof fn lemma_index_of_absent(entries: Seq<(Seq<char>, Json)>, key: Seq<char>)
    requires
        forall|j: int| 0 <= j < entries.len() ==> (#[trigger] entries[j]).0 != key,
    ensures
        index_of(entries, key) is None,
{
    lemma_index_from(entries, key, 0);
}

/// After `put`, the key has the new value and every other key has the
/// value it had.
pub proof fn lemma_lookup_put(
    entries: Seq<(Seq<char>, Json)>,
    key: Seq<char>,
    value: Json,
    other: Seq<char>,
)
    ensures
        lookup(put(entries, key, value), key) == Some(value),
        other != key ==> lookup(put(entries, key, value), other) == lookup(entries, other),
{
    let after = put(entries, key, value);
    lemma_index_from(entries, key, 0);
    lemma_index_from(entries, other, 0);
    match index_of(entries, key) {
        Some(i) => {
            assert(after[i].0 == key);
            assert forall|j: int| 0 <= j < i implies (#[trigger] after[j]).0 != key by {
                assert(after[j] == entries[j]);
            }
            lemma_index_of_first(after, key, i);
        },
        None => {
            let n = entries.len() as int;
            assert forall|j: int| 0 <= j < n implies (#[trigger] after[j]).0 != key by {
                assert(after[j] == entries[j]);
            }
            lemma_index_of_first(after, key, n);
        },
    }
    if other != key {
        match index_of(entries, other) {
            Some(k) => {
                assert(after[k] == entries[k]);
                assert forall|j: int| 0 <= j < k implies (#[trigger] after[j]).0 != other by {
                    if index_of(entries, key) == Some(j) {
                    } else {
                        assert(after[j] == entries[j]);
                    }
                }
                lemma_index_of_first(after, other, k);
            },
            None => {
                assert forall|j: int| 0 <= j < after.len() implies (#[trigger] after[j]).0
                    != other by {
                    if j < entries.len() && index_of(entries, key) != Some(j) {
                        assert(after[j] == entries[j]);
                    }
                }
                lemma_index_of_absent(after, other);
            },
        }
    }
}

/// `put` keeps the keys distinct.
pub proof fn lemma_put_distinct(entries: Seq<(Seq<char>, Json)>, key: Seq<char>, value: Json)
    requires
        distinct_keys(entries),
    ensures
        distinct_keys(put(entries, key, value)),
{
    let after = put(entries, key, value);
    lemma_index_from(entries, key, 0);
    assert forall|i: int, j: int| 0 <= i < j < after.len() implies (#[trigger] after[i]).0 != (
    #[trigger] after[j]).0 by {
        match index_of(entries, key) {
            Some(k) => {
                assert(after[i].0 == entries[i].0);
                assert(after[j].0 == entries[j].0);
            },
            None => {
                assert(after[i] == entries[i]);
                if j < entries.len() {
                    assert(after[j] == entries[j]);
                }
            },
        }
    }
}

} // verus!
