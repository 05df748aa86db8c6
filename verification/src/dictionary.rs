//! The dictionary of short ids, gathered in a JSON map.

use crate::document::{
    distinct_keys, entries_view, lemma_index_from, lemma_index_of_absent, lemma_index_of_first,
    lemma_lookup_put, lookup, put, Document, Json,
};
use vstd::prelude::*;

verus! {

/// `serde_json::Map`, carried as a value that is not looked into.
#[verifier::external_type_specification]
#[verifier::external_body]
#[verifier::reject_recursive_types(K)]
#[verifier::reject_recursive_types(V)]
pub struct ExJsonMap<K, V>(serde_json::Map<K, V>);

/// `serde_json::Value`, carried as a value that is not looked into.
#[verifier::external_type_specification]
#[verifier::external_body]
pub struct ExJsonValue(serde_json::Value);

/// What a JSON map holds: each of its keys, with the text of its value
/// where the value is a string and with `None` where it is not.
pub uninterp spec fn members(map: serde_json::Map<String, serde_json::Value>) -> Map<
    Seq<char>,
    Option<Seq<char>>,
>;

/// Calls `serde_json::Map::new`, which makes a map without entries.
#[verifier::external_body]
fn new_map() -> (made: serde_json::Map<String, serde_json::Value>)
    ensures
        forall|key: Seq<char>| !members(made).contains_key(key),
{
    serde_json::Map::new()
}

/// Calls `serde_json::Map::insert` with a string value: the key holds the
/// text afterwards, whether it was there before or not, and every other
/// key holds what it held.
#[verifier::external_body]
fn insert_text(target: &mut serde_json::Map<String, serde_json::Value>, key: String, text: String)
    ensures
        members(*final(target)) == members(*old(target)).insert(key@, Some(text@)),
{
    target.insert(key, serde_json::Value::String(text));
}

/// The text that a listed value stands for.
pub open spec fn listed_text(value: Option<String>) -> Option<Seq<char>> {
    match value {
        Some(text) => Some(text@),
        None => None,
    }
}

/// Walks the map with `serde_json::Map::iter` and hands out each entry
/// once, its value read with `Value::as_str`. Every key of the map is
/// listed, none twice; the order is that of the map and is left open.
#[verifier::external_body]
fn list_members(source: &serde_json::Map<String, serde_json::Value>) -> (listed: Vec<
    (String, Option<String>),
>)
    ensures
        forall|i: int, j: int|
            0 <= i < j < listed@.len() ==> (#[trigger] listed@[i]).0@ != (#[trigger] listed@[j]).0@,
        forall|i: int|
            0 <= i < listed@.len() ==> members(*source).contains_key((#[trigger] listed@[i]).0@)
                && members(*source)[listed@[i].0@] == listed_text(listed@[i].1),
        forall|key: Seq<char>| #[trigger]
            members(*source).contains_key(key) ==> exists|i: int|
                0 <= i < listed@.len() && (#[trigger] listed@[i]).0@ == key,
{
    source.iter().map(|(k, v)| (k.clone(), v.as_str().map(|s| s.to_string()))).collect()
}

/// The dictionary after the first `n` pairs of short id and unique id
/// were entered, a later pair overwriting an earlier one of the same
/// short id.
pub open spec fn dictionary_entries(pairs: Seq<(Seq<char>, Seq<char>)>, n: int) -> Seq<
    (Seq<char>, Json),
>
    decreases n,
{
    if n <= 0 || n > pairs.len() {
        Seq::empty()
    } else {
        put(dictionary_entries(pairs, n - 1), pairs[n - 1].0, Json::Text(pairs[n - 1].1))
    }
}

/// The views of pairs of strings.
pub open spec fn pairs_view(pairs: Seq<(String, String)>) -> Seq<(Seq<char>, Seq<char>)> {
    Seq::new(pairs.len(), |i: int| (pairs[i].0@, pairs[i].1@))
}

/// The document is the dictionary of the pairs: an object that holds each
/// key once and gives every key what the pairs, entered in order, give
/// it. The order of its entries is left open.
pub open spec fn holds_pairs(dictionary: Json, pairs: Seq<(Seq<char>, Seq<char>)>) -> bool {
    &&& dictionary matches Json::Object(entries)
    &&& distinct_keys(entries)
    &&& forall|key: Seq<char>| #[trigger]
        lookup(entries, key) == lookup(dictionary_entries(pairs, pairs.len() as int), key)
}

/// What a map holds under a key, where it holds the key.
pub open spec fn member(map: Map<Seq<char>, Option<Seq<char>>>, key: Seq<char>) -> Option<
    Option<Seq<char>>,
> {
    if map.contains_key(key) {
        Some(map[key])
    } else {
        None
    }
}

/// What a dictionary entry stands for in a map of texts.
pub open spec fn entry_text(value: Option<Json>) -> Option<Option<Seq<char>>> {
    match value {
        Some(Json::Text(text)) => Some(Some(text)),
        Some(_) => Some(None),
        None => None,
    }
}

/// Every value of the dictionary is a string.
pub proof fn lemma_dictionary_values_are_text(
    pairs: Seq<(Seq<char>, Seq<char>)>,
    n: int,
    key: Seq<char>,
)
    ensures
        lookup(dictionary_entries(pairs, n), key) matches Some(value) ==> value is Text,
    decreases n,
{
    if n <= 0 || n > pairs.len() {
        lemma_index_from(dictionary_entries(pairs, n), key, 0);
    } else {
        lemma_dictionary_values_are_text(pairs, n - 1, key);
        lemma_lookup_put(
            dictionary_entries(pairs, n - 1),
            pairs[n - 1].0,
            Json::Text(pairs[n - 1].1),
            key,
        );
    }
}

/// Builds the dictionary from the pairs of short id and unique id of the
/// submodels that were fetched: the pairs are entered into a JSON map in
/// order, and the map is written out as an object.
pub fn build_dictionary(pairs: &Vec<(String, String)>) -> (dictionary: Document)
    ensures
        holds_pairs(dictionary@, pairs_view(pairs@)),
{
    let ghost model = pairs_view(pairs@);
    let mut map = new_map();
    let mut i: usize = 0;
    proof {
        assert forall|key: Seq<char>|
            member(members(map), key) == entry_text(
                #[trigger] lookup(dictionary_entries(model, 0), key),
            ) by {
            lemma_index_from(dictionary_entries(model, 0), key, 0);
        }
    }
    while i < pairs.len()
        invariant
            i <= pairs.len(),
            model == pairs_view(pairs@),
            forall|key: Seq<char>|
                member(members(map), key) == entry_text(
                    #[trigger] lookup(dictionary_entries(model, i as int), key),
                ),
        decreases pairs.len() - i,
    {
        let ghost before = members(map);
        assert(model[i as int] == (pairs@[i as int].0@, pairs@[i as int].1@));
        insert_text(&mut map, pairs[i].0.clone(), pairs[i].1.clone());
        proof {
            let entries = dictionary_entries(model, i as int);
            let id = model[i as int].0;
            let uid = model[i as int].1;
            assert(dictionary_entries(model, i + 1) == put(entries, id, Json::Text(uid)));
            assert forall|key: Seq<char>|
                member(members(map), key) == entry_text(
                    #[trigger] lookup(dictionary_entries(model, i + 1), key),
                ) by {
                lemma_lookup_put(entries, id, Json::Text(uid), key);
                assert(member(before, key) == entry_text(lookup(entries, key)));
            }
        }
        i += 1;
    }
    let listed = list_members(&map);
    let mut entries: Vec<(String, Document)> = Vec::new();
    let mut k: usize = 0;
    while k < listed.len()
        invariant
            k <= listed.len(),
            entries@.len() == k,
            forall|j: int|
                0 <= j < k ==> (#[trigger] entries@[j]).0@ == listed@[j].0@ && entry_text(
                    Some(entries@[j].1@),
                ) == Some(listed_text(listed@[j].1)),
        decreases listed.len() - k,
    {
        let value = match &listed[k].1 {
            Some(text) => Document::Text(text.clone()),
            None => Document::Null,
        };
        entries.push((listed[k].0.clone(), value));
        k += 1;
    }
    proof {
        let written = entries_view(entries@);
        let wanted = dictionary_entries(model, model.len() as int);
        assert forall|a: int, b: int| 0 <= a < b < written.len() implies (#[trigger] written[a]).0
            != (#[trigger] written[b]).0 by {
            assert(written[a].0 == listed@[a].0@);
            assert(written[b].0 == listed@[b].0@);
        }
        assert forall|key: Seq<char>| #[trigger] lookup(written, key) == lookup(wanted, key) by {
            lemma_dictionary_values_are_text(model, model.len() as int, key);
            assert(member(members(map), key) == entry_text(lookup(wanted, key)));
            if members(map).contains_key(key) {
                let at = choose|at: int|
                    0 <= at < listed@.len() && (#[trigger] listed@[at]).0@ == key;
                assert(written[at].0 == key);
                assert forall|j: int| 0 <= j < at implies (#[trigger] written[j]).0 != key by {
                    assert(written[j].0 == listed@[j].0@);
                }
                lemma_index_of_first(written, key, at);
                assert(entry_text(Some(written[at].1)) == Some(listed_text(listed@[at].1)));
            } else {
                assert forall|j: int| 0 <= j < written.len() implies (#[trigger] written[j]).0
                    != key by {
                    assert(written[j].0 == listed@[j].0@);
                    assert(members(map).contains_key(listed@[j].0@));
                }
                lemma_index_of_absent(written, key);
            }
        }
    }
    Document::Object(entries)
}

} // verus!
