//! Structural merge of a flat value view into a submodel document, and the
//! projection of a submodel document to its flat value view.

use crate::document::{
    entries_view, find, index_of, items_view, put, put_entry, Document, Json,
};
use crate::document::proper;
use crate::merge_laws::{lemma_flat_view_proper, lemma_merge_proper};
use crate::text::{compact, compact_text};
use vstd::prelude::*;
use vstd::string::*;

verus! {

/// The key that names the kind of an element.
pub open spec fn key_model_type() -> Seq<char> {
    "modelType"@
}

/// The key that holds the short id of an element.
pub open spec fn key_id_short() -> Seq<char> {
    "idShort"@
}

/// The key that holds the value of a leaf and the children of a collection.
pub open spec fn key_value() -> Seq<char> {
    "value"@
}

/// The key that holds the elements of a submodel.
pub open spec fn key_elements() -> Seq<char> {
    "submodelElements"@
}

/// The kind of a leaf element.
pub open spec fn kind_property() -> Seq<char> {
    "Property"@
}

/// The kind of an element that nests further elements.
pub open spec fn kind_collection() -> Seq<char> {
    "SubmodelElementCollection"@
}

/// The element is a leaf.
pub open spec fn is_property(element: Json) -> bool {
    element.get(key_model_type()) == Some(Json::Text(kind_property()))
}

/// The element nests further elements.
pub open spec fn is_collection(element: Json) -> bool {
    element.get(key_model_type()) == Some(Json::Text(kind_collection()))
}

/// The short id of an element, where it has one.
pub open spec fn id_short(element: Json) -> Option<Seq<char>> {
    match element.get(key_id_short()) {
        Some(Json::Text(id)) => Some(id),
        _ => None,
    }
}

/// The value that a leaf holds, where it holds one.
pub open spec fn leaf_value(element: Json) -> Option<Seq<char>> {
    match element.get(key_value()) {
        Some(Json::Text(text)) => Some(text),
        _ => None,
    }
}

/// The text that a patch value becomes in a string slot: a string as it
/// is, anything else as its compact text.
pub open spec fn leaf_text(value: Json) -> Seq<char> {
    match value {
        Json::Text(text) => text,
        other => compact_text(other),
    }
}

/// One element after the patch: a leaf that holds a value and whose id the
/// patch names takes the patch's value as text; a collection whose id the
/// patch names has the patch's member merged into its children; any other
/// element stays as it is.
pub open spec fn merge_element(element: Json, patch: Json) -> Json
    decreases element, 0int,
{
    match id_short(element) {
        Some(id) => match patch.get(id) {
            Some(value) => if is_property(element) {
                if leaf_value(element) is Some {
                    element.with(key_value(), Json::Text(leaf_text(value)))
                } else {
                    element
                }
            } else if is_collection(element) {
                match element {
                    Json::Object(entries) => match index_of(entries, key_value()) {
                        Some(i) => if 0 <= i < entries.len() {
                            match entries[i].1 {
                                Json::Array(nested) => element.with(
                                    key_value(),
                                    Json::Array(merge_elements(nested, value)),
                                ),
                                _ => element,
                            }
                        } else {
                            element
                        },
                        None => element,
                    },
                    _ => element,
                }
            } else {
                element
            },
            None => element,
        },
        None => element,
    }
}

/// Every element after the patch, in place.
pub open spec fn merge_elements(elements: Seq<Json>, patch: Json) -> Seq<Json>
    decreases elements, 1int,
{
    Seq::new(
        elements.len(),
        |i: int|
            if 0 <= i < elements.len() {
                merge_element(elements[i], patch)
            } else {
                Json::Null
            },
    )
}

/// The value is a scalar: null, a truth value, a number or a string.
pub open spec fn is_scalar(value: Json) -> bool {
    value is Null || value is Bool || value is Number || value is Text
}

/// One member of a flat view after the patch has named it: a string slot
/// takes the patch's value as text; a nested view has the patch's value
/// merged in; any other scalar slot takes a scalar as it is; an array, and
/// a scalar slot that is offered an array or an object, stays.
pub open spec fn merge_flat_value(value: Json, given: Json) -> Json
    decreases value, 0int,
{
    match value {
        Json::Object(entries) => Json::Object(merge_flat_entries(entries, given)),
        Json::Text(_) => Json::Text(leaf_text(given)),
        Json::Array(_) => value,
        _ => if is_scalar(given) {
            given
        } else {
            value
        },
    }
}

/// The entries of a flat view after the patch: every entry that the patch
/// names is merged with what the patch gives it, every other entry stays,
/// and no entry is added.
pub open spec fn merge_flat_entries(entries: Seq<(Seq<char>, Json)>, patch: Json) -> Seq<
    (Seq<char>, Json),
>
    decreases entries, 1int,
{
    Seq::new(
        entries.len(),
        |i: int|
            if 0 <= i < entries.len() {
                (
                    entries[i].0,
                    match patch.get(entries[i].0) {
                        Some(given) => merge_flat_value(entries[i].1, given),
                        None => entries[i].1,
                    },
                )
            } else {
                (Seq::empty(), Json::Null)
            },
    )
}

/// The kind that a submodel document names.
pub open spec fn kind_submodel() -> Seq<char> {
    "Submodel"@
}

/// The document is a schema document: it names the kind of a submodel, or
/// it holds an array of elements.
pub open spec fn is_schema_document(doc: Json) -> bool {
    ||| doc.get(key_model_type()) == Some(Json::Text(kind_submodel()))
    ||| doc.get(key_elements()) matches Some(Json::Array(_))
}

/// The document is a flat view: an object that is no schema document.
pub open spec fn is_flat_view(doc: Json) -> bool {
    doc is Object && !is_schema_document(doc)
}

/// The document after the patch. In a schema document the elements are
/// merged and everything else stays, its id, kind and description among
/// it; one without an array of elements stays whole. In a flat view the
/// entries are merged. Anything else stays as it is.
pub open spec fn merge_spec(base: Json, patch: Json) -> Json {
    match base.get(key_elements()) {
        Some(Json::Array(elements)) => base.with(
            key_elements(),
            Json::Array(merge_elements(elements, patch)),
        ),
        _ => match base {
            Json::Object(entries) => if is_flat_view(base) {
                Json::Object(merge_flat_entries(entries, patch))
            } else {
                base
            },
            _ => base,
        },
    }
}

/// What one element gives to the flat view: a leaf gives its id with its
/// value, or with null where it holds none; a collection that holds
/// elements gives its id with their flat view; any other element, and one
/// without an id, gives nothing.
pub open spec fn contribution(element: Json) -> Option<(Seq<char>, Json)>
    decreases element, 0int,
{
    match id_short(element) {
        Some(id) => if is_property(element) {
            Some(
                (
                    id,
                    match leaf_value(element) {
                        Some(text) => Json::Text(text),
                        None => Json::Null,
                    },
                ),
            )
        } else if is_collection(element) {
            match element {
                Json::Object(entries) => match index_of(entries, key_value()) {
                    Some(i) => if 0 <= i < entries.len() {
                        match entries[i].1 {
                            Json::Array(nested) => Some(
                                (id, Json::Object(flatten_prefix(nested, nested.len() as int))),
                            ),
                            _ => None,
                        }
                    } else {
                        None
                    },
                    None => None,
                },
                _ => None,
            }
        } else {
            None
        },
        None => None,
    }
}

/// The entries that the first `n` elements give, a later element
/// overwriting an earlier one of the same id.
pub open spec fn flatten_prefix(elements: Seq<Json>, n: int) -> Seq<(Seq<char>, Json)>
    decreases elements, n,
{
    if n <= 0 || n > elements.len() {
        Seq::empty()
    } else {
        let rest = flatten_prefix(elements, n - 1);
        match contribution(elements[n - 1]) {
            Some((id, value)) => put(rest, id, value),
            None => rest,
        }
    }
}

/// The entries that a sequence of elements gives.
pub open spec fn flatten_elements(elements: Seq<Json>) -> Seq<(Seq<char>, Json)> {
    flatten_prefix(elements, elements.len() as int)
}

/// The flat value view of a document: an object with what its elements
/// give; the empty object where it has no array of elements.
pub open spec fn flatten_spec(doc: Json) -> Json {
    match doc.get(key_elements()) {
        Some(Json::Array(elements)) => Json::Object(flatten_elements(elements)),
        _ => Json::Object(Seq::empty()),
    }
}

/// The text under `key`, where the member is a string.
fn text_member<'a>(doc: &'a Document, key: &str) -> (text: Option<&'a String>)
    ensures
        match text {
            Some(t) => doc@.get(key@) == Some(Json::Text(t@)),
            None => !(doc@.get(key@) matches Some(Json::Text(_))),
        },
{
    match doc.get(key) {
        Some(member) => member.as_text(),
        None => None,
    }
}

/// Whether the element names the given kind.
fn has_kind(element: &Document, kind: &str) -> (named: bool)
    ensures
        named == (element@.get(key_model_type()) == Some(Json::Text(kind@))),
{
    match text_member(element, "modelType") {
        Some(found) => {
            let wanted = String::from_str(kind);
            *found == wanted
        },
        None => false,
    }
}

/// Merges the patch into one element.
pub fn merge_element_exec(element: &Document, patch: &Document) -> (merged: Document)
    ensures
        merged@ == merge_element(element@, patch@),
    decreases element,
{
    let id = match text_member(element, "idShort") {
        Some(id) => id,
        None => {
            return element.duplicate();
        },
    };
    let value = match patch.get(id.as_str()) {
        Some(value) => value,
        None => {
            return element.duplicate();
        },
    };
    if has_kind(element, "Property") {
        match text_member(element, "value") {
            Some(_) => {
                let text = match value.as_text() {
                    Some(text) => text.clone(),
                    None => compact(value),
                };
                element.duplicate().with("value", Document::Text(text))
            },
            None => element.duplicate(),
        }
    } else if has_kind(element, "SubmodelElementCollection") {
        match element {
            Document::Object(entries) => {
                let key = String::from_str("value");
                match find(entries, &key) {
                    Some(i) => match &entries[i].1 {
                        Document::Array(nested) => {
                            let merged = merge_elements_exec(nested, value);
                            element.duplicate().with("value", Document::Array(merged))
                        },
                        _ => element.duplicate(),
                    },
                    None => element.duplicate(),
                }
            },
            _ => element.duplicate(),
        }
    } else {
        element.duplicate()
    }
}

/// Merges the patch into every element.
pub fn merge_elements_exec(elements: &Vec<Document>, patch: &Document) -> (merged: Vec<Document>)
    ensures
        items_view(merged@) == merge_elements(items_view(elements@), patch@),
    decreases elements,
{
    let mut merged: Vec<Document> = Vec::new();
    let mut i: usize = 0;
    while i < elements.len()
        invariant
            i <= elements.len(),
            merged@.len() == i,
            forall|j: int|
                0 <= j < i ==> (#[trigger] merged@[j])@ == merge_element(elements@[j]@, patch@),
            forall|j: int| 0 <= j < elements@.len() ==> decreases_to!(elements => elements@[j]),
        decreases elements.len() - i,
    {
        merged.push(merge_element_exec(&elements[i], patch));
        i += 1;
    }
    assert(items_view(merged@) =~= merge_elements(items_view(elements@), patch@));
    merged
}

/// Merges what the patch gives into one member of a flat view.
pub fn merge_flat_value_exec(value: &Document, given: &Document) -> (merged: Document)
    ensures
        merged@ == merge_flat_value(value@, given@),
    decreases value,
{
    match value {
        Document::Object(entries) => Document::Object(merge_flat_entries_exec(entries, given)),
        Document::Text(_) => {
            let text = match given.as_text() {
                Some(text) => text.clone(),
                None => compact(given),
            };
            Document::Text(text)
        },
        Document::Array(_) => value.duplicate(),
        _ => match given {
            Document::Array(_) => value.duplicate(),
            Document::Object(_) => value.duplicate(),
            _ => given.duplicate(),
        },
    }
}

/// Merges the patch into the entries of a flat view.
pub fn merge_flat_entries_exec(entries: &Vec<(String, Document)>, patch: &Document) -> (merged: Vec<
    (String, Document),
>)
    ensures
        entries_view(merged@) == merge_flat_entries(entries_view(entries@), patch@),
    decreases entries,
{
    let ghost model = entries_view(entries@);
    let mut merged: Vec<(String, Document)> = Vec::new();
    let mut i: usize = 0;
    while i < entries.len()
        invariant
            i <= entries.len(),
            model == entries_view(entries@),
            merged@.len() == i,
            forall|j: int|
                0 <= j < i ==> (#[trigger] merged@[j]).0@ == model[j].0 && merged@[j].1@
                    == merge_flat_entries(model, patch@)[j].1,
            forall|j: int| 0 <= j < entries@.len() ==> decreases_to!(entries => entries@[j].1),
        decreases entries.len() - i,
    {
        assert(model[i as int] == (entries@[i as int].0@, entries@[i as int].1@));
        let value = match patch.get(entries[i].0.as_str()) {
            Some(given) => merge_flat_value_exec(&entries[i].1, given),
            None => entries[i].1.duplicate(),
        };
        merged.push((entries[i].0.clone(), value));
        i += 1;
    }
    assert(entries_view(merged@) =~= merge_flat_entries(model, patch@));
    merged
}

/// Merges a flat value view into a document and keeps the shape of the
/// document. In a schema document a leaf that holds a value takes the
/// value that the view gives to its id, a string as it is and anything
/// else as its compact text, and a collection takes the nested view of its
/// id; nothing but the elements is touched. In a flat view every entry
/// that the patch names takes the patch's value. What the patch names
/// beyond the document is dropped.
pub fn merge_submodel_value_to_submodel(submodel: Document, submodel_value: Document) -> (merged:
    Document)
    ensures
        merged@ == merge_spec(submodel@, submodel_value@),
        proper(submodel@) && proper(submodel_value@) ==> proper(merged@),
{
    proof {
        if proper(submodel@) && proper(submodel_value@) {
            lemma_merge_proper(submodel@, submodel_value@);
        }
    }
    let merged = match submodel.get("submodelElements") {
        Some(Document::Array(elements)) => Some(merge_elements_exec(elements, &submodel_value)),
        _ => None,
    };
    match merged {
        Some(elements) => submodel.with("submodelElements", Document::Array(elements)),
        None => {
            if has_kind(&submodel, "Submodel") {
                submodel
            } else {
                match submodel {
                    Document::Object(entries) => Document::Object(
                        merge_flat_entries_exec(&entries, &submodel_value),
                    ),
                    other => other,
                }
            }
        },
    }
}

/// What one element gives to the flat view.
pub fn contribution_exec(element: &Document) -> (given: Option<(String, Document)>)
    ensures
        match given {
            Some((id, value)) => contribution(element@) == Some((id@, value@)),
            None => contribution(element@) is None,
        },
    decreases element,
{
    let id = match text_member(element, "idShort") {
        Some(id) => id,
        None => {
            return None;
        },
    };
    if has_kind(element, "Property") {
        let value = match text_member(element, "value") {
            Some(text) => Document::Text(text.clone()),
            None => Document::Null,
        };
        Some((id.clone(), value))
    } else if has_kind(element, "SubmodelElementCollection") {
        match element {
            Document::Object(entries) => {
                let key = String::from_str("value");
                match find(entries, &key) {
                    Some(i) => match &entries[i].1 {
                        Document::Array(nested) => {
                            let flat = flatten_elements_exec(nested);
                            Some((id.clone(), Document::Object(flat)))
                        },
                        _ => None,
                    },
                    None => None,
                }
            },
            _ => None,
        }
    } else {
        None
    }
}

/// The entries of the flat view of a sequence of elements.
pub fn flatten_elements_exec(elements: &Vec<Document>) -> (flat: Vec<(String, Document)>)
    ensures
        entries_view(flat@) == flatten_elements(items_view(elements@)),
    decreases elements,
{
    let ghost model = items_view(elements@);
    let mut flat: Vec<(String, Document)> = Vec::new();
    let mut i: usize = 0;
    assert(entries_view(flat@) =~= flatten_prefix(model, 0));
    while i < elements.len()
        invariant
            i <= elements.len(),
            model == items_view(elements@),
            entries_view(flat@) == flatten_prefix(model, i as int),
            forall|j: int| 0 <= j < elements@.len() ==> decreases_to!(elements => elements@[j]),
        decreases elements.len() - i,
    {
        assert(model[i as int] == elements@[i as int]@);
        match contribution_exec(&elements[i]) {
            Some((id, value)) => {
                put_entry(&mut flat, id, value);
            },
            None => {},
        }
        i += 1;
    }
    flat
}

/// Projects a submodel document to its flat value view: each leaf gives
/// its id with its value, or with null where it holds none; each
/// collection gives its id with the flat view of its elements.
pub fn submodel_to_submodel_value(submodel: Document) -> (flat: Document)
    ensures
        flat@ == flatten_spec(submodel@),
        proper(flat@),
{
    proof {
        match submodel@.get(key_elements()) {
            Some(Json::Array(elements)) => {
                lemma_flat_view_proper(elements, elements.len() as int);
            },
            _ => {},
        }
    }
    match submodel.get("submodelElements") {
        Some(Document::Array(elements)) => Document::Object(flatten_elements_exec(elements)),
        _ => Document::object(),
    }
}

/// The value view of a document: the flat view of a schema document; any
/// other document is its own value view.
pub open spec fn value_view_spec(doc: Json) -> Json {
    if is_schema_document(doc) {
        flatten_spec(doc)
    } else {
        doc
    }
}

/// Hands out the value view of a stored document, whether it is stored as
/// a schema document or as a flat view.
pub fn value_view(doc: Document) -> (flat: Document)
    ensures
        flat@ == value_view_spec(doc@),
{
    let schema = match doc.get("submodelElements") {
        Some(Document::Array(_)) => true,
        _ => has_kind(&doc, "Submodel"),
    };
    if schema {
        submodel_to_submodel_value(doc)
    } else {
        doc
    }
}

} // verus!
