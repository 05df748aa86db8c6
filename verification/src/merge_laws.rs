//! What holds of merge and flat view together.

use crate::document::{
    index_of, lemma_index_from, lemma_index_of_first, lemma_lookup_put, lemma_proper_parts,
    lemma_put_proper, lookup, proper, put, Json,
};
use crate::merge::{
    contribution, flatten_elements, flatten_prefix, flatten_spec, id_short, is_collection,
    is_flat_view, is_property, is_schema_document, key_elements, key_value, leaf_text, leaf_value,
    merge_element, merge_elements,
    merge_flat_entries, merge_flat_value, merge_spec, value_view_spec,
};
use vstd::prelude::*;

verus! {

/// The id under which an element gives an entry to the flat view.
pub open spec fn given_id(element: Json) -> Seq<char> {
    match contribution(element) {
        Some((id, _)) => id,
        None => Seq::empty(),
    }
}

/// The value that an element gives to the flat view.
pub open spec fn given_value(element: Json) -> Json {
    match contribution(element) {
        Some((_, value)) => value,
        None => Json::Null,
    }
}

/// No two elements give the flat view an entry under the same id.
pub open spec fn distinct_ids(elements: Seq<Json>) -> bool {
    forall|i: int, j: int|
        0 <= i < j < elements.len() && #[trigger] contribution(elements[i]) is Some
            && #[trigger] contribution(elements[j]) is Some ==> given_id(elements[i]) != given_id(
            elements[j],
        )
}

/// The elements nested in a collection satisfy `well_formed_elements`.
pub open spec fn well_formed_element(element: Json) -> bool
    decreases element, 0int,
{
    match element {
        Json::Object(entries) => match index_of(entries, key_value()) {
            Some(i) => if 0 <= i < entries.len() && is_collection(element) {
                match entries[i].1 {
                    Json::Array(nested) => well_formed_elements(nested),
                    _ => true,
                }
            } else {
                true
            },
            None => true,
        },
        _ => true,
    }
}

/// At every level of nesting, the ids under which elements give entries
/// are distinct.
pub open spec fn well_formed_elements(elements: Seq<Json>) -> bool
    decreases elements, 1int,
{
    &&& distinct_ids(elements)
    &&& forall|i: int| 0 <= i < elements.len() ==> well_formed_element(#[trigger] elements[i])
}

/// A document whose elements, where it has any, are well formed.
pub open spec fn well_formed(doc: Json) -> bool {
    match doc.get(key_elements()) {
        Some(Json::Array(elements)) => well_formed_elements(elements),
        _ => true,
    }
}

/// An element cannot be a leaf and a collection at once.
pub proof fn lemma_kinds_differ(element: Json)
    ensures
        !(is_property(element) && is_collection(element)),
{
    reveal_strlit("Property");
    reveal_strlit("SubmodelElementCollection");
    assert("Property"@.len() != "SubmodelElementCollection"@.len());
}

/// Giving a key the value it already has changes nothing.
pub proof fn lemma_put_same(entries: Seq<(Seq<char>, Json)>, key: Seq<char>, value: Json)
    requires
        lookup(entries, key) == Some(value),
    ensures
        put(entries, key, value) == entries,
{
    lemma_index_from(entries, key, 0);
    let i = index_of(entries, key)->0;
    assert(entries[i] == (key, value));
    assert(put(entries, key, value) =~= entries);
}

/// In the flat view of the first `n` elements, with distinct ids, each of
/// them finds what it gave.
pub proof fn lemma_flat_view_holds_contribution(elements: Seq<Json>, n: int, k: int)
    requires
        distinct_ids(elements),
        0 <= k < n <= elements.len(),
        contribution(elements[k]) is Some,
    ensures
        lookup(flatten_prefix(elements, n), given_id(elements[k])) == Some(
            given_value(elements[k]),
        ),
    decreases n,
{
    let given = contribution(elements[k])->0;
    let rest = flatten_prefix(elements, n - 1);
    if k == n - 1 {
        lemma_lookup_put(rest, given.0, given.1, given.0);
    } else {
        lemma_flat_view_holds_contribution(elements, n - 1, k);
        match contribution(elements[n - 1]) {
            Some((id, value)) => {
                lemma_lookup_put(rest, id, value, given.0);
            },
            None => {},
        }
    }
}

/// A well-formed element is left as it is by a patch that gives its id
/// what the element itself gives to the flat view.
pub proof fn lemma_merge_element_own_view(element: Json, patch: Json)
    requires
        well_formed_element(element),
        contribution(element) matches Some((id, value)) ==> patch.get(id) == Some(value),
    ensures
        merge_element(element, patch) == element,
    decreases element, 0int,
{
    lemma_kinds_differ(element);
    match id_short(element) {
        Some(id) => {
            if is_property(element) {
                match leaf_value(element) {
                    Some(text) => {
                        let entries = element->Object_0;
                        lemma_put_same(entries, key_value(), Json::Text(text));
                    },
                    None => {},
                }
            } else if is_collection(element) {
                match element {
                    Json::Object(entries) => {
                        lemma_index_from(entries, key_value(), 0);
                        match index_of(entries, key_value()) {
                            Some(i) => {
                                match entries[i].1 {
                                    Json::Array(nested) => {
                                        let flat = Json::Object(flatten_elements(nested));
                                        assert(patch.get(id) == Some(flat));
                                        lemma_merge_elements_own_view(nested);
                                        lemma_put_same(entries, key_value(), Json::Array(nested));
                                    },
                                    _ => {},
                                }
                            },
                            None => {},
                        }
                    },
                    _ => {},
                }
            }
        },
        None => {},
    }
}

/// Well-formed elements are left as they are by their own flat view.
pub proof fn lemma_merge_elements_own_view(elements: Seq<Json>)
    requires
        well_formed_elements(elements),
    ensures
        merge_elements(elements, Json::Object(flatten_elements(elements))) == elements,
    decreases elements, 1int,
{
    let patch = Json::Object(flatten_elements(elements));
    let merged = merge_elements(elements, patch);
    assert forall|i: int| 0 <= i < elements.len() implies merged[i] == elements[i] by {
        if contribution(elements[i]) is Some {
            lemma_flat_view_holds_contribution(elements, elements.len() as int, i);
        }
        lemma_merge_element_own_view(elements[i], patch);
    }
    assert(merged =~= elements);
}

/// Merging into a well-formed document its own flat view gives the
/// document back.
pub proof fn lemma_merge_idempotent(doc: Json)
    requires
        well_formed(doc),
    ensures
        merge_spec(doc, flatten_spec(doc)) == doc,
{
    match doc.get(key_elements()) {
        Some(Json::Array(elements)) => {
            lemma_merge_elements_own_view(elements);
            lemma_put_same(doc->Object_0, key_elements(), Json::Array(elements));
        },
        _ => {
            lemma_merge_empty_patch(doc);
        },
    }
}

/// The shape of a document: its nesting and its field names, with every
/// scalar replaced by null.
pub open spec fn shape(value: Json) -> Json
    decreases value, 0int,
{
    match value {
        Json::Array(items) => Json::Array(shape_items(items)),
        Json::Object(entries) => Json::Object(shape_entries(entries)),
        _ => Json::Null,
    }
}

/// The shapes of the items of an array.
pub open spec fn shape_items(items: Seq<Json>) -> Seq<Json>
    decreases items, 1int,
{
    Seq::new(
        items.len(),
        |i: int|
            if 0 <= i < items.len() {
                shape(items[i])
            } else {
                Json::Null
            },
    )
}

/// The field names of an object, each with the shape of its value.
pub open spec fn shape_entries(entries: Seq<(Seq<char>, Json)>) -> Seq<(Seq<char>, Json)>
    decreases entries, 1int,
{
    Seq::new(
        entries.len(),
        |i: int|
            if 0 <= i < entries.len() {
                (entries[i].0, shape(entries[i].1))
            } else {
                (Seq::empty(), Json::Null)
            },
    )
}

/// Overwriting the value of a key that is there with one of the same shape
/// keeps the shape of the object.
pub proof fn lemma_put_keeps_shape(entries: Seq<(Seq<char>, Json)>, key: Seq<char>, value: Json)
    requires
        lookup(entries, key) matches Some(old_value) && shape(old_value) == shape(value),
    ensures
        shape_entries(put(entries, key, value)) == shape_entries(entries),
{
    lemma_index_from(entries, key, 0);
    assert(shape_entries(put(entries, key, value)) =~= shape_entries(entries));
}

/// Whatever the patch, a merged element has the shape of the element.
pub proof fn lemma_merge_element_keeps_shape(element: Json, patch: Json)
    ensures
        shape(merge_element(element, patch)) == shape(element),
    decreases element, 0int,
{
    match element {
        Json::Object(entries) => {
            lemma_index_from(entries, key_value(), 0);
            match index_of(entries, key_value()) {
                Some(i) => {
                    match entries[i].1 {
                        Json::Array(nested) => {
                            if id_short(element) is Some && patch.get(id_short(element)->0) is Some
                                && !is_property(element) && is_collection(element) {
                                let value = patch.get(id_short(element)->0)->0;
                                lemma_merge_elements_keep_shape(nested, value);
                                lemma_put_keeps_shape(
                                    entries,
                                    key_value(),
                                    Json::Array(merge_elements(nested, value)),
                                );
                            }
                        },
                        Json::Text(_) => {
                            if id_short(element) is Some && patch.get(id_short(element)->0) is Some
                                && is_property(element) {
                                let value = patch.get(id_short(element)->0)->0;
                                lemma_put_keeps_shape(
                                    entries,
                                    key_value(),
                                    Json::Text(leaf_text(value)),
                                );
                            }
                        },
                        _ => {},
                    }
                },
                None => {},
            }
        },
        _ => {},
    }
}

/// Whatever the patch, merged elements have the shapes of the elements.
pub proof fn lemma_merge_elements_keep_shape(elements: Seq<Json>, patch: Json)
    ensures
        shape_items(merge_elements(elements, patch)) == shape_items(elements),
    decreases elements, 1int,
{
    let merged = merge_elements(elements, patch);
    assert forall|i: int| 0 <= i < elements.len() implies shape(merged[i]) == shape(
        elements[i],
    ) by {
        lemma_merge_element_keeps_shape(elements[i], patch);
    }
    assert(shape_items(merged) =~= shape_items(elements));
}

/// Whatever the patch, the merged document has the shape of the document:
/// the same field names in the same nesting.
pub proof fn lemma_merge_keeps_shape(doc: Json, patch: Json)
    ensures
        shape(merge_spec(doc, patch)) == shape(doc),
{
    match doc.get(key_elements()) {
        Some(Json::Array(elements)) => {
            lemma_merge_elements_keep_shape(elements, patch);
            lemma_put_keeps_shape(
                doc->Object_0,
                key_elements(),
                Json::Array(merge_elements(elements, patch)),
            );
        },
        _ => match doc {
            Json::Object(entries) => {
                lemma_merge_flat_entries_keep_shape(entries, patch);
            },
            _ => {},
        },
    }
}

/// Whatever the patch gives, a merged member of a flat view has the shape
/// of the member.
pub proof fn lemma_merge_flat_value_keeps_shape(value: Json, given: Json)
    ensures
        shape(merge_flat_value(value, given)) == shape(value),
    decreases value, 0int,
{
    match value {
        Json::Object(entries) => {
            lemma_merge_flat_entries_keep_shape(entries, given);
        },
        _ => {},
    }
}

/// Whatever the patch, the merged entries of a flat view have the names
/// and the shapes of the entries.
pub proof fn lemma_merge_flat_entries_keep_shape(entries: Seq<(Seq<char>, Json)>, patch: Json)
    ensures
        shape_entries(merge_flat_entries(entries, patch)) == shape_entries(entries),
    decreases entries, 1int,
{
    let merged = merge_flat_entries(entries, patch);
    assert forall|i: int| 0 <= i < entries.len() implies merged[i].0 == entries[i].0 && shape(
        merged[i].1,
    ) == shape(entries[i].1) by {
        match patch.get(entries[i].0) {
            Some(given) => {
                lemma_merge_flat_value_keeps_shape(entries[i].1, given);
            },
            None => {},
        }
    }
    assert(shape_entries(merged) =~= shape_entries(entries));
}

/// Two patches that give the same to every name of a flat view merge to
/// the same result.
pub proof fn lemma_merge_flat_reads_named_members(
    entries: Seq<(Seq<char>, Json)>,
    first: Json,
    second: Json,
)
    requires
        forall|i: int|
            0 <= i < entries.len() ==> first.get((#[trigger] entries[i]).0) == second.get(
                entries[i].0,
            ),
    ensures
        merge_flat_entries(entries, first) == merge_flat_entries(entries, second),
{
    assert forall|i: int| 0 <= i < entries.len() implies merge_flat_entries(entries, first)[i]
        == merge_flat_entries(entries, second)[i] by {
        assert(first.get(entries[i].0) == second.get(entries[i].0));
    }
    assert(merge_flat_entries(entries, first) =~= merge_flat_entries(entries, second));
}

/// Two patches that give the same to every id of the elements merge to
/// the same result.
pub proof fn lemma_merge_reads_named_members(elements: Seq<Json>, first: Json, second: Json)
    requires
        forall|i: int|
            0 <= i < elements.len() && id_short(#[trigger] elements[i]) is Some ==> first.get(
                id_short(elements[i])->0,
            ) == second.get(id_short(elements[i])->0),
    ensures
        merge_elements(elements, first) == merge_elements(elements, second),
{
    assert forall|i: int| 0 <= i < elements.len() implies merge_element(elements[i], first)
        == merge_element(elements[i], second) by {
        let element = elements[i];
        assert(id_short(element) is Some ==> first.get(id_short(element)->0) == second.get(
            id_short(element)->0,
        ));
    }
    assert(merge_elements(elements, first) =~= merge_elements(elements, second));
}

/// The document names `field`: in a schema document one of its elements
/// has it as its id, in a flat view one of its entries has it as its key.
/// A schema document without elements names no field.
pub open spec fn names_field(doc: Json, field: Seq<char>) -> bool {
    match doc.get(key_elements()) {
        Some(Json::Array(elements)) => exists|i: int|
            0 <= i < elements.len() && id_short(#[trigger] elements[i]) == Some(field),
        _ => match doc {
            Json::Object(entries) => is_flat_view(doc) && exists|i: int|
                0 <= i < entries.len() && (#[trigger] entries[i]).0 == field,
            _ => false,
        },
    }
}

/// Whatever the patch, a schema document without an array of elements
/// stays as it is.
pub proof fn lemma_merge_leaves_schema_without_elements(doc: Json, patch: Json)
    requires
        is_schema_document(doc),
        !(doc.get(key_elements()) matches Some(Json::Array(_))),
    ensures
        merge_spec(doc, patch) == doc,
{
}

/// Whatever the patch, everything in a schema document but its elements
/// stays as it is: every key but that of the elements holds what it held.
pub proof fn lemma_merge_keeps_metadata(doc: Json, patch: Json, key: Seq<char>)
    requires
        is_schema_document(doc),
        key != key_elements(),
    ensures
        merge_spec(doc, patch).get(key) == doc.get(key),
{
    match doc.get(key_elements()) {
        Some(Json::Array(elements)) => {
            lemma_lookup_put(
                doc->Object_0,
                key_elements(),
                Json::Array(merge_elements(elements, patch)),
                key,
            );
        },
        _ => {},
    }
}

/// Two patches that give the same to every field that the document names
/// merge to the same result.
pub proof fn lemma_merge_reads_named_fields(doc: Json, first: Json, second: Json)
    requires
        forall|field: Seq<char>| #[trigger]
            names_field(doc, field) ==> first.get(field) == second.get(field),
    ensures
        merge_spec(doc, first) == merge_spec(doc, second),
{
    match doc.get(key_elements()) {
        Some(Json::Array(elements)) => {
            assert forall|i: int|
                0 <= i < elements.len() && id_short(
                    #[trigger] elements[i],
                ) is Some implies first.get(id_short(elements[i])->0) == second.get(
                id_short(elements[i])->0,
            ) by {
                assert(names_field(doc, id_short(elements[i])->0));
            }
            lemma_merge_reads_named_members(elements, first, second);
        },
        _ => match doc {
            Json::Object(entries) => {
                if is_flat_view(doc) {
                    assert forall|i: int| 0 <= i < entries.len() implies first.get(
                        (#[trigger] entries[i]).0,
                    ) == second.get(entries[i].0) by {
                        assert(names_field(doc, entries[i].0));
                    }
                    lemma_merge_flat_reads_named_members(entries, first, second);
                }
            },
            _ => {},
        },
    }
}

/// A field that the document does not name is ignored: a patch with it
/// merges to what the patch without it merges to.
pub proof fn lemma_merge_ignores_unknown_field(
    doc: Json,
    patch: Seq<(Seq<char>, Json)>,
    field: Seq<char>,
    value: Json,
)
    requires
        !names_field(doc, field),
    ensures
        merge_spec(doc, Json::Object(put(patch, field, value))) == merge_spec(
            doc,
            Json::Object(patch),
        ),
{
    match doc.get(key_elements()) {
        Some(Json::Array(elements)) => {
            let with_field = Json::Object(put(patch, field, value));
            let without = Json::Object(patch);
            assert forall|i: int|
                0 <= i < elements.len() && id_short(
                    #[trigger] elements[i],
                ) is Some implies with_field.get(id_short(elements[i])->0) == without.get(
                id_short(elements[i])->0,
            ) by {
                let id = id_short(elements[i])->0;
                lemma_lookup_put(patch, field, value, id);
            }
            lemma_merge_reads_named_members(elements, with_field, without);
        },
        _ => match doc {
            Json::Object(entries) => {
                if is_flat_view(doc) {
                    let with_field = Json::Object(put(patch, field, value));
                    let without = Json::Object(patch);
                    assert forall|i: int| 0 <= i < entries.len() implies with_field.get(
                        (#[trigger] entries[i]).0,
                    ) == without.get(entries[i].0) by {
                        lemma_lookup_put(patch, field, value, entries[i].0);
                    }
                    lemma_merge_flat_reads_named_members(entries, with_field, without);
                }
            },
            _ => {},
        },
    }
}

/// A patch that holds nothing but a field that the document does not name
/// leaves the document as it is.
pub proof fn lemma_merge_unknown_field_alone(doc: Json, field: Seq<char>, value: Json)
    requires
        !names_field(doc, field),
    ensures
        merge_spec(doc, Json::Object(seq![(field, value)])) == doc,
{
    let empty: Seq<(Seq<char>, Json)> = Seq::empty();
    lemma_index_from(empty, field, 0);
    assert(put(empty, field, value) =~= seq![(field, value)]);
    lemma_merge_ignores_unknown_field(doc, empty, field, value);
    lemma_merge_empty_patch(doc);
}

/// The empty patch leaves the document as it is.
pub proof fn lemma_merge_empty_patch(doc: Json)
    ensures
        merge_spec(doc, Json::Object(Seq::empty())) == doc,
{
    let patch = Json::Object(Seq::<(Seq<char>, Json)>::empty());
    match doc.get(key_elements()) {
        Some(Json::Array(elements)) => {
            assert forall|i: int| 0 <= i < elements.len() implies merge_element(
                elements[i],
                patch,
            ) == elements[i] by {
                if id_short(elements[i]) is Some {
                    lemma_index_from(Seq::<(Seq<char>, Json)>::empty(), id_short(elements[i])->0, 0);
                }
            }
            assert(merge_elements(elements, patch) =~= elements);
            lemma_put_same(doc->Object_0, key_elements(), Json::Array(elements));
        },
        _ => match doc {
            Json::Object(entries) => {
                assert forall|i: int| 0 <= i < entries.len() implies merge_flat_entries(
                    entries,
                    patch,
                )[i] == entries[i] by {
                    lemma_index_from(Seq::<(Seq<char>, Json)>::empty(), entries[i].0, 0);
                }
                assert(merge_flat_entries(entries, patch) =~= entries);
            },
            _ => {},
        },
    }
}

/// A leaf that holds no value gives its id with null.
pub proof fn lemma_unset_leaf_gives_null(element: Json)
    requires
        is_property(element),
        id_short(element) is Some,
        leaf_value(element) is None,
    ensures
        contribution(element) == Some((id_short(element)->0, Json::Null)),
        flatten_elements(seq![element]) == seq![(id_short(element)->0, Json::Null)],
{
    let elements = seq![element];
    let empty: Seq<(Seq<char>, Json)> = Seq::empty();
    assert(flatten_prefix(elements, 0) =~= empty);
    lemma_index_from(empty, id_short(element)->0, 0);
    assert(flatten_prefix(elements, 1) =~= seq![(id_short(element)->0, Json::Null)]);
}

/// The flat view of any elements is proper: no id occurs twice in it, at
/// any depth.
pub proof fn lemma_flat_view_proper(elements: Seq<Json>, n: int)
    ensures
        proper(Json::Object(flatten_prefix(elements, n))),
    decreases elements, n,
{
    if n <= 0 || n > elements.len() {
    } else {
        lemma_flat_view_proper(elements, n - 1);
        let rest = flatten_prefix(elements, n - 1);
        let element = elements[n - 1];
        match contribution(element) {
            Some((id, value)) => {
                if is_collection(element) && !is_property(element) {
                    match element {
                        Json::Object(entries) => {
                            match index_of(entries, key_value()) {
                                Some(i) => {
                                    if 0 <= i < entries.len() {
                                        match entries[i].1 {
                                            Json::Array(nested) => {
                                                lemma_flat_view_proper(
                                                    nested,
                                                    nested.len() as int,
                                                );
                                            },
                                            _ => {},
                                        }
                                    }
                                },
                                None => {},
                            }
                        },
                        _ => {},
                    }
                }
                lemma_put_proper(rest, id, value);
            },
            None => {},
        }
    }
}

/// A merged element of a proper element is proper.
pub proof fn lemma_merge_element_proper(element: Json, patch: Json)
    requires
        proper(element),
    ensures
        proper(merge_element(element, patch)),
    decreases element, 0int,
{
    match element {
        Json::Object(entries) => {
            lemma_index_from(entries, key_value(), 0);
            match index_of(entries, key_value()) {
                Some(i) => {
                    if id_short(element) is Some && patch.get(id_short(element)->0) is Some {
                        let value = patch.get(id_short(element)->0)->0;
                        match entries[i].1 {
                            Json::Array(nested) => {
                                if !is_property(element) && is_collection(element) {
                                    lemma_merge_elements_proper(nested, value);
                                    lemma_put_proper(
                                        entries,
                                        key_value(),
                                        Json::Array(merge_elements(nested, value)),
                                    );
                                }
                            },
                            Json::Text(_) => {
                                if is_property(element) {
                                    lemma_put_proper(
                                        entries,
                                        key_value(),
                                        Json::Text(leaf_text(value)),
                                    );
                                }
                            },
                            _ => {},
                        }
                    }
                },
                None => {},
            }
        },
        _ => {},
    }
}

/// Merged elements of proper elements are proper.
pub proof fn lemma_merge_elements_proper(elements: Seq<Json>, patch: Json)
    requires
        proper(Json::Array(elements)),
    ensures
        proper(Json::Array(merge_elements(elements, patch))),
    decreases elements, 1int,
{
    let merged = merge_elements(elements, patch);
    assert(merged.len() == elements.len());
    lemma_proper_parts(Json::Array(elements));
    assert forall|i: int| 0 <= i < merged.len() implies proper(#[trigger] merged[i]) by {
        let element = elements[i];
        assert(proper(element));
        lemma_merge_element_proper(element, patch);
        assert(merged[i] == merge_element(element, patch));
    }
}

/// The merged document of a proper document and a proper patch is proper.
pub proof fn lemma_merge_proper(doc: Json, patch: Json)
    requires
        proper(doc),
        proper(patch),
    ensures
        proper(merge_spec(doc, patch)),
{
    match doc.get(key_elements()) {
        Some(Json::Array(elements)) => {
            let entries = doc->Object_0;
            lemma_index_from(entries, key_elements(), 0);
            let i = index_of(entries, key_elements())->0;
            assert(proper(entries[i].1));
            lemma_merge_elements_proper(elements, patch);
            lemma_put_proper(entries, key_elements(), Json::Array(merge_elements(elements, patch)));
        },
        _ => match doc {
            Json::Object(entries) => {
                lemma_merge_flat_entries_proper(entries, patch);
            },
            _ => {},
        },
    }
}

/// A member of a proper flat view, merged with a proper value, is proper.
pub proof fn lemma_merge_flat_value_proper(value: Json, given: Json)
    requires
        proper(value),
        proper(given),
    ensures
        proper(merge_flat_value(value, given)),
    decreases value, 0int,
{
    match value {
        Json::Object(entries) => {
            lemma_merge_flat_entries_proper(entries, given);
        },
        _ => {},
    }
}

/// The entries of a proper flat view, merged with a proper patch, are
/// those of a proper object.
pub proof fn lemma_merge_flat_entries_proper(entries: Seq<(Seq<char>, Json)>, patch: Json)
    requires
        proper(Json::Object(entries)),
        proper(patch),
    ensures
        proper(Json::Object(merge_flat_entries(entries, patch))),
    decreases entries, 1int,
{
    let merged = merge_flat_entries(entries, patch);
    lemma_proper_parts(Json::Object(entries));
    assert forall|i: int| 0 <= i < merged.len() implies proper((#[trigger] merged[i]).1) by {
        assert(proper(entries[i].1));
        match patch.get(entries[i].0) {
            Some(given) => {
                lemma_proper_parts(patch);
                lemma_index_from(patch->Object_0, entries[i].0, 0);
                let at = index_of(patch->Object_0, entries[i].0)->0;
                assert(proper(patch->Object_0[at].1));
                lemma_merge_flat_value_proper(entries[i].1, given);
            },
            None => {},
        }
    }
    assert forall|i: int, j: int| 0 <= i < j < merged.len() implies (#[trigger] merged[i]).0 != (
    #[trigger] merged[j]).0 by {
        assert(merged[i].0 == entries[i].0);
        assert(merged[j].0 == entries[j].0);
    }
}

/// A proper member of a flat view is left as it is by itself.
pub proof fn lemma_flat_value_merges_to_itself(value: Json)
    requires
        proper(value),
    ensures
        merge_flat_value(value, value) == value,
    decreases value, 0int,
{
    match value {
        Json::Object(entries) => {
            lemma_flat_entries_merge_to_themselves(entries);
        },
        _ => {},
    }
}

/// The entries of a proper flat view are left as they are by the view.
pub proof fn lemma_flat_entries_merge_to_themselves(entries: Seq<(Seq<char>, Json)>)
    requires
        proper(Json::Object(entries)),
    ensures
        merge_flat_entries(entries, Json::Object(entries)) == entries,
    decreases entries, 1int,
{
    let merged = merge_flat_entries(entries, Json::Object(entries));
    lemma_proper_parts(Json::Object(entries));
    assert forall|i: int| 0 <= i < entries.len() implies merged[i] == entries[i] by {
        assert forall|j: int| 0 <= j < i implies (#[trigger] entries[j]).0 != entries[i].0 by {}
        lemma_index_of_first(entries, entries[i].0, i);
        assert(proper(entries[i].1));
        lemma_flat_value_merges_to_itself(entries[i].1);
    }
    assert(merged =~= entries);
}

/// Merging into a document its own value view gives the document back:
/// for a schema document that is well formed, and for a flat view in which
/// no key occurs twice.
pub proof fn lemma_merge_own_value_view(doc: Json)
    requires
        well_formed(doc),
        proper(doc),
    ensures
        merge_spec(doc, value_view_spec(doc)) == doc,
{
    match doc.get(key_elements()) {
        Some(Json::Array(elements)) => {
            lemma_merge_idempotent(doc);
        },
        _ => match doc {
            Json::Object(entries) => {
                lemma_flat_entries_merge_to_themselves(entries);
            },
            _ => {},
        },
    }
}

} // verus!
