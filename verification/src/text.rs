//! The compact text of a document, as it is written into a string slot.

use crate::document::{entries_view, items_view, Document, Json};
use vstd::prelude::*;
use vstd::string::*;

verus! {

/// The JSON string literal for a text: the text between double quotes,
/// with the escapes that `serde_json` writes.
pub uninterp spec fn quoted_text(text: Seq<char>) -> Seq<char>;

/// Calls `serde_json`'s `Display` for `Value::String`. The result is the
/// JSON string literal of the argument; it depends on the argument alone.
#[verifier::external_body]
fn quote(text: &str) -> (quoted: String)
    ensures
        quoted@ == quoted_text(text@),
{
    serde_json::Value::String(text.to_string()).to_string()
}

/// The compact text of the first `n` items, separated by commas.
pub open spec fn items_text(items: Seq<Json>, n: int) -> Seq<char>
    decreases items, n,
{
    if n <= 0 || n > items.len() {
        Seq::empty()
    } else if n == 1 {
        compact_text(items[0])
    } else {
        items_text(items, n - 1) + ","@ + compact_text(items[n - 1])
    }
}

/// The compact text of one entry: the quoted key, a colon, the value.
pub open spec fn entry_text(entry: (Seq<char>, Json)) -> Seq<char>
    decreases entry, 0int,
{
    quoted_text(entry.0) + ":"@ + compact_text(entry.1)
}

/// The compact text of the first `n` entries, separated by commas.
pub open spec fn entries_text(entries: Seq<(Seq<char>, Json)>, n: int) -> Seq<char>
    decreases entries, n,
{
    if n <= 0 || n > entries.len() {
        Seq::empty()
    } else if n == 1 {
        entry_text(entries[0])
    } else {
        entries_text(entries, n - 1) + ","@ + entry_text(entries[n - 1])
    }
}

/// The compact text of a document: no white space, entries in their order.
pub open spec fn compact_text(value: Json) -> Seq<char>
    decreases value, 0int,
{
    match value {
        Json::Null => "null"@,
        Json::Bool(b) => if b {
            "true"@
        } else {
            "false"@
        },
        Json::Number(t) => t,
        Json::Text(t) => quoted_text(t),
        Json::Array(items) => "["@ + items_text(items, items.len() as int) + "]"@,
        Json::Object(entries) => "{"@ + entries_text(entries, entries.len() as int) + "}"@,
    }
}

/// Writes the compact text of a document.
pub fn compact(doc: &Document) -> (text: String)
    ensures
        text@ == compact_text(doc@),
    decreases doc,
{
    match doc {
        Document::Null => String::from_str("null"),
        Document::Bool(b) => if *b {
            String::from_str("true")
        } else {
            String::from_str("false")
        },
        Document::Number(t) => t.clone(),
        Document::Text(t) => quote(t.as_str()),
        Document::Array(items) => {
            let ghost model = items_view(items@);
            let mut out = String::from_str("[");
            let mut i: usize = 0;
            while i < items.len()
                invariant
                    i <= items.len(),
                    model == items_view(items@),
                    out@ == "["@ + items_text(model, i as int),
                    forall|j: int| 0 <= j < items@.len() ==> decreases_to!(doc => items@[j]),
                decreases items.len() - i,
            {
                if i > 0 {
                    out.append(",");
                }
                let item = compact(&items[i]);
                out.append(item.as_str());
                proof {
                    assert(model[i as int] == items@[i as int]@);
                    if i == 0 {
                        assert(out@ =~= "["@ + items_text(model, 1));
                    } else {
                        assert(out@ =~= "["@ + (items_text(model, i as int) + ","@ + compact_text(
                            model[i as int],
                        )));
                    }
                }
                i += 1;
            }
            out.append("]");
            out
        },
        Document::Object(entries) => {
            let ghost model = entries_view(entries@);
            let mut out = String::from_str("{");
            let mut i: usize = 0;
            while i < entries.len()
                invariant
                    i <= entries.len(),
                    model == entries_view(entries@),
                    out@ == "{"@ + entries_text(model, i as int),
                    forall|j: int|
                        0 <= j < entries@.len() ==> decreases_to!(doc => entries@[j].1),
                decreases entries.len() - i,
            {
                if i > 0 {
                    out.append(",");
                }
                let key = quote(entries[i].0.as_str());
                out.append(key.as_str());
                out.append(":");
                let value = compact(&entries[i].1);
                out.append(value.as_str());
                proof {
                    let entry = model[i as int];
                    assert(entry == (entries@[i as int].0@, entries@[i as int].1@));
                    assert(entry_text(entry) == quoted_text(entry.0) + ":"@ + compact_text(
                        entry.1,
                    ));
                    assert(entries_text(model, 1) == entry_text(model[0]));
                    if i == 0 {
                        assert(out@ =~= "{"@ + entries_text(model, 1));
                    } else {
                        assert(out@ =~= "{"@ + (entries_text(model, i as int) + ","@ + entry_text(
                            model[i as int],
                        )));
                    }
                }
                i += 1;
            }
            out.append("}");
            out
        },
    }
}

} // verus!
