//! What is written to the local copy of a submodel when a patch or a pull
//! arrives.

use crate::document::{option_view, Document, Json};
use crate::keys::{submodel_key, submodel_key_spec};
use crate::scheduler::field_last_update;
use crate::merge::{merge_spec, merge_submodel_value_to_submodel};
use vstd::prelude::*;

verus! {

/// The payload with the time of the request in its `LastUpdate`, where it
/// has that field; without the field the payload as it is.
pub open spec fn stamp_spec(payload: Json, now: Seq<char>) -> Json {
    if payload.get(field_last_update()) is Some {
        payload.with(field_last_update(), Json::Text(now))
    } else {
        payload
    }
}

/// Stamps a patch payload: a `LastUpdate` that the payload holds is
/// overwritten with the time of the request; a payload without the field
/// gets none.
pub fn stamp_last_update(payload: Document, now: &str) -> (stamped: Document)
    ensures
        stamped@ == stamp_spec(payload@, now@),
{
    let present = payload.get("LastUpdate").is_some();
    if present {
        payload.with("LastUpdate", Document::text(now))
    } else {
        payload
    }
}

/// The document that a patch leaves in the store: the stored document
/// with the patch merged in; where nothing is stored yet, the patch
/// merged into itself.
pub open spec fn patched_spec(existing: Option<Json>, patch: Json) -> Json {
    match existing {
        Some(doc) => merge_spec(doc, patch),
        None => merge_spec(patch, patch),
    }
}

/// Forms the document that a patch leaves in the store.
pub fn patched_document(existing: Option<Document>, patch: &Document) -> (merged: Document)
    ensures
        merged@ == patched_spec(option_view(existing), patch@),
{
    match existing {
        Some(doc) => merge_submodel_value_to_submodel(doc, patch.duplicate()),
        None => merge_submodel_value_to_submodel(patch.duplicate(), patch.duplicate()),
    }
}

/// Why a pulled value is not taken over.
#[derive(Clone, Copy, Debug, PartialEq, Eq, Structural)]
pub enum PullError {
    /// The registry's answer is no object.
    NotAnObject,
}

/// The document that a pull leaves in the store: the flat value from the
/// registry merged into the local copy. An answer that is no object is
/// refused and leaves the local copy as it is.
pub open spec fn pulled_spec(existing: Option<Json>, pulled: Json) -> Result<Json, PullError> {
    if pulled is Object {
        Ok(patched_spec(existing, pulled))
    } else {
        Err(PullError::NotAnObject)
    }
}

/// Forms the document that a pull leaves in the store.
pub fn pulled_document(existing: Option<Document>, pulled: &Document) -> (outcome: Result<
    Document,
    PullError,
>)
    ensures
        match outcome {
            Ok(doc) => pulled_spec(option_view(existing), pulled@) == Ok::<
                Json,
                PullError,
            >(doc@),
            Err(e) => pulled_spec(option_view(existing), pulled@) == Err::<
                Json,
                PullError,
            >(e),
        },
{
    match pulled {
        Document::Object(_) => Ok(patched_document(existing, pulled)),
        _ => Err(PullError::NotAnObject),
    }
}

/// A document to put into the store under a key, replacing what is there.
#[derive(Debug)]
pub struct StoreWrite {
    pub key: String,
    pub document: Document,
}

/// The key under which the managed-device submodel of a device is stored.
pub fn managed_device_key(aas_id_short: &str) -> (key: String)
    ensures
        key@ == submodel_key_spec(aas_id_short@, "ManagedDevice"@),
{
    submodel_key(aas_id_short, "ManagedDevice")
}

/// Forms the write with which a patch reaches the local copy of a
/// submodel: under `<device>:<submodel>` goes what is stored there with
/// the patch merged in.
pub fn patch_submodel_database(
    aas_id_short: &str,
    submodel_id_short: &str,
    existing: Option<Document>,
    submodel_value: &Document,
) -> (write: StoreWrite)
    ensures
        write.key@ == submodel_key_spec(aas_id_short@, submodel_id_short@),
        write.document@ == patched_spec(option_view(existing), submodel_value@),
{
    StoreWrite {
        key: submodel_key(aas_id_short, submodel_id_short),
        document: patched_document(existing, submodel_value),
    }
}

/// Forms the write with which a pulled flat value reaches the local copy
/// of a submodel. An answer that is no object gives no write.
pub fn fetch_single_submodel_from_server(
    aas_id_short: &str,
    submodel_id_short: &str,
    existing: Option<Document>,
    pulled: &Document,
) -> (outcome: Result<StoreWrite, PullError>)
    ensures
        match outcome {
            Ok(write) => write.key@ == submodel_key_spec(aas_id_short@, submodel_id_short@)
                && pulled_spec(option_view(existing), pulled@) == Ok::<Json, PullError>(
                write.document@,
            ),
            Err(e) => pulled_spec(option_view(existing), pulled@) == Err::<Json, PullError>(e),
        },
{
    match pulled_document(existing, pulled) {
        Ok(document) => Ok(
            StoreWrite { key: submodel_key(aas_id_short, submodel_id_short), document },
        ),
        Err(e) => Err(e),
    }
}

} // verus!
