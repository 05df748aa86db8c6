//! The requests that the engine sends to the registry for a submodel that
//! it knows by its short id.

use crate::document::Document;
use crate::onboarding::{resolve_spec, resolve_uid};
use crate::registry::{submodel_value_url, submodel_value_url_spec, url_safe_no_pad};
use vstd::prelude::*;
use vstd::string::*;

verus! {

/// A request that replaces a submodel at the registry.
#[derive(Debug)]
pub struct PatchRequest {
    /// Where the request goes.
    pub url: String,
    /// The document that it carries.
    pub body: Document,
}

/// The text that stands for the detail of an answer whose body could not
/// be read.
pub open spec fn unknown_error() -> Seq<char> {
    "Unknown error"@
}

/// The detail of a refused request: the body of the answer, or a fixed
/// text where the body could not be read.
pub fn error_detail(body: Option<String>) -> (detail: String)
    ensures
        detail@ == match body {
            Some(text) => text@,
            None => unknown_error(),
        },
{
    match body {
        Some(text) => text,
        None => String::from_str("Unknown error"),
    }
}

/// Forms the request that pushes a flat value view to the registry: a
/// patch of the value endpoint of the submodel, addressed by the unique id
/// that the dictionary gives to the short id, which carries the view as it
/// is. Without an entry in the dictionary there is no request.
pub fn patch_submodel_server(
    base_url: &str,
    device_id: &str,
    dictionary: &Document,
    id_short: &str,
    patch: Document,
) -> (request: Option<PatchRequest>)
    ensures
        match request {
            Some(r) => resolve_spec(dictionary@, id_short@) matches Some(uid) && r.url@
                == submodel_value_url_spec(
                base_url@,
                url_safe_no_pad(device_id@),
                url_safe_no_pad(uid),
            ) && r.body@ == patch@,
            None => resolve_spec(dictionary@, id_short@) is None,
        },
{
    match resolve_uid(dictionary, id_short) {
        Some(uid) => Some(
            PatchRequest { url: submodel_value_url(base_url, device_id, uid.as_str()), body: patch },
        ),
        None => None,
    }
}

/// Forms the URL from which a pull fetches the flat value view of a
/// submodel: the same value endpoint that a push patches. Without an entry
/// in the dictionary there is none.
pub fn pull_url(base_url: &str, device_id: &str, dictionary: &Document, id_short: &str) -> (url:
    Option<String>)
    ensures
        match url {
            Some(u) => resolve_spec(dictionary@, id_short@) matches Some(uid) && u@
                == submodel_value_url_spec(
                base_url@,
                url_safe_no_pad(device_id@),
                url_safe_no_pad(uid),
            ),
            None => resolve_spec(dictionary@, id_short@) is None,
        },
{
    match resolve_uid(dictionary, id_short) {
        Some(uid) => Some(submodel_value_url(base_url, device_id, uid.as_str())),
        None => None,
    }
}

} // verus!
