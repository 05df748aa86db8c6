//! Addressing of the remote registry and the reading of its answers.

use vstd::prelude::*;
use vstd::string::*;

verus! {

/// The URL-safe base64 text of the UTF-8 bytes of an identifier, without
/// padding.
pub uninterp spec fn url_safe_no_pad(id: Seq<char>) -> Seq<char>;

/// Calls `base64::encode_config` with `base64::URL_SAFE_NO_PAD`. The result
/// is the encoding of the argument's bytes and depends on them alone.
#[verifier::external_body]
fn encode_url_safe(id: &str) -> (encoded: String)
    ensures
        encoded@ == url_safe_no_pad(id@),
{
    base64::encode_config(id, base64::URL_SAFE_NO_PAD)
}

/// The path segment that stands for an identifier in a registry URL.
pub fn encode_id(id: &str) -> (encoded: String)
    ensures
        encoded@ == url_safe_no_pad(id@),
{
    encode_url_safe(id)
}

/// `<base>shells/<encoded device id>`
pub open spec fn shell_url_spec(base: Seq<char>, encoded: Seq<char>) -> Seq<char> {
    base + "shells/"@ + encoded
}

/// `<base>shells/<encoded device id>/submodels/<encoded submodel id>`
pub open spec fn submodel_url_spec(base: Seq<char>, device: Seq<char>, submodel: Seq<char>) -> Seq<
    char,
> {
    shell_url_spec(base, device) + "/submodels/"@ + submodel
}

/// `<base>shells/<encoded device id>/submodels/<encoded submodel id>/$value`
pub open spec fn submodel_value_url_spec(base: Seq<char>, device: Seq<char>, submodel: Seq<char>) -> Seq<
    char,
> {
    submodel_url_spec(base, device, submodel) + "/$value"@
}

/// `<base>shells/<encoded device id>/asset-information/thumbnail`
pub open spec fn thumbnail_url_spec(base: Seq<char>, encoded: Seq<char>) -> Seq<char> {
    shell_url_spec(base, encoded) + "/asset-information/thumbnail"@
}

/// The URL of a shell, from the base URL and the encoded device id.
pub fn shell_url_from(base: &str, encoded: &str) -> (url: String)
    ensures
        url@ == shell_url_spec(base@, encoded@),
{
    let mut url = String::from_str(base);
    url.append("shells/");
    url.append(encoded);
    url
}

/// The URL under which the registry serves a shell.
pub fn shell_url(base: &str, device_id: &str) -> (url: String)
    ensures
        url@ == shell_url_spec(base@, url_safe_no_pad(device_id@)),
{
    let encoded = encode_id(device_id);
    shell_url_from(base, encoded.as_str())
}

/// The URL under which the registry serves a submodel document of a
/// shell.
pub fn submodel_url(base: &str, device_id: &str, submodel_id: &str) -> (url: String)
    ensures
        url@ == submodel_url_spec(
            base@,
            url_safe_no_pad(device_id@),
            url_safe_no_pad(submodel_id@),
        ),
{
    let mut url = shell_url(base, device_id);
    let encoded = encode_id(submodel_id);
    url.append("/submodels/");
    url.append(encoded.as_str());
    url
}

/// The URL under which the registry serves, and takes, the flat value
/// view of a submodel of a shell.
pub fn submodel_value_url(base: &str, device_id: &str, submodel_id: &str) -> (url: String)
    ensures
        url@ == submodel_value_url_spec(
            base@,
            url_safe_no_pad(device_id@),
            url_safe_no_pad(submodel_id@),
        ),
{
    let mut url = submodel_url(base, device_id, submodel_id);
    url.append("/$value");
    url
}

/// The URL under which the registry serves the thumbnail of a shell.
pub fn thumbnail_url(base: &str, device_id: &str) -> (url: String)
    ensures
        url@ == thumbnail_url_spec(base@, url_safe_no_pad(device_id@)),
{
    let mut url = shell_url(base, device_id);
    url.append("/asset-information/thumbnail");
    url
}

/// The one status with which the registry accepts a patch.
pub const NO_CONTENT: u16 = 204;

/// A status of the success class.
pub open spec fn is_success_spec(status: u16) -> bool {
    200 <= status < 300
}

/// Whether a status is of the success class.
pub fn is_success(status: u16) -> (success: bool)
    ensures
        success == is_success_spec(status),
{
    200 <= status && status < 300
}

/// What a failed exchange with the registry reports.
#[derive(Debug)]
pub enum RegistryError {
    /// The registry answered with a status that does not mean success; the
    /// body of the answer is the detail.
    Status { status: u16, body: String },
}

impl RegistryError {
    /// The detail of the failure: the body of the registry's answer.
    pub fn detail(&self) -> (text: &String)
        ensures
            text@ == self->body@,
    {
        match self {
            RegistryError::Status { body, .. } => body,
        }
    }

    /// The status with which the registry answered.
    pub fn status(&self) -> (status: u16)
        ensures
            status == self->status,
    {
        match self {
            RegistryError::Status { status, .. } => *status,
        }
    }
}

/// Reads the answer to a patch: only the status 204 means that the
/// registry took the patch. Any other status, of the success class or not,
/// is a failure that carries the body of the answer.
pub fn patch_outcome(status: u16, body: String) -> (outcome: Result<(), RegistryError>)
    ensures
        status == NO_CONTENT ==> outcome is Ok,
        status != NO_CONTENT ==> outcome == Err::<(), RegistryError>(
            (RegistryError::Status { status, body }),
        ),
{
    if status == NO_CONTENT {
        Ok(())
    } else {
        Err(RegistryError::Status { status, body })
    }
}

/// Reads the answer to a fetch: a status of the success class hands the
/// body on, any other is a failure that carries status and body.
pub fn fetch_outcome(status: u16, body: String) -> (outcome: Result<String, RegistryError>)
    ensures
        is_success_spec(status) ==> outcome == Ok::<String, RegistryError>(body),
        !is_success_spec(status) ==> outcome == Err::<String, RegistryError>(
            (RegistryError::Status { status, body }),
        ),
{
    if is_success(status) {
        Ok(body)
    } else {
        Err(RegistryError::Status { status, body })
    }
}

} // verus!
