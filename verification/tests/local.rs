use twin_sync::document::Document;
use twin_sync::local::{
    fetch_single_submodel_from_server, managed_device_key, patch_submodel_database,
    patched_document, pulled_document, stamp_last_update, PullError,
};
use twin_sync::requests::{patch_submodel_server, pull_url};

fn leaf(id: &str, value: &str) -> Document {
    Document::object()
        .with("modelType", Document::text("Property"))
        .with("valueType", Document::text("xs:string"))
        .with("idShort", Document::text(id))
        .with("value", Document::text(value))
}

fn device(status: &str, last_update: &str) -> Document {
    Document::object()
        .with("modelType", Document::text("Submodel"))
        .with("id", Document::text("https://example.com/ids/ManagedDevice/1"))
        .with("idShort", Document::text("ManagedDevice"))
        .with(
            "submodelElements",
            Document::array()
                .with_item(leaf("BoardingStatus", status))
                .with_item(leaf("LastUpdate", last_update)),
        )
}

#[test]
fn a_payload_with_last_update_is_stamped() {
    let payload = Document::object()
        .with("BoardingStatus", Document::text("OFFBOARDING_REQUESTED"))
        .with("LastUpdate", Document::text("whenever"));
    let stamped = stamp_last_update(payload, "2022-01-01T12:00:00+00:00");
    let expected = Document::object()
        .with("BoardingStatus", Document::text("OFFBOARDING_REQUESTED"))
        .with("LastUpdate", Document::text("2022-01-01T12:00:00+00:00"));
    assert!(stamped.same_value(&expected));
    let payload = Document::object().with("LastUpdate", Document::Null);
    let stamped = stamp_last_update(payload, "now");
    assert!(stamped.same_value(&Document::object().with("LastUpdate", Document::text("now"))));
}

#[test]
fn a_payload_without_last_update_gets_none() {
    let payload = Document::object().with("BoardingStatus", Document::text("ONBOARDED"));
    let stamped = stamp_last_update(payload.duplicate(), "now");
    assert!(stamped.same_value(&payload));
    assert!(stamp_last_update(Document::text("x"), "now").same_value(&Document::text("x")));
}

#[test]
fn a_patch_is_merged_into_what_is_stored() {
    let patch = Document::object().with("BoardingStatus", Document::text("ONBOARDED"));
    let write = patch_submodel_database(
        "dev1",
        "ManagedDevice",
        Some(device("OFFBOARDED", "t0")),
        &patch,
    );
    assert_eq!(write.key, "dev1:ManagedDevice");
    assert!(write.document.same_value(&device("ONBOARDED", "t0")));
    let merged = patched_document(Some(device("OFFBOARDED", "t0")), &patch);
    assert!(merged.same_value(&device("ONBOARDED", "t0")));
}

#[test]
fn without_a_stored_document_the_patch_is_the_base() {
    let patch = Document::object().with("BoardingStatus", Document::text("ONBOARDED"));
    let write = patch_submodel_database("dev1", "SystemInformation", None, &patch);
    assert_eq!(write.key, "dev1:SystemInformation");
    assert!(write.document.same_value(&patch));
}

#[test]
fn a_pulled_value_is_merged_into_the_local_copy() {
    let pulled = Document::object()
        .with("BoardingStatus", Document::text("OFFBOARDING_REQUESTED"))
        .with("LastUpdate", Document::text("t1"));
    let write = fetch_single_submodel_from_server(
        "dev1",
        "ManagedDevice",
        Some(device("ONBOARDED", "t0")),
        &pulled,
    )
    .unwrap();
    assert_eq!(write.key, "dev1:ManagedDevice");
    assert!(write.document.same_value(&device("OFFBOARDING_REQUESTED", "t1")));
}

#[test]
fn a_pulled_answer_that_is_no_object_is_refused() {
    let outcome = fetch_single_submodel_from_server(
        "dev1",
        "ManagedDevice",
        Some(device("ONBOARDED", "t0")),
        &Document::array(),
    );
    assert_eq!(outcome.unwrap_err(), PullError::NotAnObject);
    assert_eq!(pulled_document(None, &Document::text("x")).unwrap_err(), PullError::NotAnObject);
    assert_eq!(pulled_document(None, &Document::Null).unwrap_err(), PullError::NotAnObject);
    assert!(pulled_document(None, &Document::object()).is_ok());
}

#[test]
fn key_of_the_managed_device() {
    assert_eq!(managed_device_key("dev1"), "dev1:ManagedDevice");
}

#[test]
fn request_that_pushes_a_patch() {
    let dictionary = Document::object().with("ManagedDevice", Document::text("a"));
    let patch = Document::object()
        .with("BoardingStatus", Document::text("ONBOARDED"))
        .with("LastUpdate", Document::text("2022-01-01T12:00:00+00:00"));
    let request = patch_submodel_server(
        "http://registry:8081/",
        "dev1",
        &dictionary,
        "ManagedDevice",
        patch.duplicate(),
    )
    .unwrap();
    assert_eq!(request.url, "http://registry:8081/shells/ZGV2MQ/submodels/YQ/$value");
    assert!(request.body.same_value(&patch));
    assert!(request.body.get("submodelElements").is_none());
}

#[test]
fn the_request_is_addressed_by_the_unique_id_not_the_short_id() {
    let dictionary = Document::object().with("ManagedDevice", Document::text("a"));
    let request = patch_submodel_server(
        "http://registry:8081/",
        "dev1",
        &dictionary,
        "ManagedDevice",
        Document::object(),
    )
    .unwrap();
    assert!(request.url.ends_with("/submodels/YQ/$value"));
    assert!(!request.url.contains("YQ=="));
    assert!(!request.url.contains("ManagedDevice"));
}

#[test]
fn no_request_for_a_submodel_that_the_dictionary_lacks() {
    let dictionary = Document::object().with("ManagedDevice", Document::text("abc"));
    assert!(patch_submodel_server(
        "http://registry:8081/",
        "dev1",
        &dictionary,
        "SystemInformation",
        Document::object()
    )
    .is_none());
    assert!(pull_url("http://registry:8081/", "dev1", &dictionary, "SystemInformation").is_none());
}

#[test]
fn a_pull_fetches_from_the_url_that_a_push_patches() {
    let dictionary = Document::object().with("ManagedDevice", Document::text("abc"));
    let pull = pull_url("http://registry:8081/", "dev1", &dictionary, "ManagedDevice");
    assert_eq!(
        pull,
        Some("http://registry:8081/shells/ZGV2MQ/submodels/YWJj/$value".to_string())
    );
    let push = patch_submodel_server(
        "http://registry:8081/",
        "dev1",
        &dictionary,
        "ManagedDevice",
        Document::object(),
    )
    .unwrap();
    assert_eq!(Some(push.url), pull);
}

fn flat_device(status: &str, last_update: Document) -> Document {
    Document::object()
        .with("BoardingStatus", Document::text(status))
        .with("LastUpdate", last_update)
}

#[test]
fn a_patch_is_merged_into_a_stored_flat_view() {
    let patch = Document::object()
        .with("BoardingStatus", Document::text("ONBOARDED"))
        .with("LastUpdate", Document::text("t1"))
        .with("Unknown", Document::text("x"));
    let write = patch_submodel_database(
        "dev1",
        "ManagedDevice",
        Some(flat_device("OFFBOARDED", Document::Null)),
        &patch,
    );
    assert!(write.document.same_value(&flat_device("ONBOARDED", Document::text("t1"))));
}

#[test]
fn a_pulled_value_is_merged_into_a_stored_flat_view() {
    let pulled = flat_device("OFFBOARDING_REQUESTED", Document::text("t1"));
    let write = fetch_single_submodel_from_server(
        "dev1",
        "ManagedDevice",
        Some(flat_device("ONBOARDED", Document::text("t0"))),
        &pulled,
    )
    .unwrap();
    assert!(write.document.same_value(&pulled));
}
