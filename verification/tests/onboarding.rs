use twin_sync::dictionary::build_dictionary;
use twin_sync::document::Document;
use twin_sync::onboarding::{
    dictionary_ids, dictionary_write, extract_submodels_id, fetch_pair_outcome, fetched_records,
    next_phase, shell_write, submodel_write,
    plan_writes, resolve_uid, submodel_record, FetchFailure, Phase, SubmodelRecord,
    RETRY_BACKOFF_SECONDS,
};

fn reference(id: Option<Document>) -> Document {
    let key = match id {
        Some(value) => Document::object()
            .with("type", Document::text("Submodel"))
            .with("value", value),
        None => Document::object().with("type", Document::text("Submodel")),
    };
    Document::object()
        .with("type", Document::text("ModelReference"))
        .with("keys", Document::array().with_item(key))
}

#[test]
fn ids_of_the_submodels_of_a_shell() {
    let shell = Document::object().with("idShort", Document::text("dev1")).with(
        "submodels",
        Document::array()
            .with_item(reference(Some(Document::text("https://example.com/sm/1"))))
            .with_item(reference(Some(Document::text("https://example.com/sm/2")))),
    );
    assert_eq!(
        extract_submodels_id(&shell),
        vec!["https://example.com/sm/1".to_string(), "https://example.com/sm/2".to_string()]
    );
}

#[test]
fn references_without_a_readable_key_are_skipped() {
    let second_key = Document::object().with("value", Document::text("second"));
    let shell = Document::object().with(
        "submodels",
        Document::array()
            .with_item(reference(None))
            .with_item(reference(Some(Document::number("7"))))
            .with_item(Document::object().with("keys", Document::array()))
            .with_item(Document::object().with("keys", Document::text("k")))
            .with_item(Document::object())
            .with_item(Document::text("x"))
            .with_item(
                Document::object().with(
                    "keys",
                    Document::array()
                        .with_item(Document::object().with("value", Document::text("first")))
                        .with_item(second_key),
                ),
            ),
    );
    assert_eq!(extract_submodels_id(&shell), vec!["first".to_string()]);
}

#[test]
fn a_shell_without_submodels_has_no_ids() {
    assert_eq!(extract_submodels_id(&Document::object()), Vec::<String>::new());
    let shell = Document::object().with("submodels", Document::text("none"));
    assert_eq!(extract_submodels_id(&shell), Vec::<String>::new());
    assert_eq!(extract_submodels_id(&Document::Null), Vec::<String>::new());
}

#[test]
fn both_fetches_of_a_submodel_must_succeed() {
    assert_eq!(fetch_pair_outcome(200, 200), Ok(()));
    assert_eq!(fetch_pair_outcome(404, 200), Err(FetchFailure::Schema(404)));
    assert_eq!(fetch_pair_outcome(200, 500), Err(FetchFailure::Value(500)));
    assert_eq!(fetch_pair_outcome(404, 500), Err(FetchFailure::Schema(404)));
}

#[test]
fn record_of_a_fetched_submodel() {
    let schema = Document::object().with("idShort", Document::text("SystemInformation"));
    let value = Document::object().with("HealthStatus", Document::text("NORMAL"));
    let record = submodel_record("https://example.com/sm/1", &schema, value).unwrap();
    assert_eq!(record.id_short, "SystemInformation");
    assert_eq!(record.uid, "https://example.com/sm/1");
    let expected = Document::object().with("HealthStatus", Document::text("NORMAL"));
    assert!(record.document.same_value(&expected));
}

#[test]
fn no_record_without_a_short_id() {
    let schema = Document::object().with("idShort", Document::number("1"));
    assert!(submodel_record("uid", &schema, Document::object()).is_none());
    assert!(submodel_record("uid", &Document::object(), Document::object()).is_none());
}

fn record(id_short: &str, uid: &str) -> SubmodelRecord {
    SubmodelRecord {
        id_short: id_short.to_string(),
        uid: uid.to_string(),
        document: Document::object().with("idShort", Document::text(id_short)),
    }
}

#[test]
fn failed_fetches_leave_no_trace() {
    let outcomes = vec![Some(record("A", "uid-a")), None, Some(record("C", "uid-c"))];
    let fetched: Vec<SubmodelRecord> = outcomes.into_iter().flatten().collect();
    assert_eq!(fetched.len(), 2);
    let shell = Document::object().with("idShort", Document::text("dev1"));
    let writes = plan_writes("dev1", shell, &fetched);
    let keys: Vec<&str> = writes.iter().map(|w| w.0.as_str()).collect();
    assert_eq!(keys, vec!["dev1", "dev1:A", "dev1:C", "dev1:submodels_dictionary"]);
    let dictionary = &writes[3].1;
    assert_eq!(dictionary_ids(dictionary), vec!["A".to_string(), "C".to_string()]);
    assert_eq!(resolve_uid(dictionary, "A"), Some("uid-a".to_string()));
    assert_eq!(resolve_uid(dictionary, "C"), Some("uid-c".to_string()));
    assert_eq!(resolve_uid(dictionary, "B"), None);
    assert!(writes[0].1.same_value(&Document::object().with("idShort", Document::text("dev1"))));
    assert!(writes[1].1.same_value(&Document::object().with("idShort", Document::text("A"))));
}

#[test]
fn onboarding_with_every_fetch_failed_still_stores_shell_and_dictionary() {
    let writes = plan_writes("dev1", Document::object(), &Vec::new());
    assert_eq!(writes.len(), 2);
    assert_eq!(writes[0].0, "dev1");
    assert_eq!(writes[1].0, "dev1:submodels_dictionary");
    assert!(writes[1].1.same_value(&Document::object()));
}

#[test]
fn dictionary_from_pairs() {
    let pairs = vec![
        ("A".to_string(), "uid-a".to_string()),
        ("B".to_string(), "uid-b".to_string()),
        ("A".to_string(), "uid-a2".to_string()),
    ];
    let dictionary = build_dictionary(&pairs);
    let expected = Document::object()
        .with("B", Document::text("uid-b"))
        .with("A", Document::text("uid-a2"));
    assert!(dictionary.same_value(&expected));
    assert_eq!(dictionary_ids(&dictionary), vec!["A".to_string(), "B".to_string()]);
}

#[test]
fn lookup_in_a_dictionary() {
    let dictionary = Document::object()
        .with("A", Document::text("uid-a"))
        .with("N", Document::number("3"));
    assert_eq!(resolve_uid(&dictionary, "A"), Some("uid-a".to_string()));
    assert_eq!(resolve_uid(&dictionary, "N"), None);
    assert_eq!(resolve_uid(&dictionary, "Z"), None);
    assert_eq!(resolve_uid(&Document::array(), "A"), None);
    assert_eq!(dictionary_ids(&Document::Null), Vec::<String>::new());
}

#[test]
fn phases_of_onboarding() {
    assert_eq!(next_phase(Phase::FetchShell, true), Phase::FetchSubmodels);
    assert_eq!(next_phase(Phase::FetchShell, false), Phase::Retry);
    assert_eq!(next_phase(Phase::FetchSubmodels, true), Phase::FetchThumbnail);
    assert_eq!(next_phase(Phase::FetchSubmodels, false), Phase::Retry);
    assert_eq!(next_phase(Phase::FetchThumbnail, true), Phase::OnboardDevice);
    assert_eq!(next_phase(Phase::FetchThumbnail, false), Phase::OnboardDevice);
    assert_eq!(next_phase(Phase::OnboardDevice, true), Phase::Done);
    assert_eq!(next_phase(Phase::OnboardDevice, false), Phase::Retry);
    assert_eq!(next_phase(Phase::Retry, true), Phase::FetchShell);
    assert_eq!(next_phase(Phase::Retry, false), Phase::FetchShell);
    assert_eq!(next_phase(Phase::Done, false), Phase::Done);
    assert_eq!(RETRY_BACKOFF_SECONDS, 10);
}

#[test]
fn the_fetches_that_succeeded_are_kept_in_order() {
    let outcomes = vec![None, Some(record("A", "uid-a")), None, Some(record("C", "uid-c")), None];
    let kept = fetched_records(&outcomes);
    assert_eq!(kept.len(), 2);
    assert_eq!(kept[0].id_short, "A");
    assert_eq!(kept[0].uid, "uid-a");
    assert!(kept[0].document.same_value(&Document::object().with("idShort", Document::text("A"))));
    assert_eq!(kept[1].id_short, "C");
    assert_eq!(fetched_records(&vec![None, None]).len(), 0);
    assert_eq!(fetched_records(&Vec::new()).len(), 0);
}

#[test]
fn the_three_kinds_of_write() {
    let shell = shell_write("dev1", Document::object().with("id", Document::text("dev1")));
    assert_eq!(shell.0, "dev1");
    assert!(shell.1.same_value(&Document::object().with("id", Document::text("dev1"))));
    let submodel = submodel_write("dev1", &record("A", "uid-a"));
    assert_eq!(submodel.0, "dev1:A");
    assert!(submodel.1.same_value(&Document::object().with("idShort", Document::text("A"))));
    let dictionary = dictionary_write("dev1", &vec![record("B", "uid-b"), record("A", "uid-a")]);
    assert_eq!(dictionary.0, "dev1:submodels_dictionary");
    let expected = Document::object()
        .with("A", Document::text("uid-a"))
        .with("B", Document::text("uid-b"));
    assert!(dictionary.1.same_value(&expected));
}
