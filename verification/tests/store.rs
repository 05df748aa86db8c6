use twin_sync::document::Document;
use twin_sync::onboarding::{plan_writes, SubmodelRecord};
use twin_sync::store::{MemoryStore, Outcome, StoreError};

#[test]
fn a_new_store_holds_nothing() {
    let store = MemoryStore::new();
    assert_eq!(store.len(), 0);
    assert_eq!(store.get("dev1").unwrap_err(), StoreError::NotFound);
}

#[test]
fn a_write_inserts_or_updates() {
    let mut store = MemoryStore::new();
    assert_eq!(store.put("dev1", Document::text("a"), true), Ok(Outcome::Inserted));
    assert_eq!(store.put("dev1:A", Document::text("b"), false), Ok(Outcome::Inserted));
    assert_eq!(store.put("dev1", Document::text("c"), true), Ok(Outcome::Updated));
    assert_eq!(store.len(), 2);
    assert!(store.get("dev1").unwrap().same_value(&Document::text("c")));
    assert!(store.get("dev1:A").unwrap().same_value(&Document::text("b")));
    assert_eq!(store.get("dev1:B").unwrap_err(), StoreError::NotFound);
}

#[test]
fn a_write_replaces_whatever_the_flag() {
    let mut store = MemoryStore::new();
    assert_eq!(store.put("dev1", Document::text("a"), false), Ok(Outcome::Inserted));
    assert_eq!(store.put("dev1:A", Document::text("kept"), false), Ok(Outcome::Inserted));
    assert_eq!(store.put("dev1", Document::text("b"), false), Ok(Outcome::Updated));
    assert_eq!(store.len(), 2);
    assert!(store.get("dev1").unwrap().same_value(&Document::text("b")));
    assert_eq!(store.put("dev1", Document::text("c"), true), Ok(Outcome::Updated));
    assert!(store.get("dev1").unwrap().same_value(&Document::text("c")));
    assert!(store.get("dev1:A").unwrap().same_value(&Document::text("kept")));
}

#[test]
fn a_write_replaces_the_document_whole() {
    let mut store = MemoryStore::new();
    let first = Document::object().with("a", Document::text("1")).with("b", Document::text("2"));
    let second = Document::object().with("c", Document::text("3"));
    assert_eq!(store.put("k", first, true), Ok(Outcome::Inserted));
    assert_eq!(store.put("k", second.duplicate(), false), Ok(Outcome::Updated));
    assert!(store.get("k").unwrap().same_value(&second));
    assert!(store.get("k").unwrap().get("a").is_none());
}

fn fetched(id_short: &str, uid: &str) -> SubmodelRecord {
    SubmodelRecord {
        id_short: id_short.to_string(),
        uid: uid.to_string(),
        document: Document::object().with("idShort", Document::text(id_short)),
    }
}

#[test]
fn onboarding_with_failures_stores_what_was_fetched() {
    let outcomes = vec![
        Some(fetched("ManagedDevice", "uid-1")),
        None,
        Some(fetched("SystemInformation", "uid-3")),
        None,
        Some(fetched("Nameplate", "uid-5")),
    ];
    let asked = outcomes.len();
    let failed = outcomes.iter().filter(|o| o.is_none()).count();
    let records: Vec<SubmodelRecord> = outcomes.into_iter().flatten().collect();
    let writes = plan_writes("dev1", Document::object().with("id", Document::text("dev1")), &records);
    let mut store = MemoryStore::new();
    store.put_all(&writes);
    assert_eq!(store.len(), asked - failed + 2);
    assert!(store.get("dev1").is_ok());
    assert!(store.get("dev1:ManagedDevice").is_ok());
    assert!(store.get("dev1:SystemInformation").is_ok());
    assert!(store.get("dev1:Nameplate").is_ok());
    match store.get("dev1:submodels_dictionary") {
        Ok(Document::Object(entries)) => assert_eq!(entries.len(), asked - failed),
        _ => panic!("no dictionary in the store"),
    }
}

#[test]
fn writing_twice_changes_nothing() {
    let writes = plan_writes("dev1", Document::object(), &vec![fetched("A", "uid-a")]);
    let mut store = MemoryStore::new();
    store.put_all(&writes);
    store.put_all(&writes);
    assert_eq!(store.len(), 3);
}
