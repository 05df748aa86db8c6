//! The bookkeeping of onboarding: which submodels a shell refers to, what
//! each fetched submodel is stored as, and the dictionary of short ids.

use crate::dictionary::{build_dictionary, holds_pairs, pairs_view};
use crate::document::{entries_view, items_view, Document, Json};
use crate::keys::{
    dictionary_key, dictionary_suffix, shell_key, submodel_key, submodel_key_spec,
};
use crate::onboarding_laws::{kept, onboarding_writes, pairs_of, Fetched};
use crate::registry::{is_success, is_success_spec};
use vstd::prelude::*;
use vstd::string::*;

verus! {

/// The seconds to wait before onboarding is tried again after a failure.
pub const RETRY_BACKOFF_SECONDS: u64 = 10;

/// The views of a sequence of strings.
pub open spec fn texts_view(texts: Seq<String>) -> Seq<Seq<char>> {
    Seq::new(texts.len(), |i: int| texts[i]@)
}

/// The id that a submodel reference names: the `value` of the first of
/// its `keys`, where that is a string.
pub open spec fn reference_id(reference: Json) -> Option<Seq<char>> {
    match reference.get("keys"@) {
        Some(Json::Array(keys)) => if keys.len() > 0 {
            match keys[0].get("value"@) {
                Some(Json::Text(id)) => Some(id),
                _ => None,
            }
        } else {
            None
        },
        _ => None,
    }
}

/// The ids that the first `n` references name, in order; a reference that
/// names none is skipped.
pub open spec fn reference_ids(references: Seq<Json>, n: int) -> Seq<Seq<char>>
    decreases n,
{
    if n <= 0 || n > references.len() {
        Seq::empty()
    } else {
        let rest = reference_ids(references, n - 1);
        match reference_id(references[n - 1]) {
            Some(id) => rest.push(id),
            None => rest,
        }
    }
}

/// The ids of the submodels that a shell refers to.
pub open spec fn extract_spec(shell: Json) -> Seq<Seq<char>> {
    match shell.get("submodels"@) {
        Some(Json::Array(references)) => reference_ids(references, references.len() as int),
        _ => Seq::empty(),
    }
}

/// Reads the id that a submodel reference names.
pub fn read_reference_id(reference: &Document) -> (id: Option<String>)
    ensures
        match id {
            Some(text) => reference_id(reference@) == Some(text@),
            None => reference_id(reference@) is None,
        },
{
    match reference.get("keys") {
        Some(Document::Array(keys)) => {
            if keys.len() > 0 {
                assert(items_view(keys@)[0] == keys@[0]@);
                match keys[0].get("value") {
                    Some(Document::Text(id)) => Some(id.clone()),
                    _ => None,
                }
            } else {
                None
            }
        },
        _ => None,
    }
}

/// Lists the ids of the submodels that a shell refers to, in the order of
/// its references. A reference without a readable key is skipped.
pub fn extract_submodels_id(data: &Document) -> (ids: Vec<String>)
    ensures
        texts_view(ids@) == extract_spec(data@),
{
    let mut ids: Vec<String> = Vec::new();
    match data.get("submodels") {
        Some(Document::Array(references)) => {
            let ghost model = items_view(references@);
            let mut i: usize = 0;
            assert(texts_view(ids@) =~= reference_ids(model, 0));
            while i < references.len()
                invariant
                    i <= references.len(),
                    model == items_view(references@),
                    texts_view(ids@) == reference_ids(model, i as int),
                decreases references.len() - i,
            {
                assert(model[i as int] == references@[i as int]@);
                let ghost before = texts_view(ids@);
                match read_reference_id(&references[i]) {
                    Some(id) => {
                        ids.push(id);
                        assert(texts_view(ids@) =~= before.push(id@));
                    },
                    None => {},
                }
                i += 1;
            }
        },
        _ => {
            assert(texts_view(ids@) =~= Seq::empty());
        },
    }
    ids
}

/// Which of the two fetches of a submodel failed.
#[derive(Clone, Copy, Debug, PartialEq, Eq, Structural)]
pub enum FetchFailure {
    /// The fetch of the schema document, with its status.
    Schema(u16),
    /// The fetch of the flat value view, with its status.
    Value(u16),
}

/// Both fetches of a submodel must succeed. Where both fail, the schema
/// fetch is the one reported.
pub fn fetch_pair_outcome(schema_status: u16, value_status: u16) -> (outcome: Result<
    (),
    FetchFailure,
>)
    ensures
        outcome == if !is_success_spec(schema_status) {
            Err::<(), FetchFailure>(FetchFailure::Schema(schema_status))
        } else if !is_success_spec(value_status) {
            Err::<(), FetchFailure>(FetchFailure::Value(value_status))
        } else {
            Ok::<(), FetchFailure>(())
        },
{
    if !is_success(schema_status) {
        Err(FetchFailure::Schema(schema_status))
    } else if !is_success(value_status) {
        Err(FetchFailure::Value(value_status))
    } else {
        Ok(())
    }
}

/// What onboarding keeps of one fetched submodel.
#[derive(Debug)]
pub struct SubmodelRecord {
    /// The short id, which the dictionary maps to the unique id and under
    /// which the document is stored.
    pub id_short: String,
    /// The unique id by which the registry addresses the submodel.
    pub uid: String,
    /// The document to store.
    pub document: Document,
}

/// The short id that a schema document states.
pub open spec fn stated_id_short(schema: Json) -> Option<Seq<char>> {
    match schema.get("idShort"@) {
        Some(Json::Text(id)) => Some(id),
        _ => None,
    }
}

/// Forms the record of a fetched submodel: the schema document states the
/// short id, the fetched value is the document to store. Without a short
/// id there is no record.
pub fn submodel_record(uid: &str, schema: &Document, value: Document) -> (record: Option<
    SubmodelRecord,
>)
    ensures
        match record {
            Some(r) => stated_id_short(schema@) == Some(r.id_short@) && r.uid@ == uid@
                && r.document == value,
            None => stated_id_short(schema@) is None,
        },
{
    match schema.get("idShort") {
        Some(Document::Text(id)) => Some(
            SubmodelRecord { id_short: id.clone(), uid: String::from_str(uid), document: value },
        ),
        _ => None,
    }
}

/// The unique id that a dictionary gives to a short id.
pub open spec fn resolve_spec(dictionary: Json, id_short: Seq<char>) -> Option<Seq<char>> {
    match dictionary.get(id_short) {
        Some(Json::Text(uid)) => Some(uid),
        _ => None,
    }
}

/// Looks a short id up in the dictionary. Without an entry that holds a
/// string the registry cannot be asked about the submodel.
pub fn resolve_uid(dictionary: &Document, id_short: &str) -> (uid: Option<String>)
    ensures
        match uid {
            Some(text) => resolve_spec(dictionary@, id_short@) == Some(text@),
            None => resolve_spec(dictionary@, id_short@) is None,
        },
{
    match dictionary.get(id_short) {
        Some(Document::Text(uid)) => Some(uid.clone()),
        _ => None,
    }
}

/// The short ids that a dictionary holds, in its order.
pub fn dictionary_ids(dictionary: &Document) -> (ids: Vec<String>)
    ensures
        texts_view(ids@) == match dictionary@ {
            Json::Object(entries) => Seq::new(entries.len(), |i: int| entries[i].0),
            _ => Seq::empty(),
        },
{
    let mut ids: Vec<String> = Vec::new();
    match dictionary {
        Document::Object(entries) => {
            let mut i: usize = 0;
            while i < entries.len()
                invariant
                    i <= entries.len(),
                    ids@.len() == i,
                    forall|j: int| 0 <= j < i ==> (#[trigger] ids@[j])@ == entries@[j].0@,
                decreases entries.len() - i,
            {
                ids.push(entries[i].0.clone());
                i += 1;
            }
            assert(texts_view(ids@) =~= Seq::new(
                entries_view(entries@).len(),
                |i: int| entries_view(entries@)[i].0,
            ));
        },
        _ => {
            assert(texts_view(ids@) =~= Seq::empty());
        },
    }
    ids
}

/// The model of the records of the fetched submodels.
pub open spec fn fetched_view(records: Seq<SubmodelRecord>) -> Seq<Fetched> {
    Seq::new(
        records.len(),
        |i: int|
            Fetched {
                id_short: records[i].id_short@,
                uid: records[i].uid@,
                document: records[i].document@,
            },
    )
}

/// The model of the outcomes of the fetches: a record where the fetch
/// succeeded, nothing where it failed.
pub open spec fn outcomes_view(outcomes: Seq<Option<SubmodelRecord>>) -> Seq<Option<Fetched>> {
    Seq::new(
        outcomes.len(),
        |i: int|
            match outcomes[i] {
                Some(record) => Some(
                    Fetched {
                        id_short: record.id_short@,
                        uid: record.uid@,
                        document: record.document@,
                    },
                ),
                None => None,
            },
    )
}

/// Picks the records of the fetches that succeeded, in the order of the
/// fetches. A failed fetch gives no record and does not keep the others
/// from theirs.
pub fn fetched_records(outcomes: &Vec<Option<SubmodelRecord>>) -> (records: Vec<SubmodelRecord>)
    ensures
        fetched_view(records@) == kept(outcomes_view(outcomes@), outcomes@.len() as int),
{
    let ghost model = outcomes_view(outcomes@);
    let mut records: Vec<SubmodelRecord> = Vec::new();
    let mut i: usize = 0;
    assert(fetched_view(records@) =~= kept(model, 0));
    while i < outcomes.len()
        invariant
            i <= outcomes.len(),
            model == outcomes_view(outcomes@),
            fetched_view(records@) == kept(model, i as int),
        decreases outcomes.len() - i,
    {
        let ghost before = fetched_view(records@);
        match &outcomes[i] {
            Some(record) => {
                let copy = SubmodelRecord {
                    id_short: record.id_short.clone(),
                    uid: record.uid.clone(),
                    document: record.document.duplicate(),
                };
                records.push(copy);
                assert(fetched_view(records@) =~= before.push(model[i as int]->0));
            },
            None => {},
        }
        i += 1;
    }
    records
}

/// The write that stores the shell: under the device id, before any
/// submodel is fetched.
pub fn shell_write(device: &str, shell: Document) -> (write: (String, Document))
    ensures
        write.0@ == device@,
        write.1 == shell,
{
    (shell_key(device), shell)
}

/// The write that stores one fetched submodel: its document under
/// `<device>:<short id>`.
pub fn submodel_write(device: &str, record: &SubmodelRecord) -> (write: (String, Document))
    ensures
        write.0@ == submodel_key_spec(device@, record.id_short@),
        write.1@ == record.document@,
{
    (submodel_key(device, record.id_short.as_str()), record.document.duplicate())
}

/// The write that stores the dictionary of the fetched submodels, once
/// every fetch has ended: it holds one entry for each record, in any
/// order.
pub fn dictionary_write(device: &str, records: &Vec<SubmodelRecord>) -> (write: (String, Document))
    ensures
        write.0@ == submodel_key_spec(device@, dictionary_suffix()),
        holds_pairs(write.1@, pairs_of(fetched_view(records@))),
{
    let ghost fetched = fetched_view(records@);
    let mut pairs: Vec<(String, String)> = Vec::new();
    let mut i: usize = 0;
    while i < records.len()
        invariant
            i <= records.len(),
            fetched == fetched_view(records@),
            pairs@.len() == i,
            forall|j: int|
                0 <= j < i ==> (#[trigger] pairs@[j]).0@ == fetched[j].id_short && pairs@[j].1@
                    == fetched[j].uid,
        decreases records.len() - i,
    {
        let record = &records[i];
        assert(fetched[i as int].id_short == record.id_short@);
        pairs.push((record.id_short.clone(), record.uid.clone()));
        i += 1;
    }
    assert(pairs_view(pairs@) =~= pairs_of(fetched));
    (dictionary_key(device), build_dictionary(&pairs))
}

/// Lists what onboarding writes to the store, in order: the shell, each
/// fetched submodel, and last the dictionary. A submodel whose fetch
/// failed has no record and so leaves nothing in the store or the
/// dictionary.
pub fn plan_writes(device: &str, shell: Document, records: &Vec<SubmodelRecord>) -> (writes: Vec<
    (String, Document),
>)
    ensures
        ({
            let written = entries_view(writes@);
            let fetched = fetched_view(records@);
            &&& written.len() == fetched.len() + 2
            &&& holds_pairs(written.last().1, pairs_of(fetched))
            &&& written == onboarding_writes(device@, shell@, fetched, written.last().1)
        }),
{
    let ghost fetched = fetched_view(records@);
    let ghost shell_model = shell@;
    let mut writes: Vec<(String, Document)> = Vec::new();
    writes.push(shell_write(device, shell));
    let mut i: usize = 0;
    while i < records.len()
        invariant
            i <= records.len(),
            fetched == fetched_view(records@),
            writes@.len() == i + 1,
            writes@[0].0@ == device@,
            writes@[0].1@ == shell_model,
            forall|j: int|
                0 <= j < i ==> (#[trigger] writes@[j + 1]).0@ == submodel_key_spec(
                    device@,
                    fetched[j].id_short,
                ) && writes@[j + 1].1@ == fetched[j].document,
        decreases records.len() - i,
    {
        assert(fetched[i as int].id_short == records@[i as int].id_short@);
        writes.push(submodel_write(device, &records[i]));
        i += 1;
    }
    let last = dictionary_write(device, records);
    let ghost dictionary_model = last.1@;
    let ghost before = writes@;
    writes.push(last);
    proof {
        let got = entries_view(writes@);
        assert(got.last().1 == dictionary_model);
        let expected = onboarding_writes(device@, shell_model, fetched, dictionary_model);
        let n = fetched.len() as int;
        assert(got.len() == n + 2);
        assert(expected.len() == n + 2);
        assert forall|k: int| 0 <= k < n + 2 implies got[k] == expected[k] by {
            if k == 0 {
                assert(writes@[0] == before[0]);
            } else if k <= n {
                assert(writes@[k] == before[(k - 1) + 1]);
            } else {
            }
        }
        assert(got =~= expected);
    }
    writes
}

/// Where onboarding stands.
#[derive(Clone, Copy, Debug, PartialEq, Eq, Structural)]
pub enum Phase {
    /// Fetch the shell and store it.
    FetchShell,
    /// Fetch every submodel that the shell refers to, then store the
    /// dictionary.
    FetchSubmodels,
    /// Fetch the thumbnail.
    FetchThumbnail,
    /// Mark the managed device onboarded, locally and at the registry.
    OnboardDevice,
    /// The device is onboarded.
    Done,
    /// A step failed: wait for the backoff and start again.
    Retry,
}

/// The phase that follows once the work of a phase has ended. A failure
/// sends the workflow to `Retry`, but for the thumbnail, whose failure is
/// passed over. The fetch of the submodels counts as failed only where
/// the dictionary could not be stored, not where single submodels failed.
pub open spec fn next_phase_spec(phase: Phase, succeeded: bool) -> Phase {
    match phase {
        Phase::FetchShell => if succeeded {
            Phase::FetchSubmodels
        } else {
            Phase::Retry
        },
        Phase::FetchSubmodels => if succeeded {
            Phase::FetchThumbnail
        } else {
            Phase::Retry
        },
        Phase::FetchThumbnail => Phase::OnboardDevice,
        Phase::OnboardDevice => if succeeded {
            Phase::Done
        } else {
            Phase::Retry
        },
        Phase::Done => Phase::Done,
        Phase::Retry => Phase::FetchShell,
    }
}

/// The phase that follows once the work of a phase has ended.
pub fn next_phase(phase: Phase, succeeded: bool) -> (next: Phase)
    ensures
        next == next_phase_spec(phase, succeeded),
{
    match phase {
        Phase::FetchShell => if succeeded {
            Phase::FetchSubmodels
        } else {
            Phase::Retry
        },
        Phase::FetchSubmodels => if succeeded {
            Phase::FetchThumbnail
        } else {
            Phase::Retry
        },
        Phase::FetchThumbnail => Phase::OnboardDevice,
        Phase::OnboardDevice => if succeeded {
            Phase::Done
        } else {
            Phase::Retry
        },
        Phase::Done => Phase::Done,
        Phase::Retry => Phase::FetchShell,
    }
}

} // verus!
