//! The boarding state machine that the periodic push tick drives.

use crate::clock::{elapsed_seconds_spec, rfc3339_instant, timestamp_of, Timestamp};
use crate::document::{Document, Json};
use crate::merge::{value_view, value_view_spec};
use vstd::prelude::*;
use vstd::string::*;

verus! {

/// The lifecycle state of the device, as the managed-device submodel
/// holds it.
#[derive(Clone, Copy, Debug, PartialEq, Eq, Structural)]
pub enum BoardingStatus {
    Offboarded,
    Onboarded,
    OffboardingRequested,
    /// Any text that names none of the three states.
    Other,
}

/// What a push tick does once it has read the boarding status.
#[derive(Clone, Copy, Debug, PartialEq, Eq, Structural)]
pub enum PushAction {
    /// Mark the device offboarded, locally and then at the registry.
    Offboard,
    /// The grace period has not passed: do nothing.
    Wait,
    /// Mark the device onboarded, locally and then at the registry, probe
    /// again and push the system information.
    Onboard,
    /// Push the freshly probed system information to the registry.
    PushSystemInformation,
    /// The status names no state: report it and do nothing.
    Invalid,
}

/// One step of a push tick. The steps of an action run in order, and the
/// first that fails ends the tick.
#[derive(Clone, Copy, Debug, PartialEq, Eq, Structural)]
pub enum PushStep {
    /// Merge the status and the time of the tick into the local copy of
    /// the managed-device submodel.
    PatchLocalDevice(BoardingStatus),
    /// Send the managed-device submodel with the status and the time of
    /// the tick to the registry.
    PatchRemoteDevice(BoardingStatus),
    /// Run the system probe again.
    Probe,
    /// Send the system information with the latest probe result to the
    /// registry.
    PushSystemInformation,
}

/// Why a push tick ends without an action.
#[derive(Clone, Copy, Debug, PartialEq, Eq, Structural)]
pub enum TickError {
    /// The time of the last update is no RFC 3339 text.
    LastUpdateUnreadable,
    /// The time of the tick or of the last update denotes no date.
    TimeOutOfRange,
}

/// The seconds between two push ticks.
pub const PUSH_PERIOD_SECONDS: u32 = 5;

/// The seconds between two pull ticks.
pub const PULL_PERIOD_SECONDS: u32 = 10;

/// The field of the managed-device submodel that holds the status.
pub open spec fn field_boarding_status() -> Seq<char> {
    "BoardingStatus"@
}

/// The field of the managed-device submodel that holds the time of the
/// last change of status.
pub open spec fn field_last_update() -> Seq<char> {
    "LastUpdate"@
}

/// The text that stands for a field that is missing or holds no string.
pub open spec fn unknown_text() -> Seq<char> {
    "UNKNOWN"@
}

/// The text of a state.
pub open spec fn status_text(status: BoardingStatus) -> Seq<char> {
    match status {
        BoardingStatus::Offboarded => "OFFBOARDED"@,
        BoardingStatus::Onboarded => "ONBOARDED"@,
        BoardingStatus::OffboardingRequested => "OFFBOARDING_REQUESTED"@,
        BoardingStatus::Other => unknown_text(),
    }
}

/// The state that a text names.
pub open spec fn status_of(text: Seq<char>) -> BoardingStatus {
    if text == "OFFBOARDING_REQUESTED"@ {
        BoardingStatus::OffboardingRequested
    } else if text == "OFFBOARDED"@ {
        BoardingStatus::Offboarded
    } else if text == "ONBOARDED"@ {
        BoardingStatus::Onboarded
    } else {
        BoardingStatus::Other
    }
}

/// The transition table of the push tick.
pub open spec fn push_action_spec(status: BoardingStatus, elapsed: int, grace: int) -> PushAction {
    match status {
        BoardingStatus::OffboardingRequested => PushAction::Offboard,
        BoardingStatus::Offboarded => if elapsed < grace {
            PushAction::Wait
        } else {
            PushAction::Onboard
        },
        BoardingStatus::Onboarded => PushAction::PushSystemInformation,
        BoardingStatus::Other => PushAction::Invalid,
    }
}

/// The steps of an action, in the order in which they run.
pub open spec fn push_steps_spec(action: PushAction) -> Seq<PushStep> {
    match action {
        PushAction::Offboard => seq![
            PushStep::PatchLocalDevice(BoardingStatus::Offboarded),
            PushStep::PatchRemoteDevice(BoardingStatus::Offboarded),
        ],
        PushAction::Wait => seq![],
        PushAction::Onboard => seq![
            PushStep::PatchLocalDevice(BoardingStatus::Onboarded),
            PushStep::PatchRemoteDevice(BoardingStatus::Onboarded),
            PushStep::Probe,
            PushStep::PushSystemInformation,
        ],
        PushAction::PushSystemInformation => seq![PushStep::PushSystemInformation],
        PushAction::Invalid => seq![],
    }
}

/// The text under `field` in a flat view, or `UNKNOWN` where the field is
/// missing or holds no string.
pub open spec fn field_text(flat: Json, field: Seq<char>) -> Seq<char> {
    match flat.get(field) {
        Some(Json::Text(text)) => text,
        _ => unknown_text(),
    }
}

/// What a push tick decides once the time of the last update is parsed.
pub open spec fn decide_spec(
    status: Seq<char>,
    last_update: Option<Timestamp>,
    now: Timestamp,
    grace: int,
) -> Result<PushAction, TickError> {
    match last_update {
        Some(then) => match elapsed_seconds_spec(now, then) {
            Some(elapsed) => Ok(push_action_spec(status_of(status), elapsed as int, grace)),
            None => Err(TickError::TimeOutOfRange),
        },
        None => Err(TickError::LastUpdateUnreadable),
    }
}

/// What a push tick decides for a managed-device submodel.
pub open spec fn assess_spec(managed_device: Json, now: Timestamp, grace: int) -> Result<
    PushAction,
    TickError,
> {
    let flat = value_view_spec(managed_device);
    decide_spec(
        field_text(flat, field_boarding_status()),
        timestamp_of(rfc3339_instant(field_text(flat, field_last_update()))),
        now,
        grace,
    )
}

/// Each of the three states is the state that its text names.
pub proof fn lemma_status_text_names_status(status: BoardingStatus)
    requires
        status != BoardingStatus::Other,
    ensures
        status_of(status_text(status)) == status,
{
    reveal_strlit("OFFBOARDING_REQUESTED");
    reveal_strlit("OFFBOARDED");
    reveal_strlit("ONBOARDED");
    assert("OFFBOARDED"@.len() != "OFFBOARDING_REQUESTED"@.len());
    assert("ONBOARDED"@.len() != "OFFBOARDING_REQUESTED"@.len());
    assert("ONBOARDED"@.len() != "OFFBOARDED"@.len());
}

/// A requested offboarding is carried out whatever the time.
pub proof fn lemma_offboarding_ignores_time(elapsed: int, grace: int)
    ensures
        push_action_spec(BoardingStatus::OffboardingRequested, elapsed, grace)
            == PushAction::Offboard,
{
}

/// An offboarded device is onboarded again exactly when the grace period
/// has passed.
pub proof fn lemma_grace_period(elapsed: int, grace: int)
    ensures
        push_action_spec(BoardingStatus::Offboarded, elapsed, grace) == PushAction::Onboard
            <==> elapsed >= grace,
        push_action_spec(BoardingStatus::Offboarded, elapsed, grace) == PushAction::Wait
            <==> elapsed < grace,
{
}

/// An action that changes the status patches the local copy before the
/// registry, and pushes system information only after both.
pub proof fn lemma_local_before_remote(action: PushAction, i: int)
    requires
        0 <= i < push_steps_spec(action).len(),
        push_steps_spec(action)[i] is PatchRemoteDevice,
    ensures
        i > 0,
        push_steps_spec(action)[i - 1] is PatchLocalDevice,
        push_steps_spec(action)[i - 1]->PatchLocalDevice_0
            == push_steps_spec(action)[i]->PatchRemoteDevice_0,
{
}

impl BoardingStatus {
    /// The text of the state, as the submodel holds it.
    pub fn text(&self) -> (text: &'static str)
        ensures
            text@ == status_text(*self),
    {
        match self {
            BoardingStatus::Offboarded => "OFFBOARDED",
            BoardingStatus::Onboarded => "ONBOARDED",
            BoardingStatus::OffboardingRequested => "OFFBOARDING_REQUESTED",
            BoardingStatus::Other => "UNKNOWN",
        }
    }

    /// The state that a text names.
    pub fn from_text(text: &str) -> (status: BoardingStatus)
        ensures
            status == status_of(text@),
    {
        let text = String::from_str(text);
        if text == String::from_str("OFFBOARDING_REQUESTED") {
            BoardingStatus::OffboardingRequested
        } else if text == String::from_str("OFFBOARDED") {
            BoardingStatus::Offboarded
        } else if text == String::from_str("ONBOARDED") {
            BoardingStatus::Onboarded
        } else {
            BoardingStatus::Other
        }
    }
}

/// The transition table of the push tick: a requested offboarding is
/// carried out whatever the time; an offboarded device waits until the
/// grace period has passed and is then onboarded again; an onboarded
/// device pushes its system information; any other status is invalid.
pub fn decide_push(status: BoardingStatus, elapsed: i64, grace: i64) -> (action: PushAction)
    ensures
        action == push_action_spec(status, elapsed as int, grace as int),
{
    match status {
        BoardingStatus::OffboardingRequested => PushAction::Offboard,
        BoardingStatus::Offboarded => if elapsed < grace {
            PushAction::Wait
        } else {
            PushAction::Onboard
        },
        BoardingStatus::Onboarded => PushAction::PushSystemInformation,
        BoardingStatus::Other => PushAction::Invalid,
    }
}

/// The steps of an action, in the order in which they run: the local copy
/// is always patched before the registry.
pub fn push_steps(action: PushAction) -> (steps: Vec<PushStep>)
    ensures
        steps@ == push_steps_spec(action),
{
    let mut steps: Vec<PushStep> = Vec::new();
    match action {
        PushAction::Offboard => {
            steps.push(PushStep::PatchLocalDevice(BoardingStatus::Offboarded));
            steps.push(PushStep::PatchRemoteDevice(BoardingStatus::Offboarded));
        },
        PushAction::Onboard => {
            steps.push(PushStep::PatchLocalDevice(BoardingStatus::Onboarded));
            steps.push(PushStep::PatchRemoteDevice(BoardingStatus::Onboarded));
            steps.push(PushStep::Probe);
            steps.push(PushStep::PushSystemInformation);
        },
        PushAction::PushSystemInformation => {
            steps.push(PushStep::PushSystemInformation);
        },
        PushAction::Wait => {},
        PushAction::Invalid => {},
    }
    assert(steps@ =~= push_steps_spec(action));
    steps
}

/// The text under `field` in a flat view, or `UNKNOWN`.
pub fn read_field(flat: &Document, field: &str) -> (text: String)
    ensures
        text@ == field_text(flat@, field@),
{
    match flat.get(field) {
        Some(Document::Text(text)) => text.clone(),
        _ => String::from_str("UNKNOWN"),
    }
}

/// Decides once the time of the last update is parsed: without a readable
/// time, or with a time that denotes no date, the tick ends, whatever the
/// status. Otherwise the whole seconds since the last update are held
/// against the grace period by `decide_push`.
pub fn decide(status: &str, last_update: Option<Timestamp>, now: &Timestamp, grace: i64) -> (decision:
    Result<PushAction, TickError>)
    ensures
        decision == decide_spec(status@, last_update, *now, grace as int),
{
    match last_update {
        Some(then) => match now.seconds_since(&then) {
            Some(elapsed) => Ok(decide_push(BoardingStatus::from_text(status), elapsed, grace)),
            None => Err(TickError::TimeOutOfRange),
        },
        None => Err(TickError::LastUpdateUnreadable),
    }
}

/// Reads status and time of the last update from the value view of the
/// managed-device submodel, stored as a schema document or as a flat view,
/// and decides what the push tick does.
pub fn assess_managed_device(managed_device: Document, now: &Timestamp, grace: i64) -> (decision:
    Result<PushAction, TickError>)
    ensures
        decision == assess_spec(managed_device@, *now, grace as int),
{
    let flat = value_view(managed_device);
    let status = read_field(&flat, "BoardingStatus");
    let last_update = read_field(&flat, "LastUpdate");
    let parsed = Timestamp::parse(last_update.as_str());
    decide(status.as_str(), parsed, now, grace)
}

/// The patch that gives the managed-device submodel a status and the time
/// of its change.
pub fn boarding_patch(status: BoardingStatus, now: &str) -> (patch: Document)
    ensures
        patch@ == Json::Object(
            seq![
                (field_boarding_status(), Json::Text(status_text(status))),
                (field_last_update(), Json::Text(now@)),
            ],
        ),
{
    let mut entries: Vec<(String, Document)> = Vec::new();
    entries.push((String::from_str("BoardingStatus"), Document::text(status.text())));
    entries.push((String::from_str("LastUpdate"), Document::text(now)));
    let patch = Document::Object(entries);
    assert(patch@->Object_0 =~= seq![
        (field_boarding_status(), Json::Text(status_text(status))),
        (field_last_update(), Json::Text(now@)),
    ]);
    patch
}

/// The short ids of the submodels that a pull tick fetches, in order. A
/// failure with one of them does not keep the tick from the next.
pub fn pulled_submodels() -> (ids: Vec<&'static str>)
    ensures
        ids@.len() == 1,
        ids@[0]@ == "ManagedDevice"@,
{
    let mut ids: Vec<&'static str> = Vec::new();
    ids.push("ManagedDevice");
    ids
}

/// The steps with which onboarding marks the device onboarded: the local
/// copy first, then the registry.
pub fn onboarding_steps() -> (steps: Vec<PushStep>)
    ensures
        steps@ == seq![
            PushStep::PatchLocalDevice(BoardingStatus::Onboarded),
            PushStep::PatchRemoteDevice(BoardingStatus::Onboarded),
        ],
{
    let mut steps: Vec<PushStep> = Vec::new();
    steps.push(PushStep::PatchLocalDevice(BoardingStatus::Onboarded));
    steps.push(PushStep::PatchRemoteDevice(BoardingStatus::Onboarded));
    assert(steps@ =~= seq![
        PushStep::PatchLocalDevice(BoardingStatus::Onboarded),
        PushStep::PatchRemoteDevice(BoardingStatus::Onboarded),
    ]);
    steps
}

} // verus!
