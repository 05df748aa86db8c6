//! Synchronisation engine for a device twin: composite store keys,
//! structural merge of submodel documents, registry addressing,
//! onboarding bookkeeping and the boarding state machine.

pub mod keys;
pub mod document;
pub mod number;
pub mod dictionary;
pub mod text;
pub mod merge;
pub mod merge_laws;
pub mod registry;
pub mod clock;
pub mod scheduler;
pub mod onboarding;
pub mod onboarding_laws;
pub mod local;
pub mod requests;
pub mod store;
