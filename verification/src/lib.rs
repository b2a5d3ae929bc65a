//! Finds the differences between two exports of a clinical-data registry.
//!
//! An export is read element by element, each element is built into a typed
//! record, the records of one patient are gathered into slices, and the
//! slices of two exports are compared pair by pair. Every function states
//! what it returns over the mathematical model of its arguments.

pub mod clinical_data;
pub mod compare;
pub mod compare_records;
pub mod compare_slices;
pub mod decode_records;
pub mod decode_values;
pub mod diff;
pub mod differences;
pub mod error;
pub mod ids;
pub mod json;
pub mod laws;
pub mod lockstep;
pub mod migrated_registry;
pub mod number;
pub mod patient_slice;
pub mod prompt;
pub mod registry_data;
pub mod registry_definition;
pub mod split;
pub mod streaming;
pub mod streaming_serde;
pub mod texts;
pub mod validate;
