//! The records of a migrated registry, read from the lines of its export
//! and gathered into slices.

use crate::clinical_data::{ClinicalDatum, ClinicalDatumModel, PatientSlice};
use crate::error::ModelError;
use crate::json::values_model;
use crate::streaming::{
    element_texts,
    map_values_to_clinical_data,
    next_slice,
    parse_all,
    read_array_file_to_values,
    records_of,
    LoadError,
    MalformedElement,
    RegistryData,
};
use vstd::prelude::*;

verus! {

/// The records of an export that have not been handed out yet.
#[derive(Debug)]
pub struct MigratedRegistry {
    pub data: RegistryData,
}

impl MigratedRegistry {
    /// The records that are left, in their order.
    pub open spec fn remaining(&self) -> Seq<ClinicalDatumModel> {
        self.data.remaining()
    }

    /// Loads an export from its lines: reads its elements and builds its
    /// records.
    ///
    /// This takes the whole export and holds all its records. Only
    /// `ArrayReader::push_line` with `SliceAssembler::push`, fed line by
    /// line, hold no more than one element and one slice.
    pub fn from(lines: &Vec<String>) -> (r: Result<MigratedRegistry, LoadError>)
        ensures
            match parse_all(element_texts(lines.deep_view())) {
                Err(text) => r matches Err(LoadError::Malformed(e)) && e.text@ == text,
                Ok(rows) => match records_of(rows) {
                    Err(error) => r matches Err(LoadError::Invalid(e)) && e == error,
                    Ok(records) => r matches Ok(loaded) && loaded.remaining() == records,
                },
            },
    {
        let values = match Self::read_array_file_to_values(lines) {
            Err(e) => {
                return Err(LoadError::Malformed(e));
            },
            Ok(values) => values,
        };
        match Self::map_values_to_clinical_data(&values) {
            Err(e) => Err(LoadError::Invalid(e)),
            Ok(records) => Ok(MigratedRegistry { data: RegistryData::from(records) }),
        }
    }

    /// Reads the elements of an export from its lines, all of them at
    /// once.
    pub fn read_array_file_to_values(lines: &Vec<String>) -> (r: Result<
        Vec<serde_json::Value>,
        MalformedElement,
    >)
        ensures
            match parse_all(element_texts(lines.deep_view())) {
                Ok(models) => r matches Ok(values) && values_model(values@) == models,
                Err(text) => r matches Err(e) && e.text@ == text,
            },
    {
        read_array_file_to_values(lines)
    }

    /// Builds the records of the rows of an export and leaves out the rows
    /// of collections that are not modelled.
    pub fn map_values_to_clinical_data(values: &Vec<serde_json::Value>) -> (r: Result<
        Vec<ClinicalDatum>,
        ModelError,
    >)
        ensures
            match r {
                Ok(records) => records_of(values_model(values@)) == Ok::<
                    Seq<ClinicalDatumModel>,
                    ModelError,
                >(records.deep_view()),
                Err(e) => records_of(values_model(values@)) == Err::<
                    Seq<ClinicalDatumModel>,
                    ModelError,
                >(e),
            },
    {
        map_values_to_clinical_data(values)
    }

    /// Hands out the next slice: the next record and the records after it
    /// that can join it.
    pub fn next(&mut self) -> (r: Option<PatientSlice>)
        ensures
            match next_slice(old(self).remaining()) {
                None => r is None && final(self).remaining() == old(self).remaining(),
                Some((slice, rest)) => r matches Some(s) && s@ == slice
                    && final(self).remaining() == rest,
            },
    {
        self.data.next()
    }
}

} // verus!
