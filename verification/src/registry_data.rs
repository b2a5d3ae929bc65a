//! The records of an export, held against the definition of their registry
//! and gathered into slices.

use crate::clinical_data::{
    ClinicalDatum,
    ClinicalDatumModel,
    ClinicalDatumVariant,
    PatientSlice,
};
use crate::error::ModelError;
use crate::json::values_model;
use crate::registry_definition::{RegistryDefinition, RegistryDefinitionModel};
use crate::streaming::{
    element_texts,
    map_values_to_clinical_data,
    next_slice,
    parse_all,
    read_array_file_to_values,
    records_of,
    LoadError,
    MalformedElement,
};
use crate::validate::{findings, lemma_report_step, report_each};
use vstd::prelude::*;

verus! {

/// The records of an export that have not been handed out yet, and what was
/// found when they were held against the definition of the registry.
#[derive(Debug)]
pub struct RegistryData {
    pub data: crate::streaming::RegistryData,
    pub findings: Vec<String>,
}

/// The records of current data among the records, in their order.
pub open spec fn current_only(records: Seq<ClinicalDatumModel>) -> Seq<ClinicalDatumModel>
    decreases records.len(),
{
    if records.len() == 0 {
        Seq::empty()
    } else if records.last().variant == ClinicalDatumVariant::CDEs {
        current_only(records.drop_last()).push(records.last())
    } else {
        current_only(records.drop_last())
    }
}

/// The records of an export as they are compared: all of them, or only
/// those of current data.
pub open spec fn kept(records: Seq<ClinicalDatumModel>, cdes_only: bool) -> Seq<
    ClinicalDatumModel,
> {
    if cdes_only {
        current_only(records)
    } else {
        records
    }
}

/// What is found of every record held against the definition of the
/// registry, record by record.
pub open spec fn all_findings(
    records: Seq<ClinicalDatumModel>,
    definition: RegistryDefinitionModel,
) -> Seq<Seq<char>> {
    report_each(records, |d: ClinicalDatumModel| findings(d, definition))
}

impl RegistryData {
    /// Builds the records of the rows of an export, holds each against the
    /// definition of the registry, and keeps all of them or only those of
    /// current data. What is found is handed back beside the records and
    /// refuses none of them.
    pub fn map_values_to_clinical_data(
        values: &Vec<serde_json::Value>,
        definition: &RegistryDefinition,
        cdes_only: bool,
    ) -> (r: Result<(Vec<ClinicalDatum>, Vec<String>), ModelError>)
        ensures
            match records_of(values_model(values@)) {
                Err(e) => r == Err::<(Vec<ClinicalDatum>, Vec<String>), ModelError>(e),
                Ok(records) => r matches Ok((data, found)) && data.deep_view() == kept(
                    records,
                    cdes_only,
                ) && found.deep_view() == all_findings(records, definition.deep_view()),
            },
    {
        let mut records = match map_values_to_clinical_data(values) {
            Err(e) => {
                return Err(e);
            },
            Ok(records) => records,
        };
        let ghost all = records.deep_view();
        let ghost report = |d: ClinicalDatumModel| findings(d, definition.deep_view());
        let mut found: Vec<String> = Vec::new();
        let mut i: usize = 0;
        assert(found.deep_view() =~= report_each(all.take(0), report));
        while i < records.len()
            invariant
                i <= records.len(),
                all == records.deep_view(),
                report == (|d: ClinicalDatumModel| findings(d, definition.deep_view())),
                found.deep_view() == report_each(all.take(i as int), report),
            decreases records.len() - i,
        {
            let ghost before = found.deep_view();
            proof {
                lemma_report_step(all, report, i as int);
            }
            let mut errors = records[i].validate(definition);
            let ghost added = errors.deep_view();
            found.append(&mut errors);
            assert(found.deep_view() =~= before + added);
            i += 1;
        }
        assert(all.take(records.len() as int) =~= all);
        if !cdes_only {
            return Ok((records, found));
        }
        let mut stack: Vec<ClinicalDatum> = Vec::new();
        while records.len() > 0
            invariant
                records.len() <= all.len(),
                records.deep_view() == all.take(records.len() as int),
                current_only(all) == current_only(records.deep_view()) + stack.deep_view().reverse(),
            decreases records.len(),
        {
            let ghost n = records.len() as int;
            let ghost given = records.deep_view();
            let ghost held = stack.deep_view();
            let datum = records.pop().unwrap();
            assert(datum@ == given.last());
            assert(records.deep_view() =~= given.drop_last());
            assert(records.deep_view() =~= all.take(n - 1));
            match datum.variant {
                ClinicalDatumVariant::CDEs => {
                    stack.push(datum);
                    assert(stack.deep_view() =~= held.push(given.last()));
                    assert(current_only(given.drop_last()).push(given.last()) + held.reverse()
                        =~= current_only(given.drop_last()) + held.push(given.last()).reverse());
                },
                ClinicalDatumVariant::History => {},
            }
        }
        assert(records.deep_view() =~= Seq::<ClinicalDatumModel>::empty());
        let mut data: Vec<ClinicalDatum> = Vec::new();
        let ghost turned = stack.deep_view().reverse();
        assert(current_only(all) =~= turned);
        assert(data.deep_view() =~= turned.take(0));
        while stack.len() > 0
            invariant
                stack.len() <= turned.len(),
                data.deep_view() == turned.take(turned.len() - stack.len()),
                stack.deep_view() == turned.skip(turned.len() - stack.len()).reverse(),
            decreases stack.len(),
        {
            let ghost held = stack.deep_view();
            let ghost before = data.deep_view();
            let ghost at = turned.len() - stack.len();
            let datum = stack.pop().unwrap();
            assert(datum@ == held.last());
            assert(held.last() == turned[at]);
            assert(stack.deep_view() =~= held.drop_last());
            assert(held.drop_last() =~= turned.skip(at + 1).reverse());
            data.push(datum);
            assert(data.deep_view() =~= before.push(turned[at]));
            assert(before.push(turned[at]) =~= turned.take(at + 1));
        }
        assert(turned.take(turned.len() as int) =~= turned);
        Ok((data, found))
    }
}

impl RegistryData {
    /// The records that are left, in their order.
    pub open spec fn remaining(&self) -> Seq<ClinicalDatumModel> {
        self.data.remaining()
    }

    /// Reads the elements of an export from its lines, all of them at
    /// once.
    pub fn read_array_file_to_values(lines: &Vec<String>) -> (r: Result<
        Vec<serde_json::Value>,
        MalformedElement,
    >)
        ensures
            match parse_all(element_texts(lines.deep_view())) {
                Ok(models) => r matches Ok(values) && values_model(values@) == models,
                Err(text) => r matches Err(e) && e.text@ == text,
            },
    {
        read_array_file_to_values(lines)
    }

    /// Loads an export from its lines: reads its elements, builds and
    /// validates its records, and keeps all of them or only those of current
    /// data.
    ///
    /// This takes the whole export and holds all its records. Only
    /// `ArrayReader::push_line` with `SliceAssembler::push`, fed line by
    /// line, hold no more than one element and one slice.
    pub fn from(lines: &Vec<String>, definition: &RegistryDefinition, cdes_only: bool) -> (r:
        Result<RegistryData, LoadError>)
        ensures
            match parse_all(element_texts(lines.deep_view())) {
                Err(text) => r matches Err(LoadError::Malformed(e)) && e.text@ == text,
                Ok(rows) => match records_of(rows) {
                    Err(error) => r matches Err(LoadError::Invalid(e)) && e == error,
                    Ok(records) => r matches Ok(loaded) && loaded.remaining() == kept(
                        records,
                        cdes_only,
                    ) && loaded.findings.deep_view() == all_findings(
                        records,
                        definition.deep_view(),
                    ),
                },
            },
    {
        let values = match read_array_file_to_values(lines) {
            Err(e) => {
                return Err(LoadError::Malformed(e));
            },
            Ok(values) => values,
        };
        match Self::map_values_to_clinical_data(&values, definition, cdes_only) {
            Err(e) => Err(LoadError::Invalid(e)),
            Ok((records, findings)) => Ok(
                RegistryData { data: crate::streaming::RegistryData::from(records), findings },
            ),
        }
    }

    /// Hands out the next slice: the next record and the records after it
    /// that can join it.
    pub fn next(&mut self) -> (r: Option<PatientSlice>)
        ensures
            final(self).findings == old(self).findings,
            match next_slice(old(self).remaining()) {
                None => r is None && final(self).remaining() == old(self).remaining(),
                Some((slice, rest)) => r matches Some(s) && s@ == slice
                    && final(self).remaining() == rest,
            },
    {
        self.data.next()
    }
}

} // verus!
