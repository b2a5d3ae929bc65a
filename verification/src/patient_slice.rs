//! Gathering the records of one patient into a slice.

use crate::clinical_data::{
    datum_shape,
    ClinicalDatum,
    ClinicalDatumModel,
    PatientSlice,
    PatientSliceModel,
};
use crate::compare_slices::find_datum;
use crate::diff::find;
use vstd::prelude::*;

verus! {

impl PatientSliceModel {
    /// Whether a record can join the slice: it belongs to the slice's
    /// patient and the slice holds no record of its shape.
    pub open spec fn can_add(self, datum: ClinicalDatumModel) -> bool {
        datum.patient == self.patient && find(
            self.clinical_data,
            datum_shape(),
            datum.proto_context(),
        ) is None
    }

    /// The slice with one more record, after those that it holds.
    pub open spec fn add(self, datum: ClinicalDatumModel) -> PatientSliceModel {
        PatientSliceModel {
            patient: self.patient,
            clinical_data: self.clinical_data.push(datum),
        }
    }
}

impl PatientSlice {
    /// An empty slice for a patient.
    pub fn from(patient: u32) -> (slice: PatientSlice)
        ensures
            slice@ == (PatientSliceModel { patient, clinical_data: Seq::empty() }),
    {
        let slice = PatientSlice { patient, clinical_data: Vec::new() };
        assert(slice@.clinical_data =~= Seq::empty());
        slice
    }

    /// Whether a record can join the slice.
    pub fn can_add(&mut self, datum: &ClinicalDatum) -> (r: bool)
        ensures
            *final(self) == *old(self),
            r == old(self)@.can_add(datum@),
    {
        let shape = datum.proto_context();
        find_datum(&self.clinical_data, &shape).is_none() && datum.patient == self.patient
    }

    /// Puts a record into the slice, after those that it holds. The slice
    /// grows by records that can join it and by no others: whoever gathers
    /// records asks `can_add` first and begins another slice where it says
    /// no.
    pub fn add(&mut self, datum: ClinicalDatum)
        requires
            old(self)@.can_add(datum@),
        ensures
            final(self)@ == old(self)@.add(datum@),
    {
        let ghost before = self.clinical_data.deep_view();
        let ghost added = datum@;
        self.clinical_data.push(datum);
        assert(self.clinical_data.deep_view() =~= before.push(added));
    }
}

} // verus!
