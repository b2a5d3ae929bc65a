//! The comparison of two slices of one patient's records.

use crate::clinical_data::{
    datum_shape,
    ClinicalDatum,
    ClinicalDatumModel,
    PatientSlice,
    PatientSliceModel,
    ProtoContext,
};
use crate::compare_records::datum_differences;
use crate::diff::{
    find,
    left_entry,
    left_pass,
    lemma_find_at,
    lemma_find_none,
    lemma_left_pass_step,
    lemma_right_pass_step,
    mapping_diff,
    right_entry,
    right_pass,
    Diff,
    MappingRules,
};
use crate::differences::{
    optional,
    ClinicalDatumDifference,
    ClinicalDatumDifferenceModel,
    ClinicalDatumDifferenceType,
    ClinicalDatumDifferenceTypeModel,
    PatientSliceDifference,
    PatientSliceDifferenceModel,
    PatientSliceDifferenceType,
    PatientSliceDifferenceTypeModel,
};
use crate::ids::{ascending, joined, joined_ascending};
use vstd::prelude::*;

verus! {

/// How the records of two slices are compared: two records belong together
/// when they have the same shape.
pub open spec fn datum_rules() -> MappingRules<
    ClinicalDatumModel,
    Set<Seq<char>>,
    ClinicalDatumDifferenceModel,
> {
    MappingRules {
        key: datum_shape(),
        left_only: |d: ClinicalDatumModel|
            ClinicalDatumDifferenceModel {
                proto_context: d.proto_context(),
                diff: ClinicalDatumDifferenceTypeModel::Missing(Some(d), None),
            },
        right_only: |d: ClinicalDatumModel|
            ClinicalDatumDifferenceModel {
                proto_context: d.proto_context(),
                diff: ClinicalDatumDifferenceTypeModel::Missing(None, Some(d)),
            },
        both: |a: ClinicalDatumModel, b: ClinicalDatumModel| datum_differences(a, b),
    }
}

/// The ids of the records, in their order.
pub open spec fn record_ids(data: Seq<ClinicalDatumModel>) -> Seq<u32> {
    data.map_values(|d: ClinicalDatumModel| d.id)
}

/// The ids of a slice's records as a report shows them.
pub open spec fn slice_ids(a: PatientSliceModel) -> Seq<char> {
    joined(ascending(record_ids(a.clinical_data)))
}

pub open spec fn slice_patient_report(a: PatientSliceModel, b: PatientSliceModel) -> Seq<
    PatientSliceDifferenceModel,
> {
    if a.patient != b.patient {
        seq![
            PatientSliceDifferenceModel {
                patient: a.patient,
                ids: slice_ids(a),
                diff: PatientSliceDifferenceTypeModel::Patient(a.patient, b.patient),
            },
        ]
    } else {
        Seq::empty()
    }
}

pub open spec fn slice_data_report(a: PatientSliceModel, b: PatientSliceModel) -> Seq<
    PatientSliceDifferenceModel,
> {
    let d = mapping_diff(datum_rules(), a.clinical_data, b.clinical_data);
    if d.len() == 0 {
        Seq::empty()
    } else {
        seq![
            PatientSliceDifferenceModel {
                patient: a.patient,
                ids: slice_ids(a),
                diff: PatientSliceDifferenceTypeModel::ClinicalData(d),
            },
        ]
    }
}

/// The comparison of two slices: their patients, then their records, whose
/// differences make one entry. Every report carries the left patient and the
/// ids of the left slice's records.
pub open spec fn slice_differences(a: PatientSliceModel, b: PatientSliceModel) -> Seq<
    PatientSliceDifferenceModel,
> {
    slice_patient_report(a, b) + slice_data_report(a, b)
}

/// The record of a slice that has the given shape.
pub fn find_datum<'a>(data: &'a Vec<ClinicalDatum>, shape: &ProtoContext) -> (r: Option<
    &'a ClinicalDatum,
>)
    ensures
        optional(r) == find(data.deep_view(), datum_shape(), shape@),
{
    let mut i: usize = 0;
    while i < data.len()
        invariant
            i <= data.len(),
            forall|j: int| 0 <= j < i ==> datum_shape()(#[trigger] data.deep_view()[j]) != shape@,
        decreases data.len() - i,
    {
        let own = data[i].proto_context();
        if own.same_as(shape) {
            proof {
                lemma_find_at(data.deep_view(), datum_shape(), shape@, i as int);
            }
            return Some(&data[i]);
        }
        i += 1;
    }
    proof {
        lemma_find_none(data.deep_view(), datum_shape(), shape@);
    }
    None
}

/// Compares the records of two slices.
pub fn diff_data<'a>(d1: &'a Vec<ClinicalDatum>, d2: &'a Vec<ClinicalDatum>) -> (r: Vec<
    ClinicalDatumDifference<'a>,
>)
    ensures
        r.deep_view() == mapping_diff(datum_rules(), d1.deep_view(), d2.deep_view()),
{
    let ghost left = d1.deep_view();
    let ghost right = d2.deep_view();
    let mut diffs: Vec<ClinicalDatumDifference<'a>> = Vec::new();
    let mut i: usize = 0;
    assert(diffs.deep_view() =~= left_pass(datum_rules(), left.take(0), right));
    while i < d1.len()
        invariant
            i <= d1.len(),
            left == d1.deep_view(),
            right == d2.deep_view(),
            diffs.deep_view() == left_pass(datum_rules(), left.take(i as int), right),
        decreases d1.len() - i,
    {
        let ghost before = diffs.deep_view();
        proof {
            lemma_left_pass_step(datum_rules(), left, right, i as int);
        }
        let v1 = &d1[i];
        let shape = v1.proto_context();
        match find_datum(d2, &shape) {
            None => {
                diffs.push(
                    ClinicalDatumDifference {
                        proto_context: shape,
                        diff: ClinicalDatumDifferenceType::Missing(Some(v1), None),
                    },
                );
                assert(diffs.deep_view() =~= before + left_entry(datum_rules(), left[i as int], right));
            },
            Some(v2) => {
                match v1.diff(v2) {
                    None => {
                        assert(diffs.deep_view() =~= before + left_entry(
                            datum_rules(),
                            left[i as int],
                            right,
                        ));
                    },
                    Some(mut found) => {
                        let ghost added = found.deep_view();
                        diffs.append(&mut found);
                        assert(diffs.deep_view() =~= before + added);
                    },
                }
            },
        }
        i += 1;
    }
    assert(left.take(d1.len() as int) =~= left);
    let ghost first = diffs.deep_view();
    let mut j: usize = 0;
    assert(diffs.deep_view() =~= first + right_pass(datum_rules(), left, right.take(0)));
    while j < d2.len()
        invariant
            j <= d2.len(),
            left == d1.deep_view(),
            right == d2.deep_view(),
            first == left_pass(datum_rules(), left, right),
            diffs.deep_view() == first + right_pass(datum_rules(), left, right.take(j as int)),
        decreases d2.len() - j,
    {
        let ghost before = diffs.deep_view();
        proof {
            lemma_right_pass_step(datum_rules(), left, right, j as int);
        }
        let v = &d2[j];
        let shape = v.proto_context();
        match find_datum(d1, &shape) {
            None => {
                diffs.push(
                    ClinicalDatumDifference {
                        proto_context: shape,
                        diff: ClinicalDatumDifferenceType::Missing(None, Some(v)),
                    },
                );
            },
            Some(_) => {},
        }
        assert(diffs.deep_view() =~= before + right_entry(datum_rules(), left, right[j as int]));
        j += 1;
    }
    assert(right.take(d2.len() as int) =~= right);
    diffs
}

impl PatientSlice {
    /// The ids of the slice's records, ascending, with commas between.
    pub fn ids(&self) -> (r: String)
        ensures
            r@ == slice_ids(self@),
    {
        let mut ids: Vec<u32> = Vec::new();
        let mut i: usize = 0;
        while i < self.clinical_data.len()
            invariant
                i <= self.clinical_data.len(),
                ids@.len() == i,
                forall|k: int| 0 <= k < i ==> ids@[k] == self.clinical_data@[k].id,
            decreases self.clinical_data.len() - i,
        {
            ids.push(self.clinical_data[i].id);
            i += 1;
        }
        assert(ids@ =~= record_ids(self@.clinical_data));
        joined_ascending(ids)
    }
}

impl<'a> Diff<'a> for PatientSlice {
    type Difference = PatientSliceDifference<'a>;

    open spec fn differences(&self, comp: &Self) -> Seq<PatientSliceDifferenceModel> {
        slice_differences(self@, comp@)
    }

    fn diff(&'a self, comp: &'a Self) -> (r: Option<Vec<PatientSliceDifference<'a>>>) {
        let mut diffs: Vec<PatientSliceDifference<'a>> = Vec::new();
        if self.patient != comp.patient {
            diffs.push(
                PatientSliceDifference {
                    patient: self.patient,
                    ids: self.ids(),
                    diff: PatientSliceDifferenceType::Patient(self.patient, comp.patient),
                },
            );
        }
        assert(diffs.deep_view() =~= slice_patient_report(self@, comp@));
        let ghost one = diffs.deep_view();
        let data_diffs = diff_data(&self.clinical_data, &comp.clinical_data);
        if data_diffs.len() != 0 {
            diffs.push(
                PatientSliceDifference {
                    patient: self.patient,
                    ids: self.ids(),
                    diff: PatientSliceDifferenceType::ClinicalData(data_diffs),
                },
            );
        }
        assert(diffs.deep_view() =~= one + slice_data_report(self@, comp@));
        if diffs.len() == 0 {
            None
        } else {
            Some(diffs)
        }
    }
}

} // verus!
