use diffmig::clinical_data::{ClinicalDatum, ClinicalDatumVariant, Form, PatientSlice};
use diffmig::streaming::{RegistryData, SliceAssembler};

fn shaped(id: u32, patient: u32, names: &[&str]) -> ClinicalDatum {
    ClinicalDatum {
        id,
        patient,
        variant: ClinicalDatumVariant::CDEs,
        forms: names.iter().map(|n| Form { name: n.to_string(), sections: vec![] }).collect(),
    }
}

fn ids_of(slice: &PatientSlice) -> Vec<u32> {
    slice.clinical_data.iter().map(|d| d.id).collect()
}

fn run_of_records() -> Vec<ClinicalDatum> {
    vec![
        shaped(1, 7, &["a"]),
        shaped(2, 7, &["a", "b"]),
        shaped(3, 7, &["b"]),
        shaped(4, 8, &["a"]),
        shaped(5, 7, &["a"]),
        shaped(6, 7, &["c"]),
        shaped(7, 7, &["a"]),
        shaped(8, 7, &["b", "a"]),
        shaped(9, 7, &["a", "b"]),
    ]
}

const EXPECTED: [(u32, &[u32]); 5] =
    [(7, &[1, 2, 3]), (8, &[4]), (7, &[5, 6]), (7, &[7, 8]), (7, &[9])];

#[test]
fn a_slice_takes_a_record_of_its_patient_and_a_new_shape() {
    let mut slice = PatientSlice::from(7);
    assert_eq!(slice.patient, 7);
    assert!(slice.clinical_data.is_empty());
    assert!(slice.can_add(&shaped(1, 7, &["a"])));
    assert!(!slice.can_add(&shaped(1, 8, &["a"])));
    slice.add(shaped(1, 7, &["a", "b"]));
    assert!(!slice.can_add(&shaped(2, 7, &["b", "a"])));
    assert!(!slice.can_add(&shaped(2, 7, &["a", "b", "a"])));
    assert!(slice.can_add(&shaped(2, 7, &["a"])));
    assert!(slice.can_add(&shaped(2, 7, &[])));
    assert_eq!(ids_of(&slice), vec![1]);
}

#[test]
fn a_slice_grows_by_the_records_that_can_join_it() {
    let mut slice = PatientSlice::from(7);
    for (id, name) in [(1, "a"), (2, "b"), (3, "c")] {
        let datum = shaped(id, 7, &[name]);
        assert!(slice.can_add(&datum));
        slice.add(datum);
    }
    assert_eq!(ids_of(&slice), vec![1, 2, 3]);
    assert!(!slice.can_add(&shaped(4, 7, &["b"])));
    assert!(!slice.can_add(&shaped(5, 9, &["d"])));
    assert!(slice.can_add(&shaped(6, 7, &["d"])));
    assert_eq!(ids_of(&slice), vec![1, 2, 3]);
    assert_eq!(slice.patient, 7);
}

#[test]
fn records_are_gathered_into_runs_of_one_patient() {
    let mut data = RegistryData::from(run_of_records());
    for (patient, ids) in EXPECTED {
        let slice = data.next().unwrap();
        assert_eq!(slice.patient, patient);
        assert_eq!(ids_of(&slice), ids.to_vec());
    }
    assert!(data.next().is_none());
    assert!(data.next().is_none());
    assert!(RegistryData::from(vec![]).next().is_none());
}

#[test]
fn records_that_arrive_one_by_one_give_the_same_slices() {
    let mut assembler = SliceAssembler::new();
    let mut slices = vec![];
    for datum in run_of_records() {
        if let Some(done) = assembler.push(datum) {
            slices.push(done);
        }
    }
    if let Some(done) = assembler.finish() {
        slices.push(done);
    }
    assert!(assembler.finish().is_none());
    assert_eq!(slices.len(), EXPECTED.len());
    for (slice, (patient, ids)) in slices.iter().zip(EXPECTED) {
        assert_eq!(slice.patient, patient);
        assert_eq!(ids_of(slice), ids.to_vec());
    }
    assert!(SliceAssembler::new().finish().is_none());
}
