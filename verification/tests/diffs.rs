use diffmig::clinical_data::{
    CDEFileValue, CDESVariant, CDEValue, ClinicalDatum, ClinicalDatumVariant, Form, PatientSlice,
    Section, CDE,
};
use diffmig::compare::diff_cdes;
use diffmig::diff::Diff;
use diffmig::differences::{
    CDEDifference, CDEDifferenceType, ClinicalDatumDifferenceType, FormDifferenceType,
    PatientSliceDifferenceType, SectionDifferenceType,
};

fn number(code: &str, value: f64) -> CDE {
    CDE { code: code.to_string(), value: CDEValue::Number(value.to_bits()) }
}

fn text(code: &str, value: &str) -> CDE {
    CDE { code: code.to_string(), value: CDEValue::String(value.to_string()) }
}

fn range(code: &str, items: &[&str]) -> CDE {
    CDE {
        code: code.to_string(),
        value: CDEValue::Range(items.iter().map(|s| s.to_string()).collect()),
    }
}

fn file(code: &str, name: &str, id: u32) -> CDE {
    CDE {
        code: code.to_string(),
        value: CDEValue::File(CDEFileValue { file_name: name.to_string(), django_file_id: id }),
    }
}

fn single(code: &str, cdes: Vec<CDE>) -> Section {
    Section { code: code.to_string(), allow_multiple: false, cdes: CDESVariant::Single(cdes) }
}

fn multiple(code: &str, instances: Vec<Vec<CDE>>) -> Section {
    Section { code: code.to_string(), allow_multiple: true, cdes: CDESVariant::Multiple(instances) }
}

fn form(name: &str, sections: Vec<Section>) -> Form {
    Form { name: name.to_string(), sections }
}

fn record(id: u32, patient: u32, forms: Vec<Form>) -> ClinicalDatum {
    ClinicalDatum { id, patient, variant: ClinicalDatumVariant::CDEs, forms }
}

fn sample_record(id: u32) -> ClinicalDatum {
    record(
        id,
        3,
        vec![
            form(
                "first",
                vec![
                    single("s", vec![number("n", 1.5), text("t", "x"), range("r", &["a", "b"])]),
                    multiple("m", vec![vec![number("n", 1.0)], vec![file("f", "a.pdf", 4)]]),
                ],
            ),
            form("second", vec![]),
        ],
    )
}

fn every_variant() -> Vec<CDEValue> {
    vec![
        CDEValue::Null,
        CDEValue::Bool(true),
        CDEValue::EmptyString,
        CDEValue::String("x".to_string()),
        CDEValue::Number(2.5f64.to_bits()),
        CDEValue::EmptyRange,
        CDEValue::Range(vec!["a".to_string(), "b".to_string()]),
        CDEValue::File(CDEFileValue { file_name: "f".to_string(), django_file_id: 1 }),
    ]
}

fn same_variant_other_value() -> Vec<CDEValue> {
    vec![
        CDEValue::Null,
        CDEValue::Bool(false),
        CDEValue::EmptyString,
        CDEValue::String("y".to_string()),
        CDEValue::Number(2.75f64.to_bits()),
        CDEValue::EmptyRange,
        CDEValue::Range(vec!["a".to_string()]),
        CDEValue::File(CDEFileValue { file_name: "f".to_string(), django_file_id: 2 }),
    ]
}

#[test]
fn a_value_does_not_differ_from_itself() {
    for value in every_variant() {
        let cde = CDE { code: "c".to_string(), value };
        assert!(cde.diff(&cde).is_none(), "{:?}", cde);
    }
    let section = single("s", vec![number("a", 1.0), text("b", "x")]);
    assert!(section.diff(&section).is_none());
    let repeated = multiple("m", vec![vec![number("a", 1.0)], vec![], vec![text("b", "x")]]);
    assert!(repeated.diff(&repeated).is_none());
    let one = sample_record(1);
    assert!(one.forms[0].diff(&one.forms[0]).is_none());
    assert!(one.diff(&one).is_none());
    let mut slice = PatientSlice::from(3);
    slice.add(sample_record(1));
    slice.add(record(2, 3, vec![form("other", vec![])]));
    assert!(slice.diff(&slice).is_none());
}

#[test]
fn numbers_within_a_hundredth_do_not_differ() {
    assert!(number("n", 1.000).diff(&number("n", 1.009)).is_none());
    let found = number("n", 1.000);
    let other = number("n", 1.02);
    let diffs = found.diff(&other).unwrap();
    assert_eq!(diffs.len(), 1);
    assert_eq!(diffs[0].code, "n");
    match &diffs[0].diff {
        CDEDifferenceType::Equality(CDEValue::Number(a), CDEValue::Number(b)) => {
            assert_eq!(f64::from_bits(*a), 1.000);
            assert_eq!(f64::from_bits(*b), 1.02);
        }
        other => panic!("{:?}", other),
    }
}

#[test]
fn a_number_against_a_string_differs_in_variant_only() {
    let left = number("c", 1.0);
    let right = text("c", "1.0");
    let diffs = left.diff(&right).unwrap();
    assert_eq!(diffs.len(), 1);
    assert!(matches!(
        diffs[0].diff,
        CDEDifferenceType::Variant(CDEValue::Number(_), CDEValue::String(_))
    ));
    let back = right.diff(&left).unwrap();
    assert_eq!(back.len(), 1);
    assert!(matches!(
        back[0].diff,
        CDEDifferenceType::Variant(CDEValue::String(_), CDEValue::Number(_))
    ));
}

#[test]
fn values_of_different_variants_differ_in_variant_only() {
    let all = every_variant();
    let again = every_variant();
    for (i, a) in all.into_iter().enumerate() {
        let left = CDE { code: "left".to_string(), value: a };
        for (j, b) in again.iter().enumerate() {
            if i == j {
                continue;
            }
            let right = CDE { code: "right".to_string(), value: copy_of(b) };
            let diffs = left.diff(&right).unwrap();
            assert_eq!(diffs.len(), 1);
            assert_eq!(diffs[0].code, "left");
            assert!(matches!(diffs[0].diff, CDEDifferenceType::Variant(_, _)));
        }
    }
}

fn copy_of(value: &CDEValue) -> CDEValue {
    match value {
        CDEValue::Null => CDEValue::Null,
        CDEValue::Bool(b) => CDEValue::Bool(*b),
        CDEValue::EmptyString => CDEValue::EmptyString,
        CDEValue::String(s) => CDEValue::String(s.clone()),
        CDEValue::Number(n) => CDEValue::Number(*n),
        CDEValue::EmptyRange => CDEValue::EmptyRange,
        CDEValue::Range(r) => CDEValue::Range(r.clone()),
        CDEValue::File(f) => CDEValue::File(CDEFileValue {
            file_name: f.file_name.clone(),
            django_file_id: f.django_file_id,
        }),
    }
}

#[test]
fn values_of_one_variant_differ_by_their_payload() {
    let left = every_variant();
    let right = same_variant_other_value();
    for (a, b) in left.into_iter().zip(right.into_iter()) {
        let payload = !matches!(a, CDEValue::Null | CDEValue::EmptyString | CDEValue::EmptyRange);
        let x = CDE { code: "c".to_string(), value: a };
        let y = CDE { code: "c".to_string(), value: b };
        match x.diff(&y) {
            None => assert!(!payload, "{:?}", x),
            Some(diffs) => {
                assert!(payload);
                assert_eq!(diffs.len(), 1);
                assert!(matches!(diffs[0].diff, CDEDifferenceType::Equality(_, _)));
            }
        }
    }
    let by_name = file("f", "a", 1);
    assert!(by_name.diff(&file("f", "b", 1)).is_some());
    assert!(by_name.diff(&file("f", "a", 1)).is_none());
}

#[test]
fn ranges_compare_as_sets() {
    assert!(range("r", &["a", "b"]).diff(&range("r", &["b", "a"])).is_none());
    assert!(range("r", &["a", "b"]).diff(&range("r", &["b", "a", "a"])).is_none());
    assert!(range("r", &["a", "b"]).diff(&range("r", &["a"])).is_some());
    assert!(range("r", &["a"]).diff(&range("r", &["a", "b"])).is_some());
    assert!(range("r", &["a"]).diff(&range("r", &["b"])).is_some());
}

fn missing_codes(diffs: &[CDEDifference]) -> (Vec<String>, Vec<String>) {
    let mut left = vec![];
    let mut right = vec![];
    for d in diffs {
        match &d.diff {
            CDEDifferenceType::Missing(Some(c), None) => {
                assert_eq!(d.code, c.code);
                left.push(c.code.clone())
            }
            CDEDifferenceType::Missing(None, Some(c)) => {
                assert_eq!(d.code, c.code);
                right.push(c.code.clone())
            }
            CDEDifferenceType::Missing(_, _) => panic!("{:?}", d),
            _ => {}
        }
    }
    (left, right)
}

#[test]
fn mappings_report_the_keys_that_one_side_lacks() {
    let left = vec![number("a", 1.0), number("b", 2.0)];
    let right = vec![number("b", 2.0), number("c", 3.0)];
    let diffs = diff_cdes(&left, &right).unwrap();
    assert_eq!(diffs.len(), 2);
    assert_eq!(diffs[0].code, "a");
    assert!(matches!(&diffs[0].diff, CDEDifferenceType::Missing(Some(c), None) if c.code == "a"));
    assert_eq!(diffs[1].code, "c");
    assert!(matches!(&diffs[1].diff, CDEDifferenceType::Missing(None, Some(c)) if c.code == "c"));
}

#[test]
fn mappings_compared_the_other_way_swap_the_sides() {
    let left = vec![number("a", 1.0), number("b", 2.0), text("d", "x"), number("e", 1.0)];
    let right = vec![number("b", 2.5), number("c", 3.0), number("d", 1.0), text("f", "y")];
    let there = diff_cdes(&left, &right).unwrap();
    let back = diff_cdes(&right, &left).unwrap();
    let (left_only, right_only) = missing_codes(&there);
    let (back_left, back_right) = missing_codes(&back);
    assert_eq!(left_only, vec!["a".to_string(), "e".to_string()]);
    assert_eq!(right_only, vec!["c".to_string(), "f".to_string()]);
    assert_eq!(back_left, right_only);
    assert_eq!(back_right, left_only);
    assert_eq!(there.len(), 6);
    assert_eq!(back.len(), 6);
}

#[test]
fn mappings_report_in_the_order_of_the_left_then_of_the_right() {
    let left = vec![number("z", 1.0), number("b", 2.0), number("a", 1.0)];
    let right = vec![number("y", 2.0), number("b", 3.0), number("x", 3.0)];
    let diffs = diff_cdes(&left, &right).unwrap();
    let codes: Vec<&str> = diffs.iter().map(|d| d.code).collect();
    assert_eq!(codes, vec!["z", "b", "a", "y", "x"]);
    assert!(diff_cdes(&left, &left).is_none());
    assert!(diff_cdes(&vec![], &vec![]).is_none());
}

#[test]
fn sections_compare_code_flag_variant_and_elements() {
    let left = single("s", vec![number("a", 1.0)]);
    let right = multiple("t", vec![vec![number("a", 2.0)]]);
    let diffs = left.diff(&right).unwrap();
    assert_eq!(diffs.len(), 3);
    assert!(diffs.iter().all(|d| d.code == "s"));
    assert!(matches!(diffs[0].diff, SectionDifferenceType::Code("s", "t")));
    assert!(matches!(diffs[1].diff, SectionDifferenceType::AllowMultiple(false, true)));
    assert!(matches!(
        diffs[2].diff,
        SectionDifferenceType::Variant(CDESVariant::Single(_), CDESVariant::Multiple(_))
    ));
    let other = single("s", vec![number("a", 2.0), number("b", 1.0)]);
    let diffs = left.diff(&other).unwrap();
    assert_eq!(diffs.len(), 1);
    match &diffs[0].diff {
        SectionDifferenceType::CDEs(cdes) => {
            assert_eq!(cdes.len(), 2);
            assert!(matches!(cdes[0].diff, CDEDifferenceType::Equality(_, _)));
            assert!(matches!(cdes[1].diff, CDEDifferenceType::Missing(None, Some(_))));
        }
        other => panic!("{:?}", other),
    }
}

#[test]
fn repeated_instances_compare_place_by_place() {
    let left = multiple("m", vec![vec![number("a", 1.0)], vec![number("a", 2.0)]]);
    let turned = multiple("m", vec![vec![number("a", 2.0)], vec![number("a", 1.0)]]);
    let diffs = left.diff(&turned).unwrap();
    assert_eq!(diffs.len(), 2);
    assert!(diffs.iter().all(|d| matches!(&d.diff, SectionDifferenceType::CDEs(c) if c.len() == 1)));
    let longer = multiple(
        "m",
        vec![vec![number("a", 1.0)], vec![number("a", 2.0)], vec![number("a", 3.0)]],
    );
    let diffs = left.diff(&longer).unwrap();
    assert_eq!(diffs.len(), 1);
    assert_eq!(diffs[0].code, "m");
    match &diffs[0].diff {
        SectionDifferenceType::CDEs(cdes) => {
            assert_eq!(cdes.len(), 1);
            assert_eq!(cdes[0].code, "a");
            match &cdes[0].diff {
                CDEDifferenceType::Missing(None, Some(c)) => {
                    assert!(matches!(c.value, CDEValue::Number(n) if n == 3.0f64.to_bits()))
                }
                other => panic!("{:?}", other),
            }
        }
        other => panic!("{:?}", other),
    }
    let diffs = longer.diff(&left).unwrap();
    assert_eq!(diffs.len(), 1);
    match &diffs[0].diff {
        SectionDifferenceType::CDEs(cdes) => {
            assert_eq!(cdes.len(), 1);
            assert!(matches!(cdes[0].diff, CDEDifferenceType::Missing(Some(_), None)));
        }
        other => panic!("{:?}", other),
    }
    let second = multiple("m", vec![vec![number("a", 1.0)], vec![number("a", 5.0)]]);
    let diffs = left.diff(&second).unwrap();
    assert_eq!(diffs.len(), 1);
}

#[test]
fn sections_with_different_numbers_of_instances_differ() {
    let one = multiple("s", vec![vec![CDE { code: "x".to_string(), value: CDEValue::Bool(true) }]]);
    let two = multiple(
        "s",
        vec![
            vec![CDE { code: "x".to_string(), value: CDEValue::Bool(true) }],
            vec![CDE { code: "x".to_string(), value: CDEValue::Bool(false) }],
        ],
    );
    assert!(one.diff(&two).is_some());
    assert!(two.diff(&one).is_some());
    let none = multiple("s", vec![]);
    let empty = multiple("s", vec![vec![]]);
    let diffs = none.diff(&empty).unwrap();
    assert_eq!(diffs.len(), 1);
    assert!(matches!(&diffs[0].diff, SectionDifferenceType::CDEs(c) if c.is_empty()));
    assert!(empty.diff(&none).is_some());
    assert!(none.diff(&none).is_none());
    assert!(empty.diff(&empty).is_none());
    let three = multiple("s", vec![vec![], vec![text("a", "x"), text("b", "y")], vec![]]);
    let diffs = empty.diff(&three).unwrap();
    assert_eq!(diffs.len(), 2);
    assert!(matches!(&diffs[0].diff, SectionDifferenceType::CDEs(c) if c.len() == 2));
    assert!(matches!(&diffs[1].diff, SectionDifferenceType::CDEs(c) if c.is_empty()));
}

#[test]
fn forms_compare_name_and_sections() {
    let left = form("f", vec![single("s", vec![number("a", 1.0)]), single("only", vec![])]);
    let right = form("g", vec![single("s", vec![number("a", 9.0)]), single("new", vec![])]);
    let diffs = left.diff(&right).unwrap();
    assert_eq!(diffs.len(), 2);
    assert!(diffs.iter().all(|d| d.name == "f"));
    assert!(matches!(diffs[0].diff, FormDifferenceType::Name("f", "g")));
    match &diffs[1].diff {
        FormDifferenceType::Sections(sections) => {
            assert_eq!(sections.len(), 3);
            assert_eq!(sections[0].code, "s");
            assert!(matches!(sections[0].diff, SectionDifferenceType::CDEs(_)));
            assert_eq!(sections[1].code, "only");
            assert!(matches!(sections[1].diff, SectionDifferenceType::Missing(Some(_), None)));
            assert_eq!(sections[2].code, "new");
            assert!(matches!(sections[2].diff, SectionDifferenceType::Missing(None, Some(_))));
        }
        other => panic!("{:?}", other),
    }
}

#[test]
fn records_compare_patient_kind_and_forms_but_not_the_id() {
    let left = sample_record(1);
    assert!(left.diff(&sample_record(99)).is_none());
    let mut right = sample_record(1);
    right.patient = 4;
    right.variant = ClinicalDatumVariant::History;
    right.forms.pop();
    right.forms.push(form("third", vec![]));
    let diffs = left.diff(&right).unwrap();
    assert_eq!(diffs.len(), 3);
    for d in diffs.iter() {
        assert_eq!(d.proto_context.form_names, vec!["first".to_string(), "second".to_string()]);
    }
    assert!(matches!(diffs[0].diff, ClinicalDatumDifferenceType::Patient(3, 4)));
    assert!(matches!(
        diffs[1].diff,
        ClinicalDatumDifferenceType::Variant(
            ClinicalDatumVariant::CDEs,
            ClinicalDatumVariant::History
        )
    ));
    match &diffs[2].diff {
        ClinicalDatumDifferenceType::Forms(forms) => {
            assert_eq!(forms.len(), 2);
            assert_eq!(forms[0].name, "second");
            assert!(matches!(forms[0].diff, FormDifferenceType::Missing(Some(_), None)));
            assert_eq!(forms[1].name, "third");
            assert!(matches!(forms[1].diff, FormDifferenceType::Missing(None, Some(_))));
        }
        other => panic!("{:?}", other),
    }
}

#[test]
fn slices_compare_patient_and_records_by_shape() {
    let mut left = PatientSlice::from(3);
    left.add(record(10, 3, vec![form("a", vec![]), form("b", vec![])]));
    left.add(record(2, 3, vec![form("a", vec![])]));
    left.add(record(1, 3, vec![form("c", vec![])]));
    let right = PatientSlice {
        patient: 4,
        clinical_data: vec![
            record(7, 3, vec![form("b", vec![]), form("a", vec![])]),
            record(8, 3, vec![form("d", vec![])]),
            record(9, 4, vec![form("a", vec![])]),
        ],
    };
    let diffs = left.diff(&right).unwrap();
    assert_eq!(diffs.len(), 2);
    for d in diffs.iter() {
        assert_eq!(d.patient, 3);
        assert_eq!(d.ids, "1,2,10");
    }
    assert!(matches!(diffs[0].diff, PatientSliceDifferenceType::Patient(3, 4)));
    match &diffs[1].diff {
        PatientSliceDifferenceType::ClinicalData(data) => {
            assert_eq!(data.len(), 3);
            assert!(matches!(data[0].diff, ClinicalDatumDifferenceType::Patient(3, 4)));
            assert_eq!(data[0].proto_context.form_names, vec!["a".to_string()]);
            match &data[1].diff {
                ClinicalDatumDifferenceType::Missing(Some(d), None) => assert_eq!(d.id, 1),
                other => panic!("{:?}", other),
            }
            assert_eq!(data[1].proto_context.form_names, vec!["c".to_string()]);
            match &data[2].diff {
                ClinicalDatumDifferenceType::Missing(None, Some(d)) => assert_eq!(d.id, 8),
                other => panic!("{:?}", other),
            }
            assert_eq!(data[2].proto_context.form_names, vec!["d".to_string()]);
        }
        other => panic!("{:?}", other),
    }
    let back = right.diff(&left).unwrap();
    assert_eq!(back[0].ids, "7,8,9");
    assert_eq!(back[0].patient, 4);
}

#[test]
fn ids_of_a_slice_are_written_in_ascending_order() {
    let mut slice = PatientSlice::from(1);
    assert_eq!(slice.ids(), "");
    slice.add(record(4000000000, 1, vec![form("a", vec![])]));
    assert_eq!(slice.ids(), "4000000000");
    slice.add(record(0, 1, vec![form("b", vec![])]));
    slice.add(record(17, 1, vec![form("c", vec![])]));
    slice.add(record(9, 1, vec![form("d", vec![])]));
    slice.add(record(100, 1, vec![form("e", vec![])]));
    assert_eq!(slice.ids(), "0,9,17,100,4000000000");
    assert_eq!(diffmig::ids::joined_ascending(vec![3, 1, 2, 1]), "1,1,2,3");
}
