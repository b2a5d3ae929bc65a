use diffmig::clinical_data::{CDESVariant, CDEValue, ClinicalDatum, ClinicalDatumVariant};
use diffmig::error::ModelError;
use diffmig::json::Json;

fn json_of(text: &str) -> Json {
    Json::parse(text).expect("the text of the test is JSON")
}

fn value_of(text: &str) -> serde_json::Value {
    serde_json::from_str(text).expect("the text of the test is JSON")
}

fn decoded(text: &str) -> Result<Option<CDEValue>, ModelError> {
    ClinicalDatum::get_cde_value(&json_of(text))
}

fn row(collection: &str, data: &str) -> String {
    format!(
        r#"{{"pk": 11, "fields": {{"django_id": 5, "collection": "{}", "data": {}}}}}"#,
        collection, data
    )
}

fn forms(list: &str) -> String {
    format!(r#"{{"forms": {}}}"#, list)
}

fn built(text: &str) -> Result<Option<ClinicalDatum>, ModelError> {
    ClinicalDatum::from(&value_of(text))
}

fn error_of(text: &str) -> ModelError {
    match built(text) {
        Err(e) => e,
        Ok(_) => panic!("the row was accepted: {}", text),
    }
}

const ONE_FORM: &str = r#"[{"name": "f", "sections": [
    {"code": "s", "allow_multiple": false, "cdes": [{"code": "c", "value": 1}]},
    {"code": "m", "allow_multiple": true, "cdes": [[{"code": "c", "value": "x"}], []]}
]}]"#;

#[test]
fn empty_array_is_an_empty_range() {
    assert!(matches!(decoded("[]"), Ok(Some(CDEValue::EmptyRange))));
}

#[test]
fn array_of_an_empty_string_is_a_range() {
    match decoded(r#"[""]"#) {
        Ok(Some(CDEValue::Range(items))) => assert_eq!(items, vec![String::new()]),
        other => panic!("{:?}", other),
    }
}

#[test]
fn range_holds_each_string_once() {
    match decoded(r#"["b", "a", "b", "a", "c"]"#) {
        Ok(Some(CDEValue::Range(items))) => {
            assert_eq!(items, vec!["b".to_string(), "a".to_string(), "c".to_string()])
        }
        other => panic!("{:?}", other),
    }
}

#[test]
fn range_of_anything_but_strings_is_refused() {
    assert_eq!(decoded(r#"["a", 1]"#).unwrap_err(), ModelError::InvalidRangeCdeValue);
    assert_eq!(decoded("[null]").unwrap_err(), ModelError::InvalidRangeCdeValue);
    assert_eq!(
        ModelError::InvalidRangeCdeValue.message(),
        "Invalid range cde value"
    );
}

#[test]
fn plain_values_keep_their_variant() {
    assert!(matches!(decoded("null"), Ok(Some(CDEValue::Null))));
    assert!(matches!(decoded("true"), Ok(Some(CDEValue::Bool(true)))));
    assert!(matches!(decoded("false"), Ok(Some(CDEValue::Bool(false)))));
    assert!(matches!(decoded(r#""""#), Ok(Some(CDEValue::EmptyString))));
    match decoded(r#""abc""#) {
        Ok(Some(CDEValue::String(s))) => assert_eq!(s, "abc"),
        other => panic!("{:?}", other),
    }
}

#[test]
fn numbers_are_held_as_floats() {
    for (text, number) in [("1", 1.0f64), ("-3", -3.0), ("2.5", 2.5), ("1e3", 1000.0), ("0", 0.0)] {
        match decoded(text) {
            Ok(Some(CDEValue::Number(bits))) => assert_eq!(f64::from_bits(bits), number),
            other => panic!("{:?}", other),
        }
    }
}

#[test]
fn file_objects_are_file_references() {
    match decoded(r#"{"file_name": "scan.pdf", "django_file_id": 7}"#) {
        Ok(Some(CDEValue::File(f))) => {
            assert_eq!(f.file_name, "scan.pdf");
            assert_eq!(f.django_file_id, 7);
        }
        other => panic!("{:?}", other),
    }
    match decoded(r#"{"file_name": "a", "django_file_id": 0, "gridfs_file_id": "x"}"#) {
        Ok(Some(CDEValue::File(f))) => assert_eq!(f.django_file_id, 0),
        other => panic!("{:?}", other),
    }
    match decoded(r#"{"file_name": "a", "django_file_id": 4294967298}"#) {
        Ok(Some(CDEValue::File(f))) => assert_eq!(f.django_file_id, 2),
        other => panic!("{:?}", other),
    }
}

#[test]
fn other_objects_have_no_known_shape() {
    assert!(matches!(decoded("{}"), Ok(None)));
    assert!(matches!(decoded(r#"{"file_name": "a"}"#), Ok(None)));
    assert!(matches!(decoded(r#"{"file_name": 1, "django_file_id": 2}"#), Ok(None)));
    assert!(matches!(decoded(r#"{"file_name": "a", "django_file_id": -2}"#), Ok(None)));
    assert!(matches!(decoded(r#"{"file_name": "a", "django_file_id": 1.5}"#), Ok(None)));
    let cde = json_of(r#"{"code": "c", "value": {}}"#);
    assert_eq!(ClinicalDatum::get_cde(&cde).unwrap_err(), ModelError::InvalidCdeValue);
}

#[test]
fn a_file_without_a_numeric_id_is_refused() {
    let shapes = [
        r#"{"file_name": "scan.pdf", "gridfs_file_id": "5f"}"#,
        r#"{"file_name": "a", "django_file_id": null, "gridfs_file_id": "x"}"#,
        r#"{"file_name": "a", "django_file_id": "7", "gridfs_file_id": "x"}"#,
        r#"{"django_file_id": 7, "gridfs_file_id": "x"}"#,
    ];
    for shape in shapes {
        assert!(matches!(decoded(shape), Ok(None)), "{}", shape);
        let list = json_of(&format!(r#"[{{"code": "c", "value": {}}}]"#, shape));
        match &list {
            Json::Array(items) => assert_eq!(
                ClinicalDatum::get_cdes(items).unwrap_err(),
                ModelError::InvalidCdeValue
            ),
            other => panic!("{:?}", other),
        }
        assert_eq!(error_of(&cdes(&format!(r#"[{{"code": "c", "value": {}}}]"#, shape))), ModelError::InvalidCdeValue);
    }
}

#[test]
fn row_of_current_data_is_built() {
    let datum = built(&row("cdes", &forms(ONE_FORM))).unwrap().unwrap();
    assert_eq!(datum.id, 11);
    assert_eq!(datum.patient, 5);
    assert_eq!(datum.variant, ClinicalDatumVariant::CDEs);
    assert_eq!(datum.forms.len(), 1);
    let form = &datum.forms[0];
    assert_eq!(form.name, "f");
    assert_eq!(form.sections.len(), 2);
    assert_eq!(form.sections[0].code, "s");
    assert!(!form.sections[0].allow_multiple);
    match &form.sections[0].cdes {
        CDESVariant::Single(cdes) => {
            assert_eq!(cdes.len(), 1);
            assert_eq!(cdes[0].code, "c");
            assert!(matches!(cdes[0].value, CDEValue::Number(_)));
        }
        other => panic!("{:?}", other),
    }
    assert!(form.sections[1].allow_multiple);
    match &form.sections[1].cdes {
        CDESVariant::Multiple(instances) => {
            assert_eq!(instances.len(), 2);
            assert_eq!(instances[0].len(), 1);
            assert_eq!(instances[1].len(), 0);
        }
        other => panic!("{:?}", other),
    }
}

#[test]
fn row_of_a_history_keeps_its_forms_under_record() {
    let data = format!(r#"{{"record": {}}}"#, forms(ONE_FORM));
    let datum = built(&row("history", &data)).unwrap().unwrap();
    assert_eq!(datum.variant, ClinicalDatumVariant::History);
    assert_eq!(datum.forms.len(), 1);
    assert_eq!(error_of(&row("history", &forms(ONE_FORM))), ModelError::MissingRecord);
    assert_eq!(error_of(&row("history", r#"{"record": {}}"#)), ModelError::MissingForms);
    assert_eq!(ModelError::MissingRecord.message(), "Missing record");
}

#[test]
fn row_of_another_collection_is_left_out() {
    assert!(built(&row("progress", "{}")).unwrap().is_none());
    assert!(built(&row("", r#"{"forms": 3}"#)).unwrap().is_none());
    assert!(built(&row("CDES", "{}")).unwrap().is_none());
}

#[test]
fn cdes_row_without_forms_is_a_missing_forms_error() {
    let error = error_of(&row("cdes", "{}"));
    assert_eq!(error, ModelError::MissingForms);
    assert_eq!(error.message(), "Missing forms");
    assert_eq!(error_of(&row("cdes", r#"{"record": {"forms": []}}"#)), ModelError::MissingForms);
}

#[test]
fn ids_are_cut_to_thirty_two_bits() {
    let text = r#"{"pk": 4294967297, "fields": {"django_id": -1, "collection": "cdes", "data": {"forms": []}}}"#;
    let datum = built(text).unwrap().unwrap();
    assert_eq!(datum.id, 1);
    assert_eq!(datum.patient, u32::MAX);
}

#[test]
fn every_missing_or_mistyped_field_of_a_row_is_named() {
    assert_eq!(error_of("[]"), ModelError::NotAnObject);
    assert_eq!(error_of(r#"{"pk": 1}"#), ModelError::MissingFields);
    assert_eq!(error_of(r#"{"pk": 1, "fields": {}}"#), ModelError::MissingData);
    assert_eq!(error_of(r#"{"pk": 1, "fields": 3}"#), ModelError::MissingData);
    assert_eq!(error_of(r#"{"fields": {"data": {}}}"#), ModelError::MissingPk);
    assert_eq!(error_of(r#"{"pk": "1", "fields": {"data": {}}}"#), ModelError::InvalidPk);
    assert_eq!(error_of(r#"{"pk": 1.5, "fields": {"data": {}}}"#), ModelError::InvalidPk);
    assert_eq!(error_of(r#"{"pk": 1, "fields": {"data": {}}}"#), ModelError::MissingPatient);
    assert_eq!(
        error_of(r#"{"pk": 1, "fields": {"data": {}, "django_id": "x"}}"#),
        ModelError::InvalidPatient
    );
    assert_eq!(
        error_of(r#"{"pk": 1, "fields": {"data": {}, "django_id": 2}}"#),
        ModelError::MissingCollection
    );
    assert_eq!(
        error_of(r#"{"pk": 1, "fields": {"data": {}, "django_id": 2, "collection": 3}}"#),
        ModelError::InvalidCollection
    );
    assert_eq!(error_of(&row("cdes", r#"{"forms": {}}"#)), ModelError::InvalidForms);
    let messages = [
        (ModelError::NotAnObject, "Not an object"),
        (ModelError::MissingFields, "Missing fields"),
        (ModelError::MissingData, "Missing data"),
        (ModelError::MissingPk, "Missing PK"),
        (ModelError::InvalidPk, "Invalid PK"),
        (ModelError::MissingPatient, "Missing patient"),
        (ModelError::InvalidPatient, "Invalid patient"),
        (ModelError::MissingCollection, "Missing collection"),
        (ModelError::InvalidCollection, "Invalid collection"),
        (ModelError::InvalidForms, "Invalid forms"),
        (ModelError::InvalidData, "Invalid data"),
    ];
    for (error, text) in messages {
        assert_eq!(error.message(), text);
    }
}

#[test]
fn every_missing_or_mistyped_field_of_a_form_is_named() {
    let cases = [
        ("[1]", ModelError::InvalidForm, "Invalid form"),
        ("[{}]", ModelError::MissingFormName, "Missing form name"),
        (r#"[{"name": 1}]"#, ModelError::InvalidFormName, "Invalid form name"),
        (r#"[{"name": "f"}]"#, ModelError::MissingFormSections, "Missing form sections"),
        (
            r#"[{"name": "f", "sections": {}}]"#,
            ModelError::InvalidFormSections,
            "Invalid form sections",
        ),
    ];
    for (list, error, text) in cases {
        assert_eq!(error_of(&row("cdes", &forms(list))), error);
        assert_eq!(error.message(), text);
    }
}

fn sections(list: &str) -> String {
    row("cdes", &forms(&format!(r#"[{{"name": "f", "sections": {}}}]"#, list)))
}

#[test]
fn every_missing_or_mistyped_field_of_a_section_is_named() {
    let cases = [
        ("[1]", ModelError::InvalidSection, "Invalid section"),
        ("[{}]", ModelError::MissingSectionCode, "Missing section code"),
        (r#"[{"code": 1}]"#, ModelError::InvalidSectionCode, "Invalid section code"),
        (
            r#"[{"code": "s"}]"#,
            ModelError::MissingSectionAllowMultiple,
            "Missing section allow_multiple",
        ),
        (
            r#"[{"code": "s", "allow_multiple": 0}]"#,
            ModelError::InvalidSectionAllowMultiple,
            "Invalid section allow_multiple",
        ),
        (
            r#"[{"code": "s", "allow_multiple": false}]"#,
            ModelError::MissingSectionCdes,
            "Missing section cdes",
        ),
        (
            r#"[{"code": "s", "allow_multiple": false, "cdes": {}}]"#,
            ModelError::InvalidSectionCdes,
            "Invalid section cdes",
        ),
        (
            r#"[{"code": "s", "allow_multiple": true, "cdes": [{}]}]"#,
            ModelError::InvalidSectionCdesList,
            "Invalid section cdes list",
        ),
    ];
    for (list, error, text) in cases {
        assert_eq!(error_of(&sections(list)), error);
        assert_eq!(error.message(), text);
    }
}

fn cdes(list: &str) -> String {
    sections(&format!(r#"[{{"code": "s", "allow_multiple": false, "cdes": {}}}]"#, list))
}

#[test]
fn every_missing_or_mistyped_field_of_an_element_is_named() {
    let cases = [
        ("[1]", ModelError::InvalidCde, "Invalid cde"),
        ("[{}]", ModelError::MissingCdeCode, "Missing cde code"),
        (r#"[{"code": 1}]"#, ModelError::InvalidCdeCode, "Invalid cde code"),
        (r#"[{"code": "c"}]"#, ModelError::MissingCdeValue, "Missing cde value"),
        (r#"[{"code": "c", "value": {}}]"#, ModelError::InvalidCdeValue, "Invalid cde value"),
        (
            r#"[{"code": "c", "value": [1]}]"#,
            ModelError::InvalidRangeCdeValue,
            "Invalid range cde value",
        ),
    ];
    for (list, error, text) in cases {
        assert_eq!(error_of(&cdes(list)), error);
        assert_eq!(error.message(), text);
    }
}

#[test]
fn two_forms_of_one_name_are_refused() {
    let list = r#"[{"name": "f", "sections": []}, {"name": "g", "sections": []}, {"name": "f", "sections": []}]"#;
    let error = error_of(&row("cdes", &forms(list)));
    assert_eq!(error, ModelError::DuplicateForms);
    assert_eq!(error.message(), "List of forms contains duplicates");
}

#[test]
fn two_sections_of_one_code_are_refused() {
    let list = r#"[{"code": "s", "allow_multiple": false, "cdes": []}, {"code": "s", "allow_multiple": true, "cdes": []}]"#;
    let error = error_of(&sections(list));
    assert_eq!(error, ModelError::DuplicateSections);
    assert_eq!(error.message(), "List of sections contains duplicates");
}

#[test]
fn two_elements_of_one_code_are_refused() {
    let error = error_of(&cdes(r#"[{"code": "c", "value": 1}, {"code": "c", "value": 1}]"#));
    assert_eq!(error, ModelError::DuplicateCdes);
    assert_eq!(error.message(), "List of CDEs contains duplicates");
    let repeated = r#"[{"code": "s", "allow_multiple": true, "cdes": [[], [{"code": "c", "value": 1}, {"code": "c", "value": 2}]]}]"#;
    assert_eq!(error_of(&sections(repeated)), ModelError::DuplicateCdes);
}

#[test]
fn an_error_of_a_later_entry_comes_before_a_repeated_key() {
    let list = r#"[{"name": "f", "sections": []}, {"name": "f", "sections": []}, {"name": 3}]"#;
    assert_eq!(error_of(&row("cdes", &forms(list))), ModelError::InvalidFormName);
}

#[test]
fn shape_of_a_record_is_the_names_of_its_forms() {
    let list = r#"[{"name": "b", "sections": []}, {"name": "a", "sections": []}]"#;
    let datum = built(&row("cdes", &forms(list))).unwrap().unwrap();
    let shape = datum.proto_context();
    assert_eq!(shape.form_names, vec!["b".to_string(), "a".to_string()]);
    let other = r#"[{"name": "a", "sections": []}, {"name": "b", "sections": []}]"#;
    let turned = built(&row("cdes", &forms(other))).unwrap().unwrap().proto_context();
    assert!(shape.same_as(&turned));
    let less = built(&row("cdes", &forms(r#"[{"name": "a", "sections": []}]"#))).unwrap().unwrap();
    assert!(!shape.same_as(&less.proto_context()));
    assert!(!less.proto_context().same_as(&shape));
}

#[test]
fn json_tree_holds_what_the_parser_read() {
    let json = json_of(r#"{"b": [1, -2, 2.5, 18446744073709551615], "a": {"x": null}, "t": "s"}"#);
    let entries = json.as_object().unwrap();
    let keys: Vec<&str> = entries.iter().map(|e| e.0.as_str()).collect();
    assert_eq!(keys, vec!["a", "b", "t"]);
    assert!(matches!(json.get("a").unwrap().get("x"), Some(Json::Null)));
    assert_eq!(json.get("t").unwrap().as_str(), Some("s"));
    assert!(json.get("missing").is_none());
    assert!(json.get("t").unwrap().get("a").is_none());
    let numbers = json.get("b").unwrap().as_array().unwrap();
    assert_eq!(numbers.len(), 4);
    assert_eq!(numbers[0].as_i64(), Some(1));
    assert_eq!(numbers[1].as_i64(), Some(-2));
    assert_eq!(numbers[2].as_i64(), None);
    assert_eq!(numbers[3].as_i64(), None);
    match (&numbers[0], &numbers[1], &numbers[2], &numbers[3]) {
        (Json::Number(one), Json::Number(minus), Json::Number(half), Json::Number(big)) => {
            assert_eq!(one.unsigned, Some(1));
            assert_eq!(one.bits, Some(1.0f64.to_bits()));
            assert_eq!(minus.unsigned, None);
            assert_eq!(minus.signed, Some(-2));
            assert_eq!(minus.bits, Some((-2.0f64).to_bits()));
            assert_eq!(half.signed, None);
            assert_eq!(half.unsigned, None);
            assert_eq!(half.bits, Some(2.5f64.to_bits()));
            assert_eq!(big.unsigned, Some(u64::MAX));
            assert_eq!(big.signed, None);
        }
        other => panic!("{:?}", other),
    }
    assert!(Json::parse("{").is_err());
    assert!(Json::parse("").is_err());
    assert!(Json::parse("[1,]").is_err());
}
