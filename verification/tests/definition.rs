use diffmig::clinical_data::ClinicalDatum;
use diffmig::error::ModelError;
use diffmig::registry_data::RegistryData;
use diffmig::registry_definition::RegistryDefinition;

fn values_of(text: &str) -> Vec<serde_json::Value> {
    match serde_json::from_str(text).expect("the text of the test is JSON") {
        serde_json::Value::Array(items) => items,
        other => panic!("{:?}", other),
    }
}

fn definition_of(forms: &str, sections: &str) -> Result<RegistryDefinition, ModelError> {
    RegistryDefinition::new(&values_of(forms), &values_of(sections))
}

const FORMS: &str = r#"[
    {"fields": {"name": "first", "sections": "s1, s2 ,s1"}},
    {"fields": {"name": "second", "sections": "s3"}},
    {"fields": {"name": "absent", "sections": ""}}
]"#;

const SECTIONS: &str = r#"[
    {"fields": {"code": "s1", "elements": "a, b ,a"}},
    {"fields": {"code": "s2", "elements": "c"}}
]"#;

fn record_of(forms: &str) -> ClinicalDatum {
    let text = format!(
        r#"{{"pk": 1, "fields": {{"django_id": 2, "collection": "cdes", "data": {{"forms": {}}}}}}}"#,
        forms
    );
    ClinicalDatum::from(&serde_json::from_str(&text).unwrap()).unwrap().unwrap()
}

#[test]
fn definition_is_read_from_its_rows() {
    let definition = definition_of(FORMS, SECTIONS).unwrap();
    assert_eq!(definition.forms.len(), 3);
    assert_eq!(definition.forms[0].name, "first");
    assert_eq!(definition.forms[0].sections, vec!["s1", "s2"]);
    assert_eq!(definition.forms[1].sections, vec!["s3"]);
    assert_eq!(definition.forms[2].sections, vec![""]);
    assert_eq!(definition.sections.len(), 2);
    assert_eq!(definition.sections[0].code, "s1");
    assert_eq!(definition.sections[0].cdes, vec!["a", "b", "a"]);
    assert_eq!(definition.sections[1].cdes, vec!["c"]);
}

#[test]
fn a_later_definition_takes_the_place_of_an_earlier_one() {
    let forms = r#"[
        {"fields": {"name": "f", "sections": "old"}},
        {"fields": {"name": "g", "sections": "x"}},
        {"fields": {"name": "f", "sections": "new"}}
    ]"#;
    let sections = r#"[
        {"fields": {"code": "s", "elements": "a"}},
        {"fields": {"code": "s", "elements": "b"}},
        {"fields": {"code": "t", "elements": "c"}}
    ]"#;
    let definition = definition_of(forms, sections).unwrap();
    let names: Vec<&str> = definition.forms.iter().map(|f| f.name.as_str()).collect();
    assert_eq!(names, vec!["f", "g"]);
    assert_eq!(definition.forms[0].sections, vec!["new"]);
    let codes: Vec<&str> = definition.sections.iter().map(|s| s.code.as_str()).collect();
    assert_eq!(codes, vec!["s", "t"]);
    assert_eq!(definition.sections[0].cdes, vec!["b"]);
}

#[test]
fn every_missing_or_mistyped_field_of_a_definition_is_named() {
    let form_cases = [
        ("[1]", ModelError::InvalidData),
        ("[{}]", ModelError::MissingFields),
        (r#"[{"fields": {}}]"#, ModelError::MissingFormName),
        (r#"[{"fields": 1}]"#, ModelError::MissingFormName),
        (r#"[{"fields": {"name": 1}}]"#, ModelError::InvalidFormName),
        (r#"[{"fields": {"name": "f"}}]"#, ModelError::MissingFormSections),
        (r#"[{"fields": {"name": "f", "sections": []}}]"#, ModelError::InvalidFormSections),
    ];
    for (forms, error) in form_cases {
        assert_eq!(definition_of(forms, "[]").unwrap_err(), error);
    }
    let section_cases = [
        ("[null]", ModelError::InvalidData),
        ("[{}]", ModelError::MissingFields),
        (r#"[{"fields": {}}]"#, ModelError::MissingSectionCode),
        (r#"[{"fields": {"code": 1}}]"#, ModelError::InvalidSectionCode),
        (r#"[{"fields": {"code": "s"}}]"#, ModelError::MissingSectionCdes),
        (r#"[{"fields": {"code": "s", "elements": 1}}]"#, ModelError::InvalidSectionCdes),
    ];
    for (sections, error) in section_cases {
        assert_eq!(definition_of("[]", sections).unwrap_err(), error);
    }
    assert_eq!(definition_of("[1]", "[1]").unwrap_err(), ModelError::InvalidData);
    assert_eq!(
        definition_of(r#"[{"fields": {"name": "f", "sections": ""}}, {}]"#, "[]").unwrap_err(),
        ModelError::MissingFields
    );
}

#[test]
fn a_record_that_fits_its_definition_has_no_findings() {
    let definition = definition_of(
        r#"[{"fields": {"name": "first", "sections": "s1, s2 ,s1"}}]"#,
        SECTIONS,
    )
    .unwrap();
    let record = record_of(
        r#"[
        {"name": "first", "sections": [
            {"code": "s1", "allow_multiple": false, "cdes": [{"code": "b", "value": 1}, {"code": "a", "value": 1}]},
            {"code": "s2", "allow_multiple": true, "cdes": [[{"code": "c", "value": 1}], [{"code": "c", "value": 2}]]}
        ]}
    ]"#,
    );
    assert!(record.validate(&definition).is_empty());
    let nothing = definition_of("[]", "[]").unwrap();
    assert!(record_of("[]").validate(&nothing).is_empty());
}

#[test]
fn a_defined_form_that_a_record_lacks_is_found() {
    let definition = definition_of(FORMS, SECTIONS).unwrap();
    let record = record_of(
        r#"[
        {"name": "first", "sections": [
            {"code": "s1", "allow_multiple": false, "cdes": [{"code": "b", "value": 1}, {"code": "a", "value": 1}]},
            {"code": "s2", "allow_multiple": true, "cdes": [[{"code": "c", "value": 1}], [{"code": "c", "value": 2}]]}
        ]},
        {"name": "absent", "sections": [{"code": "", "allow_multiple": false, "cdes": []}]}
    ]"#,
    );
    assert_eq!(
        record.validate(&definition),
        vec![
            "Section definition  doesn't exist",
            "Clinical datum is missing form: second",
        ]
    );
}

#[test]
fn findings_name_what_one_side_has_and_the_other_lacks() {
    let definition = definition_of(FORMS, SECTIONS).unwrap();
    let record = record_of(
        r#"[
        {"name": "extra", "sections": []},
        {"name": "first", "sections": [
            {"code": "s9", "allow_multiple": false, "cdes": []},
            {"code": "s2", "allow_multiple": true, "cdes": [[{"code": "x", "value": 1}], [{"code": "c", "value": 1}, {"code": "y", "value": 1}]]},
            {"code": "s1", "allow_multiple": false, "cdes": [{"code": "z", "value": 1}, {"code": "a", "value": 1}]}
        ]},
        {"name": "second", "sections": [{"code": "s3", "allow_multiple": false, "cdes": []}]}
    ]"#,
    );
    assert_eq!(
        record.validate(&definition),
        vec![
            "Clinical datum contains extra form: extra",
            "Clinical datum's form first contains extra section: s9",
            "Clinical datum's form first section s2 contains extra cde: x",
            "Clinical datum's form first section s2 is missing cde: c",
            "Clinical datum's form first section s2 contains extra cde: y",
            "Clinical datum's form first section s1 contains extra cde: z",
            "Clinical datum's form first section s1 is missing cde: b",
            "Section definition s3 doesn't exist",
            "Clinical datum is missing form: absent",
        ]
    );
    let bare = record_of(r#"[{"name": "first", "sections": []}]"#);
    assert_eq!(
        bare.validate(&definition),
        vec![
            "Clinical datum's form first is missing section: s1",
            "Clinical datum's form first is missing section: s2",
            "Clinical datum is missing form: second",
            "Clinical datum is missing form: absent",
        ]
    );
}

#[test]
fn records_are_validated_and_only_current_data_is_kept_on_demand() {
    let definition = definition_of(r#"[{"fields": {"name": "f", "sections": ""}}]"#, "[]").unwrap();
    let rows = values_of(
        r#"[
        {"pk": 1, "fields": {"django_id": 1, "collection": "cdes", "data": {"forms": []}}},
        {"pk": 2, "fields": {"django_id": 1, "collection": "history", "data": {"record": {"forms": [{"name": "g", "sections": []}]}}}},
        {"pk": 3, "fields": {"django_id": 1, "collection": "other", "data": 1}},
        {"pk": 4, "fields": {"django_id": 2, "collection": "cdes", "data": {"forms": [{"name": "f", "sections": []}]}}},
        {"pk": 5, "fields": {"django_id": 2, "collection": "history", "data": {"record": {"forms": []}}}}
    ]"#,
    );
    let expected = vec![
        "Clinical datum is missing form: f",
        "Clinical datum contains extra form: g",
        "Clinical datum is missing form: f",
        "Clinical datum's form f is missing section: ",
        "Clinical datum is missing form: f",
    ];
    let (all, found) = RegistryData::map_values_to_clinical_data(&rows, &definition, false).unwrap();
    assert_eq!(all.iter().map(|d| d.id).collect::<Vec<u32>>(), vec![1, 2, 4, 5]);
    assert_eq!(found, expected);
    let (current, found) =
        RegistryData::map_values_to_clinical_data(&rows, &definition, true).unwrap();
    assert_eq!(current.iter().map(|d| d.id).collect::<Vec<u32>>(), vec![1, 4]);
    assert_eq!(found, expected);
    let broken = values_of(r#"[{"pk": 1, "fields": {"data": {}}}, 3]"#);
    assert_eq!(
        RegistryData::map_values_to_clinical_data(&broken, &definition, true).unwrap_err(),
        ModelError::MissingPatient
    );
}
