use diffmig::lockstep::{Lockstep, Step};
use diffmig::streaming::RegistryData;
use diffmig::streaming::{
    join_lines, map_values_to_clinical_data, read_array_file_to_values, ArrayReader,
};

fn lines_of(text: &str) -> Vec<String> {
    text.lines().map(|l| l.to_string()).collect()
}

const EXPORT: &str = r#"[
    {
        "pk": 1,
        "fields": {
            "django_id": 7,
            "collection": "cdes",
            "data": {
                "forms": [
                    {
                        "name": "f",
                        "sections": [
                            {
                                "code": "s",
                                "allow_multiple": false,
                                "cdes": [
                                    {
                                        "code": "c",
                                        "value": 1.5
                                    }
                                ]
                            }
                        ]
                    }
                ]
            }
        }
    },
    {
        "pk": 2,
        "fields": {
            "django_id": 7,
            "collection": "progress",
            "data": {}
        }
    }
]"#;

#[test]
fn lines_are_joined_with_line_feeds() {
    assert_eq!(join_lines(&vec![]), "");
    assert_eq!(join_lines(&lines_of("a")), "a");
    assert_eq!(join_lines(&lines_of("a\n  b\nc")), "a\n  b\nc");
    assert_eq!(join_lines(&vec![String::new(), String::new()]), "\n");
}

#[test]
fn export_is_read_element_by_element() {
    let values = read_array_file_to_values(&lines_of(EXPORT)).unwrap();
    assert_eq!(values.len(), 2);
    assert_eq!(values[0]["pk"], 1);
    assert_eq!(values[1]["pk"], 2);
    assert_eq!(values[0]["fields"]["data"]["forms"][0]["name"], "f");
    assert_eq!(values[1]["fields"]["collection"], "progress");
    let whole: serde_json::Value = serde_json::from_str(EXPORT).unwrap();
    assert_eq!(serde_json::Value::Array(values), whole);
}

#[test]
fn both_readers_hand_out_the_same_elements() {
    let one = read_array_file_to_values(&lines_of(EXPORT)).unwrap();
    let other = diffmig::streaming_serde::read_array_to_iter(&lines_of(EXPORT)).unwrap();
    assert_eq!(other.len(), 2);
    assert_eq!(one, other);
    let broken = lines_of("[\n    {\n        \"pk\": 1,\n    }\n]");
    let refused = diffmig::streaming_serde::read_array_to_iter(&broken).unwrap_err();
    assert_eq!(refused.text, "    {\n        \"pk\": 1,\n}");
}

#[test]
fn reader_hands_out_an_element_at_its_last_line() {
    let mut reader = ArrayReader::new();
    assert!(reader.push_line("[").unwrap().is_none());
    assert!(reader.partial.is_empty());
    assert!(reader.push_line("    {").unwrap().is_none());
    assert!(reader.push_line("        \"a\": [").unwrap().is_none());
    assert!(reader.push_line("            1").unwrap().is_none());
    assert!(reader.push_line("        ]").unwrap().is_none());
    assert_eq!(reader.partial.len(), 4);
    let value = reader.push_line("    },").unwrap().unwrap();
    assert_eq!(value["a"][0], 1);
    assert!(reader.partial.is_empty());
    assert!(reader.push_line("    {").unwrap().is_none());
    assert!(reader.push_line("    }").unwrap().unwrap().as_object().unwrap().is_empty());
    assert!(!reader.finished);
    assert!(reader.push_line("]").unwrap().is_none());
    assert!(reader.finished);
}

#[test]
fn reader_stops_at_the_end_of_the_array() {
    let mut reader = ArrayReader::new();
    reader.push_line("[").unwrap();
    reader.push_line("    {").unwrap();
    reader.push_line("]").unwrap();
    assert!(reader.finished);
    assert!(reader.partial.is_empty());
    assert!(reader.push_line("    {").unwrap().is_none());
    assert!(reader.push_line("    }").unwrap().is_none());
    assert!(reader.push_line("not json").unwrap().is_none());
    assert!(reader.partial.is_empty());
    let lines = lines_of("[\n    {\n    }\n]\n    {\n    }\n");
    assert_eq!(read_array_file_to_values(&lines).unwrap().len(), 1);
}

#[test]
fn reader_knows_its_marks_by_the_whole_line() {
    let mut reader = ArrayReader::new();
    reader.push_line("    {").unwrap();
    reader.push_line("        \"a\": {").unwrap();
    reader.push_line("        },").unwrap();
    reader.push_line("        \"b\": [").unwrap();
    reader.push_line(" ]").unwrap();
    reader.push_line("        ,\"c\": {").unwrap();
    reader.push_line("     }").unwrap();
    assert_eq!(reader.partial.len(), 7);
    let value = reader.push_line("    }").unwrap().unwrap();
    assert_eq!(value.as_object().unwrap().len(), 3);
}

#[test]
fn element_that_is_no_json_is_an_error() {
    let mut reader = ArrayReader::new();
    reader.push_line("[").unwrap();
    reader.push_line("    {").unwrap();
    reader.push_line("        \"a\": ").unwrap();
    let error = reader.push_line("    }").unwrap_err();
    assert_eq!(error.text, "    {\n        \"a\": \n}");
    assert!(reader.partial.is_empty());
    let lines = lines_of("[\n    {\n    },\n    {\n        oops\n    },\n    {\n    }\n]");
    let error = read_array_file_to_values(&lines).unwrap_err();
    assert_eq!(error.text, "    {\n        oops\n}");
    let error = read_array_file_to_values(&lines_of("    }")).unwrap_err();
    assert_eq!(error.text, "}");
}

#[test]
fn reader_holds_the_lines_of_one_element_only() {
    let mut reader = ArrayReader::new();
    reader.push_line("[").unwrap();
    let mut peak = 0;
    let mut elements = 0;
    for n in 0..2000 {
        for line in ["    {", "        \"pk\": 1,", "        \"fields\": {", "        }"] {
            assert!(reader.push_line(line).unwrap().is_none());
            peak = peak.max(reader.partial.len());
        }
        let last = if n % 2 == 0 { "    }," } else { "    }" };
        assert!(reader.push_line(last).unwrap().is_some());
        assert_eq!(reader.partial.len(), 0);
        elements += 1;
    }
    assert_eq!(elements, 2000);
    assert_eq!(peak, 4);
}

#[test]
fn rows_become_records_and_other_collections_are_left_out() {
    let values = read_array_file_to_values(&lines_of(EXPORT)).unwrap();
    let records = map_values_to_clinical_data(&values).unwrap();
    assert_eq!(records.len(), 1);
    assert_eq!(records[0].id, 1);
    assert_eq!(records[0].patient, 7);
    let broken = EXPORT.replace("\"django_id\": 7,\n            \"collection\": \"progress\"", "\"collection\": \"progress\"");
    let values = read_array_file_to_values(&lines_of(&broken)).unwrap();
    assert_eq!(
        map_values_to_clinical_data(&values).unwrap_err(),
        diffmig::error::ModelError::MissingPatient
    );
}

fn slices_of(text: &str) -> Vec<diffmig::clinical_data::PatientSlice> {
    let values = read_array_file_to_values(&lines_of(text)).unwrap();
    let mut data = RegistryData::from(map_values_to_clinical_data(&values).unwrap());
    let mut slices = vec![];
    while let Some(slice) = data.next() {
        slices.push(slice);
    }
    slices
}

#[test]
fn two_identical_exports_have_no_differences() {
    let old = slices_of(EXPORT);
    let new = slices_of(EXPORT);
    assert_eq!(old.len(), 1);
    let mut state = Lockstep::new();
    let mut at = 0;
    loop {
        match state.compare(old.get(at), new.get(at)).unwrap() {
            Step::Finished => break,
            Step::Identical => {}
            Step::Different { differences, .. } => panic!("{:?}", differences),
        }
        at += 1;
    }
    assert_eq!(at, 1);
    assert_eq!(state.total, 0);
}

#[test]
fn two_exports_that_differ_in_one_value_have_one_difference() {
    let old = slices_of(EXPORT);
    let new = slices_of(&EXPORT.replace("\"value\": 1.5", "\"value\": 1.52"));
    let near = slices_of(&EXPORT.replace("\"value\": 1.5", "\"value\": 1.505"));
    let mut state = Lockstep::new();
    assert!(matches!(state.compare(old.get(0), near.get(0)), Ok(Step::Identical)));
    assert_eq!(state.total, 0);
    match state.compare(old.get(0), new.get(0)).unwrap() {
        Step::Different { differences, ask } => {
            assert!(ask);
            assert_eq!(differences.len(), 1);
            assert_eq!(differences[0].ids, "1");
            assert_eq!(differences[0].patient, 7);
        }
        other => panic!("{:?}", other),
    }
    assert_eq!(state.total, 1);
}

#[test]
fn an_export_is_loaded_from_its_lines() {
    let mut registry = diffmig::migrated_registry::MigratedRegistry::from(&lines_of(EXPORT)).unwrap();
    let slice = registry.next().unwrap();
    assert_eq!(slice.patient, 7);
    assert_eq!(slice.clinical_data.len(), 1);
    assert!(registry.next().is_none());
    let broken = EXPORT.replace("\"pk\": 1,", "\"pk\": 1");
    assert!(matches!(
        diffmig::migrated_registry::MigratedRegistry::from(&lines_of(&broken)),
        Err(diffmig::streaming::LoadError::Malformed(_))
    ));
    let invalid = EXPORT.replace("\"pk\": 1,", "\"pk\": null,");
    assert!(matches!(
        diffmig::migrated_registry::MigratedRegistry::from(&lines_of(&invalid)),
        Err(diffmig::streaming::LoadError::Invalid(diffmig::error::ModelError::InvalidPk))
    ));
}

#[test]
fn an_export_is_loaded_and_held_against_its_definition() {
    let forms: serde_json::Value =
        serde_json::from_str(r#"[{"fields": {"name": "f", "sections": "s, t"}}]"#).unwrap();
    let sections: serde_json::Value =
        serde_json::from_str(r#"[{"fields": {"code": "s", "elements": "c,d"}}]"#).unwrap();
    let definition = diffmig::registry_definition::RegistryDefinition::new(
        forms.as_array().unwrap(),
        sections.as_array().unwrap(),
    )
    .unwrap();
    let mut loaded =
        diffmig::registry_data::RegistryData::from(&lines_of(EXPORT), &definition, true).unwrap();
    assert_eq!(
        loaded.findings,
        vec![
            "Clinical datum's form f section s is missing cde: d",
            "Clinical datum's form f is missing section: t",
        ]
    );
    assert_eq!(loaded.next().unwrap().clinical_data[0].id, 1);
    assert!(loaded.next().is_none());
    let history = EXPORT.replace("\"collection\": \"cdes\"", "\"collection\": \"history\"");
    let history = history.replace("\"forms\": [", "\"record\": {\"forms\": [");
    let history = history.replace("                ]\n            }", "                ]}\n            }");
    let mut all =
        diffmig::registry_data::RegistryData::from(&lines_of(&history), &definition, false).unwrap();
    assert_eq!(all.findings.len(), 2);
    assert!(all.next().is_some());
    let mut none =
        diffmig::registry_data::RegistryData::from(&lines_of(&history), &definition, true).unwrap();
    assert_eq!(none.findings.len(), 2);
    assert!(none.next().is_none());
}
