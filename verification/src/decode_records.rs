//! Decoding sections, forms and records from JSON.

use crate::clinical_data::{
    distinct_keys,
    form_name,
    section_code,
    CDEModel,
    CDESVariant,
    CDESVariantModel,
    ClinicalDatum,
    ClinicalDatumModel,
    ClinicalDatumVariant,
    Form,
    FormModel,
    Section,
    SectionModel,
    CDE,
};
use crate::compare_records::{find_form, find_section};
use crate::decode_values::{
    cde_entries,
    collect,
    lemma_cde_entries_wf,
    lemma_collect_all,
    lemma_collect_rest,
    lemma_collect_step,
    lemma_distinct_push,
};
use crate::error::ModelError;
use crate::json::{value_model, Json, JsonModel};
use crate::texts::same_text;
use vstd::prelude::*;

verus! {

/// The mapping that one repeated instance of a section decodes to.
pub open spec fn instance_entries(v: JsonModel) -> Result<Seq<CDEModel>, ModelError> {
    match v.as_array() {
        None => Err(ModelError::InvalidSectionCdesList),
        Some(items) => cde_entries(items),
    }
}

/// The elements of a section: one mapping where the section does not allow
/// repeated instances, else one mapping for each item of the list.
pub open spec fn section_cdes(items: Seq<JsonModel>, allow_multiple: bool) -> Result<
    CDESVariantModel,
    ModelError,
> {
    if !allow_multiple {
        match cde_entries(items) {
            Err(e) => Err(e),
            Ok(cdes) => Ok(CDESVariantModel::Single(cdes)),
        }
    } else {
        match collect(items, |x: JsonModel| instance_entries(x)) {
            Err(e) => Err(e),
            Ok(instances) => Ok(CDESVariantModel::Multiple(instances)),
        }
    }
}

/// The section that a JSON value decodes to.
pub open spec fn section_entry(v: JsonModel) -> Result<SectionModel, ModelError> {
    if v.as_object() is None {
        Err(ModelError::InvalidSection)
    } else if v.get("code"@) is None {
        Err(ModelError::MissingSectionCode)
    } else if v.get("code"@)->0.as_text() is None {
        Err(ModelError::InvalidSectionCode)
    } else if v.get("allow_multiple"@) is None {
        Err(ModelError::MissingSectionAllowMultiple)
    } else if v.get("allow_multiple"@)->0.as_bool() is None {
        Err(ModelError::InvalidSectionAllowMultiple)
    } else if v.get("cdes"@) is None {
        Err(ModelError::MissingSectionCdes)
    } else if v.get("cdes"@)->0.as_array() is None {
        Err(ModelError::InvalidSectionCdes)
    } else {
        let allow_multiple = v.get("allow_multiple"@)->0.as_bool()->0;
        match section_cdes(v.get("cdes"@)->0.as_array()->0, allow_multiple) {
            Err(e) => Err(e),
            Ok(cdes) => Ok(
                SectionModel { code: v.get("code"@)->0.as_text()->0, allow_multiple, cdes },
            ),
        }
    }
}

/// The mapping that a list of sections decodes to: the first error of a
/// section, else an error where two sections share a code, else the sections
/// in their order.
pub open spec fn section_entries(items: Seq<JsonModel>) -> Result<Seq<SectionModel>, ModelError> {
    match collect(items, |v: JsonModel| section_entry(v)) {
        Err(e) => Err(e),
        Ok(sections) => if distinct_keys(sections, section_code()) {
            Ok(sections)
        } else {
            Err(ModelError::DuplicateSections)
        },
    }
}

/// The form that a JSON value decodes to.
pub open spec fn form_entry(v: JsonModel) -> Result<FormModel, ModelError> {
    if v.as_object() is None {
        Err(ModelError::InvalidForm)
    } else if v.get("name"@) is None {
        Err(ModelError::MissingFormName)
    } else if v.get("name"@)->0.as_text() is None {
        Err(ModelError::InvalidFormName)
    } else if v.get("sections"@) is None {
        Err(ModelError::MissingFormSections)
    } else if v.get("sections"@)->0.as_array() is None {
        Err(ModelError::InvalidFormSections)
    } else {
        match section_entries(v.get("sections"@)->0.as_array()->0) {
            Err(e) => Err(e),
            Ok(sections) => Ok(FormModel { name: v.get("name"@)->0.as_text()->0, sections }),
        }
    }
}

/// The mapping that a list of forms decodes to: the first error of a form,
/// else an error where two forms share a name, else the forms in their
/// order.
pub open spec fn form_entries(items: Seq<JsonModel>) -> Result<Seq<FormModel>, ModelError> {
    match collect(items, |v: JsonModel| form_entry(v)) {
        Err(e) => Err(e),
        Ok(forms) => if distinct_keys(forms, form_name()) {
            Ok(forms)
        } else {
            Err(ModelError::DuplicateForms)
        },
    }
}

/// The kind of record that a collection tag names, if any.
pub open spec fn variant_of(collection: Seq<char>) -> Option<ClinicalDatumVariant> {
    if collection == "cdes"@ {
        Some(ClinicalDatumVariant::CDEs)
    } else if collection == "history"@ {
        Some(ClinicalDatumVariant::History)
    } else {
        None
    }
}

/// Where the forms of a record of the given kind stand in its data: under
/// `forms`, or for a history under `record` and then `forms`.
pub open spec fn forms_of(data: JsonModel, variant: ClinicalDatumVariant) -> Result<
    Option<JsonModel>,
    ModelError,
> {
    match variant {
        ClinicalDatumVariant::CDEs => Ok(data.get("forms"@)),
        ClinicalDatumVariant::History => match data.get("record"@) {
            None => Err(ModelError::MissingRecord),
            Some(record) => Ok(record.get("forms"@)),
        },
    }
}

/// The record that a row of an export decodes to: `Ok(None)` for a row of a
/// collection that is not modelled, an error for a row that lacks a field or
/// has one of the wrong type or repeats a key, else the record.
pub open spec fn datum_of(v: JsonModel) -> Result<Option<ClinicalDatumModel>, ModelError> {
    if v.as_object() is None {
        Err(ModelError::NotAnObject)
    } else if v.get("fields"@) is None {
        Err(ModelError::MissingFields)
    } else {
        let fields = v.get("fields"@)->0;
        if fields.get("data"@) is None {
            Err(ModelError::MissingData)
        } else if v.get("pk"@) is None {
            Err(ModelError::MissingPk)
        } else if v.get("pk"@)->0.as_i64() is None {
            Err(ModelError::InvalidPk)
        } else if fields.get("django_id"@) is None {
            Err(ModelError::MissingPatient)
        } else if fields.get("django_id"@)->0.as_i64() is None {
            Err(ModelError::InvalidPatient)
        } else if fields.get("collection"@) is None {
            Err(ModelError::MissingCollection)
        } else if fields.get("collection"@)->0.as_text() is None {
            Err(ModelError::InvalidCollection)
        } else {
            match variant_of(fields.get("collection"@)->0.as_text()->0) {
                None => Ok(None),
                Some(variant) => match forms_of(fields.get("data"@)->0, variant) {
                    Err(e) => Err(e),
                    Ok(None) => Err(ModelError::MissingForms),
                    Ok(Some(forms)) => match forms.as_array() {
                        None => Err(ModelError::InvalidForms),
                        Some(items) => match form_entries(items) {
                            Err(e) => Err(e),
                            Ok(forms) => Ok(
                                Some(
                                    ClinicalDatumModel {
                                        id: v.get("pk"@)->0.as_i64()->0 as u32,
                                        patient: fields.get("django_id"@)->0.as_i64()->0 as u32,
                                        variant,
                                        forms,
                                    },
                                ),
                            ),
                        },
                    },
                },
            }
        }
    }
}

impl ClinicalDatum {
    /// Decodes the repeated instances of a section.
    fn get_instances(lists: &Vec<Json>) -> (r: Result<Vec<Vec<CDE>>, ModelError>)
        ensures
            match r {
                Ok(instances) => collect(lists.deep_view(), |x: JsonModel| instance_entries(x))
                    == Ok::<Seq<Seq<CDEModel>>, ModelError>(instances.deep_view()),
                Err(e) => collect(lists.deep_view(), |x: JsonModel| instance_entries(x)) == Err::<
                    Seq<Seq<CDEModel>>,
                    ModelError,
                >(e),
            },
    {
        let ghost items = lists.deep_view();
        let ghost decode = |x: JsonModel| instance_entries(x);
        let mut instances: Vec<Vec<CDE>> = Vec::new();
        let mut i: usize = 0;
        assert(items.take(0) =~= Seq::<JsonModel>::empty());
        assert(instances.deep_view() =~= Seq::<Seq<CDEModel>>::empty());
        while i < lists.len()
            invariant
                i <= lists.len(),
                items == lists.deep_view(),
                decode == (|x: JsonModel| instance_entries(x)),
                collect(items.take(i as int), decode) == Ok::<Seq<Seq<CDEModel>>, ModelError>(
                    instances.deep_view(),
                ),
            decreases lists.len() - i,
        {
            proof {
                lemma_collect_step(items, decode, i as int);
            }
            let ghost before = instances.deep_view();
            let decoded = match lists[i].as_array() {
                None => Err(ModelError::InvalidSectionCdesList),
                Some(list) => Self::get_cdes(list),
            };
            match decoded {
                Err(e) => {
                    proof {
                        lemma_collect_rest(items, decode, i as int + 1);
                    }
                    return Err(e);
                },
                Ok(cdes) => {
                    let ghost added = cdes.deep_view();
                    instances.push(cdes);
                    assert(instances.deep_view() =~= before.push(added));
                },
            }
            i += 1;
        }
        assert(items.take(lists.len() as int) =~= items);
        Ok(instances)
    }

    /// Decodes one section.
    pub fn get_section(data: &Json) -> (r: Result<Section, ModelError>)
        ensures
            match r {
                Ok(section) => section_entry(data@) == Ok::<SectionModel, ModelError>(section@),
                Err(e) => section_entry(data@) == Err::<SectionModel, ModelError>(e),
            },
    {
        if data.as_object().is_none() {
            return Err(ModelError::InvalidSection);
        }
        let code = match data.get("code") {
            None => {
                return Err(ModelError::MissingSectionCode);
            },
            Some(code) => match code {
                Json::Text(s) => s.clone(),
                _ => {
                    return Err(ModelError::InvalidSectionCode);
                },
            },
        };
        let allow_multiple = match data.get("allow_multiple") {
            None => {
                return Err(ModelError::MissingSectionAllowMultiple);
            },
            Some(flag) => match flag.as_bool() {
                None => {
                    return Err(ModelError::InvalidSectionAllowMultiple);
                },
                Some(b) => b,
            },
        };
        let cdes = match data.get("cdes") {
            None => {
                return Err(ModelError::MissingSectionCdes);
            },
            Some(cdes) => match cdes.as_array() {
                None => {
                    return Err(ModelError::InvalidSectionCdes);
                },
                Some(items) => items,
            },
        };
        let cdes = if !allow_multiple {
            match Self::get_cdes(cdes) {
                Err(e) => {
                    return Err(e);
                },
                Ok(map) => CDESVariant::Single(map),
            }
        } else {
            match Self::get_instances(cdes) {
                Err(e) => {
                    return Err(e);
                },
                Ok(instances) => CDESVariant::Multiple(instances),
            }
        };
        Ok(Section { code, allow_multiple, cdes })
    }

    /// Decodes a list of sections into a mapping.
    pub fn get_sections(sections: &Vec<Json>) -> (r: Result<Vec<Section>, ModelError>)
        ensures
            match r {
                Ok(map) => section_entries(sections.deep_view()) == Ok::<
                    Seq<SectionModel>,
                    ModelError,
                >(map.deep_view()),
                Err(e) => section_entries(sections.deep_view()) == Err::<
                    Seq<SectionModel>,
                    ModelError,
                >(e),
            },
    {
        let ghost items = sections.deep_view();
        let ghost decode = |v: JsonModel| section_entry(v);
        let mut map: Vec<Section> = Vec::new();
        let mut repeated = false;
        let mut i: usize = 0;
        assert(items.take(0) =~= Seq::<JsonModel>::empty());
        assert(map.deep_view() =~= Seq::<SectionModel>::empty());
        while i < sections.len()
            invariant
                i <= sections.len(),
                items == sections.deep_view(),
                decode == (|v: JsonModel| section_entry(v)),
                collect(items.take(i as int), decode) == Ok::<Seq<SectionModel>, ModelError>(
                    map.deep_view(),
                ),
                repeated == !distinct_keys(map.deep_view(), section_code()),
            decreases sections.len() - i,
        {
            proof {
                lemma_collect_step(items, decode, i as int);
            }
            match Self::get_section(&sections[i]) {
                Err(e) => {
                    proof {
                        lemma_collect_rest(items, decode, i as int + 1);
                    }
                    return Err(e);
                },
                Ok(section) => {
                    let ghost before = map.deep_view();
                    proof {
                        lemma_distinct_push(before, section_code(), section@);
                    }
                    if find_section(&map, &section.code).is_some() {
                        repeated = true;
                    }
                    map.push(section);
                    assert(map.deep_view() =~= before.push(section@));
                },
            }
            i += 1;
        }
        assert(items.take(sections.len() as int) =~= items);
        if repeated {
            Err(ModelError::DuplicateSections)
        } else {
            Ok(map)
        }
    }

    /// Decodes one form.
    pub fn get_form(data: &Json) -> (r: Result<Form, ModelError>)
        ensures
            match r {
                Ok(form) => form_entry(data@) == Ok::<FormModel, ModelError>(form@),
                Err(e) => form_entry(data@) == Err::<FormModel, ModelError>(e),
            },
    {
        if data.as_object().is_none() {
            return Err(ModelError::InvalidForm);
        }
        let name = match data.get("name") {
            None => {
                return Err(ModelError::MissingFormName);
            },
            Some(name) => match name {
                Json::Text(s) => s.clone(),
                _ => {
                    return Err(ModelError::InvalidFormName);
                },
            },
        };
        let sections = match data.get("sections") {
            None => {
                return Err(ModelError::MissingFormSections);
            },
            Some(sections) => match sections.as_array() {
                None => {
                    return Err(ModelError::InvalidFormSections);
                },
                Some(items) => items,
            },
        };
        match Self::get_sections(sections) {
            Err(e) => Err(e),
            Ok(sections) => Ok(Form { name, sections }),
        }
    }

    /// Decodes a list of forms into a mapping.
    pub fn get_forms(forms: &Vec<Json>) -> (r: Result<Vec<Form>, ModelError>)
        ensures
            match r {
                Ok(map) => form_entries(forms.deep_view()) == Ok::<Seq<FormModel>, ModelError>(
                    map.deep_view(),
                ),
                Err(e) => form_entries(forms.deep_view()) == Err::<Seq<FormModel>, ModelError>(e),
            },
    {
        let ghost items = forms.deep_view();
        let ghost decode = |v: JsonModel| form_entry(v);
        let mut map: Vec<Form> = Vec::new();
        let mut repeated = false;
        let mut i: usize = 0;
        assert(items.take(0) =~= Seq::<JsonModel>::empty());
        assert(map.deep_view() =~= Seq::<FormModel>::empty());
        while i < forms.len()
            invariant
                i <= forms.len(),
                items == forms.deep_view(),
                decode == (|v: JsonModel| form_entry(v)),
                collect(items.take(i as int), decode) == Ok::<Seq<FormModel>, ModelError>(
                    map.deep_view(),
                ),
                repeated == !distinct_keys(map.deep_view(), form_name()),
            decreases forms.len() - i,
        {
            proof {
                lemma_collect_step(items, decode, i as int);
            }
            match Self::get_form(&forms[i]) {
                Err(e) => {
                    proof {
                        lemma_collect_rest(items, decode, i as int + 1);
                    }
                    return Err(e);
                },
                Ok(form) => {
                    let ghost before = map.deep_view();
                    proof {
                        lemma_distinct_push(before, form_name(), form@);
                    }
                    if find_form(&map, &form.name).is_some() {
                        repeated = true;
                    }
                    map.push(form);
                    assert(map.deep_view() =~= before.push(form@));
                },
            }
            i += 1;
        }
        assert(items.take(forms.len() as int) =~= items);
        if repeated {
            Err(ModelError::DuplicateForms)
        } else {
            Ok(map)
        }
    }

    /// Builds a record from one row of an export.
    pub fn from_json(datum: &Json) -> (r: Result<Option<ClinicalDatum>, ModelError>)
        ensures
            match r {
                Ok(Some(d)) => datum_of(datum@) == Ok::<Option<ClinicalDatumModel>, ModelError>(
                    Some(d@),
                ) && d@.wf(),
                Ok(None) => datum_of(datum@) == Ok::<Option<ClinicalDatumModel>, ModelError>(None),
                Err(e) => datum_of(datum@) == Err::<Option<ClinicalDatumModel>, ModelError>(e),
            },
    {
        if datum.as_object().is_none() {
            return Err(ModelError::NotAnObject);
        }
        let fields = match datum.get("fields") {
            None => {
                return Err(ModelError::MissingFields);
            },
            Some(fields) => fields,
        };
        let data = match fields.get("data") {
            None => {
                return Err(ModelError::MissingData);
            },
            Some(data) => data,
        };
        let id = match datum.get("pk") {
            None => {
                return Err(ModelError::MissingPk);
            },
            Some(pk) => match pk.as_i64() {
                None => {
                    return Err(ModelError::InvalidPk);
                },
                Some(n) => #[verifier::truncate]
                (n as u32),
            },
        };
        let patient = match fields.get("django_id") {
            None => {
                return Err(ModelError::MissingPatient);
            },
            Some(django_id) => match django_id.as_i64() {
                None => {
                    return Err(ModelError::InvalidPatient);
                },
                Some(n) => #[verifier::truncate]
                (n as u32),
            },
        };
        let collection = match fields.get("collection") {
            None => {
                return Err(ModelError::MissingCollection);
            },
            Some(collection) => match collection.as_str() {
                None => {
                    return Err(ModelError::InvalidCollection);
                },
                Some(s) => s,
            },
        };
        let variant = if same_text(collection, "cdes") {
            ClinicalDatumVariant::CDEs
        } else if same_text(collection, "history") {
            ClinicalDatumVariant::History
        } else {
            return Ok(None);
        };
        let forms = match variant {
            ClinicalDatumVariant::CDEs => data.get("forms"),
            ClinicalDatumVariant::History => match data.get("record") {
                None => {
                    return Err(ModelError::MissingRecord);
                },
                Some(record) => record.get("forms"),
            },
        };
        let forms = match forms {
            None => {
                return Err(ModelError::MissingForms);
            },
            Some(forms) => match forms.as_array() {
                None => {
                    return Err(ModelError::InvalidForms);
                },
                Some(items) => items,
            },
        };
        match Self::get_forms(forms) {
            Err(e) => Err(e),
            Ok(forms) => {
                let d = ClinicalDatum { id, patient, variant, forms };
                proof {
                    lemma_datum_wf(datum@);
                }
                Ok(Some(d))
            },
        }
    }

    /// Builds a record from one row of an export, as `serde_json` parsed it.
    pub fn from(datum: &serde_json::Value) -> (r: Result<Option<ClinicalDatum>, ModelError>)
        ensures
            match r {
                Ok(Some(d)) => datum_of(value_model(*datum)) == Ok::<
                    Option<ClinicalDatumModel>,
                    ModelError,
                >(Some(d@)) && d@.wf(),
                Ok(None) => datum_of(value_model(*datum)) == Ok::<
                    Option<ClinicalDatumModel>,
                    ModelError,
                >(None),
                Err(e) => datum_of(value_model(*datum)) == Err::<
                    Option<ClinicalDatumModel>,
                    ModelError,
                >(e),
            },
    {
        let json = Json::from_value(datum);
        Self::from_json(&json)
    }
}

/// A decoded section is well-formed.
pub proof fn lemma_section_entry_wf(v: JsonModel)
    ensures
        section_entry(v) matches Ok(section) ==> section.wf(),
{
    if section_entry(v) is Ok {
        let items = v.get("cdes"@)->0.as_array()->0;
        let allow_multiple = v.get("allow_multiple"@)->0.as_bool()->0;
        if !allow_multiple {
            lemma_cde_entries_wf(items);
        } else {
            let decode = |x: JsonModel| instance_entries(x);
            let holds = |c: Seq<CDEModel>| crate::clinical_data::cde_map_wf(c);
            assert forall|x: JsonModel| (#[trigger] decode(x)) matches Ok(c) ==> holds(c) by {
                if x.as_array() is Some {
                    lemma_cde_entries_wf(x.as_array()->0);
                }
            }
            lemma_collect_all(items, decode, holds);
        }
    }
}

/// A decoded form is well-formed.
pub proof fn lemma_form_entry_wf(v: JsonModel)
    ensures
        form_entry(v) matches Ok(form) ==> form.wf(),
{
    if form_entry(v) is Ok {
        let items = v.get("sections"@)->0.as_array()->0;
        let decode = |x: JsonModel| section_entry(x);
        let holds = |s: SectionModel| s.wf();
        assert forall|x: JsonModel| (#[trigger] decode(x)) matches Ok(s) ==> holds(s) by {
            lemma_section_entry_wf(x);
        }
        lemma_collect_all(items, decode, holds);
    }
}

/// A decoded record is well-formed.
pub proof fn lemma_datum_wf(v: JsonModel)
    ensures
        datum_of(v) matches Ok(Some(datum)) ==> datum.wf(),
{
    if datum_of(v) matches Ok(Some(datum)) {
        let fields = v.get("fields"@)->0;
        let variant = variant_of(fields.get("collection"@)->0.as_text()->0)->0;
        let items = forms_of(fields.get("data"@)->0, variant)->Ok_0->0.as_array()->0;
        let decode = |x: JsonModel| form_entry(x);
        let holds = |f: FormModel| f.wf();
        assert forall|x: JsonModel| (#[trigger] decode(x)) matches Ok(f) ==> holds(f) by {
            lemma_form_entry_wf(x);
        }
        lemma_collect_all(items, decode, holds);
    }
}

} // verus!
