//! The definition of a registry: which sections each form requires and
//! which elements each section requires.

use crate::diff::{lemma_upsert_at, lemma_upsert_new, upsert};
use crate::error::ModelError;
use crate::json::{values_model, Json, JsonModel};
use crate::split::{comma_list, split_commas};
use crate::texts::contains_text;
use vstd::prelude::*;

verus! {

/// A form of the registry and the codes of its sections, each once.
#[derive(Debug)]
pub struct FormDefinition {
    pub name: String,
    pub sections: Vec<String>,
}

/// A section of the registry and the codes of its elements, as listed.
#[derive(Debug)]
pub struct SectionDefinition {
    pub code: String,
    pub cdes: Vec<String>,
}

/// The forms and sections of a registry, each name and each code once.
#[derive(Debug)]
pub struct RegistryDefinition {
    pub forms: Vec<FormDefinition>,
    pub sections: Vec<SectionDefinition>,
}

pub struct FormDefinitionModel {
    pub name: Seq<char>,
    pub sections: Seq<Seq<char>>,
}

pub struct SectionDefinitionModel {
    pub code: Seq<char>,
    pub cdes: Seq<Seq<char>>,
}

pub struct RegistryDefinitionModel {
    pub forms: Seq<FormDefinitionModel>,
    pub sections: Seq<SectionDefinitionModel>,
}

impl DeepView for FormDefinition {
    type V = FormDefinitionModel;

    open spec fn deep_view(&self) -> FormDefinitionModel {
        FormDefinitionModel { name: self.name@, sections: self.sections.deep_view() }
    }
}

impl DeepView for SectionDefinition {
    type V = SectionDefinitionModel;

    open spec fn deep_view(&self) -> SectionDefinitionModel {
        SectionDefinitionModel { code: self.code@, cdes: self.cdes.deep_view() }
    }
}

impl DeepView for RegistryDefinition {
    type V = RegistryDefinitionModel;

    open spec fn deep_view(&self) -> RegistryDefinitionModel {
        RegistryDefinitionModel {
            forms: self.forms.deep_view(),
            sections: self.sections.deep_view(),
        }
    }
}

pub open spec fn defined_form_name() -> spec_fn(FormDefinitionModel) -> Seq<char> {
    |f: FormDefinitionModel| f.name
}

pub open spec fn defined_section_code() -> spec_fn(SectionDefinitionModel) -> Seq<char> {
    |s: SectionDefinitionModel| s.code
}

/// The entries of a list, each at the place where it first occurs.
pub open spec fn each_once(s: Seq<Seq<char>>) -> Seq<Seq<char>>
    decreases s.len(),
{
    if s.len() == 0 {
        Seq::empty()
    } else {
        let before = each_once(s.drop_last());
        if before.contains(s.last()) {
            before
        } else {
            before.push(s.last())
        }
    }
}

/// The mapping that a list of definitions makes: a later definition takes
/// the place of an earlier one of the same key. The first error of a
/// definition is the error of the list.
pub open spec fn definitions<E, K>(
    items: Seq<JsonModel>,
    decode: spec_fn(JsonModel) -> Result<E, ModelError>,
    key: spec_fn(E) -> K,
) -> Result<Seq<E>, ModelError>
    decreases items.len(),
{
    if items.len() == 0 {
        Ok(Seq::empty())
    } else {
        match definitions(items.drop_last(), decode, key) {
            Err(e) => Err(e),
            Ok(entries) => match decode(items.last()) {
                Err(e) => Err(e),
                Ok(entry) => Ok(upsert(entries, key, entry)),
            },
        }
    }
}

/// The definition of a form that a JSON value holds.
pub open spec fn form_definition(v: JsonModel) -> Result<FormDefinitionModel, ModelError> {
    if v.as_object() is None {
        Err(ModelError::InvalidData)
    } else if v.get("fields"@) is None {
        Err(ModelError::MissingFields)
    } else {
        let fields = v.get("fields"@)->0;
        if fields.get("name"@) is None {
            Err(ModelError::MissingFormName)
        } else if fields.get("name"@)->0.as_text() is None {
            Err(ModelError::InvalidFormName)
        } else if fields.get("sections"@) is None {
            Err(ModelError::MissingFormSections)
        } else if fields.get("sections"@)->0.as_text() is None {
            Err(ModelError::InvalidFormSections)
        } else {
            Ok(
                FormDefinitionModel {
                    name: fields.get("name"@)->0.as_text()->0,
                    sections: each_once(comma_list(fields.get("sections"@)->0.as_text()->0)),
                },
            )
        }
    }
}

/// The definition of a section that a JSON value holds.
pub open spec fn section_definition(v: JsonModel) -> Result<SectionDefinitionModel, ModelError> {
    if v.as_object() is None {
        Err(ModelError::InvalidData)
    } else if v.get("fields"@) is None {
        Err(ModelError::MissingFields)
    } else {
        let fields = v.get("fields"@)->0;
        if fields.get("code"@) is None {
            Err(ModelError::MissingSectionCode)
        } else if fields.get("code"@)->0.as_text() is None {
            Err(ModelError::InvalidSectionCode)
        } else if fields.get("elements"@) is None {
            Err(ModelError::MissingSectionCdes)
        } else if fields.get("elements"@)->0.as_text() is None {
            Err(ModelError::InvalidSectionCdes)
        } else {
            Ok(
                SectionDefinitionModel {
                    code: fields.get("code"@)->0.as_text()->0,
                    cdes: comma_list(fields.get("elements"@)->0.as_text()->0),
                },
            )
        }
    }
}

/// The definition of a registry that two lists of JSON values hold.
pub open spec fn registry_definition(forms: Seq<JsonModel>, sections: Seq<JsonModel>) -> Result<
    RegistryDefinitionModel,
    ModelError,
> {
    match definitions(forms, |v: JsonModel| form_definition(v), defined_form_name()) {
        Err(e) => Err(e),
        Ok(forms) => match definitions(
            sections,
            |v: JsonModel| section_definition(v),
            defined_section_code(),
        ) {
            Err(e) => Err(e),
            Ok(sections) => Ok(RegistryDefinitionModel { forms, sections }),
        },
    }
}

/// One more definition is taken in after those before it.
pub proof fn lemma_definitions_step<E, K>(
    items: Seq<JsonModel>,
    decode: spec_fn(JsonModel) -> Result<E, ModelError>,
    key: spec_fn(E) -> K,
    i: int,
)
    requires
        0 <= i < items.len(),
    ensures
        definitions(items.take(i + 1), decode, key) == match definitions(
            items.take(i),
            decode,
            key,
        ) {
            Err(e) => Err(e),
            Ok(entries) => match decode(items[i]) {
                Err(e) => Err(e),
                Ok(entry) => Ok(upsert(entries, key, entry)),
            },
        },
{
    assert(items.take(i + 1).drop_last() =~= items.take(i));
}

/// An error among the first definitions is the error of the whole list.
pub proof fn lemma_definitions_rest<E, K>(
    items: Seq<JsonModel>,
    decode: spec_fn(JsonModel) -> Result<E, ModelError>,
    key: spec_fn(E) -> K,
    i: int,
)
    requires
        0 <= i <= items.len(),
        definitions(items.take(i), decode, key) is Err,
    ensures
        definitions(items, decode, key) == definitions(items.take(i), decode, key),
    decreases items.len() - i,
{
    if i == items.len() {
        assert(items.take(i) =~= items);
    } else {
        lemma_definitions_step(items, decode, key, i);
        lemma_definitions_rest(items, decode, key, i + 1);
    }
}

/// The strings of a list, each at the place where it first occurs.
pub fn once_each(items: Vec<String>) -> (r: Vec<String>)
    ensures
        r.deep_view() == each_once(items.deep_view()),
{
    let ghost all = items.deep_view();
    let mut out: Vec<String> = Vec::new();
    let mut i: usize = 0;
    assert(all.take(0) =~= Seq::<Seq<char>>::empty());
    assert(out.deep_view() =~= Seq::<Seq<char>>::empty());
    while i < items.len()
        invariant
            i <= items.len(),
            all == items.deep_view(),
            out.deep_view() == each_once(all.take(i as int)),
        decreases items.len() - i,
    {
        let ghost before = out.deep_view();
        assert(all.take(i + 1).drop_last() =~= all.take(i as int));
        if !contains_text(&out, &items[i]) {
            out.push(items[i].clone());
            assert(out.deep_view() =~= before.push(all[i as int]));
        }
        i += 1;
    }
    assert(all.take(items.len() as int) =~= all);
    out
}

impl RegistryDefinition {
    /// Reads the definition of one form.
    pub fn get_form(value: &Json) -> (r: Result<FormDefinition, ModelError>)
        ensures
            match r {
                Ok(d) => form_definition(value@) == Ok::<FormDefinitionModel, ModelError>(
                    d.deep_view(),
                ),
                Err(e) => form_definition(value@) == Err::<FormDefinitionModel, ModelError>(e),
            },
    {
        if value.as_object().is_none() {
            return Err(ModelError::InvalidData);
        }
        let fields = match value.get("fields") {
            None => {
                return Err(ModelError::MissingFields);
            },
            Some(fields) => fields,
        };
        let name = match fields.get("name") {
            None => {
                return Err(ModelError::MissingFormName);
            },
            Some(name) => match name {
                Json::Text(s) => s.clone(),
                _ => {
                    return Err(ModelError::InvalidFormName);
                },
            },
        };
        let sections = match fields.get("sections") {
            None => {
                return Err(ModelError::MissingFormSections);
            },
            Some(sections) => match sections.as_str() {
                None => {
                    return Err(ModelError::InvalidFormSections);
                },
                Some(s) => once_each(split_commas(s)),
            },
        };
        Ok(FormDefinition { name, sections })
    }

    /// Reads the definition of one section.
    pub fn get_section(value: &Json) -> (r: Result<SectionDefinition, ModelError>)
        ensures
            match r {
                Ok(d) => section_definition(value@) == Ok::<SectionDefinitionModel, ModelError>(
                    d.deep_view(),
                ),
                Err(e) => section_definition(value@) == Err::<SectionDefinitionModel, ModelError>(
                    e,
                ),
            },
    {
        if value.as_object().is_none() {
            return Err(ModelError::InvalidData);
        }
        let fields = match value.get("fields") {
            None => {
                return Err(ModelError::MissingFields);
            },
            Some(fields) => fields,
        };
        let code = match fields.get("code") {
            None => {
                return Err(ModelError::MissingSectionCode);
            },
            Some(code) => match code {
                Json::Text(s) => s.clone(),
                _ => {
                    return Err(ModelError::InvalidSectionCode);
                },
            },
        };
        let cdes = match fields.get("elements") {
            None => {
                return Err(ModelError::MissingSectionCdes);
            },
            Some(elements) => match elements.as_str() {
                None => {
                    return Err(ModelError::InvalidSectionCdes);
                },
                Some(s) => split_commas(s),
            },
        };
        Ok(SectionDefinition { code, cdes })
    }

    /// Reads the definitions of the forms.
    pub fn get_forms(values: &Vec<Json>) -> (r: Result<Vec<FormDefinition>, ModelError>)
        ensures
            match r {
                Ok(d) => definitions(
                    values.deep_view(),
                    |v: JsonModel| form_definition(v),
                    defined_form_name(),
                ) == Ok::<Seq<FormDefinitionModel>, ModelError>(d.deep_view()),
                Err(e) => definitions(
                    values.deep_view(),
                    |v: JsonModel| form_definition(v),
                    defined_form_name(),
                ) == Err::<Seq<FormDefinitionModel>, ModelError>(e),
            },
    {
        let ghost items = values.deep_view();
        let ghost decode = |v: JsonModel| form_definition(v);
        let mut map: Vec<FormDefinition> = Vec::new();
        let mut i: usize = 0;
        assert(items.take(0) =~= Seq::<JsonModel>::empty());
        assert(map.deep_view() =~= Seq::<FormDefinitionModel>::empty());
        while i < values.len()
            invariant
                i <= values.len(),
                items == values.deep_view(),
                decode == (|v: JsonModel| form_definition(v)),
                definitions(items.take(i as int), decode, defined_form_name()) == Ok::<
                    Seq<FormDefinitionModel>,
                    ModelError,
                >(map.deep_view()),
            decreases values.len() - i,
        {
            proof {
                lemma_definitions_step(items, decode, defined_form_name(), i as int);
            }
            match Self::get_form(&values[i]) {
                Err(e) => {
                    proof {
                        lemma_definitions_rest(items, decode, defined_form_name(), i as int + 1);
                    }
                    return Err(e);
                },
                Ok(definition) => {
                    let ghost before = map.deep_view();
                    let ghost added = definition.deep_view();
                    let mut at: usize = 0;
                    while at < map.len() && !(map[at].name == definition.name)
                        invariant
                            at <= map.len(),
                            before == map.deep_view(),
                            added == definition.deep_view(),
                            forall|k: int|
                                0 <= k < at ==> defined_form_name()(#[trigger] before[k])
                                    != defined_form_name()(added),
                        decreases map.len() - at,
                    {
                        at += 1;
                    }
                    if at < map.len() {
                        proof {
                            lemma_upsert_at(before, defined_form_name(), added, at as int);
                        }
                        map.set(at, definition);
                        assert(map.deep_view() =~= before.update(at as int, added));
                    } else {
                        proof {
                            lemma_upsert_new(before, defined_form_name(), added);
                        }
                        map.push(definition);
                        assert(map.deep_view() =~= before.push(added));
                    }
                },
            }
            i += 1;
        }
        assert(items.take(values.len() as int) =~= items);
        Ok(map)
    }

    /// Reads the definitions of the sections.
    pub fn get_sections(values: &Vec<Json>) -> (r: Result<Vec<SectionDefinition>, ModelError>)
        ensures
            match r {
                Ok(d) => definitions(
                    values.deep_view(),
                    |v: JsonModel| section_definition(v),
                    defined_section_code(),
                ) == Ok::<Seq<SectionDefinitionModel>, ModelError>(d.deep_view()),
                Err(e) => definitions(
                    values.deep_view(),
                    |v: JsonModel| section_definition(v),
                    defined_section_code(),
                ) == Err::<Seq<SectionDefinitionModel>, ModelError>(e),
            },
    {
        let ghost items = values.deep_view();
        let ghost decode = |v: JsonModel| section_definition(v);
        let mut map: Vec<SectionDefinition> = Vec::new();
        let mut i: usize = 0;
        assert(items.take(0) =~= Seq::<JsonModel>::empty());
        assert(map.deep_view() =~= Seq::<SectionDefinitionModel>::empty());
        while i < values.len()
            invariant
                i <= values.len(),
                items == values.deep_view(),
                decode == (|v: JsonModel| section_definition(v)),
                definitions(items.take(i as int), decode, defined_section_code()) == Ok::<
                    Seq<SectionDefinitionModel>,
                    ModelError,
                >(map.deep_view()),
            decreases values.len() - i,
        {
            proof {
                lemma_definitions_step(items, decode, defined_section_code(), i as int);
            }
            match Self::get_section(&values[i]) {
                Err(e) => {
                    proof {
                        lemma_definitions_rest(
                            items,
                            decode,
                            defined_section_code(),
                            i as int + 1,
                        );
                    }
                    return Err(e);
                },
                Ok(definition) => {
                    let ghost before = map.deep_view();
                    let ghost added = definition.deep_view();
                    let mut at: usize = 0;
                    while at < map.len() && !(map[at].code == definition.code)
                        invariant
                            at <= map.len(),
                            before == map.deep_view(),
                            added == definition.deep_view(),
                            forall|k: int|
                                0 <= k < at ==> defined_section_code()(#[trigger] before[k])
                                    != defined_section_code()(added),
                        decreases map.len() - at,
                    {
                        at += 1;
                    }
                    if at < map.len() {
                        proof {
                            lemma_upsert_at(before, defined_section_code(), added, at as int);
                        }
                        map.set(at, definition);
                        assert(map.deep_view() =~= before.update(at as int, added));
                    } else {
                        proof {
                            lemma_upsert_new(before, defined_section_code(), added);
                        }
                        map.push(definition);
                        assert(map.deep_view() =~= before.push(added));
                    }
                },
            }
            i += 1;
        }
        assert(items.take(values.len() as int) =~= items);
        Ok(map)
    }

    /// Reads the definition of a registry from the rows of its forms and of
    /// its sections, as `serde_json` parsed them.
    pub fn new(forms: &Vec<serde_json::Value>, sections: &Vec<serde_json::Value>) -> (r: Result<
        RegistryDefinition,
        ModelError,
    >)
        ensures
            match r {
                Ok(d) => registry_definition(values_model(forms@), values_model(sections@)) == Ok::<
                    RegistryDefinitionModel,
                    ModelError,
                >(d.deep_view()),
                Err(e) => registry_definition(values_model(forms@), values_model(sections@))
                    == Err::<RegistryDefinitionModel, ModelError>(e),
            },
    {
        let forms = Json::from_values(forms);
        let sections = Json::from_values(sections);
        Self::from_json(&forms, &sections)
    }

    /// Reads the definition of a registry from the rows of its forms and of
    /// its sections.
    pub fn from_json(forms: &Vec<Json>, sections: &Vec<Json>) -> (r: Result<
        RegistryDefinition,
        ModelError,
    >)
        ensures
            match r {
                Ok(d) => registry_definition(forms.deep_view(), sections.deep_view()) == Ok::<
                    RegistryDefinitionModel,
                    ModelError,
                >(d.deep_view()),
                Err(e) => registry_definition(forms.deep_view(), sections.deep_view()) == Err::<
                    RegistryDefinitionModel,
                    ModelError,
                >(e),
            },
    {
        let forms = match Self::get_forms(forms) {
            Err(e) => {
                return Err(e);
            },
            Ok(forms) => forms,
        };
        let sections = match Self::get_sections(sections) {
            Err(e) => {
                return Err(e);
            },
            Ok(sections) => sections,
        };
        Ok(RegistryDefinition { forms, sections })
    }
}

} // verus!
