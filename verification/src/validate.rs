//! Holding a record against the definition of its registry. What is found
//! is reported and never refused.

use crate::clinical_data::{
    cde_code,
    form_name,
    section_code,
    CDEModel,
    CDESVariant,
    CDESVariantModel,
    ClinicalDatum,
    ClinicalDatumModel,
    Form,
    FormModel,
    Section,
    SectionModel,
    CDE,
};
use crate::compare::find_cde;
use crate::compare_records::{find_form, find_section};
use crate::diff::{find, lemma_find_at, lemma_find_none};
use crate::differences::optional;
use crate::registry_definition::{
    defined_form_name,
    defined_section_code,
    FormDefinition,
    FormDefinitionModel,
    RegistryDefinition,
    RegistryDefinitionModel,
    SectionDefinition,
    SectionDefinitionModel,
};
use crate::texts::contains_text;
use vstd::prelude::*;
use vstd::string::StringExecFns;

verus! {

/// The reports of all items of a list, in its order.
pub open spec fn report_each<E>(items: Seq<E>, report: spec_fn(E) -> Seq<Seq<char>>) -> Seq<
    Seq<char>,
>
    decreases items.len(),
{
    if items.len() == 0 {
        Seq::empty()
    } else {
        report_each(items.drop_last(), report) + report(items.last())
    }
}

/// One more item adds its report at the end.
pub proof fn lemma_report_step<E>(items: Seq<E>, report: spec_fn(E) -> Seq<Seq<char>>, i: int)
    requires
        0 <= i < items.len(),
    ensures
        report_each(items.take(i + 1), report) == report_each(items.take(i), report) + report(
            items[i],
        ),
{
    assert(items.take(i + 1).drop_last() =~= items.take(i));
}

pub open spec fn extra_form_message(form: Seq<char>) -> Seq<char> {
    "Clinical datum contains extra form: "@ + form
}

pub open spec fn missing_form_message(form: Seq<char>) -> Seq<char> {
    "Clinical datum is missing form: "@ + form
}

pub open spec fn extra_section_message(form: Seq<char>, section: Seq<char>) -> Seq<char> {
    "Clinical datum's form "@ + form + " contains extra section: "@ + section
}

pub open spec fn missing_section_message(form: Seq<char>, section: Seq<char>) -> Seq<char> {
    "Clinical datum's form "@ + form + " is missing section: "@ + section
}

pub open spec fn undefined_section_message(section: Seq<char>) -> Seq<char> {
    "Section definition "@ + section + " doesn't exist"@
}

pub open spec fn extra_cde_message(form: Seq<char>, section: Seq<char>, cde: Seq<char>) -> Seq<
    char,
> {
    "Clinical datum's form "@ + form + " section "@ + section + " contains extra cde: "@ + cde
}

pub open spec fn missing_cde_message(form: Seq<char>, section: Seq<char>, cde: Seq<char>) -> Seq<
    char,
> {
    "Clinical datum's form "@ + form + " section "@ + section + " is missing cde: "@ + cde
}

/// What is found of one element of a mapping: that its section does not
/// list it.
pub open spec fn extra_cde(form: Seq<char>, section: SectionDefinitionModel) -> spec_fn(
    CDEModel,
) -> Seq<Seq<char>> {
    |c: CDEModel|
        if section.cdes.contains(c.code) {
            Seq::empty()
        } else {
            seq![extra_cde_message(form, section.code, c.code)]
        }
}

/// What is found of one element that a section lists: that the mapping
/// lacks it.
pub open spec fn missing_cde(form: Seq<char>, section: Seq<char>, cdes: Seq<CDEModel>) -> spec_fn(
    Seq<char>,
) -> Seq<Seq<char>> {
    |code: Seq<char>|
        if find(cdes, cde_code(), code) is None {
            seq![missing_cde_message(form, section, code)]
        } else {
            Seq::empty()
        }
}

/// What is found of one mapping of elements: first its elements that the
/// section does not list, then the listed elements that it lacks.
pub open spec fn cde_map_findings(form: Seq<char>, section: SectionDefinitionModel) -> spec_fn(
    Seq<CDEModel>,
) -> Seq<Seq<char>> {
    |cdes: Seq<CDEModel>|
        report_each(cdes, extra_cde(form, section)) + report_each(
            section.cdes,
            missing_cde(form, section.code, cdes),
        )
}

/// What is found of the elements of a section, instance by instance where
/// they are repeated.
pub open spec fn cdes_findings(
    form: Seq<char>,
    section: SectionDefinitionModel,
    cdes: CDESVariantModel,
) -> Seq<Seq<char>> {
    match cdes {
        CDESVariantModel::Single(map) => cde_map_findings(form, section)(map),
        CDESVariantModel::Multiple(maps) => report_each(maps, cde_map_findings(form, section)),
    }
}

/// What is found of one section of a form: that the form's definition does
/// not list it, or that the registry does not define it, or what is found of
/// its elements.
pub open spec fn section_findings(
    definition: RegistryDefinitionModel,
    form: FormDefinitionModel,
) -> spec_fn(SectionModel) -> Seq<Seq<char>> {
    |s: SectionModel|
        if !form.sections.contains(s.code) {
            seq![extra_section_message(form.name, s.code)]
        } else {
            match find(definition.sections, defined_section_code(), s.code) {
                None => seq![undefined_section_message(s.code)],
                Some(section) => cdes_findings(form.name, section, s.cdes),
            }
        }
}

/// What is found of one section that a form's definition lists: that the
/// form lacks it.
pub open spec fn missing_section(form: FormModel) -> spec_fn(Seq<char>) -> Seq<Seq<char>> {
    |code: Seq<char>|
        if find(form.sections, section_code(), code) is None {
            seq![missing_section_message(form.name, code)]
        } else {
            Seq::empty()
        }
}

/// What is found of one form of a record: that the registry does not define
/// it, or what is found of its sections and then the listed sections that it
/// lacks.
pub open spec fn form_findings(definition: RegistryDefinitionModel) -> spec_fn(FormModel) -> Seq<
    Seq<char>,
> {
    |f: FormModel|
        match find(definition.forms, defined_form_name(), f.name) {
            None => seq![extra_form_message(f.name)],
            Some(form) => report_each(f.sections, section_findings(definition, form))
                + report_each(form.sections, missing_section(f)),
        }
}

/// What is found of one form that the registry defines: that the record
/// lacks it.
pub open spec fn missing_form(datum: ClinicalDatumModel) -> spec_fn(FormDefinitionModel) -> Seq<
    Seq<char>,
> {
    |form: FormDefinitionModel|
        if find(datum.forms, form_name(), form.name) is None {
            seq![missing_form_message(form.name)]
        } else {
            Seq::empty()
        }
}

/// Everything that is found of a record held against a definition: what is
/// found of its forms, in their order, then the defined forms that it lacks.
pub open spec fn findings(datum: ClinicalDatumModel, definition: RegistryDefinitionModel) -> Seq<
    Seq<char>,
> {
    report_each(datum.forms, form_findings(definition)) + report_each(
        definition.forms,
        missing_form(datum),
    )
}

/// A message of a fixed text and a name.
fn message_of_one(text: &str, name: &String) -> (r: String)
    ensures
        r@ == text@ + name@,
{
    let mut message = String::from_str(text);
    message.append(name.as_str());
    message
}

/// A message of two fixed texts, each followed by a name.
fn message_of_two(first: &str, a: &String, second: &str, b: &String) -> (r: String)
    ensures
        r@ == first@ + a@ + second@ + b@,
{
    let mut message = message_of_one(first, a);
    message.append(second);
    message.append(b.as_str());
    message
}

/// A message of three fixed texts, each followed by a name.
fn message_of_three(
    first: &str,
    a: &String,
    second: &str,
    b: &String,
    third: &str,
    c: &String,
) -> (r: String)
    ensures
        r@ == first@ + a@ + second@ + b@ + third@ + c@,
{
    let mut message = message_of_two(first, a, second, b);
    message.append(third);
    message.append(c.as_str());
    message
}

/// The definition of the form with the given name.
pub fn find_form_definition<'a>(forms: &'a Vec<FormDefinition>, name: &String) -> (r: Option<
    &'a FormDefinition,
>)
    ensures
        optional(r) == find(forms.deep_view(), defined_form_name(), name@),
{
    let mut i: usize = 0;
    while i < forms.len()
        invariant
            i <= forms.len(),
            forall|j: int|
                0 <= j < i ==> defined_form_name()(#[trigger] forms.deep_view()[j]) != name@,
        decreases forms.len() - i,
    {
        if forms[i].name == *name {
            proof {
                lemma_find_at(forms.deep_view(), defined_form_name(), name@, i as int);
            }
            return Some(&forms[i]);
        }
        i += 1;
    }
    proof {
        lemma_find_none(forms.deep_view(), defined_form_name(), name@);
    }
    None
}

/// The definition of the section with the given code.
pub fn find_section_definition<'a>(sections: &'a Vec<SectionDefinition>, code: &String) -> (r:
    Option<&'a SectionDefinition>)
    ensures
        optional(r) == find(sections.deep_view(), defined_section_code(), code@),
{
    let mut i: usize = 0;
    while i < sections.len()
        invariant
            i <= sections.len(),
            forall|j: int|
                0 <= j < i ==> defined_section_code()(#[trigger] sections.deep_view()[j]) != code@,
        decreases sections.len() - i,
    {
        if sections[i].code == *code {
            proof {
                lemma_find_at(sections.deep_view(), defined_section_code(), code@, i as int);
            }
            return Some(&sections[i]);
        }
        i += 1;
    }
    proof {
        lemma_find_none(sections.deep_view(), defined_section_code(), code@);
    }
    None
}

/// Adds what is found of one mapping of elements.
fn validate_cde_map(
    errors: &mut Vec<String>,
    form: &String,
    section: &SectionDefinition,
    cdes: &Vec<CDE>,
)
    ensures
        final(errors).deep_view() == old(errors).deep_view() + cde_map_findings(
            form@,
            section.deep_view(),
        )(cdes.deep_view()),
{
    let ghost start = errors.deep_view();
    let ghost map = cdes.deep_view();
    let ghost listed = section.deep_view();
    let ghost extra = extra_cde(form@, listed);
    let mut i: usize = 0;
    assert(errors.deep_view() =~= start + report_each(map.take(0), extra));
    while i < cdes.len()
        invariant
            i <= cdes.len(),
            map == cdes.deep_view(),
            listed == section.deep_view(),
            extra == extra_cde(form@, listed),
            errors.deep_view() == start + report_each(map.take(i as int), extra),
        decreases cdes.len() - i,
    {
        let ghost before = errors.deep_view();
        proof {
            lemma_report_step(map, extra, i as int);
        }
        if !contains_text(&section.cdes, &cdes[i].code) {
            errors.push(
                message_of_three(
                    "Clinical datum's form ",
                    form,
                    " section ",
                    &section.code,
                    " contains extra cde: ",
                    &cdes[i].code,
                ),
            );
        }
        assert(errors.deep_view() =~= before + extra(map[i as int]));
        i += 1;
    }
    assert(map.take(cdes.len() as int) =~= map);
    let ghost first = errors.deep_view();
    let ghost missing = missing_cde(form@, listed.code, map);
    let mut j: usize = 0;
    assert(errors.deep_view() =~= first + report_each(listed.cdes.take(0), missing));
    while j < section.cdes.len()
        invariant
            j <= section.cdes.len(),
            map == cdes.deep_view(),
            listed == section.deep_view(),
            missing == missing_cde(form@, listed.code, map),
            errors.deep_view() == first + report_each(listed.cdes.take(j as int), missing),
        decreases section.cdes.len() - j,
    {
        let ghost before = errors.deep_view();
        proof {
            lemma_report_step(listed.cdes, missing, j as int);
        }
        if find_cde(cdes, &section.cdes[j]).is_none() {
            errors.push(
                message_of_three(
                    "Clinical datum's form ",
                    form,
                    " section ",
                    &section.code,
                    " is missing cde: ",
                    &section.cdes[j],
                ),
            );
        }
        assert(errors.deep_view() =~= before + missing(listed.cdes[j as int]));
        j += 1;
    }
    assert(listed.cdes.take(section.cdes.len() as int) =~= listed.cdes);
}

/// Adds what is found of one section of a form.
fn validate_section(
    errors: &mut Vec<String>,
    definition: &RegistryDefinition,
    form: &FormDefinition,
    section: &Section,
)
    ensures
        final(errors).deep_view() == old(errors).deep_view() + section_findings(
            definition.deep_view(),
            form.deep_view(),
        )(section@),
{
    let ghost start = errors.deep_view();
    if !contains_text(&form.sections, &section.code) {
        errors.push(
            message_of_two(
                "Clinical datum's form ",
                &form.name,
                " contains extra section: ",
                &section.code,
            ),
        );
        assert(errors.deep_view() =~= start + seq![
            extra_section_message(form.name@, section.code@),
        ]);
        return ;
    }
    match find_section_definition(&definition.sections, &section.code) {
        None => {
            let mut message = message_of_one("Section definition ", &section.code);
            message.append(" doesn't exist");
            errors.push(message);
            assert(errors.deep_view() =~= start + seq![undefined_section_message(section.code@)]);
        },
        Some(listed) => {
            match &section.cdes {
                CDESVariant::Single(map) => {
                    validate_cde_map(errors, &form.name, listed, map);
                },
                CDESVariant::Multiple(maps) => {
                    let ghost all = maps.deep_view();
                    let ghost report = cde_map_findings(form.name@, listed.deep_view());
                    let mut i: usize = 0;
                    assert(errors.deep_view() =~= start + report_each(all.take(0), report));
                    while i < maps.len()
                        invariant
                            i <= maps.len(),
                            all == maps.deep_view(),
                            report == cde_map_findings(form.name@, listed.deep_view()),
                            errors.deep_view() == start + report_each(all.take(i as int), report),
                        decreases maps.len() - i,
                    {
                        let ghost before = errors.deep_view();
                        proof {
                            lemma_report_step(all, report, i as int);
                        }
                        validate_cde_map(errors, &form.name, listed, &maps[i]);
                        assert(errors.deep_view() =~= start + (report_each(
                            all.take(i as int),
                            report,
                        ) + report(all[i as int])));
                        i += 1;
                    }
                    assert(all.take(maps.len() as int) =~= all);
                },
            }
        },
    }
}

/// Adds what is found of one form of a record.
fn validate_form(errors: &mut Vec<String>, definition: &RegistryDefinition, form: &Form)
    ensures
        final(errors).deep_view() == old(errors).deep_view() + form_findings(
            definition.deep_view(),
        )(form@),
{
    let ghost start = errors.deep_view();
    match find_form_definition(&definition.forms, &form.name) {
        None => {
            errors.push(message_of_one("Clinical datum contains extra form: ", &form.name));
            assert(errors.deep_view() =~= start + seq![extra_form_message(form.name@)]);
        },
        Some(listed) => {
            let ghost sections = form.sections.deep_view();
            let ghost report = section_findings(definition.deep_view(), listed.deep_view());
            let mut i: usize = 0;
            assert(errors.deep_view() =~= start + report_each(sections.take(0), report));
            while i < form.sections.len()
                invariant
                    i <= form.sections.len(),
                    sections == form.sections.deep_view(),
                    report == section_findings(definition.deep_view(), listed.deep_view()),
                    errors.deep_view() == start + report_each(sections.take(i as int), report),
                decreases form.sections.len() - i,
            {
                proof {
                    lemma_report_step(sections, report, i as int);
                }
                validate_section(errors, definition, listed, &form.sections[i]);
                assert(errors.deep_view() =~= start + (report_each(sections.take(i as int), report)
                    + report(sections[i as int])));
                i += 1;
            }
            assert(sections.take(form.sections.len() as int) =~= sections);
            let ghost first = errors.deep_view();
            let ghost codes = listed.deep_view().sections;
            let ghost missing = missing_section(form@);
            let mut j: usize = 0;
            assert(errors.deep_view() =~= first + report_each(codes.take(0), missing));
            while j < listed.sections.len()
                invariant
                    j <= listed.sections.len(),
                    codes == listed.deep_view().sections,
                    missing == missing_section(form@),
                    errors.deep_view() == first + report_each(codes.take(j as int), missing),
                decreases listed.sections.len() - j,
            {
                let ghost before = errors.deep_view();
                proof {
                    lemma_report_step(codes, missing, j as int);
                }
                if find_section(&form.sections, &listed.sections[j]).is_none() {
                    errors.push(
                        message_of_two(
                            "Clinical datum's form ",
                            &form.name,
                            " is missing section: ",
                            &listed.sections[j],
                        ),
                    );
                }
                assert(errors.deep_view() =~= before + missing(codes[j as int]));
                j += 1;
            }
            assert(codes.take(listed.sections.len() as int) =~= codes);
            assert(errors.deep_view() =~= start + (report_each(sections, report) + report_each(
                codes,
                missing,
            )));
        },
    }
}

impl ClinicalDatum {
    /// Holds the record against the definition of its registry and reports
    /// every form, section and element that one has and the other lacks.
    pub fn validate(&self, definition: &RegistryDefinition) -> (errors: Vec<String>)
        ensures
            errors.deep_view() == findings(self@, definition.deep_view()),
    {
        let mut errors: Vec<String> = Vec::new();
        let ghost forms = self.forms.deep_view();
        let ghost report = form_findings(definition.deep_view());
        let mut i: usize = 0;
        assert(errors.deep_view() =~= report_each(forms.take(0), report));
        while i < self.forms.len()
            invariant
                i <= self.forms.len(),
                forms == self.forms.deep_view(),
                report == form_findings(definition.deep_view()),
                errors.deep_view() == report_each(forms.take(i as int), report),
            decreases self.forms.len() - i,
        {
            proof {
                lemma_report_step(forms, report, i as int);
            }
            validate_form(&mut errors, definition, &self.forms[i]);
            i += 1;
        }
        assert(forms.take(self.forms.len() as int) =~= forms);
        let ghost first = errors.deep_view();
        let ghost defined = definition.deep_view().forms;
        let ghost missing = missing_form(self@);
        let mut j: usize = 0;
        assert(errors.deep_view() =~= first + report_each(defined.take(0), missing));
        while j < definition.forms.len()
            invariant
                j <= definition.forms.len(),
                defined == definition.deep_view().forms,
                missing == missing_form(self@),
                errors.deep_view() == first + report_each(defined.take(j as int), missing),
            decreases definition.forms.len() - j,
        {
            let ghost before = errors.deep_view();
            proof {
                lemma_report_step(defined, missing, j as int);
            }
            if find_form(&self.forms, &definition.forms[j].name).is_none() {
                errors.push(
                    message_of_one("Clinical datum is missing form: ", &definition.forms[j].name),
                );
            }
            assert(errors.deep_view() =~= before + missing(defined[j as int]));
            j += 1;
        }
        assert(defined.take(definition.forms.len() as int) =~= defined);
        errors
    }
}

} // verus!
