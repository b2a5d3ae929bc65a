//! The comparison of forms, of records and of a patient's slices.

use crate::clinical_data::{
    form_name,
    section_code,
    ClinicalDatum,
    ClinicalDatumModel,
    Form,
    FormModel,
    Section,
};
use crate::compare::section_rules;
use crate::diff::{
    find,
    left_entry,
    left_pass,
    lemma_find_at,
    lemma_find_none,
    lemma_left_pass_step,
    lemma_right_pass_step,
    mapping_diff,
    right_entry,
    right_pass,
    Diff,
    MappingRules,
};
use crate::differences::{
    optional,
    ClinicalDatumDifference,
    ClinicalDatumDifferenceModel,
    ClinicalDatumDifferenceType,
    ClinicalDatumDifferenceTypeModel,
    FormDifference,
    FormDifferenceModel,
    FormDifferenceType,
    FormDifferenceTypeModel,
    SectionDifference,
    SectionDifferenceType,
};
use vstd::prelude::*;

verus! {

/// The entry of a mapping of sections that carries the given code.
pub fn find_section<'a>(sections: &'a Vec<Section>, code: &String) -> (r: Option<&'a Section>)
    ensures
        optional(r) == find(sections.deep_view(), section_code(), code@),
{
    let mut i: usize = 0;
    while i < sections.len()
        invariant
            i <= sections.len(),
            forall|j: int|
                0 <= j < i ==> section_code()(#[trigger] sections.deep_view()[j]) != code@,
        decreases sections.len() - i,
    {
        if sections[i].code == *code {
            proof {
                lemma_find_at(sections.deep_view(), section_code(), code@, i as int);
            }
            return Some(&sections[i]);
        }
        i += 1;
    }
    proof {
        lemma_find_none(sections.deep_view(), section_code(), code@);
    }
    None
}

/// Compares two mappings of sections.
pub fn diff_sections<'a>(s1: &'a Vec<Section>, s2: &'a Vec<Section>) -> (r: Vec<
    SectionDifference<'a>,
>)
    ensures
        r.deep_view() == mapping_diff(section_rules(), s1.deep_view(), s2.deep_view()),
{
    let ghost left = s1.deep_view();
    let ghost right = s2.deep_view();
    let mut diffs: Vec<SectionDifference<'a>> = Vec::new();
    let mut i: usize = 0;
    assert(diffs.deep_view() =~= left_pass(section_rules(), left.take(0), right));
    while i < s1.len()
        invariant
            i <= s1.len(),
            left == s1.deep_view(),
            right == s2.deep_view(),
            diffs.deep_view() == left_pass(section_rules(), left.take(i as int), right),
        decreases s1.len() - i,
    {
        let ghost before = diffs.deep_view();
        proof {
            lemma_left_pass_step(section_rules(), left, right, i as int);
        }
        let v1 = &s1[i];
        match find_section(s2, &v1.code) {
            None => {
                diffs.push(
                    SectionDifference {
                        code: v1.code.as_str(),
                        diff: SectionDifferenceType::Missing(Some(v1), None),
                    },
                );
                assert(diffs.deep_view() =~= before + left_entry(
                    section_rules(),
                    left[i as int],
                    right,
                ));
            },
            Some(v2) => {
                match v1.diff(v2) {
                    None => {
                        assert(diffs.deep_view() =~= before + left_entry(
                            section_rules(),
                            left[i as int],
                            right,
                        ));
                    },
                    Some(mut found) => {
                        let ghost added = found.deep_view();
                        diffs.append(&mut found);
                        assert(diffs.deep_view() =~= before + added);
                    },
                }
            },
        }
        i += 1;
    }
    assert(left.take(s1.len() as int) =~= left);
    let ghost first = diffs.deep_view();
    let mut j: usize = 0;
    assert(diffs.deep_view() =~= first + right_pass(section_rules(), left, right.take(0)));
    while j < s2.len()
        invariant
            j <= s2.len(),
            left == s1.deep_view(),
            right == s2.deep_view(),
            first == left_pass(section_rules(), left, right),
            diffs.deep_view() == first + right_pass(section_rules(), left, right.take(j as int)),
        decreases s2.len() - j,
    {
        let ghost before = diffs.deep_view();
        proof {
            lemma_right_pass_step(section_rules(), left, right, j as int);
        }
        let v = &s2[j];
        match find_section(s1, &v.code) {
            None => {
                diffs.push(
                    SectionDifference {
                        code: v.code.as_str(),
                        diff: SectionDifferenceType::Missing(None, Some(v)),
                    },
                );
            },
            Some(_) => {},
        }
        assert(diffs.deep_view() =~= before + right_entry(section_rules(), left, right[j as int]));
        j += 1;
    }
    assert(right.take(s2.len() as int) =~= right);
    diffs
}

pub open spec fn form_name_report(a: FormModel, b: FormModel) -> Seq<FormDifferenceModel> {
    if a.name != b.name {
        seq![FormDifferenceModel { name: a.name, diff: FormDifferenceTypeModel::Name(a.name, b.name) }]
    } else {
        Seq::empty()
    }
}

pub open spec fn form_sections_report(a: FormModel, b: FormModel) -> Seq<FormDifferenceModel> {
    let d = mapping_diff(section_rules(), a.sections, b.sections);
    if d.len() == 0 {
        Seq::empty()
    } else {
        seq![FormDifferenceModel { name: a.name, diff: FormDifferenceTypeModel::Sections(d) }]
    }
}

/// The comparison of two forms: their names, then their sections, whose
/// differences make one entry. Every report carries the left name.
pub open spec fn form_differences(a: FormModel, b: FormModel) -> Seq<FormDifferenceModel> {
    form_name_report(a, b) + form_sections_report(a, b)
}

/// How two mappings of forms are compared.
pub open spec fn form_rules() -> MappingRules<FormModel, Seq<char>, FormDifferenceModel> {
    MappingRules {
        key: form_name(),
        left_only: |f: FormModel|
            FormDifferenceModel {
                name: f.name,
                diff: FormDifferenceTypeModel::Missing(Some(f), None),
            },
        right_only: |f: FormModel|
            FormDifferenceModel {
                name: f.name,
                diff: FormDifferenceTypeModel::Missing(None, Some(f)),
            },
        both: |a: FormModel, b: FormModel| form_differences(a, b),
    }
}

impl<'a> Diff<'a> for Form {
    type Difference = FormDifference<'a>;

    open spec fn differences(&self, comp: &Self) -> Seq<FormDifferenceModel> {
        form_differences(self@, comp@)
    }

    fn diff(&'a self, comp: &'a Self) -> (r: Option<Vec<FormDifference<'a>>>) {
        let mut diffs: Vec<FormDifference<'a>> = Vec::new();
        if !(self.name == comp.name) {
            diffs.push(
                FormDifference {
                    name: self.name.as_str(),
                    diff: FormDifferenceType::Name(self.name.as_str(), comp.name.as_str()),
                },
            );
        }
        assert(diffs.deep_view() =~= form_name_report(self@, comp@));
        let ghost one = diffs.deep_view();
        let section_diffs = diff_sections(&self.sections, &comp.sections);
        if section_diffs.len() != 0 {
            diffs.push(
                FormDifference {
                    name: self.name.as_str(),
                    diff: FormDifferenceType::Sections(section_diffs),
                },
            );
        }
        assert(diffs.deep_view() =~= one + form_sections_report(self@, comp@));
        if diffs.len() == 0 {
            None
        } else {
            Some(diffs)
        }
    }
}

/// The entry of a mapping of forms that carries the given name.
pub fn find_form<'a>(forms: &'a Vec<Form>, name: &String) -> (r: Option<&'a Form>)
    ensures
        optional(r) == find(forms.deep_view(), form_name(), name@),
{
    let mut i: usize = 0;
    while i < forms.len()
        invariant
            i <= forms.len(),
            forall|j: int| 0 <= j < i ==> form_name()(#[trigger] forms.deep_view()[j]) != name@,
        decreases forms.len() - i,
    {
        if forms[i].name == *name {
            proof {
                lemma_find_at(forms.deep_view(), form_name(), name@, i as int);
            }
            return Some(&forms[i]);
        }
        i += 1;
    }
    proof {
        lemma_find_none(forms.deep_view(), form_name(), name@);
    }
    None
}

/// Compares two mappings of forms.
pub fn diff_forms<'a>(f1: &'a Vec<Form>, f2: &'a Vec<Form>) -> (r: Vec<FormDifference<'a>>)
    ensures
        r.deep_view() == mapping_diff(form_rules(), f1.deep_view(), f2.deep_view()),
{
    let ghost left = f1.deep_view();
    let ghost right = f2.deep_view();
    let mut diffs: Vec<FormDifference<'a>> = Vec::new();
    let mut i: usize = 0;
    assert(diffs.deep_view() =~= left_pass(form_rules(), left.take(0), right));
    while i < f1.len()
        invariant
            i <= f1.len(),
            left == f1.deep_view(),
            right == f2.deep_view(),
            diffs.deep_view() == left_pass(form_rules(), left.take(i as int), right),
        decreases f1.len() - i,
    {
        let ghost before = diffs.deep_view();
        proof {
            lemma_left_pass_step(form_rules(), left, right, i as int);
        }
        let v1 = &f1[i];
        match find_form(f2, &v1.name) {
            None => {
                diffs.push(
                    FormDifference {
                        name: v1.name.as_str(),
                        diff: FormDifferenceType::Missing(Some(v1), None),
                    },
                );
                assert(diffs.deep_view() =~= before + left_entry(form_rules(), left[i as int], right));
            },
            Some(v2) => {
                match v1.diff(v2) {
                    None => {
                        assert(diffs.deep_view() =~= before + left_entry(
                            form_rules(),
                            left[i as int],
                            right,
                        ));
                    },
                    Some(mut found) => {
                        let ghost added = found.deep_view();
                        diffs.append(&mut found);
                        assert(diffs.deep_view() =~= before + added);
                    },
                }
            },
        }
        i += 1;
    }
    assert(left.take(f1.len() as int) =~= left);
    let ghost first = diffs.deep_view();
    let mut j: usize = 0;
    assert(diffs.deep_view() =~= first + right_pass(form_rules(), left, right.take(0)));
    while j < f2.len()
        invariant
            j <= f2.len(),
            left == f1.deep_view(),
            right == f2.deep_view(),
            first == left_pass(form_rules(), left, right),
            diffs.deep_view() == first + right_pass(form_rules(), left, right.take(j as int)),
        decreases f2.len() - j,
    {
        let ghost before = diffs.deep_view();
        proof {
            lemma_right_pass_step(form_rules(), left, right, j as int);
        }
        let v = &f2[j];
        match find_form(f1, &v.name) {
            None => {
                diffs.push(
                    FormDifference {
                        name: v.name.as_str(),
                        diff: FormDifferenceType::Missing(None, Some(v)),
                    },
                );
            },
            Some(_) => {},
        }
        assert(diffs.deep_view() =~= before + right_entry(form_rules(), left, right[j as int]));
        j += 1;
    }
    assert(right.take(f2.len() as int) =~= right);
    diffs
}

pub open spec fn datum_patient_report(a: ClinicalDatumModel, b: ClinicalDatumModel) -> Seq<
    ClinicalDatumDifferenceModel,
> {
    if a.patient != b.patient {
        seq![
            ClinicalDatumDifferenceModel {
                proto_context: a.proto_context(),
                diff: ClinicalDatumDifferenceTypeModel::Patient(a.patient, b.patient),
            },
        ]
    } else {
        Seq::empty()
    }
}

pub open spec fn datum_variant_report(a: ClinicalDatumModel, b: ClinicalDatumModel) -> Seq<
    ClinicalDatumDifferenceModel,
> {
    if a.variant != b.variant {
        seq![
            ClinicalDatumDifferenceModel {
                proto_context: a.proto_context(),
                diff: ClinicalDatumDifferenceTypeModel::Variant(a.variant, b.variant),
            },
        ]
    } else {
        Seq::empty()
    }
}

pub open spec fn datum_forms_report(a: ClinicalDatumModel, b: ClinicalDatumModel) -> Seq<
    ClinicalDatumDifferenceModel,
> {
    let d = mapping_diff(form_rules(), a.forms, b.forms);
    if d.len() == 0 {
        Seq::empty()
    } else {
        seq![
            ClinicalDatumDifferenceModel {
                proto_context: a.proto_context(),
                diff: ClinicalDatumDifferenceTypeModel::Forms(d),
            },
        ]
    }
}

/// The comparison of two records: their patients, their kinds, then their
/// forms, whose differences make one entry. The id is not compared. Every
/// report carries the shape of the left record.
pub open spec fn datum_differences(a: ClinicalDatumModel, b: ClinicalDatumModel) -> Seq<
    ClinicalDatumDifferenceModel,
> {
    datum_patient_report(a, b) + datum_variant_report(a, b) + datum_forms_report(a, b)
}

impl<'a> Diff<'a> for ClinicalDatum {
    type Difference = ClinicalDatumDifference<'a>;

    open spec fn differences(&self, comp: &Self) -> Seq<ClinicalDatumDifferenceModel> {
        datum_differences(self@, comp@)
    }

    fn diff(&'a self, comp: &'a Self) -> (r: Option<Vec<ClinicalDatumDifference<'a>>>) {
        let mut diffs: Vec<ClinicalDatumDifference<'a>> = Vec::new();
        if self.patient != comp.patient {
            diffs.push(
                ClinicalDatumDifference {
                    proto_context: self.proto_context(),
                    diff: ClinicalDatumDifferenceType::Patient(self.patient, comp.patient),
                },
            );
        }
        assert(diffs.deep_view() =~= datum_patient_report(self@, comp@));
        let ghost one = diffs.deep_view();
        if self.variant != comp.variant {
            diffs.push(
                ClinicalDatumDifference {
                    proto_context: self.proto_context(),
                    diff: ClinicalDatumDifferenceType::Variant(&self.variant, &comp.variant),
                },
            );
        }
        assert(diffs.deep_view() =~= one + datum_variant_report(self@, comp@));
        let ghost two = diffs.deep_view();
        let form_diffs = diff_forms(&self.forms, &comp.forms);
        if form_diffs.len() != 0 {
            diffs.push(
                ClinicalDatumDifference {
                    proto_context: self.proto_context(),
                    diff: ClinicalDatumDifferenceType::Forms(form_diffs),
                },
            );
        }
        assert(diffs.deep_view() =~= two + datum_forms_report(self@, comp@));
        if diffs.len() == 0 {
            None
        } else {
            Some(diffs)
        }
    }
}

} // verus!
