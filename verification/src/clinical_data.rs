//! The typed model of a patient's clinical records.
//!
//! A record holds forms, a form holds sections, a section holds coded data
//! elements (CDEs), once or in repeated instances. Every mapping of the
//! model is a list in the order in which its entries arrived, in which no
//! key occurs twice.
//!
//! Each type has a mathematical model, its view, over which the contracts of
//! the library are stated.

use crate::texts::same_texts;
use vstd::prelude::*;

verus! {

/// A reference to an uploaded file.
#[derive(Debug)]
pub struct CDEFileValue {
    pub file_name: String,
    pub django_file_id: u32,
}

/// The value of a coded data element. A number is held by the bit pattern of
/// its 64-bit float; a range holds each of its strings once.
#[derive(Debug)]
pub enum CDEValue {
    Null,
    Bool(bool),
    EmptyString,
    String(String),
    Number(u64),
    EmptyRange,
    Range(Vec<String>),
    File(CDEFileValue),
}

/// A coded data element: one named clinical value.
#[derive(Debug)]
pub struct CDE {
    pub code: String,
    pub value: CDEValue,
}

/// The elements of a section: one mapping, or one mapping for each repeated
/// instance.
#[derive(Debug)]
pub enum CDESVariant {
    Single(Vec<CDE>),
    Multiple(Vec<Vec<CDE>>),
}

#[derive(Debug)]
pub struct Section {
    pub code: String,
    pub allow_multiple: bool,
    pub cdes: CDESVariant,
}

#[derive(Debug)]
pub struct Form {
    pub name: String,
    pub sections: Vec<Section>,
}

/// The two kinds of record that are modelled.
#[derive(Clone, Copy, Debug, PartialEq, Eq, Structural)]
pub enum ClinicalDatumVariant {
    History,
    CDEs,
}

/// One clinical record of one patient.
#[derive(Debug)]
pub struct ClinicalDatum {
    pub id: u32,
    pub patient: u32,
    pub variant: ClinicalDatumVariant,
    pub forms: Vec<Form>,
}

/// The shape of a record: the names of the forms it holds. Two shapes are
/// the same when they hold the same names, in whatever order.
#[derive(Debug)]
pub struct ProtoContext {
    pub form_names: Vec<String>,
}

/// The records of one patient, at most one of each shape.
#[derive(Debug)]
pub struct PatientSlice {
    pub patient: u32,
    pub clinical_data: Vec<ClinicalDatum>,
}

pub enum CDEValueModel {
    Null,
    Bool(bool),
    EmptyString,
    String(Seq<char>),
    Number(u64),
    EmptyRange,
    Range(Set<Seq<char>>),
    File { file_name: Seq<char>, django_file_id: u32 },
}

pub struct CDEModel {
    pub code: Seq<char>,
    pub value: CDEValueModel,
}

pub enum CDESVariantModel {
    Single(Seq<CDEModel>),
    Multiple(Seq<Seq<CDEModel>>),
}

pub struct SectionModel {
    pub code: Seq<char>,
    pub allow_multiple: bool,
    pub cdes: CDESVariantModel,
}

pub struct FormModel {
    pub name: Seq<char>,
    pub sections: Seq<SectionModel>,
}

pub struct ClinicalDatumModel {
    pub id: u32,
    pub patient: u32,
    pub variant: ClinicalDatumVariant,
    pub forms: Seq<FormModel>,
}

pub struct PatientSliceModel {
    pub patient: u32,
    pub clinical_data: Seq<ClinicalDatumModel>,
}

impl View for CDEValue {
    type V = CDEValueModel;

    open spec fn view(&self) -> CDEValueModel {
        match self {
            CDEValue::Null => CDEValueModel::Null,
            CDEValue::Bool(b) => CDEValueModel::Bool(*b),
            CDEValue::EmptyString => CDEValueModel::EmptyString,
            CDEValue::String(s) => CDEValueModel::String(s@),
            CDEValue::Number(bits) => CDEValueModel::Number(*bits),
            CDEValue::EmptyRange => CDEValueModel::EmptyRange,
            CDEValue::Range(items) => CDEValueModel::Range(items.deep_view().to_set()),
            CDEValue::File(f) => CDEValueModel::File {
                file_name: f.file_name@,
                django_file_id: f.django_file_id,
            },
        }
    }
}

impl DeepView for CDEValue {
    type V = CDEValueModel;

    open spec fn deep_view(&self) -> CDEValueModel {
        self@
    }
}

impl View for CDE {
    type V = CDEModel;

    open spec fn view(&self) -> CDEModel {
        CDEModel { code: self.code@, value: self.value@ }
    }
}

impl DeepView for CDE {
    type V = CDEModel;

    open spec fn deep_view(&self) -> CDEModel {
        self@
    }
}

impl View for CDESVariant {
    type V = CDESVariantModel;

    open spec fn view(&self) -> CDESVariantModel {
        match self {
            CDESVariant::Single(cdes) => CDESVariantModel::Single(cdes.deep_view()),
            CDESVariant::Multiple(instances) => CDESVariantModel::Multiple(instances.deep_view()),
        }
    }
}

impl DeepView for CDESVariant {
    type V = CDESVariantModel;

    open spec fn deep_view(&self) -> CDESVariantModel {
        self@
    }
}

impl View for Section {
    type V = SectionModel;

    open spec fn view(&self) -> SectionModel {
        SectionModel { code: self.code@, allow_multiple: self.allow_multiple, cdes: self.cdes@ }
    }
}

impl DeepView for Section {
    type V = SectionModel;

    open spec fn deep_view(&self) -> SectionModel {
        self@
    }
}

impl View for Form {
    type V = FormModel;

    open spec fn view(&self) -> FormModel {
        FormModel { name: self.name@, sections: self.sections.deep_view() }
    }
}

impl DeepView for Form {
    type V = FormModel;

    open spec fn deep_view(&self) -> FormModel {
        self@
    }
}

impl View for ClinicalDatumVariant {
    type V = ClinicalDatumVariant;

    open spec fn view(&self) -> ClinicalDatumVariant {
        *self
    }
}

impl DeepView for ClinicalDatumVariant {
    type V = ClinicalDatumVariant;

    open spec fn deep_view(&self) -> ClinicalDatumVariant {
        *self
    }
}

impl View for ClinicalDatum {
    type V = ClinicalDatumModel;

    open spec fn view(&self) -> ClinicalDatumModel {
        ClinicalDatumModel {
            id: self.id,
            patient: self.patient,
            variant: self.variant,
            forms: self.forms.deep_view(),
        }
    }
}

impl DeepView for ClinicalDatum {
    type V = ClinicalDatumModel;

    open spec fn deep_view(&self) -> ClinicalDatumModel {
        self@
    }
}

impl View for ProtoContext {
    type V = Set<Seq<char>>;

    open spec fn view(&self) -> Set<Seq<char>> {
        self.form_names.deep_view().to_set()
    }
}

impl DeepView for ProtoContext {
    type V = Set<Seq<char>>;

    open spec fn deep_view(&self) -> Set<Seq<char>> {
        self@
    }
}

impl View for PatientSlice {
    type V = PatientSliceModel;

    open spec fn view(&self) -> PatientSliceModel {
        PatientSliceModel { patient: self.patient, clinical_data: self.clinical_data.deep_view() }
    }
}

impl DeepView for PatientSlice {
    type V = PatientSliceModel;

    open spec fn deep_view(&self) -> PatientSliceModel {
        self@
    }
}

/// No two entries of a mapping carry the same key.
pub open spec fn distinct_keys<E, K>(entries: Seq<E>, key: spec_fn(E) -> K) -> bool {
    forall|i: int, j: int|
        0 <= i < j < entries.len() ==> key(#[trigger] entries[i]) != key(#[trigger] entries[j])
}

pub open spec fn cde_code() -> spec_fn(CDEModel) -> Seq<char> {
    |c: CDEModel| c.code
}

pub open spec fn section_code() -> spec_fn(SectionModel) -> Seq<char> {
    |s: SectionModel| s.code
}

pub open spec fn form_name() -> spec_fn(FormModel) -> Seq<char> {
    |f: FormModel| f.name
}

pub open spec fn datum_shape() -> spec_fn(ClinicalDatumModel) -> Set<Seq<char>> {
    |d: ClinicalDatumModel| d.proto_context()
}

impl CDEValueModel {
    /// A text is not empty and a range holds something: the empty ones have
    /// variants of their own.
    pub open spec fn wf(self) -> bool {
        match self {
            CDEValueModel::String(s) => s.len() > 0,
            CDEValueModel::Range(r) => r.finite() && r.len() > 0,
            _ => true,
        }
    }

    /// The number of the variant.
    pub open spec fn tag(self) -> int {
        match self {
            CDEValueModel::Null => 0,
            CDEValueModel::Bool(_) => 1,
            CDEValueModel::EmptyString => 2,
            CDEValueModel::String(_) => 3,
            CDEValueModel::Number(_) => 4,
            CDEValueModel::EmptyRange => 5,
            CDEValueModel::Range(_) => 6,
            CDEValueModel::File { .. } => 7,
        }
    }
}

/// A mapping of coded data elements: distinct codes, well-formed values.
pub open spec fn cde_map_wf(cdes: Seq<CDEModel>) -> bool {
    &&& distinct_keys(cdes, cde_code())
    &&& forall|i: int| 0 <= i < cdes.len() ==> (#[trigger] cdes[i]).value.wf()
}

impl CDESVariantModel {
    pub open spec fn wf(self) -> bool {
        match self {
            CDESVariantModel::Single(cdes) => cde_map_wf(cdes),
            CDESVariantModel::Multiple(instances) => forall|i: int|
                0 <= i < instances.len() ==> cde_map_wf(#[trigger] instances[i]),
        }
    }
}

impl SectionModel {
    /// The elements are repeated exactly where the section allows it.
    pub open spec fn wf(self) -> bool {
        &&& self.allow_multiple <==> self.cdes is Multiple
        &&& self.cdes.wf()
    }
}

impl FormModel {
    pub open spec fn wf(self) -> bool {
        &&& distinct_keys(self.sections, section_code())
        &&& forall|i: int| 0 <= i < self.sections.len() ==> (#[trigger] self.sections[i]).wf()
    }
}

impl ClinicalDatumModel {
    pub open spec fn wf(self) -> bool {
        &&& distinct_keys(self.forms, form_name())
        &&& forall|i: int| 0 <= i < self.forms.len() ==> (#[trigger] self.forms[i]).wf()
    }

    /// The shape of the record: the set of the names of its forms.
    pub open spec fn proto_context(self) -> Set<Seq<char>> {
        self.forms.map_values(form_name()).to_set()
    }
}

impl PatientSliceModel {
    /// No two records of a slice have the same shape.
    pub open spec fn wf(self) -> bool {
        &&& distinct_keys(self.clinical_data, datum_shape())
        &&& forall|i: int|
            0 <= i < self.clinical_data.len() ==> (#[trigger] self.clinical_data[i]).wf()
    }

    /// Every record of the slice belongs to the slice's patient.
    pub open spec fn one_patient(self) -> bool {
        forall|i: int|
            0 <= i < self.clinical_data.len() ==> (#[trigger] self.clinical_data[i]).patient
                == self.patient
    }
}

impl ClinicalDatum {
    /// The shape of the record: the names of its forms, in their order.
    pub fn proto_context(&self) -> (r: ProtoContext)
        ensures
            r.form_names.deep_view() == self@.forms.map_values(form_name()),
            r@ == self@.proto_context(),
    {
        let mut names: Vec<String> = Vec::new();
        let mut i: usize = 0;
        while i < self.forms.len()
            invariant
                i <= self.forms.len(),
                names@.len() == i,
                forall|k: int| 0 <= k < i ==> names@[k]@ == self.forms@[k].name@,
            decreases self.forms.len() - i,
        {
            names.push(self.forms[i].name.clone());
            i += 1;
        }
        assert(names.deep_view() =~= self@.forms.map_values(form_name()));
        ProtoContext { form_names: names }
    }
}

impl ProtoContext {
    /// Whether two shapes hold the same names.
    pub fn same_as(&self, other: &ProtoContext) -> (r: bool)
        ensures
            r == (self@ == other@),
    {
        same_texts(&self.form_names, &other.form_names)
    }
}

} // verus!
