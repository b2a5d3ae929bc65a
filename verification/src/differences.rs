//! What a comparison reports: one type of difference for each level of a
//! record, each with its model.

use crate::clinical_data::{
    CDEModel,
    CDESVariant,
    CDESVariantModel,
    CDEValue,
    CDEValueModel,
    ClinicalDatum,
    ClinicalDatumModel,
    ClinicalDatumVariant,
    Form,
    FormModel,
    ProtoContext,
    Section,
    SectionModel,
    CDE,
};
use vstd::prelude::*;

verus! {

#[derive(Debug)]
pub enum CDEDifferenceType<'a> {
    /// The element stands on one side only.
    Missing(Option<&'a CDE>, Option<&'a CDE>),
    /// The two values are of different variants.
    Variant(&'a CDEValue, &'a CDEValue),
    /// The two values are of one variant and differ.
    Equality(&'a CDEValue, &'a CDEValue),
}

#[derive(Debug)]
pub struct CDEDifference<'a> {
    pub code: &'a str,
    pub diff: CDEDifferenceType<'a>,
}

#[derive(Debug)]
pub enum SectionDifferenceType<'a> {
    Missing(Option<&'a Section>, Option<&'a Section>),
    Code(&'a str, &'a str),
    AllowMultiple(bool, bool),
    Variant(&'a CDESVariant, &'a CDESVariant),
    CDEs(Vec<CDEDifference<'a>>),
}

#[derive(Debug)]
pub struct SectionDifference<'a> {
    pub code: &'a str,
    pub diff: SectionDifferenceType<'a>,
}

#[derive(Debug)]
pub enum FormDifferenceType<'a> {
    Missing(Option<&'a Form>, Option<&'a Form>),
    Name(&'a str, &'a str),
    Sections(Vec<SectionDifference<'a>>),
}

#[derive(Debug)]
pub struct FormDifference<'a> {
    pub name: &'a str,
    pub diff: FormDifferenceType<'a>,
}

#[derive(Debug)]
pub enum ClinicalDatumDifferenceType<'a> {
    Missing(Option<&'a ClinicalDatum>, Option<&'a ClinicalDatum>),
    Patient(u32, u32),
    Variant(&'a ClinicalDatumVariant, &'a ClinicalDatumVariant),
    Forms(Vec<FormDifference<'a>>),
}

#[derive(Debug)]
pub struct ClinicalDatumDifference<'a> {
    pub proto_context: ProtoContext,
    pub diff: ClinicalDatumDifferenceType<'a>,
}

#[derive(Debug)]
pub enum PatientSliceDifferenceType<'a> {
    Patient(u32, u32),
    ClinicalData(Vec<ClinicalDatumDifference<'a>>),
}

#[derive(Debug)]
pub struct PatientSliceDifference<'a> {
    pub patient: u32,
    /// The ids of the left slice's records, ascending, with commas between.
    pub ids: String,
    pub diff: PatientSliceDifferenceType<'a>,
}

pub enum CDEDifferenceTypeModel {
    Missing(Option<CDEModel>, Option<CDEModel>),
    Variant(CDEValueModel, CDEValueModel),
    Equality(CDEValueModel, CDEValueModel),
}

pub struct CDEDifferenceModel {
    pub code: Seq<char>,
    pub diff: CDEDifferenceTypeModel,
}

pub enum SectionDifferenceTypeModel {
    Missing(Option<SectionModel>, Option<SectionModel>),
    Code(Seq<char>, Seq<char>),
    AllowMultiple(bool, bool),
    Variant(CDESVariantModel, CDESVariantModel),
    CDEs(Seq<CDEDifferenceModel>),
}

pub struct SectionDifferenceModel {
    pub code: Seq<char>,
    pub diff: SectionDifferenceTypeModel,
}

pub enum FormDifferenceTypeModel {
    Missing(Option<FormModel>, Option<FormModel>),
    Name(Seq<char>, Seq<char>),
    Sections(Seq<SectionDifferenceModel>),
}

pub struct FormDifferenceModel {
    pub name: Seq<char>,
    pub diff: FormDifferenceTypeModel,
}

pub enum ClinicalDatumDifferenceTypeModel {
    Missing(Option<ClinicalDatumModel>, Option<ClinicalDatumModel>),
    Patient(u32, u32),
    Variant(ClinicalDatumVariant, ClinicalDatumVariant),
    Forms(Seq<FormDifferenceModel>),
}

pub struct ClinicalDatumDifferenceModel {
    pub proto_context: Set<Seq<char>>,
    pub diff: ClinicalDatumDifferenceTypeModel,
}

pub enum PatientSliceDifferenceTypeModel {
    Patient(u32, u32),
    ClinicalData(Seq<ClinicalDatumDifferenceModel>),
}

pub struct PatientSliceDifferenceModel {
    pub patient: u32,
    pub ids: Seq<char>,
    pub diff: PatientSliceDifferenceTypeModel,
}

/// The model of an entry that may be absent.
pub open spec fn optional<T: DeepView>(o: Option<&T>) -> Option<T::V> {
    match o {
        Some(t) => Some(t.deep_view()),
        None => None,
    }
}

impl<'a> DeepView for CDEDifferenceType<'a> {
    type V = CDEDifferenceTypeModel;

    open spec fn deep_view(&self) -> CDEDifferenceTypeModel {
        match self {
            CDEDifferenceType::Missing(l, r) => CDEDifferenceTypeModel::Missing(
                optional(*l),
                optional(*r),
            ),
            CDEDifferenceType::Variant(l, r) => CDEDifferenceTypeModel::Variant(l@, r@),
            CDEDifferenceType::Equality(l, r) => CDEDifferenceTypeModel::Equality(l@, r@),
        }
    }
}

impl<'a> DeepView for CDEDifference<'a> {
    type V = CDEDifferenceModel;

    open spec fn deep_view(&self) -> CDEDifferenceModel {
        CDEDifferenceModel { code: self.code@, diff: self.diff.deep_view() }
    }
}

impl<'a> DeepView for SectionDifferenceType<'a> {
    type V = SectionDifferenceTypeModel;

    open spec fn deep_view(&self) -> SectionDifferenceTypeModel {
        match self {
            SectionDifferenceType::Missing(l, r) => SectionDifferenceTypeModel::Missing(
                optional(*l),
                optional(*r),
            ),
            SectionDifferenceType::Code(l, r) => SectionDifferenceTypeModel::Code(l@, r@),
            SectionDifferenceType::AllowMultiple(l, r) => SectionDifferenceTypeModel::AllowMultiple(
                *l,
                *r,
            ),
            SectionDifferenceType::Variant(l, r) => SectionDifferenceTypeModel::Variant(l@, r@),
            SectionDifferenceType::CDEs(d) => SectionDifferenceTypeModel::CDEs(d.deep_view()),
        }
    }
}

impl<'a> DeepView for SectionDifference<'a> {
    type V = SectionDifferenceModel;

    open spec fn deep_view(&self) -> SectionDifferenceModel {
        SectionDifferenceModel { code: self.code@, diff: self.diff.deep_view() }
    }
}

impl<'a> DeepView for FormDifferenceType<'a> {
    type V = FormDifferenceTypeModel;

    open spec fn deep_view(&self) -> FormDifferenceTypeModel {
        match self {
            FormDifferenceType::Missing(l, r) => FormDifferenceTypeModel::Missing(
                optional(*l),
                optional(*r),
            ),
            FormDifferenceType::Name(l, r) => FormDifferenceTypeModel::Name(l@, r@),
            FormDifferenceType::Sections(d) => FormDifferenceTypeModel::Sections(d.deep_view()),
        }
    }
}

impl<'a> DeepView for FormDifference<'a> {
    type V = FormDifferenceModel;

    open spec fn deep_view(&self) -> FormDifferenceModel {
        FormDifferenceModel { name: self.name@, diff: self.diff.deep_view() }
    }
}

impl<'a> DeepView for ClinicalDatumDifferenceType<'a> {
    type V = ClinicalDatumDifferenceTypeModel;

    open spec fn deep_view(&self) -> ClinicalDatumDifferenceTypeModel {
        match self {
            ClinicalDatumDifferenceType::Missing(
                l,
                r,
            ) => ClinicalDatumDifferenceTypeModel::Missing(optional(*l), optional(*r)),
            ClinicalDatumDifferenceType::Patient(
                l,
                r,
            ) => ClinicalDatumDifferenceTypeModel::Patient(*l, *r),
            ClinicalDatumDifferenceType::Variant(
                l,
                r,
            ) => ClinicalDatumDifferenceTypeModel::Variant(**l, **r),
            ClinicalDatumDifferenceType::Forms(d) => ClinicalDatumDifferenceTypeModel::Forms(
                d.deep_view(),
            ),
        }
    }
}

impl<'a> DeepView for ClinicalDatumDifference<'a> {
    type V = ClinicalDatumDifferenceModel;

    open spec fn deep_view(&self) -> ClinicalDatumDifferenceModel {
        ClinicalDatumDifferenceModel {
            proto_context: self.proto_context@,
            diff: self.diff.deep_view(),
        }
    }
}

impl<'a> DeepView for PatientSliceDifferenceType<'a> {
    type V = PatientSliceDifferenceTypeModel;

    open spec fn deep_view(&self) -> PatientSliceDifferenceTypeModel {
        match self {
            PatientSliceDifferenceType::Patient(
                l,
                r,
            ) => PatientSliceDifferenceTypeModel::Patient(*l, *r),
            PatientSliceDifferenceType::ClinicalData(
                d,
            ) => PatientSliceDifferenceTypeModel::ClinicalData(d.deep_view()),
        }
    }
}

impl<'a> DeepView for PatientSliceDifference<'a> {
    type V = PatientSliceDifferenceModel;

    open spec fn deep_view(&self) -> PatientSliceDifferenceModel {
        PatientSliceDifferenceModel {
            patient: self.patient,
            ids: self.ids@,
            diff: self.diff.deep_view(),
        }
    }
}

} // verus!
