//! The errors of building a record from a JSON value.

use vstd::prelude::*;

verus! {

/// Why a JSON value is no clinical record: the field that is missing or of
/// the wrong type, or the list in which a key occurs twice.
#[derive(Clone, Copy, Debug, PartialEq, Eq, Structural)]
pub enum ModelError {
    NotAnObject,
    MissingFields,
    MissingData,
    MissingPk,
    InvalidPk,
    MissingPatient,
    InvalidPatient,
    MissingCollection,
    InvalidCollection,
    MissingRecord,
    MissingForms,
    InvalidForms,
    InvalidForm,
    MissingFormName,
    InvalidFormName,
    MissingFormSections,
    InvalidFormSections,
    DuplicateForms,
    InvalidSection,
    MissingSectionCode,
    InvalidSectionCode,
    MissingSectionAllowMultiple,
    InvalidSectionAllowMultiple,
    MissingSectionCdes,
    InvalidSectionCdes,
    InvalidSectionCdesList,
    DuplicateSections,
    InvalidCde,
    MissingCdeCode,
    InvalidCdeCode,
    MissingCdeValue,
    InvalidCdeValue,
    InvalidRangeCdeValue,
    DuplicateCdes,
    InvalidData,
}

impl ModelError {
    /// The message of the error.
    pub open spec fn text(self) -> Seq<char> {
        match self {
            ModelError::NotAnObject => "Not an object"@,
            ModelError::MissingFields => "Missing fields"@,
            ModelError::MissingData => "Missing data"@,
            ModelError::MissingPk => "Missing PK"@,
            ModelError::InvalidPk => "Invalid PK"@,
            ModelError::MissingPatient => "Missing patient"@,
            ModelError::InvalidPatient => "Invalid patient"@,
            ModelError::MissingCollection => "Missing collection"@,
            ModelError::InvalidCollection => "Invalid collection"@,
            ModelError::MissingRecord => "Missing record"@,
            ModelError::MissingForms => "Missing forms"@,
            ModelError::InvalidForms => "Invalid forms"@,
            ModelError::InvalidForm => "Invalid form"@,
            ModelError::MissingFormName => "Missing form name"@,
            ModelError::InvalidFormName => "Invalid form name"@,
            ModelError::MissingFormSections => "Missing form sections"@,
            ModelError::InvalidFormSections => "Invalid form sections"@,
            ModelError::DuplicateForms => "List of forms contains duplicates"@,
            ModelError::InvalidSection => "Invalid section"@,
            ModelError::MissingSectionCode => "Missing section code"@,
            ModelError::InvalidSectionCode => "Invalid section code"@,
            ModelError::MissingSectionAllowMultiple => "Missing section allow_multiple"@,
            ModelError::InvalidSectionAllowMultiple => "Invalid section allow_multiple"@,
            ModelError::MissingSectionCdes => "Missing section cdes"@,
            ModelError::InvalidSectionCdes => "Invalid section cdes"@,
            ModelError::InvalidSectionCdesList => "Invalid section cdes list"@,
            ModelError::DuplicateSections => "List of sections contains duplicates"@,
            ModelError::InvalidCde => "Invalid cde"@,
            ModelError::MissingCdeCode => "Missing cde code"@,
            ModelError::InvalidCdeCode => "Invalid cde code"@,
            ModelError::MissingCdeValue => "Missing cde value"@,
            ModelError::InvalidCdeValue => "Invalid cde value"@,
            ModelError::InvalidRangeCdeValue => "Invalid range cde value"@,
            ModelError::DuplicateCdes => "List of CDEs contains duplicates"@,
            ModelError::InvalidData => "Invalid data"@,
        }
    }

    /// The message of the error.
    pub fn message(&self) -> (r: &'static str)
        ensures
            r@ == self.text(),
    {
        match self {
            ModelError::NotAnObject => "Not an object",
            ModelError::MissingFields => "Missing fields",
            ModelError::MissingData => "Missing data",
            ModelError::MissingPk => "Missing PK",
            ModelError::InvalidPk => "Invalid PK",
            ModelError::MissingPatient => "Missing patient",
            ModelError::InvalidPatient => "Invalid patient",
            ModelError::MissingCollection => "Missing collection",
            ModelError::InvalidCollection => "Invalid collection",
            ModelError::MissingRecord => "Missing record",
            ModelError::MissingForms => "Missing forms",
            ModelError::InvalidForms => "Invalid forms",
            ModelError::InvalidForm => "Invalid form",
            ModelError::MissingFormName => "Missing form name",
            ModelError::InvalidFormName => "Invalid form name",
            ModelError::MissingFormSections => "Missing form sections",
            ModelError::InvalidFormSections => "Invalid form sections",
            ModelError::DuplicateForms => "List of forms contains duplicates",
            ModelError::InvalidSection => "Invalid section",
            ModelError::MissingSectionCode => "Missing section code",
            ModelError::InvalidSectionCode => "Invalid section code",
            ModelError::MissingSectionAllowMultiple => "Missing section allow_multiple",
            ModelError::InvalidSectionAllowMultiple => "Invalid section allow_multiple",
            ModelError::MissingSectionCdes => "Missing section cdes",
            ModelError::InvalidSectionCdes => "Invalid section cdes",
            ModelError::InvalidSectionCdesList => "Invalid section cdes list",
            ModelError::DuplicateSections => "List of sections contains duplicates",
            ModelError::InvalidCde => "Invalid cde",
            ModelError::MissingCdeCode => "Missing cde code",
            ModelError::InvalidCdeCode => "Invalid cde code",
            ModelError::MissingCdeValue => "Missing cde value",
            ModelError::InvalidCdeValue => "Invalid cde value",
            ModelError::InvalidRangeCdeValue => "Invalid range cde value",
            ModelError::DuplicateCdes => "List of CDEs contains duplicates",
            ModelError::InvalidData => "Invalid data",
        }
    }
}

} // verus!
