//! The failure vocabulary shared by every layer above storage.

use validator::ValidationErrors;
use vstd::prelude::*;

verus! {

/// The set of rule violations that `validator` collects for one value.
#[verifier::external_type_specification]
#[verifier::external_body]
pub struct ExValidationErrors(validator::ValidationErrors);

/// The type-erased cause that an infrastructure failure carries.
#[verifier::external_type_specification]
#[verifier::external_body]
pub struct ExAnyhowError(anyhow::Error);

/// Every way an operation on tasks can fail.
#[derive(Debug)]
pub enum DomainError {
    /// A value object's rule was violated; the text names the rule.
    Validation(String),
    /// No task has the given identifier.
    NotFound(String),
    /// Storage failed; the cause is kept for diagnostics.
    Other(anyhow::Error),
}

/// Whether `text` is what `validator` prints for `errors`.
pub open spec fn describes(errors: ValidationErrors, text: String) -> bool {
    vstd::string::to_string_from_display_ensures::<ValidationErrors>(&errors, text)
}

/// Whether `text` is what `cause` prints.
pub open spec fn prints(cause: anyhow::Error, text: String) -> bool {
    vstd::string::to_string_from_display_ensures::<anyhow::Error>(&cause, text)
}

impl DomainError {
    /// The text of a failure. For a validation failure it is the description
    /// it carries; for a missing task it names the identifier; for an
    /// infrastructure failure it is what the cause prints.
    pub fn to_string(&self) -> (text: String)
        ensures
            match *self {
                DomainError::Validation(description) => text == description,
                DomainError::NotFound(id) => text@ == "ID "@ + id@ + " not found."@,
                DomainError::Other(cause) => prints(cause, text),
            },
    {
        match self {
            DomainError::Validation(description) => description.clone(),
            DomainError::NotFound(id) => {
                let mut text = String::from_str("ID ");
                text.append(id.as_str());
                text.append(" not found.");
                text
            },
            DomainError::Other(cause) => cause.to_string(),
        }
    }
}

impl vstd::std_specs::convert::FromSpecImpl<ValidationErrors> for DomainError {
    /// The rendered text is not a function of the violations alone, so the
    /// conversion has no functional model.
    open spec fn obeys_from_spec() -> bool {
        false
    }

    open spec fn from_spec(error: ValidationErrors) -> Self {
        arbitrary()
    }
}

impl From<ValidationErrors> for DomainError {
    /// A set of rule violations becomes a validation failure whose text is
    /// what `validator` prints for the set.
    fn from(error: ValidationErrors) -> (r: Self)
        ensures
            r matches DomainError::Validation(text) && describes(error, text),
    {
        DomainError::Validation(error.to_string())
    }
}

} // verus!
