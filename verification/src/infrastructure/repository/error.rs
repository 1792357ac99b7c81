//! How storage failures enter the domain's error taxonomy.

use crate::domain::error::{prints, DomainError};
use vstd::prelude::*;

verus! {

/// A failure reported by the database driver.
#[verifier::external_type_specification]
#[verifier::external_body]
pub struct ExSqlxError(sqlx::Error);

/// Whether `cause` stands for `error`: it prints what `error` prints, and
/// nothing else.
pub open spec fn wraps(cause: anyhow::Error, error: sqlx::Error) -> bool {
    forall|text: String| #[trigger]
        prints(cause, text) == vstd::string::to_string_from_display_ensures::<sqlx::Error>(
            &error,
            text,
        )
}

/// Whether `failure` is what the driver failure `error` becomes in the
/// domain: an infrastructure failure whose cause stands for `error`.
pub open spec fn storage_failure(failure: DomainError, error: sqlx::Error) -> bool {
    failure matches DomainError::Other(cause) && wraps(cause, error)
}

/// Wraps a driver failure with `anyhow::Error::new`, which keeps it as the
/// cause and may attach a backtrace. What is claimed of the result is that
/// it prints as the failure it wraps: the plain `Display` of `anyhow::Error`
/// writes the wrapped error and no more.
#[verifier::external_body]
fn keep_cause(error: sqlx::Error) -> (cause: anyhow::Error)
    ensures
        wraps(cause, error),
{
    anyhow::Error::new(error)
}

impl vstd::std_specs::convert::FromSpecImpl<sqlx::Error> for DomainError {
    /// The wrapped cause may carry a backtrace, so the conversion has no
    /// functional model.
    open spec fn obeys_from_spec() -> bool {
        false
    }

    open spec fn from_spec(error: sqlx::Error) -> Self {
        arbitrary()
    }
}

impl From<sqlx::Error> for DomainError {
    /// Every driver failure is an infrastructure failure that keeps the
    /// driver failure as its cause.
    fn from(error: sqlx::Error) -> (r: Self)
        ensures
            storage_failure(r, error),
    {
        DomainError::Other(keep_cause(error))
    }
}

} // verus!
