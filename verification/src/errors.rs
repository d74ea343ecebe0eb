//! Application-level errors: structured validation diagnostics with a
//! machine-readable code, the offending parameter path, and a
//! human-readable reason.

use vstd::prelude::*;

verus! {

/// The machine-readable codes of validation failures.
#[derive(Clone, Copy, Debug, PartialEq, Eq, Structural)]
pub enum ValidationErrorCode {
    MissingRequiredParameter,
    InvalidParamenterValue,
    UnknownError,
}

impl ValidationErrorCode {
    /// The numeric code reported to callers.
    pub open spec fn code_value(&self) -> u32 {
        match self {
            ValidationErrorCode::MissingRequiredParameter => 950200,
            ValidationErrorCode::InvalidParamenterValue => 950201,
            ValidationErrorCode::UnknownError => 950299,
        }
    }

    /// Returns the numeric code reported to callers.
    pub fn as_code(&self) -> (r: u32)
        ensures
            r == self.code_value(),
    {
        match self {
            ValidationErrorCode::MissingRequiredParameter => 950200,
            ValidationErrorCode::InvalidParamenterValue => 950201,
            ValidationErrorCode::UnknownError => 950299,
        }
    }
}

/// The parameter path and reason of a validation failure.
#[derive(Clone, Debug)]
pub struct ErrorDetails {
    pub parameter: String,
    pub reason: String,
}

/// An application error: a storage failure, a validation failure, or a
/// path-decoding failure.
#[derive(Clone, Debug)]
pub enum AppError {
    DbError(String),
    ValidationError(String, u32, Option<ErrorDetails>),
    DecodePathError(String),
}

/// Holds when `e` is a validation error with the invalid-parameter code and
/// the given parameter path and reason.
pub open spec fn is_validation_error(e: AppError, parameter: Seq<char>, reason: Seq<char>) -> bool {
    match e {
        AppError::ValidationError(title, code, details) => title@ == "Validation Error"@ && code
            == 950201 && match details {
            Option::Some(d) => d.parameter@ == parameter && d.reason@ == reason,
            Option::None => false,
        },
        _ => false,
    }
}

impl AppError {
    /// Builds a validation error carrying the given code and details.
    pub fn new_validation_error(code: ValidationErrorCode, details: ErrorDetails) -> (r: AppError)
        ensures
            r == AppError::ValidationError(
                r->ValidationError_0,
                code.code_value(),
                Option::Some(details),
            ),
            r->ValidationError_0@ == "Validation Error"@,
    {
        AppError::ValidationError(
            String::from_str("Validation Error"),
            code.as_code(),
            Option::Some(details),
        )
    }
}

/// Builds the invalid-parameter validation error the validator reports.
pub fn app_error(parameter: String, reason: String) -> (r: AppError)
    ensures
        is_validation_error(r, parameter@, reason@),
{
    AppError::new_validation_error(
        ValidationErrorCode::InvalidParamenterValue,
        ErrorDetails { parameter, reason },
    )
}

} // verus!
