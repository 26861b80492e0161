//! The error kinds that every operation reports.
use vstd::prelude::*;

verus! {

/// One rejected field: which, a machine-readable code, and a message.
#[derive(Debug, Clone)]
pub struct ValidationError {
    pub field: String,
    pub code: String,
    pub message: String,
}

#[derive(Debug, Clone)]
pub struct ValidationErrors {
    pub errors: Vec<ValidationError>,
}

impl ValidationErrors {
    pub fn single(field: String, code: String, message: String) -> (r: Self)
        ensures
            r.errors@ == seq![(ValidationError { field, code, message })],
    {
        ValidationErrors { errors: vec![ValidationError { field, code, message }] }
    }
}

#[derive(Debug, Clone)]
pub enum AppError {
    InvalidInput { detail: String, errors: Option<ValidationErrors> },
    NotFound { detail: String },
    Conflict { detail: String },
    Gone { detail: String },
    Internal { detail: String },
}

/// `e` rejects one field, with the given detail, code and message.
pub open spec fn rejects_field(
    e: AppError,
    field: Seq<char>,
    code: Seq<char>,
    detail: Seq<char>,
    message: Seq<char>,
) -> bool {
    match e {
        AppError::InvalidInput { detail: d, errors: Some(v) } => {
            &&& d@ == detail
            &&& v.errors@.len() == 1
            &&& v.errors@[0].field@ == field
            &&& v.errors@[0].code@ == code
            &&& v.errors@[0].message@ == message
        },
        _ => false,
    }
}

impl AppError {
    pub fn bad_request(detail: String) -> (r: Self)
        ensures
            r == (AppError::InvalidInput { detail, errors: None }),
    {
        AppError::InvalidInput { detail, errors: None }
    }

    pub fn bad_request_with_errors(detail: String, errors: ValidationErrors) -> (r: Self)
        ensures
            r == (AppError::InvalidInput { detail, errors: Some(errors) }),
    {
        AppError::InvalidInput { detail, errors: Some(errors) }
    }

    pub fn not_found(detail: String) -> (r: Self)
        ensures
            r == (AppError::NotFound { detail }),
    {
        AppError::NotFound { detail }
    }

    pub fn conflict(detail: String) -> (r: Self)
        ensures
            r == (AppError::Conflict { detail }),
    {
        AppError::Conflict { detail }
    }

    pub fn gone(detail: String) -> (r: Self)
        ensures
            r == (AppError::Gone { detail }),
    {
        AppError::Gone { detail }
    }

    pub fn internal(detail: String) -> (r: Self)
        ensures
            r == (AppError::Internal { detail }),
    {
        AppError::Internal { detail }
    }

    /// The HTTP status code that the kind maps to.
    pub fn status(&self) -> (r: u16)
        ensures
            r == match *self {
                AppError::InvalidInput { .. } => 400u16,
                AppError::NotFound { .. } => 404u16,
                AppError::Conflict { .. } => 409u16,
                AppError::Gone { .. } => 410u16,
                AppError::Internal { .. } => 500u16,
            },
    {
        match self {
            AppError::InvalidInput { .. } => 400,
            AppError::NotFound { .. } => 404,
            AppError::Conflict { .. } => 409,
            AppError::Gone { .. } => 410,
            AppError::Internal { .. } => 500,
        }
    }

    /// A short human-readable name of the kind.
    pub fn title(&self) -> (r: &'static str)
        ensures
            r@ == match *self {
                AppError::InvalidInput { .. } => "Invalid input"@,
                AppError::NotFound { .. } => "Not found"@,
                AppError::Conflict { .. } => "Conflict"@,
                AppError::Gone { .. } => "Gone"@,
                AppError::Internal { .. } => "Internal error"@,
            },
    {
        match self {
            AppError::InvalidInput { .. } => "Invalid input",
            AppError::NotFound { .. } => "Not found",
            AppError::Conflict { .. } => "Conflict",
            AppError::Gone { .. } => "Gone",
            AppError::Internal { .. } => "Internal error",
        }
    }

    pub fn detail(&self) -> (r: &str)
        ensures
            r@ == match *self {
                AppError::InvalidInput { detail, .. } => detail@,
                AppError::NotFound { detail } => detail@,
                AppError::Conflict { detail } => detail@,
                AppError::Gone { detail } => detail@,
                AppError::Internal { detail } => detail@,
            },
    {
        match self {
            AppError::InvalidInput { detail, .. } => detail.as_str(),
            AppError::NotFound { detail } => detail.as_str(),
            AppError::Conflict { detail } => detail.as_str(),
            AppError::Gone { detail } => detail.as_str(),
            AppError::Internal { detail } => detail.as_str(),
        }
    }
}

} // verus!
