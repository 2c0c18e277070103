//! The error type shared by every request handler, and how each error is
//! answered.

use vstd::prelude::*;

verus! {

/// Why a request failed.
#[derive(Debug, Clone)]
pub enum AppError {
    NotFound,
    EtagMismatch { current: String },
    InvalidPath,
    Unauthorized,
    BadRequest(String),
    Io(String),
    Db(String),
    Internal(String),
}

} // verus!

verus! {

/// The HTTP status each error is answered with.
pub open spec fn status_of(e: AppError) -> u16 {
    match e {
        AppError::NotFound => 404,
        AppError::EtagMismatch { .. } => 412,
        AppError::InvalidPath => 400,
        AppError::Unauthorized => 401,
        AppError::BadRequest(_) => 400,
        AppError::Io(_) => 500,
        AppError::Db(_) => 500,
        AppError::Internal(_) => 500,
    }
}

/// The `error` field of the JSON body each error is answered with.
pub open spec fn code_of(e: AppError) -> Seq<char> {
    match e {
        AppError::NotFound => "not_found"@,
        AppError::EtagMismatch { .. } => "etag_mismatch"@,
        AppError::InvalidPath => "invalid_path"@,
        AppError::Unauthorized => "unauthorized"@,
        AppError::BadRequest(_) => "bad_request"@,
        AppError::Io(_) => "io"@,
        AppError::Db(_) => "db"@,
        AppError::Internal(_) => "internal"@,
    }
}

/// The human-readable text of each error.
pub open spec fn text_of(e: AppError) -> Seq<char> {
    match e {
        AppError::NotFound => "not found"@,
        AppError::EtagMismatch { .. } => "etag mismatch"@,
        AppError::InvalidPath => "invalid path"@,
        AppError::Unauthorized => "unauthorized"@,
        AppError::BadRequest(m) => "bad request: "@ + m@,
        AppError::Io(m) => "io: "@ + m@,
        AppError::Db(m) => "db: "@ + m@,
        AppError::Internal(m) => "internal: "@ + m@,
    }
}

impl AppError {
    /// The HTTP status code of the response.
    pub fn status_code(&self) -> (r: u16)
        ensures
            r == status_of(*self),
    {
        match self {
            AppError::NotFound => 404,
            AppError::EtagMismatch { .. } => 412,
            AppError::InvalidPath => 400,
            AppError::Unauthorized => 401,
            AppError::BadRequest(_) => 400,
            AppError::Io(_) => 500,
            AppError::Db(_) => 500,
            AppError::Internal(_) => 500,
        }
    }

    /// The machine-readable code placed in the response body's `error` field.
    pub fn error_code(&self) -> (r: &'static str)
        ensures
            r@ == code_of(*self),
    {
        match self {
            AppError::NotFound => "not_found",
            AppError::EtagMismatch { .. } => "etag_mismatch",
            AppError::InvalidPath => "invalid_path",
            AppError::Unauthorized => "unauthorized",
            AppError::BadRequest(_) => "bad_request",
            AppError::Io(_) => "io",
            AppError::Db(_) => "db",
            AppError::Internal(_) => "internal",
        }
    }

    /// The error's text, as shown to the admin console.
    pub fn describe(&self) -> (r: String)
        ensures
            r@ == text_of(*self),
    {
        let mut out = String::new();
        match self {
            AppError::NotFound => crate::text::push_str(&mut out, "not found"),
            AppError::EtagMismatch { .. } => crate::text::push_str(&mut out, "etag mismatch"),
            AppError::InvalidPath => crate::text::push_str(&mut out, "invalid path"),
            AppError::Unauthorized => crate::text::push_str(&mut out, "unauthorized"),
            AppError::BadRequest(m) => {
                crate::text::push_str(&mut out, "bad request: ");
                crate::text::push_str(&mut out, m.as_str());
            },
            AppError::Io(m) => {
                crate::text::push_str(&mut out, "io: ");
                crate::text::push_str(&mut out, m.as_str());
            },
            AppError::Db(m) => {
                crate::text::push_str(&mut out, "db: ");
                crate::text::push_str(&mut out, m.as_str());
            },
            AppError::Internal(m) => {
                crate::text::push_str(&mut out, "internal: ");
                crate::text::push_str(&mut out, m.as_str());
            },
        }
        out
    }
}

} // verus!
