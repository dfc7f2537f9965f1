//! Errors surfaced to callers of the registry's RPC surface, and their mapping
//! onto RPC status codes.
use vstd::prelude::*;

verus! {

/// A failure reported to a caller, with its description.
#[derive(Debug, Clone, PartialEq, Eq)]
pub enum AppError {
    NotFound(String),
    InvalidArgument(String),
    Internal(String),
    Unauthenticated(String),
    PermissionDenied(String),
    AlreadyExists(String),
    /// A database failure, with its description.
    Sqlx(String),
    /// Any other failure, carried by its own text.
    Anyhow(String),
}

/// The RPC status code that an error maps to.
#[derive(Debug, Clone, Copy, PartialEq, Eq, Structural)]
pub enum ErrorCode {
    NotFound,
    InvalidArgument,
    Internal,
    Unauthenticated,
    PermissionDenied,
    AlreadyExists,
}

/// Status code of each kind of error.
pub open spec fn code_of(e: AppError) -> ErrorCode {
    match e {
        AppError::NotFound(_) => ErrorCode::NotFound,
        AppError::InvalidArgument(_) => ErrorCode::InvalidArgument,
        AppError::Internal(_) => ErrorCode::Internal,
        AppError::Unauthenticated(_) => ErrorCode::Unauthenticated,
        AppError::PermissionDenied(_) => ErrorCode::PermissionDenied,
        AppError::AlreadyExists(_) => ErrorCode::AlreadyExists,
        AppError::Sqlx(_) => ErrorCode::Internal,
        AppError::Anyhow(_) => ErrorCode::Internal,
    }
}

/// Text of an error: a lower-case label, `": "`, then its description.
pub open spec fn error_text(e: AppError) -> Seq<char> {
    match e {
        AppError::NotFound(d) => "not found: "@ + d@,
        AppError::InvalidArgument(d) => "invalid argument: "@ + d@,
        AppError::Internal(d) => "internal: "@ + d@,
        AppError::Unauthenticated(d) => "unauthenticated: "@ + d@,
        AppError::PermissionDenied(d) => "permission denied: "@ + d@,
        AppError::AlreadyExists(d) => "already exists: "@ + d@,
        AppError::Sqlx(d) => "database: "@ + d@,
        AppError::Anyhow(d) => d@,
    }
}

/// `label` followed by `detail`.
fn labelled(label: &str, detail: &String) -> (r: String)
    ensures
        r@ == label@ + detail@,
{
    let mut r = String::from_str(label);
    r.append(detail.as_str());
    r
}

impl AppError {
    /// The status code this error maps to.
    pub fn code(&self) -> (r: ErrorCode)
        ensures
            r == code_of(*self),
    {
        match self {
            AppError::NotFound(_) => ErrorCode::NotFound,
            AppError::InvalidArgument(_) => ErrorCode::InvalidArgument,
            AppError::Internal(_) => ErrorCode::Internal,
            AppError::Unauthenticated(_) => ErrorCode::Unauthenticated,
            AppError::PermissionDenied(_) => ErrorCode::PermissionDenied,
            AppError::AlreadyExists(_) => ErrorCode::AlreadyExists,
            AppError::Sqlx(_) => ErrorCode::Internal,
            AppError::Anyhow(_) => ErrorCode::Internal,
        }
    }

    /// The text of this error, such as `not found: user 42`.
    pub fn to_string(&self) -> (r: String)
        ensures
            r@ == error_text(*self),
    {
        match self {
            AppError::NotFound(d) => labelled("not found: ", d),
            AppError::InvalidArgument(d) => labelled("invalid argument: ", d),
            AppError::Internal(d) => labelled("internal: ", d),
            AppError::Unauthenticated(d) => labelled("unauthenticated: ", d),
            AppError::PermissionDenied(d) => labelled("permission denied: ", d),
            AppError::AlreadyExists(d) => labelled("already exists: ", d),
            AppError::Sqlx(d) => labelled("database: ", d),
            AppError::Anyhow(d) => d.clone(),
        }
    }

    /// The RPC status carrying this error's code and text.
    pub fn into_status(self) -> (r: tonic::Status)
        ensures
            status_code_of(r) == code_of(self),
            status_text_of(r) == error_text(self),
    {
        let code = self.code();
        let text = self.to_string();
        rpc_status(code, text)
    }
}

#[verifier::external_type_specification]
#[verifier::external_body]
pub struct ExStatus(tonic::Status);

/// The code a `tonic::Status` carries, by the name of its `tonic::Code`.
pub uninterp spec fn status_code_of(s: tonic::Status) -> ErrorCode;

/// The message a `tonic::Status` carries.
pub uninterp spec fn status_text_of(s: tonic::Status) -> Seq<char>;

/// Relies on `tonic::Status::new`, given the `tonic::Code` of the same name as
/// `code`: the status keeps the code and message it is given.
#[verifier::external_body]
fn rpc_status(code: ErrorCode, text: String) -> (r: tonic::Status)
    ensures
        status_code_of(r) == code,
        status_text_of(r) == text@,
{
    let code = match code {
        ErrorCode::NotFound => tonic::Code::NotFound,
        ErrorCode::InvalidArgument => tonic::Code::InvalidArgument,
        ErrorCode::Internal => tonic::Code::Internal,
        ErrorCode::Unauthenticated => tonic::Code::Unauthenticated,
        ErrorCode::PermissionDenied => tonic::Code::PermissionDenied,
        ErrorCode::AlreadyExists => tonic::Code::AlreadyExists,
    };
    tonic::Status::new(code, text)
}

} // verus!
