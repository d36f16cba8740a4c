use vstd::prelude::*;

verus! {

/// The error categories that every operation of the library reports.
#[derive(Debug, Clone, Copy, PartialEq, Eq, Structural)]
pub enum ApiError {
    /// Missing, malformed, forged or expired credential.
    Unauthenticated,
    /// Input rejected before touching the store (e.g. a short password).
    Validation,
    /// The id, or one of the ancestors needed for assembly, is absent.
    NotFound,
    /// A uniqueness constraint was violated.
    Conflict,
    /// Unexpected failure; no detail is exposed to the caller.
    Internal,
}

pub open spec fn status_of(e: ApiError) -> u16 {
    match e {
        ApiError::Unauthenticated => 401,
        ApiError::Validation => 400,
        ApiError::NotFound => 404,
        ApiError::Conflict => 409,
        ApiError::Internal => 500,
    }
}

impl ApiError {
    /// The HTTP status code that the category maps to.
    pub fn status_code(&self) -> (r: u16)
        ensures
            r == status_of(*self),
    {
        match self {
            ApiError::Unauthenticated => 401,
            ApiError::Validation => 400,
            ApiError::NotFound => 404,
            ApiError::Conflict => 409,
            ApiError::Internal => 500,
        }
    }
}

/// The category of a failed write to the backing store: a uniqueness violation is a
/// `Conflict`, anything else is `Internal`.
pub fn store_failure(unique_violation: bool) -> (r: ApiError)
    ensures
        r == (if unique_violation {
            ApiError::Conflict
        } else {
            ApiError::Internal
        }),
{
    if unique_violation {
        ApiError::Conflict
    } else {
        ApiError::Internal
    }
}

/// The result of a delete statement that affected `rows_affected` rows: none affected is
/// `NotFound`, never a silent success.
pub fn delete_outcome(rows_affected: u64) -> (r: Result<(), ApiError>)
    ensures
        r == (if rows_affected == 0 {
            Err::<(), ApiError>(ApiError::NotFound)
        } else {
            Ok(())
        }),
{
    if rows_affected == 0 {
        Err(ApiError::NotFound)
    } else {
        Ok(())
    }
}

/// An error as it is sent to the caller: a status code and a short message.
pub struct AppError {
    pub code: u16,
    pub message: String,
}

impl AppError {
    pub fn new(code: u16, message: &str) -> (r: AppError)
        ensures
            r.code == code,
            r.message@ == message@,
    {
        AppError { code, message: message.to_string() }
    }
}

} // verus!
