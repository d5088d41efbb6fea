//! The closed set of failure kinds and the transport status that stands for
//! each.

use vstd::prelude::*;

verus! {

/// Every way in which a request can fail.
#[derive(Clone, Copy, Debug, PartialEq, Eq, Structural)]
pub enum ErrorKind {
    /// A field of the request is empty where a value is needed.
    InvalidInput,
    /// The bearer token is missing, malformed, expired or badly signed, or
    /// names a user that no longer exists.
    Unauthorized,
    /// The login credentials do not match a user.
    Forbidden,
    /// No record has the requested id.
    NotFound,
    /// The username is already taken.
    Conflict,
    /// The uploaded file is not a media container with a duration.
    InvalidMedia,
    /// The object store could not be reached or refused the write.
    StorageUnavailable,
    /// Any other failure of storage or encoding.
    InternalError,
}

/// A failure as it is reported to the caller: its kind and a plain-text
/// message.
#[derive(Clone, Debug, PartialEq, Eq)]
pub struct ApiError {
    pub kind: ErrorKind,
    pub message: String,
}

/// The transport status that stands for each kind.
pub open spec fn status_of(kind: ErrorKind) -> int {
    match kind {
        ErrorKind::InvalidInput => 400,
        ErrorKind::Unauthorized => 401,
        ErrorKind::Forbidden => 403,
        ErrorKind::NotFound => 404,
        ErrorKind::Conflict => 409,
        ErrorKind::InvalidMedia => 422,
        ErrorKind::StorageUnavailable => 503,
        ErrorKind::InternalError => 500,
    }
}

/// The one place where a failure kind is turned into its transport status.
pub fn status_code(kind: ErrorKind) -> (code: u16)
    ensures
        code == status_of(kind),
{
    match kind {
        ErrorKind::InvalidInput => 400,
        ErrorKind::Unauthorized => 401,
        ErrorKind::Forbidden => 403,
        ErrorKind::NotFound => 404,
        ErrorKind::Conflict => 409,
        ErrorKind::InvalidMedia => 422,
        ErrorKind::StorageUnavailable => 503,
        ErrorKind::InternalError => 500,
    }
}

/// Distinct kinds never share a status, and every status is a client or server
/// error.
pub proof fn lemma_status_is_injective(a: ErrorKind, b: ErrorKind)
    ensures
        400 <= status_of(a) < 600,
        status_of(a) == status_of(b) ==> a == b,
{
}

impl ApiError {
    /// A failure of the given kind with the given message.
    pub fn new(kind: ErrorKind, message: &str) -> (e: ApiError)
        ensures
            e.kind == kind,
            e.message@ == message@,
    {
        ApiError { kind, message: message.to_owned() }
    }

    /// The transport status of this failure.
    pub fn status(&self) -> (code: u16)
        ensures
            code == status_of(self.kind),
    {
        status_code(self.kind)
    }
}

/// Reports an unexpected failure of storage or encoding, keeping its text as
/// the message.
pub fn internal_error(message: String) -> (e: ApiError)
    ensures
        e.kind == ErrorKind::InternalError,
        e.message@ == message@,
{
    ApiError { kind: ErrorKind::InternalError, message }
}

/// The failure reported for a record that does not exist.
pub open spec fn is_not_found(e: ApiError) -> bool {
    e.kind == ErrorKind::NotFound && e.message@ == "Not Found"@
}

/// Turns the absence of a record into a `NotFound` failure.
pub trait NotFoundExt<T>: Sized {
    /// The record, if there is one.
    spec fn found(self) -> Option<T>;

    /// `Ok` with the record where there is one, the `NotFound` failure where
    /// there is none.
    fn map_not_found(self) -> (res: Result<T, ApiError>)
        ensures
            match self.found() {
                Some(v) => res == Ok::<T, ApiError>(v),
                None => res is Err && is_not_found(res->Err_0),
            },
    ;
}

impl<T> NotFoundExt<T> for Option<T> {
    open spec fn found(self) -> Option<T> {
        self
    }

    fn map_not_found(self) -> (res: Result<T, ApiError>) {
        match self {
            Some(v) => Ok(v),
            None => Err(ApiError::new(ErrorKind::NotFound, "Not Found")),
        }
    }
}

} // verus!
