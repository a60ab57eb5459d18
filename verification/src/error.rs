//! Errors of operations, by what a caller can do about them.

use vstd::prelude::*;

verus! {

/// What kind of error an operation ended with.
#[derive(Clone, Copy, Debug, PartialEq, Eq, Structural)]
pub enum OpsErrorKind {
    BadRequest,
    Unauthorized,
    Forbidden,
    NotFound,
    Conflict,
    Internal,
}

/// The HTTP status of a kind of error.
pub open spec fn http_status(kind: OpsErrorKind) -> u16 {
    match kind {
        OpsErrorKind::BadRequest => 400,
        OpsErrorKind::Unauthorized => 401,
        OpsErrorKind::Forbidden => 403,
        OpsErrorKind::NotFound => 404,
        OpsErrorKind::Conflict => 409,
        OpsErrorKind::Internal => 500,
    }
}

impl OpsErrorKind {
    /// The HTTP status of this kind of error.
    pub fn status_code(&self) -> (r: u16)
        ensures
            r == http_status(*self),
    {
        match self {
            OpsErrorKind::BadRequest => 400,
            OpsErrorKind::Unauthorized => 401,
            OpsErrorKind::Forbidden => 403,
            OpsErrorKind::NotFound => 404,
            OpsErrorKind::Conflict => 409,
            OpsErrorKind::Internal => 500,
        }
    }
}

/// Different kinds of error have different statuses.
pub proof fn law_statuses_differ(a: OpsErrorKind, b: OpsErrorKind)
    requires
        http_status(a) == http_status(b),
    ensures
        a == b,
{
}

/// An error of an operation.
#[derive(Clone, Debug)]
pub struct OpsError {
    pub kind: OpsErrorKind,
    pub message: String,
}

/// Whether `e` is a refusal of the request with these words.
pub open spec fn is_bad_request(e: OpsError, message: Seq<char>) -> bool {
    e.kind is BadRequest && e.message@ == message
}

/// Whether `e` says that something is missing, with these words.
pub open spec fn is_not_found(e: OpsError, message: Seq<char>) -> bool {
    e.kind is NotFound && e.message@ == message
}

pub(crate) fn bad_request(message: String) -> (e: OpsError)
    ensures
        is_bad_request(e, message@),
{
    OpsError { kind: OpsErrorKind::BadRequest, message }
}

pub(crate) fn not_found(message: String) -> (e: OpsError)
    ensures
        is_not_found(e, message@),
{
    OpsError { kind: OpsErrorKind::NotFound, message }
}

} // verus!
