//! HTTP status codes and the failures a fetch can end in.

use vstd::prelude::*;

verus! {

/// The status code that is reported with a message of its own.
pub const NOT_FOUND: u16 = 404;

/// How a response is treated, judged by its status code alone.
#[derive(Clone, Copy, Debug, PartialEq, Eq, Structural)]
pub enum StatusClass {
    /// The body is saved.
    Accepted,
    /// The server answered 404.
    NotFound,
    /// Any other client or server error.
    Rejected,
}

/// The local step during which an I/O failure occurred.
#[derive(Clone, Copy, Debug, PartialEq, Eq, Structural)]
pub enum IoStep {
    CreateDirectory,
    CreateFile,
    CopyBody,
}

/// Why a fetch failed.  Every failure is final: nothing is retried.
#[derive(Clone, Copy, Debug, PartialEq, Eq, Structural)]
pub enum FetchError {
    /// No response was obtained: DNS, connection or timeout.
    Transport,
    /// The server answered 404.
    NotFound,
    /// The server answered with another client or server error.
    HttpStatus { status: u16 },
    /// A local directory or file operation failed.
    LocalIo { step: IoStep },
}

/// A client error (4xx) or a server error (5xx).
pub open spec fn is_error_status(status: u16) -> bool {
    400 <= status < 600
}

/// The class of a status code: 404 first, then the error ranges, and every
/// other code accepted.
pub open spec fn classify_spec(status: u16) -> StatusClass {
    if status == NOT_FOUND {
        StatusClass::NotFound
    } else if is_error_status(status) {
        StatusClass::Rejected
    } else {
        StatusClass::Accepted
    }
}

/// The failure that a response with this status ends the fetch with, if any.
pub open spec fn status_failure(status: u16) -> Option<FetchError> {
    match classify_spec(status) {
        StatusClass::Accepted => None,
        StatusClass::NotFound => Some(FetchError::NotFound),
        StatusClass::Rejected => Some(FetchError::HttpStatus { status }),
    }
}

impl FetchError {
    /// `HttpStatus` carries an error status other than 404, which has a
    /// variant of its own.
    pub open spec fn well_formed(self) -> bool {
        self matches FetchError::HttpStatus { status } ==> is_error_status(status) && status
            != NOT_FOUND
    }
}

/// Sorts a status code into its class.  Codes below 400 and codes from 600
/// on are accepted, as informational, success and redirection codes are.
pub fn classify(status: u16) -> (class: StatusClass)
    ensures
        class == classify_spec(status),
{
    if status == NOT_FOUND {
        StatusClass::NotFound
    } else if 400 <= status && status < 600 {
        StatusClass::Rejected
    } else {
        StatusClass::Accepted
    }
}

/// A status fails the fetch exactly when it is an error status, and the
/// failure it gives is well formed and tells 404 apart from the rest.
pub proof fn status_failure_iff_error(status: u16)
    ensures
        status_failure(status) is Some <==> is_error_status(status),
        status_failure(status) == Some(FetchError::NotFound) <==> status == NOT_FOUND,
        status_failure(status) matches Some(error) ==> error.well_formed(),
{
}

} // verus!
