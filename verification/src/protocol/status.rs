//! The status carried in the second byte of a response body.

use vstd::prelude::*;
use vstd::std_specs::convert::FromSpecImpl;
use vstd::std_specs::convert::TryFromSpecImpl;

verus! {

/// Whether a request succeeded and, if it did not, why.
#[derive(Debug, Copy, Clone, PartialEq, Eq, Structural)]
pub enum Status {
    Success,
    Error,
    ErrorRequest,
    ErrorTimeout,
    ErrorGroupAddress,
    ErrorDataPointType,
    ErrorClientNotAuthorized,
}

/// No [`Status`] has the given code.
#[derive(Debug, Copy, Clone, PartialEq, Eq, Structural)]
pub struct UnknownStatusError;

/// The code of a status on the wire.
pub open spec fn status_code(status: Status) -> u8 {
    match status {
        Status::Success => 0,
        Status::Error => 1,
        Status::ErrorRequest => 2,
        Status::ErrorTimeout => 3,
        Status::ErrorGroupAddress => 4,
        Status::ErrorDataPointType => 5,
        Status::ErrorClientNotAuthorized => 6,
    }
}

/// The status that a code stands for, where it stands for one.
pub open spec fn status_of_code(code: u8) -> Option<Status> {
    if code == 0 {
        Some(Status::Success)
    } else if code == 1 {
        Some(Status::Error)
    } else if code == 2 {
        Some(Status::ErrorRequest)
    } else if code == 3 {
        Some(Status::ErrorTimeout)
    } else if code == 4 {
        Some(Status::ErrorGroupAddress)
    } else if code == 5 {
        Some(Status::ErrorDataPointType)
    } else if code == 6 {
        Some(Status::ErrorClientNotAuthorized)
    } else {
        None
    }
}

impl TryFrom<u8> for Status {
    type Error = UnknownStatusError;

    fn try_from(value: u8) -> (r: Result<Self, UnknownStatusError>) {
        match value {
            0 => Ok(Status::Success),
            1 => Ok(Status::Error),
            2 => Ok(Status::ErrorRequest),
            3 => Ok(Status::ErrorTimeout),
            4 => Ok(Status::ErrorGroupAddress),
            5 => Ok(Status::ErrorDataPointType),
            6 => Ok(Status::ErrorClientNotAuthorized),
            _ => Err(UnknownStatusError),
        }
    }
}

impl TryFromSpecImpl<u8> for Status {
    open spec fn obeys_try_from_spec() -> bool {
        true
    }

    open spec fn try_from_spec(v: u8) -> Result<Self, UnknownStatusError> {
        match status_of_code(v) {
            Some(status) => Ok(status),
            None => Err(UnknownStatusError),
        }
    }
}

impl From<Status> for u8 {
    fn from(value: Status) -> (r: u8) {
        match value {
            Status::Success => 0,
            Status::Error => 1,
            Status::ErrorRequest => 2,
            Status::ErrorTimeout => 3,
            Status::ErrorGroupAddress => 4,
            Status::ErrorDataPointType => 5,
            Status::ErrorClientNotAuthorized => 6,
        }
    }
}

impl FromSpecImpl<Status> for u8 {
    open spec fn obeys_from_spec() -> bool {
        true
    }

    open spec fn from_spec(v: Status) -> u8 {
        status_code(v)
    }
}

/// Every status is the status of its own code, and a code stands for a
/// status if and only if it is at most 6; it is then the code of that status.
pub proof fn lemma_status_code_roundtrip(status: Status, code: u8)
    ensures
        status_of_code(status_code(status)) == Some(status),
        status_of_code(code) matches Some(s) ==> status_code(s) == code,
        status_of_code(code) is Some <==> code <= 6,
{
}

} // verus!
