//! The action carried in the second byte of a frame header.

use vstd::prelude::*;
use vstd::std_specs::convert::FromSpecImpl;
use vstd::std_specs::convert::TryFromSpecImpl;

verus! {

/// What the body of a frame is.
#[derive(Debug, Copy, Clone, PartialEq, Eq, Structural)]
pub enum Action {
    ReadRequest,
    WriteRequest,
    ReadResponse,
    WriteResponse,
}

/// No [`Action`] has the given code.
#[derive(Debug, Copy, Clone, PartialEq, Eq, Structural)]
pub struct UnknownActionError;

/// The code of an action on the wire.
pub open spec fn action_code(action: Action) -> u8 {
    match action {
        Action::ReadRequest => 0,
        Action::WriteRequest => 1,
        Action::ReadResponse => 2,
        Action::WriteResponse => 3,
    }
}

/// The action that a code stands for, where it stands for one.
pub open spec fn action_of_code(code: u8) -> Option<Action> {
    if code == 0 {
        Some(Action::ReadRequest)
    } else if code == 1 {
        Some(Action::WriteRequest)
    } else if code == 2 {
        Some(Action::ReadResponse)
    } else if code == 3 {
        Some(Action::WriteResponse)
    } else {
        None
    }
}

impl TryFrom<u8> for Action {
    type Error = UnknownActionError;

    fn try_from(value: u8) -> (r: Result<Self, Self::Error>) {
        match value {
            0 => Ok(Action::ReadRequest),
            1 => Ok(Action::WriteRequest),
            2 => Ok(Action::ReadResponse),
            3 => Ok(Action::WriteResponse),
            _ => Err(UnknownActionError),
        }
    }
}

impl TryFromSpecImpl<u8> for Action {
    open spec fn obeys_try_from_spec() -> bool {
        true
    }

    open spec fn try_from_spec(v: u8) -> Result<Self, Self::Error> {
        match action_of_code(v) {
            Some(action) => Ok(action),
            None => Err(UnknownActionError),
        }
    }
}

impl From<Action> for u8 {
    fn from(action: Action) -> (r: u8) {
        match action {
            Action::ReadRequest => 0,
            Action::WriteRequest => 1,
            Action::ReadResponse => 2,
            Action::WriteResponse => 3,
        }
    }
}

impl FromSpecImpl<Action> for u8 {
    open spec fn obeys_from_spec() -> bool {
        true
    }

    open spec fn from_spec(v: Action) -> u8 {
        action_code(v)
    }
}

/// Every action is the action of its own code, and a code that stands for an
/// action is the code of that action.
pub proof fn lemma_action_code_roundtrip(action: Action, code: u8)
    ensures
        action_of_code(action_code(action)) == Some(action),
        action_of_code(code) matches Some(a) ==> action_code(a) == code,
        action_of_code(code) is Some <==> code <= 3,
{
}

} // verus!
