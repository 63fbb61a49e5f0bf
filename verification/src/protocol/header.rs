//! The header of a frame: three bytes that give the version of the protocol,
//! the action and the length of the body.

use crate::protocol::action::Action;
use crate::protocol::action::action_code;
use crate::protocol::action::action_of_code;
use vstd::prelude::*;

verus! {

/// The header of a frame.
///
/// ```text
///             +-7-+-6-+-5-+-4-+-3-+-2-+-1-+-0-+
/// byte 0      | Version                       |
/// byte 1      | Action                        |
/// byte 2      | Length of the body            |
///             +---+---+---+---+---+---+---+---+
/// ```
#[derive(Debug, PartialEq, Eq, Structural)]
pub struct Header {
    version: u8,
    action: Action,
    length: u8,
}

/// What a [`Header`] holds.
pub struct HeaderFields {
    pub version: u8,
    pub action: Action,
    pub length: u8,
}

/// Why bytes are no header.
#[derive(Debug, Copy, Clone, PartialEq, Eq, Structural)]
pub enum HeaderErrorKind {
    /// Fewer than three bytes were given.
    TooShort,
    /// The second byte is the code of no action.
    UnknownAction,
}

/// Bytes that are no header.
#[derive(Debug, Copy, Clone, PartialEq, Eq, Structural)]
pub struct HeaderError {
    pub kind: HeaderErrorKind,
}

/// The three bytes of a header.
pub open spec fn header_bytes(h: HeaderFields) -> Seq<u8> {
    seq![h.version, action_code(h.action), h.length]
}

/// The header at the start of a sequence of bytes. What follows the third
/// byte is not looked at.
pub open spec fn header_parsed(bytes: Seq<u8>) -> Result<HeaderFields, HeaderError> {
    if bytes.len() < 3 {
        Err(HeaderError { kind: HeaderErrorKind::TooShort })
    } else {
        match action_of_code(bytes[1]) {
            Some(action) => Ok(HeaderFields { version: bytes[0], action, length: bytes[2] }),
            None => Err(HeaderError { kind: HeaderErrorKind::UnknownAction }),
        }
    }
}

/// What a result of parsing holds.
pub open spec fn header_result(r: Result<Header, HeaderError>) -> Result<
    HeaderFields,
    HeaderError,
> {
    match r {
        Ok(h) => Ok(h@),
        Err(e) => Err(e),
    }
}

impl View for Header {
    type V = HeaderFields;

    closed spec fn view(&self) -> HeaderFields {
        HeaderFields { version: self.version, action: self.action, length: self.length }
    }
}

impl Header {
    pub fn new(version: u8, action: Action, length: u8) -> (r: Self)
        ensures
            r@ == (HeaderFields { version, action, length }),
    {
        Header { version, action, length }
    }

    /// The three bytes of the header.
    pub fn as_bytes(&self) -> (r: [u8; 3])
        ensures
            r@ == header_bytes(self@),
    {
        let mut bytes = [0u8; 3];
        bytes[0] = self.version;
        bytes[1] = self.action.into();
        bytes[2] = self.length;
        assert(bytes@ =~= header_bytes(self@));
        bytes
    }

    /// The version of the protocol.
    pub fn version(&self) -> (r: u8)
        ensures
            r == self@.version,
    {
        self.version
    }

    /// What the body of the frame is.
    pub fn action(&self) -> (r: Action)
        ensures
            r == self@.action,
    {
        self.action
    }

    /// The length of the body in bytes.
    pub fn length(&self) -> (r: u8)
        ensures
            r == self@.length,
    {
        self.length
    }

    /// The header at the start of a slice of at least three bytes.
    pub fn from_slice(value: &[u8]) -> (r: Result<Self, HeaderError>)
        ensures
            header_result(r) == header_parsed(value@),
    {
        if value.len() < 3 {
            return Err(HeaderError { kind: HeaderErrorKind::TooShort });
        }
        match Action::try_from(value[1]) {
            Ok(action) => Ok(Header::new(value[0], action, value[2])),
            Err(_) => Err(HeaderError { kind: HeaderErrorKind::UnknownAction }),
        }
    }

    /// The header at the start of an array of at least three bytes.
    pub fn try_from<const N: usize>(value: &[u8; N]) -> (r: Result<Self, HeaderError>)
        ensures
            header_result(r) == header_parsed(value@),
    {
        Header::from_slice(value.as_slice())
    }
}

/// Parsing the bytes of a header gives the header back, whatever follows
/// them.
pub proof fn lemma_header_parse_bytes(h: HeaderFields, rest: Seq<u8>)
    ensures
        header_parsed(header_bytes(h) + rest) == Ok::<HeaderFields, HeaderError>(h),
{
}

} // verus!
