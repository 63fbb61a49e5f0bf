//! The body of a response: whether it is the last packet, the status, and
//! the data behind the two, most often a message.

use crate::protocol::status::Status;
use crate::protocol::status::status_of_code;
use std::str::Utf8Error;
use vstd::prelude::*;
use vstd::slice::slice_subrange;
use vstd::slice::slice_to_vec;
use vstd::string::*;
use vstd::utf8::*;

verus! {

/// The error of `std::str::from_utf8`. Nothing is read from it.
#[verifier::external_type_specification]
#[verifier::external_body]
pub struct ExUtf8Error(Utf8Error);

/// `std::str::from_utf8` gives the bytes as a text where they are well-formed
/// UTF-8, and an error where they are not.
pub assume_specification[ std::str::from_utf8 ](v: &[u8]) -> (r: Result<&str, Utf8Error>)
    ensures
        r is Ok <==> valid_utf8(v@),
        r matches Ok(text) ==> text.spec_bytes() == v@,
;

/// The bit of the first byte that marks the last packet of a response.
pub const LAST_PACKET: u8 = 0x80;

/// The body of a response.
#[derive(Debug)]
pub struct ResponseBody {
    last_packet: bool,
    status: Status,
    data: Vec<u8>,
}

/// What a [`ResponseBody`] holds.
pub struct ResponseFields {
    pub last_packet: bool,
    pub status: Status,
    pub data: Seq<u8>,
}

/// Why bytes are no body of a response.
#[derive(Debug, Copy, Clone, PartialEq, Eq, Structural)]
pub enum ResponseBodyErrorKind {
    /// Fewer than two bytes were given.
    TooShort,
    /// The second byte is the code of no status.
    UnknownStatus,
}

/// Bytes that are no body of a response.
#[derive(Debug, Copy, Clone, PartialEq, Eq, Structural)]
pub struct ResponseBodyError {
    pub kind: ResponseBodyErrorKind,
}

/// Whether the upper bit of a byte is set.
pub open spec fn has_last_packet_bit(b: u8) -> bool {
    b >= 0x80
}

/// The body that bytes hold: the upper bit of the first byte says whether
/// this is the last packet, the second byte is the code of the status, and
/// the rest is the data.
pub open spec fn response_parsed(bytes: Seq<u8>) -> Result<ResponseFields, ResponseBodyError> {
    if bytes.len() < 2 {
        Err(ResponseBodyError { kind: ResponseBodyErrorKind::TooShort })
    } else {
        match status_of_code(bytes[1]) {
            None => Err(ResponseBodyError { kind: ResponseBodyErrorKind::UnknownStatus }),
            Some(status) => Ok(
                ResponseFields {
                    last_packet: has_last_packet_bit(bytes[0]),
                    status,
                    data: bytes.subrange(2, bytes.len() as int),
                },
            ),
        }
    }
}

/// What a result of parsing holds.
pub open spec fn response_result(r: Result<ResponseBody, ResponseBodyError>) -> Result<
    ResponseFields,
    ResponseBodyError,
> {
    match r {
        Ok(b) => Ok(b@),
        Err(e) => Err(e),
    }
}

impl View for ResponseBody {
    type V = ResponseFields;

    closed spec fn view(&self) -> ResponseFields {
        ResponseFields { last_packet: self.last_packet, status: self.status, data: self.data@ }
    }
}

impl ResponseBody {
    /// Whether no packet follows this one.
    pub fn last_packet(&self) -> (r: bool)
        ensures
            r == self@.last_packet,
    {
        self.last_packet
    }

    pub fn status(&self) -> (r: Status)
        ensures
            r == self@.status,
    {
        self.status
    }

    /// A copy of the data.
    pub fn data(&self) -> (r: Vec<u8>)
        ensures
            r@ == self@.data,
    {
        slice_to_vec(self.data.as_slice())
    }

    /// The data as a text, where it is well-formed UTF-8.
    pub fn message(&self) -> (r: Result<&str, Utf8Error>)
        ensures
            r is Ok <==> valid_utf8(self@.data),
            r matches Ok(text) ==> text@ == decode_utf8(self@.data),
    {
        let r = std::str::from_utf8(self.data.as_slice());
        proof {
            if let Ok(text) = r {
                encode_utf8_decode_utf8(text@);
            }
        }
        r
    }

    /// The body that bytes hold.
    pub fn try_from(value: &[u8]) -> (r: Result<Self, ResponseBodyError>)
        ensures
            response_result(r) == response_parsed(value@),
    {
        if value.len() < 2 {
            return Err(ResponseBodyError { kind: ResponseBodyErrorKind::TooShort });
        }
        let first: u8 = value[0];
        assert((first & 0x80 > 0) == (first >= 0x80)) by (bit_vector);
        match Status::try_from(value[1]) {
            Ok(status) => Ok(
                ResponseBody {
                    last_packet: first & LAST_PACKET > 0,
                    status,
                    data: slice_to_vec(slice_subrange(value, 2, value.len())),
                },
            ),
            Err(_) => Err(ResponseBodyError { kind: ResponseBodyErrorKind::UnknownStatus }),
        }
    }
}

} // verus!
