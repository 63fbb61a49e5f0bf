//! The request to read a group address.

use crate::address::group_address::GroupAddress;
use crate::address::group_address::GroupAddressBytes;
use crate::address::group_address::group_address_parsed;
use crate::datapoint::datapoint::DataPoint;
use crate::datapoint::datapoint::datapoint_bytes;
use crate::datapoint::datapoint::datapoint_parsed;
use crate::protocol::action::Action;
use crate::protocol::v1::protocol::Protocol;
use crate::protocol::v1::protocol::ProtocolError;
use crate::protocol::v1::protocol::ProtocolErrorKind;
use crate::protocol::v1::protocol::ProtocolFault;
use crate::protocol::v1::protocol::framed;
use crate::protocol::v1::protocol::protocol_result;
use crate::protocol::v1::protocol::push_all;
use vstd::prelude::*;
use vstd::utf8::*;

verus! {

/// The error of a read request whose group address is none: it quotes the
/// text.
pub open spec fn invalid_group_address(text: Seq<char>) -> ProtocolFault {
    ProtocolFault {
        kind: ProtocolErrorKind::GroupAddress,
        message: "Invalid Group Address: "@ + text,
    }
}

/// The error of a read request whose datapoint type is none: it quotes the
/// text.
pub open spec fn invalid_datapoint(text: Seq<char>) -> ProtocolFault {
    ProtocolFault {
        kind: ProtocolErrorKind::DataPoint,
        message: "Invalid Data Point Type: "@ + text,
    }
}

/// The body of a read request: the two bytes of the group address, then the
/// four bytes of the datapoint type. The group address is read first; the
/// first of the two that is none gives the error.
pub open spec fn read_request_body(group_address: Seq<char>, datapoint: Seq<char>) -> Result<
    Seq<u8>,
    ProtocolFault,
> {
    match group_address_parsed(encode_utf8(group_address)) {
        Err(_) => Err(invalid_group_address(group_address)),
        Ok(address) => match datapoint_parsed(datapoint) {
            Err(_) => Err(invalid_datapoint(datapoint)),
            Ok(id) => Ok(address + datapoint_bytes(id)),
        },
    }
}

/// The frame of a read request: its body under the header of a read request.
pub open spec fn read_request(group_address: Seq<char>, datapoint: Seq<char>) -> Result<
    Seq<u8>,
    ProtocolFault,
> {
    match read_request_body(group_address, datapoint) {
        Err(e) => Err(e),
        Ok(body) => framed(Action::ReadRequest, body),
    }
}

/// The body of a read request is six bytes long, so it always has a frame,
/// and the frame is nine bytes long.
pub proof fn lemma_read_request_length(group_address: Seq<char>, datapoint: Seq<char>)
    ensures
        read_request_body(group_address, datapoint) matches Ok(body) ==> body.len() == 6 && (
        read_request(group_address, datapoint) matches Ok(bytes) && bytes.len() == 9 && bytes[0]
            == 1 && bytes[1] == 0 && bytes[2] == 6),
{
    lemma_group_address_parsed_length(encode_utf8(group_address));
}

/// The bytes of a parsed group address are two.
pub proof fn lemma_group_address_parsed_length(text: Seq<u8>)
    ensures
        group_address_parsed(text) matches Ok(address) ==> address.len() == 2,
{
}

/// The request to read a group address.
pub struct ReadRequestBody {}

impl ReadRequestBody {
    /// The body of a read request for a group address and a datapoint type
    /// that are given as texts.
    pub fn body(group_address: &str, datapoint: &str) -> (r: Result<Vec<u8>, ProtocolError>)
        ensures
            protocol_result(r) == read_request_body(group_address@, datapoint@),
    {
        let mut body: Vec<u8> = Vec::new();
        // Group Address (2 bytes)
        match GroupAddress::try_from(group_address) {
            Ok(ga) => {
                let bytes = ga.as_bytes();
                push_all(&mut body, bytes.as_slice());
            },
            Err(_) => {
                return Err(
                    ProtocolError::with_text(
                        ProtocolErrorKind::GroupAddress,
                        "Invalid Group Address: ",
                        group_address,
                    ),
                );
            },
        }
        // Data Point (4 bytes)
        match DataPoint::try_from(datapoint) {
            Ok(dpt) => {
                let bytes = dpt.as_bytes();
                push_all(&mut body, bytes.as_slice());
            },
            Err(_) => {
                return Err(
                    ProtocolError::with_text(
                        ProtocolErrorKind::DataPoint,
                        "Invalid Data Point Type: ",
                        datapoint,
                    ),
                );
            },
        }
        Ok(body)
    }

    /// The frame of a read request for a group address and a datapoint type
    /// that are given as texts.
    pub fn as_bytes(group_address: &str, datapoint: &str) -> (r: Result<Vec<u8>, ProtocolError>)
        ensures
            protocol_result(r) == read_request(group_address@, datapoint@),
    {
        match ReadRequestBody::body(group_address, datapoint) {
            Ok(body) => Protocol::frame(Action::ReadRequest, body.as_slice()),
            Err(e) => Err(e),
        }
    }
}

} // verus!
