//! The request to write values to a group address.

use crate::address::group_address::GroupAddress;
use crate::address::group_address::GroupAddressBytes;
use crate::address::group_address::group_address_fault_text;
use crate::address::group_address::group_address_parsed;
use crate::datapoint::datapoint::DataPoint;
use crate::datapoint::datapoint::datapoint_bytes;
use crate::datapoint::datapoint::datapoint_parsed;
use crate::protocol::action::Action;
use crate::protocol::v1::protocol::Protocol;
use crate::protocol::v1::protocol::ProtocolError;
use crate::protocol::v1::protocol::ProtocolErrorKind;
use crate::protocol::v1::protocol::ProtocolFault;
use crate::protocol::v1::protocol::framed;
use crate::protocol::v1::protocol::protocol_result;
use crate::protocol::v1::protocol::push_all;
use crate::protocol::v1::protocol::texts_bytes;
use crate::protocol::v1::protocol::values_bytes;
use vstd::prelude::*;
use vstd::utf8::*;

verus! {

/// The frame of a write request: the two bytes of the group address, the
/// four bytes of the datapoint type and the bytes of the values, under the
/// header of a write request. The group address is read first; the first of
/// the two that is none gives the error, which says what was wrong with it.
/// A body of more than 255 bytes has no frame.
pub open spec fn write_request(
    group_address: Seq<char>,
    datapoint: Seq<char>,
    values: Seq<Seq<u8>>,
) -> Result<Seq<u8>, ProtocolFault> {
    match group_address_parsed(encode_utf8(group_address)) {
        Err(cause) => Err(
            ProtocolFault {
                kind: ProtocolErrorKind::GroupAddress,
                message: group_address_fault_text(cause),
            },
        ),
        Ok(address) => match datapoint_parsed(datapoint) {
            Err(cause) => Err(
                ProtocolFault {
                    kind: ProtocolErrorKind::DataPoint,
                    message: "Data Point: "@ + cause,
                },
            ),
            Ok(id) => framed(
                Action::WriteRequest,
                address + datapoint_bytes(id) + values_bytes(values),
            ),
        },
    }
}

/// The request to write values to a group address.
pub struct WriteRequestBody {}

impl WriteRequestBody {
    /// The frame of a write request for a group address and a datapoint type
    /// that are given as texts, and the values to write.
    pub fn as_bytes(group_address: &str, datapoint: &str, values: Vec<&str>) -> (r: Result<
        Vec<u8>,
        ProtocolError,
    >)
        ensures
            protocol_result(r) == write_request(
                group_address@,
                datapoint@,
                texts_bytes(values@),
            ),
    {
        let mut body: Vec<u8> = Vec::new();
        // Group Address (2 bytes)
        match GroupAddress::try_from(group_address) {
            Ok(ga) => {
                let bytes = ga.as_bytes();
                push_all(&mut body, bytes.as_slice());
            },
            Err(e) => {
                let text = e.to_string();
                return Err(ProtocolError::new(ProtocolErrorKind::GroupAddress, text.as_str()));
            },
        }
        // Data Point (4 bytes)
        match DataPoint::try_from(datapoint) {
            Ok(dpt) => {
                let bytes = dpt.as_bytes();
                push_all(&mut body, bytes.as_slice());
            },
            Err(e) => {
                let text = e.to_string();
                return Err(ProtocolError::new(ProtocolErrorKind::DataPoint, text.as_str()));
            },
        }
        // Values
        let encoded = Protocol::convert_values_to_utf8_bytes(values);
        push_all(&mut body, encoded.as_slice());
        Protocol::frame(Action::WriteRequest, body.as_slice())
    }
}

} // verus!
