use knx_client::protocol::v1::protocol::ProtocolError;
use knx_client::protocol::v1::protocol::ProtocolErrorKind;
use knx_client::protocol::v1::write_request_body::WriteRequestBody;

#[test]
fn write_request_body_test_write_request() {
    assert_eq!(
        WriteRequestBody::as_bytes("1/2/3", "4711.32109", vec!["Hello", "World"]).unwrap(),
        [
            0x01, // Protocol Version
            0x01, // Write Request
            0x15, // Body Length (21 octets)
            0x0A, 0x03, // Group Address
            0x12, 0x67, 0x7D, 0x6D, // Data Point Type
            b'"', b'H', b'e', b'l', b'l', b'o', b'"', // Values (within double-quote characters)
            b' ', // (Space)
            b'"', b'W', b'o', b'r', b'l', b'd', b'"', // Values, continued
        ]
    );
}

#[test]
fn write_request_without_values() {
    assert_eq!(
        WriteRequestBody::as_bytes("4711", "dpt-1", vec![]).unwrap(),
        [0x01, 0x01, 0x06, 0x12, 0x67, 0x00, 0x01, 0x00, 0x00]
    );
}

#[test]
fn write_request_with_invalid_group_address() {
    assert_eq!(
        WriteRequestBody::as_bytes("32/0/0", "1", vec!["on"]).unwrap_err(),
        ProtocolError::new(
            ProtocolErrorKind::GroupAddress,
            "Group Address: Main must between 0 and 31 but was: 32"
        )
    );
}

#[test]
fn write_request_with_invalid_datapoint() {
    assert_eq!(
        WriteRequestBody::as_bytes("1/2/3", "dpt-x", vec!["on"]).unwrap_err(),
        ProtocolError::new(
            ProtocolErrorKind::DataPoint,
            "Data Point: Wrong data point format. Expected: dpt-#"
        )
    );
}
