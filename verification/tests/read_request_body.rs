use knx_client::protocol::v1::protocol::ProtocolError;
use knx_client::protocol::v1::protocol::ProtocolErrorKind;
use knx_client::protocol::v1::read_request_body::ReadRequestBody;

#[test]
fn read_request_body_test_read_request() {
    assert_eq!(
        ReadRequestBody::as_bytes("1/2/3", "4711.32109").unwrap(),
        [
            0x01, // Protocol Version
            0x00, // Read Request
            0x06, // Body Length (6 octets)
            0x0A, 0x03, // Group Address
            0x12, 0x67, 0x7D, 0x6D // Data Point Type
        ]
    );
}

#[test]
fn read_request_body_alone() {
    assert_eq!(
        ReadRequestBody::body("20/1223", "dpst-1-1").unwrap(),
        [0xA4, 0xC7, 0x00, 0x01, 0x00, 0x01]
    );
}

#[test]
fn read_request_with_invalid_group_address() {
    assert_eq!(
        ReadRequestBody::as_bytes("1/2/3/4", "4711.32109").unwrap_err(),
        ProtocolError::new(ProtocolErrorKind::GroupAddress, "Invalid Group Address: 1/2/3/4")
    );
}

#[test]
fn read_request_with_invalid_datapoint() {
    assert_eq!(
        ReadRequestBody::as_bytes("1/2/3", "ILLEGAL").unwrap_err(),
        ProtocolError::new(ProtocolErrorKind::DataPoint, "Invalid Data Point Type: ILLEGAL")
    );
}

#[test]
fn read_request_reports_the_group_address_first() {
    assert_eq!(
        ReadRequestBody::as_bytes("0", "ILLEGAL").unwrap_err().kind(),
        ProtocolErrorKind::GroupAddress
    );
}
