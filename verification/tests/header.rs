use knx_client::protocol::action::Action;
use knx_client::protocol::header::Header;
use knx_client::protocol::header::HeaderErrorKind;

#[test]
fn test_read_header() {
    let header = Header::new(1, Action::ReadRequest, 13);

    assert_eq!(header.version(), 1);
    assert_eq!(header.action(), Action::ReadRequest);
    assert_eq!(header.length(), 13);
    assert_eq!(
        header.as_bytes(),
        [
            0x01, // Version
            0x00, // Read Request
            0x0D, // Length
        ]
    );
}

#[test]
fn test_write_header() {
    let header = Header::new(2, Action::WriteRequest, 17);

    assert_eq!(header.version(), 2);
    assert_eq!(header.action(), Action::WriteRequest);
    assert_eq!(header.length(), 17);
    assert_eq!(
        header.as_bytes(),
        [
            0x02, // Version
            0x01, // Write Request
            0x11, // Length
        ]
    );
}

#[test]
fn test_header() {
    let header = Header::try_from(&[0x07, 0x01, 0x08, 0xFF, 0xFF]).unwrap();
    assert_eq!(header, Header::new(7, Action::WriteRequest, 8));
}

#[test]
fn header_too_short() {
    assert_eq!(Header::try_from(&[0x01, 0x00]).unwrap_err().kind, HeaderErrorKind::TooShort);
    assert_eq!(Header::from_slice(&[]).unwrap_err().kind, HeaderErrorKind::TooShort);
}

#[test]
fn header_with_unknown_action() {
    assert_eq!(
        Header::try_from(&[0x01, 0x04, 0x00]).unwrap_err().kind,
        HeaderErrorKind::UnknownAction
    );
}

#[test]
fn header_round_trip() {
    let header = Header::new(1, Action::ReadResponse, 200);
    assert_eq!(Header::from_slice(&header.as_bytes()).unwrap(), header);
}
