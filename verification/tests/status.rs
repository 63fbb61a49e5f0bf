use knx_client::protocol::status::Status;

#[test]
fn status_test_byte_representation() {
    assert_eq!(u8::from(Status::Success), 0);
    assert_eq!(u8::from(Status::Error), 1);
    assert_eq!(u8::from(Status::ErrorRequest), 2);
    assert_eq!(u8::from(Status::ErrorTimeout), 3);
    assert_eq!(u8::from(Status::ErrorGroupAddress), 4);
    assert_eq!(u8::from(Status::ErrorDataPointType), 5);
    assert_eq!(u8::from(Status::ErrorClientNotAuthorized), 6);
}

#[test]
fn status_test_conversion() {
    assert_eq!(Status::Success, Status::try_from(u8::from(Status::Success)).unwrap());
    assert_eq!(Status::Error, Status::try_from(u8::from(Status::Error)).unwrap());
    assert_eq!(Status::ErrorRequest, Status::try_from(u8::from(Status::ErrorRequest)).unwrap());
    assert_eq!(Status::ErrorTimeout, Status::try_from(u8::from(Status::ErrorTimeout)).unwrap());
    assert_eq!(
        Status::ErrorGroupAddress,
        Status::try_from(u8::from(Status::ErrorGroupAddress)).unwrap()
    );
    assert_eq!(
        Status::ErrorDataPointType,
        Status::try_from(u8::from(Status::ErrorDataPointType)).unwrap()
    );
    assert_eq!(
        Status::ErrorClientNotAuthorized,
        Status::try_from(u8::from(Status::ErrorClientNotAuthorized)).unwrap()
    );
}

#[test]
fn status_test_try_from_err() {
    assert!(Status::try_from(255).is_err())
}

#[test]
fn status_codes_end_at_six() {
    assert!(Status::try_from(6).is_ok());
    assert!(Status::try_from(7).is_err());
}
