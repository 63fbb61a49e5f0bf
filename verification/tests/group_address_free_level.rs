use knx_client::address::group_address::GroupAddressBytes;
use knx_client::address::group_address::GroupAddressError;
use knx_client::address::group_address::GroupAddressErrorKind::{Invalid, MainOverflow};
use knx_client::address::group_address_free_level::GroupAddressFreeLevel;

#[test]
fn new_1() {
    let group_address = GroupAddressFreeLevel::new(1).unwrap();
    assert_eq!(group_address.address(), 1);
    assert_eq!(group_address.as_bytes(), [0x00, 0x01]);
    assert_eq!(group_address.to_string(), "1");
}

#[test]
fn new_4711() {
    let group_address = GroupAddressFreeLevel::new(4711).unwrap();
    assert_eq!(group_address.address(), 4711);
    assert_eq!(group_address.as_bytes(), [0x12, 0x67]);
    assert_eq!(group_address.to_string(), "4711");
}

#[test]
fn new_65535() {
    let group_address = GroupAddressFreeLevel::new(65535).unwrap();
    assert_eq!(group_address.address(), 65535);
    assert_eq!(group_address.as_bytes(), [0xFF, 0xFF]);
    assert_eq!(group_address.to_string(), "65535");
}

#[test]
fn group_address_free_level_from_bytes_0001() {
    let group_address = GroupAddressFreeLevel::try_from([0x00, 0x01]).unwrap();
    assert_eq!(group_address.address(), 1);
    assert_eq!(group_address.as_bytes(), [0x00, 0x01]);
    assert_eq!(group_address.to_string(), "1");
}

#[test]
fn from_bytes_3c4f() {
    let group_address = GroupAddressFreeLevel::try_from([0x3C, 0x4F]).unwrap();
    assert_eq!(group_address.address(), 15439);
    assert_eq!(group_address.as_bytes(), [0x3C, 0x4F]);
    assert_eq!(group_address.to_string(), "15439");
}

#[test]
fn group_address_free_level_from_bytes_ffff() {
    let group_address = GroupAddressFreeLevel::try_from([0xFF, 0xFF]).unwrap();
    assert_eq!(group_address.address(), 65535);
    assert_eq!(group_address.as_bytes(), [0xFF, 0xFF]);
    assert_eq!(group_address.to_string(), "65535");
}

#[test]
fn group_address_free_level_new_err() {
    // Address 0 is not allowed
    assert_eq!(
        GroupAddressFreeLevel::new(0).err(),
        Some(GroupAddressError::new(Invalid, "Address 0 is not allowed!"))
    );
}

#[test]
fn group_address_free_level_from_bytes_err() {
    // Address 0/0 is not allowed
    assert_eq!(
        GroupAddressFreeLevel::try_from([0x00, 0x00]).err(),
        Some(GroupAddressError::new(
            Invalid,
            "Address [0,0] is not allowed because it would lead to address 0"
        ))
    );
}

#[test]
fn group_address_free_level_from_string() {
    let group_address = GroupAddressFreeLevel::from_str("41733").unwrap();
    assert_eq!(group_address.address(), 41733);
    assert_eq!(group_address.as_bytes(), [0xA3, 0x05]);
}

#[test]
fn group_address_free_level_from_string_err() {
    assert_eq!(
        GroupAddressFreeLevel::from_str("0").err(),
        Some(GroupAddressError::new(Invalid, "Address 0 is not allowed!"))
    );
    assert_eq!(
        GroupAddressFreeLevel::from_str("99999").err(),
        Some(GroupAddressError::new(
            MainOverflow,
            "Address must be between [1-65535], but got: 99999"
        ))
    );
}

#[test]
fn free_level_round_trips() {
    for address in [1u16, 9, 10, 255, 256, 4711, 65535] {
        let a = GroupAddressFreeLevel::new(address).unwrap();
        let decoded = GroupAddressFreeLevel::try_from(a.as_bytes()).unwrap();
        assert_eq!(decoded.address(), address);
        let parsed = GroupAddressFreeLevel::from_str(&a.to_string()).unwrap();
        assert_eq!(parsed.address(), address);
    }
}

#[test]
fn free_level_boundaries() {
    assert!(GroupAddressFreeLevel::from_str("65535").is_ok());
    assert!(GroupAddressFreeLevel::from_str("65536").is_err());
    assert!(GroupAddressFreeLevel::from_str("1").is_ok());
    assert!(GroupAddressFreeLevel::from_str("1/2").is_err());
}
