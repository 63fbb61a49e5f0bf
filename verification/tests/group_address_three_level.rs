use knx_client::address::group_address::GroupAddressBytes;
use knx_client::address::group_address::GroupAddressError;
use knx_client::address::group_address::GroupAddressErrorKind::{
    Invalid, MainOverflow, MiddleOverflow, SubOverflow,
};
use knx_client::address::group_address_three_level::GroupAddressThreeLevel;

#[test]
fn new_0_0_1() {
    let group_address = GroupAddressThreeLevel::new(0, 0, 1).unwrap();
    assert_eq!(group_address.main(), 0);
    assert_eq!(group_address.middle(), 0);
    assert_eq!(group_address.sub(), 1);
    assert_eq!(group_address.as_bytes(), [0x00, 0x01]);
    assert_eq!(group_address.to_string(), "0/0/1");
}

#[test]
fn new_7_3_128() {
    let group_address = GroupAddressThreeLevel::new(7, 3, 128).unwrap();
    assert_eq!(group_address.main(), 7);
    assert_eq!(group_address.middle(), 3);
    assert_eq!(group_address.sub(), 128);
    assert_eq!(group_address.as_bytes(), [0x3B, 0x80]);
    assert_eq!(group_address.to_string(), "7/3/128");
}

#[test]
fn new_31_7_255() {
    let group_address = GroupAddressThreeLevel::new(31, 7, 255).unwrap();
    assert_eq!(group_address.main(), 31);
    assert_eq!(group_address.middle(), 7);
    assert_eq!(group_address.sub(), 255);
    assert_eq!(group_address.as_bytes(), [0xFF, 0xFF]);
    assert_eq!(group_address.to_string(), "31/7/255");
}

#[test]
fn group_address_three_level_from_bytes_0001() {
    let group_address = GroupAddressThreeLevel::try_from([0x00, 0x01]).unwrap();
    assert_eq!(group_address.main(), 0);
    assert_eq!(group_address.middle(), 0);
    assert_eq!(group_address.sub(), 1);
    assert_eq!(group_address.as_bytes(), [0x00, 0x01]);
    assert_eq!(group_address.to_string(), "0/0/1");
}

#[test]
fn from_bytes_3b80() {
    let group_address = GroupAddressThreeLevel::try_from([0x3B, 0x80]).unwrap();
    assert_eq!(group_address.main(), 7);
    assert_eq!(group_address.middle(), 3);
    assert_eq!(group_address.sub(), 128);
    assert_eq!(group_address.as_bytes(), [0x3B, 0x80]);
    assert_eq!(group_address.to_string(), "7/3/128");
}

#[test]
fn group_address_three_level_from_bytes_ffff() {
    let group_address = GroupAddressThreeLevel::try_from([0xFF, 0xFF]).unwrap();
    assert_eq!(group_address.main(), 31);
    assert_eq!(group_address.middle(), 7);
    assert_eq!(group_address.sub(), 255);
    assert_eq!(group_address.as_bytes(), [0xFF, 0xFF]);
    assert_eq!(group_address.to_string(), "31/7/255");
}

#[test]
fn group_address_three_level_new_err() {
    // Address 0/0 is not allowed
    assert_eq!(
        GroupAddressThreeLevel::new(0, 0, 0).err(),
        Some(GroupAddressError::new(Invalid, "Address 0/0/0 is not allowed!"))
    );

    // main should have only 0-31
    assert_eq!(
        GroupAddressThreeLevel::new(32, 0, 0).err(),
        Some(GroupAddressError::new(MainOverflow, "Main must between 0 and 31 but was: 32"))
    );

    // middle should have only 0-7
    assert_eq!(
        GroupAddressThreeLevel::new(0, 8, 0).err(),
        Some(GroupAddressError::new(MiddleOverflow, "Middle must between 0 and 7 but was: 8"))
    );
}

#[test]
fn group_address_three_level_from_bytes_err() {
    // Address 0/0/0 is not allowed
    assert_eq!(
        GroupAddressThreeLevel::try_from([0x00, 0x00]).err(),
        Some(GroupAddressError::new(
            Invalid,
            "Address [0,0] is not allowed because it would lead to address 0/0/0"
        ))
    );
}

#[test]
fn group_address_three_level_from_string() {
    let group_address = GroupAddressThreeLevel::from_str("1/2/3").unwrap();
    assert_eq!(group_address.main(), 1);
    assert_eq!(group_address.middle(), 2);
    assert_eq!(group_address.sub(), 3);
    assert_eq!(group_address.as_bytes(), [0x0A, 0x03]);
}

#[test]
fn group_address_three_level_from_string_err() {
    assert_eq!(
        GroupAddressThreeLevel::from_str("0/0/0").err(),
        Some(GroupAddressError::new(Invalid, "Address 0/0/0 is not allowed!"))
    );
    assert_eq!(
        GroupAddressThreeLevel::from_str("99999/0/0").err(),
        Some(GroupAddressError::new(MainOverflow, "Main must between 0 and 31 but was: 99999"))
    );
    assert_eq!(
        GroupAddressThreeLevel::from_str("0/99999/0").err(),
        Some(GroupAddressError::new(MiddleOverflow, "Middle must between 0 and 7 but was: 99999"))
    );
    assert_eq!(
        GroupAddressThreeLevel::from_str("0/0/99999").err(),
        Some(GroupAddressError::new(SubOverflow, "Sub must between 0 and 255 but was: 99999"))
    );
    assert_eq!(
        GroupAddressThreeLevel::from_str("32/0/0").err(),
        Some(GroupAddressError::new(MainOverflow, "Main must between 0 and 31 but was: 32"))
    );
    assert_eq!(
        GroupAddressThreeLevel::from_str("0/8/0").err(),
        Some(GroupAddressError::new(MiddleOverflow, "Middle must between 0 and 7 but was: 8"))
    );
    assert_eq!(
        GroupAddressThreeLevel::from_str("0/0/256").err(),
        Some(GroupAddressError::new(SubOverflow, "Sub must between 0 and 255 but was: 256"))
    );
}

#[test]
fn three_level_wrong_number_of_fields() {
    assert_eq!(
        GroupAddressThreeLevel::from_str("1/2").err(),
        Some(GroupAddressError::new(Invalid, "Unsupported format. Expected '1/1/1', but got: 1/2"))
    );
    assert_eq!(
        GroupAddressThreeLevel::from_str("1/2/3/4").err(),
        Some(GroupAddressError::new(
            Invalid,
            "Unsupported format. Expected '1/1/1', but got: 1/2/3/4"
        ))
    );
}

#[test]
fn three_level_boundaries() {
    assert!(GroupAddressThreeLevel::from_str("31/7/255").is_ok());
    assert_eq!(GroupAddressThreeLevel::from_str("32/7/255").unwrap_err().kind(), MainOverflow);
    assert_eq!(GroupAddressThreeLevel::from_str("31/8/255").unwrap_err().kind(), MiddleOverflow);
    assert_eq!(GroupAddressThreeLevel::from_str("31/7/256").unwrap_err().kind(), SubOverflow);
}

#[test]
fn three_level_round_trips() {
    for (main, middle, sub) in [(0u8, 0u8, 1u8), (7, 3, 128), (31, 7, 255), (10, 0, 0), (0, 1, 0)] {
        let a = GroupAddressThreeLevel::new(main, middle, sub).unwrap();
        let decoded = GroupAddressThreeLevel::try_from(a.as_bytes()).unwrap();
        assert_eq!((decoded.main(), decoded.middle(), decoded.sub()), (main, middle, sub));
        let parsed = GroupAddressThreeLevel::from_str(&a.to_string()).unwrap();
        assert_eq!((parsed.main(), parsed.middle(), parsed.sub()), (main, middle, sub));
    }
}
