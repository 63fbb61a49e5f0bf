use knx_client::address::group_address::GroupAddress;
use knx_client::address::group_address::GroupAddressBytes;
use knx_client::address::group_address::GroupAddressError;
use knx_client::address::group_address::GroupAddressErrorKind::{
    Invalid, MainOverflow, MiddleOverflow, SubOverflow,
};

#[test]
fn ok_two_level() {
    // 20/1223 = 1010_0... ...._.... (A4, C7)
    //           ...._.100 ...._....
    //           ...._.... 1100_0111
    let group_address = GroupAddress::try_from("20/1223").unwrap();
    assert_eq!(group_address.as_bytes(), [0xA4, 0xC7]);
}

#[test]
fn ok_three_level() {
    // 1/2/3   = 0000_1... ...._.... (0A, 03)
    //           ...._.010 ...._....
    //           ...._.... 0000_0011
    let group_address = GroupAddress::try_from("1/2/3").unwrap();
    assert_eq!(group_address.as_bytes(), [0x0A, 0x03]);
}

#[test]
fn ok_free_level() {
    let group_address = GroupAddress::try_from("4711").unwrap();
    assert_eq!(group_address.as_bytes(), [0x12, 0x67]);
}

#[test]
fn err_two_level() {
    assert_eq!(GroupAddress::try_from("0/0").unwrap_err().kind(), Invalid);

    assert_eq!(GroupAddress::try_from("32/2").unwrap_err().kind(), MainOverflow);
    assert_eq!(GroupAddress::try_from("99999/2").unwrap_err().kind(), MainOverflow);

    assert_eq!(GroupAddress::try_from("0/2048").unwrap_err().kind(), SubOverflow);
    assert_eq!(GroupAddress::try_from("1/99999").unwrap_err().kind(), SubOverflow);
}

#[test]
fn err_three_level() {
    assert_eq!(GroupAddress::try_from("0/0/0").unwrap_err().kind(), Invalid);

    assert_eq!(GroupAddress::try_from("32/2/3").unwrap_err().kind(), MainOverflow);
    assert_eq!(GroupAddress::try_from("99999/2/3").unwrap_err().kind(), MainOverflow);

    assert_eq!(GroupAddress::try_from("1/8/3").unwrap_err().kind(), MiddleOverflow);
    assert_eq!(GroupAddress::try_from("1/99999/3").unwrap_err().kind(), MiddleOverflow);

    assert_eq!(GroupAddress::try_from("1/2/256").unwrap_err().kind(), SubOverflow);
    assert_eq!(GroupAddress::try_from("1/2/99999").unwrap_err().kind(), SubOverflow);
}

#[test]
fn err_free_level() {
    assert_eq!(GroupAddress::try_from("0").unwrap_err().kind(), Invalid);
    assert_eq!(GroupAddress::try_from("65536").unwrap_err().kind(), MainOverflow);
    assert_eq!(GroupAddress::try_from("").unwrap_err().kind(), MainOverflow);
    assert_eq!(GroupAddress::try_from("abc").unwrap_err().kind(), MainOverflow);
}

#[test]
fn err_invalid_format() {
    // Illegal Format
    assert_eq!(
        GroupAddress::try_from("1/2/3/4").unwrap_err(),
        GroupAddressError::new(
            Invalid,
            "Unsupported group address format provided. Supported are: #/#/#, #/# or #"
        )
    );
}

#[test]
fn reserved_zero_is_rejected_in_every_notation() {
    assert_eq!(GroupAddress::try_from("0/0/0").unwrap_err().kind(), Invalid);
    assert_eq!(GroupAddress::try_from("0/0").unwrap_err().kind(), Invalid);
    assert_eq!(GroupAddress::try_from("0").unwrap_err().kind(), Invalid);
}

#[test]
fn the_three_notations_of_one_address_agree() {
    let three = GroupAddress::try_from("7/3/128").unwrap();
    let two = GroupAddress::try_from("7/896").unwrap();
    let free = GroupAddress::try_from("15232").unwrap();
    assert_eq!(three.as_bytes(), [0x3B, 0x80]);
    assert_eq!(two.as_bytes(), [0x3B, 0x80]);
    assert_eq!(free.as_bytes(), [0x3B, 0x80]);
}

#[test]
fn a_plus_sign_and_leading_zeros_are_read() {
    assert_eq!(GroupAddress::try_from("+1/02/003").unwrap().as_bytes(), [0x0A, 0x03]);
    assert_eq!(GroupAddress::try_from("+").unwrap_err().kind(), MainOverflow);
    assert_eq!(GroupAddress::try_from("1/-2/3").unwrap_err().kind(), MiddleOverflow);
    assert_eq!(GroupAddress::try_from("1/ 2/3").unwrap_err().kind(), MiddleOverflow);
    assert_eq!(GroupAddress::try_from("1//3").unwrap_err().kind(), MiddleOverflow);
    assert_eq!(GroupAddress::try_from("/").unwrap_err().kind(), MainOverflow);
}

#[test]
fn error_text_has_the_prefix() {
    let error = GroupAddress::try_from("1/2/3/4").unwrap_err();
    assert_eq!(
        error.to_string(),
        "Group Address: Unsupported group address format provided. Supported are: #/#/#, #/# or #"
    );
    assert_eq!(
        error.message(),
        "Unsupported group address format provided. Supported are: #/#/#, #/# or #"
    );
}

#[test]
fn text_that_is_not_ascii_is_rejected_with_its_own_words() {
    let error = GroupAddress::try_from("1/zw\u{f6}lf/3").unwrap_err();
    assert_eq!(error.kind(), MiddleOverflow);
    assert_eq!(error.message(), "Middle must between 0 and 7 but was: zw\u{f6}lf");
}
