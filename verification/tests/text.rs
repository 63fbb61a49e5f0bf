use knx_client::text::find_separators;
use knx_client::text::parse_number;
use knx_client::text::push_decimal;
use knx_client::text::split_fields;

#[test]
fn numbers_are_read() {
    assert_eq!(parse_number(b"0", 255), Some(0));
    assert_eq!(parse_number(b"255", 255), Some(255));
    assert_eq!(parse_number(b"256", 255), None);
    assert_eq!(parse_number(b"000255", 255), Some(255));
    assert_eq!(parse_number(b"+7", 255), Some(7));
    assert_eq!(parse_number(b"65535", 65535), Some(65535));
    assert_eq!(parse_number(b"65536", 65535), None);
    assert_eq!(parse_number(b"99999999999999999999999999", 65535), None);
}

#[test]
fn what_is_no_number_is_not_read() {
    assert_eq!(parse_number(b"", 255), None);
    assert_eq!(parse_number(b"+", 255), None);
    assert_eq!(parse_number(b"++1", 255), None);
    assert_eq!(parse_number(b"-1", 255), None);
    assert_eq!(parse_number(b" 1", 255), None);
    assert_eq!(parse_number(b"1 ", 255), None);
    assert_eq!(parse_number(b"1_0", 255), None);
    assert_eq!(parse_number(b"1a", 255), None);
    assert_eq!(parse_number("\u{663}".as_bytes(), 255), None);
}

#[test]
fn reading_agrees_with_std() {
    for text in ["0", "7", "+7", "007", "255", "256", "", "+", "-0", "1/2", "12a", " 1"] {
        assert_eq!(parse_number(text.as_bytes(), 255), text.parse::<u8>().ok().map(u32::from));
        assert_eq!(parse_number(text.as_bytes(), 65535), text.parse::<u16>().ok().map(u32::from));
    }
}

#[test]
fn numbers_are_written() {
    for n in [0u16, 1, 9, 10, 99, 100, 255, 4711, 9999, 10000, 65535] {
        let mut text = String::from("n=");
        push_decimal(&mut text, n);
        assert_eq!(text, format!("n={}", n));
    }
}

#[test]
fn separators_are_found() {
    assert_eq!(find_separators(b"", b'/'), []);
    assert_eq!(find_separators(b"123", b'/'), []);
    assert_eq!(find_separators(b"1/2/3", b'/'), [1, 3]);
    assert_eq!(find_separators(b"//", b'/'), [0, 1]);
}

#[test]
fn fields_are_split_as_std_splits() {
    for text in ["", "1", "1/2", "1/2/3", "/", "//", "a/", "/a", "\u{e4}/\u{1f600}/x", "1/2/3/4"] {
        let expected: Vec<&str> = text.split('/').collect();
        assert_eq!(split_fields(text, b'/'), expected);
    }
}
