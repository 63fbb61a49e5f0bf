use knx_client::datapoint::datapoint::DataPoint;
use knx_client::datapoint::datapoint::DataPointError;
use knx_client::datapoint::datapoint::DataPointNotation;

#[test]
fn test_display() {
    // output: dpt-1
    assert_eq!(format!("{}", DataPoint::new(0, 0).to_string()), "dpt-0");
    assert_eq!(format!("{}", DataPoint::new(1, 0).to_string()), "dpt-1");
    assert_eq!(format!("{}", DataPoint::new(13, 0).to_string()), "dpt-13");
    assert_eq!(format!("{}", DataPoint::new(32100, 0).to_string()), "dpt-32100");
    // output: dpst-1-1
    assert_eq!(format!("{}", DataPoint::new(0, 1).to_string()), "dpst-0-1");
    assert_eq!(format!("{}", DataPoint::new(13, 17).to_string()), "dpst-13-17");
    assert_eq!(format!("{}", DataPoint::new(1235, 8391).to_string()), "dpst-1235-8391");
}

#[test]
fn test_with_dot() {
    assert_eq!(DataPoint::try_from("1.2").unwrap().as_bytes(), [0x00, 0x01, 0x00, 0x02]);
    assert_eq!(DataPoint::try_from("4711.32109").unwrap().as_bytes(), [0x12, 0x67, 0x7D, 0x6D]);

    assert_eq!(
        DataPoint::try_from(".ILLEGAL").err(),
        Some(DataPointError::new("Wrong data point format. Expected: #.#"))
    );
    assert!(DataPoint::try_from(".1").is_err());
    assert!(DataPoint::try_from("a.1").is_err());
    assert!(DataPoint::try_from("1.a").is_err());

    assert_eq!(
        DataPoint::try_from("9999999999.1").err(),
        Some(DataPointError::new("Main Data Point Type must be between 0 and 65535"))
    );
    assert_eq!(
        DataPoint::try_from("1.9999999999").err(),
        Some(DataPointError::new("Sub Data Point Type must be between 0 and 65535"))
    );
}

#[test]
fn test_with_dpt() {
    assert_eq!(DataPoint::try_from("dpt-13").unwrap().as_bytes(), [0x00, 0x0D, 0x00, 0x00]);
    assert_eq!(DataPoint::try_from("DPT-1713").unwrap().as_bytes(), [0x06, 0xB1, 0x00, 0x00]);

    assert_eq!(
        DataPoint::try_from("dpt-ILLEGAL").err(),
        Some(DataPointError::new("Wrong data point format. Expected: dpt-#"))
    );
    assert!(DataPoint::try_from("dpt--").is_err());
    assert!(DataPoint::try_from("dpt--1").is_err());
    assert!(DataPoint::try_from("dpt-a").is_err());

    assert_eq!(
        DataPoint::try_from("dpt-9999999999").err(),
        Some(DataPointError::new("Data Point Type must be between 0 and 65535"))
    );
}

#[test]
fn test_with_dpst() {
    assert_eq!(DataPoint::try_from("dpst-21-17").unwrap().as_bytes(), [0x00, 0x15, 0x00, 0x11]);
    assert_eq!(DataPoint::try_from("DPST-1331-4719").unwrap().as_bytes(), [0x05, 0x33, 0x12, 0x6F]);

    assert_eq!(
        DataPoint::try_from("dpst-ILLEGAL").err(),
        Some(DataPointError::new("Wrong data point format. Expected: dpst-#-#"))
    );
    assert!(DataPoint::try_from("dpst--").is_err());
    assert!(DataPoint::try_from("dpst--1").is_err());
    assert!(DataPoint::try_from("dpst-1-").is_err());
    assert!(DataPoint::try_from("dpst-1-a").is_err());
    assert!(DataPoint::try_from("dpst-a-1").is_err());

    assert_eq!(
        DataPoint::try_from("dpst-9999999999-1").err(),
        Some(DataPointError::new("Main Data Point Type must be between 0 and 65535"))
    );
    assert_eq!(
        DataPoint::try_from("dpst-1-9999999999").err(),
        Some(DataPointError::new("Sub Data Point Type must be between 0 and 65535"))
    );
}

#[test]
fn test_with_numbers() {
    assert_eq!(DataPoint::try_from("1").unwrap().as_bytes(), [0x00, 0x01, 0x00, 0x00]);
    assert_eq!(DataPoint::try_from("4141").unwrap().as_bytes(), [0x10, 0x2D, 0x00, 0x00]);

    assert_eq!(
        DataPoint::try_from("99999").err(),
        Some(DataPointError::new("Data Point Type must be between 0 and 65535"))
    );
}

#[test]
fn test_error() {
    assert_eq!(
        DataPoint::try_from("ILLEGAL").err(),
        Some(DataPointError::new("Wrong data point format. Expected: #, #.#, dpt-# or dpst-#-#"))
    );
}

#[test]
fn notations_agree() {
    let dotted = DataPoint::try_from("1.001").unwrap();
    let built = DataPoint::new(1, 1);
    assert_eq!(dotted, built);
    assert_eq!(dotted.as_bytes(), [0x00, 0x01, 0x00, 0x01]);
    assert_eq!(built.as_bytes(), [0x00, 0x01, 0x00, 0x01]);
    assert_eq!(DataPoint::try_from("dpst-1-1").unwrap().as_bytes(), [0x00, 0x01, 0x00, 0x01]);
    let main_only = DataPoint::try_from("dpt-13").unwrap();
    assert_eq!(main_only.dpst(), 0);
    assert_eq!(main_only.dpt(), 13);
    assert_eq!(main_only.as_bytes(), [0x00, 0x0D, 0x00, 0x00]);
    assert_eq!(DataPoint::try_from("13").unwrap(), main_only);
}

#[test]
fn notation_is_picked_in_order() {
    assert_eq!(DataPoint::notation("1.2"), DataPointNotation::Dotted);
    assert_eq!(DataPoint::notation("dpt-1.2"), DataPointNotation::Dotted);
    assert_eq!(DataPoint::notation("dpt-1"), DataPointNotation::Dpt);
    assert_eq!(DataPoint::notation("DpT-"), DataPointNotation::Dpt);
    assert_eq!(DataPoint::notation("dpst-1-1"), DataPointNotation::Dpst);
    assert_eq!(DataPoint::notation("DPST-x"), DataPointNotation::Dpst);
    assert_eq!(DataPoint::notation("0123"), DataPointNotation::Number);
    assert_eq!(DataPoint::notation(""), DataPointNotation::Number);
    assert_eq!(DataPoint::notation("dpt"), DataPointNotation::Unknown);
    assert_eq!(DataPoint::notation("+1"), DataPointNotation::Unknown);
    assert_eq!(DataPoint::notation("\u{663}"), DataPointNotation::Unknown);
}

#[test]
fn the_empty_text_is_a_number_out_of_range() {
    assert_eq!(
        DataPoint::try_from("").err(),
        Some(DataPointError::new("Data Point Type must be between 0 and 65535"))
    );
}

#[test]
fn digits_of_another_script_match_the_pattern_but_are_no_number() {
    assert_eq!(
        DataPoint::try_from("\u{663}.1").err(),
        Some(DataPointError::new("Main Data Point Type must be between 0 and 65535"))
    );
    assert_eq!(
        DataPoint::try_from("\u{663}").err(),
        Some(DataPointError::new("Wrong data point format. Expected: #, #.#, dpt-# or dpst-#-#"))
    );
}

#[test]
fn groups_decide_the_identifier() {
    let groups = Some(vec![
        Some(String::from("7.9")),
        Some(String::from("7")),
        Some(String::from("9")),
    ]);
    assert_eq!(DataPoint::from_dotted_groups(&groups).unwrap(), DataPoint::new(7, 9));
    assert_eq!(DataPoint::from_dpst_groups(&groups).unwrap(), DataPoint::new(7, 9));
    assert_eq!(DataPoint::from_dpt_groups(&groups).unwrap(), DataPoint::new(7, 0));
    assert_eq!(
        DataPoint::from_dotted_groups(&None).err(),
        Some(DataPointError::new("Wrong data point format. Expected: #.#"))
    );
    assert_eq!(
        DataPoint::from_dpt_groups(&None).err(),
        Some(DataPointError::new("Wrong data point format. Expected: dpt-#"))
    );
    assert_eq!(
        DataPoint::from_dpst_groups(&None).err(),
        Some(DataPointError::new("Wrong data point format. Expected: dpst-#-#"))
    );
    let short = Some(vec![Some(String::from("7")), Some(String::from("7"))]);
    assert_eq!(
        DataPoint::from_dotted_groups(&short).err(),
        Some(DataPointError::new("Wrong data point format. Expected: #.#"))
    );
    let absent = Some(vec![Some(String::from("7")), None, Some(String::from("7"))]);
    assert_eq!(
        DataPoint::from_dpst_groups(&absent).err(),
        Some(DataPointError::new("Wrong data point format. Expected: dpst-#-#"))
    );
    let large = Some(vec![None, Some(String::from("65535")), Some(String::from("65536"))]);
    assert_eq!(
        DataPoint::from_dotted_groups(&large).err(),
        Some(DataPointError::new("Sub Data Point Type must be between 0 and 65535"))
    );
    assert_eq!(DataPoint::from_dpt_groups(&large).unwrap(), DataPoint::new(65535, 0));
}

#[test]
fn datapoint_error_text_has_the_prefix() {
    let error = DataPoint::try_from("ILLEGAL").unwrap_err();
    assert_eq!(
        error.to_string(),
        "Data Point: Wrong data point format. Expected: #, #.#, dpt-# or dpst-#-#"
    );
    assert_eq!(
        error.message(),
        "Wrong data point format. Expected: #, #.#, dpt-# or dpst-#-#"
    );
}
