use lib_poki_launcher::parsing_error::ParsingError;

#[test]
fn parsing_error_from_str_keeps_cause() {
    match ParsingError::parsing_error_from_str("no player") {
        ParsingError::ParsingError { cause } => assert_eq!(cause, "no player"),
        other => panic!("unexpected error {:?}", other),
    }
}

#[test]
fn parsing_error_from_conversions() {
    let from_slice: ParsingError = "short".into();
    assert!(matches!(from_slice, ParsingError::ParsingError { cause } if cause == "short"));
    let from_string: ParsingError = String::from("long").into();
    assert!(matches!(from_string, ParsingError::ParsingError { cause } if cause == "long"));
}

#[test]
fn parsing_error_texts() {
    assert_eq!(
        ParsingError::parsing_error_from_str("x").to_string(),
        "Parsing Error : x"
    );
    assert_eq!(
        ParsingError::AgeRestricted.to_string(),
        "Age restricted video not supported"
    );
    assert_eq!(
        ParsingError::DownloadError { cause: "gone".to_owned() }.to_string(),
        "Download Error : gone"
    );
}
