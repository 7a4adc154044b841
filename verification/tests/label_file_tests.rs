use hash40::errors::{CustomLabelError, FromLabelError, NumParseError, ParseHashError};
use hash40::label_map::LabelMap;
use hash40::Hash40;

#[test]
fn parse_line_splits_at_first_comma() {
    let r = LabelMap::parse_custom_label_line("0x0000000001,one").unwrap();
    assert_eq!(r, (Hash40(1), String::from("one")));
}

#[test]
fn parse_line_label_keeps_later_commas() {
    let r = LabelMap::parse_custom_label_line("0x2,a,b").unwrap();
    assert_eq!(r, (Hash40(2), String::from("a,b")));
}

#[test]
fn parse_line_allows_empty_label() {
    let r = LabelMap::parse_custom_label_line("0x3,").unwrap();
    assert_eq!(r, (Hash40(3), String::new()));
}

#[test]
fn parse_line_without_comma_fails() {
    assert!(matches!(
        LabelMap::parse_custom_label_line("0x0000000001 one"),
        Err(CustomLabelError::MisingColumn)
    ));
    assert!(matches!(
        LabelMap::parse_custom_label_line(""),
        Err(CustomLabelError::MisingColumn)
    ));
}

#[test]
fn parse_line_with_bad_hash_fails() {
    assert!(matches!(
        LabelMap::parse_custom_label_line("0xzz,label"),
        Err(CustomLabelError::ParseHashError(ParseHashError::ParseError(
            NumParseError::InvalidDigit
        )))
    ));
    assert!(matches!(
        LabelMap::parse_custom_label_line("nope,label"),
        Err(CustomLabelError::ParseHashError(ParseHashError::MissingPrefix))
    ));
}

#[test]
fn parse_lines_collects_pairs() {
    let lines = vec![String::from("0x1,one"), String::from("0x2,two")];
    let pairs = LabelMap::parse_custom_labels(&lines).unwrap();
    assert_eq!(pairs, vec![(Hash40(1), String::from("one")), (Hash40(2), String::from("two"))]);
}

#[test]
fn parse_lines_propagates_first_error() {
    let lines = vec![
        String::from("0x1,one"),
        String::from("no comma here"),
        String::from("0xzz,bad hex after"),
    ];
    assert!(matches!(
        LabelMap::parse_custom_labels(&lines),
        Err(CustomLabelError::MisingColumn)
    ));
}

#[test]
fn parsed_pairs_populate_custom_mode() {
    let lines = vec![String::from("0x10,sixteen"), String::from("0x20,thirty-two")];
    let pairs = LabelMap::parse_custom_labels(&lines).unwrap();
    let mut map = LabelMap::default();
    map.set_custom_labels(pairs);
    assert_eq!(map.label_of(Hash40(0x10)), Some(String::from("sixteen")));
    assert_eq!(map.hash_of("thirty-two"), Some(Hash40(0x20)));
    assert_eq!(map.hash_of("anything-else"), None);
}

#[test]
fn parse_errors_wrap_into_wider_errors() {
    assert_eq!(
        ParseHashError::from(NumParseError::Empty),
        ParseHashError::ParseError(NumParseError::Empty)
    );
    assert_eq!(
        FromLabelError::from(NumParseError::PosOverflow),
        FromLabelError::ParseError(NumParseError::PosOverflow)
    );
    assert!(matches!(
        CustomLabelError::from(ParseHashError::MissingPrefix),
        CustomLabelError::ParseHashError(ParseHashError::MissingPrefix)
    ));
}

#[test]
fn io_error_wraps_into_custom_label_error() {
    let io = std::io::Error::new(std::io::ErrorKind::NotFound, "missing file");
    assert!(matches!(CustomLabelError::from(io), CustomLabelError::Io(_)));
}
