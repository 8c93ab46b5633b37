use defrag_simulator_rs::parse::{parse_size, SizeParseError};

#[test]
fn parse_size_accepts_well_formed() {
    assert_eq!(parse_size("78x16"), Ok((78, 16)));
    assert_eq!(parse_size("4x4"), Ok((4, 4)));
    assert_eq!(parse_size("1x999"), Ok((1, 999)));
    assert_eq!(parse_size("0x0"), Ok((0, 0)));
}

#[test]
fn parse_size_rejects_bad_format() {
    assert_eq!(parse_size(""), Err(SizeParseError::BadFormat));
    assert_eq!(parse_size("78"), Err(SizeParseError::BadFormat));
    assert_eq!(parse_size("10x20x30"), Err(SizeParseError::BadFormat));
    assert_eq!(parse_size("xx"), Err(SizeParseError::BadFormat));
}

#[test]
fn parse_size_rejects_bad_width() {
    assert_eq!(parse_size("x16"), Err(SizeParseError::BadWidth));
    assert_eq!(parse_size("ax16"), Err(SizeParseError::BadWidth));
    assert_eq!(parse_size("-3x16"), Err(SizeParseError::BadWidth));
    assert_eq!(
        parse_size("99999999999999999999999999x1"),
        Err(SizeParseError::BadWidth)
    );
}

#[test]
fn parse_size_rejects_bad_height() {
    assert_eq!(parse_size("16x"), Err(SizeParseError::BadHeight));
    assert_eq!(parse_size("16xb"), Err(SizeParseError::BadHeight));
    assert_eq!(parse_size("16x 4"), Err(SizeParseError::BadHeight));
}

#[test]
fn parse_error_messages() {
    assert_eq!(
        SizeParseError::BadFormat.message(),
        "Size must be in format WxH"
    );
    assert_eq!(SizeParseError::BadWidth.message(), "Invalid width");
    assert_eq!(SizeParseError::BadHeight.message(), "Invalid height");
}
