use hexview::error::HexError;
use hexview::range::normalize_range;
use hexview::range::parse_cli_number;

#[test]
fn parse_decimal() {
    assert_eq!(parse_cli_number("123"), Ok(123));
    assert_eq!(parse_cli_number("0"), Ok(0));
    assert_eq!(parse_cli_number("4096"), Ok(4096));
}

#[test]
fn parse_hex() {
    assert_eq!(parse_cli_number("0x1A"), Ok(26));
    assert_eq!(parse_cli_number("0xff"), Ok(255));
    assert_eq!(parse_cli_number("0x0"), Ok(0));
    assert_eq!(parse_cli_number("0x10"), Ok(16));
}

#[test]
fn parse_rejects_empty() {
    assert_eq!(parse_cli_number(""), Err(HexError::ParseNumber));
}

#[test]
fn parse_rejects_bare_prefix() {
    assert_eq!(parse_cli_number("0x"), Err(HexError::ParseNumber));
}

#[test]
fn parse_rejects_garbage() {
    assert_eq!(parse_cli_number("12g3"), Err(HexError::ParseNumber));
    assert_eq!(parse_cli_number("-5"), Err(HexError::ParseNumber));
    assert_eq!(parse_cli_number("0x0x10"), Err(HexError::ParseNumber));
    assert_eq!(parse_cli_number(" 12"), Err(HexError::ParseNumber));
}

#[test]
fn parse_rejects_overflow() {
    assert_eq!(
        parse_cli_number("0xFFFFFFFFFFFFFFFFF"),
        Err(HexError::ParseNumber)
    );
    assert_eq!(
        parse_cli_number("999999999999999999999999"),
        Err(HexError::ParseNumber)
    );
}

#[test]
fn parse_accepts_usize_max() {
    assert_eq!(parse_cli_number("0xFFFFFFFFFFFFFFFF"), Ok(usize::MAX));
    assert_eq!(parse_cli_number("18446744073709551615"), Ok(usize::MAX));
}

#[test]
fn normalize_rejects_all_three() {
    // The argument conflict is detected by pure arithmetic, before any I/O.
    assert_eq!(
        normalize_range(Some(1), Some(4), Some(3)),
        Err(HexError::InvalidArguments)
    );
}

#[test]
fn normalize_passes_through_without_num() {
    assert_eq!(normalize_range(None, None, None), Ok((None, None)));
    assert_eq!(normalize_range(Some(2), None, None), Ok((Some(2), None)));
    assert_eq!(normalize_range(None, Some(9), None), Ok((None, Some(9))));
    assert_eq!(
        normalize_range(Some(2), Some(9), None),
        Ok((Some(2), Some(9)))
    );
}

#[test]
fn normalize_derives_from_num() {
    assert_eq!(
        normalize_range(None, None, Some(7)),
        Ok((Some(0), Some(7)))
    );
    assert_eq!(
        normalize_range(Some(5), None, Some(3)),
        Ok((Some(5), Some(8)))
    );
    assert_eq!(
        normalize_range(None, Some(8), Some(3)),
        Ok((Some(5), Some(8)))
    );
}

#[test]
fn normalize_start_num_equals_explicit_end() {
    assert_eq!(
        normalize_range(Some(5), None, Some(3)),
        normalize_range(Some(5), Some(8), None)
    );
}

#[test]
fn normalize_rejects_underivable_bounds() {
    assert_eq!(
        normalize_range(None, Some(2), Some(3)),
        Err(HexError::InvalidArguments)
    );
    assert_eq!(
        normalize_range(Some(usize::MAX), None, Some(1)),
        Err(HexError::InvalidArguments)
    );
}

#[test]
fn error_messages() {
    assert_eq!(
        HexError::ParseNumber.message(),
        "value is not a valid decimal or 0x-prefixed hex number"
    );
    assert_eq!(
        HexError::InvalidArguments.message(),
        "invalid range: specify at most two of start, end and num, with start <= end"
    );
    assert_eq!(
        HexError::UnexpectedEndOfSource.message(),
        "unexpected end of input while skipping to start offset"
    );
}
