use void_runtime::colors::{hex_str, parse_hex_rgba, rgba_from_u32, u32_from_rgba, HexError};

#[test]
fn hex_six_digits() {
    assert_eq!(parse_hex_rgba("2dbd54"), Ok((45, 189, 84, 255)));
    assert_eq!(parse_hex_rgba("6699cc"), Ok((102, 153, 204, 255)));
    assert_eq!(parse_hex_rgba("000000"), Ok((0, 0, 0, 255)));
    assert_eq!(parse_hex_rgba("ff0000"), Ok((255, 0, 0, 255)));
    assert_eq!(parse_hex_rgba("FFFF00"), Ok((255, 255, 0, 255)));
}

#[test]
fn hex_three_digits_are_doubled() {
    assert_eq!(parse_hex_rgba("000"), Ok((0, 0, 0, 255)));
    assert_eq!(parse_hex_rgba("fff"), Ok((255, 255, 255, 255)));
    assert_eq!(parse_hex_rgba("f00"), Ok((255, 0, 0, 255)));
    assert_eq!(parse_hex_rgba("0f0"), Ok((0, 255, 0, 255)));
    assert_eq!(parse_hex_rgba("00f"), Ok((0, 0, 255, 255)));
}

#[test]
fn hex_eight_digits_carry_alpha() {
    assert_eq!(parse_hex_rgba("00000000"), Ok((0, 0, 0, 0)));
    assert_eq!(parse_hex_rgba("11223344"), Ok((0x11, 0x22, 0x33, 0x44)));
}

#[test]
fn hex_leading_hashes_are_skipped() {
    assert_eq!(parse_hex_rgba("#000"), Ok((0, 0, 0, 255)));
    assert_eq!(parse_hex_rgba("#000000"), Ok((0, 0, 0, 255)));
    assert_eq!(parse_hex_rgba("#00000000"), Ok((0, 0, 0, 0)));
    assert_eq!(parse_hex_rgba("##abc"), Ok((0xaa, 0xbb, 0xcc, 255)));
}

#[test]
fn hex_wrong_length() {
    assert_eq!(parse_hex_rgba("abcdefghijklmn"), Err(HexError::InvalidLength));
    assert_eq!(parse_hex_rgba(""), Err(HexError::InvalidLength));
    assert_eq!(parse_hex_rgba("#"), Err(HexError::InvalidLength));
    assert_eq!(parse_hex_rgba("12345"), Err(HexError::InvalidLength));
}

#[test]
fn hex_bad_digit() {
    assert!(matches!(parse_hex_rgba("zz0000"), Err(HexError::ParseError(_))));
    assert!(matches!(parse_hex_rgba("00g"), Err(HexError::ParseError(_))));
    assert!(matches!(parse_hex_rgba("0000 0"), Err(HexError::ParseError(_))));
}

#[test]
fn hex_pair_may_start_with_plus() {
    assert_eq!(parse_hex_rgba("+f0000"), Ok((15, 0, 0, 255)));
    assert!(matches!(parse_hex_rgba("+00"), Err(HexError::ParseError(_))));
}

#[test]
fn hex_strings_are_uppercase_with_alpha() {
    assert_eq!(hex_str(255, 255, 255, 255), "#FFFFFFFF");
    assert_eq!(hex_str(0, 0, 0, 255), "#000000FF");
    assert_eq!(hex_str(255, 0, 0, 255), "#FF0000FF");
    assert_eq!(hex_str(0, 255, 0, 255), "#00FF00FF");
    assert_eq!(hex_str(0xcc, 0xcc, 0, 0xff), "#CCCC00FF");
}

#[test]
fn hex_string_reads_back() {
    for (r, g, b, a) in [(1u8, 2u8, 3u8, 4u8), (0x9a, 0xbc, 0xde, 0xf0), (255, 0, 128, 7)] {
        assert_eq!(parse_hex_rgba(&hex_str(r, g, b, a)), Ok((r, g, b, a)));
    }
}

#[test]
fn packed_colors() {
    assert_eq!(rgba_from_u32(0xFF00_00FF), (255, 0, 0, 255));
    assert_eq!(rgba_from_u32(0xCCCC_00FF), (0xcc, 0xcc, 0, 0xff));
    assert_eq!(u32_from_rgba(0x12, 0x34, 0x56, 0x78), 0x1234_5678);
    assert_eq!(u32_from_rgba(0, 0, 0, 0), 0);
    let (r, g, b, a) = rgba_from_u32(0xDEAD_BEEF);
    assert_eq!(u32_from_rgba(r, g, b, a), 0xDEAD_BEEF);
}
