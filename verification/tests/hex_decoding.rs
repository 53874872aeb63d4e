use libpci_rs::hex::{
    ox_hex_string_to_u16, ox_hex_string_to_u32, ox_hex_string_to_u8, HexDecodeError,
};

#[test]
fn test_hex_decoding() {
    // Test to make sure every bit is recognized using the highest possible integer!
    assert_eq!(ox_hex_string_to_u8("0xFF"), Ok(255));
    assert_eq!(ox_hex_string_to_u16("0xFFFF"), Ok(65535));
    assert_eq!(ox_hex_string_to_u32("0xFFFFFFFF"), Ok(4294967295));
}

#[test]
fn one_past_the_maximum_overflows() {
    assert_eq!(ox_hex_string_to_u8("0x100"), Err(HexDecodeError::Overflow));
    assert_eq!(ox_hex_string_to_u16("0x10000"), Err(HexDecodeError::Overflow));
    assert_eq!(ox_hex_string_to_u32("0x100000000"), Err(HexDecodeError::Overflow));
}

#[test]
fn too_many_digits_overflow() {
    assert_eq!(ox_hex_string_to_u8("0xFFF"), Err(HexDecodeError::Overflow));
    assert_eq!(ox_hex_string_to_u8("abcdef"), Err(HexDecodeError::Overflow));
    assert_eq!(ox_hex_string_to_u16("0xFFFFF"), Err(HexDecodeError::Overflow));
    assert_eq!(ox_hex_string_to_u32("0xFFFFFFFFF"), Err(HexDecodeError::Overflow));
    assert_eq!(
        ox_hex_string_to_u32("0xFFFFFFFFFFFFFFFFFFFFFFFFFFFFFFFFFFFFFFFF"),
        Err(HexDecodeError::Overflow)
    );
}

#[test]
fn leading_zeros_do_not_overflow() {
    assert_eq!(ox_hex_string_to_u8("0x0FF"), Ok(255));
    assert_eq!(ox_hex_string_to_u8("000000000000000000001"), Ok(1));
    assert_eq!(ox_hex_string_to_u16("0x00FFFF"), Ok(65535));
    assert_eq!(ox_hex_string_to_u32("0x0000000000FFFFFFFF"), Ok(4294967295));
}

#[test]
fn prefix_whitespace_and_case_are_tolerated() {
    assert_eq!(ox_hex_string_to_u8("0x1A"), Ok(26));
    assert_eq!(ox_hex_string_to_u8("1a"), Ok(26));
    assert_eq!(ox_hex_string_to_u8("  0x1a  "), Ok(26));
    assert_eq!(ox_hex_string_to_u16("0x1A"), Ok(26));
    assert_eq!(ox_hex_string_to_u16("1a"), Ok(26));
    assert_eq!(ox_hex_string_to_u16("  0x1a  "), Ok(26));
    assert_eq!(ox_hex_string_to_u32("0x1A"), Ok(26));
    assert_eq!(ox_hex_string_to_u32("1a"), Ok(26));
    assert_eq!(ox_hex_string_to_u32("  0x1a  "), Ok(26));
}

#[test]
fn upper_case_prefix_is_accepted() {
    assert_eq!(ox_hex_string_to_u8("0X1a"), Ok(26));
    assert_eq!(ox_hex_string_to_u16("0XBEEF"), Ok(0xbeef));
}

#[test]
fn mixed_case_digits_decode_alike() {
    assert_eq!(ox_hex_string_to_u32("0xDeAdBeEf"), Ok(0xdead_beef));
    assert_eq!(ox_hex_string_to_u32("DEADBEEF"), Ok(0xdead_beef));
    assert_eq!(ox_hex_string_to_u32("deadbeef"), Ok(0xdead_beef));
}

#[test]
fn whitespace_after_the_prefix_is_trimmed() {
    assert_eq!(ox_hex_string_to_u8("0x 1a"), Ok(26));
    assert_eq!(ox_hex_string_to_u16("0x8086\n"), Ok(0x8086));
    assert_eq!(ox_hex_string_to_u16("\t0x8086\r\n"), Ok(0x8086));
}

#[test]
fn unicode_whitespace_is_trimmed() {
    assert_eq!(ox_hex_string_to_u8("\u{a0}7f\u{2003}"), Ok(0x7f));
    assert_eq!(ox_hex_string_to_u8("\u{3000}0x7f\u{85}"), Ok(0x7f));
}

#[test]
fn zero_decodes() {
    assert_eq!(ox_hex_string_to_u8("0"), Ok(0));
    assert_eq!(ox_hex_string_to_u8("0x0"), Ok(0));
    assert_eq!(ox_hex_string_to_u32("0x00000000"), Ok(0));
}

#[test]
fn empty_payload_is_refused() {
    assert_eq!(ox_hex_string_to_u8(""), Err(HexDecodeError::Empty));
    assert_eq!(ox_hex_string_to_u8("   "), Err(HexDecodeError::Empty));
    assert_eq!(ox_hex_string_to_u16("0x"), Err(HexDecodeError::Empty));
    assert_eq!(ox_hex_string_to_u32(" 0X \n"), Err(HexDecodeError::Empty));
}

#[test]
fn characters_that_are_no_digits_are_refused() {
    assert_eq!(ox_hex_string_to_u8("g"), Err(HexDecodeError::InvalidDigit));
    assert_eq!(ox_hex_string_to_u8("0x1g"), Err(HexDecodeError::InvalidDigit));
    assert_eq!(ox_hex_string_to_u8("1 a"), Err(HexDecodeError::InvalidDigit));
    assert_eq!(ox_hex_string_to_u8("+1a"), Err(HexDecodeError::InvalidDigit));
    assert_eq!(ox_hex_string_to_u8("-1"), Err(HexDecodeError::InvalidDigit));
    assert_eq!(ox_hex_string_to_u16("0x0x12"), Err(HexDecodeError::InvalidDigit));
    assert_eq!(ox_hex_string_to_u16("12_34"), Err(HexDecodeError::InvalidDigit));
    assert_eq!(ox_hex_string_to_u32("x12"), Err(HexDecodeError::InvalidDigit));
    assert_eq!(ox_hex_string_to_u32("\u{ff11}\u{ff12}"), Err(HexDecodeError::InvalidDigit));
}

#[test]
fn a_bad_character_counts_before_the_size() {
    assert_eq!(ox_hex_string_to_u8("FFFG"), Err(HexDecodeError::InvalidDigit));
    assert_eq!(ox_hex_string_to_u8("GFFF"), Err(HexDecodeError::InvalidDigit));
}

#[test]
fn each_digit_has_its_value() {
    let digits = "0123456789abcdef";
    for (value, digit) in digits.chars().enumerate() {
        let lower = digit.to_string();
        let upper = digit.to_ascii_uppercase().to_string();
        assert_eq!(ox_hex_string_to_u8(&lower), Ok(value as u8));
        assert_eq!(ox_hex_string_to_u8(&upper), Ok(value as u8));
    }
}

#[test]
fn every_byte_round_trips_through_two_digits() {
    for value in 0..=255u8 {
        assert_eq!(ox_hex_string_to_u8(&format!("{:02x}", value)), Ok(value));
        assert_eq!(ox_hex_string_to_u8(&format!("0x{:X}", value)), Ok(value));
    }
}
