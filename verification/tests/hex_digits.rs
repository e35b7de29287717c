use file_hash::hex::hex_char_to_int;
use file_hash::text::str_equals;

#[test]
fn decimal_digits_have_their_value() {
    let digits = "0123456789".as_bytes();
    for (value, code) in digits.iter().enumerate() {
        assert_eq!(hex_char_to_int(*code), Some(value as u8));
    }
}

#[test]
fn lowercase_letters_count_from_ten() {
    assert_eq!(hex_char_to_int(b'a'), Some(10));
    assert_eq!(hex_char_to_int(b'b'), Some(11));
    assert_eq!(hex_char_to_int(b'c'), Some(12));
    assert_eq!(hex_char_to_int(b'd'), Some(13));
    assert_eq!(hex_char_to_int(b'e'), Some(14));
    assert_eq!(hex_char_to_int(b'f'), Some(15));
}

#[test]
fn uppercase_letters_count_from_ten() {
    assert_eq!(hex_char_to_int(b'A'), Some(10));
    assert_eq!(hex_char_to_int(b'B'), Some(11));
    assert_eq!(hex_char_to_int(b'C'), Some(12));
    assert_eq!(hex_char_to_int(b'D'), Some(13));
    assert_eq!(hex_char_to_int(b'E'), Some(14));
    assert_eq!(hex_char_to_int(b'F'), Some(15));
}

#[test]
fn neighbours_of_the_digit_ranges_are_no_digits() {
    assert_eq!(hex_char_to_int(b'/'), None);
    assert_eq!(hex_char_to_int(b':'), None);
    assert_eq!(hex_char_to_int(b'@'), None);
    assert_eq!(hex_char_to_int(b'G'), None);
    assert_eq!(hex_char_to_int(b'`'), None);
    assert_eq!(hex_char_to_int(b'g'), None);
}

#[test]
fn exactly_twenty_two_codes_are_digits() {
    let mut count = 0;
    for code in 0..=255u8 {
        if let Some(value) = hex_char_to_int(code) {
            assert!(value < 16);
            count += 1;
        }
    }
    assert_eq!(count, 22);
}

#[test]
fn codes_outside_ascii_are_no_digits() {
    assert_eq!(hex_char_to_int(0x00), None);
    assert_eq!(hex_char_to_int(0x80), None);
    assert_eq!(hex_char_to_int(0xb0), None);
    assert_eq!(hex_char_to_int(0xff), None);
}

#[test]
fn equal_strings_are_equal() {
    assert!(str_equals("", ""));
    assert!(str_equals("md5", "md5"));
    assert!(str_equals("h\u{e9}", "h\u{e9}"));
}

#[test]
fn different_strings_are_not_equal() {
    assert!(!str_equals("md5", "md"));
    assert!(!str_equals("md", "md5"));
    assert!(!str_equals("md5", "mD5"));
    assert!(!str_equals("md5", "md6"));
    assert!(!str_equals("", " "));
    assert!(!str_equals("h\u{e9}", "h\u{e8}"));
}
