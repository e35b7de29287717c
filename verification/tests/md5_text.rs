use file_hash::hash_def::HashValue;
use file_hash::hash_md5::HashMD5;

const COUNTING: [u8; 16] = [
    0x00, 0x11, 0x22, 0x33, 0x44, 0x55, 0x66, 0x77, 0x88, 0x99, 0xaa, 0xbb, 0xcc, 0xdd, 0xee, 0xff,
];

#[test]
fn text_is_two_lowercase_digits_per_byte() {
    let value = HashMD5::from_bytes(COUNTING);
    assert_eq!(value.to_string(), "00112233445566778899aabbccddeeff");
}

#[test]
fn text_writes_the_high_nibble_first() {
    let mut bytes = [0u8; 16];
    bytes[0] = 0x1f;
    bytes[1] = 0xf1;
    bytes[15] = 0x0a;
    let value = HashMD5::from_bytes(bytes);
    assert_eq!(value.to_string(), "1ff1000000000000000000000000000a");
}

#[test]
fn text_of_zero_bytes_keeps_leading_zeros() {
    let value = HashMD5::from_bytes([0u8; 16]);
    assert_eq!(value.to_string(), "00000000000000000000000000000000");
}

#[test]
fn text_has_thirty_two_characters() {
    for fill in [0x00u8, 0x09, 0x10, 0x7f, 0x80, 0xa5, 0xff] {
        let text = HashMD5::from_bytes([fill; 16]).to_string();
        assert_eq!(text.len(), 32);
        assert_eq!(text.chars().count(), 32);
    }
}

#[test]
fn text_is_lowercase_only() {
    for fill in 0..=255u8 {
        let text = HashMD5::from_bytes([fill; 16]).to_string();
        assert!(text.chars().all(|c| matches!(c, '0'..='9' | 'a'..='f')));
    }
}

#[test]
fn parsing_reads_pairs_in_order() {
    let value = HashMD5::new_from_string("00112233445566778899aabbccddeeff").unwrap();
    assert_eq!(value.as_bytes(), &COUNTING);
}

#[test]
fn parsing_reads_each_pair_high_nibble_first() {
    let value = HashMD5::new_from_string("0123456789abcdefFEDCBA9876543210").unwrap();
    let expected: [u8; 16] = [
        0x01, 0x23, 0x45, 0x67, 0x89, 0xab, 0xcd, 0xef, 0xfe, 0xdc, 0xba, 0x98, 0x76, 0x54, 0x32,
        0x10,
    ];
    assert_eq!(value.as_bytes(), &expected);
}

#[test]
fn text_round_trips() {
    let mut bytes = [0u8; 16];
    for seed in 0..=255u8 {
        for (i, byte) in bytes.iter_mut().enumerate() {
            *byte = seed.wrapping_mul(31).wrapping_add((i as u8).wrapping_mul(17));
        }
        let value = HashMD5::from_bytes(bytes);
        let back = HashMD5::new_from_string(&value.to_string());
        assert_eq!(back, Some(value));
    }
}

#[test]
fn parsed_text_is_written_back_in_lowercase() {
    let value = HashMD5::new_from_string("D41D8CD98F00B204E9800998ECF8427E").unwrap();
    assert_eq!(value.to_string(), "d41d8cd98f00b204e9800998ecf8427e");
}

#[test]
fn short_text_is_rejected() {
    assert!(HashMD5::new_from_string("0123456789abcdef0123456789abcde").is_none());
    assert!(HashMD5::new_from_string("").is_none());
    assert!(HashMD5::new_from_string("00").is_none());
}

#[test]
fn long_text_is_rejected() {
    assert!(HashMD5::new_from_string("0123456789abcdef0123456789abcdef0").is_none());
    assert!(HashMD5::new_from_string(
        "0123456789abcdef0123456789abcdef0123456789abcdef0123456789abcdef"
    )
    .is_none());
}

#[test]
fn text_of_the_right_length_is_accepted() {
    assert!(HashMD5::new_from_string("0123456789abcdef0123456789abcdef").is_some());
}

#[test]
fn one_wrong_character_at_the_start_is_rejected() {
    assert!(HashMD5::new_from_string("g0000000000000000000000000000000").is_none());
}

#[test]
fn one_wrong_character_anywhere_is_rejected() {
    for position in 0..32 {
        for wrong in ['g', 'G', 'x', ' ', '-', '/', ':', '@', '`', '\n', '\0'] {
            let mut text: Vec<char> = "0123456789abcdef0123456789ABCDEF".chars().collect();
            text[position] = wrong;
            let text: String = text.into_iter().collect();
            assert!(HashMD5::new_from_string(&text).is_none());
        }
    }
}

#[test]
fn text_outside_ascii_is_rejected() {
    let sixteen_wide = "\u{e9}".repeat(16);
    assert_eq!(sixteen_wide.len(), 32);
    assert!(HashMD5::new_from_string(&sixteen_wide).is_none());
    let thirty_two_wide = "\u{e9}".repeat(32);
    assert_eq!(thirty_two_wide.chars().count(), 32);
    assert!(HashMD5::new_from_string(&thirty_two_wide).is_none());
    let one_wide = format!("{}\u{ff10}", "0".repeat(29));
    assert_eq!(one_wide.len(), 32);
    assert!(HashMD5::new_from_string(&one_wide).is_none());
}

#[test]
fn uppercase_parses_like_lowercase() {
    let upper = HashMD5::new_from_string("AABBCCDDEEFF00112233445566778899");
    let lower = HashMD5::new_from_string("aabbccddeeff00112233445566778899");
    assert!(upper.is_some());
    assert_eq!(upper, lower);
}

#[test]
fn mixed_case_parses_like_lowercase() {
    let mixed = HashMD5::new_from_string("aAbBcCdDeEfF00112233445566778899");
    let lower = HashMD5::new_from_string("aabbccddeeff00112233445566778899");
    assert!(mixed.is_some());
    assert_eq!(mixed, lower);
}

#[test]
fn name_token_is_md5() {
    assert_eq!(HashMD5::signature_to_string(), "md5");
}

#[test]
fn name_token_matches_exactly() {
    assert!(HashMD5::parse_hash_type_string("md5"));
}

#[test]
fn name_token_is_case_sensitive() {
    assert!(!HashMD5::parse_hash_type_string("MD5"));
    assert!(!HashMD5::parse_hash_type_string("Md5"));
}

#[test]
fn other_names_do_not_match() {
    assert!(!HashMD5::parse_hash_type_string(""));
    assert!(!HashMD5::parse_hash_type_string("md"));
    assert!(!HashMD5::parse_hash_type_string("md55"));
    assert!(!HashMD5::parse_hash_type_string(" md5"));
    assert!(!HashMD5::parse_hash_type_string("md5 "));
    assert!(!HashMD5::parse_hash_type_string("sha1"));
}
