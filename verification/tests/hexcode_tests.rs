use proc_monitor::hexcode::{hex_text, MAX_ENCODED_BYTES};

#[test]
fn hex_text_of_nothing_is_empty() {
    assert_eq!(hex_text(b""), "");
}

#[test]
fn hex_text_writes_two_lower_case_digits_for_each_byte() {
    assert_eq!(hex_text(&[1, 2, 3, 15, 16]), "0102030f10");
    assert_eq!(hex_text(&[0xf9, 0xb4, 0xca]), "f9b4ca");
    assert_eq!(hex_text(b"Hello world!"), "48656c6c6f20776f726c6421");
}

#[test]
fn hex_text_puts_the_high_half_first() {
    assert_eq!(hex_text(&[0x0a]), "0a");
    assert_eq!(hex_text(&[0xa0]), "a0");
    assert_eq!(hex_text(&[0x00, 0xff]), "00ff");
}

#[test]
fn hex_text_covers_every_byte_value() {
    let all: Vec<u8> = (0..=255).collect();
    let text = hex_text(&all);
    assert_eq!(text.len(), 512);
    for (value, pair) in text.as_bytes().chunks(2).enumerate() {
        let digits = b"0123456789abcdef";
        assert_eq!(pair[0], digits[value / 16]);
        assert_eq!(pair[1], digits[value % 16]);
    }
}

#[test]
fn hex_text_limit_leaves_room_for_twice_the_length() {
    assert_eq!(MAX_ENCODED_BYTES, 1_073_741_823);
    assert!(MAX_ENCODED_BYTES.checked_mul(2).is_some());
}
