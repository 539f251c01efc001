use quiclime::text::{append_digits, append_prefixed_hex};

#[test]
fn digits_have_no_leading_zeros() {
    for value in [0, 9, 10, 99, 100, 65535, u64::MAX] {
        let mut text = "n=".to_string();
        append_digits(&mut text, value, 10);
        assert_eq!(text, format!("n={value}"));
        let mut text = String::new();
        append_digits(&mut text, value, 2);
        assert_eq!(text, format!("{value:b}"));
        let mut text = String::new();
        append_digits(&mut text, value, 16);
        assert_eq!(text, format!("{value:x}"));
    }
}

#[test]
fn hex_has_two_digits_at_least() {
    for value in [0, 1, 15, 16, 255, 256, 0xdead_beef, u32::MAX] {
        let mut text = String::new();
        append_prefixed_hex(&mut text, value);
        assert_eq!(text, format!("{value:#04x}"));
    }
}
