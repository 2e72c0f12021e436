use test_providers::text::{decimal_text, hex_encode, trim_hex_prefix};

#[test]
fn decimals_read_as_displayed() {
    for n in [0u64, 7, 9, 10, 11, 99, 100, 101, 65_536, 15_537_394, u64::MAX - 1, u64::MAX] {
        assert_eq!(decimal_text(n), format!("{}", n));
    }
    assert_eq!(decimal_text(u64::MAX), "18446744073709551615");
}

#[test]
fn hashes_are_written_in_lower_case_hexadecimal() {
    let mut hash = [0u8; 32];
    hash[0] = 0x5e;
    hash[1] = 0xc1;
    hash[30] = 0x0f;
    hash[31] = 0xa0;
    assert_eq!(
        hex_encode(&hash),
        "0x5ec1000000000000000000000000000000000000000000000000000000000fa0"
    );
    assert_eq!(hex_encode(&[0xff; 32]), format!("0x{}", "ff".repeat(32)));
}

#[test]
fn trimming_takes_off_every_leading_prefix() {
    assert_eq!(trim_hex_prefix("0xab"), "ab");
    assert_eq!(trim_hex_prefix("0x0x0xab0x"), "ab0x");
    assert_eq!(trim_hex_prefix("ab"), "ab");
    assert_eq!(trim_hex_prefix("0"), "0");
    assert_eq!(trim_hex_prefix("0x"), "");
    assert_eq!(trim_hex_prefix(""), "");
    for text in ["0x0x12", "x0x", "0y0x", "0x0", "00x"] {
        assert_eq!(trim_hex_prefix(text), text.trim_start_matches("0x"));
    }
}

#[test]
fn trimming_undoes_the_written_prefix() {
    let hash = [0x0c; 32];
    assert_eq!(trim_hex_prefix(&hex_encode(&hash)), "0c".repeat(32));
}

#[test]
fn different_hashes_are_written_differently() {
    let mut other = [7u8; 32];
    other[31] = 0x70;
    assert_ne!(hex_encode(&[7; 32]), hex_encode(&other));
}
