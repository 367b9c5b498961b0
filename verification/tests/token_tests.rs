use rand_chacha::ChaCha8Rng;
use rand_core::{RngCore, SeedableRng};
use user_accounts::token::{decimal_string, parse_u128, SessionToken};

const MAX_TEXT: &str = "340282366920938463463374607431768211455";

#[test]
fn parses_plain_decimal() {
    assert_eq!(parse_u128("0"), Some(0));
    assert_eq!(parse_u128("7"), Some(7));
    assert_eq!(parse_u128("1234567890"), Some(1234567890));
    assert_eq!(parse_u128(MAX_TEXT), Some(u128::MAX));
}

#[test]
fn parses_plus_sign_and_leading_zeros() {
    assert_eq!(parse_u128("+7"), Some(7));
    assert_eq!(parse_u128("007"), Some(7));
    assert_eq!(parse_u128("+000"), Some(0));
    assert_eq!(
        parse_u128("0000000000000000000000000000000000000000000000000000000000000012"),
        Some(12)
    );
}

#[test]
fn rejects_what_is_no_number() {
    assert_eq!(parse_u128(""), None);
    assert_eq!(parse_u128("+"), None);
    assert_eq!(parse_u128("-1"), None);
    assert_eq!(parse_u128("++1"), None);
    assert_eq!(parse_u128("1+"), None);
    assert_eq!(parse_u128("12a"), None);
    assert_eq!(parse_u128(" 1"), None);
    assert_eq!(parse_u128("1 "), None);
    assert_eq!(parse_u128("0x10"), None);
    assert_eq!(parse_u128("\u{ff11}"), None);
    assert_eq!(parse_u128("1\u{e9}"), None);
    assert_eq!(parse_u128("_"), None);
}

#[test]
fn rejects_what_does_not_fit() {
    assert_eq!(parse_u128("340282366920938463463374607431768211456"), None);
    assert_eq!(parse_u128("340282366920938463463374607431768211460"), None);
    assert_eq!(parse_u128("3402823669209384634633746074317682114550"), None);
    assert_eq!(parse_u128("999999999999999999999999999999999999999"), None);
}

#[test]
fn parse_agrees_with_std() {
    let samples = [
        "0", "1", "9", "10", "+10", "010", "", "+", "-", "-0", "a", "1a", "١", "18446744073709551616",
        MAX_TEXT, "340282366920938463463374607431768211456",
    ];
    for s in samples {
        assert_eq!(parse_u128(s), s.parse::<u128>().ok(), "{}", s);
    }
}

#[test]
fn writes_decimal() {
    assert_eq!(decimal_string(0), "0");
    assert_eq!(decimal_string(9), "9");
    assert_eq!(decimal_string(10), "10");
    assert_eq!(decimal_string(1234567890), "1234567890");
    assert_eq!(decimal_string(u128::MAX), MAX_TEXT);
}

#[test]
fn cookie_value_reads_back() {
    for text in ["0", "1", "42", "18446744073709551616", MAX_TEXT] {
        let token = SessionToken::from_str(text).unwrap();
        assert_eq!(token.into_cookie_value(), text);
    }
    let token = SessionToken::from_str("+0042").unwrap();
    assert_eq!(token.into_cookie_value(), "42");
}

#[test]
fn token_from_str_rejects_invalid_cookie_values() {
    assert!(SessionToken::from_str("").is_none());
    assert!(SessionToken::from_str("_").is_none());
    assert!(SessionToken::from_str("-5").is_none());
    assert!(SessionToken::from_str("five").is_none());
    assert!(SessionToken::from_str("340282366920938463463374607431768211456").is_none());
}

#[test]
fn database_value_is_little_endian() {
    let one = SessionToken::from_str("1").unwrap();
    assert_eq!(one.into_database_value(), vec![1, 0, 0, 0, 0, 0, 0, 0, 0, 0, 0, 0, 0, 0, 0, 0]);
    let t = SessionToken::from_str("258").unwrap();
    assert_eq!(t.into_database_value(), vec![2, 1, 0, 0, 0, 0, 0, 0, 0, 0, 0, 0, 0, 0, 0, 0]);
    let max = SessionToken::from_str(MAX_TEXT).unwrap();
    assert_eq!(max.into_database_value(), vec![255u8; 16]);
    let mixed = SessionToken::from_str("1339673755198158349044581307228491536").unwrap();
    assert_eq!(
        mixed.into_database_value(),
        vec![16, 15, 14, 13, 12, 11, 10, 9, 8, 7, 6, 5, 4, 3, 2, 1]
    );
    assert_eq!(
        mixed.into_database_value(),
        1339673755198158349044581307228491536u128.to_le_bytes().to_vec()
    );
}

#[test]
fn token_from_little_endian_bytes() {
    let one = SessionToken::from_le_bytes([1, 0, 0, 0, 0, 0, 0, 0, 0, 0, 0, 0, 0, 0, 0, 0]);
    assert_eq!(one.into_cookie_value(), "1");
    let t = SessionToken::from_le_bytes([0, 1, 0, 0, 0, 0, 0, 0, 0, 0, 0, 0, 0, 0, 0, 0]);
    assert_eq!(t.into_cookie_value(), "256");
    let high = SessionToken::from_le_bytes([0, 0, 0, 0, 0, 0, 0, 0, 0, 0, 0, 0, 0, 0, 0, 1]);
    assert_eq!(high.into_cookie_value(), (1u128 << 120).to_string());
    let max = SessionToken::from_le_bytes([255; 16]);
    assert_eq!(max.into_cookie_value(), MAX_TEXT);
    let bytes = [16, 15, 14, 13, 12, 11, 10, 9, 8, 7, 6, 5, 4, 3, 2, 1];
    let mixed = SessionToken::from_le_bytes(bytes);
    assert_eq!(mixed.into_cookie_value(), "1339673755198158349044581307228491536");
    assert_eq!(mixed.into_cookie_value(), u128::from_le_bytes(bytes).to_string());
    assert_eq!(mixed.into_database_value(), bytes.to_vec());
}

#[test]
fn generated_tokens_come_from_the_generator() {
    let mut rng = ChaCha8Rng::seed_from_u64(7);
    let mut twin = ChaCha8Rng::seed_from_u64(7);
    let first = SessionToken::generate_new(&mut rng);
    let second = SessionToken::generate_new(&mut rng);
    let mut pool = [0u8; 16];
    twin.fill_bytes(&mut pool);
    assert_eq!(first.into_database_value(), pool.to_vec());
    assert_eq!(first.into_cookie_value(), u128::from_le_bytes(pool).to_string());
    twin.fill_bytes(&mut pool);
    assert_eq!(second.into_database_value(), pool.to_vec());
    assert_ne!(first.into_cookie_value(), second.into_cookie_value());
}
