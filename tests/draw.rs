use playible::draw::{hex_to_athlete, seed_from_randomness};
use playible::error::ContractError;
use playible::rarity::Rarity;
use playible::token_id::{decimal_string, make_token_id};

#[test]
fn hex_to_athlete_maps_each_chunk_modulo_class_count() {
    assert_eq!(hex_to_athlete("abc123", 2), Ok(vec![0xabc % 2, 0x123 % 2]));
    assert_eq!(hex_to_athlete("abc123", 2), Ok(vec![0, 1]));
}

#[test]
fn hex_to_athlete_reads_a_short_last_chunk() {
    assert_eq!(hex_to_athlete("abcd", 1000), Ok(vec![0xabc % 1000, 0xd]));
    assert_eq!(hex_to_athlete("fff0f", 7), Ok(vec![0xfff % 7, 0x0f % 7]));
}

#[test]
fn hex_to_athlete_accepts_upper_case_and_empty_seeds() {
    assert_eq!(hex_to_athlete("ABC", 5000), Ok(vec![0xabc]));
    assert_eq!(hex_to_athlete("", 3), Ok(vec![]));
}

#[test]
fn hex_to_athlete_rejects_non_hex_seeds() {
    assert_eq!(hex_to_athlete("abg", 2), Err(ContractError::InvalidMessage {}));
    assert_eq!(hex_to_athlete("123 45", 2), Err(ContractError::InvalidMessage {}));
}

#[test]
fn seed_takes_the_tail_of_the_hex_randomness() {
    let bytes = vec![0xab, 0xcd, 0xef];
    assert_eq!(seed_from_randomness(&bytes, 1), Some("def".to_string()));
    assert_eq!(seed_from_randomness(&bytes, 2), Some("abcdef".to_string()));
    let bytes = vec![0x01, 0x0f, 0xa0, 0xff];
    assert_eq!(seed_from_randomness(&bytes, 2), Some("0fa0ff".to_string()));
}

#[test]
fn seed_needs_enough_randomness_and_a_positive_count() {
    let bytes = vec![0xab, 0xcd, 0xef];
    assert_eq!(seed_from_randomness(&bytes, 0), None);
    assert_eq!(seed_from_randomness(&bytes, 3), None);
}

#[test]
fn decimal_strings() {
    assert_eq!(decimal_string(0), "0");
    assert_eq!(decimal_string(7), "7");
    assert_eq!(decimal_string(10), "10");
    assert_eq!(decimal_string(1234567890), "1234567890");
    assert_eq!(decimal_string(u64::MAX), "18446744073709551615");
}

#[test]
fn token_ids_join_symbol_code_and_serial() {
    assert_eq!(make_token_id("LBJ", Rarity::Common, 1), "LBJC1");
    assert_eq!(make_token_id("LBJ", Rarity::Rare, 12), "LBJR12");
    assert_eq!(make_token_id("", Rarity::Legendary, 3), "L3");
    assert_ne!(make_token_id("KD", Rarity::Uncommon, 1), make_token_id("KD", Rarity::Uncommon, 11));
}

#[test]
fn rarity_codes() {
    assert_eq!(Rarity::from_code("U"), Rarity::Uncommon);
    assert_eq!(Rarity::from_code("R"), Rarity::Rare);
    assert_eq!(Rarity::from_code("L"), Rarity::Legendary);
    assert_eq!(Rarity::from_code("C"), Rarity::Common);
    assert_eq!(Rarity::from_code("X"), Rarity::Common);
    assert_eq!(Rarity::from_code("UU"), Rarity::Common);
    assert_eq!(Rarity::Legendary.code(), "L");
    assert_eq!(Rarity::Common.usage_cap(), 3);
    assert_eq!(Rarity::Uncommon.usage_cap(), 5);
    assert_eq!(Rarity::Rare.usage_cap(), 10);
    assert_eq!(Rarity::Legendary.usage_cap(), 999_999_999);
}
