use authenticator::utils::helpers::{char_to_value, name_bytes_to_u64};

fn encode(name: &str) -> Result<u64, String> {
    name_bytes_to_u64(name.as_bytes())
}

#[test]
fn known_account_names_encode_to_their_values() {
    assert_eq!(encode("eosio"), Ok(6138663577826885632));
    assert_eq!(encode("eosio.token"), Ok(6138663591592764928));
    assert_eq!(encode("a"), Ok(3458764513820540928));
    assert_eq!(encode("5"), Ok(2882303761517117440));
    assert_eq!(encode("seedsuseraaa"), Ok(14021003523466562656));
    assert_eq!(encode("wrong"), Ok(16566832077886980096));
}

#[test]
fn empty_and_dot_names_are_zero() {
    assert_eq!(encode(""), Ok(0));
    assert_eq!(encode("."), Ok(0));
}

#[test]
fn thirteenth_character_fills_the_low_nibble() {
    assert_eq!(encode("zzzzzzzzzzzzj"), Ok(u64::MAX));
}

#[test]
fn invalid_characters_are_refused() {
    assert_eq!(encode("A"), Err("Error-Value".to_string()));
    assert_eq!(encode("abc-d"), Err("Error-Value".to_string()));
    assert_eq!(encode("6"), Err("Error-Value".to_string()));
}

#[test]
fn thirteenth_character_beyond_j_is_refused() {
    assert_eq!(encode("iamwaaaaaaytoooolong"), Err("Error-Value".to_string()));
    assert_eq!(encode("aaaaaaaaaaaak"), Err("Error-Value".to_string()));
}

#[test]
fn names_longer_than_thirteen_are_refused() {
    assert_eq!(encode("aaaaaaaaaaaaaa"), Err("Name is too long.".to_string()));
}

#[test]
fn character_values_follow_the_alphabet() {
    assert_eq!(char_to_value(b'.'), Some(0));
    assert_eq!(char_to_value(b'1'), Some(1));
    assert_eq!(char_to_value(b'5'), Some(5));
    assert_eq!(char_to_value(b'a'), Some(6));
    assert_eq!(char_to_value(b'z'), Some(31));
    assert_eq!(char_to_value(b'0'), None);
    assert_eq!(char_to_value(b'6'), None);
    assert_eq!(char_to_value(b'A'), None);
}

#[test]
fn distinct_names_of_one_length_have_distinct_values() {
    assert_ne!(encode("alice"), encode("alicf"));
    assert_ne!(encode("aaaaaaaaaaaaa"), encode("aaaaaaaaaaaab"));
}

#[test]
fn trailing_dots_keep_the_value() {
    assert_eq!(encode("alice"), encode("alice."));
    assert_eq!(encode("alice"), encode("alice........"));
    assert_eq!(encode(""), encode("............."));
    assert_ne!(encode("alice"), encode("alice.a"));
}

#[test]
fn encoding_keeps_the_order_of_names() {
    let mut names = vec!["a", "a.", "a1", "a5", "aa", "b", "z", "zzzzzzzzzzzzj", ".", "1", "eosio", "eosio.token", "seedsuseraaa"];
    names.sort();
    let values: Vec<u64> = names.iter().map(|n| encode(n).unwrap()).collect();
    for w in values.windows(2) {
        assert!(w[0] <= w[1]);
    }
}
