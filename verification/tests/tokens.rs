use userdata_api::utilities::{
    derive_token, encode_hex, encode_user_token, fits_mac, message_of, TokenDerivationError,
};

fn parts(values: &[&str]) -> Vec<String> {
    values.iter().map(|value| value.to_string()).collect()
}

#[test]
fn hex_is_lowercase_and_two_digits_a_byte() {
    assert_eq!(encode_hex(&vec![]), "");
    assert_eq!(encode_hex(&vec![0x00]), "00");
    assert_eq!(encode_hex(&vec![0x0a]), "0a");
    assert_eq!(encode_hex(&vec![0xa0]), "a0");
    assert_eq!(encode_hex(&vec![0xff, 0x10, 0x9c]), "ff109c");
    assert_eq!(
        encode_hex(&vec![0x01, 0x23, 0x45, 0x67, 0x89, 0xab, 0xcd, 0xef]),
        "0123456789abcdef"
    );
}

#[test]
fn the_message_is_the_parts_in_a_row() {
    assert_eq!(message_of(&parts(&[])), Vec::<u8>::new());
    assert_eq!(message_of(&parts(&["ab", "", "c"])), b"abc".to_vec());
    assert_eq!(message_of(&parts(&["é", "x"])), vec![0xc3, 0xa9, b'x']);
}

#[test]
fn known_codes_of_the_mac() {
    let fox = derive_token(
        Some("key"),
        &parts(&["The quick brown fox jumps over the lazy dog"]),
    );
    assert_eq!(fox, Ok("de7c9b85b8b78aa6bc8a7a36f70a90701c9db4d9".to_string()));
    let empty = derive_token(Some(""), &parts(&[]));
    assert_eq!(empty, Ok("fbdb1d1b18aa6c08324b7d64b71fb76370690e1d".to_string()));
    let jefe = derive_token(Some("Jefe"), &parts(&["what do ya want ", "for nothing?"]));
    assert_eq!(jefe, Ok("effcdf6ae5eb2fa2d27416d5f184df9c259a7c79".to_string()));
}

#[test]
fn the_parts_are_fed_in_order() {
    let together = derive_token(Some("key"), &parts(&["The quick brown fox jumps over the lazy dog"]));
    let split = derive_token(
        Some("key"),
        &parts(&["The quick brown fox ", "jumps over", " the lazy dog"]),
    );
    assert_eq!(together, split);
    let swapped = derive_token(
        Some("key"),
        &parts(&["jumps over", "The quick brown fox ", " the lazy dog"]),
    );
    assert_ne!(together, swapped);
}

#[test]
fn a_user_token_is_the_mac_of_email_then_token() {
    assert_eq!(
        encode_user_token("what do ya want ", "for nothing?", "Jefe"),
        "effcdf6ae5eb2fa2d27416d5f184df9c259a7c79"
    );
    assert_eq!(
        Ok(encode_user_token("player@example.com", "player-token", "secret")),
        derive_token(Some("secret"), &parts(&["player@example.com", "player-token"]))
    );
}

#[test]
fn tokens_are_forty_lowercase_digits() {
    let token = encode_user_token("someone@example.com", "0123", "a secret");
    assert_eq!(token.len(), 40);
    assert!(token.chars().all(|c| c.is_ascii_digit() || ('a'..='f').contains(&c)));
}

#[test]
fn the_same_input_gives_the_same_token() {
    let first = derive_token(Some("secret"), &parts(&["id", "token"]));
    let second = derive_token(Some("secret"), &parts(&["id", "token"]));
    assert!(first.is_ok());
    assert_eq!(first, second);
}

#[test]
fn changing_one_part_changes_the_token() {
    let base = derive_token(Some("secret"), &parts(&["id", "token"]));
    assert_ne!(base, derive_token(Some("secret"), &parts(&["id2", "token"])));
    assert_ne!(base, derive_token(Some("secret"), &parts(&["id", "token2"])));
    assert_ne!(base, derive_token(Some("secret"), &parts(&["Id", "token"])));
    assert_ne!(base, derive_token(Some("secret2"), &parts(&["id", "token"])));
    assert_ne!(base, derive_token(Some("secret"), &parts(&[])));
}

#[test]
fn an_absent_secret_is_the_only_failure() {
    assert_eq!(
        derive_token(None, &parts(&["id", "token"])),
        Err(TokenDerivationError::SecretAbsent)
    );
    assert!(derive_token(Some(""), &parts(&["", "\u{0}\u{10ffff}"])).is_ok());
    let long = "x".repeat(100_000);
    assert!(derive_token(Some(long.as_str()), &parts(&[long.as_str()])).is_ok());
}

#[test]
fn a_long_secret_is_hashed_first() {
    let key = "k".repeat(80);
    let token = derive_token(Some(key.as_str()), &parts(&["message"]));
    assert_eq!(token.map(|text| text.len()), Ok(40));
    assert_ne!(
        derive_token(Some(key.as_str()), &parts(&["message"])),
        derive_token(Some(&key[..79]), &parts(&["message"]))
    );
}

#[test]
fn ordinary_inputs_fit_the_mac() {
    assert!(fits_mac("secret", &b"message".to_vec()));
    assert!(fits_mac("", &vec![]));
}

#[test]
fn nothing_marks_where_a_part_ends() {
    assert_eq!(
        derive_token(Some("secret"), &parts(&["ab", "c"])),
        derive_token(Some("secret"), &parts(&["a", "bc"]))
    );
    assert_eq!(encode_user_token("ab", "c", "secret"), encode_user_token("a", "bc", "secret"));
}
