use userdata_api::utilities::{
    basic_word, mark_spaces, read_credentials, safe_basic_auth_decoder, second_word, split_auth,
    AuthData, HeaderError, InvalidItems,
};

fn header(credentials: &str) -> String {
    format!("Basic {}", base64::encode(credentials))
}

#[test]
fn a_basic_header_gives_email_and_token() {
    let auth = safe_basic_auth_decoder(&header("player@example.com:secret-token")).unwrap();
    assert_eq!(auth.email, "player@example.com");
    assert_eq!(auth.token, "secret-token");
    let fixed = safe_basic_auth_decoder("Basic YUBiLmM6dG9r").unwrap();
    assert_eq!(fixed.email, "a@b.c");
    assert_eq!(fixed.token, "tok");
}

#[test]
fn only_the_first_two_fields_count() {
    let auth = safe_basic_auth_decoder(&header("email:token:rest:more")).unwrap();
    assert_eq!(auth.email, "email");
    assert_eq!(auth.token, "token");
    let empty = safe_basic_auth_decoder(&header(":")).unwrap();
    assert_eq!(empty.email, "");
    assert_eq!(empty.token, "");
    let no_token = safe_basic_auth_decoder(&header("email::x")).unwrap();
    assert_eq!(no_token.email, "email");
    assert_eq!(no_token.token, "");
}

#[test]
fn any_white_space_parts_the_words() {
    let encoded = base64::encode("e:t");
    for text in [
        format!("  Basic   {}  ", encoded),
        format!("Basic\t{}", encoded),
        format!("\nBasic\u{2003}{}\r\n", encoded),
        format!("Basic {} trailing words", encoded),
    ] {
        let auth = safe_basic_auth_decoder(&text).unwrap();
        assert_eq!(auth.email, "e");
        assert_eq!(auth.token, "t");
    }
}

#[test]
fn other_shapes_are_refused() {
    let encoded = base64::encode("e:t");
    for text in [
        String::new(),
        "   ".to_string(),
        "Basic".to_string(),
        "Basic   ".to_string(),
        format!("basic {}", encoded),
        format!("Bearer {}", encoded),
        format!("Basic{}", encoded),
        "Basic !!!!".to_string(),
        "Basic YQ".to_string(),
        header("no colon here"),
        format!("Basic {}", base64::encode([0xffu8, 0xfe, b':', b'a'])),
    ] {
        assert_eq!(
            safe_basic_auth_decoder(&text).map(|auth| (auth.email, auth.token)),
            Err(HeaderError::InvalidAuthorization)
        );
    }
}

#[test]
fn unicode_credentials_survive() {
    let auth = safe_basic_auth_decoder(&header("jos\u{e9}@example.com:p\u{e4}ss\u{1f600}")).unwrap();
    assert_eq!(auth.email, "jos\u{e9}@example.com");
    assert_eq!(auth.token, "p\u{e4}ss\u{1f600}");
}

#[test]
fn the_second_word_of_a_basic_header() {
    assert_eq!(basic_word("Basic abc def"), Some("abc".to_string()));
    assert_eq!(basic_word(" Basic\tabc"), Some("abc".to_string()));
    assert_eq!(basic_word("Basic"), None);
    assert_eq!(basic_word("Digest abc"), None);
    assert_eq!(basic_word(""), None);
}

#[test]
fn credentials_split_at_the_colon() {
    let auth = split_auth("a:b:c").unwrap();
    assert_eq!((auth.email.as_str(), auth.token.as_str()), ("a", "b"));
    assert!(split_auth("ab").is_none());
    assert!(split_auth("").is_none());
    let last = split_auth("a:").unwrap();
    assert_eq!((last.email.as_str(), last.token.as_str()), ("a", ""));
}

#[test]
fn decoded_bytes_must_be_text_with_a_colon() {
    let auth = read_credentials(Some(b"me:you".to_vec())).unwrap();
    assert_eq!((auth.email.as_str(), auth.token.as_str()), ("me", "you"));
    assert_eq!(
        read_credentials(None).map(|auth| auth.email),
        Err(HeaderError::InvalidAuthorization)
    );
    assert_eq!(
        read_credentials(Some(vec![0xc3, 0x28, b':'])).map(|auth| auth.email),
        Err(HeaderError::InvalidAuthorization)
    );
    assert_eq!(
        read_credentials(Some(b"nocolon".to_vec())).map(|auth| auth.email),
        Err(HeaderError::InvalidAuthorization)
    );
}

#[test]
fn missing_items_become_refusals() {
    assert_eq!(Some(3).invalid_auth(), Ok(3));
    assert_eq!(None::<u8>.invalid_auth(), Err(HeaderError::InvalidAuthorization));
    assert_eq!(Some(3).invalid_header(), Ok(3));
    assert_eq!(None::<u8>.invalid_header(), Err(HeaderError::InvalidHeader));
    let fine: Result<u8, String> = Ok(1);
    let broken: Result<u8, String> = Err("broken".to_string());
    assert_eq!(fine.clone().invalid_auth(), Ok(1));
    assert_eq!(broken.clone().invalid_auth(), Err(HeaderError::InvalidAuthorization));
    assert_eq!(fine.invalid_header(), Ok(1));
    assert_eq!(broken.invalid_header(), Err(HeaderError::InvalidHeader));
}

#[test]
fn refusals_have_messages() {
    assert_eq!(HeaderError::InvalidAuthorization.message(), "Invalid authorization header");
    assert_eq!(HeaderError::InvalidHeader.message(), "Invalid header");
}

#[test]
fn white_space_is_marked() {
    let text: Vec<char> = "a b\tc\u{a0}d\u{3000}_\n".chars().collect();
    assert_eq!(
        mark_spaces(&text),
        vec![false, true, false, true, false, true, false, true, false, true]
    );
    assert_eq!(mark_spaces(&vec![]), Vec::<bool>::new());
}

#[test]
fn words_are_parted_where_the_marks_say() {
    let text: Vec<char> = "Basic_abc_def".chars().collect();
    let underscores: Vec<bool> = text.iter().map(|c| *c == '_').collect();
    assert_eq!(second_word(&text, &underscores), Some("abc".to_string()));
    let nothing: Vec<bool> = text.iter().map(|_| false).collect();
    assert_eq!(second_word(&text, &nothing), None);
    let first_five: Vec<bool> = (0..text.len()).map(|at| at == 5).collect();
    assert_eq!(second_word(&text, &first_five), Some("abc_def".to_string()));
    let everything: Vec<bool> = text.iter().map(|_| true).collect();
    assert_eq!(second_word(&text, &everything), None);
}

#[test]
fn credentials_of_a_header_that_carries_some() {
    let auth = AuthData::from_header("Basic YUBiLmM6dG9r");
    assert_eq!((auth.email.as_str(), auth.token.as_str()), ("a@b.c", "tok"));
    let found = AuthData::try_from_header("  Basic\tYUBiLmM6dG9r ").unwrap();
    assert_eq!((found.email.as_str(), found.token.as_str()), ("a@b.c", "tok"));
    assert!(AuthData::try_from_header("Basic").is_none());
    assert!(AuthData::try_from_header("Bearer YUBiLmM6dG9r").is_none());
    assert!(AuthData::try_from_header("Basic YUBiLmM=").is_none());
}

#[test]
fn white_space_is_what_unicode_says_it_is() {
    let listed = |code: u32| {
        (0x09..=0x0D).contains(&code)
            || [0x20, 0x85, 0xA0, 0x1680, 0x2028, 0x2029, 0x202F, 0x205F, 0x3000].contains(&code)
            || (0x2000..=0x200A).contains(&code)
    };
    let every: Vec<char> = (0..=0x10FFFFu32).filter_map(char::from_u32).collect();
    let marks = mark_spaces(&every);
    assert_eq!(marks.len(), every.len());
    let mut spaces: u32 = 0;
    for (c, mark) in every.iter().zip(marks.iter()) {
        assert_eq!(*mark, listed(*c as u32));
        if *mark {
            spaces += 1;
        }
    }
    assert_eq!(spaces, 25);
}
