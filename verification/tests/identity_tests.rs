use openfront_client::identity::{
    accept_stored_client_id, accept_stored_token, choose_client_id, choose_token, client_id_char,
    client_id_from_draws, generate_client_id, is_whitespace_char, str_trim,
};

fn is_id_char(c: char) -> bool {
    c.is_ascii_digit() || c.is_ascii_uppercase()
}

#[test]
fn alphabet() {
    assert_eq!(client_id_char(0), '0');
    assert_eq!(client_id_char(9), '9');
    assert_eq!(client_id_char(10), 'A');
    assert_eq!(client_id_char(35), 'Z');
}

#[test]
fn generated_ids_have_eight_alphabet_characters() {
    for _ in 0..50 {
        let id = generate_client_id();
        assert_eq!(id.chars().count(), 8);
        assert!(id.chars().all(is_id_char));
        // a generated id is reused when read back from storage
        assert_eq!(accept_stored_client_id(&id), Some(id.clone()));
    }
}

#[test]
fn stored_client_id_is_trimmed_and_checked() {
    assert_eq!(accept_stored_client_id("  AB12cd34 \n"), Some("AB12cd34".to_string()));
    assert_eq!(accept_stored_client_id("\u{3000}QWERTY12\u{a0}"), Some("QWERTY12".to_string()));
    assert_eq!(accept_stored_client_id(""), None);
    assert_eq!(accept_stored_client_id("   "), None);
    assert_eq!(accept_stored_client_id("abc"), None);
    assert_eq!(accept_stored_client_id("1234567"), None);
    assert_eq!(accept_stored_client_id("123456789"), None);
    assert_eq!(accept_stored_client_id("AB-12345"), None);
    assert_eq!(accept_stored_client_id("AB 12345"), None);
    // only ASCII letters and digits make a client id
    assert_eq!(accept_stored_client_id("äöü"), None);
    assert_eq!(accept_stored_client_id("äöüäöüäö"), None);
}

#[test]
fn choose_client_id_reuses_or_generates() {
    let (id, fresh) = choose_client_id(Some("XYZ12345\n"));
    assert_eq!(id, "XYZ12345");
    assert!(!fresh);
    let (id, fresh) = choose_client_id(Some("XYZ123"));
    assert!(fresh);
    assert_eq!(id.len(), 8);
    assert!(id.chars().all(is_id_char));
    let (id, fresh) = choose_client_id(Some("bad id!"));
    assert!(fresh);
    assert_eq!(id.len(), 8);
    let (_, fresh) = choose_client_id(None);
    assert!(fresh);
}

#[test]
fn tokens() {
    let (t, fresh) = choose_token(None);
    assert!(fresh);
    assert_eq!(t.len(), 36);
    assert!(t.chars().all(|c| c.is_ascii_digit() || ('a'..='f').contains(&c) || c == '-'));
    assert_eq!(accept_stored_token(&t), Some(t.clone()));
    let padded = format!(" {}\n", t);
    assert_eq!(accept_stored_token(&padded), Some(t.clone()));
    assert_eq!(accept_stored_token("not-a-uuid"), None);
    assert_eq!(accept_stored_token("550e8400e29b41d4a716446655440000"), Some("550e8400e29b41d4a716446655440000".to_string()));
    assert_eq!(
        accept_stored_token("{550e8400-e29b-41d4-a716-446655440000}"),
        Some("{550e8400-e29b-41d4-a716-446655440000}".to_string())
    );
    assert_eq!(
        accept_stored_token("URN:uuid:550e8400-e29b-41d4-a716-446655440000"),
        Some("URN:uuid:550e8400-e29b-41d4-a716-446655440000".to_string())
    );
    assert_eq!(accept_stored_token("550e8400-e29b-41d4-a716-44665544000g"), None);
    assert_eq!(accept_stored_token("550e8400xe29b-41d4-a716-446655440000"), None);
    assert_eq!(
        accept_stored_token("550E8400-E29B-41D4-A716-446655440000"),
        Some("550E8400-E29B-41D4-A716-446655440000".to_string())
    );
    let (tok, fresh) = choose_token(Some("550e8400-e29b-41d4-a716-446655440000"));
    assert_eq!(tok, "550e8400-e29b-41d4-a716-446655440000");
    assert!(!fresh);
    let (tok, fresh) = choose_token(Some("garbage"));
    assert!(fresh);
    assert_eq!(tok.len(), 36);
}

#[test]
fn ids_are_spelled_from_the_draws() {
    assert_eq!(client_id_from_draws(&vec![0, 9, 10, 35, 1, 2, 11, 12]), "09AZ12BC");
    assert_eq!(client_id_from_draws(&vec![]), "");
}

#[test]
fn trim_matches_std() {
    let samples = [
        "", "   ", "abc", "  abc", "abc \n", "\t a b \r\n", "\u{3000}x\u{a0}", "\u{85}\u{2028}",
        "ä ö", "\u{200b}x\u{200b}", " \u{feff}y ",
    ];
    for s in samples {
        assert_eq!(str_trim(s), s.trim(), "{:?}", s);
    }
    for c in ['\u{0}', ' ', '\t', '\n', '\u{b}', '\u{c}', '\r', 'a', '\u{85}', '\u{a0}', '\u{1680}', '\u{2000}',
        '\u{200a}', '\u{200b}', '\u{2028}', '\u{2029}', '\u{202f}', '\u{205f}', '\u{3000}', '\u{feff}', '\u{1c}'] {
        assert_eq!(is_whitespace_char(c), c.is_whitespace(), "{:?}", c);
    }
}

#[test]
fn whitespace_set_is_unicode_white_space() {
    for u in 0..=0x10FFFFu32 {
        if let Some(c) = char::from_u32(u) {
            assert_eq!(is_whitespace_char(c), c.is_whitespace(), "U+{:04X}", u);
        }
    }
}
