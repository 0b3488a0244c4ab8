use zero2prod::domain::{
    char_is_forbidden, contains_forbidden_characters, name_is_acceptable, SubscriberEmail,
    SubscriberName, MAX_NAME_LENGTH,
};

#[test]
fn an_address_is_accepted_as_it_is() {
    for text in ["ursula_le_guin@gmail.com", "email@here.com", "email@[127.0.0.1]", "a@b"] {
        let email = SubscriberEmail::parse(text.to_string()).unwrap();
        assert_eq!(email.as_ref(), text);
        assert_eq!(email.duplicate(), email);
    }
}

#[test]
fn a_text_that_is_no_address_is_refused() {
    for text in ["", "ursuladomain.com", "@domain.com", "ursula@", "definitely-not-an-email", "a b@c.d"] {
        assert_eq!(
            SubscriberEmail::parse(text.to_string()),
            Err(format!("{} is not a valid subscriber email.", text))
        );
    }
}

#[test]
fn a_checked_text_becomes_an_address_or_a_message() {
    assert_eq!(SubscriberEmail::from_checked("a@b.c".to_string(), true).unwrap().as_ref(), "a@b.c");
    assert_eq!(
        SubscriberEmail::from_checked("nothing".to_string(), false),
        Err("nothing is not a valid subscriber email.".to_string())
    );
}

#[test]
fn a_256_grapheme_long_name_is_valid() {
    assert_eq!(MAX_NAME_LENGTH, 256);
    let name = "\u{451}".repeat(256);
    assert_eq!(SubscriberName::parse(name.clone()).unwrap().as_ref(), name);
    let clusters = "e\u{301}".repeat(256);
    assert!(SubscriberName::parse(clusters).is_ok());
}

#[test]
fn a_name_longer_than_256_graphemes_is_rejected() {
    let name = "a".repeat(257);
    assert_eq!(
        SubscriberName::parse(name.clone()),
        Err(format!("{} is not a valid subscriber name.", name))
    );
}

#[test]
fn whitespace_only_names_are_rejected() {
    for name in [" ", "   ", "\t\n", "\u{a0}\u{2003}"] {
        assert_eq!(
            SubscriberName::parse(name.to_string()),
            Err(format!("{} is not a valid subscriber name.", name))
        );
    }
}

#[test]
fn empty_string_is_rejected() {
    assert_eq!(
        SubscriberName::parse(String::new()),
        Err(" is not a valid subscriber name.".to_string())
    );
}

#[test]
fn names_containing_an_invalid_character_are_rejected() {
    for c in ['/', '(', ')', '"', '<', '>', '\\', '{', '}'] {
        assert!(char_is_forbidden(c));
        let name = format!("Ursula{}", c);
        assert!(contains_forbidden_characters(&name));
        assert_eq!(
            SubscriberName::parse(name.clone()),
            Err(format!("{} is not a valid subscriber name.", name))
        );
    }
    assert!(!char_is_forbidden('a'));
    assert!(!char_is_forbidden('['));
}

#[test]
fn a_valid_name_is_parsed_successfully() {
    assert_eq!(SubscriberName::parse("Ursula Le Guin".to_string()).unwrap().as_ref(), "Ursula Le Guin");
    assert_eq!(SubscriberName::parse(" padded ".to_string()).unwrap().as_ref(), " padded ");
}

#[test]
fn a_name_is_judged_by_blankness_length_and_content() {
    assert!(name_is_acceptable("Ursula", false, 6));
    assert!(name_is_acceptable("Ursula", false, 256));
    assert!(!name_is_acceptable("Ursula", false, 257));
    assert!(!name_is_acceptable("Ursula", true, 6));
    assert!(!name_is_acceptable("Urs<ula", false, 7));
}
