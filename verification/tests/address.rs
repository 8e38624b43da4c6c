use mail_forwarder::address::{
    build_envelope, envelope_from, first_refused_index, is_valid_address, parse_recipients,
    recipients_from, sender_address, Envelope, MAX_ADDRESS_LENGTH, MAX_INTERNATIONAL_LENGTH,
};
use mail_forwarder::batch::distinct_in_order;
use mail_forwarder::config::{
    Configuration, DEFAULT_RETRIEVAL_PORT, DEFAULT_SUBMISSION_PORT, POLL_INTERVAL_SECONDS,
};
use mail_forwarder::error::ForwardError;

#[test]
fn sender_is_identity_at_domain() {
    assert_eq!(sender_address("alice", "example.com"), "alice@example.com");
    assert_eq!(sender_address("", ""), "@");
}

#[test]
fn two_recipients_whatever_the_whitespace_between_them() {
    let expected = vec!["a@x.com".to_string(), "b@y.com".to_string()];
    assert_eq!(parse_recipients("a@x.com   b@y.com"), Ok(expected.clone()));
    assert_eq!(parse_recipients("a@x.com b@y.com"), Ok(expected.clone()));
    assert_eq!(parse_recipients("\ta@x.com \n\n b@y.com  "), Ok(expected));
}

#[test]
fn recipients_keep_their_order() {
    assert_eq!(
        parse_recipients("c@z.org a@x.com b@y.com"),
        Ok(vec!["c@z.org".to_string(), "a@x.com".to_string(), "b@y.com".to_string()])
    );
}

#[test]
fn a_malformed_recipient_is_named() {
    assert_eq!(
        parse_recipients("not-an-address"),
        Err(ForwardError::InvalidAddress("not-an-address".to_string()))
    );
}

#[test]
fn the_first_malformed_recipient_is_named() {
    assert_eq!(
        parse_recipients("a@x.com second@ b@y.com third"),
        Err(ForwardError::InvalidAddress("second@".to_string()))
    );
}

#[test]
fn an_empty_list_has_no_recipients() {
    assert_eq!(parse_recipients(""), Ok(Vec::<String>::new()));
    assert_eq!(parse_recipients("  "), Ok(Vec::<String>::new()));
}

#[test]
fn envelope_of_a_valid_configuration() {
    let envelope = build_envelope("alice", "example.com", "a@x.com   b@y.com").unwrap();
    assert_eq!(envelope.sender(), "alice@example.com");
    assert_eq!(envelope.recipients(), &vec!["a@x.com".to_string(), "b@y.com".to_string()]);
    let copy = envelope.clone();
    assert_eq!(copy, envelope);
}

#[test]
fn envelope_with_a_malformed_sender() {
    assert_eq!(
        build_envelope("two words", "example.com", "a@x.com"),
        Err(ForwardError::InvalidAddress("two words@example.com".to_string()))
    );
}

#[test]
fn envelope_examines_the_sender_before_the_recipients() {
    assert_eq!(
        build_envelope("", "example.com", "not-an-address"),
        Err(ForwardError::InvalidAddress("@example.com".to_string()))
    );
}

#[test]
fn envelope_with_a_malformed_recipient() {
    assert_eq!(
        build_envelope("alice", "example.com", "a@x.com not-an-address"),
        Err(ForwardError::InvalidAddress("not-an-address".to_string()))
    );
}

#[test]
fn identifiers_are_kept_once_in_order() {
    assert_eq!(distinct_in_order(&vec![]), Vec::<u32>::new());
    assert_eq!(distinct_in_order(&vec![1, 2]), vec![1, 2]);
    assert_eq!(distinct_in_order(&vec![3, 1, 3, 2, 1, 3]), vec![3, 1, 2]);
    assert_eq!(distinct_in_order(&vec![7, 7, 7]), vec![7]);
}

#[test]
fn configuration_defaults() {
    let config = Configuration::with_defaults(
        "alice".to_string(),
        "secret".to_string(),
        "imap.example.com".to_string(),
        "smtp.example.com".to_string(),
        "a@x.com".to_string(),
    );
    assert_eq!(config.retrieval_port, 993);
    assert_eq!(config.submission_port, 587);
    assert!(config.strict_certificates);
    assert_eq!(config.identity, "alice");
    assert_eq!(config.secret, "secret");
    assert_eq!(config.retrieval_host, "imap.example.com");
    assert_eq!(config.submission_host, "smtp.example.com");
    assert_eq!(config.recipients, "a@x.com");
    assert_eq!(config.deadline_seconds, None);
    assert_eq!(DEFAULT_RETRIEVAL_PORT, 993);
    assert_eq!(DEFAULT_SUBMISSION_PORT, 587);
    assert_eq!(POLL_INTERVAL_SECONDS, 300);
    assert_eq!(config.clone(), config);
}

#[test]
fn configuration_knows_whether_it_names_a_recipient() {
    let mut config = Configuration::with_defaults(
        "alice".to_string(),
        "secret".to_string(),
        "imap.example.com".to_string(),
        "smtp.example.com".to_string(),
        "a@x.com".to_string(),
    );
    assert!(config.has_recipients());
    config.recipients = " \t ".to_string();
    assert!(!config.has_recipients());
    config.recipients = String::new();
    assert!(!config.has_recipients());
    config.recipients = "anything".to_string();
    assert!(config.has_recipients());
}

#[test]
fn only_an_empty_inbox_is_no_fault() {
    assert!(!ForwardError::NoNewMail.is_fault());
    assert!(ForwardError::InvalidDomain.is_fault());
    assert!(ForwardError::ConnectFailed.is_fault());
    assert!(ForwardError::AuthenticationFailed.is_fault());
    assert!(ForwardError::MailboxUnavailable.is_fault());
    assert!(ForwardError::FetchFailed(2).is_fault());
    assert!(ForwardError::InvalidAddress("x".to_string()).is_fault());
    assert!(ForwardError::SubmissionRejected(550, "no".to_string()).is_fault());
}

#[test]
fn errors_are_copied_whole() {
    let errors = vec![
        ForwardError::InvalidDomain,
        ForwardError::ConnectFailed,
        ForwardError::AuthenticationFailed,
        ForwardError::MailboxUnavailable,
        ForwardError::NoNewMail,
        ForwardError::FetchFailed(9),
        ForwardError::InvalidAddress("bad".to_string()),
        ForwardError::SubmissionRejected(554, "rejected".to_string()),
    ];
    for error in &errors {
        assert_eq!(&error.clone(), error);
    }
    assert_ne!(ForwardError::FetchFailed(1), ForwardError::FetchFailed(2));
}

#[test]
fn the_first_refused_verdict_is_found() {
    assert_eq!(first_refused_index(&vec![]), None);
    assert_eq!(first_refused_index(&vec![true, true]), None);
    assert_eq!(first_refused_index(&vec![false]), Some(0));
    assert_eq!(first_refused_index(&vec![true, false, true, false]), Some(1));
    assert_eq!(first_refused_index(&vec![true, true, false]), Some(2));
}

#[test]
fn recipients_are_chosen_by_their_verdicts() {
    let candidates = vec!["a".to_string(), "b".to_string(), "c".to_string()];
    assert_eq!(
        recipients_from(candidates.clone(), &vec![true, true, true]),
        Ok(candidates.clone())
    );
    assert_eq!(
        recipients_from(candidates.clone(), &vec![true, false, false]),
        Err(ForwardError::InvalidAddress("b".to_string()))
    );
    assert_eq!(
        recipients_from(candidates, &vec![false, true, true]),
        Err(ForwardError::InvalidAddress("a".to_string()))
    );
    assert_eq!(recipients_from(Vec::new(), &Vec::new()), Ok(Vec::<String>::new()));
}

#[test]
fn an_envelope_is_put_together_from_verdicts() {
    let recipients = vec!["a@x.com".to_string(), "b@y.com".to_string()];
    let envelope =
        envelope_from("alice@example.com".to_string(), true, Ok(recipients.clone())).unwrap();
    assert_eq!(envelope.sender(), "alice@example.com");
    assert_eq!(envelope.recipients(), &recipients);
    assert_eq!(
        envelope_from("alice".to_string(), false, Ok(recipients.clone())),
        Err(ForwardError::InvalidAddress("alice".to_string()))
    );
    assert_eq!(
        envelope_from(
            "alice".to_string(),
            false,
            Err(ForwardError::InvalidAddress("bob".to_string()))
        ),
        Err(ForwardError::InvalidAddress("alice".to_string()))
    );
    assert_eq!(
        envelope_from(
            "alice@example.com".to_string(),
            true,
            Err(ForwardError::InvalidAddress("bob".to_string()))
        ),
        Err(ForwardError::InvalidAddress("bob".to_string()))
    );
}

#[test]
fn an_envelope_needs_a_recipient() {
    assert_eq!(Envelope::new("alice@example.com".to_string(), Vec::new()), None);
    let envelope =
        Envelope::new("alice@example.com".to_string(), vec!["a@x.com".to_string()]).unwrap();
    assert_eq!(envelope.sender(), "alice@example.com");
    assert_eq!(envelope.recipients(), &vec!["a@x.com".to_string()]);
}

#[test]
fn valid_and_invalid_addresses() {
    assert!(is_valid_address("a@x.com"));
    assert!(is_valid_address("first.last+tag@mail.example.org"));
    assert!(is_valid_address("user@[192.0.2.1]"));
    assert!(!is_valid_address(""));
    assert!(!is_valid_address("@"));
    assert!(!is_valid_address("not-an-address"));
    assert!(!is_valid_address("a@"));
    assert!(!is_valid_address("@x.com"));
    assert!(!is_valid_address("two words@x.com"));
}

#[test]
fn the_longest_address_is_320_characters() {
    assert_eq!(MAX_ADDRESS_LENGTH, 320);
    let label = "b".repeat(60);
    let domain = format!("{}.{}.{}.com", label, label, label);
    let fits = format!("{}@{}", "a".repeat(64), domain);
    assert!(fits.chars().count() <= 320);
    assert!(is_valid_address(&fits));
    let padded = format!("{}@{}.com", "a".repeat(20), "b".repeat(310));
    assert!(padded.chars().count() > 320);
    assert!(!is_valid_address(&padded));
}

#[test]
fn an_overlong_text_is_refused_without_being_parsed() {
    let text = format!("a@{}{}", "a".repeat(3855), '\u{10FF70}');
    assert_eq!(text.chars().count(), 3858);
    assert!(!is_valid_address(&text));
    assert_eq!(parse_recipients(&text), Err(ForwardError::InvalidAddress(text.clone())));
    let list = format!("a@x.com {} b@y.com", text);
    assert_eq!(parse_recipients(&list), Err(ForwardError::InvalidAddress(text)));
}

#[test]
fn an_overlong_sender_is_refused() {
    let identity = "i".repeat(400);
    assert_eq!(
        build_envelope(&identity, "example.com", "a@x.com"),
        Err(ForwardError::InvalidAddress(format!("{}@example.com", identity)))
    );
}

#[test]
fn an_overlong_recipient_is_refused_after_a_valid_one() {
    let long = format!("{}@example.com", "r".repeat(330));
    let list = format!("a@x.com {}", long);
    assert_eq!(
        build_envelope("alice", "example.com", &list),
        Err(ForwardError::InvalidAddress(long))
    );
}

#[test]
fn an_expanding_international_text_is_refused_without_being_parsed() {
    let text = format!("a@{}{}", "\u{FDFA}".repeat(215), '\u{10F45E}');
    assert_eq!(text.chars().count(), 218);
    assert!(!is_valid_address(&text));
    assert_eq!(parse_recipients(&text), Err(ForwardError::InvalidAddress(text.clone())));
    assert_eq!(
        build_envelope("alice", "example.com", &format!("a@x.com {}", text)),
        Err(ForwardError::InvalidAddress(text))
    );
}

#[test]
fn an_international_text_of_200_characters_is_parsed() {
    assert_eq!(MAX_INTERNATIONAL_LENGTH, 200);
    let text = format!("a@{}{}", "\u{FDFA}".repeat(197), '\u{10F45E}');
    assert_eq!(text.chars().count(), 200);
    assert!(!is_valid_address(&text));
    let plain = format!("a@{}.example", "\u{e9}".repeat(190));
    assert_eq!(plain.chars().count(), 200);
    assert!(!is_valid_address(&plain));
}

#[test]
fn an_international_text_of_201_characters_is_refused() {
    let text = format!("a@{}.com", "\u{e9}".repeat(195));
    assert_eq!(text.chars().count(), 201);
    assert!(!is_valid_address(&text));
    assert_eq!(parse_recipients(&text), Err(ForwardError::InvalidAddress(text)));
}

#[test]
fn a_short_international_address_is_valid() {
    assert!(is_valid_address("user@b\u{fc}cher.example"));
    assert_eq!(
        parse_recipients("user@b\u{fc}cher.example a@x.com"),
        Ok(vec!["user@b\u{fc}cher.example".to_string(), "a@x.com".to_string()])
    );
}

#[test]
fn an_ascii_address_may_be_longer_than_200_characters() {
    let label = "b".repeat(60);
    let address = format!("{}@{}.{}.{}.com", "a".repeat(30), label, label, label);
    assert!(address.is_ascii());
    assert!(address.chars().count() > 200);
    assert!(is_valid_address(&address));
}
