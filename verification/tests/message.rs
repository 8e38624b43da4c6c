use mail_forwarder::message::OutboundMessage;

#[test]
fn wrapped_message_names_the_original_subject() {
    let raw = b"Subject: Hi\r\nFrom: bob@example.org\r\n\r\nHello.\r\n".to_vec();
    let message = OutboundMessage::wrap("Hi", raw.clone());
    assert_eq!(message.subject(), "Fwd: Hi");
    assert_eq!(message.attachment_name(), "original.eml");
    assert_eq!(message.attachment(), &raw);
}

#[test]
fn wrapped_message_with_an_empty_subject() {
    let message = OutboundMessage::wrap("", Vec::new());
    assert_eq!(message.subject(), "Fwd: ");
    assert_eq!(message.attachment_name(), "original.eml");
    assert!(message.attachment().is_empty());
}

#[test]
fn wrapped_message_keeps_every_byte() {
    let raw: Vec<u8> = (0..=255u8).collect();
    let message = OutboundMessage::wrap("Re: Fwd: caf\u{e9}", raw.clone());
    assert_eq!(message.subject(), "Fwd: Re: Fwd: caf\u{e9}");
    assert_eq!(message.attachment(), &raw);
}
