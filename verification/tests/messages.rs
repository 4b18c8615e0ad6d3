use himalaya::messages::{
    envelope_from_headers, find_valid_email, header_kind, into_smtp_msg, message_text, raw_from_lines,
    AddressValue, HeaderAddresses, HeaderKind, MessageView, MessagesSendCommand, SmtpEnvelope,
    SmtpEnvelopeError,
};

fn mailboxes(env: &SmtpEnvelope) -> (String, Vec<String>) {
    let from = format!("{}@{}", env.reverse_path.local_part, env.reverse_path.domain);
    let to = env.forward_paths.iter().map(|m| format!("{}@{}", m.local_part, m.domain)).collect();
    (from, to)
}

#[test]
fn envelope_of_a_simple_message() {
    let raw = "From: Alice <alice@example.com>\r\nTo: bob@example.com, Carol <carol@example.org>\r\nCc: bob@example.com\r\nBcc: dave@example.net\r\nSubject: hi\r\n\r\nbody\r\n";
    let env = into_smtp_msg(raw.as_bytes()).unwrap();
    let (from, to) = mailboxes(&env);
    assert_eq!(from, "alice@example.com");
    assert_eq!(env.reverse_path.local_part, "alice");
    assert_eq!(env.reverse_path.domain, "example.com");
    assert_eq!(to, vec!["bob@example.com", "carol@example.org", "dave@example.net"]);
}

#[test]
fn envelope_reads_groups() {
    let raw = "From: Team: alice@example.com, x@example.com;\r\nTo: Friends: bob@example.com, carol@example.org;\r\n\r\nbody\r\n";
    let env = into_smtp_msg(raw.as_bytes()).unwrap();
    let (from, to) = mailboxes(&env);
    assert_eq!(from, "alice@example.com");
    assert_eq!(to, vec!["bob@example.com", "carol@example.org"]);
}

#[test]
fn envelope_errors() {
    let no_sender = "To: bob@example.com\r\n\r\nbody\r\n";
    assert!(matches!(into_smtp_msg(no_sender.as_bytes()), Err(SmtpEnvelopeError::NoSender)));
    let no_rcpt = "From: alice@example.com\r\nSubject: x\r\n\r\nbody\r\n";
    assert!(matches!(into_smtp_msg(no_rcpt.as_bytes()), Err(SmtpEnvelopeError::NoRecipient)));
    assert!(matches!(into_smtp_msg(b""), Err(SmtpEnvelopeError::InvalidMessage)));
}

fn list(name: &str, addrs: &[Option<&str>]) -> HeaderAddresses {
    HeaderAddresses {
        name: name.to_string(),
        value: AddressValue::List(addrs.iter().map(|a| a.map(|s| s.to_string())).collect()),
    }
}

#[test]
fn envelope_from_header_values() {
    let headers = vec![
        list("From", &[Some(" first@example.com ")]),
        list("To", &[Some("bob@example.com"), None, Some("  "), Some("bob@example.com")]),
        list("From", &[None, Some("ignored@example.com")]),
        list("Reply-To", &[Some("other@example.com")]),
        list("From", &[Some("last@example.com")]),
    ];
    let env = envelope_from_headers(&headers).unwrap();
    let (from, to) = mailboxes(&env);
    assert_eq!(from, "last@example.com");
    assert_eq!(to, vec!["bob@example.com"]);

    let bad_sender = vec![list("From", &[Some("alice")]), list("To", &[Some("bob@example.com")])];
    assert!(matches!(envelope_from_headers(&bad_sender), Err(SmtpEnvelopeError::InvalidSender)));

    let bad_rcpt = vec![list("From", &[Some("a@b")]), list("To", &[Some("bob@x"), Some("carol")])];
    match envelope_from_headers(&bad_rcpt) {
        Err(e @ SmtpEnvelopeError::InvalidRecipient(_)) => {
            assert_eq!(e.message(), "The message contains an invalid recipient: carol");
        }
        other => panic!("unexpected {other:?}"),
    }
}

#[test]
fn envelope_error_texts() {
    assert_eq!(SmtpEnvelopeError::InvalidMessage.message(), "Invalid message to send");
    assert_eq!(SmtpEnvelopeError::NoSender.message(), "The message does not contain any sender");
    assert_eq!(SmtpEnvelopeError::NoRecipient.message(), "The message does not contain any recipient");
    assert_eq!(SmtpEnvelopeError::InvalidSender.message(), "The message contains an invalid sender");
}

#[test]
fn valid_emails_are_trimmed() {
    assert_eq!(find_valid_email(&Some("  a@b  ".to_string())), Some("a@b".to_string()));
    assert_eq!(find_valid_email(&Some(" \t ".to_string())), None);
    assert_eq!(find_valid_email(&None), None);
}

#[test]
fn header_kinds() {
    assert_eq!(header_kind(&"From".to_string()), HeaderKind::From);
    assert_eq!(header_kind(&"To".to_string()), HeaderKind::To);
    assert_eq!(header_kind(&"Cc".to_string()), HeaderKind::Cc);
    assert_eq!(header_kind(&"Bcc".to_string()), HeaderKind::Bcc);
    assert_eq!(header_kind(&"Subject".to_string()), HeaderKind::Other);
}

#[test]
fn raw_message_from_arguments_uses_crlf() {
    let cmd = MessagesSendCommand {
        message: vec!["Subject: hi\nTo: x".to_string(), "y\r\n\r\nbody\r".to_string()],
    };
    let raw = cmd.raw_from_args();
    assert_eq!(raw, "Subject: hi\r\nTo: x y\r\n\r\nbody");
    assert_eq!(raw, "Subject: hi\nTo: x y\r\n\r\nbody\r".replace('\r', "").replace('\n', "\r\n"));
}

#[test]
fn raw_message_from_lines() {
    let lines = vec!["From: a@b".to_string(), "".to_string(), "body".to_string()];
    assert_eq!(raw_from_lines(&lines), "From: a@b\r\n\r\nbody");
    assert_eq!(raw_from_lines(&vec![]), "");
}

#[test]
fn message_view_rendering() {
    let view = MessageView {
        headers: vec![
            ("From".to_string(), "Address(List([Addr { name: None, address: Some(\"a@b\") }]))".to_string()),
            ("Subject".to_string(), "Text(\"hi\")".to_string()),
        ],
        bodies: vec![Some("Hello\n\n  ".to_string()), None, Some("Bye".to_string())],
    };
    assert_eq!(
        view.render(),
        "From: Address(List([Addr { name: None, address: Some(\"a@b\") }]))\nSubject: Text(\"hi\")\n\nHello\n\n\n\nBye"
    );
    let empty = MessageView { headers: vec![], bodies: vec![] };
    assert_eq!(empty.render(), "\n");
}

#[test]
fn message_text_of_a_raw_message() {
    let raw = "From: a@b\r\nSubject: hi\r\n\r\nHello there  \r\n";
    let view = MessageView::from_raw(raw.as_bytes()).unwrap();
    assert_eq!(view.headers.len(), 2);
    assert_eq!(view.headers[0].0, "From");
    assert_eq!(view.headers[1].0, "Subject");
    assert!(view.headers[1].1.contains("hi"));
    let text = message_text(raw.as_bytes()).unwrap();
    assert_eq!(text, view.render());
    assert!(text.starts_with("From: "));
    assert!(text.ends_with("\n\nHello there"));
    assert!(message_text(b"").is_none());
}
