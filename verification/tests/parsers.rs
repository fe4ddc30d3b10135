use pregonero::parsers::{
    describe_addresses, parse_address, parse_message, parse_sender, parse_subject, parse_text,
    to_plain_text, Address, EmailMessage, RawAddress, RawEnvelope, RawFetch,
};

fn bytes(s: &str) -> Option<Vec<u8>> {
    Some(s.as_bytes().to_vec())
}

fn raw_address(name: Option<&str>, mailbox: Option<&str>, host: Option<&str>) -> RawAddress {
    RawAddress {
        name: name.map(|s| s.as_bytes().to_vec()),
        mailbox: mailbox.map(|s| s.as_bytes().to_vec()),
        host: host.map(|s| s.as_bytes().to_vec()),
    }
}

fn envelope(subject: Option<&str>) -> RawEnvelope {
    RawEnvelope {
        subject: subject.map(|s| s.as_bytes().to_vec()),
        sender: Some(vec![raw_address(Some("Ann"), Some("ann"), Some("example.org"))]),
    }
}

// A body text as the MIME parser wants it: after the blank line that ends
// the headers.
fn fetch(uid: u32, subject: &str, body: &str) -> RawFetch {
    RawFetch {
        uid: Some(uid),
        text: bytes(&format!("\r\n{}", body)),
        envelope: Some(envelope(Some(subject))),
    }
}

#[test]
fn rfc2047_subject_is_decoded() {
    let e = envelope(Some("=?UTF-8?Q?This_is_a_test?="));
    assert_eq!(parse_subject(&e), "This is a test");
    let m = parse_message("me@example.org", &fetch(5, "=?UTF-8?Q?This_is_a_test?=", "hello")).unwrap();
    assert_eq!(m.subject, "This is a test");
}

#[test]
fn unsupported_charset_keeps_the_subject() {
    let e = envelope(Some("=?UNSUPPORTED?Q?x?="));
    assert_eq!(parse_subject(&e), "=?UNSUPPORTED?Q?x?=");
    let m = parse_message("me@example.org", &fetch(9, "=?UNSUPPORTED?Q?x?=", "hello"));
    assert_eq!(m.unwrap().subject, "=?UNSUPPORTED?Q?x?=");
}

#[test]
fn undecodable_subjects_are_kept() {
    for subject in ["=?UTF-8?Z?x?=", "=?UTF-8?B?abc?=", "=?UTF-8?Q?=FF?=", "=?=", "=?a?="] {
        assert_eq!(parse_subject(&envelope(Some(subject))), subject);
    }
}

#[test]
fn plain_subjects_are_kept() {
    assert_eq!(parse_subject(&envelope(Some("Hello"))), "Hello");
    assert_eq!(parse_subject(&envelope(Some(""))), "");
    // An encoded word inside a subject that does not start and end like one
    // is not decoded.
    assert_eq!(parse_subject(&envelope(Some("Re: =?UTF-8?Q?a?="))), "Re: =?UTF-8?Q?a?=");
    assert_eq!(parse_subject(&envelope(Some("=?UTF-8?Q?a?= (fwd)"))), "=?UTF-8?Q?a?= (fwd)");
}

#[test]
fn missing_subject_is_not_yet() {
    assert_eq!(parse_subject(&envelope(None)), "Not yet");
    let e = RawEnvelope { subject: Some(vec![0xff, 0xfe]), sender: None };
    assert_eq!(parse_subject(&e), "Not yet");
}

#[test]
fn senders_are_mailbox_at_host() {
    let e = RawEnvelope {
        subject: None,
        sender: Some(vec![
            raw_address(Some("Ann"), Some("ann"), Some("example.org")),
            raw_address(None, Some("bob"), Some("example.com")),
        ]),
    };
    assert_eq!(
        parse_sender(&e),
        vec![
            Address { name: Some("Ann".to_string()), email: "ann@example.org".to_string() },
            Address { name: None, email: "bob@example.com".to_string() },
        ]
    );
}

#[test]
fn senders_without_mailbox_or_host_are_left_out() {
    let e = RawEnvelope {
        subject: None,
        sender: Some(vec![
            raw_address(Some("No host"), Some("x"), None),
            raw_address(None, Some("bob"), Some("example.com")),
            raw_address(Some("No mailbox"), None, Some("example.com")),
            RawAddress { name: None, mailbox: Some(vec![0xff]), host: bytes("example.com") },
            RawAddress { name: Some(vec![0xff]), mailbox: bytes("cy"), host: bytes("example.com") },
        ]),
    };
    assert_eq!(
        parse_sender(&e),
        vec![
            Address { name: None, email: "bob@example.com".to_string() },
            Address { name: None, email: "cy@example.com".to_string() },
        ]
    );
    assert_eq!(parse_address(&raw_address(None, None, None)), None);
}

#[test]
fn no_sender_list_is_no_sender() {
    let e = RawEnvelope { subject: None, sender: None };
    assert_eq!(parse_sender(&e), vec![]);
    let e = RawEnvelope { subject: None, sender: Some(vec![]) };
    assert_eq!(parse_sender(&e), vec![]);
}

#[test]
fn html_body_is_stripped() {
    let body = parse_text(b"\r\n<!DOCTYPE html><html><body>Hi<br>there</body></html>");
    assert!(body.contains("Hi"));
    assert!(body.contains("there"));
    assert!(!body.contains('<'));
    assert!(!body.contains('>'));
    let hi = body.find("Hi").unwrap();
    let there = body.find("there").unwrap();
    assert!(hi < there);
    assert!(body[hi + 2..there].chars().all(|c| c.is_whitespace()));
    assert!(!body[hi + 2..there].is_empty());
}

#[test]
fn html_is_found_by_either_marker() {
    let body = parse_text(b"\r\n<html><body><p>One</p></body></html>");
    assert_eq!(body.trim(), "One");
    let body = to_plain_text("<!DOCTYPE html><p>Two</p>".to_string());
    assert_eq!(body.trim(), "Two");
    // Without a marker the text stays as it is, tags and all.
    assert_eq!(to_plain_text("<p>Three</p>".to_string()), "<p>Three</p>");
    assert_eq!(to_plain_text("<HTML>x</HTML>".to_string()), "<HTML>x</HTML>");
}

#[test]
fn html_is_not_wrapped() {
    let words = vec!["word"; 400].join(" ");
    let html = format!("\r\n<html><body><p>{}</p></body></html>", words);
    let body = parse_text(html.as_bytes());
    assert_eq!(body.trim_end(), words);
}

#[test]
fn plain_body_is_kept() {
    assert_eq!(parse_text(b"\r\njust text"), "just text");
    assert_eq!(parse_text(b"\njust text\nmore"), "just text\nmore");
    assert_eq!(parse_text(b""), "");
    // What stands before the first blank line is read as headers.
    assert_eq!(parse_text(b"just text"), "");
    assert_eq!(parse_text(b"X-Note: 1\r\n\r\nthe rest"), "the rest");
}

#[test]
fn mime_body_is_decoded() {
    let raw = b"Content-Type: text/plain; charset=utf-8\r\nContent-Transfer-Encoding: quoted-printable\r\n\r\ncaf=C3=A9";
    assert_eq!(parse_text(raw), "caf\u{e9}");
    let raw = b"Content-Transfer-Encoding: base64\r\n\r\nSGVsbG8=";
    assert_eq!(parse_text(raw), "Hello");
}

#[test]
fn message_needs_uid_text_and_envelope() {
    let whole = fetch(7, "s", "b");
    assert!(parse_message("me@example.org", &whole).is_some());
    let mut no_uid = whole.clone();
    no_uid.uid = None;
    assert_eq!(parse_message("me@example.org", &no_uid), None);
    let mut zero_uid = whole.clone();
    zero_uid.uid = Some(0);
    assert_eq!(parse_message("me@example.org", &zero_uid), None);
    let mut no_text = whole.clone();
    no_text.text = None;
    assert_eq!(parse_message("me@example.org", &no_text), None);
    let mut no_envelope = whole.clone();
    no_envelope.envelope = None;
    assert_eq!(parse_message("me@example.org", &no_envelope), None);
}

#[test]
fn message_is_put_together() {
    let m = parse_message("me@example.org", &fetch(42, "Greetings", "Hello there")).unwrap();
    assert_eq!(
        m,
        EmailMessage {
            account: "me@example.org".to_string(),
            senders: vec![Address {
                name: Some("Ann".to_string()),
                email: "ann@example.org".to_string(),
            }],
            subject: "Greetings".to_string(),
            body: "Hello there".to_string(),
            seq_id: 42,
        }
    );
    assert_eq!(m.clone(), m);
}

#[test]
fn message_without_optional_fields() {
    let raw = RawFetch {
        uid: Some(1),
        text: Some(vec![0xff]),
        envelope: Some(RawEnvelope { subject: None, sender: None }),
    };
    let m = parse_message("me@example.org", &raw).unwrap();
    assert_eq!(m.senders, vec![]);
    assert_eq!(m.subject, "Not yet");
    assert_eq!(m.body, "");
    assert_eq!(m.seq_id, 1);
}

#[test]
fn log_lines() {
    let ann = Address { name: Some("Ann".to_string()), email: "ann@example.org".to_string() };
    let bob = Address { name: None, email: "bob@example.com".to_string() };
    assert_eq!(ann.describe(), "Ann <ann@example.org>");
    assert_eq!(bob.describe(), "bob@example.com");
    assert_eq!(describe_addresses(&vec![]), "");
    assert_eq!(describe_addresses(&vec![bob.clone()]), "bob@example.com");
    assert_eq!(
        describe_addresses(&vec![ann.clone(), bob.clone(), ann.clone()]),
        "Ann <ann@example.org>, bob@example.com, Ann <ann@example.org>"
    );
    let m = EmailMessage {
        account: "me@example.org".to_string(),
        senders: vec![ann, bob],
        subject: "S".to_string(),
        body: "B".to_string(),
        seq_id: 3,
    };
    assert_eq!(
        m.describe(),
        "(account: me@example.org, senders: Ann <ann@example.org>, bob@example.com, subject: S, body: B)"
    );
}
