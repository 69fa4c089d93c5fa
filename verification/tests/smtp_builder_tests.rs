use edvige::ids::AccountId;
use edvige::message::EmailAddress;
use edvige::outbox::{DraftAttachment, OutboxMessage};
use edvige::smtp::builder::MimeBuilder;
use mail_parser::{MessageParser, MimeHeaders};

#[test]
fn test_build_plain_email() {
    let msg = OutboxMessage::new_draft(
        AccountId::new(),
        EmailAddress::with_name("Alice", "alice@example.com"),
        vec![EmailAddress::with_name("Bob", "bob@example.com")],
        "Hello plain email",
    );
    let mut msg = msg;
    msg.body_text = Some("This is a simple plain text body.".to_string());

    let mime_bytes = MimeBuilder::build(&msg).unwrap();
    let parsed = MessageParser::default().parse(&mime_bytes).unwrap();

    assert_eq!(parsed.subject().unwrap(), "Hello plain email");
    assert_eq!(parsed.body_text(0).unwrap().trim(), "This is a simple plain text body.");
}

#[test]
fn test_build_multipart_alternative_with_attachments() {
    let mut msg = OutboxMessage::new_draft(
        AccountId::new(),
        EmailAddress::new("alice@example.com"),
        vec![EmailAddress::new("bob@example.com")],
        "HTML + Attachment Test",
    );
    msg.body_text = Some("Plain text version".to_string());
    msg.body_html = Some("<h1>HTML version</h1>".to_string());

    msg.attachments.push(DraftAttachment::new(
        "test.txt",
        "text/plain",
        b"Hello attachment contents".to_vec(),
    ));

    let mime_bytes = MimeBuilder::build(&msg).unwrap();
    let parsed = MessageParser::default().parse(&mime_bytes).unwrap();

    assert_eq!(parsed.subject().unwrap(), "HTML + Attachment Test");
    assert_eq!(parsed.body_text(0).unwrap(), "Plain text version");
    assert_eq!(parsed.body_html(0).unwrap(), "<h1>HTML version</h1>");
    assert_eq!(parsed.attachments().count(), 1);

    let att = parsed.attachments().next().unwrap();
    assert_eq!(att.attachment_name().unwrap(), "test.txt");
    assert_eq!(att.contents(), b"Hello attachment contents");
}

fn draft(to: Vec<EmailAddress>) -> OutboxMessage {
    OutboxMessage::new_draft(
        AccountId::new(),
        EmailAddress::with_name("Al Ice", "al@mail.example.org"),
        to,
        "Subj",
    )
}

#[test]
fn plain_message_is_exact() {
    let mut msg = draft(vec![
        EmailAddress::with_name("Bob", "bob@example.com"),
        EmailAddress::new("carol@example.com"),
    ]);
    msg.cc.push(EmailAddress::new("dave@example.com"));
    msg.in_reply_to = Some("<x@y>".into());
    msg.body_text = Some("Hi".into());
    let bytes = MimeBuilder::build_with(&msg, "U", "D", "M", "A");
    let text = String::from_utf8(bytes).unwrap();
    assert_eq!(
        text,
        "Message-ID: <U@mail.example.org>\r\nDate: D\r\nFrom: Al Ice <al@mail.example.org>\r\n\
         To: Bob <bob@example.com>, carol@example.com\r\nCc: dave@example.com\r\n\
         Subject: Subj\r\nIn-Reply-To: <x@y>\r\nMIME-Version: 1.0\r\n\
         Content-Type: text/plain; charset=utf-8\r\nContent-Transfer-Encoding: 8bit\r\n\r\nHi\r\n"
    );
}

#[test]
fn html_only_and_empty_bodies() {
    let mut msg = draft(vec![]);
    msg.body_html = Some("<b>x</b>".into());
    let text = String::from_utf8(MimeBuilder::build_with(&msg, "U", "D", "M", "A")).unwrap();
    assert!(!text.contains("\r\nTo: "));
    assert!(text.ends_with(
        "Content-Type: text/html; charset=utf-8\r\nContent-Transfer-Encoding: 8bit\r\n\r\n<b>x</b>\r\n"
    ));

    let mut msg = draft(vec![]);
    msg.body_text = Some(String::new());
    let text = String::from_utf8(MimeBuilder::build_with(&msg, "U", "D", "M", "A")).unwrap();
    assert!(text.ends_with("Content-Transfer-Encoding: 8bit\r\n\r\n\r\n"));
}

#[test]
fn message_id_domain_rules() {
    let mut msg = draft(vec![]);
    msg.from = EmailAddress::new("nobody");
    let text = String::from_utf8(MimeBuilder::build_with(&msg, "U", "D", "M", "A")).unwrap();
    assert!(text.starts_with("Message-ID: <U@localhost>\r\n"));
    msg.from = EmailAddress::new("a@b@c");
    let text = String::from_utf8(MimeBuilder::build_with(&msg, "U", "D", "M", "A")).unwrap();
    assert!(text.starts_with("Message-ID: <U@b>\r\n"));
}

#[test]
fn attachment_lines_are_wrapped_at_76() {
    let mut msg = draft(vec![EmailAddress::new("b@example.com")]);
    msg.body_text = Some("t".into());
    let mut att = DraftAttachment::new("z.bin", "application/octet-stream", vec![7u8; 100]);
    att.is_inline = true;
    att.content_id = Some("cid1".into());
    msg.attachments.push(att);
    let text = String::from_utf8(MimeBuilder::build_with(&msg, "U", "D", "M", "A")).unwrap();
    assert!(text.contains("Content-Type: multipart/mixed; boundary=\"==_edvige_mixed_M\"\r\n"));
    assert!(text.contains(
        "--==_edvige_mixed_M\r\nContent-Type: application/octet-stream; name=\"z.bin\"\r\n\
         Content-Transfer-Encoding: base64\r\nContent-Disposition: inline; filename=\"z.bin\"\r\n\
         Content-ID: <cid1>\r\n\r\n"
    ));
    let body_start = text.find("Content-ID: <cid1>\r\n\r\n").unwrap() + "Content-ID: <cid1>\r\n\r\n".len();
    let rest = &text[body_start..];
    let lines: Vec<&str> = rest.split("\r\n").collect();
    assert_eq!(lines[0].len(), 76);
    assert_eq!(lines[1].len(), 136 - 76);
    assert!(text.ends_with("--==_edvige_mixed_M--\r\n"));
}

#[test]
fn blind_copies_are_not_written() {
    let mut msg = OutboxMessage::new_draft(
        AccountId::new(),
        EmailAddress::new("alice@example.com"),
        vec![EmailAddress::new("bob@example.com")],
        "Quiet",
    );
    msg.body_text = Some("Hello".to_string());
    msg.bcc = vec![EmailAddress::with_name("Secret", "hidden@example.org")];
    let text = String::from_utf8(MimeBuilder::build(&msg).unwrap()).unwrap();
    assert!(!text.contains("hidden@example.org"));
    assert!(!text.contains("Bcc:"));
    assert!(text.contains("bob@example.com"));
}
