use edvige::ids::{AccountId, FolderId};
use edvige::imap::error::ImapError;
use edvige::imap::mime::{
    clean_html_snippet, clean_snippet, extract_addresses, parse_email_message, parse_raw_email, read_mime,
    snippet_cuts_cleanly, AddrValue, AddressField,
};
use edvige::message::MessageFlags;

const RAW: &str = "Message-ID: <abc@example.com>\r\n\
From: Alice <alice@example.com>\r\n\
To: Bob <bob@example.com>, carol@example.com\r\n\
Subject: Greetings\r\n\
Date: Tue, 1 Jul 2003 10:52:37 +0200\r\n\
In-Reply-To: <prev@example.com>\r\n\
MIME-Version: 1.0\r\n\
Content-Type: text/plain; charset=utf-8\r\n\
\r\n\
Hello   there,\r\n  how are you?\r\n";

#[test]
fn snippet_joins_words_and_cuts() {
    assert_eq!(clean_snippet("  Hello \n\t world  ", 200), "Hello world");
    let long = "a".repeat(250);
    let s = clean_snippet(&long, 200);
    assert_eq!(s.len(), 203);
    assert!(s.ends_with("..."));
    assert_eq!(clean_snippet("", 10), "");
    assert_eq!(clean_snippet("abc def", 3), "abc...");
}

#[test]
fn html_snippet_drops_tags() {
    assert_eq!(clean_html_snippet("<p>Hi <b>there</b></p>", 200), "Hi there");
    assert_eq!(clean_html_snippet("a<br>b", 200), "a b");
}

#[test]
fn read_and_store_a_message() {
    let parsed = read_mime(RAW.as_bytes()).unwrap();
    assert!(snippet_cuts_cleanly(&parsed));
    let account = AccountId::new();
    let folder = FolderId::new();
    let flags = MessageFlags { seen: true, flagged: false, answered: false, draft: false, deleted: false };
    let detail = parse_email_message(
        account,
        folder,
        Some(7),
        flags,
        RAW.len() as u64,
        parsed,
        "rawhash".to_string(),
        vec![],
    );
    assert_eq!(detail.summary.subject, "Greetings");
    assert_eq!(detail.summary.uid, Some(7));
    assert_eq!(detail.summary.account_id, account);
    assert_eq!(detail.summary.message_id_header.as_deref(), Some("abc@example.com"));
    assert_eq!(detail.envelope.in_reply_to.as_deref(), Some("prev@example.com"));
    assert_eq!(detail.envelope.to.len(), 2);
    assert_eq!(detail.summary.recipients.len(), 2);
    assert_eq!(detail.envelope.to[1].address, "carol@example.com");
    let sender = detail.summary.sender.unwrap();
    assert_eq!(sender.address, "alice@example.com");
    assert_eq!(sender.name.as_deref(), Some("Alice"));
    assert_eq!(detail.summary.snippet, "Hello there, how are you?");
    assert_eq!(detail.summary.date.unwrap().secs, 1057049557);
    assert_eq!(detail.raw_blob_hash.as_deref(), Some("rawhash"));
    assert!(!detail.summary.has_attachments);
    assert_eq!(detail.summary.size, RAW.len() as u64);
}

#[test]
fn missing_subject_and_attachment_metadata() {
    let raw = "From: a@b.c\r\nMIME-Version: 1.0\r\nContent-Type: multipart/mixed; boundary=\"XX\"\r\n\r\n\
--XX\r\nContent-Type: text/plain\r\n\r\nbody\r\n\
--XX\r\nContent-Type: application/pdf\r\nContent-Disposition: attachment; filename=\"r.pdf\"\r\n\
Content-Transfer-Encoding: base64\r\n\r\nSGVsbG8=\r\n--XX--\r\n";
    let parsed = read_mime(raw.as_bytes()).unwrap();
    assert_eq!(parsed.attachments.len(), 1);
    assert_eq!(parsed.attachments[0].contents, b"Hello".to_vec());
    let detail = parse_email_message(
        AccountId::new(),
        FolderId::new(),
        None,
        MessageFlags::default(),
        raw.len() as u64,
        parsed,
        "h".into(),
        vec!["att-hash".to_string()],
    );
    assert_eq!(detail.summary.subject, "(No Subject)");
    assert!(detail.summary.has_attachments);
    let a = &detail.attachments[0];
    assert_eq!(a.filename, "r.pdf");
    assert_eq!(a.content_type, "application");
    assert_eq!(a.size, 5);
    assert_eq!(a.blob_hash, "att-hash");
    assert_eq!(a.message_id, detail.summary.id);
    assert!(!a.is_inline);
    assert!(detail.summary.date.is_none());
}

#[test]
fn unparsable_message_is_a_decode_error() {
    match read_mime(b"") {
        Err(ImapError::MimeDecode(m)) => assert_eq!(m, "Failed to parse RFC5322 MIME message"),
        Ok(_) => {}
        Err(e) => panic!("unexpected {:?}", e),
    }
}

#[test]
fn address_groups_are_flattened() {
    let f = Some(AddressField::Group(vec![
        vec![AddrValue { name: Some("A".into()), address: Some("a@x".into()) }],
        vec![AddrValue { name: None, address: None }, AddrValue { name: None, address: Some("c@x".into()) }],
    ]));
    let v = extract_addresses(&f);
    assert_eq!(v.len(), 3);
    assert_eq!(v[0].name.as_deref(), Some("A"));
    assert_eq!(v[1].address, "");
    assert_eq!(v[2].address, "c@x");
    assert!(extract_addresses(&None).is_empty());
}

#[test]
fn raw_messages_are_stored_with_their_size() {
    let account = AccountId::new();
    let folder = FolderId::new();
    let detail = parse_raw_email(
        account,
        folder,
        Some(3),
        MessageFlags::default(),
        RAW.as_bytes(),
        "rawhash".to_string(),
        vec![],
    )
    .unwrap();
    assert_eq!(detail.summary.size, RAW.len() as u64);
    assert_eq!(detail.summary.subject, "Greetings");
    assert_eq!(detail.summary.folder_id, folder);
    assert_eq!(detail.raw_blob_hash.as_deref(), Some("rawhash"));
    match parse_raw_email(account, folder, None, MessageFlags::default(), RAW.as_bytes(), "h".into(), vec!["x".into()]) {
        Err(ImapError::MimeDecode(m)) => assert_eq!(m, "Attachment hashes do not match the attachments"),
        other => panic!("unexpected {:?}", other),
    }
}
