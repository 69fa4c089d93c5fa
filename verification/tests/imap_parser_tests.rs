use edvige::imap::basic::{parse_imap_line, ImapResponse, Status as BasicStatus};
use edvige::imap::commands::flags_to_imap_string;
use edvige::imap::parser::{parse_line, parse_literal_length};
use edvige::message::MessageFlags;
use edvige::imap::response::{ImapLine, Status, UntaggedResponse};

#[test]
fn test_parse_tagged_ok() {
    let line = "A001 OK [READ-WRITE] SELECT completed\r\n";
    let parsed = parse_line(line).unwrap();
    match parsed {
        ImapLine::Tagged(t) => {
            assert_eq!(t.tag, "A001");
            assert_eq!(t.status, Status::OK);
            assert_eq!(t.code.as_deref(), Some("READ-WRITE"));
            assert_eq!(t.text, "SELECT completed");
        }
        _ => panic!("Expected Tagged"),
    }
}

#[test]
fn test_parse_list() {
    let line = "* LIST (\\HasNoChildren \\Drafts) \"/\" \"Drafts\"\r\n";
    let parsed = parse_line(line).unwrap();
    match parsed {
        ImapLine::Untagged(UntaggedResponse::List { flags, delimiter, name }) => {
            assert_eq!(flags, vec!["\\HasNoChildren", "\\Drafts"]);
            assert_eq!(delimiter.as_deref(), Some("/"));
            assert_eq!(name, "Drafts");
        }
        _ => panic!("Expected Untagged List"),
    }
}

#[test]
fn test_parse_exists_and_recent() {
    assert_eq!(
        parse_line("* 120 EXISTS\r\n").unwrap(),
        ImapLine::Untagged(UntaggedResponse::Exists(120))
    );
    assert_eq!(
        parse_line("* 3 RECENT\r\n").unwrap(),
        ImapLine::Untagged(UntaggedResponse::Recent(3))
    );
    assert_eq!(
        parse_line("* 4 EXPUNGE\r\n").unwrap(),
        ImapLine::Untagged(UntaggedResponse::Expunge(4))
    );
}

#[test]
fn test_parse_fetch() {
    let line = "* 5 FETCH (UID 42 FLAGS (\\Seen \\Flagged) RFC822.SIZE 2048)\r\n";
    let parsed = parse_line(line).unwrap();
    match parsed {
        ImapLine::Untagged(UntaggedResponse::Fetch(f)) => {
            assert_eq!(f.seq, 5);
            assert_eq!(f.uid, Some(42));
            assert_eq!(f.rfc822_size, Some(2048));
            let flags = f.flags.unwrap();
            assert!(flags.seen);
            assert!(flags.flagged);
            assert!(!flags.answered);
        }
        _ => panic!("Expected Fetch response"),
    }
}

#[test]
fn test_parse_literal_length() {
    assert_eq!(
        parse_literal_length("* 1 FETCH (RFC822 {1024}\r\n"),
        Some(1024)
    );
    assert_eq!(
        parse_literal_length("* 1 FETCH (FLAGS (\\Seen))\r\n"),
        None
    );
}

#[test]
fn literal_length_edge_cases() {
    assert_eq!(parse_literal_length("{+7}  \r\n"), Some(7));
    assert_eq!(parse_literal_length("{}\r\n"), None);
    assert_eq!(parse_literal_length("7}\r\n"), None);
    assert_eq!(parse_literal_length("{12a}"), None);
}

#[test]
fn continuation_and_errors() {
    assert_eq!(
        parse_line("+ idling\r\n").unwrap(),
        ImapLine::Continuation(edvige::imap::response::Continuation("idling".to_string()))
    );
    let err = parse_line("*NOSPACE\r\n").unwrap_err();
    assert_eq!(err.line, "*NOSPACE\r\n");
    assert!(parse_line("A1\r\n").is_err());
    assert!(parse_line("A1 MAYBE done\r\n").is_err());
}

#[test]
fn untagged_status_lines() {
    assert_eq!(
        parse_line("* OK [UIDVALIDITY 3857529045] UIDs valid\r\n").unwrap(),
        ImapLine::Untagged(UntaggedResponse::OK {
            code: Some("UIDVALIDITY 3857529045".to_string()),
            text: "UIDs valid".to_string()
        })
    );
    assert_eq!(
        parse_line("* BYE logging out\r\n").unwrap(),
        ImapLine::Untagged(UntaggedResponse::Other("BYE logging out".to_string()))
    );
    assert_eq!(
        parse_line("* SEARCH 2 84 882\r\n").unwrap(),
        ImapLine::Untagged(UntaggedResponse::Other("SEARCH 2 84 882".to_string()))
    );
    assert_eq!(
        parse_line("* 99999999999 EXISTS\r\n").unwrap(),
        ImapLine::Untagged(UntaggedResponse::Other("99999999999 EXISTS".to_string()))
    );
}

#[test]
fn tagged_status_is_case_insensitive_prefix() {
    match parse_line("a7 no nope\r\n").unwrap() {
        ImapLine::Tagged(t) => {
            assert_eq!(t.tag, "a7");
            assert_eq!(t.status, Status::No);
            assert_eq!(t.code, None);
            assert_eq!(t.text, "nope");
        }
        _ => panic!("Expected Tagged"),
    }
}

#[test]
fn list_with_nil_delimiter_and_atom_name() {
    match parse_line("* list () NIL INBOX\r\n").unwrap() {
        ImapLine::Untagged(UntaggedResponse::List { flags, delimiter, name }) => {
            assert!(flags.is_empty());
            assert_eq!(delimiter, None);
            assert_eq!(name, "INBOX");
        }
        _ => panic!("Expected Untagged List"),
    }
}

#[test]
fn fetch_with_literal_and_overflowing_uid() {
    match parse_line("* 1 FETCH (UID 4294967296 RFC822 {10}\r\n").unwrap() {
        ImapLine::Untagged(UntaggedResponse::Fetch(f)) => {
            assert_eq!(f.seq, 1);
            assert_eq!(f.uid, None);
            assert_eq!(f.flags, None);
            assert_eq!(f.rfc822_body, None);
        }
        _ => panic!("Expected Fetch response"),
    }
}

#[test]
fn basic_line_reads_tagged_status() {
    let (rest, resp) = parse_imap_line("A1 OK Success\r\nnext").unwrap();
    assert_eq!(rest, "next");
    assert_eq!(
        resp,
        ImapResponse::Tagged {
            tag: "A1".to_string(),
            status: BasicStatus::OK,
            message: "Success".to_string()
        }
    );
    let (_, resp) = parse_imap_line("B7 BAD what?\r\n").unwrap();
    assert!(matches!(resp, ImapResponse::Tagged { status: BasicStatus::Bad, .. }));
}

#[test]
fn basic_line_reads_untagged_data() {
    let (rest, resp) = parse_imap_line("* 22 EXISTS\r\n").unwrap();
    assert_eq!(rest, "");
    assert_eq!(resp, ImapResponse::Untagged { data: "22 EXISTS".to_string() });
}

#[test]
fn basic_line_refuses_other_lines() {
    assert!(parse_imap_line("A1 OK Success").is_none());
    assert!(parse_imap_line("A1 MAYBE x\r\n").is_none());
    assert!(parse_imap_line("*22 EXISTS\r\n").is_none());
    assert!(parse_imap_line("").is_none());
}

#[test]
fn stored_flag_lists_read_back_from_fetch() {
    for bits in 0u32..32 {
        let f = MessageFlags::from_bits(bits);
        let line = format!("* 3 FETCH (UID 9 FLAGS ({}))\r\n", flags_to_imap_string(&f));
        match parse_line(&line).unwrap() {
            ImapLine::Untagged(UntaggedResponse::Fetch(fetch)) => {
                assert_eq!(fetch.flags, Some(f));
                assert_eq!(fetch.uid, Some(9));
            }
            other => panic!("unexpected {:?}", other),
        }
    }
    assert_eq!(
        flags_to_imap_string(&MessageFlags { seen: true, deleted: true, ..MessageFlags::default() }),
        "\\Seen \\Deleted"
    );
}

#[test]
fn literal_lengths_need_digits_between_braces() {
    assert_eq!(parse_literal_length("x {0}\r\n"), Some(0));
    assert_eq!(parse_literal_length("x {}\r\n"), None);
    assert_eq!(parse_literal_length("x {12a}\r\n"), None);
    assert_eq!(parse_literal_length("x {3} {5}\r\n"), Some(5));
}
