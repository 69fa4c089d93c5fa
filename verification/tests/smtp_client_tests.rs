use edvige::account::SecurityMode;
use edvige::ids::AccountId;
use edvige::message::EmailAddress;
use edvige::outbox::OutboxMessage;
use edvige::smtp::client::{
    dot_stuff, DialoguePhase, MailAction, MailTransaction, ReplyReader, ReplyStep, SmtpAction,
    SmtpDialogue, SmtpResponse,
};
use edvige::smtp::dispatcher::OutboxDispatcher;
use edvige::smtp::error::SmtpError;

fn reply(code: u16, lines: &[&str]) -> SmtpResponse {
    SmtpResponse { code, lines: lines.iter().map(|s| s.to_string()).collect() }
}

#[test]
fn multi_line_replies_are_gathered() {
    let r = ReplyReader::new();
    let r = match r.on_line("250-smtp.example.com\r\n") {
        ReplyStep::More(r) => r,
        other => panic!("unexpected {:?}", other),
    };
    let r = match r.on_line("  \r\n") {
        ReplyStep::More(r) => r,
        other => panic!("unexpected {:?}", other),
    };
    match r.on_line("250 SIZE 1000\r\n") {
        ReplyStep::Done(resp) => {
            assert_eq!(resp.code, 250);
            assert_eq!(resp.lines, vec!["250-smtp.example.com".to_string(), "250 SIZE 1000".to_string()]);
        }
        other => panic!("unexpected {:?}", other),
    }
    match ReplyReader::new().on_line("220\r\n") {
        ReplyStep::Done(resp) => assert_eq!(resp.code, 220),
        other => panic!("unexpected {:?}", other),
    }
    match ReplyReader::new().on_line("abc hello") {
        ReplyStep::Fail(SmtpError::Protocol(m)) => assert_eq!(m, "Invalid status code in: abc hello"),
        other => panic!("unexpected {:?}", other),
    }
    match ReplyReader::new().on_line("+25 plus sign") {
        ReplyStep::Done(resp) => assert_eq!(resp.code, 25),
        other => panic!("unexpected {:?}", other),
    }
}

#[test]
fn opening_dialogue_with_starttls_and_auth_login() {
    let mut d = SmtpDialogue::new(SecurityMode::StartTls, "user".into(), "pw".into());
    match d.on_reply(&reply(220, &["220 hi"])) {
        SmtpAction::Send(c) => assert_eq!(c, "EHLO localhost\r\n"),
        other => panic!("unexpected {:?}", other),
    }
    match d.on_reply(&reply(250, &["250 ok"])) {
        SmtpAction::Send(c) => assert_eq!(c, "STARTTLS\r\n"),
        other => panic!("unexpected {:?}", other),
    }
    assert!(matches!(d.on_reply(&reply(220, &["220 go"])), SmtpAction::UpgradeTls));
    match d.after_tls() {
        SmtpAction::Send(c) => assert_eq!(c, "EHLO localhost\r\n"),
        other => panic!("unexpected {:?}", other),
    }
    match d.on_reply(&reply(250, &["250 ok"])) {
        SmtpAction::Send(c) => assert_eq!(c, "AUTH LOGIN\r\n"),
        other => panic!("unexpected {:?}", other),
    }
    match d.on_reply(&reply(334, &["334 VXNlcm5hbWU6"])) {
        SmtpAction::Send(c) => assert_eq!(c, "dXNlcg==\r\n"),
        other => panic!("unexpected {:?}", other),
    }
    match d.on_reply(&reply(334, &["334 UGFzc3dvcmQ6"])) {
        SmtpAction::Send(c) => assert_eq!(c, "cHc=\r\n"),
        other => panic!("unexpected {:?}", other),
    }
    assert!(matches!(d.on_reply(&reply(235, &["235 ok"])), SmtpAction::Ready));
    assert_eq!(d.phase, DialoguePhase::Ready);
}

#[test]
fn auth_plain_fallback_and_failures() {
    let mut d = SmtpDialogue::new(SecurityMode::Tls, "u".into(), "p".into());
    d.on_reply(&reply(220, &["220"]));
    d.on_reply(&reply(250, &["250"]));
    match d.on_reply(&reply(504, &["504 no"])) {
        SmtpAction::Send(c) => assert_eq!(c, "AUTH PLAIN AHUAcA==\r\n"),
        other => panic!("unexpected {:?}", other),
    }
    match d.on_reply(&reply(535, &["535 bad", "535 creds"])) {
        SmtpAction::Fail(SmtpError::Authentication(m)) => {
            assert_eq!(m, "AUTH PLAIN rejected: code 535 535 bad 535 creds")
        }
        other => panic!("unexpected {:?}", other),
    }
    let mut g = SmtpDialogue::new(SecurityMode::Plain, String::new(), String::new());
    match g.on_reply(&reply(554, &["554 go away"])) {
        SmtpAction::Fail(e) => {
            assert_eq!(e, SmtpError::CommandRejected(554, "554 go away".into()));
            assert_eq!(e.to_text(), "SMTP command rejected with code 554: 554 go away");
        }
        other => panic!("unexpected {:?}", other),
    }
    let mut h = SmtpDialogue::new(SecurityMode::Plain, String::new(), String::new());
    h.on_reply(&reply(220, &["220"]));
    assert!(matches!(h.on_reply(&reply(250, &["250"])), SmtpAction::Ready));
}

#[test]
fn mail_transaction_steps() {
    let (mut t, first) = MailTransaction::start("a@x", vec!["b@y".into(), "c@z".into()]);
    assert_eq!(first, "MAIL FROM:<a@x>\r\n");
    match t.on_reply(&reply(250, &["250"])) {
        MailAction::Send(c) => assert_eq!(c, "RCPT TO:<b@y>\r\n"),
        other => panic!("unexpected {:?}", other),
    }
    match t.on_reply(&reply(251, &["251"])) {
        MailAction::Send(c) => assert_eq!(c, "RCPT TO:<c@z>\r\n"),
        other => panic!("unexpected {:?}", other),
    }
    match t.on_reply(&reply(250, &["250"])) {
        MailAction::Send(c) => assert_eq!(c, "DATA\r\n"),
        other => panic!("unexpected {:?}", other),
    }
    assert!(matches!(t.on_reply(&reply(354, &["354"])), MailAction::SendBody));
    assert!(matches!(t.on_reply(&reply(250, &["250 queued"])), MailAction::Accepted));

    let (mut t, _) = MailTransaction::start("a@x", vec!["b@y".into()]);
    t.on_reply(&reply(250, &["250"]));
    match t.on_reply(&reply(550, &["550 unknown user"])) {
        MailAction::Fail(e) => assert_eq!(e, SmtpError::CommandRejected(550, "550 unknown user".into())),
        other => panic!("unexpected {:?}", other),
    }
}

#[test]
fn dot_stuffing() {
    assert_eq!(dot_stuff(b"a\r\n.b\r\nc"), b"a\r\n..b\r\nc\r\n.\r\n".to_vec());
    assert_eq!(dot_stuff(b""), b".\r\n".to_vec());
    assert_eq!(dot_stuff(b"x\n\ny\r"), b"x\r\n\r\ny\r\r\n.\r\n".to_vec());
}

#[test]
fn recipients_of_a_message() {
    let mut m = OutboxMessage::new_draft(AccountId::new(), EmailAddress::new("f@x"), vec![EmailAddress::new("t@x")], "s");
    m.cc.push(EmailAddress::with_name("C", "c@x"));
    m.bcc.push(EmailAddress::new("b@x"));
    assert_eq!(OutboxDispatcher::recipients(&m).unwrap(), vec!["t@x".to_string(), "c@x".to_string(), "b@x".to_string()]);
    let empty = OutboxMessage::new_draft(AccountId::new(), EmailAddress::new("f@x"), vec![], "s");
    match OutboxDispatcher::recipients(&empty) {
        Err(SmtpError::MimeBuild(m)) => assert_eq!(m, "No recipients specified"),
        other => panic!("unexpected {:?}", other),
    }
}
