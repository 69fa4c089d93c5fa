use edvige::account::{Account, AccountCredentials, SecurityMode, ServerConfig};
use edvige::folder::{Folder, FolderRole};
use edvige::ids::{AccountId, Timestamp};
use edvige::message::EmailAddress;
use edvige::outbox::{DraftAttachment, OutboxMessage};
use edvige::proto::{AccountProto, FolderProto, OutboxMessageProto, ServerConfigProto, SecurityModeProto};

fn sample_account() -> Account {
    Account::new(
        "Test Account",
        "test@example.com",
        ServerConfig {
            host: "imap.example.com".into(),
            port: 993,
            security: SecurityMode::Tls,
        },
        ServerConfig {
            host: "smtp.example.com".into(),
            port: 465,
            security: SecurityMode::Tls,
        },
        AccountCredentials {
            username: "user".into(),
            password: "pw".into(),
        },
    )
}

#[test]
fn test_account_roundtrip_conversion() {
    let account = sample_account();

    let proto: AccountProto = AccountProto::from_model(account.clone());
    let roundtrip: Account = Account::from_proto(proto).unwrap();

    assert_eq!(account.id, roundtrip.id);
    assert_eq!(account.email, roundtrip.email);
    assert_eq!(account.imap_config.port, roundtrip.imap_config.port);
}

#[test]
fn test_folder_roundtrip_conversion() {
    let account_id = AccountId::new();
    let folder = Folder::new(account_id, "INBOX", "Inbox", Some("/".into()), FolderRole::Inbox);

    let proto: FolderProto = FolderProto::from_model(folder.clone());
    let roundtrip: Folder = Folder::from_proto(proto).unwrap();

    assert_eq!(folder.id, roundtrip.id);
    assert_eq!(folder.remote_name, roundtrip.remote_name);
    assert_eq!(folder.role, roundtrip.role);
}

#[test]
fn test_outbox_roundtrip_conversion() {
    let account_id = AccountId::new();
    let mut outbox = OutboxMessage::new_draft(
        account_id,
        EmailAddress::new("alice@example.com"),
        vec![EmailAddress::new("bob@example.com")],
        "Test Subject",
    );
    outbox.body_text = Some("Body text".into());
    outbox.queue();

    let proto: OutboxMessageProto = OutboxMessageProto::from_model(outbox.clone());
    let roundtrip: OutboxMessage = OutboxMessage::from_proto(proto).unwrap();

    assert_eq!(outbox.id, roundtrip.id);
    assert_eq!(outbox.subject, roundtrip.subject);
    assert_eq!(outbox.status, roundtrip.status);
}

#[test]
fn account_record_roundtrip_keeps_every_field() {
    let mut account = sample_account();
    account.created_at = Timestamp { secs: 1_700_000_000, nanos: 123_000_000 };
    account.updated_at = Timestamp { secs: 1_700_000_100, nanos: 0 };
    let proto = AccountProto::from_model(account.clone());
    assert_eq!(proto.created_at, "2023-11-14T22:13:20.123+00:00");
    assert_eq!(proto.updated_at, "2023-11-14T22:15:00+00:00");
    assert_eq!(proto.id, account.id.to_text());
    let back = Account::from_proto(proto).unwrap();
    assert_eq!(back.name, "Test Account");
    assert_eq!(back.smtp_config.host, "smtp.example.com");
    assert_eq!(back.smtp_config.security, SecurityMode::Tls);
    assert_eq!(back.credentials.password, "pw");
    assert_eq!(back.created_at, account.created_at);
    assert_eq!(back.updated_at, account.updated_at);
}

#[test]
fn account_record_errors() {
    let good = AccountProto::from_model(sample_account());

    let mut p = good.clone();
    p.id = "not-a-uuid".into();
    assert!(Account::from_proto(p).unwrap_err().starts_with("Invalid Account ID: "));

    let mut p = good.clone();
    p.imap_config = None;
    assert_eq!(Account::from_proto(p).unwrap_err(), "Missing imap_config");

    let mut p = good.clone();
    p.smtp_config = None;
    assert_eq!(Account::from_proto(p).unwrap_err(), "Missing smtp_config");

    let mut p = good.clone();
    p.credentials = None;
    assert_eq!(Account::from_proto(p).unwrap_err(), "Missing credentials");

    let mut p = good.clone();
    p.created_at = "yesterday".into();
    assert!(Account::from_proto(p).unwrap_err().starts_with("Invalid created_at: "));

    let mut p = good;
    p.updated_at = "2024-13-01T00:00:00Z".into();
    assert!(Account::from_proto(p).unwrap_err().starts_with("Invalid updated_at: "));
}

#[test]
fn server_record_port_keeps_low_bits() {
    let p = ServerConfigProto {
        host: "h".into(),
        port: 65536 + 587,
        security: SecurityModeProto::SecurityStarttls,
    };
    let c = p.to_model();
    assert_eq!(c.port, 587);
    assert_eq!(c.security, SecurityMode::StartTls);
}

#[test]
fn folder_record_errors() {
    let folder = Folder::new(AccountId::new(), "Work", "Work", None, FolderRole::Custom);
    let mut p = FolderProto::from_model(folder.clone());
    p.account_id = "zzz".into();
    assert!(Folder::from_proto(p).unwrap_err().starts_with("Invalid Account ID: "));
    let mut p = FolderProto::from_model(folder);
    p.id = String::new();
    assert!(Folder::from_proto(p).unwrap_err().starts_with("Invalid Folder ID: "));
}

#[test]
fn outbox_record_keeps_lists_and_reports_problems() {
    let mut outbox = OutboxMessage::new_draft(
        AccountId::new(),
        EmailAddress::with_name("Al", "al@example.com"),
        vec![EmailAddress::new("b@example.com"), EmailAddress::new("c@example.com")],
        "S",
    );
    outbox.cc.push(EmailAddress::new("d@example.com"));
    outbox.attachments.push(DraftAttachment::new("a.txt", "text/plain", b"xyz".to_vec()));
    outbox.sent_at = Some(Timestamp { secs: 86_400, nanos: 5 });
    let p = OutboxMessageProto::from_model(outbox.clone());
    assert_eq!(p.sent_at.as_deref(), Some("1970-01-02T00:00:00.000000005+00:00"));
    let back = OutboxMessage::from_proto(p.clone()).unwrap();
    assert_eq!(back.to, outbox.to);
    assert_eq!(back.cc, outbox.cc);
    assert_eq!(back.from, outbox.from);
    assert_eq!(back.attachments.len(), 1);
    assert_eq!(back.attachments[0].data, b"xyz".to_vec());
    assert_eq!(back.sent_at, outbox.sent_at);

    let mut q = p.clone();
    q.from = None;
    assert_eq!(OutboxMessage::from_proto(q).unwrap_err(), "Missing from address");
    let mut q = p;
    q.sent_at = Some("never".into());
    assert!(OutboxMessage::from_proto(q).unwrap_err().starts_with("Invalid sent_at: "));
}
