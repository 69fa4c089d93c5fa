use edvige::ids::AccountId;
use edvige::outbox::{OutboxMessage, OutboxStatus};
use edvige::folder::FolderRole;
use edvige::message::{EmailAddress, MessageFlags};

#[test]
fn test_message_flags_bitmask() {
    let flags = MessageFlags {
        seen: true,
        flagged: false,
        answered: true,
        draft: false,
        deleted: false,
    };

    let bits = flags.to_bits();
    assert_eq!(bits, MessageFlags::SEEN_BIT | MessageFlags::ANSWERED_BIT);

    let roundtrip = MessageFlags::from_bits(bits);
    assert_eq!(flags, roundtrip);
}

#[test]
fn test_folder_role_parsing() {
    assert_eq!(FolderRole::from_name("INBOX"), FolderRole::Inbox);
    assert_eq!(FolderRole::from_name("Sent Messages"), FolderRole::Sent);
    assert_eq!(FolderRole::from_name("Drafts"), FolderRole::Drafts);
    assert_eq!(FolderRole::from_name("Trash"), FolderRole::Trash);
    assert_eq!(FolderRole::from_name("Archive"), FolderRole::Archive);
    assert_eq!(FolderRole::from_name("Spam"), FolderRole::Spam);
    assert_eq!(FolderRole::from_name("Custom_Folder"), FolderRole::Custom);
}

#[test]
fn test_email_address_format() {
    let addr = EmailAddress::with_name("Alice Bob", "alice@example.com");
    assert_eq!(addr.format(), "Alice Bob <alice@example.com>");

    let addr_plain = EmailAddress::new("bob@example.com");
    assert_eq!(addr_plain.format(), "bob@example.com");
}

#[test]
fn flags_bits_cover_every_flag() {
    let all = MessageFlags { seen: true, flagged: true, answered: true, draft: true, deleted: true };
    assert_eq!(all.to_bits(), 31);
    assert_eq!(MessageFlags::from_bits(31), all);
    assert_eq!(MessageFlags::from_bits(0xffff_ffe0), MessageFlags::default());
    assert_eq!(MessageFlags::from_bits(MessageFlags::DELETED_BIT).to_bits(), 16);
}

#[test]
fn folder_role_aliases_and_keywords() {
    assert_eq!(FolderRole::from_name("sent items"), FolderRole::Sent);
    assert_eq!(FolderRole::from_name("BIN"), FolderRole::Trash);
    assert_eq!(FolderRole::from_name("Junk Email"), FolderRole::Junk);
    assert_eq!(FolderRole::from_name("Deleted Messages"), FolderRole::Trash);
    assert_eq!(FolderRole::from_name("archives"), FolderRole::Archive);
    assert_eq!(FolderRole::from_name("Draft"), FolderRole::Drafts);
    assert_eq!(FolderRole::from_name(" Inbox"), FolderRole::Custom);
    assert_eq!(FolderRole::Junk.as_str(), "junk");
    assert_eq!(FolderRole::parse_keyword("SENT"), FolderRole::Sent);
    assert_eq!(FolderRole::parse_keyword("sent items"), FolderRole::Custom);
    for r in [
        FolderRole::Inbox,
        FolderRole::Sent,
        FolderRole::Drafts,
        FolderRole::Trash,
        FolderRole::Archive,
        FolderRole::Spam,
        FolderRole::Junk,
        FolderRole::Custom,
    ] {
        assert_eq!(FolderRole::parse_keyword(r.as_str()), r);
    }
}

#[test]
fn email_address_with_empty_name_formats_bare() {
    let addr = EmailAddress::with_name("", "x@example.com");
    assert_eq!(addr.format(), "x@example.com");
}

#[test]
fn test_outbox_message_creation() {
    let account_id = AccountId::new();
    let from = EmailAddress::new("sender@example.com");
    let to = vec![EmailAddress::new("recipient@example.com")];
    let mut outbox = OutboxMessage::new_draft(account_id, from, to, "Test Subject");

    assert_eq!(outbox.status, OutboxStatus::Draft);
    outbox.queue();
    assert_eq!(outbox.status, OutboxStatus::Queued);
}

#[test]
fn queue_keeps_the_rest_of_the_draft() {
    let mut outbox = OutboxMessage::new_draft(
        AccountId::new(),
        EmailAddress::new("a@example.com"),
        vec![EmailAddress::new("b@example.com")],
        "Hi",
    );
    let before = outbox.clone();
    outbox.queue();
    assert_eq!(outbox.id, before.id);
    assert_eq!(outbox.subject, "Hi");
    assert_eq!(outbox.to.len(), 1);
    assert_eq!(outbox.created_at, before.created_at);
    assert!(outbox.updated_at.secs >= before.updated_at.secs);
}

#[test]
fn outbox_status_keywords_round_trip() {
    for s in [
        OutboxStatus::Draft,
        OutboxStatus::Queued,
        OutboxStatus::Sending,
        OutboxStatus::Sent,
        OutboxStatus::Failed,
    ] {
        assert_eq!(OutboxStatus::parse_keyword(s.as_str()), s);
    }
    assert_eq!(OutboxStatus::parse_keyword("SENT"), OutboxStatus::Sent);
    assert_eq!(OutboxStatus::parse_keyword("unknown"), OutboxStatus::Draft);
    assert_eq!(OutboxStatus::Failed.as_str(), "failed");
}

#[test]
fn fresh_identifiers_are_version_7_uuids() {
    use_v7(edvige::ids::AccountId::new().0);
    use_v7(edvige::ids::FolderId::new().0);
    use_v7(edvige::ids::MessageId::new().0);
    use_v7(edvige::ids::MutationId::new().0);
    use_v7(edvige::ids::OutboxId::new().0);
    use_v7(edvige::ids::AttachmentId::new().0);
    assert_ne!(edvige::ids::AccountId::new(), edvige::ids::AccountId::new());
}

fn use_v7(u: u128) {
    assert_eq!((u >> 76) & 0xf, 7);
    assert_eq!((u >> 62) & 3, 2);
    assert_eq!(uuid::Uuid::from_u128(u).get_version_num(), 7);
}
