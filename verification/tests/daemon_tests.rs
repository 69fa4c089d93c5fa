use edvige::daemon::{
    account_from_request, daemon_event, delete_mutation, draft_from_request, flags_change, move_mutation, merge_flags, page_limit,
    parse_request_id, request_flags, require_found, ServiceError,
};
use edvige::ids::{AccountId, FolderId, MessageId, Timestamp};
use edvige::message::{EmailAddress, MessageFlags, MessageSummary};
use edvige::mutation::{Mutation, MutationStatus, MutationType};
use edvige::outbox::OutboxMessage;
use edvige::gui::supervisor::AppEvent;
use edvige::proto::{DaemonEvent, FolderUpdatedEvent, OutboxStatusProto, AccountCredentialsProto, MessageFlagsProto, OutboxMessageProto, SecurityModeProto, ServerConfigProto};

fn flags(seen: bool, flagged: bool, answered: bool, draft: bool, deleted: bool) -> MessageFlags {
    MessageFlags { seen, flagged, answered, draft, deleted }
}

#[test]
fn flag_changes_merge() {
    let cur = flags(true, false, true, false, false);
    let add = flags(false, true, false, false, true);
    let rem = flags(true, false, false, false, true);
    let m = merge_flags(cur, add, rem);
    assert_eq!(m, flags(false, true, true, false, false));
    assert_eq!(m.to_bits(), (cur.to_bits() | add.to_bits()) & !rem.to_bits() & 31);
}

#[test]
fn requests_are_read() {
    let id = AccountId::new();
    assert_eq!(parse_request_id(&id.to_text()).unwrap(), id.0);
    assert!(matches!(parse_request_id("nope"), Err(ServiceError::InvalidArgument(_))));
    assert_eq!(require_found(Some(3), "x").unwrap(), 3);
    assert_eq!(require_found::<u8>(None, "Message not found"), Err(ServiceError::NotFound("Message not found".into())));
    assert_eq!(request_flags(None), MessageFlags::default());
    let p = MessageFlagsProto { seen: true, flagged: false, answered: false, draft: true, deleted: false };
    assert_eq!(request_flags(Some(p)), flags(true, false, false, true, false));
    assert_eq!(page_limit(0), 50);
    assert_eq!(page_limit(7), 7);
}

#[test]
fn flag_change_queues_a_mutation() {
    let s = MessageSummary {
        id: MessageId::new(),
        account_id: AccountId::new(),
        folder_id: FolderId::new(),
        uid: Some(9),
        message_id_header: None,
        thread_id: None,
        subject: String::new(),
        sender: None,
        recipients: vec![],
        date: None,
        flags: flags(false, false, false, false, false),
        snippet: String::new(),
        size: 0,
        has_attachments: false,
    };
    let mid = MessageId::new();
    let fid = FolderId::new();
    let add = flags(true, false, false, false, false);
    let (f, m) = flags_change(&s, mid, fid, add, MessageFlags::default());
    assert!(f.seen);
    assert_eq!(m.account_id, s.account_id);
    assert_eq!(m.status, MutationStatus::Pending);
    assert_eq!(m.mutation_type, MutationType::SetFlags { message_id: mid, folder_id: fid, uid: Some(9), add_flags: add, remove_flags: MessageFlags::default() });
    assert_eq!(MutationStatus::InFlight.as_str(), "in_flight");
    let n = Mutation::new(s.account_id, MutationType::SendMail { outbox_message_id: mid });
    assert_eq!(n.retry_count, 0);
    assert_eq!(n.created_at, n.updated_at);
}

#[test]
fn account_creation_request() {
    let cfg = ServerConfigProto { host: "h".into(), port: 993, security: SecurityModeProto::SecurityTls };
    let creds = AccountCredentialsProto { username: "u".into(), password: "p".into() };
    let a = account_from_request("N", "e@x", Some(cfg.clone()), Some(cfg.clone()), Some(creds.clone())).unwrap();
    assert_eq!(a.imap_config.port, 993);
    assert_eq!(a.name, "N");
    assert_eq!(account_from_request("N", "e", None, None, None).unwrap_err(), ServiceError::InvalidArgument("Missing imap_config".into()));
    assert_eq!(account_from_request("N", "e", Some(cfg.clone()), None, Some(creds)).unwrap_err(), ServiceError::InvalidArgument("Missing smtp_config".into()));
    assert_eq!(account_from_request("N", "e", Some(cfg.clone()), Some(cfg), None).unwrap_err(), ServiceError::InvalidArgument("Missing credentials".into()));
}

#[test]
fn draft_requests() {
    assert_eq!(draft_from_request(None).unwrap_err(), ServiceError::InvalidArgument("Missing message".into()));
    let m = OutboxMessage::new_draft(AccountId::new(), EmailAddress::new("a@x"), vec![], "s");
    let mut p = OutboxMessageProto::from_model(m.clone());
    assert_eq!(draft_from_request(Some(p.clone())).unwrap().id, m.id);
    p.from = None;
    assert_eq!(draft_from_request(Some(p)).unwrap_err(), ServiceError::InvalidArgument("Invalid outbox message: Missing from address".into()));
    let _ = Timestamp { secs: 0, nanos: 0 };
}

#[test]
fn move_and_delete_requests_become_mutations() {
    let s = MessageSummary {
        id: MessageId::new(),
        account_id: AccountId::new(),
        folder_id: FolderId::new(),
        uid: Some(21),
        message_id_header: None,
        thread_id: None,
        subject: String::new(),
        sender: None,
        recipients: vec![],
        date: None,
        flags: MessageFlags::default(),
        snippet: String::new(),
        size: 0,
        has_attachments: false,
    };
    let mid = MessageId::new();
    let src = FolderId::new();
    let dst = FolderId::new();
    let m = move_mutation(&s, mid, src, dst);
    assert_eq!(m.account_id, s.account_id);
    assert_eq!(m.status, MutationStatus::Pending);
    assert_eq!(
        m.mutation_type,
        MutationType::MoveMessage { message_id: mid, source_folder_id: src, source_uid: Some(21), target_folder_id: dst }
    );
    let d = delete_mutation(&s, mid, src, true);
    assert_eq!(
        d.mutation_type,
        MutationType::DeleteMessage { message_id: mid, folder_id: src, uid: Some(21), permanent: true }
    );
}

#[test]
fn engine_events_become_broadcast_records() {
    let aid = AccountId(0x0123_4567_89ab_cdef_0123_4567_89ab_cdef);
    let fid = FolderId(7);
    let r = daemon_event(&AppEvent::FolderUpdated { account_id: aid, folder_id: fid, total_count: 12, unread_count: 3 });
    assert_eq!(
        r.event,
        Some(DaemonEvent::FolderUpdated(FolderUpdatedEvent {
            account_id: "01234567-89ab-cdef-0123-456789abcdef".to_string(),
            folder_id: "00000000-0000-0000-0000-000000000007".to_string(),
            total_count: 12,
            unread_count: 3,
        }))
    );
    assert!(uuid::Uuid::parse_str(&r.event_id).is_ok());
    assert!(chrono::DateTime::parse_from_rfc3339(&r.timestamp).is_ok());
    let s = daemon_event(&AppEvent::OutboxStatusChanged {
        account_id: aid,
        outbox_id: edvige::ids::OutboxId(1),
        status: edvige::outbox::OutboxStatus::Sent,
    });
    match s.event {
        Some(DaemonEvent::OutboxStatus(x)) => {
            assert_eq!(x.status, OutboxStatusProto::OutboxStatusSent);
            assert_eq!(x.outbox_id, "00000000-0000-0000-0000-000000000001");
        }
        other => panic!("unexpected {:?}", other),
    }
    assert_ne!(r.event_id, s.event_id);
}
