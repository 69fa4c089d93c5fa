//! The decisions of the background service's request handlers: identifiers and
//! records read from requests, the flags a flag change leaves, the mutations it
//! queues, and page sizes.

use vstd::prelude::*;

use crate::account::Account;
use crate::ids::{
    fresh_uuid, rfc3339_text, uuid_err, uuid_ok, uuid_parse, uuid_text, uuid_to_string, FolderId,
    MessageId, Timestamp,
};
use crate::message::{MessageFlags, MessageSummary, flags_bits, no_flags};
use crate::mutation::{Mutation, MutationType};
use crate::outbox::OutboxMessage;
use crate::gui::supervisor::AppEvent;
use crate::proto::{
    AccountCredentialsProto, DaemonEvent, DaemonEventProto, FlagsChangedEvent, FolderUpdatedEvent,
    MessageFlagsProto, NewMessagesSyncedEvent, OutboxMessageProto, OutboxStatusChangedEvent,
    OutboxStatusProto, ServerConfigProto, SyncProgressEvent, flags_to_proto, outbox_from_proto_error,
    outbox_read_from, status_to_proto,
};
use crate::text::push_str;

verus! {

/// Why a request was refused (the status code and its message).
#[derive(Debug, Clone, PartialEq, Eq)]
pub enum ServiceError {
    InvalidArgument(String),
    NotFound(String),
    Internal(String),
}

/// Reads an identifier from a request; an unreadable one is an invalid argument
/// carrying the parser's message.
pub fn parse_request_id(text: &str) -> (r: Result<u128, ServiceError>)
    ensures
        match r {
            Ok(u) => uuid_parse(text@) == uuid_ok(u),
            Err(e) => exists|m: Seq<char>| uuid_parse(text@) == uuid_err(m) && (e matches ServiceError::InvalidArgument(x) && x@ == m),
        },
{
    match crate::ids::uuid_from_str(text) {
        Ok(u) => Ok(u),
        Err(e) => Err(ServiceError::InvalidArgument(e)),
    }
}

/// A value that must be present; a missing one is reported as not found.
pub fn require_found<T>(o: Option<T>, what: &str) -> (r: Result<T, ServiceError>)
    ensures
        match o {
            Some(x) => (r matches Ok(y) && y == x),
            None => (r matches Err(ServiceError::NotFound(m)) && m@ == what@),
        },
{
    match o {
        Some(x) => Ok(x),
        None => Err(ServiceError::NotFound(what.to_owned())),
    }
}

/// The flags a request names, none when it names none.
pub fn request_flags(p: Option<MessageFlagsProto>) -> (r: MessageFlags)
    ensures
        match p {
            Some(f) => r == (MessageFlags {
                seen: f.seen,
                flagged: f.flagged,
                answered: f.answered,
                draft: f.draft,
                deleted: f.deleted,
            }),
            None => r == no_flags(),
        },
{
    match p {
        Some(f) => f.to_model(),
        None => MessageFlags::default(),
    }
}

/// The flags of a message after a change: every added flag set, then every
/// removed flag cleared (a flag both added and removed ends cleared).
pub open spec fn merged_flags(current: MessageFlags, add: MessageFlags, remove: MessageFlags) -> MessageFlags {
    MessageFlags {
        seen: (current.seen || add.seen) && !remove.seen,
        flagged: (current.flagged || add.flagged) && !remove.flagged,
        answered: (current.answered || add.answered) && !remove.answered,
        draft: (current.draft || add.draft) && !remove.draft,
        deleted: (current.deleted || add.deleted) && !remove.deleted,
    }
}

pub fn merge_flags(current: MessageFlags, add: MessageFlags, remove: MessageFlags) -> (r: MessageFlags)
    ensures
        r == merged_flags(current, add, remove),
{
    let mut f = current;
    if add.seen {
        f.seen = true;
    }
    if add.flagged {
        f.flagged = true;
    }
    if add.answered {
        f.answered = true;
    }
    if add.draft {
        f.draft = true;
    }
    if add.deleted {
        f.deleted = true;
    }
    if remove.seen {
        f.seen = false;
    }
    if remove.flagged {
        f.flagged = false;
    }
    if remove.answered {
        f.answered = false;
    }
    if remove.draft {
        f.draft = false;
    }
    if remove.deleted {
        f.deleted = false;
    }
    f
}

/// On the bitmasks, a flag change is `(current | add) & !remove`.
pub proof fn lemma_merge_flags_bits(current: MessageFlags, add: MessageFlags, remove: MessageFlags)
    ensures
        flags_bits(merged_flags(current, add, remove)) == (flags_bits(current) | flags_bits(add))
            & !flags_bits(remove) & 31,
{
    let m = merged_flags(current, add, remove);
    let (c1, c2, c3, c4, c5) = (current.seen, current.flagged, current.answered, current.draft, current.deleted);
    let (a1, a2, a3, a4, a5) = (add.seen, add.flagged, add.answered, add.draft, add.deleted);
    let (r1, r2, r3, r4, r5) = (remove.seen, remove.flagged, remove.answered, remove.draft, remove.deleted);
    let bc = flags_bits(current);
    let ba = flags_bits(add);
    let br = flags_bits(remove);
    let bm = flags_bits(m);
    assert(bm == (bc | ba) & !br & 31) by (bit_vector)
        requires
            bc == crate::message::bit_if(c1, 1) | crate::message::bit_if(c2, 2) | crate::message::bit_if(c3, 4)
                | crate::message::bit_if(c4, 8) | crate::message::bit_if(c5, 16),
            ba == crate::message::bit_if(a1, 1) | crate::message::bit_if(a2, 2) | crate::message::bit_if(a3, 4)
                | crate::message::bit_if(a4, 8) | crate::message::bit_if(a5, 16),
            br == crate::message::bit_if(r1, 1) | crate::message::bit_if(r2, 2) | crate::message::bit_if(r3, 4)
                | crate::message::bit_if(r4, 8) | crate::message::bit_if(r5, 16),
            bm == crate::message::bit_if((c1 || a1) && !r1, 1) | crate::message::bit_if((c2 || a2) && !r2, 2)
                | crate::message::bit_if((c3 || a3) && !r3, 4) | crate::message::bit_if((c4 || a4) && !r4, 8)
                | crate::message::bit_if((c5 || a5) && !r5, 16),
    ;
}

/// A flag change of a stored message: the flags it now has, and the mutation that
/// replays the change on the server.
pub fn flags_change(
    summary: &MessageSummary,
    message_id: MessageId,
    folder_id: FolderId,
    add: MessageFlags,
    remove: MessageFlags,
) -> (r: (MessageFlags, Mutation))
    ensures
        r.0 == merged_flags(summary.flags, add, remove),
        r.1.account_id == summary.account_id,
        r.1.mutation_type == (MutationType::SetFlags {
            message_id,
            folder_id,
            uid: summary.uid,
            add_flags: add,
            remove_flags: remove,
        }),
        r.1.status == crate::mutation::MutationStatus::Pending,
        r.1.retry_count == 0,
{
    let flags = merge_flags(summary.flags, add, remove);
    let m = Mutation::new(
        summary.account_id,
        MutationType::SetFlags { message_id, folder_id, uid: summary.uid, add_flags: add, remove_flags: remove },
    );
    (flags, m)
}

/// The mutation that replays a move on the server.
pub fn move_mutation(
    summary: &MessageSummary,
    message_id: MessageId,
    source: FolderId,
    target: FolderId,
) -> (r: Mutation)
    ensures
        r.account_id == summary.account_id,
        r.mutation_type == (MutationType::MoveMessage {
            message_id,
            source_folder_id: source,
            source_uid: summary.uid,
            target_folder_id: target,
        }),
        r.status == crate::mutation::MutationStatus::Pending,
{
    Mutation::new(
        summary.account_id,
        MutationType::MoveMessage {
            message_id,
            source_folder_id: source,
            source_uid: summary.uid,
            target_folder_id: target,
        },
    )
}

/// The mutation that replays a deletion on the server.
pub fn delete_mutation(summary: &MessageSummary, message_id: MessageId, folder_id: FolderId, permanent: bool) -> (r: Mutation)
    ensures
        r.account_id == summary.account_id,
        r.mutation_type == (MutationType::DeleteMessage {
            message_id,
            folder_id,
            uid: summary.uid,
            permanent,
        }),
        r.status == crate::mutation::MutationStatus::Pending,
{
    Mutation::new(
        summary.account_id,
        MutationType::DeleteMessage { message_id, folder_id, uid: summary.uid, permanent },
    )
}

/// The page size of a listing: 50 when the request asks for 0.
pub fn page_limit(limit: u32) -> (r: u32)
    ensures
        r == (if limit == 0 {
            50
        } else {
            limit
        }),
{
    if limit == 0 {
        50
    } else {
        limit
    }
}

/// A new account from a creation request: the three parts must be present, in
/// that order of checking.
pub fn account_from_request(
    name: &str,
    email: &str,
    imap: Option<ServerConfigProto>,
    smtp: Option<ServerConfigProto>,
    credentials: Option<AccountCredentialsProto>,
) -> (r: Result<Account, ServiceError>)
    ensures
        match (imap, smtp, credentials) {
            (Some(i), Some(s), Some(c)) => (r matches Ok(a) && a.wf() && a.name@ == name@
                && a.email@ == email@ && a.imap_config == crate::proto::server_from_proto(i)
                && a.smtp_config == crate::proto::server_from_proto(s) && a.credentials
                == crate::proto::credentials_from_proto(c)),
            (None, _, _) => (r matches Err(ServiceError::InvalidArgument(m)) && m@
                == "Missing imap_config"@),
            (Some(_), None, _) => (r matches Err(ServiceError::InvalidArgument(m)) && m@
                == "Missing smtp_config"@),
            (Some(_), Some(_), None) => (r matches Err(ServiceError::InvalidArgument(m)) && m@
                == "Missing credentials"@),
        },
{
    let i = match imap {
        Some(i) => i,
        None => {
            return Err(ServiceError::InvalidArgument("Missing imap_config".to_owned()));
        },
    };
    let s = match smtp {
        Some(s) => s,
        None => {
            return Err(ServiceError::InvalidArgument("Missing smtp_config".to_owned()));
        },
    };
    let c = match credentials {
        Some(c) => c,
        None => {
            return Err(ServiceError::InvalidArgument("Missing credentials".to_owned()));
        },
    };
    Ok(Account::new(name, email, i.to_model(), s.to_model(), c.to_model()))
}

/// The outgoing message of a draft request: it must be present and readable.
pub fn draft_from_request(message: Option<OutboxMessageProto>) -> (r: Result<OutboxMessage, ServiceError>)
    ensures
        match message {
            None => (r matches Err(ServiceError::InvalidArgument(m)) && m@ == "Missing message"@),
            Some(p) => match outbox_from_proto_error(p) {
                Some(e) => (r matches Err(ServiceError::InvalidArgument(m)) && m@
                    == "Invalid outbox message: "@ + e),
                None => (r matches Ok(o) && outbox_read_from(p, o) && o.wf()),
            },
        },
{
    let p = match message {
        Some(p) => p,
        None => {
            return Err(ServiceError::InvalidArgument("Missing message".to_owned()));
        },
    };
    match OutboxMessage::from_proto(p) {
        Ok(o) => Ok(o),
        Err(e) => {
            let mut m = "Invalid outbox message: ".to_owned();
            push_str(&mut m, e.as_str());
            Err(ServiceError::InvalidArgument(m))
        },
    }
}

/// The data of an engine event as the service broadcasts it: identifiers as their
/// text, flags and status as their records.
pub open spec fn event_written_as(e: AppEvent, d: DaemonEvent) -> bool {
    match e {
        AppEvent::FolderUpdated { account_id, folder_id, total_count, unread_count } => d matches DaemonEvent::FolderUpdated(x)
            && x.account_id@ == uuid_text(account_id.0) && x.folder_id@ == uuid_text(folder_id.0)
            && x.total_count == total_count && x.unread_count == unread_count,
        AppEvent::NewMessages { account_id, folder_id, count } => d matches DaemonEvent::NewMessages(x)
            && x.account_id@ == uuid_text(account_id.0) && x.folder_id@ == uuid_text(folder_id.0)
            && x.count == count,
        AppEvent::FlagsChanged { folder_id, message_id, flags } => d matches DaemonEvent::FlagsChanged(x)
            && x.folder_id@ == uuid_text(folder_id.0) && x.message_id@ == uuid_text(message_id.0)
            && x.flags == Some(flags_to_proto(flags)),
        AppEvent::OutboxStatusChanged { account_id, outbox_id, status } => d matches DaemonEvent::OutboxStatus(x)
            && x.account_id@ == uuid_text(account_id.0) && x.outbox_id@ == uuid_text(outbox_id.0)
            && x.status == status_to_proto(status),
        AppEvent::SyncProgress { account_id, message } => d matches DaemonEvent::SyncProgress(x)
            && x.account_id@ == uuid_text(account_id.0) && x.message@ == message@,
    }
}

/// The event the service broadcasts for an engine event: a fresh identifier (the
/// text of a UUID), the current time as RFC 3339 text, and the event's data.
pub fn daemon_event(e: &AppEvent) -> (r: DaemonEventProto)
    ensures
        r.event matches Some(d) && event_written_as(*e, d),
        exists|u: u128| #[trigger] uuid_text(u) == r.event_id@,
        exists|t: Timestamp| t.valid() && #[trigger] rfc3339_text(t.secs, t.nanos) == r.timestamp@,
{
    let u = fresh_uuid();
    let event_id = uuid_to_string(u);
    let now = Timestamp::now();
    let timestamp = now.to_rfc3339();
    let event = match e {
        AppEvent::FolderUpdated { account_id, folder_id, total_count, unread_count } => DaemonEvent::FolderUpdated(
            FolderUpdatedEvent {
                account_id: account_id.to_text(),
                folder_id: folder_id.to_text(),
                total_count: *total_count,
                unread_count: *unread_count,
            },
        ),
        AppEvent::NewMessages { account_id, folder_id, count } => DaemonEvent::NewMessages(
            NewMessagesSyncedEvent {
                account_id: account_id.to_text(),
                folder_id: folder_id.to_text(),
                count: *count,
            },
        ),
        AppEvent::FlagsChanged { folder_id, message_id, flags } => DaemonEvent::FlagsChanged(
            FlagsChangedEvent {
                folder_id: folder_id.to_text(),
                message_id: message_id.to_text(),
                flags: Some(MessageFlagsProto::from_model(*flags)),
            },
        ),
        AppEvent::OutboxStatusChanged { account_id, outbox_id, status } => DaemonEvent::OutboxStatus(
            OutboxStatusChangedEvent {
                account_id: account_id.to_text(),
                outbox_id: outbox_id.to_text(),
                status: OutboxStatusProto::from_model(*status),
            },
        ),
        AppEvent::SyncProgress { account_id, message } => DaemonEvent::SyncProgress(
            SyncProgressEvent { account_id: account_id.to_text(), message: message.clone() },
        ),
    };
    assert(uuid_text(u) == event_id@);
    assert(rfc3339_text(now.secs, now.nanos) == timestamp@);
    DaemonEventProto { event_id, timestamp, event: Some(event) }
}

} // verus!
