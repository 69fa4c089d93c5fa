//! The records exchanged with the background service, and their conversion to and
//! from the model.

use vstd::prelude::*;

use crate::account::{Account, AccountCredentials, SecurityMode, ServerConfig};
use crate::folder::{Folder, FolderRole};
use crate::ids::{
    instant_ok, rfc3339_parse, rfc3339_text, uuid_ok, uuid_parse, uuid_text, AccountId, FolderId, OutboxId,
    Timestamp,
};
use crate::attachment::AttachmentMetadata;
use crate::message::{EmailAddress, Envelope, MessageDetail, MessageFlags, MessageSummary};
use crate::outbox::{DraftAttachment, OutboxMessage, OutboxStatus};
use crate::text::push_str;

verus! {

#[derive(Debug, Clone, Copy, PartialEq, Eq, Structural)]
pub enum SecurityModeProto {
    SecurityPlain,
    SecurityTls,
    SecurityStarttls,
}

#[derive(Debug, Clone, Copy, PartialEq, Eq, Structural)]
pub enum FolderRoleProto {
    FolderRoleInbox,
    FolderRoleSent,
    FolderRoleDrafts,
    FolderRoleTrash,
    FolderRoleArchive,
    FolderRoleSpam,
    FolderRoleJunk,
    FolderRoleCustom,
}

#[derive(Debug, Clone, Copy, PartialEq, Eq, Structural)]
pub enum OutboxStatusProto {
    OutboxStatusDraft,
    OutboxStatusQueued,
    OutboxStatusSending,
    OutboxStatusSent,
    OutboxStatusFailed,
}

pub open spec fn security_to_proto(s: SecurityMode) -> SecurityModeProto {
    match s {
        SecurityMode::Plain => SecurityModeProto::SecurityPlain,
        SecurityMode::Tls => SecurityModeProto::SecurityTls,
        SecurityMode::StartTls => SecurityModeProto::SecurityStarttls,
    }
}

pub open spec fn security_from_proto(s: SecurityModeProto) -> SecurityMode {
    match s {
        SecurityModeProto::SecurityPlain => SecurityMode::Plain,
        SecurityModeProto::SecurityTls => SecurityMode::Tls,
        SecurityModeProto::SecurityStarttls => SecurityMode::StartTls,
    }
}

pub open spec fn role_to_proto(r: FolderRole) -> FolderRoleProto {
    match r {
        FolderRole::Inbox => FolderRoleProto::FolderRoleInbox,
        FolderRole::Sent => FolderRoleProto::FolderRoleSent,
        FolderRole::Drafts => FolderRoleProto::FolderRoleDrafts,
        FolderRole::Trash => FolderRoleProto::FolderRoleTrash,
        FolderRole::Archive => FolderRoleProto::FolderRoleArchive,
        FolderRole::Spam => FolderRoleProto::FolderRoleSpam,
        FolderRole::Junk => FolderRoleProto::FolderRoleJunk,
        FolderRole::Custom => FolderRoleProto::FolderRoleCustom,
    }
}

pub open spec fn role_from_proto(r: FolderRoleProto) -> FolderRole {
    match r {
        FolderRoleProto::FolderRoleInbox => FolderRole::Inbox,
        FolderRoleProto::FolderRoleSent => FolderRole::Sent,
        FolderRoleProto::FolderRoleDrafts => FolderRole::Drafts,
        FolderRoleProto::FolderRoleTrash => FolderRole::Trash,
        FolderRoleProto::FolderRoleArchive => FolderRole::Archive,
        FolderRoleProto::FolderRoleSpam => FolderRole::Spam,
        FolderRoleProto::FolderRoleJunk => FolderRole::Junk,
        FolderRoleProto::FolderRoleCustom => FolderRole::Custom,
    }
}

pub open spec fn status_to_proto(s: OutboxStatus) -> OutboxStatusProto {
    match s {
        OutboxStatus::Draft => OutboxStatusProto::OutboxStatusDraft,
        OutboxStatus::Queued => OutboxStatusProto::OutboxStatusQueued,
        OutboxStatus::Sending => OutboxStatusProto::OutboxStatusSending,
        OutboxStatus::Sent => OutboxStatusProto::OutboxStatusSent,
        OutboxStatus::Failed => OutboxStatusProto::OutboxStatusFailed,
    }
}

pub open spec fn status_from_proto(s: OutboxStatusProto) -> OutboxStatus {
    match s {
        OutboxStatusProto::OutboxStatusDraft => OutboxStatus::Draft,
        OutboxStatusProto::OutboxStatusQueued => OutboxStatus::Queued,
        OutboxStatusProto::OutboxStatusSending => OutboxStatus::Sending,
        OutboxStatusProto::OutboxStatusSent => OutboxStatus::Sent,
        OutboxStatusProto::OutboxStatusFailed => OutboxStatus::Failed,
    }
}

impl SecurityModeProto {
    pub fn from_model(s: SecurityMode) -> (r: Self)
        ensures
            r == security_to_proto(s),
    {
        match s {
            SecurityMode::Plain => SecurityModeProto::SecurityPlain,
            SecurityMode::Tls => SecurityModeProto::SecurityTls,
            SecurityMode::StartTls => SecurityModeProto::SecurityStarttls,
        }
    }

    pub fn to_model(self) -> (r: SecurityMode)
        ensures
            r == security_from_proto(self),
    {
        match self {
            SecurityModeProto::SecurityPlain => SecurityMode::Plain,
            SecurityModeProto::SecurityTls => SecurityMode::Tls,
            SecurityModeProto::SecurityStarttls => SecurityMode::StartTls,
        }
    }
}

impl FolderRoleProto {
    pub fn from_model(r: FolderRole) -> (p: Self)
        ensures
            p == role_to_proto(r),
    {
        match r {
            FolderRole::Inbox => FolderRoleProto::FolderRoleInbox,
            FolderRole::Sent => FolderRoleProto::FolderRoleSent,
            FolderRole::Drafts => FolderRoleProto::FolderRoleDrafts,
            FolderRole::Trash => FolderRoleProto::FolderRoleTrash,
            FolderRole::Archive => FolderRoleProto::FolderRoleArchive,
            FolderRole::Spam => FolderRoleProto::FolderRoleSpam,
            FolderRole::Junk => FolderRoleProto::FolderRoleJunk,
            FolderRole::Custom => FolderRoleProto::FolderRoleCustom,
        }
    }

    pub fn to_model(self) -> (r: FolderRole)
        ensures
            r == role_from_proto(self),
    {
        match self {
            FolderRoleProto::FolderRoleInbox => FolderRole::Inbox,
            FolderRoleProto::FolderRoleSent => FolderRole::Sent,
            FolderRoleProto::FolderRoleDrafts => FolderRole::Drafts,
            FolderRoleProto::FolderRoleTrash => FolderRole::Trash,
            FolderRoleProto::FolderRoleArchive => FolderRole::Archive,
            FolderRoleProto::FolderRoleSpam => FolderRole::Spam,
            FolderRoleProto::FolderRoleJunk => FolderRole::Junk,
            FolderRoleProto::FolderRoleCustom => FolderRole::Custom,
        }
    }
}

impl OutboxStatusProto {
    pub fn from_model(s: OutboxStatus) -> (r: Self)
        ensures
            r == status_to_proto(s),
    {
        match s {
            OutboxStatus::Draft => OutboxStatusProto::OutboxStatusDraft,
            OutboxStatus::Queued => OutboxStatusProto::OutboxStatusQueued,
            OutboxStatus::Sending => OutboxStatusProto::OutboxStatusSending,
            OutboxStatus::Sent => OutboxStatusProto::OutboxStatusSent,
            OutboxStatus::Failed => OutboxStatusProto::OutboxStatusFailed,
        }
    }

    pub fn to_model(self) -> (r: OutboxStatus)
        ensures
            r == status_from_proto(self),
    {
        match self {
            OutboxStatusProto::OutboxStatusDraft => OutboxStatus::Draft,
            OutboxStatusProto::OutboxStatusQueued => OutboxStatus::Queued,
            OutboxStatusProto::OutboxStatusSending => OutboxStatus::Sending,
            OutboxStatusProto::OutboxStatusSent => OutboxStatus::Sent,
            OutboxStatusProto::OutboxStatusFailed => OutboxStatus::Failed,
        }
    }
}

/// Converting a security mode to its record and back gives the same mode, and the
/// record of a converted mode converts back to itself.
pub proof fn lemma_security_roundtrip(s: SecurityMode, p: SecurityModeProto)
    ensures
        security_from_proto(security_to_proto(s)) == s,
        security_to_proto(security_from_proto(p)) == p,
{
}

/// Folder roles survive the round trip through their record, both ways.
pub proof fn lemma_role_roundtrip(r: FolderRole, p: FolderRoleProto)
    ensures
        role_from_proto(role_to_proto(r)) == r,
        role_to_proto(role_from_proto(p)) == p,
{
}

/// Outbox states survive the round trip through their record, both ways.
pub proof fn lemma_status_roundtrip(s: OutboxStatus, p: OutboxStatusProto)
    ensures
        status_from_proto(status_to_proto(s)) == s,
        status_to_proto(status_from_proto(p)) == p,
{
}

#[derive(Debug, Clone)]
pub struct ServerConfigProto {
    pub host: String,
    pub port: u32,
    pub security: SecurityModeProto,
}

#[derive(Debug, Clone)]
pub struct AccountCredentialsProto {
    pub username: String,
    pub password: String,
}

#[derive(Debug, Clone)]
pub struct AccountProto {
    pub id: String,
    pub name: String,
    pub email: String,
    pub imap_config: Option<ServerConfigProto>,
    pub smtp_config: Option<ServerConfigProto>,
    pub credentials: Option<AccountCredentialsProto>,
    pub created_at: String,
    pub updated_at: String,
}


/// The record of a server's settings.
pub open spec fn server_to_proto(c: ServerConfig) -> ServerConfigProto {
    ServerConfigProto { host: c.host, port: c.port as u32, security: security_to_proto(c.security) }
}

/// The settings a server record describes; the port keeps its low 16 bits.
pub open spec fn server_from_proto(p: ServerConfigProto) -> ServerConfig {
    ServerConfig {
        host: p.host,
        port: (p.port % 65536) as u16,
        security: security_from_proto(p.security),
    }
}

pub open spec fn credentials_to_proto(c: AccountCredentials) -> AccountCredentialsProto {
    AccountCredentialsProto { username: c.username, password: c.password }
}

pub open spec fn credentials_from_proto(p: AccountCredentialsProto) -> AccountCredentials {
    AccountCredentials { username: p.username, password: p.password }
}

impl ServerConfigProto {
    pub fn from_model(c: ServerConfig) -> (r: Self)
        ensures
            r == server_to_proto(c),
    {
        ServerConfigProto {
            host: c.host,
            port: c.port as u32,
            security: SecurityModeProto::from_model(c.security),
        }
    }

    pub fn to_model(self) -> (r: ServerConfig)
        ensures
            r == server_from_proto(self),
    {
        ServerConfig {
            host: self.host,
            port: (self.port % 65536) as u16,
            security: self.security.to_model(),
        }
    }
}

impl AccountCredentialsProto {
    pub fn from_model(c: AccountCredentials) -> (r: Self)
        ensures
            r == credentials_to_proto(c),
    {
        AccountCredentialsProto { username: c.username, password: c.password }
    }

    pub fn to_model(self) -> (r: AccountCredentials)
        ensures
            r == credentials_from_proto(self),
    {
        AccountCredentials { username: self.username, password: self.password }
    }
}

/// `p` is the record written for account `a`: the identifier and the two times as
/// text, the settings and credentials present.
pub open spec fn account_written_as(a: Account, p: AccountProto) -> bool {
    &&& p.id@ == uuid_text(a.id.0)
    &&& uuid_parse(p.id@) == uuid_ok(a.id.0)
    &&& p.name == a.name
    &&& p.email == a.email
    &&& p.imap_config == Some(server_to_proto(a.imap_config))
    &&& p.smtp_config == Some(server_to_proto(a.smtp_config))
    &&& p.credentials == Some(credentials_to_proto(a.credentials))
    &&& p.created_at@ == rfc3339_text(a.created_at.secs, a.created_at.nanos)
    &&& p.updated_at@ == rfc3339_text(a.updated_at.secs, a.updated_at.nanos)
    &&& (a.created_at.plain() ==> rfc3339_parse(p.created_at@) == instant_ok(
        a.created_at.secs,
        a.created_at.nanos,
    ))
    &&& (a.updated_at.plain() ==> rfc3339_parse(p.updated_at@) == instant_ok(
        a.updated_at.secs,
        a.updated_at.nanos,
    ))
}

/// `a` is the account read from record `p`.
pub open spec fn account_read_from(p: AccountProto, a: Account) -> bool {
    &&& a.wf()
    &&& uuid_parse(p.id@) == uuid_ok(a.id.0)
    &&& a.name == p.name
    &&& a.email == p.email
    &&& p.imap_config is Some && a.imap_config == server_from_proto(p.imap_config.unwrap())
    &&& p.smtp_config is Some && a.smtp_config == server_from_proto(p.smtp_config.unwrap())
    &&& p.credentials is Some && a.credentials == credentials_from_proto(p.credentials.unwrap())
    &&& rfc3339_parse(p.created_at@) == instant_ok(a.created_at.secs, a.created_at.nanos)
    &&& rfc3339_parse(p.updated_at@) == instant_ok(a.updated_at.secs, a.updated_at.nanos)
}

impl AccountProto {
    pub fn from_model(a: Account) -> (r: Self)
        requires
            a.wf(),
        ensures
            account_written_as(a, r),
    {
        let id = a.id.to_text();
        let created_at = a.created_at.to_rfc3339();
        let updated_at = a.updated_at.to_rfc3339();
        AccountProto {
            id,
            name: a.name,
            email: a.email,
            imap_config: Some(ServerConfigProto::from_model(a.imap_config)),
            smtp_config: Some(ServerConfigProto::from_model(a.smtp_config)),
            credentials: Some(AccountCredentialsProto::from_model(a.credentials)),
            created_at,
            updated_at,
        }
    }
}

/// `prefix` followed by `detail`.
fn error_text(prefix: &str, detail: String) -> (r: String)
    ensures
        r@ == prefix@ + detail@,
{
    let mut s = prefix.to_owned();
    push_str(&mut s, detail.as_str());
    s
}

/// What reading an account record yields: the first problem found, in the order
/// identifier, IMAP settings, SMTP settings, credentials, creation time, update time.
pub open spec fn account_from_proto_error(p: AccountProto) -> Option<Seq<char>> {
    match uuid_parse(p.id@) {
        Err(e) => Some("Invalid Account ID: "@ + e),
        Ok(_) => if p.imap_config is None {
            Some("Missing imap_config"@)
        } else if p.smtp_config is None {
            Some("Missing smtp_config"@)
        } else if p.credentials is None {
            Some("Missing credentials"@)
        } else {
            match rfc3339_parse(p.created_at@) {
                Err(e) => Some("Invalid created_at: "@ + e),
                Ok(_) => match rfc3339_parse(p.updated_at@) {
                    Err(e) => Some("Invalid updated_at: "@ + e),
                    Ok(_) => None,
                },
            }
        },
    }
}

impl Account {
    /// Reads an account record.
    pub fn from_proto(p: AccountProto) -> (r: Result<Account, String>)
        ensures
            match account_from_proto_error(p) {
                Some(e) => (r matches Err(m) && m@ == e),
                None => (r matches Ok(a) && account_read_from(p, a)),
            },
    {
        let id = match crate::ids::uuid_from_str(p.id.as_str()) {
            Ok(u) => AccountId::from_uuid(u),
            Err(e) => {
                return Err(error_text("Invalid Account ID: ", e));
            },
        };
        let imap_config = match p.imap_config {
            Some(c) => c.to_model(),
            None => {
                return Err("Missing imap_config".to_owned());
            },
        };
        let smtp_config = match p.smtp_config {
            Some(c) => c.to_model(),
            None => {
                return Err("Missing smtp_config".to_owned());
            },
        };
        let credentials = match p.credentials {
            Some(c) => c.to_model(),
            None => {
                return Err("Missing credentials".to_owned());
            },
        };
        let created_at = match Timestamp::parse_rfc3339(p.created_at.as_str()) {
            Ok(t) => t,
            Err(e) => {
                return Err(error_text("Invalid created_at: ", e));
            },
        };
        let updated_at = match Timestamp::parse_rfc3339(p.updated_at.as_str()) {
            Ok(t) => t,
            Err(e) => {
                return Err(error_text("Invalid updated_at: ", e));
            },
        };
        Ok(
            Account {
                id,
                name: p.name,
                email: p.email,
                imap_config,
                smtp_config,
                credentials,
                created_at,
                updated_at,
            },
        )
    }
}

/// Reading the record written for an account whose times have four-digit years
/// and are no leap seconds succeeds, and gives back that very account.
pub proof fn lemma_account_roundtrip(a: Account, p: AccountProto, b: Account)
    requires
        a.wf(),
        a.created_at.plain(),
        a.updated_at.plain(),
        account_written_as(a, p),
    ensures
        account_from_proto_error(p) is None,
        account_read_from(p, b) ==> b == a,
{
    lemma_security_roundtrip(a.imap_config.security, security_to_proto(a.imap_config.security));
    lemma_security_roundtrip(a.smtp_config.security, security_to_proto(a.smtp_config.security));
    assert(server_from_proto(server_to_proto(a.imap_config)) == a.imap_config);
    assert(server_from_proto(server_to_proto(a.smtp_config)) == a.smtp_config);
    if account_read_from(p, b) {
        assert(b.id == a.id);
        assert(b.created_at == a.created_at);
        assert(b.updated_at == a.updated_at);
    }
}

#[derive(Debug, Clone)]
pub struct EmailAddressProto {
    pub name: Option<String>,
    pub address: String,
}

pub open spec fn address_to_proto(e: EmailAddress) -> EmailAddressProto {
    EmailAddressProto { name: e.name, address: e.address }
}

pub open spec fn address_from_proto(p: EmailAddressProto) -> EmailAddress {
    EmailAddress { name: p.name, address: p.address }
}

impl EmailAddressProto {
    pub fn from_model(e: EmailAddress) -> (r: Self)
        ensures
            r == address_to_proto(e),
    {
        EmailAddressProto { name: e.name, address: e.address }
    }

    pub fn to_model(self) -> (r: EmailAddress)
        ensures
            r == address_from_proto(self),
    {
        EmailAddress { name: self.name, address: self.address }
    }
}

/// Each address of a list as its record, in order.
fn addresses_to_proto(v: Vec<EmailAddress>) -> (r: Vec<EmailAddressProto>)
    ensures
        r@ == v@.map_values(|e: EmailAddress| address_to_proto(e)),
{
    broadcast use vstd::std_specs::vec::axiom_spec_into_iter;
    let ghost elts = v@;
    let mut r: Vec<EmailAddressProto> = Vec::new();
    for e in it: v.into_iter()
        invariant
            it.seq() == elts,
            r@ == elts.take(it.index() as int).map_values(|e: EmailAddress| address_to_proto(e)),
    {
        proof {
            assert(elts.take(it.index() + 1) == elts.take(it.index() as int).push(e));
        }
        r.push(EmailAddressProto::from_model(e));
    }
    proof {
        assert(elts.take(elts.len() as int) == elts);
    }
    r
}

/// The records of a list of addresses, each read back, in order.
fn addresses_from_proto(v: Vec<EmailAddressProto>) -> (r: Vec<EmailAddress>)
    ensures
        r@ == v@.map_values(|p: EmailAddressProto| address_from_proto(p)),
{
    broadcast use vstd::std_specs::vec::axiom_spec_into_iter;
    let ghost elts = v@;
    let mut r: Vec<EmailAddress> = Vec::new();
    for p in it: v.into_iter()
        invariant
            it.seq() == elts,
            r@ == elts.take(it.index() as int).map_values(
                |p: EmailAddressProto| address_from_proto(p),
            ),
    {
        proof {
            assert(elts.take(it.index() + 1) == elts.take(it.index() as int).push(p));
        }
        r.push(p.to_model());
    }
    proof {
        assert(elts.take(elts.len() as int) == elts);
    }
    r
}

#[derive(Debug, Clone, Copy, PartialEq, Eq, Structural)]
pub struct MessageFlagsProto {
    pub seen: bool,
    pub flagged: bool,
    pub answered: bool,
    pub draft: bool,
    pub deleted: bool,
}

impl MessageFlagsProto {
    pub fn from_model(f: MessageFlags) -> (r: Self)
        ensures
            r.seen == f.seen,
            r.flagged == f.flagged,
            r.answered == f.answered,
            r.draft == f.draft,
            r.deleted == f.deleted,
    {
        MessageFlagsProto {
            seen: f.seen,
            flagged: f.flagged,
            answered: f.answered,
            draft: f.draft,
            deleted: f.deleted,
        }
    }

    pub fn to_model(self) -> (r: MessageFlags)
        ensures
            r.seen == self.seen,
            r.flagged == self.flagged,
            r.answered == self.answered,
            r.draft == self.draft,
            r.deleted == self.deleted,
    {
        MessageFlags {
            seen: self.seen,
            flagged: self.flagged,
            answered: self.answered,
            draft: self.draft,
            deleted: self.deleted,
        }
    }
}

#[derive(Debug, Clone)]
pub struct DraftAttachmentProto {
    pub filename: String,
    pub content_type: String,
    pub data: Vec<u8>,
    pub content_id: Option<String>,
    pub is_inline: bool,
}

pub open spec fn draft_to_proto(d: DraftAttachment) -> DraftAttachmentProto {
    DraftAttachmentProto {
        filename: d.filename,
        content_type: d.content_type,
        data: d.data,
        content_id: d.content_id,
        is_inline: d.is_inline,
    }
}

pub open spec fn draft_from_proto(p: DraftAttachmentProto) -> DraftAttachment {
    DraftAttachment {
        filename: p.filename,
        content_type: p.content_type,
        data: p.data,
        content_id: p.content_id,
        is_inline: p.is_inline,
    }
}

impl DraftAttachmentProto {
    pub fn from_model(d: DraftAttachment) -> (r: Self)
        ensures
            r == draft_to_proto(d),
    {
        DraftAttachmentProto {
            filename: d.filename,
            content_type: d.content_type,
            data: d.data,
            content_id: d.content_id,
            is_inline: d.is_inline,
        }
    }

    pub fn to_model(self) -> (r: DraftAttachment)
        ensures
            r == draft_from_proto(self),
    {
        DraftAttachment {
            filename: self.filename,
            content_type: self.content_type,
            data: self.data,
            content_id: self.content_id,
            is_inline: self.is_inline,
        }
    }
}

fn drafts_to_proto(v: Vec<DraftAttachment>) -> (r: Vec<DraftAttachmentProto>)
    ensures
        r@ == v@.map_values(|d: DraftAttachment| draft_to_proto(d)),
{
    broadcast use vstd::std_specs::vec::axiom_spec_into_iter;
    let ghost elts = v@;
    let mut r: Vec<DraftAttachmentProto> = Vec::new();
    for d in it: v.into_iter()
        invariant
            it.seq() == elts,
            r@ == elts.take(it.index() as int).map_values(|d: DraftAttachment| draft_to_proto(d)),
    {
        proof {
            assert(elts.take(it.index() + 1) == elts.take(it.index() as int).push(d));
        }
        r.push(DraftAttachmentProto::from_model(d));
    }
    proof {
        assert(elts.take(elts.len() as int) == elts);
    }
    r
}

fn drafts_from_proto(v: Vec<DraftAttachmentProto>) -> (r: Vec<DraftAttachment>)
    ensures
        r@ == v@.map_values(|p: DraftAttachmentProto| draft_from_proto(p)),
{
    broadcast use vstd::std_specs::vec::axiom_spec_into_iter;
    let ghost elts = v@;
    let mut r: Vec<DraftAttachment> = Vec::new();
    for p in it: v.into_iter()
        invariant
            it.seq() == elts,
            r@ == elts.take(it.index() as int).map_values(
                |p: DraftAttachmentProto| draft_from_proto(p),
            ),
    {
        proof {
            assert(elts.take(it.index() + 1) == elts.take(it.index() as int).push(p));
        }
        r.push(p.to_model());
    }
    proof {
        assert(elts.take(elts.len() as int) == elts);
    }
    r
}

/// The record of a stored mailbox.
#[derive(Debug, Clone)]
pub struct FolderProto {
    pub id: String,
    pub account_id: String,
    pub remote_name: String,
    pub display_name: String,
    pub delimiter: Option<String>,
    pub role: FolderRoleProto,
    pub uid_validity: Option<u32>,
    pub uid_next: Option<u32>,
    pub total_count: u32,
    pub unread_count: u32,
}

/// `p` is the record written for mailbox `f`.
pub open spec fn folder_written_as(f: Folder, p: FolderProto) -> bool {
    &&& p.id@ == uuid_text(f.id.0)
    &&& uuid_parse(p.id@) == uuid_ok(f.id.0)
    &&& p.account_id@ == uuid_text(f.account_id.0)
    &&& uuid_parse(p.account_id@) == uuid_ok(f.account_id.0)
    &&& p.remote_name == f.remote_name
    &&& p.display_name == f.display_name
    &&& p.delimiter == f.delimiter
    &&& p.role == role_to_proto(f.role)
    &&& p.uid_validity == f.uid_validity
    &&& p.uid_next == f.uid_next
    &&& p.total_count == f.total_count
    &&& p.unread_count == f.unread_count
}

/// `f` is the mailbox read from record `p`.
pub open spec fn folder_read_from(p: FolderProto, f: Folder) -> bool {
    &&& uuid_parse(p.id@) == uuid_ok(f.id.0)
    &&& uuid_parse(p.account_id@) == uuid_ok(f.account_id.0)
    &&& f.remote_name == p.remote_name
    &&& f.display_name == p.display_name
    &&& f.delimiter == p.delimiter
    &&& f.role == role_from_proto(p.role)
    &&& f.uid_validity == p.uid_validity
    &&& f.uid_next == p.uid_next
    &&& f.total_count == p.total_count
    &&& f.unread_count == p.unread_count
}

/// The first problem found in a mailbox record: its identifier, then its account's.
pub open spec fn folder_from_proto_error(p: FolderProto) -> Option<Seq<char>> {
    match uuid_parse(p.id@) {
        Err(e) => Some("Invalid Folder ID: "@ + e),
        Ok(_) => match uuid_parse(p.account_id@) {
            Err(e) => Some("Invalid Account ID: "@ + e),
            Ok(_) => None,
        },
    }
}

impl FolderProto {
    pub fn from_model(f: Folder) -> (r: Self)
        ensures
            folder_written_as(f, r),
    {
        FolderProto {
            id: f.id.to_text(),
            account_id: f.account_id.to_text(),
            remote_name: f.remote_name,
            display_name: f.display_name,
            delimiter: f.delimiter,
            role: FolderRoleProto::from_model(f.role),
            uid_validity: f.uid_validity,
            uid_next: f.uid_next,
            total_count: f.total_count,
            unread_count: f.unread_count,
        }
    }
}

impl Folder {
    /// Reads a mailbox record.
    pub fn from_proto(p: FolderProto) -> (r: Result<Folder, String>)
        ensures
            match folder_from_proto_error(p) {
                Some(e) => (r matches Err(m) && m@ == e),
                None => (r matches Ok(f) && folder_read_from(p, f)),
            },
    {
        let id = match crate::ids::uuid_from_str(p.id.as_str()) {
            Ok(u) => FolderId::from_uuid(u),
            Err(e) => {
                return Err(error_text("Invalid Folder ID: ", e));
            },
        };
        let account_id = match crate::ids::uuid_from_str(p.account_id.as_str()) {
            Ok(u) => AccountId::from_uuid(u),
            Err(e) => {
                return Err(error_text("Invalid Account ID: ", e));
            },
        };
        Ok(
            Folder {
                id,
                account_id,
                remote_name: p.remote_name,
                display_name: p.display_name,
                delimiter: p.delimiter,
                role: p.role.to_model(),
                uid_validity: p.uid_validity,
                uid_next: p.uid_next,
                total_count: p.total_count,
                unread_count: p.unread_count,
            },
        )
    }
}

/// Reading the record written for a mailbox succeeds and gives back that mailbox.
pub proof fn lemma_folder_roundtrip(f: Folder, p: FolderProto, g: Folder)
    requires
        folder_written_as(f, p),
    ensures
        folder_from_proto_error(p) is None,
        folder_read_from(p, g) ==> g == f,
{
    lemma_role_roundtrip(f.role, p.role);
    if folder_read_from(p, g) {
        assert(g.id == f.id);
        assert(g.account_id == f.account_id);
    }
}

/// The record of an outgoing message.
#[derive(Debug, Clone)]
pub struct OutboxMessageProto {
    pub id: String,
    pub account_id: String,
    pub from: Option<EmailAddressProto>,
    pub to: Vec<EmailAddressProto>,
    pub cc: Vec<EmailAddressProto>,
    pub bcc: Vec<EmailAddressProto>,
    pub subject: String,
    pub body_text: Option<String>,
    pub body_html: Option<String>,
    pub in_reply_to: Option<String>,
    pub references: Option<String>,
    pub attachments: Vec<DraftAttachmentProto>,
    pub status: OutboxStatusProto,
    pub retry_count: u32,
    pub last_error: Option<String>,
    pub created_at: String,
    pub updated_at: String,
    pub sent_at: Option<String>,
}

/// `s` is the RFC 3339 text of instant `t`, which reads back to `t` when `t` is plain.
pub open spec fn time_written_as(t: Timestamp, s: Seq<char>) -> bool {
    &&& s == rfc3339_text(t.secs, t.nanos)
    &&& (t.plain() ==> rfc3339_parse(s) == instant_ok(t.secs, t.nanos))
}

/// `s` is the text of the optional instant `t`.
pub open spec fn opt_time_written_as(t: Option<Timestamp>, s: Option<String>) -> bool {
    match t {
        Some(t) => (s matches Some(x) && time_written_as(t, x@)),
        None => s is None,
    }
}

/// `t` is the instant read from text `s`.
pub open spec fn time_read_from(s: Seq<char>, t: Timestamp) -> bool {
    rfc3339_parse(s) == instant_ok(t.secs, t.nanos) && t.valid()
}

pub open spec fn opt_time_read_from(s: Option<String>, t: Option<Timestamp>) -> bool {
    match s {
        Some(x) => (t matches Some(t) && time_read_from(x@, t)),
        None => t is None,
    }
}

/// `p` is the record written for outgoing message `m`.
pub open spec fn outbox_written_as(m: OutboxMessage, p: OutboxMessageProto) -> bool {
    &&& p.id@ == uuid_text(m.id.0)
    &&& uuid_parse(p.id@) == uuid_ok(m.id.0)
    &&& p.account_id@ == uuid_text(m.account_id.0)
    &&& uuid_parse(p.account_id@) == uuid_ok(m.account_id.0)
    &&& p.from == Some(address_to_proto(m.from))
    &&& p.to@ == m.to@.map_values(|e: EmailAddress| address_to_proto(e))
    &&& p.cc@ == m.cc@.map_values(|e: EmailAddress| address_to_proto(e))
    &&& p.bcc@ == m.bcc@.map_values(|e: EmailAddress| address_to_proto(e))
    &&& p.subject == m.subject
    &&& p.body_text == m.body_text
    &&& p.body_html == m.body_html
    &&& p.in_reply_to == m.in_reply_to
    &&& p.references == m.references
    &&& p.attachments@ == m.attachments@.map_values(|d: DraftAttachment| draft_to_proto(d))
    &&& p.status == status_to_proto(m.status)
    &&& p.retry_count == m.retry_count
    &&& p.last_error == m.last_error
    &&& time_written_as(m.created_at, p.created_at@)
    &&& time_written_as(m.updated_at, p.updated_at@)
    &&& opt_time_written_as(m.sent_at, p.sent_at)
}

/// `m` is the outgoing message read from record `p`.
pub open spec fn outbox_read_from(p: OutboxMessageProto, m: OutboxMessage) -> bool {
    &&& uuid_parse(p.id@) == uuid_ok(m.id.0)
    &&& uuid_parse(p.account_id@) == uuid_ok(m.account_id.0)
    &&& p.from is Some && m.from == address_from_proto(p.from.unwrap())
    &&& m.to@ == p.to@.map_values(|e: EmailAddressProto| address_from_proto(e))
    &&& m.cc@ == p.cc@.map_values(|e: EmailAddressProto| address_from_proto(e))
    &&& m.bcc@ == p.bcc@.map_values(|e: EmailAddressProto| address_from_proto(e))
    &&& m.subject == p.subject
    &&& m.body_text == p.body_text
    &&& m.body_html == p.body_html
    &&& m.in_reply_to == p.in_reply_to
    &&& m.references == p.references
    &&& m.attachments@ == p.attachments@.map_values(|d: DraftAttachmentProto| draft_from_proto(d))
    &&& m.status == status_from_proto(p.status)
    &&& m.retry_count == p.retry_count
    &&& m.last_error == p.last_error
    &&& time_read_from(p.created_at@, m.created_at)
    &&& time_read_from(p.updated_at@, m.updated_at)
    &&& opt_time_read_from(p.sent_at, m.sent_at)
}

/// The first problem found in the record of an outgoing message, in the order
/// identifier, account, sender, creation time, update time, sending time.
pub open spec fn outbox_from_proto_error(p: OutboxMessageProto) -> Option<Seq<char>> {
    if uuid_parse(p.id@) is Err {
        Some("Invalid Outbox ID: "@ + uuid_parse(p.id@)->Err_0)
    } else if uuid_parse(p.account_id@) is Err {
        Some("Invalid Account ID: "@ + uuid_parse(p.account_id@)->Err_0)
    } else if p.from is None {
        Some("Missing from address"@)
    } else if rfc3339_parse(p.created_at@) is Err {
        Some("Invalid created_at: "@ + rfc3339_parse(p.created_at@)->Err_0)
    } else if rfc3339_parse(p.updated_at@) is Err {
        Some("Invalid updated_at: "@ + rfc3339_parse(p.updated_at@)->Err_0)
    } else if p.sent_at is Some && rfc3339_parse(p.sent_at.unwrap()@) is Err {
        Some("Invalid sent_at: "@ + rfc3339_parse(p.sent_at.unwrap()@)->Err_0)
    } else {
        None
    }
}

fn time_text(t: &Timestamp) -> (r: String)
    requires
        t.valid(),
    ensures
        time_written_as(*t, r@),
{
    t.to_rfc3339()
}

impl OutboxMessageProto {
    pub fn from_model(m: OutboxMessage) -> (r: Self)
        requires
            m.wf(),
        ensures
            outbox_written_as(m, r),
    {
        let id = m.id.to_text();
        let account_id = m.account_id.to_text();
        let created_at = time_text(&m.created_at);
        let updated_at = time_text(&m.updated_at);
        let sent_at = match &m.sent_at {
            Some(t) => Some(time_text(t)),
            None => None,
        };
        OutboxMessageProto {
            id,
            account_id,
            from: Some(EmailAddressProto::from_model(m.from)),
            to: addresses_to_proto(m.to),
            cc: addresses_to_proto(m.cc),
            bcc: addresses_to_proto(m.bcc),
            subject: m.subject,
            body_text: m.body_text,
            body_html: m.body_html,
            in_reply_to: m.in_reply_to,
            references: m.references,
            attachments: drafts_to_proto(m.attachments),
            status: OutboxStatusProto::from_model(m.status),
            retry_count: m.retry_count,
            last_error: m.last_error,
            created_at,
            updated_at,
            sent_at,
        }
    }
}

impl OutboxMessage {
    /// Reads the record of an outgoing message.
    pub fn from_proto(p: OutboxMessageProto) -> (r: Result<OutboxMessage, String>)
        ensures
            match outbox_from_proto_error(p) {
                Some(e) => (r matches Err(m) && m@ == e),
                None => (r matches Ok(m) && outbox_read_from(p, m) && m.wf()),
            },
    {
        let id = match crate::ids::uuid_from_str(p.id.as_str()) {
            Ok(u) => OutboxId::from_uuid(u),
            Err(e) => {
                return Err(error_text("Invalid Outbox ID: ", e));
            },
        };
        let account_id = match crate::ids::uuid_from_str(p.account_id.as_str()) {
            Ok(u) => AccountId::from_uuid(u),
            Err(e) => {
                return Err(error_text("Invalid Account ID: ", e));
            },
        };
        let from = match p.from {
            Some(a) => a.to_model(),
            None => {
                return Err("Missing from address".to_owned());
            },
        };
        let to = addresses_from_proto(p.to);
        let cc = addresses_from_proto(p.cc);
        let bcc = addresses_from_proto(p.bcc);
        let attachments = drafts_from_proto(p.attachments);
        let created_at = match Timestamp::parse_rfc3339(p.created_at.as_str()) {
            Ok(t) => t,
            Err(e) => {
                return Err(error_text("Invalid created_at: ", e));
            },
        };
        let updated_at = match Timestamp::parse_rfc3339(p.updated_at.as_str()) {
            Ok(t) => t,
            Err(e) => {
                return Err(error_text("Invalid updated_at: ", e));
            },
        };
        let sent_at = match &p.sent_at {
            Some(s) => match Timestamp::parse_rfc3339(s.as_str()) {
                Ok(t) => Some(t),
                Err(e) => {
                    return Err(error_text("Invalid sent_at: ", e));
                },
            },
            None => None,
        };
        Ok(
            OutboxMessage {
                id,
                account_id,
                from,
                to,
                cc,
                bcc,
                subject: p.subject,
                body_text: p.body_text,
                body_html: p.body_html,
                in_reply_to: p.in_reply_to,
                references: p.references,
                attachments,
                status: p.status.to_model(),
                retry_count: p.retry_count,
                last_error: p.last_error,
                created_at,
                updated_at,
                sent_at,
            },
        )
    }
}

/// Two outgoing messages agree in every field, lists by their contents.
pub open spec fn same_outbox(n: OutboxMessage, m: OutboxMessage) -> bool {
    &&& n.id == m.id
    &&& n.account_id == m.account_id
    &&& n.from == m.from
    &&& n.to@ == m.to@
    &&& n.cc@ == m.cc@
    &&& n.bcc@ == m.bcc@
    &&& n.subject == m.subject
    &&& n.body_text == m.body_text
    &&& n.body_html == m.body_html
    &&& n.in_reply_to == m.in_reply_to
    &&& n.references == m.references
    &&& n.attachments@ == m.attachments@
    &&& n.status == m.status
    &&& n.retry_count == m.retry_count
    &&& n.last_error == m.last_error
    &&& n.created_at == m.created_at
    &&& n.updated_at == m.updated_at
    &&& n.sent_at == m.sent_at
}

/// Reading the record written for an outgoing message whose times have four-digit
/// years and are no leap seconds succeeds, and gives back that very message.
pub proof fn lemma_outbox_roundtrip(m: OutboxMessage, p: OutboxMessageProto, n: OutboxMessage)
    requires
        m.wf(),
        m.created_at.plain(),
        m.updated_at.plain(),
        m.sent_at matches Some(t) ==> t.plain(),
        outbox_written_as(m, p),
    ensures
        outbox_from_proto_error(p) is None,
        outbox_read_from(p, n) ==> same_outbox(n, m),
{
    lemma_status_roundtrip(m.status, p.status);
    assert(m.to@.map_values(|e: EmailAddress| address_to_proto(e)).map_values(
        |e: EmailAddressProto| address_from_proto(e),
    ) == m.to@);
    assert(m.cc@.map_values(|e: EmailAddress| address_to_proto(e)).map_values(
        |e: EmailAddressProto| address_from_proto(e),
    ) == m.cc@);
    assert(m.bcc@.map_values(|e: EmailAddress| address_to_proto(e)).map_values(
        |e: EmailAddressProto| address_from_proto(e),
    ) == m.bcc@);
    assert(m.attachments@.map_values(|d: DraftAttachment| draft_to_proto(d)).map_values(
        |d: DraftAttachmentProto| draft_from_proto(d),
    ) == m.attachments@);
    if outbox_read_from(p, n) {
        assert(n.id == m.id);
        assert(n.account_id == m.account_id);
        assert(n.to@ == m.to@);
        assert(n.cc@ == m.cc@);
        assert(n.bcc@ == m.bcc@);
        assert(n.attachments@ == m.attachments@);
        assert(n.created_at == m.created_at);
        assert(n.updated_at == m.updated_at);
        assert(n.sent_at == m.sent_at);
    }
}

/// The record of a stored attachment's metadata.
#[derive(Debug, Clone)]
pub struct AttachmentMetadataProto {
    pub id: String,
    pub message_id: String,
    pub filename: String,
    pub content_type: String,
    pub size: u64,
    pub blob_hash: String,
    pub content_id: Option<String>,
    pub is_inline: bool,
}

pub open spec fn metadata_written_as(a: AttachmentMetadata, p: AttachmentMetadataProto) -> bool {
    &&& p.id@ == uuid_text(a.id.0)
    &&& p.message_id@ == uuid_text(a.message_id.0)
    &&& p.filename == a.filename
    &&& p.content_type == a.content_type
    &&& p.size == a.size
    &&& p.blob_hash == a.blob_hash
    &&& p.content_id == a.content_id
    &&& p.is_inline == a.is_inline
}

impl AttachmentMetadataProto {
    pub fn from_model(a: AttachmentMetadata) -> (r: Self)
        ensures
            metadata_written_as(a, r),
    {
        AttachmentMetadataProto {
            id: a.id.to_text(),
            message_id: a.message_id.to_text(),
            filename: a.filename,
            content_type: a.content_type,
            size: a.size,
            blob_hash: a.blob_hash,
            content_id: a.content_id,
            is_inline: a.is_inline,
        }
    }
}

/// The record of the list fields of a stored message.
#[derive(Debug, Clone)]
pub struct MessageSummaryProto {
    pub id: String,
    pub account_id: String,
    pub folder_id: String,
    pub uid: Option<u32>,
    pub message_id_header: Option<String>,
    pub thread_id: Option<String>,
    pub subject: String,
    pub sender: Option<EmailAddressProto>,
    pub recipients: Vec<EmailAddressProto>,
    pub date: Option<String>,
    pub flags: Option<MessageFlagsProto>,
    pub snippet: String,
    pub size: u64,
    pub has_attachments: bool,
}

/// The record of a message header's addressing part.
#[derive(Debug, Clone)]
pub struct EnvelopeProto {
    pub message_id_header: Option<String>,
    pub subject: String,
    pub from: Vec<EmailAddressProto>,
    pub to: Vec<EmailAddressProto>,
    pub cc: Vec<EmailAddressProto>,
    pub bcc: Vec<EmailAddressProto>,
    pub reply_to: Vec<EmailAddressProto>,
    pub in_reply_to: Option<String>,
    pub date: Option<String>,
}

/// The record of a stored message with its bodies and attachments.
#[derive(Debug, Clone)]
pub struct MessageDetailProto {
    pub summary: Option<MessageSummaryProto>,
    pub envelope: Option<EnvelopeProto>,
    pub body_text: Option<String>,
    pub body_html: Option<String>,
    pub raw_blob_hash: Option<String>,
    pub attachments: Vec<AttachmentMetadataProto>,
}

pub open spec fn opt_time_valid(t: Option<Timestamp>) -> bool {
    t matches Some(t) ==> t.valid()
}

pub open spec fn flags_to_proto(f: MessageFlags) -> MessageFlagsProto {
    MessageFlagsProto {
        seen: f.seen,
        flagged: f.flagged,
        answered: f.answered,
        draft: f.draft,
        deleted: f.deleted,
    }
}

pub open spec fn opt_address_to_proto(e: Option<EmailAddress>) -> Option<EmailAddressProto> {
    match e {
        Some(e) => Some(address_to_proto(e)),
        None => None,
    }
}

pub open spec fn summary_written_as(m: MessageSummary, p: MessageSummaryProto) -> bool {
    &&& p.id@ == uuid_text(m.id.0)
    &&& p.account_id@ == uuid_text(m.account_id.0)
    &&& p.folder_id@ == uuid_text(m.folder_id.0)
    &&& p.uid == m.uid
    &&& p.message_id_header == m.message_id_header
    &&& p.thread_id == m.thread_id
    &&& p.subject == m.subject
    &&& p.sender == opt_address_to_proto(m.sender)
    &&& p.recipients@ == m.recipients@.map_values(|e: EmailAddress| address_to_proto(e))
    &&& opt_time_written_as(m.date, p.date)
    &&& p.flags == Some(flags_to_proto(m.flags))
    &&& p.snippet == m.snippet
    &&& p.size == m.size
    &&& p.has_attachments == m.has_attachments
}

pub open spec fn envelope_written_as(e: Envelope, p: EnvelopeProto) -> bool {
    &&& p.message_id_header == e.message_id_header
    &&& p.subject == e.subject
    &&& p.from@ == e.from@.map_values(|a: EmailAddress| address_to_proto(a))
    &&& p.to@ == e.to@.map_values(|a: EmailAddress| address_to_proto(a))
    &&& p.cc@ == e.cc@.map_values(|a: EmailAddress| address_to_proto(a))
    &&& p.bcc@ == e.bcc@.map_values(|a: EmailAddress| address_to_proto(a))
    &&& p.reply_to@ == e.reply_to@.map_values(|a: EmailAddress| address_to_proto(a))
    &&& p.in_reply_to == e.in_reply_to
    &&& opt_time_written_as(e.date, p.date)
}

fn opt_time_text(t: &Option<Timestamp>) -> (r: Option<String>)
    requires
        opt_time_valid(*t),
    ensures
        opt_time_written_as(*t, r),
{
    match t {
        Some(t) => Some(time_text(t)),
        None => None,
    }
}

impl MessageSummaryProto {
    pub fn from_model(m: MessageSummary) -> (r: Self)
        requires
            opt_time_valid(m.date),
        ensures
            summary_written_as(m, r),
    {
        let date = opt_time_text(&m.date);
        MessageSummaryProto {
            id: m.id.to_text(),
            account_id: m.account_id.to_text(),
            folder_id: m.folder_id.to_text(),
            uid: m.uid,
            message_id_header: m.message_id_header,
            thread_id: m.thread_id,
            subject: m.subject,
            sender: match m.sender {
                Some(e) => Some(EmailAddressProto::from_model(e)),
                None => None,
            },
            recipients: addresses_to_proto(m.recipients),
            date,
            flags: Some(MessageFlagsProto::from_model(m.flags)),
            snippet: m.snippet,
            size: m.size,
            has_attachments: m.has_attachments,
        }
    }
}

impl EnvelopeProto {
    pub fn from_model(e: Envelope) -> (r: Self)
        requires
            opt_time_valid(e.date),
        ensures
            envelope_written_as(e, r),
    {
        let date = opt_time_text(&e.date);
        EnvelopeProto {
            message_id_header: e.message_id_header,
            subject: e.subject,
            from: addresses_to_proto(e.from),
            to: addresses_to_proto(e.to),
            cc: addresses_to_proto(e.cc),
            bcc: addresses_to_proto(e.bcc),
            reply_to: addresses_to_proto(e.reply_to),
            in_reply_to: e.in_reply_to,
            date,
        }
    }
}

impl MessageDetailProto {
    pub fn from_model(m: MessageDetail) -> (r: Self)
        requires
            opt_time_valid(m.summary.date),
            opt_time_valid(m.envelope.date),
        ensures
            r.summary matches Some(s) && summary_written_as(m.summary, s),
            r.envelope matches Some(e) && envelope_written_as(m.envelope, e),
            r.body_text == m.body_text,
            r.body_html == m.body_html,
            r.raw_blob_hash == m.raw_blob_hash,
            r.attachments@.len() == m.attachments@.len(),
            forall|i: int|
                0 <= i < m.attachments@.len() ==> metadata_written_as(
                    #[trigger] m.attachments@[i],
                    r.attachments@[i],
                ),
    {
        broadcast use vstd::std_specs::vec::axiom_spec_into_iter;
        let ghost elts = m.attachments@;
        let mut attachments: Vec<AttachmentMetadataProto> = Vec::new();
        for a in it: m.attachments.into_iter()
            invariant
                it.seq() == elts,
                attachments@.len() == it.index(),
                forall|i: int|
                    0 <= i < it.index() ==> metadata_written_as(
                        #[trigger] elts[i],
                        attachments@[i],
                    ),
        {
            attachments.push(AttachmentMetadataProto::from_model(a));
        }
        MessageDetailProto {
            summary: Some(MessageSummaryProto::from_model(m.summary)),
            envelope: Some(EnvelopeProto::from_model(m.envelope)),
            body_text: m.body_text,
            body_html: m.body_html,
            raw_blob_hash: m.raw_blob_hash,
            attachments,
        }
    }
}

/// A folder's message counts changed.
#[derive(Debug, Clone, PartialEq, Eq)]
pub struct FolderUpdatedEvent {
    pub account_id: String,
    pub folder_id: String,
    pub total_count: u32,
    pub unread_count: u32,
}

/// New messages were stored for a folder.
#[derive(Debug, Clone, PartialEq, Eq)]
pub struct NewMessagesSyncedEvent {
    pub account_id: String,
    pub folder_id: String,
    pub count: u32,
}

/// A message's flags changed.
#[derive(Debug, Clone, PartialEq, Eq)]
pub struct FlagsChangedEvent {
    pub folder_id: String,
    pub message_id: String,
    pub flags: Option<MessageFlagsProto>,
}

/// An outgoing message changed status.
#[derive(Debug, Clone, PartialEq, Eq)]
pub struct OutboxStatusChangedEvent {
    pub account_id: String,
    pub outbox_id: String,
    pub status: OutboxStatusProto,
}

/// A step of a synchronisation, for display.
#[derive(Debug, Clone, PartialEq, Eq)]
pub struct SyncProgressEvent {
    pub account_id: String,
    pub message: String,
}

/// What happened, in an event the service broadcasts.
#[derive(Debug, Clone, PartialEq, Eq)]
pub enum DaemonEvent {
    FolderUpdated(FolderUpdatedEvent),
    NewMessages(NewMessagesSyncedEvent),
    FlagsChanged(FlagsChangedEvent),
    OutboxStatus(OutboxStatusChangedEvent),
    SyncProgress(SyncProgressEvent),
}

/// An event the service broadcasts to its subscribers.
#[derive(Debug, Clone, PartialEq, Eq)]
pub struct DaemonEventProto {
    pub event_id: String,
    pub timestamp: String,
    pub event: Option<DaemonEvent>,
}

} // verus!
