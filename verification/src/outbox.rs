//! Outgoing messages: drafts and the send queue.

use vstd::prelude::*;

use crate::ids::{AccountId, OutboxId, Timestamp};
use crate::message::EmailAddress;
use crate::text::{chars_eq_str, chars_of, lower_chars, lower_seq};

verus! {

/// Where an outgoing message stands in the send queue.
#[derive(Debug, Clone, Copy, PartialEq, Eq, Structural)]
pub enum OutboxStatus {
    Draft,
    Queued,
    Sending,
    Sent,
    Failed,
}

/// The stored name of a status.
pub open spec fn status_keyword(s: OutboxStatus) -> Seq<char> {
    match s {
        OutboxStatus::Draft => "draft"@,
        OutboxStatus::Queued => "queued"@,
        OutboxStatus::Sending => "sending"@,
        OutboxStatus::Sent => "sent"@,
        OutboxStatus::Failed => "failed"@,
    }
}

/// The status a (lower-cased) name denotes; any other name is a draft.
pub open spec fn status_of_lower_keyword(l: Seq<char>) -> OutboxStatus {
    if l == "queued"@ {
        OutboxStatus::Queued
    } else if l == "sending"@ {
        OutboxStatus::Sending
    } else if l == "sent"@ {
        OutboxStatus::Sent
    } else if l == "failed"@ {
        OutboxStatus::Failed
    } else {
        OutboxStatus::Draft
    }
}

impl OutboxStatus {
    /// The stored name of the status.
    pub fn as_str(&self) -> (r: &'static str)
        ensures
            r@ == status_keyword(*self),
    {
        match self {
            OutboxStatus::Draft => "draft",
            OutboxStatus::Queued => "queued",
            OutboxStatus::Sending => "sending",
            OutboxStatus::Sent => "sent",
            OutboxStatus::Failed => "failed",
        }
    }

    /// Reads a stored status name, ignoring ASCII case.
    pub fn parse_keyword(s: &str) -> (r: Self)
        ensures
            r == status_of_lower_keyword(lower_seq(s@)),
    {
        let chars = chars_of(s);
        let l = lower_chars(chars.as_slice());
        let l = l.as_slice();
        if chars_eq_str(l, "queued") {
            OutboxStatus::Queued
        } else if chars_eq_str(l, "sending") {
            OutboxStatus::Sending
        } else if chars_eq_str(l, "sent") {
            OutboxStatus::Sent
        } else if chars_eq_str(l, "failed") {
            OutboxStatus::Failed
        } else {
            OutboxStatus::Draft
        }
    }
}

/// Reading the stored name of a status gives back the status.
pub proof fn lemma_status_keyword_roundtrip(s: OutboxStatus)
    ensures
        status_of_lower_keyword(lower_seq(status_keyword(s))) == s,
{
    reveal_strlit("draft");
    reveal_strlit("queued");
    reveal_strlit("sending");
    reveal_strlit("sent");
    reveal_strlit("failed");
    let k = status_keyword(s);
    assert(lower_seq(k) =~= k);
    assert("draft"@[0] == 'd' && "queued"@[0] == 'q' && "sending"@[0] == 's' && "sent"@[0] == 's');
    assert("failed"@[0] == 'f' && "sending"@.len() == 7 && "sent"@.len() == 4);
}

/// A file attached to an outgoing message.
#[derive(Debug, Clone, PartialEq, Eq)]
pub struct DraftAttachment {
    pub filename: String,
    pub content_type: String,
    pub data: Vec<u8>,
    pub content_id: Option<String>,
    pub is_inline: bool,
}

impl DraftAttachment {
    /// A regular (not inline) attachment without a content id.
    pub fn new(filename: &str, content_type: &str, data: Vec<u8>) -> (r: Self)
        ensures
            r.filename@ == filename@,
            r.content_type@ == content_type@,
            r.data@ == data@,
            r.content_id is None,
            !r.is_inline,
    {
        DraftAttachment {
            filename: filename.to_owned(),
            content_type: content_type.to_owned(),
            data,
            content_id: None,
            is_inline: false,
        }
    }
}

/// A message being written or waiting to be sent.
#[derive(Debug, Clone, PartialEq, Eq)]
pub struct OutboxMessage {
    pub id: OutboxId,
    pub account_id: AccountId,
    pub from: EmailAddress,
    pub to: Vec<EmailAddress>,
    pub cc: Vec<EmailAddress>,
    pub bcc: Vec<EmailAddress>,
    pub subject: String,
    pub body_text: Option<String>,
    pub body_html: Option<String>,
    pub in_reply_to: Option<String>,
    pub references: Option<String>,
    pub attachments: Vec<DraftAttachment>,
    pub status: OutboxStatus,
    pub retry_count: u32,
    pub last_error: Option<String>,
    pub created_at: Timestamp,
    pub updated_at: Timestamp,
    pub sent_at: Option<Timestamp>,
}

impl OutboxMessage {
    /// All timestamps denote instants.
    pub open spec fn wf(&self) -> bool {
        &&& self.created_at.valid()
        &&& self.updated_at.valid()
        &&& (self.sent_at matches Some(t) ==> t.valid())
    }

    /// A new draft with a fresh identifier, no copies, body or attachments.
    pub fn new_draft(
        account_id: AccountId,
        from: EmailAddress,
        to: Vec<EmailAddress>,
        subject: &str,
    ) -> (r: Self)
        ensures
            r.wf(),
            r.account_id == account_id,
            r.from == from,
            r.to == to,
            r.cc@.len() == 0,
            r.bcc@.len() == 0,
            r.subject@ == subject@,
            r.body_text is None,
            r.body_html is None,
            r.in_reply_to is None,
            r.references is None,
            r.attachments@.len() == 0,
            r.status == OutboxStatus::Draft,
            r.retry_count == 0,
            r.last_error is None,
            r.created_at == r.updated_at,
            r.sent_at is None,
    {
        let now = Timestamp::now();
        OutboxMessage {
            id: OutboxId::new(),
            account_id,
            from,
            to,
            cc: Vec::new(),
            bcc: Vec::new(),
            subject: subject.to_owned(),
            body_text: None,
            body_html: None,
            in_reply_to: None,
            references: None,
            attachments: Vec::new(),
            status: OutboxStatus::Draft,
            retry_count: 0,
            last_error: None,
            created_at: now,
            updated_at: now,
            sent_at: None,
        }
    }

    /// Puts the message in the send queue and records the time of the change.
    pub fn queue(&mut self)
        requires
            old(self).wf(),
        ensures
            final(self).wf(),
            final(self).status == OutboxStatus::Queued,
            *final(self) == (OutboxMessage {
                status: OutboxStatus::Queued,
                updated_at: final(self).updated_at,
                ..*old(self)
            }),
    {
        self.status = OutboxStatus::Queued;
        self.updated_at = Timestamp::now();
    }
}

} // verus!
