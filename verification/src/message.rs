//! Messages: flags, e-mail addresses, envelopes and stored summaries.

use vstd::prelude::*;

use crate::attachment::AttachmentMetadata;
use crate::ids::{AccountId, FolderId, MessageId, Timestamp};
use crate::text::push_str;

verus! {

/// The five IMAP system flags a message can carry.
#[derive(Debug, Clone, Copy, PartialEq, Eq, Structural)]
pub struct MessageFlags {
    pub seen: bool,
    pub flagged: bool,
    pub answered: bool,
    pub draft: bool,
    pub deleted: bool,
}

pub open spec fn bit_if(b: bool, bit: u32) -> u32 {
    if b {
        bit
    } else {
        0
    }
}

/// The bitmask that represents a set of flags.
pub open spec fn flags_bits(f: MessageFlags) -> u32 {
    bit_if(f.seen, 1) | bit_if(f.flagged, 2) | bit_if(f.answered, 4) | bit_if(f.draft, 8) | bit_if(
        f.deleted,
        16,
    )
}

/// The flags that a bitmask encodes.
pub open spec fn flags_of_bits(bits: u32) -> MessageFlags {
    MessageFlags {
        seen: bits & 1 != 0,
        flagged: bits & 2 != 0,
        answered: bits & 4 != 0,
        draft: bits & 8 != 0,
        deleted: bits & 16 != 0,
    }
}

pub open spec fn no_flags() -> MessageFlags {
    MessageFlags { seen: false, flagged: false, answered: false, draft: false, deleted: false }
}

impl Default for MessageFlags {
    fn default() -> (r: Self)
        ensures
            r == no_flags(),
    {
        MessageFlags { seen: false, flagged: false, answered: false, draft: false, deleted: false }
    }
}

impl MessageFlags {
    pub const SEEN_BIT: u32 = 1;
    pub const FLAGGED_BIT: u32 = 2;
    pub const ANSWERED_BIT: u32 = 4;
    pub const DRAFT_BIT: u32 = 8;
    pub const DELETED_BIT: u32 = 16;

    pub fn to_bits(&self) -> (bits: u32)
        ensures
            bits == flags_bits(*self),
    {
        let seen: u32 = if self.seen { Self::SEEN_BIT } else { 0 };
        let flagged: u32 = if self.flagged { Self::FLAGGED_BIT } else { 0 };
        let answered: u32 = if self.answered { Self::ANSWERED_BIT } else { 0 };
        let draft: u32 = if self.draft { Self::DRAFT_BIT } else { 0 };
        let deleted: u32 = if self.deleted { Self::DELETED_BIT } else { 0 };
        let bits: u32 = seen | flagged | answered | draft | deleted;
        bits
    }

    pub fn from_bits(bits: u32) -> (f: Self)
        ensures
            f == flags_of_bits(bits),
    {
        MessageFlags {
            seen: (bits & Self::SEEN_BIT) != 0,
            flagged: (bits & Self::FLAGGED_BIT) != 0,
            answered: (bits & Self::ANSWERED_BIT) != 0,
            draft: (bits & Self::DRAFT_BIT) != 0,
            deleted: (bits & Self::DELETED_BIT) != 0,
        }
    }
}

/// Decoding the bitmask of a set of flags gives back the same flags.
pub proof fn lemma_flags_bits_roundtrip(f: MessageFlags)
    ensures
        flags_of_bits(flags_bits(f)) == f,
{
    let (a, b, c, d, e) = (f.seen, f.flagged, f.answered, f.draft, f.deleted);
    let x = flags_bits(f);
    assert(x == bit_if(a, 1) | bit_if(b, 2) | bit_if(c, 4) | bit_if(d, 8) | bit_if(e, 16));
    assert((x & 1 != 0) == a && (x & 2 != 0) == b && (x & 4 != 0) == c && (x & 8 != 0) == d && (x
        & 16 != 0) == e) by (bit_vector)
        requires
            x == bit_if(a, 1) | bit_if(b, 2) | bit_if(c, 4) | bit_if(d, 8) | bit_if(e, 16),
    ;
}

/// Encoding the flags decoded from a bitmask keeps exactly the five flag bits of it.
pub proof fn lemma_bits_flags_roundtrip(bits: u32)
    ensures
        flags_bits(flags_of_bits(bits)) == bits & 31,
{
    let f = flags_of_bits(bits);
    assert(bit_if(bits & 1 != 0, 1) | bit_if(bits & 2 != 0, 2) | bit_if(bits & 4 != 0, 4) | bit_if(
        bits & 8 != 0,
        8,
    ) | bit_if(bits & 16 != 0, 16) == bits & 31) by (bit_vector);
}

/// An e-mail address with an optional display name.
#[derive(Debug, Clone, PartialEq, Eq)]
pub struct EmailAddress {
    pub name: Option<String>,
    pub address: String,
}

pub struct EmailAddressView {
    pub name: Option<Seq<char>>,
    pub address: Seq<char>,
}

impl View for EmailAddress {
    type V = EmailAddressView;

    open spec fn view(&self) -> EmailAddressView {
        EmailAddressView {
            name: match self.name {
                Some(n) => Some(n@),
                None => None,
            },
            address: self.address@,
        }
    }
}

/// `Name <address>` when a non-empty name is present, the bare address otherwise.
pub open spec fn format_address(a: EmailAddressView) -> Seq<char> {
    match a.name {
        Some(n) => if n.len() > 0 {
            n + " <"@ + a.address + ">"@
        } else {
            a.address
        },
        None => a.address,
    }
}

impl EmailAddress {
    pub fn new(address: &str) -> (r: Self)
        ensures
            r@.name is None,
            r@.address == address@,
    {
        EmailAddress { name: None, address: address.to_owned() }
    }

    pub fn with_name(name: &str, address: &str) -> (r: Self)
        ensures
            r@.name == Some(name@),
            r@.address == address@,
    {
        EmailAddress { name: Some(name.to_owned()), address: address.to_owned() }
    }

    /// A copy whose view equals this address's view.
    pub fn duplicate(&self) -> (r: Self)
        ensures
            r@ == self@,
    {
        EmailAddress {
            name: match &self.name {
                Some(n) => Some(n.clone()),
                None => None,
            },
            address: self.address.clone(),
        }
    }

    pub fn format(&self) -> (s: String)
        ensures
            s@ == format_address(self@),
    {
        match &self.name {
            Some(name) => {
                if name.as_str().unicode_len() > 0 {
                    let mut s = name.clone();
                    push_str(&mut s, " <");
                    push_str(&mut s, self.address.as_str());
                    push_str(&mut s, ">");
                    s
                } else {
                    self.address.clone()
                }
            },
            None => self.address.clone(),
        }
    }
}

/// The addressing part of a message's header.
#[derive(Debug, Clone, PartialEq, Eq)]
pub struct Envelope {
    pub message_id_header: Option<String>,
    pub subject: String,
    pub from: Vec<EmailAddress>,
    pub to: Vec<EmailAddress>,
    pub cc: Vec<EmailAddress>,
    pub bcc: Vec<EmailAddress>,
    pub reply_to: Vec<EmailAddress>,
    pub in_reply_to: Option<String>,
    pub date: Option<Timestamp>,
}

impl Default for Envelope {
    /// No identifier, an empty subject, no addresses and no date.
    fn default() -> (r: Self)
        ensures
            r.message_id_header is None,
            r.subject@.len() == 0,
            r.from@.len() == 0,
            r.to@.len() == 0,
            r.cc@.len() == 0,
            r.bcc@.len() == 0,
            r.reply_to@.len() == 0,
            r.in_reply_to is None,
            r.date is None,
    {
        Envelope {
            message_id_header: None,
            subject: String::new(),
            from: Vec::new(),
            to: Vec::new(),
            cc: Vec::new(),
            bcc: Vec::new(),
            reply_to: Vec::new(),
            in_reply_to: None,
            date: None,
        }
    }
}

/// What the message list shows of a stored message.
#[derive(Debug, Clone, PartialEq, Eq)]
pub struct MessageSummary {
    pub id: MessageId,
    pub account_id: AccountId,
    pub folder_id: FolderId,
    pub uid: Option<u32>,
    pub message_id_header: Option<String>,
    pub thread_id: Option<String>,
    pub subject: String,
    pub sender: Option<EmailAddress>,
    pub recipients: Vec<EmailAddress>,
    pub date: Option<Timestamp>,
    pub flags: MessageFlags,
    pub snippet: String,
    pub size: u64,
    pub has_attachments: bool,
}

/// A stored message with its header, bodies and attachments.
#[derive(Debug, Clone, PartialEq, Eq)]
pub struct MessageDetail {
    pub summary: MessageSummary,
    pub envelope: Envelope,
    pub body_text: Option<String>,
    pub body_html: Option<String>,
    pub raw_blob_hash: Option<String>,
    pub attachments: Vec<AttachmentMetadata>,
}

} // verus!
