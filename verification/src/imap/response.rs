//! Server response lines.

use vstd::prelude::*;

use crate::message::MessageFlags;

verus! {

/// Completion status of a response.
#[derive(Debug, Clone, Copy, PartialEq, Eq, Structural)]
pub enum Status {
    OK,
    No,
    Bad,
    PreAuth,
    Bye,
}

/// `A0001 OK [READ-WRITE] SELECT completed`
#[derive(Debug, Clone, PartialEq, Eq)]
pub struct TaggedResponse {
    pub tag: String,
    pub status: Status,
    pub code: Option<String>,
    pub text: String,
}

pub struct TaggedView {
    pub tag: Seq<char>,
    pub status: Status,
    pub code: Option<Seq<char>>,
    pub text: Seq<char>,
}

pub open spec fn opt_str_view(o: Option<String>) -> Option<Seq<char>> {
    match o {
        Some(s) => Some(s@),
        None => None,
    }
}

pub open spec fn strs_view(v: Seq<String>) -> Seq<Seq<char>> {
    v.map_values(|s: String| s@)
}

impl View for TaggedResponse {
    type V = TaggedView;

    open spec fn view(&self) -> TaggedView {
        TaggedView {
            tag: self.tag@,
            status: self.status,
            code: opt_str_view(self.code),
            text: self.text@,
        }
    }
}

/// The attributes of a `FETCH` response that the client uses.
#[derive(Debug, Clone, PartialEq, Eq)]
pub struct FetchResponse {
    pub seq: u32,
    pub uid: Option<u32>,
    pub flags: Option<MessageFlags>,
    pub rfc822_size: Option<u64>,
    pub rfc822_body: Option<Vec<u8>>,
}

pub struct FetchView {
    pub seq: u32,
    pub uid: Option<u32>,
    pub flags: Option<MessageFlags>,
    pub rfc822_size: Option<u64>,
    pub rfc822_body: Option<Seq<u8>>,
}

impl View for FetchResponse {
    type V = FetchView;

    open spec fn view(&self) -> FetchView {
        FetchView {
            seq: self.seq,
            uid: self.uid,
            flags: self.flags,
            rfc822_size: self.rfc822_size,
            rfc822_body: match self.rfc822_body {
                Some(b) => Some(b@),
                None => None,
            },
        }
    }
}

/// A response line that starts with `*`.
#[derive(Debug, Clone, PartialEq, Eq)]
pub enum UntaggedResponse {
    /// `* LIST (\HasNoChildren \Drafts) "/" "Drafts"`
    List { flags: Vec<String>, delimiter: Option<String>, name: String },
    /// `* 23 EXISTS`
    Exists(u32),
    /// `* 2 RECENT`
    Recent(u32),
    /// `* 5 EXPUNGE`
    Expunge(u32),
    /// `* 1 FETCH (...)`
    Fetch(FetchResponse),
    /// `* STATUS "INBOX" (MESSAGES 123 UIDNEXT 456 UIDVALIDITY 789)`
    Status {
        name: String,
        messages: Option<u32>,
        recent: Option<u32>,
        uid_next: Option<u32>,
        uid_validity: Option<u32>,
        unseen: Option<u32>,
    },
    /// `* OK [UIDVALIDITY 12345] UIDs valid`
    OK { code: Option<String>, text: String },
    /// `* NO ...`
    No { code: Option<String>, text: String },
    /// `* BAD ...`
    Bad { code: Option<String>, text: String },
    /// `* PREAUTH`, `* BYE` and any other untagged line.
    Other(String),
}

pub enum UntaggedView {
    List { flags: Seq<Seq<char>>, delimiter: Option<Seq<char>>, name: Seq<char> },
    Exists(u32),
    Recent(u32),
    Expunge(u32),
    Fetch(FetchView),
    Status {
        name: Seq<char>,
        messages: Option<u32>,
        recent: Option<u32>,
        uid_next: Option<u32>,
        uid_validity: Option<u32>,
        unseen: Option<u32>,
    },
    OK { code: Option<Seq<char>>, text: Seq<char> },
    No { code: Option<Seq<char>>, text: Seq<char> },
    Bad { code: Option<Seq<char>>, text: Seq<char> },
    Other(Seq<char>),
}

impl View for UntaggedResponse {
    type V = UntaggedView;

    open spec fn view(&self) -> UntaggedView {
        match self {
            UntaggedResponse::List { flags, delimiter, name } => UntaggedView::List {
                flags: strs_view(flags@),
                delimiter: opt_str_view(*delimiter),
                name: name@,
            },
            UntaggedResponse::Exists(n) => UntaggedView::Exists(*n),
            UntaggedResponse::Recent(n) => UntaggedView::Recent(*n),
            UntaggedResponse::Expunge(n) => UntaggedView::Expunge(*n),
            UntaggedResponse::Fetch(f) => UntaggedView::Fetch(f@),
            UntaggedResponse::Status { name, messages, recent, uid_next, uid_validity, unseen } =>
                UntaggedView::Status {
                name: name@,
                messages: *messages,
                recent: *recent,
                uid_next: *uid_next,
                uid_validity: *uid_validity,
                unseen: *unseen,
            },
            UntaggedResponse::OK { code, text } => UntaggedView::OK {
                code: opt_str_view(*code),
                text: text@,
            },
            UntaggedResponse::No { code, text } => UntaggedView::No {
                code: opt_str_view(*code),
                text: text@,
            },
            UntaggedResponse::Bad { code, text } => UntaggedView::Bad {
                code: opt_str_view(*code),
                text: text@,
            },
            UntaggedResponse::Other(s) => UntaggedView::Other(s@),
        }
    }
}

/// A `+` continuation request.
#[derive(Debug, Clone, PartialEq, Eq)]
pub struct Continuation(pub String);

/// One server line, classified.
#[derive(Debug, Clone, PartialEq, Eq)]
pub enum ImapLine {
    Tagged(TaggedResponse),
    Untagged(UntaggedResponse),
    Continuation(Continuation),
}

pub enum LineView {
    Tagged(TaggedView),
    Untagged(UntaggedView),
    Continuation(Seq<char>),
}

impl View for ImapLine {
    type V = LineView;

    open spec fn view(&self) -> LineView {
        match self {
            ImapLine::Tagged(t) => LineView::Tagged(t@),
            ImapLine::Untagged(u) => LineView::Untagged(u@),
            ImapLine::Continuation(c) => LineView::Continuation(c.0@),
        }
    }
}

} // verus!
