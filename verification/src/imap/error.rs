//! What can go wrong on the IMAP side.

use vstd::prelude::*;

use crate::text::push_str;

verus! {

/// An error of the IMAP side. Errors of outside libraries (storage, I/O) are kept
/// as their message.
#[derive(Debug, Clone, PartialEq, Eq)]
pub enum ImapError {
    Connection(String),
    Tls(String),
    Authentication(String),
    Protocol(String),
    CommandFailed(String, String),
    Mailbox(String),
    Fetch(String),
    Timeout,
    MimeDecode(String),
    Storage(String),
    Io(String),
    Other(String),
}

pub open spec fn imap_error_text(e: ImapError) -> Seq<char> {
    match e {
        ImapError::Connection(m) => "Connection error: "@ + m@,
        ImapError::Tls(m) => "TLS handshake error: "@ + m@,
        ImapError::Authentication(m) => "Authentication error: "@ + m@,
        ImapError::Protocol(m) => "Protocol error: "@ + m@,
        ImapError::CommandFailed(s, m) => "Command rejected ("@ + s@ + "): "@ + m@,
        ImapError::Mailbox(m) => "Mailbox error: "@ + m@,
        ImapError::Fetch(m) => "Fetch error: "@ + m@,
        ImapError::Timeout => "Timeout error"@,
        ImapError::MimeDecode(m) => "MIME decode error: "@ + m@,
        ImapError::Storage(m) => "Storage error: "@ + m@,
        ImapError::Io(m) => "I/O error: "@ + m@,
        ImapError::Other(m) => "Other error: "@ + m@,
    }
}

impl ImapError {
    /// The message shown for this error.
    pub fn to_text(&self) -> (r: String)
        ensures
            r@ == imap_error_text(*self),
    {
        let (prefix, detail): (&str, &String) = match self {
            ImapError::Connection(m) => ("Connection error: ", m),
            ImapError::Tls(m) => ("TLS handshake error: ", m),
            ImapError::Authentication(m) => ("Authentication error: ", m),
            ImapError::Protocol(m) => ("Protocol error: ", m),
            ImapError::CommandFailed(s, m) => {
                let mut t = "Command rejected (".to_owned();
                push_str(&mut t, s.as_str());
                push_str(&mut t, "): ");
                push_str(&mut t, m.as_str());
                return t;
            },
            ImapError::Mailbox(m) => ("Mailbox error: ", m),
            ImapError::Fetch(m) => ("Fetch error: ", m),
            ImapError::Timeout => {
                return "Timeout error".to_owned();
            },
            ImapError::MimeDecode(m) => ("MIME decode error: ", m),
            ImapError::Storage(m) => ("Storage error: ", m),
            ImapError::Io(m) => ("I/O error: ", m),
            ImapError::Other(m) => ("Other error: ", m),
        };
        let mut t = prefix.to_owned();
        push_str(&mut t, detail.as_str());
        t
    }
}

} // verus!
