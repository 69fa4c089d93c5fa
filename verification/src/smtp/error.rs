//! What can go wrong while sending mail.

use vstd::prelude::*;

use crate::text::{push_decimal, push_str};

verus! {

/// An error of the SMTP side. Errors of outside libraries (storage, I/O) are kept
/// as their message.
#[derive(Debug, Clone, PartialEq, Eq)]
pub enum SmtpError {
    Connection(String),
    Tls(String),
    Authentication(String),
    Protocol(String),
    CommandRejected(u16, String),
    MimeBuild(String),
    Timeout,
    Storage(String),
    Io(String),
    Other(String),
}

pub open spec fn smtp_error_text(e: SmtpError) -> Seq<char> {
    match e {
        SmtpError::Connection(m) => "Connection error: "@ + m@,
        SmtpError::Tls(m) => "TLS handshake error: "@ + m@,
        SmtpError::Authentication(m) => "Authentication error: "@ + m@,
        SmtpError::Protocol(m) => "SMTP protocol error: "@ + m@,
        SmtpError::CommandRejected(c, m) => "SMTP command rejected with code "@ + crate::text::dec(
            c as nat,
        ) + ": "@ + m@,
        SmtpError::MimeBuild(m) => "MIME build error: "@ + m@,
        SmtpError::Timeout => "Timeout error"@,
        SmtpError::Storage(m) => "Storage error: "@ + m@,
        SmtpError::Io(m) => "I/O error: "@ + m@,
        SmtpError::Other(m) => "Other error: "@ + m@,
    }
}

impl SmtpError {
    /// The message shown for this error.
    pub fn to_text(&self) -> (r: String)
        ensures
            r@ == smtp_error_text(*self),
    {
        let (prefix, detail): (&str, &String) = match self {
            SmtpError::Connection(m) => ("Connection error: ", m),
            SmtpError::Tls(m) => ("TLS handshake error: ", m),
            SmtpError::Authentication(m) => ("Authentication error: ", m),
            SmtpError::Protocol(m) => ("SMTP protocol error: ", m),
            SmtpError::CommandRejected(c, m) => {
                let mut s = "SMTP command rejected with code ".to_owned();
                push_decimal(&mut s, *c as u64);
                push_str(&mut s, ": ");
                push_str(&mut s, m.as_str());
                return s;
            },
            SmtpError::MimeBuild(m) => ("MIME build error: ", m),
            SmtpError::Timeout => {
                return "Timeout error".to_owned();
            },
            SmtpError::Storage(m) => ("Storage error: ", m),
            SmtpError::Io(m) => ("I/O error: ", m),
            SmtpError::Other(m) => ("Other error: ", m),
        };
        let mut s = prefix.to_owned();
        push_str(&mut s, detail.as_str());
        s
    }
}

} // verus!
