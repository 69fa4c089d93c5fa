//! Sending mail: the MIME message, the SMTP dialogue and the outbox dispatcher.

pub mod error;
pub mod builder;
pub mod client;
pub mod dispatcher;
