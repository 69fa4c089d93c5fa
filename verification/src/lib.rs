//! Verified core of the Edvige mail client: the message model, the IMAP
//! wire protocol, MIME composition, SMTP dialogue rules and the decisions
//! of the synchronisation engine and user interface.

pub mod text;
pub mod message;
pub mod attachment;
pub mod folder;
pub mod scan;
pub mod imap;
pub mod mutation;
pub mod outbox;
pub mod gui;
pub mod ids;
pub mod account;
pub mod proto;
pub mod smtp;
pub mod daemon;
