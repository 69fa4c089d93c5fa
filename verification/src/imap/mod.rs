//! The IMAP4rev1 wire protocol: commands, response lines and their meaning.

pub mod basic;
pub mod client;
pub mod commands;
pub mod connection;
pub mod error;
pub mod mime;
pub mod parser;
pub mod response;
pub mod sync;
