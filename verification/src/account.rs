//! Mail accounts and their server settings.

use vstd::prelude::*;

use crate::ids::{AccountId, Timestamp};

verus! {

/// How a connection to a mail server is secured.
#[derive(Debug, Clone, Copy, PartialEq, Eq, Structural)]
pub enum SecurityMode {
    Plain,
    Tls,
    StartTls,
}

/// Where a mail server is reached.
#[derive(Debug, Clone, PartialEq, Eq)]
pub struct ServerConfig {
    pub host: String,
    pub port: u16,
    pub security: SecurityMode,
}

/// Login name and password.
#[derive(Debug, Clone, PartialEq, Eq)]
pub struct AccountCredentials {
    pub username: String,
    pub password: String,
}

/// A configured mail account.
#[derive(Debug, Clone, PartialEq, Eq)]
pub struct Account {
    pub id: AccountId,
    pub name: String,
    pub email: String,
    pub imap_config: ServerConfig,
    pub smtp_config: ServerConfig,
    pub credentials: AccountCredentials,
    pub created_at: Timestamp,
    pub updated_at: Timestamp,
}

impl Account {
    /// Both timestamps denote instants.
    pub open spec fn wf(&self) -> bool {
        self.created_at.valid() && self.updated_at.valid()
    }

    /// A new account with a fresh identifier, created and updated now.
    pub fn new(
        name: &str,
        email: &str,
        imap_config: ServerConfig,
        smtp_config: ServerConfig,
        credentials: AccountCredentials,
    ) -> (r: Self)
        ensures
            r.wf(),
            r.name@ == name@,
            r.email@ == email@,
            r.imap_config == imap_config,
            r.smtp_config == smtp_config,
            r.credentials == credentials,
            r.created_at == r.updated_at,
    {
        let now = Timestamp::now();
        Account {
            id: AccountId::new(),
            name: name.to_owned(),
            email: email.to_owned(),
            imap_config,
            smtp_config,
            credentials,
            created_at: now,
            updated_at: now,
        }
    }
}

} // verus!
