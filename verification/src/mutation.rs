//! Local changes waiting to be replayed on the server.

use vstd::prelude::*;

use crate::ids::{AccountId, FolderId, MessageId, MutationId, Timestamp};
use crate::message::MessageFlags;

verus! {

/// Progress of a queued mutation.
#[derive(Debug, Clone, Copy, PartialEq, Eq, Structural)]
pub enum MutationStatus {
    Pending,
    InFlight,
    Completed,
    Failed,
}

pub open spec fn mutation_status_name(s: MutationStatus) -> Seq<char> {
    match s {
        MutationStatus::Pending => "pending"@,
        MutationStatus::InFlight => "in_flight"@,
        MutationStatus::Completed => "completed"@,
        MutationStatus::Failed => "failed"@,
    }
}

impl MutationStatus {
    /// The stored name of the status.
    pub fn as_str(&self) -> (r: &'static str)
        ensures
            r@ == mutation_status_name(*self),
    {
        match self {
            MutationStatus::Pending => "pending",
            MutationStatus::InFlight => "in_flight",
            MutationStatus::Completed => "completed",
            MutationStatus::Failed => "failed",
        }
    }
}

/// A change made locally that the server has to learn of.
#[derive(Debug, Clone, Copy, PartialEq, Eq, Structural)]
pub enum MutationType {
    SetFlags {
        message_id: MessageId,
        folder_id: FolderId,
        uid: Option<u32>,
        add_flags: MessageFlags,
        remove_flags: MessageFlags,
    },
    MoveMessage {
        message_id: MessageId,
        source_folder_id: FolderId,
        source_uid: Option<u32>,
        target_folder_id: FolderId,
    },
    DeleteMessage { message_id: MessageId, folder_id: FolderId, uid: Option<u32>, permanent: bool },
    SendMail { outbox_message_id: MessageId },
}

/// A queued change with its progress.
#[derive(Debug, Clone, PartialEq, Eq)]
pub struct Mutation {
    pub id: MutationId,
    pub account_id: AccountId,
    pub mutation_type: MutationType,
    pub status: MutationStatus,
    pub retry_count: u32,
    pub last_error: Option<String>,
    pub created_at: Timestamp,
    pub updated_at: Timestamp,
}

impl Mutation {
    /// A pending change with a fresh identifier, created and updated now.
    pub fn new(account_id: AccountId, mutation_type: MutationType) -> (r: Self)
        ensures
            r.account_id == account_id,
            r.mutation_type == mutation_type,
            r.status == MutationStatus::Pending,
            r.retry_count == 0,
            r.last_error is None,
            r.created_at == r.updated_at,
            r.created_at.valid(),
    {
        let now = Timestamp::now();
        Mutation {
            id: MutationId::new(),
            account_id,
            mutation_type,
            status: MutationStatus::Pending,
            retry_count: 0,
            last_error: None,
            created_at: now,
            updated_at: now,
        }
    }
}

} // verus!
