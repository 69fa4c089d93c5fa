//! What is known of a stored attachment.

use vstd::prelude::*;

use crate::ids::{AttachmentId, MessageId};

verus! {

/// An attachment of a stored message; its bytes live in the blob store under
/// `blob_hash`.
#[derive(Debug, Clone, PartialEq, Eq)]
pub struct AttachmentMetadata {
    pub id: AttachmentId,
    pub message_id: MessageId,
    pub filename: String,
    pub content_type: String,
    pub size: u64,
    pub blob_hash: String,
    pub content_id: Option<String>,
    pub is_inline: bool,
}

impl AttachmentMetadata {
    /// A regular (not inline) attachment with a fresh identifier and no content id.
    pub fn new(
        message_id: MessageId,
        filename: &str,
        content_type: &str,
        size: u64,
        blob_hash: &str,
    ) -> (r: Self)
        ensures
            r.message_id == message_id,
            r.filename@ == filename@,
            r.content_type@ == content_type@,
            r.size == size,
            r.blob_hash@ == blob_hash@,
            r.content_id is None,
            !r.is_inline,
    {
        AttachmentMetadata {
            id: AttachmentId::new(),
            message_id,
            filename: filename.to_owned(),
            content_type: content_type.to_owned(),
            size,
            blob_hash: blob_hash.to_owned(),
            content_id: None,
            is_inline: false,
        }
    }
}

} // verus!
