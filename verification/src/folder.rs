//! Mailbox roles.

use vstd::prelude::*;

use crate::ids::{AccountId, FolderId};
use crate::text::{chars_eq_str, chars_of, lower_chars, lower_seq};

verus! {

/// The well-known purpose of a mailbox.
#[derive(Debug, Clone, Copy, PartialEq, Eq, Structural, Hash)]
pub enum FolderRole {
    Inbox,
    Sent,
    Drafts,
    Trash,
    Archive,
    Spam,
    Junk,
    Custom,
}

/// The role a (lower-cased) mailbox name denotes, accepting the usual aliases.
pub open spec fn role_of_lower_name(l: Seq<char>) -> FolderRole {
    if l == "inbox"@ {
        FolderRole::Inbox
    } else if l == "sent"@ || l == "sent items"@ || l == "sent messages"@ {
        FolderRole::Sent
    } else if l == "drafts"@ || l == "draft"@ {
        FolderRole::Drafts
    } else if l == "trash"@ || l == "bin"@ || l == "deleted items"@ || l == "deleted messages"@ {
        FolderRole::Trash
    } else if l == "archive"@ || l == "archives"@ {
        FolderRole::Archive
    } else if l == "spam"@ {
        FolderRole::Spam
    } else if l == "junk"@ || l == "junk email"@ {
        FolderRole::Junk
    } else {
        FolderRole::Custom
    }
}

/// The role a (lower-cased) role keyword denotes: only the canonical keywords.
pub open spec fn role_of_lower_keyword(l: Seq<char>) -> FolderRole {
    if l == "inbox"@ {
        FolderRole::Inbox
    } else if l == "sent"@ {
        FolderRole::Sent
    } else if l == "drafts"@ {
        FolderRole::Drafts
    } else if l == "trash"@ {
        FolderRole::Trash
    } else if l == "archive"@ {
        FolderRole::Archive
    } else if l == "spam"@ {
        FolderRole::Spam
    } else if l == "junk"@ {
        FolderRole::Junk
    } else {
        FolderRole::Custom
    }
}

/// The canonical keyword of a role.
pub open spec fn role_keyword(r: FolderRole) -> Seq<char> {
    match r {
        FolderRole::Inbox => "inbox"@,
        FolderRole::Sent => "sent"@,
        FolderRole::Drafts => "drafts"@,
        FolderRole::Trash => "trash"@,
        FolderRole::Archive => "archive"@,
        FolderRole::Spam => "spam"@,
        FolderRole::Junk => "junk"@,
        FolderRole::Custom => "custom"@,
    }
}

/// Reading the keyword of a role (in any ASCII case) gives back the role.
pub proof fn lemma_role_keyword_roundtrip(r: FolderRole)
    ensures
        role_of_lower_keyword(lower_seq(role_keyword(r))) == r,
{
    reveal_strlit("inbox");
    reveal_strlit("sent");
    reveal_strlit("drafts");
    reveal_strlit("trash");
    reveal_strlit("archive");
    reveal_strlit("spam");
    reveal_strlit("junk");
    reveal_strlit("custom");
    let k = role_keyword(r);
    assert(lower_seq(k) =~= k);
    assert("inbox"@[0] == 'i' && "trash"@[0] == 't' && "drafts"@[0] == 'd' && "custom"@[0] == 'c');
    assert("sent"@[0] == 's' && "spam"@[0] == 's' && "junk"@[0] == 'j');
    assert("sent"@[1] == 'e' && "spam"@[1] == 'p' && "archive"@.len() == 7);
}

/// Guessing a role from a mailbox name agrees with reading a stored role keyword
/// wherever the keyword names a role: every role but `Custom` is recognised from
/// its own keyword, in any ASCII case, by both.
pub proof fn lemma_from_name_knows_keywords(r: FolderRole, name: Seq<char>)
    requires
        r != FolderRole::Custom,
        lower_seq(name) == role_keyword(r),
    ensures
        role_of_lower_name(lower_seq(name)) == r,
        role_of_lower_keyword(lower_seq(name)) == r,
{
    lemma_role_keyword_roundtrip(r);
    lemma_from_name_aliases(name);
    reveal_strlit("inbox");
    reveal_strlit("sent");
    reveal_strlit("drafts");
    reveal_strlit("trash");
    reveal_strlit("archive");
    reveal_strlit("spam");
    reveal_strlit("junk");
    let k = role_keyword(r);
    assert(lower_seq(k) =~= k);
}

/// The usual names of the special mailboxes, in any ASCII case, are recognised:
/// "Sent", "Sent Items" and "Sent Messages" are sent mail; "Drafts" and "Draft"
/// drafts; "Trash", "Bin", "Deleted Items" and "Deleted Messages" the trash;
/// "Archive" and "Archives" the archive; "Spam" spam; "Junk" and "Junk Email" junk;
/// "INBOX" the inbox.
pub proof fn lemma_from_name_aliases(name: Seq<char>)
    ensures
        lower_seq(name) == "inbox"@ ==> role_of_lower_name(lower_seq(name)) == FolderRole::Inbox,
        lower_seq(name) == "sent"@ || lower_seq(name) == "sent items"@ || lower_seq(name)
            == "sent messages"@ ==> role_of_lower_name(lower_seq(name)) == FolderRole::Sent,
        lower_seq(name) == "drafts"@ || lower_seq(name) == "draft"@ ==> role_of_lower_name(
            lower_seq(name),
        ) == FolderRole::Drafts,
        lower_seq(name) == "trash"@ || lower_seq(name) == "bin"@ || lower_seq(name)
            == "deleted items"@ || lower_seq(name) == "deleted messages"@ ==> role_of_lower_name(
            lower_seq(name),
        ) == FolderRole::Trash,
        lower_seq(name) == "archive"@ || lower_seq(name) == "archives"@ ==> role_of_lower_name(
            lower_seq(name),
        ) == FolderRole::Archive,
        lower_seq(name) == "spam"@ ==> role_of_lower_name(lower_seq(name)) == FolderRole::Spam,
        lower_seq(name) == "junk"@ || lower_seq(name) == "junk email"@ ==> role_of_lower_name(
            lower_seq(name),
        ) == FolderRole::Junk,
{
    reveal_strlit("inbox");
    reveal_strlit("sent");
    reveal_strlit("drafts");
    reveal_strlit("trash");
    reveal_strlit("archive");
    reveal_strlit("spam");
    reveal_strlit("junk");
    reveal_strlit("sent items");
    reveal_strlit("sent messages");
    reveal_strlit("draft");
    reveal_strlit("bin");
    reveal_strlit("deleted items");
    reveal_strlit("deleted messages");
    reveal_strlit("archives");
    reveal_strlit("junk email");
    assert("inbox"@.len() == 5 && "inbox"@[0] == 'i' && "inbox"@[1] == 'n');
    assert("sent"@.len() == 4 && "sent"@[0] == 's' && "sent"@[1] == 'e');
    assert("sent items"@.len() == 10 && "sent items"@[0] == 's' && "sent items"@[1] == 'e');
    assert("sent messages"@.len() == 13 && "sent messages"@[0] == 's' && "sent messages"@[1] == 'e');
    assert("drafts"@.len() == 6 && "drafts"@[0] == 'd' && "drafts"@[1] == 'r');
    assert("draft"@.len() == 5 && "draft"@[0] == 'd' && "draft"@[1] == 'r');
    assert("trash"@.len() == 5 && "trash"@[0] == 't' && "trash"@[1] == 'r');
    assert("bin"@.len() == 3 && "bin"@[0] == 'b' && "bin"@[1] == 'i');
    assert("deleted items"@.len() == 13 && "deleted items"@[0] == 'd' && "deleted items"@[1] == 'e');
    assert("deleted messages"@.len() == 16 && "deleted messages"@[0] == 'd' && "deleted messages"@[1] == 'e');
    assert("archive"@.len() == 7 && "archive"@[0] == 'a' && "archive"@[1] == 'r');
    assert("archives"@.len() == 8 && "archives"@[0] == 'a' && "archives"@[1] == 'r');
    assert("spam"@.len() == 4 && "spam"@[0] == 's' && "spam"@[1] == 'p');
    assert("junk"@.len() == 4 && "junk"@[0] == 'j' && "junk"@[1] == 'u');
    assert("junk email"@.len() == 10 && "junk email"@[0] == 'j' && "junk email"@[1] == 'u');
}

impl FolderRole {
    /// Guesses the role of a mailbox from its name, ignoring ASCII case.
    pub fn from_name(name: &str) -> (r: Self)
        ensures
            r == role_of_lower_name(lower_seq(name@)),
    {
        let chars = chars_of(name);
        let l = lower_chars(chars.as_slice());
        let l = l.as_slice();
        if chars_eq_str(l, "inbox") {
            FolderRole::Inbox
        } else if chars_eq_str(l, "sent") || chars_eq_str(l, "sent items") || chars_eq_str(
            l,
            "sent messages",
        ) {
            FolderRole::Sent
        } else if chars_eq_str(l, "drafts") || chars_eq_str(l, "draft") {
            FolderRole::Drafts
        } else if chars_eq_str(l, "trash") || chars_eq_str(l, "bin") || chars_eq_str(
            l,
            "deleted items",
        ) || chars_eq_str(l, "deleted messages") {
            FolderRole::Trash
        } else if chars_eq_str(l, "archive") || chars_eq_str(l, "archives") {
            FolderRole::Archive
        } else if chars_eq_str(l, "spam") {
            FolderRole::Spam
        } else if chars_eq_str(l, "junk") || chars_eq_str(l, "junk email") {
            FolderRole::Junk
        } else {
            FolderRole::Custom
        }
    }

    /// Reads a canonical role keyword, ignoring ASCII case; anything else is `Custom`.
    pub fn parse_keyword(s: &str) -> (r: Self)
        ensures
            r == role_of_lower_keyword(lower_seq(s@)),
    {
        let chars = chars_of(s);
        let l = lower_chars(chars.as_slice());
        let l = l.as_slice();
        if chars_eq_str(l, "inbox") {
            FolderRole::Inbox
        } else if chars_eq_str(l, "sent") {
            FolderRole::Sent
        } else if chars_eq_str(l, "drafts") {
            FolderRole::Drafts
        } else if chars_eq_str(l, "trash") {
            FolderRole::Trash
        } else if chars_eq_str(l, "archive") {
            FolderRole::Archive
        } else if chars_eq_str(l, "spam") {
            FolderRole::Spam
        } else if chars_eq_str(l, "junk") {
            FolderRole::Junk
        } else {
            FolderRole::Custom
        }
    }

    pub fn as_str(&self) -> (s: &'static str)
        ensures
            s@ == role_keyword(*self),
    {
        match self {
            FolderRole::Inbox => "inbox",
            FolderRole::Sent => "sent",
            FolderRole::Drafts => "drafts",
            FolderRole::Trash => "trash",
            FolderRole::Archive => "archive",
            FolderRole::Spam => "spam",
            FolderRole::Junk => "junk",
            FolderRole::Custom => "custom",
        }
    }
}

/// A mailbox of an account, as stored locally.
#[derive(Debug, Clone, PartialEq, Eq)]
pub struct Folder {
    pub id: FolderId,
    pub account_id: AccountId,
    pub remote_name: String,
    pub display_name: String,
    pub delimiter: Option<String>,
    pub role: FolderRole,
    pub uid_validity: Option<u32>,
    pub uid_next: Option<u32>,
    pub total_count: u32,
    pub unread_count: u32,
}

impl Folder {
    /// A mailbox with a fresh identifier, no UID state and no messages counted yet.
    pub fn new(
        account_id: AccountId,
        remote_name: &str,
        display_name: &str,
        delimiter: Option<String>,
        role: FolderRole,
    ) -> (r: Self)
        ensures
            r.account_id == account_id,
            r.remote_name@ == remote_name@,
            r.display_name@ == display_name@,
            r.delimiter == delimiter,
            r.role == role,
            r.uid_validity is None,
            r.uid_next is None,
            r.total_count == 0,
            r.unread_count == 0,
    {
        Folder {
            id: FolderId::new(),
            account_id,
            remote_name: remote_name.to_owned(),
            display_name: display_name.to_owned(),
            delimiter,
            role,
            uid_validity: None,
            uid_next: None,
            total_count: 0,
            unread_count: 0,
        }
    }
}

} // verus!
