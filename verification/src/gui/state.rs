//! The state of the desktop client's window and how each event changes it.

use vstd::prelude::*;

use crate::account::{Account, SecurityMode};
use crate::folder::{Folder, FolderRole};
use crate::gui::actions::ConnectionStatus;
use crate::ids::{AccountId, FolderId, MessageId};
use crate::message::{no_flags, MessageDetail, MessageFlags, MessageSummary};

verus! {

/// Everything the window shows and edits.
#[derive(Debug)]
pub struct AppState {
    pub connection_status: ConnectionStatus,
    pub accounts: Vec<Account>,
    pub selected_account_id: Option<AccountId>,
    pub folders: Vec<Folder>,
    pub selected_folder_id: Option<FolderId>,
    pub messages: Vec<MessageSummary>,
    pub selected_message_id: Option<MessageId>,
    pub selected_message_detail: Option<MessageDetail>,
    pub search_query: String,
    pub is_searching: bool,
    /// The last status message and when it was set (milliseconds of a monotonic
    /// clock chosen by the caller).
    pub status_message: Option<(String, u64)>,
    pub show_compose: bool,
    pub composer_to: String,
    pub composer_cc: String,
    pub composer_bcc: String,
    pub composer_show_cc_bcc: bool,
    pub composer_subject: String,
    pub composer_body: String,
    pub composer_is_html: bool,
    /// (file name, content type, bytes)
    pub composer_attachments: Vec<(String, String, Vec<u8>)>,
    pub show_account_wizard: bool,
    pub wizard_name: String,
    pub wizard_email: String,
    pub wizard_imap_host: String,
    pub wizard_imap_port: u16,
    pub wizard_imap_sec: SecurityMode,
    pub wizard_smtp_host: String,
    pub wizard_smtp_port: u16,
    pub wizard_smtp_sec: SecurityMode,
    pub wizard_user: String,
    pub wizard_pass: String,
    pub show_about: bool,
}

impl Default for AppState {
    /// Connecting, nothing loaded or selected, no modal open, and the account
    /// wizard prefilled with Gmail's servers over TLS.
    fn default() -> (r: Self)
        ensures
            r.connection_status == ConnectionStatus::Connecting,
            r.accounts@.len() == 0 && r.folders@.len() == 0 && r.messages@.len() == 0,
            r.selected_account_id is None && r.selected_folder_id is None,
            r.selected_message_id is None && r.selected_message_detail is None,
            r.search_query@.len() == 0 && !r.is_searching && r.status_message is None,
            !r.show_compose && !r.composer_show_cc_bcc && !r.composer_is_html,
            r.composer_to@.len() == 0 && r.composer_cc@.len() == 0 && r.composer_bcc@.len() == 0,
            r.composer_subject@.len() == 0 && r.composer_body@.len() == 0,
            r.composer_attachments@.len() == 0,
            !r.show_account_wizard && !r.show_about,
            r.wizard_name@.len() == 0 && r.wizard_email@.len() == 0,
            r.wizard_imap_host@ == "imap.gmail.com"@ && r.wizard_imap_port == 993,
            r.wizard_imap_sec == SecurityMode::Tls,
            r.wizard_smtp_host@ == "smtp.gmail.com"@ && r.wizard_smtp_port == 465,
            r.wizard_smtp_sec == SecurityMode::Tls,
            r.wizard_user@.len() == 0 && r.wizard_pass@.len() == 0,
    {
        AppState {
            connection_status: ConnectionStatus::Connecting,
            accounts: Vec::new(),
            selected_account_id: None,
            folders: Vec::new(),
            selected_folder_id: None,
            messages: Vec::new(),
            selected_message_id: None,
            selected_message_detail: None,
            search_query: String::new(),
            is_searching: false,
            status_message: None,
            show_compose: false,
            composer_to: String::new(),
            composer_cc: String::new(),
            composer_bcc: String::new(),
            composer_show_cc_bcc: false,
            composer_subject: String::new(),
            composer_body: String::new(),
            composer_is_html: false,
            composer_attachments: Vec::new(),
            show_account_wizard: false,
            wizard_name: String::new(),
            wizard_email: String::new(),
            wizard_imap_host: "imap.gmail.com".to_owned(),
            wizard_imap_port: 993,
            wizard_imap_sec: SecurityMode::Tls,
            wizard_smtp_host: "smtp.gmail.com".to_owned(),
            wizard_smtp_port: 465,
            wizard_smtp_sec: SecurityMode::Tls,
            wizard_user: String::new(),
            wizard_pass: String::new(),
            show_about: false,
        }
    }
}

/// Index of the first account with the identifier.
pub open spec fn account_index(v: Seq<Account>, id: AccountId) -> Option<int>
    decreases v.len(),
{
    if v.len() == 0 {
        None
    } else if v[0].id == id {
        Some(0)
    } else {
        match account_index(v.drop_first(), id) {
            Some(k) => Some(k + 1),
            None => None,
        }
    }
}

/// Index of the first mailbox with the identifier.
pub open spec fn folder_index(v: Seq<Folder>, id: FolderId) -> Option<int>
    decreases v.len(),
{
    if v.len() == 0 {
        None
    } else if v[0].id == id {
        Some(0)
    } else {
        match folder_index(v.drop_first(), id) {
            Some(k) => Some(k + 1),
            None => None,
        }
    }
}

/// Index of the first mailbox with the role.
pub open spec fn role_index(v: Seq<Folder>, role: FolderRole) -> Option<int>
    decreases v.len(),
{
    if v.len() == 0 {
        None
    } else if v[0].role == role {
        Some(0)
    } else {
        match role_index(v.drop_first(), role) {
            Some(k) => Some(k + 1),
            None => None,
        }
    }
}

/// Index of the first message with the identifier.
pub open spec fn message_index(v: Seq<MessageSummary>, id: MessageId) -> Option<int>
    decreases v.len(),
{
    if v.len() == 0 {
        None
    } else if v[0].id == id {
        Some(0)
    } else {
        match message_index(v.drop_first(), id) {
            Some(k) => Some(k + 1),
            None => None,
        }
    }
}

pub proof fn lemma_account_index(v: Seq<Account>, id: AccountId)
    ensures
        account_index(v, id) matches Some(k) ==> 0 <= k < v.len() && v[k].id == id && forall|j: int|
            0 <= j < k ==> v[j].id != id,
        account_index(v, id) is None ==> forall|j: int| 0 <= j < v.len() ==> v[j].id != id,
    decreases v.len(),
{
    if v.len() > 0 {
        lemma_account_index(v.drop_first(), id);
        assert forall|j: int| 0 < j < v.len() implies v[j] == v.drop_first()[j - 1] by {}
    }
}

pub proof fn lemma_folder_index(v: Seq<Folder>, id: FolderId)
    ensures
        folder_index(v, id) matches Some(k) ==> 0 <= k < v.len() && v[k].id == id && forall|j: int|
            0 <= j < k ==> v[j].id != id,
        folder_index(v, id) is None ==> forall|j: int| 0 <= j < v.len() ==> v[j].id != id,
    decreases v.len(),
{
    if v.len() > 0 {
        lemma_folder_index(v.drop_first(), id);
        assert forall|j: int| 0 < j < v.len() implies v[j] == v.drop_first()[j - 1] by {}
    }
}

pub proof fn lemma_role_index(v: Seq<Folder>, role: FolderRole)
    ensures
        role_index(v, role) matches Some(k) ==> 0 <= k < v.len() && v[k].role == role
            && forall|j: int| 0 <= j < k ==> v[j].role != role,
        role_index(v, role) is None ==> forall|j: int| 0 <= j < v.len() ==> v[j].role != role,
    decreases v.len(),
{
    if v.len() > 0 {
        lemma_role_index(v.drop_first(), role);
        assert forall|j: int| 0 < j < v.len() implies v[j] == v.drop_first()[j - 1] by {}
    }
}

pub proof fn lemma_message_index(v: Seq<MessageSummary>, id: MessageId)
    ensures
        message_index(v, id) matches Some(k) ==> 0 <= k < v.len() && v[k].id == id
            && forall|j: int| 0 <= j < k ==> v[j].id != id,
        message_index(v, id) is None ==> forall|j: int| 0 <= j < v.len() ==> v[j].id != id,
    decreases v.len(),
{
    if v.len() > 0 {
        lemma_message_index(v.drop_first(), id);
        assert forall|j: int| 0 < j < v.len() implies v[j] == v.drop_first()[j - 1] by {}
    }
}

fn find_account(v: &Vec<Account>, id: AccountId) -> (r: Option<usize>)
    ensures
        r matches Some(x) ==> x < v@.len(),
        match account_index(v@, id) {
            Some(k) => r matches Some(x) && x == k,
            None => r is None,
        },
{
    proof {
        lemma_account_index(v@, id);
    }
    let mut i: usize = 0;
    while i < v.len()
        invariant
            0 <= i <= v@.len(),
            forall|j: int| 0 <= j < i ==> v@[j].id != id,
        decreases v@.len() - i,
    {
        if v[i].id == id {
            proof {
                lemma_account_index(v@, id);
            }
            return Some(i);
        }
        i = i + 1;
    }
    proof {
        lemma_account_index(v@, id);
    }
    None
}

fn find_folder_by_id(v: &Vec<Folder>, id: FolderId) -> (r: Option<usize>)
    ensures
        r matches Some(x) ==> x < v@.len(),
        match folder_index(v@, id) {
            Some(k) => r matches Some(x) && x == k,
            None => r is None,
        },
{
    proof {
        lemma_folder_index(v@, id);
    }
    let mut i: usize = 0;
    while i < v.len()
        invariant
            0 <= i <= v@.len(),
            forall|j: int| 0 <= j < i ==> v@[j].id != id,
        decreases v@.len() - i,
    {
        if v[i].id == id {
            proof {
                lemma_folder_index(v@, id);
            }
            return Some(i);
        }
        i = i + 1;
    }
    proof {
        lemma_folder_index(v@, id);
    }
    None
}

fn find_role(v: &Vec<Folder>, role: FolderRole) -> (r: Option<usize>)
    ensures
        r matches Some(x) ==> x < v@.len(),
        match role_index(v@, role) {
            Some(k) => r matches Some(x) && x == k,
            None => r is None,
        },
{
    proof {
        lemma_role_index(v@, role);
    }
    let mut i: usize = 0;
    while i < v.len()
        invariant
            0 <= i <= v@.len(),
            forall|j: int| 0 <= j < i ==> v@[j].role != role,
        decreases v@.len() - i,
    {
        if v[i].role == role {
            proof {
                lemma_role_index(v@, role);
            }
            return Some(i);
        }
        i = i + 1;
    }
    proof {
        lemma_role_index(v@, role);
    }
    None
}

fn find_message(v: &Vec<MessageSummary>, id: MessageId) -> (r: Option<usize>)
    ensures
        r matches Some(x) ==> x < v@.len(),
        match message_index(v@, id) {
            Some(k) => r matches Some(x) && x == k,
            None => r is None,
        },
{
    proof {
        lemma_message_index(v@, id);
    }
    let mut i: usize = 0;
    while i < v.len()
        invariant
            0 <= i <= v@.len(),
            forall|j: int| 0 <= j < i ==> v@[j].id != id,
        decreases v@.len() - i,
    {
        if v[i].id == id {
            proof {
                lemma_message_index(v@, id);
            }
            return Some(i);
        }
        i = i + 1;
    }
    proof {
        lemma_message_index(v@, id);
    }
    None
}

/// The mailbox selected after loading the mailboxes: the first Inbox, else the
/// first mailbox.
pub open spec fn preferred_folder(v: Seq<Folder>) -> Option<int> {
    match role_index(v, FolderRole::Inbox) {
        Some(k) => Some(k),
        None => if v.len() > 0 {
            Some(0)
        } else {
            None
        },
    }
}

impl AppState {
    /// Shows a status message, stamped with the time `now_ms`.
    pub fn set_status(&mut self, msg: String, now_ms: u64)
        ensures
            *final(self) == (AppState { status_message: Some((msg, now_ms)), ..*old(self) }),
    {
        self.status_message = Some((msg, now_ms));
    }

    /// The selected account, when it is among the loaded ones.
    pub fn selected_account(&self) -> (r: Option<&Account>)
        ensures
            match self.selected_account_id {
                None => r is None,
                Some(id) => match account_index(self.accounts@, id) {
                    Some(k) => r == Some(&self.accounts@[k]),
                    None => r is None,
                },
            },
    {
        match self.selected_account_id {
            None => None,
            Some(id) => match find_account(&self.accounts, id) {
                Some(k) => Some(&self.accounts[k]),
                None => None,
            },
        }
    }

    /// The selected mailbox, when it is among the loaded ones.
    pub fn selected_folder(&self) -> (r: Option<&Folder>)
        ensures
            match self.selected_folder_id {
                None => r is None,
                Some(id) => match folder_index(self.folders@, id) {
                    Some(k) => r == Some(&self.folders@[k]),
                    None => r is None,
                },
            },
    {
        match self.selected_folder_id {
            None => None,
            Some(id) => match find_folder_by_id(&self.folders, id) {
                Some(k) => Some(&self.folders[k]),
                None => None,
            },
        }
    }

    /// Takes the loaded accounts. When there is an account and the selected one is
    /// missing, the first is selected; its mailboxes are then to be loaded.
    pub fn on_accounts_loaded(&mut self, accounts: Vec<Account>) -> (load: Option<AccountId>)
        ensures
            final(self).accounts@ == accounts@,
            if accounts@.len() > 0 && (old(self).selected_account_id matches Some(id)
                ==> account_index(accounts@, id) is None) {
                load == Some(accounts@[0].id) && *final(self) == (AppState {
                    accounts: final(self).accounts,
                    selected_account_id: Some(accounts@[0].id),
                    ..*old(self)
                })
            } else {
                load is None && *final(self) == (AppState {
                    accounts: final(self).accounts,
                    ..*old(self)
                })
            },
    {
        let prev = self.selected_account_id;
        self.accounts = accounts;
        if self.accounts.len() > 0 {
            let keep = match prev {
                Some(id) => find_account(&self.accounts, id).is_some(),
                None => false,
            };
            if !keep {
                let first = self.accounts[0].id;
                self.selected_account_id = Some(first);
                return Some(first);
            }
        }
        None
    }

    /// Takes the loaded mailboxes. When the selected one is missing, the first
    /// Inbox (else the first mailbox) is selected; its messages are then to be
    /// loaded.
    pub fn on_folders_loaded(&mut self, folders: Vec<Folder>) -> (load: Option<FolderId>)
        ensures
            final(self).folders@ == folders@,
            match preferred_folder(folders@) {
                Some(k) => if old(self).selected_folder_id matches Some(id) ==> folder_index(
                    folders@,
                    id,
                ) is None {
                    load == Some(folders@[k].id) && *final(self) == (AppState {
                        folders: final(self).folders,
                        selected_folder_id: Some(folders@[k].id),
                        ..*old(self)
                    })
                } else {
                    load is None && *final(self) == (AppState {
                        folders: final(self).folders,
                        ..*old(self)
                    })
                },
                None => load is None && *final(self) == (AppState {
                    folders: final(self).folders,
                    ..*old(self)
                }),
            },
    {
        proof {
            lemma_role_index(folders@, FolderRole::Inbox);
        }
        let prev = self.selected_folder_id;
        self.folders = folders;
        let target = match find_role(&self.folders, FolderRole::Inbox) {
            Some(k) => Some(k),
            None => if self.folders.len() > 0 {
                Some(0)
            } else {
                None
            },
        };
        match target {
            Some(k) => {
                let keep = match prev {
                    Some(id) => find_folder_by_id(&self.folders, id).is_some(),
                    None => false,
                };
                if !keep {
                    let fid = self.folders[k].id;
                    self.selected_folder_id = Some(fid);
                    return Some(fid);
                }
                None
            },
            None => None,
        }
    }

    /// Takes the loaded (or found) messages.
    pub fn on_messages_loaded(&mut self, messages: Vec<MessageSummary>)
        ensures
            *final(self) == (AppState { messages, ..*old(self) }),
    {
        self.messages = messages;
    }

    /// Takes the loaded message.
    pub fn on_detail_loaded(&mut self, detail: Option<MessageDetail>)
        ensures
            *final(self) == (AppState { selected_message_detail: detail, ..*old(self) }),
    {
        self.selected_message_detail = detail;
    }
}

/// Whether a message is not the one with identifier `id`.
pub open spec fn other_than(id: MessageId) -> spec_fn(MessageSummary) -> bool {
    |m: MessageSummary| m.id != id
}

/// The messages with `flags` given to the first one with identifier `id`.
pub open spec fn with_flags(v: Seq<MessageSummary>, id: MessageId, flags: MessageFlags) -> Seq<
    MessageSummary,
> {
    match message_index(v, id) {
        Some(k) => v.update(k, MessageSummary { flags, ..v[k] }),
        None => v,
    }
}

/// The loaded detail with `flags` when it shows message `id`.
pub open spec fn detail_with_flags(d: Option<MessageDetail>, id: MessageId, flags: MessageFlags) -> Option<
    MessageDetail,
> {
    match d {
        Some(x) => if x.summary.id == id {
            Some(MessageDetail { summary: MessageSummary { flags, ..x.summary }, ..x })
        } else {
            Some(x)
        },
        None => None,
    }
}

/// The mailboxes with the counts of the first one with identifier `id` replaced.
pub open spec fn with_counts(v: Seq<Folder>, id: FolderId, total: u32, unread: u32) -> Seq<Folder> {
    match folder_index(v, id) {
        Some(k) => v.update(k, Folder { total_count: total, unread_count: unread, ..v[k] }),
        None => v,
    }
}

/// The flags of the listed message `id` (none when it is not listed).
pub open spec fn listed_flags(v: Seq<MessageSummary>, id: MessageId) -> MessageFlags {
    match message_index(v, id) {
        Some(k) => v[k].flags,
        None => no_flags(),
    }
}

impl AppState {
    /// Records new flags of a message, in the list and in the loaded detail.
    pub fn on_flags_updated(&mut self, id: MessageId, flags: MessageFlags)
        ensures
            final(self).messages@ == with_flags(old(self).messages@, id, flags),
            *final(self) == (AppState {
                messages: final(self).messages,
                selected_message_detail: detail_with_flags(
                    old(self).selected_message_detail,
                    id,
                    flags,
                ),
                ..*old(self)
            }),
    {
        match find_message(&self.messages, id) {
            Some(k) => {
                let mut m = self.messages.remove(k);
                m.flags = flags;
                self.messages.insert(k, m);
                assert(self.messages@ =~= with_flags(old(self).messages@, id, flags));
            },
            None => {},
        }
        let mut d: Option<MessageDetail> = None;
        std::mem::swap(&mut d, &mut self.selected_message_detail);
        let d = match d {
            Some(mut x) => {
                if x.summary.id == id {
                    x.summary.flags = flags;
                }
                Some(x)
            },
            None => None,
        };
        self.selected_message_detail = d;
    }

    /// Forgets a deleted message: it leaves the list, and the selection when it was
    /// selected.
    pub fn on_message_deleted(&mut self, id: MessageId)
        ensures
            final(self).messages@ == old(self).messages@.filter(other_than(id)),
            if old(self).selected_message_id == Some(id) {
                *final(self) == (AppState {
                    messages: final(self).messages,
                    selected_message_id: None,
                    selected_message_detail: None,
                    ..*old(self)
                })
            } else {
                *final(self) == (AppState { messages: final(self).messages, ..*old(self) })
            },
    {
        broadcast use vstd::std_specs::vec::axiom_spec_into_iter;
        let mut old_list: Vec<MessageSummary> = Vec::new();
        std::mem::swap(&mut old_list, &mut self.messages);
        let ghost elts = old_list@;
        let mut kept: Vec<MessageSummary> = Vec::new();
        for m in it: old_list.into_iter()
            invariant
                it.seq() == elts,
                kept@ == elts.take(it.index() as int).filter(other_than(id)),
        {
            let ghost i = it.index();
            let ghost before = kept@;
            proof {
                let t = elts.take(i + 1);
                assert(t.drop_last() =~= elts.take(i as int));
                assert(t.last() == m);
                reveal(Seq::filter);
            }
            if m.id != id {
                kept.push(m);
            }
            proof {
                reveal(Seq::filter);
            }
            assert(kept@ == elts.take(i + 1).filter(other_than(id)));
        }
        assert(elts.take(elts.len() as int) =~= elts);
        self.messages = kept;
        if self.selected_message_id == Some(id) {
            self.selected_message_id = None;
            self.selected_message_detail = None;
        }
    }

    /// The service reports new counts for a mailbox of the selected account.
    pub fn on_folder_updated(&mut self, account_id: AccountId, folder_id: FolderId, total: u32, unread: u32)
        ensures
            if old(self).selected_account_id == Some(account_id) {
                final(self).folders@ == with_counts(old(self).folders@, folder_id, total, unread)
            } else {
                final(self).folders@ == old(self).folders@
            },
            *final(self) == (AppState { folders: final(self).folders, ..*old(self) }),
    {
        if self.selected_account_id == Some(account_id) {
            match find_folder_by_id(&self.folders, folder_id) {
                Some(k) => {
                    let mut f = self.folders.remove(k);
                    f.total_count = total;
                    f.unread_count = unread;
                    self.folders.insert(k, f);
                    assert(self.folders@ =~= with_counts(old(self).folders@, folder_id, total, unread));
                },
                None => {},
            }
        }
    }

    /// Whether new messages in a mailbox call for reloading the list: it is the
    /// selected mailbox of the selected account and no search is shown.
    pub fn reload_on_new_messages(&self, account_id: AccountId, folder_id: FolderId) -> (r: bool)
        ensures
            r == (self.selected_account_id == Some(account_id) && self.selected_folder_id == Some(
                folder_id,
            ) && !self.is_searching),
    {
        self.selected_account_id == Some(account_id) && self.selected_folder_id == Some(folder_id)
            && !self.is_searching
    }

    /// The service reports new flags of a message; they are shown when its mailbox
    /// is selected.
    pub fn on_flags_changed(&mut self, folder_id: FolderId, id: MessageId, flags: MessageFlags)
        ensures
            if old(self).selected_folder_id == Some(folder_id) {
                final(self).messages@ == with_flags(old(self).messages@, id, flags) && *final(self)
                    == (AppState {
                    messages: final(self).messages,
                    selected_message_detail: detail_with_flags(
                        old(self).selected_message_detail,
                        id,
                        flags,
                    ),
                    ..*old(self)
                })
            } else {
                *final(self) == *old(self)
            },
    {
        if self.selected_folder_id == Some(folder_id) {
            self.on_flags_updated(id, flags);
        }
    }

    /// The mailbox to synchronise on request: the selected one of the selected
    /// account; a status message says so.
    pub fn request_folder_sync(&mut self, now_ms: u64) -> (r: Option<(AccountId, FolderId)>)
        ensures
            match (old(self).selected_account_id, old(self).selected_folder_id) {
                (Some(a), Some(f)) => r == Some((a, f)) && (final(self).status_message matches Some(
                    (m, t),
                ) && m@ == "Synchronizing folder..."@ && t == now_ms) && *final(self) == (AppState {
                    status_message: final(self).status_message,
                    ..*old(self)
                }),
                _ => r is None && *final(self) == *old(self),
            },
    {
        match (self.selected_account_id, self.selected_folder_id) {
            (Some(a), Some(f)) => {
                self.set_status("Synchronizing folder...".to_owned(), now_ms);
                Some((a, f))
            },
            _ => None,
        }
    }

    /// The mailbox list of the selected account is to be refreshed; a status message
    /// says so.
    pub fn request_folders_sync(&mut self, now_ms: u64) -> (r: Option<AccountId>)
        ensures
            match old(self).selected_account_id {
                Some(a) => r == Some(a) && (final(self).status_message matches Some((m, t)) && m@
                    == "Synchronizing folders..."@ && t == now_ms) && *final(self) == (AppState {
                    status_message: final(self).status_message,
                    ..*old(self)
                }),
                None => r is None && *final(self) == *old(self),
            },
    {
        match self.selected_account_id {
            Some(a) => {
                self.set_status("Synchronizing folders...".to_owned(), now_ms);
                Some(a)
            },
            None => None,
        }
    }

    /// A search starts; it runs over the selected account, if any.
    pub fn start_search(&mut self) -> (r: Option<AccountId>)
        ensures
            r == old(self).selected_account_id,
            *final(self) == (AppState { is_searching: true, ..*old(self) }),
    {
        self.is_searching = true;
        self.selected_account_id
    }

    /// The search is cleared; the selected mailbox's messages are to be reloaded.
    pub fn clear_search(&mut self) -> (r: Option<FolderId>)
        ensures
            r == old(self).selected_folder_id,
            *final(self) == (AppState { is_searching: false, ..*old(self) }),
    {
        self.is_searching = false;
        self.selected_folder_id
    }

    /// Another account is selected: the mailbox, message and list are cleared.
    pub fn select_account(&mut self, id: AccountId)
        ensures
            final(self).messages@.len() == 0,
            *final(self) == (AppState {
                selected_account_id: Some(id),
                selected_folder_id: None,
                selected_message_id: None,
                selected_message_detail: None,
                messages: final(self).messages,
                ..*old(self)
            }),
    {
        self.selected_account_id = Some(id);
        self.selected_folder_id = None;
        self.selected_message_id = None;
        self.selected_message_detail = None;
        self.messages.clear();
    }

    /// Another mailbox is selected: the message selection is cleared.
    pub fn select_folder(&mut self, id: FolderId)
        ensures
            *final(self) == (AppState {
                selected_folder_id: Some(id),
                selected_message_id: None,
                selected_message_detail: None,
                ..*old(self)
            }),
    {
        self.selected_folder_id = Some(id);
        self.selected_message_id = None;
        self.selected_message_detail = None;
    }

    /// A message is selected; its detail is to be loaded.
    pub fn select_message(&mut self, id: MessageId)
        ensures
            *final(self) == (AppState { selected_message_id: Some(id), ..*old(self) }),
    {
        self.selected_message_id = Some(id);
    }

    /// The flags to store when the star of message `id` is set to `flagged`.
    pub fn flags_with_flagged(&self, id: MessageId, flagged: bool) -> (r: MessageFlags)
        ensures
            r == (MessageFlags { flagged, ..listed_flags(self.messages@, id) }),
    {
        let mut f = match find_message(&self.messages, id) {
            Some(k) => self.messages[k].flags,
            None => MessageFlags::default(),
        };
        f.flagged = flagged;
        f
    }

    /// The flags to store when message `id` is marked `seen`.
    pub fn flags_with_seen(&self, id: MessageId, seen: bool) -> (r: MessageFlags)
        ensures
            r == (MessageFlags { seen, ..listed_flags(self.messages@, id) }),
    {
        let mut f = match find_message(&self.messages, id) {
            Some(k) => self.messages[k].flags,
            None => MessageFlags::default(),
        };
        f.seen = seen;
        f
    }
}

} // verus!
