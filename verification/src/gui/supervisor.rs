//! The supervisor process: the messages it exchanges with the window process and
//! with later invocations, and its decisions about them.

use vstd::prelude::*;

use crate::folder::Folder;
use crate::gui::actions::{CliCommand, TrayCommand};
use crate::ids::{AccountId, FolderId, MessageId, OutboxId};
use crate::imap::error::{imap_error_text, ImapError};
use crate::message::MessageFlags;
use crate::outbox::OutboxStatus;
use crate::scan::{trim, trim_bounds};
use crate::text::{chars_eq_str, chars_of, dec, push_decimal, push_str};

verus! {

/// Requests of the window process.
#[derive(Debug, Clone, PartialEq, Eq)]
pub enum GuiToSupervisor {
    Hello,
    SyncAccountFolders { account_id: AccountId },
    SyncFolder { account_id: AccountId, folder_id: FolderId },
    DispatchOutbox { account_id: AccountId },
    AccountAdded { account_id: AccountId },
}

/// Notices to the window process.
#[derive(Debug, Clone, PartialEq, Eq)]
pub enum SupervisorToGui {
    Focus,
    Compose,
    StatusMessage { message: String },
    FolderUpdated { account_id: AccountId, folder_id: FolderId, total_count: u32, unread_count: u32 },
    NewMessages { account_id: AccountId, folder_id: FolderId, count: u32 },
    FlagsChanged { folder_id: FolderId, message_id: MessageId, flags: MessageFlags },
}

/// What the background engine reports.
#[derive(Debug, Clone, PartialEq, Eq)]
pub enum AppEvent {
    FolderUpdated { account_id: AccountId, folder_id: FolderId, total_count: u32, unread_count: u32 },
    NewMessages { account_id: AccountId, folder_id: FolderId, count: u32 },
    FlagsChanged { folder_id: FolderId, message_id: MessageId, flags: MessageFlags },
    OutboxStatusChanged { account_id: AccountId, outbox_id: OutboxId, status: OutboxStatus },
    SyncProgress { account_id: AccountId, message: String },
}

/// The request a new invocation hands to a running instance.
pub fn initial_command(compose: bool) -> (r: CliCommand)
    ensures
        r == (if compose {
            CliCommand::Compose
        } else {
            CliCommand::Show
        }),
{
    if compose {
        CliCommand::Compose
    } else {
        CliCommand::Show
    }
}

/// A first line that is the bare word `show` or `compose` (after trimming).
pub fn plain_cli_word(line: &str) -> (r: Option<CliCommand>)
    ensures
        r == (if trim(line@) == "show"@ {
            Some(CliCommand::Show)
        } else if trim(line@) == "compose"@ {
            Some(CliCommand::Compose)
        } else {
            None
        }),
{
    let v = chars_of(line);
    let n = v.len();
    assert(v@.subrange(0, n as int) =~= v@);
    let (a, b) = trim_bounds(v.as_slice(), 0, n);
    let t = &v.as_slice()[a..b];
    if chars_eq_str(t, "show") {
        Some(CliCommand::Show)
    } else if chars_eq_str(t, "compose") {
        Some(CliCommand::Compose)
    } else {
        None
    }
}

/// Who opened a connection to the supervisor socket, told by its first line.
#[derive(Debug, Clone, Copy, PartialEq, Eq, Structural)]
pub enum Caller {
    /// A later invocation with its request; it is answered `ok`.
    Cli(CliCommand),
    /// The window process, greeting; it stays connected.
    Window,
    /// Anything else; the connection is dropped.
    Unknown,
}

/// The spec of the first-line rule: a request in JSON first, then a bare word,
/// then the window's greeting.
pub open spec fn caller_of(json_request: Option<CliCommand>, line: Seq<char>, json_hello: bool) -> Caller {
    match json_request {
        Some(c) => Caller::Cli(c),
        None => if trim(line) == "show"@ {
            Caller::Cli(CliCommand::Show)
        } else if trim(line) == "compose"@ {
            Caller::Cli(CliCommand::Compose)
        } else if json_hello {
            Caller::Window
        } else {
            Caller::Unknown
        },
    }
}

/// Who is calling, from the first line: `json_request` is the request the line
/// holds as JSON, if any, and `json_hello` whether it holds the window's greeting.
pub fn first_line_caller(json_request: Option<CliCommand>, line: &str, json_hello: bool) -> (r: Caller)
    ensures
        r == caller_of(json_request, line@, json_hello),
{
    match json_request {
        Some(c) => Caller::Cli(c),
        None => match plain_cli_word(line) {
            Some(c) => Caller::Cli(c),
            None => if json_hello {
                Caller::Window
            } else {
                Caller::Unknown
            },
        },
    }
}

/// Whether the running instance acknowledged a request: its reply, trimmed, is
/// `ok`.
pub fn reply_is_ok(reply: &str) -> (r: bool)
    ensures
        r == (trim(reply@) == "ok"@),
{
    let v = chars_of(reply);
    let n = v.len();
    assert(v@.subrange(0, n as int) =~= v@);
    let (a, b) = trim_bounds(v.as_slice(), 0, n);
    chars_eq_str(&v.as_slice()[a..b], "ok")
}

/// How the window is brought up.
#[derive(Debug, Clone, PartialEq, Eq)]
pub enum SurfaceAction {
    /// The window process is connected: ask it to focus or to compose.
    Notify(SupervisorToGui),
    /// Start a window process with these arguments (after reaping a stale one).
    Spawn(Vec<String>),
}

/// Brings the window up, composing when asked: a connected window is notified;
/// otherwise a new window process is started with `--gui` (and `--compose`).
pub fn surface_action(gui_connected: bool, compose: bool) -> (r: SurfaceAction)
    ensures
        gui_connected ==> r == SurfaceAction::Notify(
            if compose {
                SupervisorToGui::Compose
            } else {
                SupervisorToGui::Focus
            },
        ),
        !gui_connected ==> (r matches SurfaceAction::Spawn(args) && args@.map_values(
            |s: String| s@,
        ) == (if compose {
            seq!["--gui"@, "--compose"@]
        } else {
            seq!["--gui"@]
        })),
{
    if gui_connected {
        SurfaceAction::Notify(
            if compose {
                SupervisorToGui::Compose
            } else {
                SupervisorToGui::Focus
            },
        )
    } else {
        let mut args: Vec<String> = Vec::new();
        args.push("--gui".to_owned());
        if compose {
            args.push("--compose".to_owned());
        }
        assert(args@.map_values(|s: String| s@) =~= (if compose {
            seq!["--gui"@, "--compose"@]
        } else {
            seq!["--gui"@]
        }));
        SurfaceAction::Spawn(args)
    }
}

/// What the supervisor does with a tray request: bring the window up (composing or
/// not), or quit.
pub fn tray_decision(cmd: TrayCommand) -> (r: Option<bool>)
    ensures
        r == (match cmd {
            TrayCommand::Show => Some(false),
            TrayCommand::Compose => Some(true),
            TrayCommand::Quit => None,
        }),
{
    match cmd {
        TrayCommand::Show => Some(false),
        TrayCommand::Compose => Some(true),
        TrayCommand::Quit => None,
    }
}

/// The notice the window gets for an engine event: mailbox counts, new messages
/// and flag changes are passed on; the rest is not.
pub fn forward_event(e: &AppEvent) -> (r: Option<SupervisorToGui>)
    ensures
        match *e {
            AppEvent::FolderUpdated { account_id, folder_id, total_count, unread_count } => r
                == Some(
                SupervisorToGui::FolderUpdated { account_id, folder_id, total_count, unread_count },
            ),
            AppEvent::NewMessages { account_id, folder_id, count } => r == Some(
                SupervisorToGui::NewMessages { account_id, folder_id, count },
            ),
            AppEvent::FlagsChanged { folder_id, message_id, flags } => r == Some(
                SupervisorToGui::FlagsChanged { folder_id, message_id, flags },
            ),
            _ => r is None,
        },
{
    match e {
        AppEvent::FolderUpdated { account_id, folder_id, total_count, unread_count } => Some(
            SupervisorToGui::FolderUpdated {
                account_id: *account_id,
                folder_id: *folder_id,
                total_count: *total_count,
                unread_count: *unread_count,
            },
        ),
        AppEvent::NewMessages { account_id, folder_id, count } => Some(
            SupervisorToGui::NewMessages {
                account_id: *account_id,
                folder_id: *folder_id,
                count: *count,
            },
        ),
        AppEvent::FlagsChanged { folder_id, message_id, flags } => Some(
            SupervisorToGui::FlagsChanged {
                folder_id: *folder_id,
                message_id: *message_id,
                flags: *flags,
            },
        ),
        _ => None,
    }
}

/// The status line after a requested synchronisation of a mailbox.
pub fn sync_status_message(result: &Result<u32, ImapError>) -> (r: String)
    ensures
        match *result {
            Ok(n) => r@ == "Synced "@ + dec(n as nat) + " messages"@,
            Err(e) => r@ == "Sync error: "@ + imap_error_text(e),
        },
{
    match result {
        Ok(n) => {
            let mut s = "Synced ".to_owned();
            push_decimal(&mut s, *n as u64);
            push_str(&mut s, " messages");
            s
        },
        Err(e) => {
            let mut s = "Sync error: ".to_owned();
            let t = e.to_text();
            push_str(&mut s, t.as_str());
            s
        },
    }
}

/// The sum of the unread counts of mailboxes.
pub open spec fn unread_sum(v: Seq<Folder>) -> nat
    decreases v.len(),
{
    if v.len() == 0 {
        0
    } else {
        unread_sum(v.drop_last()) + v.last().unread_count as nat
    }
}

/// The number shown on the tray: all unread messages of all mailboxes.
pub fn total_unread(folders: &Vec<Folder>) -> (r: u32)
    requires
        unread_sum(folders@) <= u32::MAX,
    ensures
        r == unread_sum(folders@),
{
    let mut total: u32 = 0;
    let mut i: usize = 0;
    while i < folders.len()
        invariant
            0 <= i <= folders@.len(),
            unread_sum(folders@) <= u32::MAX,
            total == unread_sum(folders@.take(i as int)),
        decreases folders@.len() - i,
    {
        proof {
            assert(folders@.take(i + 1).drop_last() =~= folders@.take(i as int));
            lemma_unread_sum_prefix(folders@, i + 1);
        }
        total = total + folders[i].unread_count;
        i = i + 1;
    }
    assert(folders@.take(folders@.len() as int) =~= folders@);
    total
}

/// A prefix has no more unread messages than the whole.
pub proof fn lemma_unread_sum_prefix(v: Seq<Folder>, k: int)
    requires
        0 <= k <= v.len(),
    ensures
        unread_sum(v.take(k)) <= unread_sum(v),
    decreases v.len() - k,
{
    if k < v.len() {
        lemma_unread_sum_prefix(v, k + 1);
        assert(v.take(k + 1).drop_last() =~= v.take(k));
    } else {
        assert(v.take(k) =~= v);
    }
}

/// The accounts whose background workers run; each appears once.
#[derive(Debug, Clone)]
pub struct WorkerSet {
    pub running: Vec<AccountId>,
}

impl WorkerSet {
    pub open spec fn wf(&self) -> bool {
        self.running@.no_duplicates()
    }

    pub fn new() -> (r: Self)
        ensures
            r.wf(),
            r.running@.len() == 0,
    {
        WorkerSet { running: Vec::new() }
    }

    /// Registers a worker for the account, unless one runs already; says whether
    /// one is to be started.
    pub fn start(&mut self, id: AccountId) -> (started: bool)
        requires
            old(self).wf(),
        ensures
            final(self).wf(),
            started == !old(self).running@.contains(id),
            started ==> final(self).running@ == old(self).running@.push(id),
            !started ==> final(self).running@ == old(self).running@,
    {
        let mut i: usize = 0;
        while i < self.running.len()
            invariant
                0 <= i <= self.running@.len(),
                self.running@ == old(self).running@,
                old(self).running@.no_duplicates(),
                forall|j: int| 0 <= j < i ==> self.running@[j] != id,
            decreases self.running@.len() - i,
        {
            if self.running[i] == id {
                return false;
            }
            i = i + 1;
        }
        self.running.push(id);
        proof {
            assert forall|a: int, b: int|
                0 <= a < b < self.running@.len() implies self.running@[a] != self.running@[b] by {
                if b == self.running@.len() - 1 {
                    assert(old(self).running@[a] != id);
                } else {
                    assert(old(self).running@.no_duplicates());
                }
            }
        }
        true
    }

    /// Unregisters the worker of the account; says whether one ran (and is to be
    /// told to stop).
    pub fn stop(&mut self, id: AccountId) -> (stopped: bool)
        requires
            old(self).wf(),
        ensures
            final(self).wf(),
            stopped == old(self).running@.contains(id),
            final(self).running@.to_set() == old(self).running@.to_set().remove(id),
    {
        let mut i: usize = 0;
        while i < self.running.len()
            invariant
                0 <= i <= self.running@.len(),
                self.running@ == old(self).running@,
                old(self).running@.no_duplicates(),
                forall|j: int| 0 <= j < i ==> self.running@[j] != id,
            decreases self.running@.len() - i,
        {
            if self.running[i] == id {
                self.running.remove(i);
                proof {
                    let o = old(self).running@;
                    assert(self.running@ =~= o.remove(i as int));
                    assert forall|a: int, b: int|
                        0 <= a < b < self.running@.len() implies self.running@[a]
                        != self.running@[b] by {
                        let a2 = if a < i { a } else { a + 1 };
                        let b2 = if b < i { b } else { b + 1 };
                        assert(self.running@[a] == o[a2]);
                        assert(self.running@[b] == o[b2]);
                    }
                    assert forall|x: AccountId| #[trigger] self.running@.to_set().contains(x)
                        == o.to_set().remove(id).contains(x) by {
                        if self.running@.contains(x) {
                            let k = choose|k: int| 0 <= k < self.running@.len() && self.running@[k] == x;
                            let k2 = if k < i { k } else { k + 1 };
                            assert(o[k2] == x);
                            assert(x != id);
                        }
                        if o.contains(x) && x != id {
                            let k = choose|k: int| 0 <= k < o.len() && o[k] == x;
                            assert(k != i);
                            let k2 = if k < i { k } else { k - 1 };
                            assert(self.running@[k2] == x);
                        }
                    }
                    assert(self.running@.to_set() =~= o.to_set().remove(id));
                }
                return true;
            }
            i = i + 1;
        }
        assert(!self.running@.contains(id));
        assert(self.running@.to_set() =~= old(self).running@.to_set().remove(id));
        false
    }
}

} // verus!
