//! The decisions of synchronisation: which mailboxes are new, where fetching
//! starts, which fetched messages are imported, what server work a queued
//! mutation needs, and how the IDLE worker reacts.

use vstd::prelude::*;

use crate::folder::Folder;
use crate::ids::{AccountId, FolderId};
use crate::imap::client::{RemoteFolderInfo, SelectedFolderState};
use crate::imap::error::{imap_error_text, ImapError};
use crate::imap::response::{opt_str_view, FetchResponse, UntaggedResponse};
use crate::message::{flags_bits, no_flags, MessageFlags};
use crate::mutation::MutationType;
use crate::text::{chars_eq_slice, chars_of, dec, push_decimal, push_str, string_of_range};

verus! {

/// Counters of one synchronisation run.
#[derive(Debug, Clone, Copy, PartialEq, Eq, Structural)]
pub struct SyncStats {
    pub messages_fetched: u32,
    pub messages_updated: u32,
    pub errors: u32,
}

impl Default for SyncStats {
    fn default() -> (r: Self)
        ensures
            r.messages_fetched == 0 && r.messages_updated == 0 && r.errors == 0,
    {
        SyncStats { messages_fetched: 0, messages_updated: 0, errors: 0 }
    }
}

/// Scanning `s` from `i` for non-overlapping occurrences of `d`, the piece after
/// the last one (`start` is where the current piece began).
pub open spec fn last_piece_from(s: Seq<char>, d: Seq<char>, start: int, i: int) -> Seq<char>
    decreases s.len() - i,
{
    if d.len() == 0 || i < 0 {
        seq![]
    } else if i + d.len() > s.len() {
        s.subrange(start, s.len() as int)
    } else if s.subrange(i, i + d.len()) == d {
        last_piece_from(s, d, i + d.len(), i + d.len())
    } else {
        last_piece_from(s, d, start, i + 1)
    }
}

/// `s.split(d).last()`: the text after the last occurrence of `d`, occurrences
/// taken from the left without overlap.
pub open spec fn split_last(s: Seq<char>, d: Seq<char>) -> Seq<char> {
    last_piece_from(s, d, 0, 0)
}

/// The name a new mailbox is shown under: the last segment of its name, split at
/// its hierarchy delimiter (`/` when the server gave none).
pub open spec fn display_name_of(name: Seq<char>, delimiter: Option<Seq<char>>) -> Seq<char> {
    split_last(
        name,
        match delimiter {
            Some(d) => d,
            None => "/"@,
        },
    )
}

/// The last segment of `name` split at `delim`.
pub fn last_segment(name: &str, delim: &str) -> (r: String)
    ensures
        r@ == split_last(name@, delim@),
{
    let s = chars_of(name);
    let d = chars_of(delim);
    let n = s.len();
    let m = d.len();
    if m == 0 {
        return String::new();
    }
    let mut start: usize = 0;
    let mut i: usize = 0;
    while m <= n - i
        invariant
            s@ == name@,
            d@ == delim@,
            n == s@.len(),
            m == d@.len(),
            m > 0,
            start <= i <= n,
            split_last(name@, delim@) == last_piece_from(s@, d@, start as int, i as int),
        decreases n - i,
    {
        if chars_eq_slice(&s.as_slice()[i..i + m], d.as_slice()) {
            assert(s@.subrange(i as int, i + m) == d@);
            i = i + m;
            start = i;
        } else {
            i = i + 1;
        }
    }
    string_of_range(s.as_slice(), start, n)
}

/// The display name of a new mailbox.
pub fn folder_display_name(name: &str, delimiter: &Option<String>) -> (r: String)
    ensures
        r@ == display_name_of(name@, opt_str_view(*delimiter)),
{
    match delimiter {
        Some(d) => last_segment(name, d.as_str()),
        None => last_segment(name, "/"),
    }
}

/// Index of the first stored mailbox with the given server name.
pub open spec fn find_folder(existing: Seq<Folder>, name: Seq<char>) -> Option<int>
    decreases existing.len(),
{
    if existing.len() == 0 {
        None
    } else if existing[0].remote_name@ == name {
        Some(0)
    } else {
        match find_folder(existing.drop_first(), name) {
            Some(k) => Some(k + 1),
            None => None,
        }
    }
}

/// `f` is stored mailbox `e` with the delimiter the server now reports.
pub open spec fn folder_refreshed(f: Folder, e: Folder, delimiter: Option<Seq<char>>) -> bool {
    &&& f.id == e.id
    &&& f.account_id == e.account_id
    &&& f.remote_name@ == e.remote_name@
    &&& f.display_name@ == e.display_name@
    &&& opt_str_view(f.delimiter) == delimiter
    &&& f.role == e.role
    &&& f.uid_validity == e.uid_validity
    &&& f.uid_next == e.uid_next
    &&& f.total_count == e.total_count
    &&& f.unread_count == e.unread_count
}

/// `f` is a new mailbox of `account` for the listed mailbox `r`.
pub open spec fn folder_created(f: Folder, account: AccountId, r: RemoteFolderInfo) -> bool {
    &&& f.account_id == account
    &&& f.remote_name@ == r.name@
    &&& f.display_name@ == display_name_of(r.name@, opt_str_view(r.delimiter))
    &&& opt_str_view(f.delimiter) == opt_str_view(r.delimiter)
    &&& f.role == r.role
    &&& f.uid_validity is None
    &&& f.uid_next is None
    &&& f.total_count == 0
    &&& f.unread_count == 0
}

/// A mailbox after synchronisation of the list, and whether it has to be stored
/// as new.
#[derive(Debug, Clone)]
pub struct SyncedFolder {
    pub folder: Folder,
    pub is_new: bool,
}

fn clone_opt_string(o: &Option<String>) -> (r: Option<String>)
    ensures
        opt_str_view(r) == opt_str_view(*o),
{
    match o {
        Some(s) => Some(s.clone()),
        None => None,
    }
}

/// A found mailbox lies in the list and has the name.
pub proof fn lemma_find_folder_bound(existing: Seq<Folder>, name: Seq<char>)
    ensures
        find_folder(existing, name) matches Some(k) ==> 0 <= k < existing.len()
            && existing[k].remote_name@ == name,
    decreases existing.len(),
{
    if existing.len() > 0 && existing[0].remote_name@ != name {
        lemma_find_folder_bound(existing.drop_first(), name);
    }
}

fn lookup_folder(existing: &Vec<Folder>, name: &str) -> (r: Option<usize>)
    ensures
        r matches Some(x) ==> x < existing@.len(),
        match find_folder(existing@, name@) {
            Some(k) => r matches Some(x) && x == k,
            None => r is None,
        },
{
    proof {
        lemma_find_folder_bound(existing@, name@);
    }
    let mut i: usize = 0;
    let target = chars_of(name);
    assert(existing@.skip(0) =~= existing@);
    while i < existing.len()
        invariant
            0 <= i <= existing@.len(),
            target@ == name@,
            find_folder(existing@, name@) == (match find_folder(existing@.skip(i as int), name@) {
                Some(k) => Some(k + i),
                None => None,
            }),
        decreases existing@.len() - i,
    {
        let ghost rest = existing@.skip(i as int);
        assert(rest.drop_first() =~= existing@.skip(i + 1));
        assert(rest[0] == existing@[i as int]);
        if chars_eq_slice(chars_of(existing[i].remote_name.as_str()).as_slice(), target.as_slice()) {
            return Some(i);
        }
        i = i + 1;
    }
    assert(existing@.skip(i as int).len() == 0);
    None
}

/// The mailboxes of an account after `LIST`: each listed mailbox, in order, either
/// the stored one of the same server name with the current delimiter, or a new
/// one (to be stored) with its display name derived from the server name.
pub fn sync_folder_list(
    account_id: AccountId,
    remote: &Vec<RemoteFolderInfo>,
    existing: &Vec<Folder>,
) -> (r: Vec<SyncedFolder>)
    ensures
        r@.len() == remote@.len(),
        forall|i: int|
            0 <= i < r@.len() ==> match find_folder(existing@, (#[trigger] remote@[i]).name@) {
                Some(k) => !r@[i].is_new && folder_refreshed(
                    r@[i].folder,
                    existing@[k],
                    opt_str_view(remote@[i].delimiter),
                ),
                None => r@[i].is_new && folder_created(r@[i].folder, account_id, remote@[i]),
            },
{
    let mut r: Vec<SyncedFolder> = Vec::new();
    let mut i: usize = 0;
    while i < remote.len()
        invariant
            0 <= i <= remote@.len(),
            r@.len() == i,
            forall|j: int|
                0 <= j < i ==> match find_folder(existing@, (#[trigger] remote@[j]).name@) {
                    Some(k) => !r@[j].is_new && folder_refreshed(
                        r@[j].folder,
                        existing@[k],
                        opt_str_view(remote@[j].delimiter),
                    ),
                    None => r@[j].is_new && folder_created(r@[j].folder, account_id, remote@[j]),
                },
        decreases remote@.len() - i,
    {
        let rf = &remote[i];
        match lookup_folder(existing, rf.name.as_str()) {
            Some(k) => {
                let e = &existing[k];
                let f = Folder {
                    id: e.id,
                    account_id: e.account_id,
                    remote_name: e.remote_name.clone(),
                    display_name: e.display_name.clone(),
                    delimiter: clone_opt_string(&rf.delimiter),
                    role: e.role,
                    uid_validity: e.uid_validity,
                    uid_next: e.uid_next,
                    total_count: e.total_count,
                    unread_count: e.unread_count,
                };
                r.push(SyncedFolder { folder: f, is_new: false });
            },
            None => {
                let display = folder_display_name(rf.name.as_str(), &rf.delimiter);
                let f = Folder::new(
                    account_id,
                    rf.name.as_str(),
                    display.as_str(),
                    clone_opt_string(&rf.delimiter),
                    rf.role,
                );
                r.push(SyncedFolder { folder: f, is_new: true });
            },
        }
        i = i + 1;
    }
    r
}

/// Whether the server's UIDVALIDITY differs from the stored one (both known).
pub fn uid_validity_changed(local: Option<u32>, remote: Option<u32>) -> (r: bool)
    ensures
        r == (local matches Some(l) && remote matches Some(x) && l != x),
{
    match (local, remote) {
        (Some(l), Some(x)) => l != x,
        _ => false,
    }
}

/// The first UID to fetch: 1 after a UIDVALIDITY change or for an empty mailbox,
/// else one past the highest stored UID.
pub fn start_uid(validity_changed: bool, max_stored_uid: Option<u32>) -> (r: u32)
    requires
        max_stored_uid != Some(u32::MAX),
    ensures
        r == (if validity_changed {
            1
        } else {
            match max_stored_uid {
                Some(u) => (u + 1) as u32,
                None => 1,
            }
        }),
{
    if validity_changed {
        1
    } else {
        match max_stored_uid {
            Some(u) => u + 1,
            None => 1,
        }
    }
}

/// The UID range from `start` to the end: `start:*`.
pub fn fetch_range(start: u32) -> (r: String)
    ensures
        r@ == dec(start as nat) + ":*"@,
{
    let mut s = String::new();
    push_decimal(&mut s, start as u64);
    push_str(&mut s, ":*");
    s
}

/// A fetched message to import: its UID and flags (none when the server sent
/// none), when it has a UID and a body and its UID is not below `start`.
pub fn import_candidate(fetch: &FetchResponse, start: u32) -> (r: Option<(u32, MessageFlags)>)
    ensures
        match (fetch.uid, fetch.rfc822_body) {
            (Some(uid), Some(_)) => if uid < start {
                r is None
            } else {
                r == Some(
                    (
                        uid,
                        match fetch.flags {
                            Some(f) => f,
                            None => no_flags(),
                        },
                    ),
                )
            },
            _ => r is None,
        },
{
    match (fetch.uid, &fetch.rfc822_body) {
        (Some(uid), Some(_)) => {
            if uid < start {
                None
            } else {
                let flags = match fetch.flags {
                    Some(f) => f,
                    None => MessageFlags::default(),
                };
                Some((uid, flags))
            }
        },
        _ => None,
    }
}

/// Whether a line received during IDLE calls for a synchronisation.
pub fn push_needs_sync(u: &UntaggedResponse) -> (r: bool)
    ensures
        r == (u@ is Exists || u@ is Recent || u@ is Fetch || u@ is Expunge),
{
    match u {
        UntaggedResponse::Exists(_) => true,
        UntaggedResponse::Recent(_) => true,
        UntaggedResponse::Fetch(_) => true,
        UntaggedResponse::Expunge(_) => true,
        _ => false,
    }
}

/// The pause before the next reconnection attempt: twice the last one, at most a
/// minute.
pub fn next_backoff_secs(secs: u64) -> (r: u64)
    ensures
        r == (if 2 * secs < 60 {
            2 * secs
        } else {
            60
        }),
{
    if secs < 30 {
        2 * secs
    } else {
        60
    }
}

/// One server command of a replayed mutation.
#[derive(Debug, Clone, PartialEq, Eq)]
pub enum ServerOp {
    Select { mailbox: String },
    StoreFlags { uid: u32, add: bool, flags: MessageFlags },
    Move { uid: u32, target: String },
    Delete { uid: u32 },
}

/// What a mutation comes to once its mailboxes were looked up.
#[derive(Debug, Clone)]
pub enum MutationPlan {
    /// Nothing to do on the server: the mutation is complete.
    Nothing,
    /// The mutation fails with this error.
    Fail(ImapError),
    /// These commands, in order.
    Run(Vec<ServerOp>),
}

/// The mailboxes (stored ids) a mutation needs looked up, in order.
pub open spec fn folders_needed_spec(m: MutationType) -> Seq<FolderId> {
    match m {
        MutationType::SetFlags { folder_id, uid, .. } => if uid is Some {
            seq![folder_id]
        } else {
            seq![]
        },
        MutationType::MoveMessage { source_folder_id, target_folder_id, .. } => seq![
            source_folder_id,
            target_folder_id,
        ],
        MutationType::DeleteMessage { folder_id, .. } => seq![folder_id],
        MutationType::SendMail { .. } => seq![],
    }
}

/// The mailboxes a mutation needs looked up.
pub fn folders_needed(m: &MutationType) -> (r: Vec<FolderId>)
    ensures
        r@ == folders_needed_spec(*m),
{
    match m {
        MutationType::SetFlags { folder_id, uid, .. } => {
            if uid.is_some() {
                vec![*folder_id]
            } else {
                Vec::new()
            }
        },
        MutationType::MoveMessage { source_folder_id, target_folder_id, .. } => vec![
            *source_folder_id,
            *target_folder_id,
        ],
        MutationType::DeleteMessage { folder_id, .. } => vec![*folder_id],
        MutationType::SendMail { .. } => Vec::new(),
    }
}

pub enum OpView {
    Select(Seq<char>),
    StoreFlags(u32, bool, MessageFlags),
    Move(u32, Seq<char>),
    Delete(u32),
}

impl View for ServerOp {
    type V = OpView;

    open spec fn view(&self) -> OpView {
        match self {
            ServerOp::Select { mailbox } => OpView::Select(mailbox@),
            ServerOp::StoreFlags { uid, add, flags } => OpView::StoreFlags(*uid, *add, *flags),
            ServerOp::Move { uid, target } => OpView::Move(*uid, target@),
            ServerOp::Delete { uid } => OpView::Delete(*uid),
        }
    }
}

pub open spec fn ops_view(v: Seq<ServerOp>) -> Seq<OpView> {
    v.map_values(|o: ServerOp| o@)
}

/// The plan of a mutation, given the server names of the mailboxes looked up
/// (`None` for one not found): for flags, select the mailbox and store the added
/// then the removed flags (each only when some flag is set); for a move, select
/// the source and move; for a delete, select and mark deleted.
pub open spec fn plan_spec(m: MutationType, found: Seq<Option<Seq<char>>>) -> Result<
    Option<Seq<OpView>>,
    Seq<char>,
> {
    match m {
        MutationType::SetFlags { uid, add_flags, remove_flags, .. } => match uid {
            None => Ok(None),
            Some(u) => match found[0] {
                None => Err("Folder not found"@),
                Some(name) => {
                    let ops = seq![OpView::Select(name)];
                    let ops = if flags_bits(add_flags) != 0 {
                        ops.push(OpView::StoreFlags(u, true, add_flags))
                    } else {
                        ops
                    };
                    let ops = if flags_bits(remove_flags) != 0 {
                        ops.push(OpView::StoreFlags(u, false, remove_flags))
                    } else {
                        ops
                    };
                    Ok(Some(ops))
                },
            },
        },
        MutationType::MoveMessage { source_uid, .. } => match (source_uid, found[0], found[1]) {
            (Some(u), Some(src), Some(tgt)) => Ok(
                Some(seq![OpView::Select(src), OpView::Move(u, tgt)]),
            ),
            _ => Err("Source or target folder not found"@),
        },
        MutationType::DeleteMessage { uid, .. } => match (uid, found[0]) {
            (Some(u), Some(name)) => Ok(Some(seq![OpView::Select(name), OpView::Delete(u)])),
            _ => Err("Folder not found"@),
        },
        MutationType::SendMail { .. } => Ok(None),
    }
}

pub open spec fn found_view(v: Seq<Option<String>>) -> Seq<Option<Seq<char>>> {
    v.map_values(|o: Option<String>| opt_str_view(o))
}

/// The flags a message has on the server after a `UID STORE` of `f`: `+FLAGS`
/// (add) sets them, `-FLAGS` clears them, and the others stay.
pub open spec fn after_store(cur: MessageFlags, add: bool, f: MessageFlags) -> MessageFlags {
    if add {
        MessageFlags {
            seen: cur.seen || f.seen,
            flagged: cur.flagged || f.flagged,
            answered: cur.answered || f.answered,
            draft: cur.draft || f.draft,
            deleted: cur.deleted || f.deleted,
        }
    } else {
        MessageFlags {
            seen: cur.seen && !f.seen,
            flagged: cur.flagged && !f.flagged,
            answered: cur.answered && !f.answered,
            draft: cur.draft && !f.draft,
            deleted: cur.deleted && !f.deleted,
        }
    }
}

/// The flags a message has on the server after the flag stores among `ops`, in
/// order; other commands leave them.
pub open spec fn after_ops(cur: MessageFlags, ops: Seq<OpView>) -> MessageFlags
    decreases ops.len(),
{
    if ops.len() == 0 {
        cur
    } else {
        let before = after_ops(cur, ops.drop_last());
        match ops.last() {
            OpView::StoreFlags(_, add, f) => after_store(before, add, f),
            _ => before,
        }
    }
}

proof fn lemma_no_bits_no_flags(f: MessageFlags)
    ensures
        flags_bits(f) == 0 ==> f == no_flags(),
{
    crate::message::lemma_flags_bits_roundtrip(f);
    assert(0u32 & 1 == 0 && 0u32 & 2 == 0 && 0u32 & 4 == 0 && 0u32 & 8 == 0 && 0u32 & 16 == 0)
        by (bit_vector);
}

/// Replaying a flag change selects the message's mailbox, touches no other message,
/// and leaves the message with exactly the flags the change asked for: the ones it
/// had, with the added ones set and then the removed ones cleared (a flag both
/// added and removed ends up cleared).
pub proof fn lemma_flag_plan_sets_flags(
    folder_id: crate::ids::FolderId,
    message_id: crate::ids::MessageId,
    u: u32,
    add: MessageFlags,
    remove: MessageFlags,
    name: Seq<char>,
    cur: MessageFlags,
)
    ensures
        ({
            let m = MutationType::SetFlags {
                message_id,
                folder_id,
                uid: Some(u),
                add_flags: add,
                remove_flags: remove,
            };
            plan_spec(m, seq![Some(name)]) matches Ok(Some(ops)) && ops.len() >= 1 && ops[0]
                == OpView::Select(name) && (forall|i: int|
                1 <= i < ops.len() ==> (#[trigger] ops[i] matches OpView::StoreFlags(x, _, _) && x
                    == u)) && after_ops(cur, ops) == (MessageFlags {
                seen: (cur.seen || add.seen) && !remove.seen,
                flagged: (cur.flagged || add.flagged) && !remove.flagged,
                answered: (cur.answered || add.answered) && !remove.answered,
                draft: (cur.draft || add.draft) && !remove.draft,
                deleted: (cur.deleted || add.deleted) && !remove.deleted,
            })
        }),
{
    lemma_no_bits_no_flags(add);
    lemma_no_bits_no_flags(remove);
    let m = MutationType::SetFlags {
        message_id,
        folder_id,
        uid: Some(u),
        add_flags: add,
        remove_flags: remove,
    };
    let s0 = seq![OpView::Select(name)];
    let s1 = if flags_bits(add) != 0 {
        s0.push(OpView::StoreFlags(u, true, add))
    } else {
        s0
    };
    let s2 = if flags_bits(remove) != 0 {
        s1.push(OpView::StoreFlags(u, false, remove))
    } else {
        s1
    };
    assert(plan_spec(m, seq![Some(name)]) == Ok::<Option<Seq<OpView>>, Seq<char>>(Some(s2)));
    assert(s0.drop_last() =~= Seq::<OpView>::empty());
    assert(after_ops(cur, s0.drop_last()) == cur);
    assert(after_ops(cur, s0) == cur);
    let f1 = after_store(cur, true, add);
    if flags_bits(add) != 0 {
        assert(s1.drop_last() =~= s0);
        assert(s1.last() == OpView::StoreFlags(u, true, add));
        assert(after_ops(cur, s1) == f1);
    } else {
        assert(f1 == cur);
        assert(after_ops(cur, s1) == f1);
    }
    let f2 = after_store(f1, false, remove);
    if flags_bits(remove) != 0 {
        assert(s2.drop_last() =~= s1);
        assert(s2.last() == OpView::StoreFlags(u, false, remove));
        assert(after_ops(cur, s2) == f2);
    } else {
        assert(f2 == f1);
        assert(after_ops(cur, s2) == f2);
    }
    assert forall|i: int| 1 <= i < s2.len() implies (#[trigger] s2[i] matches OpView::StoreFlags(
        x,
        _,
        _,
    ) && x == u) by {
        if flags_bits(add) != 0 && i == 1 {
            assert(s2[1] == OpView::StoreFlags(u, true, add));
        }
    }
}

fn push_op(ops: &mut Vec<ServerOp>, op: ServerOp)
    ensures
        ops_view(final(ops)@) == ops_view(old(ops)@).push(op@),
{
    ops.push(op);
    assert(ops_view(final(ops)@) =~= ops_view(old(ops)@).push(op@));
}

/// Plans a mutation from the server names of the mailboxes it needs (in the order
/// of `folders_needed`).
pub fn plan_mutation(m: &MutationType, found: &Vec<Option<String>>) -> (r: MutationPlan)
    requires
        found@.len() == folders_needed_spec(*m).len(),
    ensures
        match plan_spec(*m, found_view(found@)) {
            Ok(None) => r is Nothing,
            Ok(Some(ops)) => (r matches MutationPlan::Run(v) && ops_view(v@) == ops),
            Err(msg) => (r matches MutationPlan::Fail(ImapError::Mailbox(x)) && x@ == msg),
        },
{
    match m {
        MutationType::SetFlags { uid, add_flags, remove_flags, .. } => match uid {
            None => MutationPlan::Nothing,
            Some(u) => match &found[0] {
                None => MutationPlan::Fail(ImapError::Mailbox("Folder not found".to_owned())),
                Some(name) => {
                    let mut ops: Vec<ServerOp> = Vec::new();
                    push_op(&mut ops, ServerOp::Select { mailbox: name.clone() });
                    if add_flags.to_bits() != 0 {
                        push_op(&mut ops, ServerOp::StoreFlags { uid: *u, add: true, flags: *add_flags });
                    }
                    if remove_flags.to_bits() != 0 {
                        push_op(
                            &mut ops,
                            ServerOp::StoreFlags { uid: *u, add: false, flags: *remove_flags },
                        );
                    }
                    proof {
                        assert(found_view(found@)[0] == opt_str_view(found@[0]));
                    }
                    MutationPlan::Run(ops)
                },
            },
        },
        MutationType::MoveMessage { source_uid, .. } => {
            proof {
                assert(found_view(found@)[0] == opt_str_view(found@[0]));
                assert(found_view(found@)[1] == opt_str_view(found@[1]));
            }
            match (source_uid, &found[0], &found[1]) {
                (Some(u), Some(src), Some(tgt)) => {
                    let mut ops: Vec<ServerOp> = Vec::new();
                    push_op(&mut ops, ServerOp::Select { mailbox: src.clone() });
                    push_op(&mut ops, ServerOp::Move { uid: *u, target: tgt.clone() });
                    MutationPlan::Run(ops)
                },
                _ => MutationPlan::Fail(
                    ImapError::Mailbox("Source or target folder not found".to_owned()),
                ),
            }
        },
        MutationType::DeleteMessage { uid, .. } => {
            proof {
                assert(found_view(found@)[0] == opt_str_view(found@[0]));
            }
            match (uid, &found[0]) {
                (Some(u), Some(name)) => {
                    let mut ops: Vec<ServerOp> = Vec::new();
                    push_op(&mut ops, ServerOp::Select { mailbox: name.clone() });
                    push_op(&mut ops, ServerOp::Delete { uid: *u });
                    MutationPlan::Run(ops)
                },
                _ => MutationPlan::Fail(ImapError::Mailbox("Folder not found".to_owned())),
            }
        },
        MutationType::SendMail { .. } => MutationPlan::Nothing,
    }
}

/// What a failed server command means for the run of the queue.
#[derive(Debug, Clone)]
pub enum OpFailure {
    /// Selecting the mailbox failed: the whole run stops with this error.
    Abort(ImapError),
    /// The mutation failed; it is marked failed with this message.
    MutationFailed(String),
}

/// Classifies the failure `e` of command `op`: a failed select stops the run; a
/// failed flag store fails the mutation with `Command rejected (SetFlags): Failed
/// setting flags`; a failed move or delete fails it with its own message.
pub fn op_failure(op: &ServerOp, e: ImapError) -> (r: OpFailure)
    ensures
        match op@ {
            OpView::Select(_) => r == OpFailure::Abort(e),
            OpView::StoreFlags(..) => (r matches OpFailure::MutationFailed(m) && m@
                == "Command rejected (SetFlags): Failed setting flags"@),
            _ => (r matches OpFailure::MutationFailed(m) && m@ == imap_error_text(e)),
        },
{
    match op {
        ServerOp::Select { .. } => OpFailure::Abort(e),
        ServerOp::StoreFlags { .. } => {
            let err = ImapError::CommandFailed("SetFlags".to_owned(), "Failed setting flags".to_owned());
            let t = err.to_text();
            proof {
                reveal_strlit("SetFlags");
                reveal_strlit("Failed setting flags");
                reveal_strlit("Command rejected (");
                reveal_strlit("): ");
                reveal_strlit("Command rejected (SetFlags): Failed setting flags");
            }
            assert(t@ =~= "Command rejected (SetFlags): Failed setting flags"@);
            OpFailure::MutationFailed(t)
        },
        _ => OpFailure::MutationFailed(e.to_text()),
    }
}

/// How the import of one fetched message ended.
#[derive(Debug, Clone, Copy, PartialEq, Eq, Structural)]
pub enum ImportOutcome {
    /// Not a candidate (no UID, no body, or a UID below the start): not counted.
    Skipped,
    /// Parsed and stored.
    Stored,
    /// The message could not be parsed or stored.
    Failed,
}

/// The counters after one more fetched message.
pub open spec fn after_import(s: SyncStats, o: ImportOutcome) -> SyncStats {
    match o {
        ImportOutcome::Skipped => s,
        ImportOutcome::Stored => SyncStats { messages_fetched: (s.messages_fetched + 1) as u32, ..s },
        ImportOutcome::Failed => SyncStats { errors: (s.errors + 1) as u32, ..s },
    }
}

/// Counts one fetched message: a stored one is fetched, a failed one an error.
pub fn record_import(stats: &mut SyncStats, o: ImportOutcome)
    requires
        old(stats).messages_fetched < u32::MAX,
        old(stats).errors < u32::MAX,
    ensures
        *final(stats) == after_import(*old(stats), o),
{
    match o {
        ImportOutcome::Skipped => {},
        ImportOutcome::Stored => {
            stats.messages_fetched = stats.messages_fetched + 1;
        },
        ImportOutcome::Failed => {
            stats.errors = stats.errors + 1;
        },
    }
}

/// The counters of a run over these outcomes, from zero.
pub open spec fn imported_stats(os: Seq<ImportOutcome>) -> SyncStats
    decreases os.len(),
{
    if os.len() == 0 {
        SyncStats { messages_fetched: 0, messages_updated: 0, errors: 0 }
    } else {
        after_import(imported_stats(os.drop_last()), os.last())
    }
}

/// The number of outcomes that are not skips.
pub open spec fn imported_count(os: Seq<ImportOutcome>) -> nat
    decreases os.len(),
{
    if os.len() == 0 {
        0
    } else {
        imported_count(os.drop_last()) + if os.last() is Skipped {
            0nat
        } else {
            1nat
        }
    }
}

/// Over a run of fewer than `u32::MAX` imported messages, every candidate is
/// counted once, either fetched or as an error, and nothing as updated.
pub proof fn lemma_import_counts(os: Seq<ImportOutcome>)
    requires
        imported_count(os) < u32::MAX,
    ensures
        imported_stats(os).messages_fetched + imported_stats(os).errors == imported_count(os),
        imported_stats(os).messages_updated == 0,
    decreases os.len(),
{
    if os.len() > 0 {
        lemma_import_counts(os.drop_last());
    }
}

/// The largest number of pending mutations one run takes from the queue.
pub const MUTATION_BATCH: u32 = 20;

/// The retry limit given to the queue when a mutation is marked failed.
pub const MUTATION_RETRIES: u32 = 3;

/// How the server work of one mutation ended.
#[derive(Debug, Clone, PartialEq, Eq)]
pub enum MutationOutcome {
    Completed,
    /// Failed with this message (see `op_failure`).
    Failed(String),
}

/// What the queue records for a mutation.
#[derive(Debug, Clone, PartialEq, Eq)]
pub enum MutationRecord {
    MarkCompleted,
    MarkFailed { error: String, max_retries: u32 },
}

/// The record for a mutation's outcome and the count of completed mutations after
/// it: a completed one is counted, a failed one is marked failed with its message
/// and the retry limit.
pub fn record_mutation(processed: u32, outcome: MutationOutcome) -> (r: (u32, MutationRecord))
    requires
        processed < MUTATION_BATCH,
    ensures
        match outcome {
            MutationOutcome::Completed => r.0 == processed + 1 && r.1 == MutationRecord::MarkCompleted,
            MutationOutcome::Failed(m) => r.0 == processed && (r.1 matches MutationRecord::MarkFailed {
                error,
                max_retries,
            } && error@ == m@ && max_retries == MUTATION_RETRIES),
        },
{
    match outcome {
        MutationOutcome::Completed => (processed + 1, MutationRecord::MarkCompleted),
        MutationOutcome::Failed(m) => (
            processed,
            MutationRecord::MarkFailed { error: m, max_retries: MUTATION_RETRIES },
        ),
    }
}

/// The number of completed mutations among these outcomes.
pub open spec fn completed_count(os: Seq<MutationOutcome>) -> nat
    decreases os.len(),
{
    if os.len() == 0 {
        0
    } else {
        completed_count(os.drop_last()) + if os.last() is Completed {
            1nat
        } else {
            0nat
        }
    }
}

/// The count a run reports: one per completed mutation, so never more than the
/// mutations it took.
pub proof fn lemma_completed_at_most_taken(os: Seq<MutationOutcome>)
    ensures
        completed_count(os) <= os.len(),
    decreases os.len(),
{
    if os.len() > 0 {
        lemma_completed_at_most_taken(os.drop_last());
    }
}

/// Runs the count over the outcomes of a batch, in order, as the queue run does.
pub fn completed_in_run(outcomes: &Vec<MutationOutcome>) -> (r: u32)
    requires
        outcomes@.len() <= MUTATION_BATCH,
    ensures
        r == completed_count(outcomes@),
        r <= MUTATION_BATCH,
{
    let mut processed: u32 = 0;
    let mut i: usize = 0;
    while i < outcomes.len()
        invariant
            0 <= i <= outcomes@.len() <= MUTATION_BATCH,
            processed == completed_count(outcomes@.take(i as int)),
        decreases outcomes@.len() - i,
    {
        proof {
            lemma_completed_at_most_taken(outcomes@.take(i as int));
            assert(outcomes@.take(i + 1).drop_last() =~= outcomes@.take(i as int));
        }
        let o = match &outcomes[i] {
            MutationOutcome::Completed => MutationOutcome::Completed,
            MutationOutcome::Failed(m) => MutationOutcome::Failed(m.clone()),
        };
        assert(o is Completed <==> outcomes@[i as int] is Completed);
        let (p, _) = record_mutation(processed, o);
        processed = p;
        i = i + 1;
    }
    proof {
        assert(outcomes@.take(outcomes@.len() as int) =~= outcomes@);
        lemma_completed_at_most_taken(outcomes@);
    }
    processed
}

fn clone_op(op: &ServerOp) -> (r: ServerOp)
    ensures
        r@ == op@,
{
    match op {
        ServerOp::Select { mailbox } => ServerOp::Select { mailbox: mailbox.clone() },
        ServerOp::StoreFlags { uid, add, flags } => ServerOp::StoreFlags { uid: *uid, add: *add, flags: *flags },
        ServerOp::Move { uid, target } => ServerOp::Move { uid: *uid, target: target.clone() },
        ServerOp::Delete { uid } => ServerOp::Delete { uid: *uid },
    }
}

/// A run over the pending mutations of an account, at most `MUTATION_BATCH` of
/// them: each mutation's plan is carried out command by command.
#[derive(Debug)]
pub struct MutationRun {
    /// The commands of the mutation under way.
    pub ops: Vec<ServerOp>,
    /// How many of them were sent.
    pub sent: usize,
    /// The mutations begun so far.
    pub taken: u32,
    /// The mutations completed so far.
    pub processed: u32,
}

/// What the run does next.
#[derive(Debug)]
pub enum RunAction {
    /// Send this command and hand over its result.
    Execute(ServerOp),
    /// The mutation under way is over: record this, then begin the next one.
    Record(MutationRecord),
    /// The whole run stops with this error.
    Abort(ImapError),
}

/// What a failed command makes of the mutation: a failed select stops the run; a
/// failed flag store fails the mutation with a fixed message; a failed move or
/// delete fails it with the error's text.
pub open spec fn failure_action(op: OpView, e: ImapError, a: RunAction) -> bool {
    match op {
        OpView::Select(_) => a == RunAction::Abort(e),
        OpView::StoreFlags(..) => a matches RunAction::Record(MutationRecord::MarkFailed { error, max_retries })
            && error@ == "Command rejected (SetFlags): Failed setting flags"@ && max_retries
            == MUTATION_RETRIES,
        _ => a matches RunAction::Record(MutationRecord::MarkFailed { error, max_retries })
            && error@ == imap_error_text(e) && max_retries == MUTATION_RETRIES,
    }
}

impl MutationRun {
    pub open spec fn wf(&self) -> bool {
        &&& self.processed <= self.taken <= MUTATION_BATCH
        &&& self.sent <= self.ops@.len()
    }

    /// Whether the run waits for the result of a command.
    pub open spec fn awaiting(&self) -> bool {
        1 <= self.sent <= self.ops@.len()
    }

    /// A run that has begun nothing.
    pub fn new() -> (r: Self)
        ensures
            r.wf(),
            !r.awaiting(),
            r.taken == 0,
            r.processed == 0,
    {
        MutationRun { ops: Vec::new(), sent: 0, taken: 0, processed: 0 }
    }

    /// Begins the next mutation, planned as `plan`: a plan with nothing to do
    /// completes it, a failed plan fails it with the error's text, and a plan with
    /// commands sends the first.
    pub fn begin(&mut self, plan: MutationPlan) -> (a: RunAction)
        requires
            old(self).wf(),
            old(self).taken < MUTATION_BATCH,
        ensures
            final(self).wf(),
            final(self).taken == old(self).taken + 1,
            match plan {
                MutationPlan::Nothing => final(self).processed == old(self).processed + 1
                    && !final(self).awaiting() && a matches RunAction::Record(MutationRecord::MarkCompleted),
                MutationPlan::Fail(e) => final(self).processed == old(self).processed
                    && !final(self).awaiting() && (a matches RunAction::Record(
                    MutationRecord::MarkFailed { error, max_retries },
                ) && error@ == imap_error_text(e) && max_retries == MUTATION_RETRIES),
                MutationPlan::Run(ops) => if ops@.len() == 0 {
                    final(self).processed == old(self).processed + 1 && !final(self).awaiting()
                        && a matches RunAction::Record(MutationRecord::MarkCompleted)
                } else {
                    final(self).processed == old(self).processed && ops_view(final(self).ops@)
                        == ops_view(ops@) && final(self).sent == 1 && (a matches RunAction::Execute(
                        op,
                    ) && op@ == ops@[0]@)
                },
            },
    {
        self.taken = self.taken + 1;
        match plan {
            MutationPlan::Nothing => {
                self.ops = Vec::new();
                self.sent = 0;
                self.processed = self.processed + 1;
                RunAction::Record(MutationRecord::MarkCompleted)
            },
            MutationPlan::Fail(e) => {
                self.ops = Vec::new();
                self.sent = 0;
                RunAction::Record(
                    MutationRecord::MarkFailed { error: e.to_text(), max_retries: MUTATION_RETRIES },
                )
            },
            MutationPlan::Run(ops) => {
                if ops.len() == 0 {
                    self.ops = Vec::new();
                    self.sent = 0;
                    self.processed = self.processed + 1;
                    RunAction::Record(MutationRecord::MarkCompleted)
                } else {
                    let first = clone_op(&ops[0]);
                    self.ops = ops;
                    self.sent = 1;
                    RunAction::Execute(first)
                }
            },
        }
    }

    /// The next step after the result of the last command sent: on success the
    /// next command, or the mutation is complete after the last; on failure the
    /// mutation fails or the run stops (see `failure_action`).
    pub fn on_result(&mut self, result: Result<(), ImapError>) -> (a: RunAction)
        requires
            old(self).wf(),
            old(self).awaiting(),
            old(self).processed < old(self).taken,
        ensures
            final(self).wf(),
            final(self).taken == old(self).taken,
            match result {
                Ok(_) => if old(self).sent < old(self).ops@.len() {
                    ops_view(final(self).ops@) == ops_view(old(self).ops@) && final(self).sent
                        == old(self).sent + 1 && final(self).processed == old(self).processed && (
                    a matches RunAction::Execute(op) && op@ == old(self).ops@[old(self).sent as int]@)
                } else {
                    final(self).processed == old(self).processed + 1 && !final(self).awaiting()
                        && a matches RunAction::Record(MutationRecord::MarkCompleted)
                },
                Err(e) => final(self).processed == old(self).processed && !final(self).awaiting()
                    && failure_action(old(self).ops@[old(self).sent - 1]@, e, a),
            },
    {
        match result {
            Ok(_) => {
                if self.sent < self.ops.len() {
                    let op = clone_op(&self.ops[self.sent]);
                    self.sent = self.sent + 1;
                    RunAction::Execute(op)
                } else {
                    self.ops = Vec::new();
                    self.sent = 0;
                    self.processed = self.processed + 1;
                    RunAction::Record(MutationRecord::MarkCompleted)
                }
            },
            Err(e) => {
                let f = op_failure(&self.ops[self.sent - 1], e);
                self.ops = Vec::new();
                self.sent = 0;
                match f {
                    OpFailure::Abort(e) => RunAction::Abort(e),
                    OpFailure::MutationFailed(m) => RunAction::Record(
                        MutationRecord::MarkFailed { error: m, max_retries: MUTATION_RETRIES },
                    ),
                }
            },
        }
    }
}

/// Where the synchronisation of one mailbox stands.
#[derive(Debug, Clone, Copy, PartialEq, Eq, Structural)]
pub enum FolderSyncPhase {
    /// The stored messages are being cleared (UIDVALIDITY changed).
    Clearing,
    /// The highest stored UID is being looked up.
    AskingMaxUid,
    /// The fetched messages are being imported.
    Importing,
    /// The mailbox's state is being stored; the run is over.
    Done,
}

/// The synchronisation of one mailbox, once it is selected.
#[derive(Debug, Clone, Copy)]
pub struct FolderSync {
    pub phase: FolderSyncPhase,
    /// The first UID to import.
    pub start: u32,
    pub uid_validity: Option<u32>,
    pub uid_next: Option<u32>,
    pub exists: u32,
    pub stats: SyncStats,
}

/// What the synchronisation of a mailbox does next.
#[derive(Debug, Clone, PartialEq, Eq)]
pub enum FolderSyncAction {
    /// Delete the stored messages of the mailbox, then call `on_cleared`.
    ClearCache,
    /// Look up the highest stored UID, then call `on_max_uid`.
    AskMaxUid,
    /// Fetch this UID range; take each fetched message to `import_candidate` with
    /// `start`, import it and count it with `on_imported`, then call `finish`.
    Fetch(String),
    /// Store the mailbox's UIDVALIDITY, next UID and message count; the run is over.
    UpdateFolder { uid_validity: Option<u32>, uid_next: Option<u32>, exists: u32 },
}

pub open spec fn update_action(f: FolderSync) -> FolderSyncAction {
    FolderSyncAction::UpdateFolder { uid_validity: f.uid_validity, uid_next: f.uid_next, exists: f.exists }
}

impl FolderSync {
    /// The step after selecting a mailbox whose stored UIDVALIDITY is `stored`: a
    /// changed UIDVALIDITY clears the stored messages, else the highest stored UID
    /// is looked up.
    pub fn after_select(stored: Option<u32>, state: &SelectedFolderState) -> (r: (Self, FolderSyncAction))
        ensures
            r.0.uid_validity == state.uid_validity,
            r.0.uid_next == state.uid_next,
            r.0.exists == state.exists,
            r.0.stats == (SyncStats { messages_fetched: 0, messages_updated: 0, errors: 0 }),
            if stored matches Some(l) && state.uid_validity matches Some(x) && l != x {
                r.0.phase == FolderSyncPhase::Clearing && r.1 == FolderSyncAction::ClearCache
            } else {
                r.0.phase == FolderSyncPhase::AskingMaxUid && r.1 == FolderSyncAction::AskMaxUid
            },
    {
        let changed = uid_validity_changed(stored, state.uid_validity);
        let f = FolderSync {
            phase: if changed { FolderSyncPhase::Clearing } else { FolderSyncPhase::AskingMaxUid },
            start: 1,
            uid_validity: state.uid_validity,
            uid_next: state.uid_next,
            exists: state.exists,
            stats: SyncStats { messages_fetched: 0, messages_updated: 0, errors: 0 },
        };
        if changed {
            (f, FolderSyncAction::ClearCache)
        } else {
            (f, FolderSyncAction::AskMaxUid)
        }
    }

    fn fetch_or_update(&mut self, start: u32) -> (a: FolderSyncAction)
        ensures
            final(self).start == start,
            final(self).uid_validity == old(self).uid_validity,
            final(self).uid_next == old(self).uid_next,
            final(self).exists == old(self).exists,
            final(self).stats == old(self).stats,
            if old(self).exists > 0 {
                final(self).phase == FolderSyncPhase::Importing && (a matches FolderSyncAction::Fetch(
                    r,
                ) && r@ == dec(start as nat) + ":*"@)
            } else {
                final(self).phase == FolderSyncPhase::Done && a == update_action(*final(self))
            },
    {
        self.start = start;
        if self.exists > 0 {
            self.phase = FolderSyncPhase::Importing;
            FolderSyncAction::Fetch(fetch_range(start))
        } else {
            self.phase = FolderSyncPhase::Done;
            FolderSyncAction::UpdateFolder {
                uid_validity: self.uid_validity,
                uid_next: self.uid_next,
                exists: self.exists,
            }
        }
    }

    /// After clearing: every UID from 1 is fetched when the mailbox holds
    /// messages, else its state is stored.
    pub fn on_cleared(&mut self) -> (a: FolderSyncAction)
        requires
            old(self).phase == FolderSyncPhase::Clearing,
        ensures
            final(self).start == 1,
            final(self).uid_validity == old(self).uid_validity,
            final(self).uid_next == old(self).uid_next,
            final(self).exists == old(self).exists,
            final(self).stats == old(self).stats,
            if old(self).exists > 0 {
                final(self).phase == FolderSyncPhase::Importing && (a matches FolderSyncAction::Fetch(
                    r,
                ) && r@ == dec(1) + ":*"@)
            } else {
                final(self).phase == FolderSyncPhase::Done && a == update_action(*final(self))
            },
    {
        self.fetch_or_update(1)
    }

    /// After looking up the highest stored UID: the UIDs past it (or from 1 when
    /// none is stored) are fetched when the mailbox holds messages, else its state
    /// is stored.
    pub fn on_max_uid(&mut self, max_stored_uid: Option<u32>) -> (a: FolderSyncAction)
        requires
            old(self).phase == FolderSyncPhase::AskingMaxUid,
            max_stored_uid != Some(u32::MAX),
        ensures
            final(self).start == (match max_stored_uid {
                Some(u) => (u + 1) as u32,
                None => 1,
            }),
            final(self).uid_validity == old(self).uid_validity,
            final(self).uid_next == old(self).uid_next,
            final(self).exists == old(self).exists,
            final(self).stats == old(self).stats,
            if old(self).exists > 0 {
                final(self).phase == FolderSyncPhase::Importing && (a matches FolderSyncAction::Fetch(
                    r,
                ) && r@ == dec(final(self).start as nat) + ":*"@)
            } else {
                final(self).phase == FolderSyncPhase::Done && a == update_action(*final(self))
            },
    {
        let start = start_uid(false, max_stored_uid);
        self.fetch_or_update(start)
    }

    /// Counts the import of one fetched message.
    pub fn on_imported(&mut self, o: ImportOutcome)
        requires
            old(self).phase == FolderSyncPhase::Importing,
            old(self).stats.messages_fetched < u32::MAX,
            old(self).stats.errors < u32::MAX,
        ensures
            *final(self) == (FolderSync { stats: after_import(old(self).stats, o), ..*old(self) }),
    {
        record_import(&mut self.stats, o);
    }

    /// After the imports: the mailbox's state is stored and the run is over.
    pub fn finish(&mut self) -> (a: FolderSyncAction)
        requires
            old(self).phase == FolderSyncPhase::Importing,
        ensures
            *final(self) == (FolderSync { phase: FolderSyncPhase::Done, ..*old(self) }),
            a == update_action(*old(self)),
    {
        self.phase = FolderSyncPhase::Done;
        FolderSyncAction::UpdateFolder {
            uid_validity: self.uid_validity,
            uid_next: self.uid_next,
            exists: self.exists,
        }
    }
}

} // verus!
