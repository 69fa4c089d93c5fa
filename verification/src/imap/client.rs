//! What the client learns from the responses to its commands.

use vstd::prelude::*;

use crate::folder::{role_of_lower_name, FolderRole};
use crate::imap::parser::kw_at;
use crate::imap::commands::ImapCommand;
use crate::imap::error::ImapError;
use crate::imap::response::{
    opt_str_view, strs_view, FetchResponse, FetchView, TaggedResponse, UntaggedResponse,
    UntaggedView,
};
use crate::message::MessageFlags;
use crate::scan::{parse_uint, parse_uint_in, pieces, split_words, trim, trim_bounds, words};
use crate::text::{chars_eq_str, chars_of, lower_chars, lower_seq};

verus! {

/// A mailbox announced by `LIST`.
#[derive(Debug, Clone)]
pub struct RemoteFolderInfo {
    pub name: String,
    pub delimiter: Option<String>,
    pub flags: Vec<String>,
    pub role: FolderRole,
}

pub struct RemoteFolderView {
    pub name: Seq<char>,
    pub delimiter: Option<Seq<char>>,
    pub flags: Seq<Seq<char>>,
    pub role: FolderRole,
}

impl View for RemoteFolderInfo {
    type V = RemoteFolderView;

    open spec fn view(&self) -> RemoteFolderView {
        RemoteFolderView {
            name: self.name@,
            delimiter: opt_str_view(self.delimiter),
            flags: strs_view(self.flags@),
            role: self.role,
        }
    }
}

pub open spec fn untagged_views(us: Seq<UntaggedResponse>) -> Seq<UntaggedView> {
    us.map_values(|u: UntaggedResponse| u@)
}

/// Whether a `LIST` flag list marks the mailbox `\Noselect` (flags compare
/// without regard to ASCII case).
pub open spec fn is_noselect(flags: Seq<Seq<char>>) -> bool {
    exists|i: int| 0 <= i < flags.len() && lower_seq(#[trigger] flags[i]) == "\\noselect"@
}

/// The selectable mailboxes listed by the `LIST` responses, in order, each with the
/// role its name suggests; those flagged `\Noselect` are not listed.
pub open spec fn listed_folders(us: Seq<UntaggedView>) -> Seq<RemoteFolderView>
    decreases us.len(),
{
    if us.len() == 0 {
        seq![]
    } else {
        let rest = listed_folders(us.drop_last());
        match us.last() {
            UntaggedView::List { flags, delimiter, name } => if is_noselect(flags) {
                rest
            } else {
                rest.push(
                RemoteFolderView {
                    name: name,
                    delimiter: delimiter,
                    flags: flags,
                    role: role_of_lower_name(lower_seq(name)),
                },
            )
            },
            _ => rest,
        }
    }
}

fn clone_strings(v: &Vec<String>) -> (r: Vec<String>)
    ensures
        strs_view(r@) == strs_view(v@),
{
    let mut r: Vec<String> = Vec::new();
    let mut i: usize = 0;
    while i < v.len()
        invariant
            0 <= i <= v@.len(),
            strs_view(r@) == strs_view(v@.take(i as int)),
        decreases v@.len() - i,
    {
        let ghost old_r = r@;
        r.push(v[i].clone());
        assert(strs_view(r@) =~= strs_view(old_r).push(v@[i as int]@));
        assert(strs_view(v@.take(i + 1)) =~= strs_view(v@.take(i as int)).push(v@[i as int]@));
        i = i + 1;
    }
    assert(v@.take(v@.len() as int) =~= v@);
    r
}

/// Whether a flag list holds `\Noselect`, in any ASCII case.
pub fn has_noselect(flags: &Vec<String>) -> (r: bool)
    ensures
        r == is_noselect(strs_view(flags@)),
{
    let mut i: usize = 0;
    while i < flags.len()
        invariant
            0 <= i <= flags@.len(),
            forall|j: int| 0 <= j < i ==> lower_seq(#[trigger] strs_view(flags@)[j]) != "\\noselect"@,
        decreases flags@.len() - i,
    {
        let v = chars_of(flags[i].as_str());
        let l = lower_chars(v.as_slice());
        assert(strs_view(flags@)[i as int] == flags@[i as int]@);
        if chars_eq_str(l.as_slice(), "\\noselect") {
            return true;
        }
        i = i + 1;
    }
    false
}

/// The mailboxes that a `LIST` command reported.
pub fn folders_from_list(untagged: &Vec<UntaggedResponse>) -> (r: Vec<RemoteFolderInfo>)
    ensures
        r@.map_values(|f: RemoteFolderInfo| f@) == listed_folders(untagged_views(untagged@)),
{
    let mut r: Vec<RemoteFolderInfo> = Vec::new();
    let mut i: usize = 0;
    while i < untagged.len()
        invariant
            0 <= i <= untagged@.len(),
            r@.map_values(|f: RemoteFolderInfo| f@) == listed_folders(
                untagged_views(untagged@.take(i as int)),
            ),
        decreases untagged@.len() - i,
    {
        let ghost old_r = r@;
        assert(untagged_views(untagged@.take(i + 1)).drop_last() =~= untagged_views(
            untagged@.take(i as int),
        ));
        match &untagged[i] {
            UntaggedResponse::List { flags, delimiter, name } => if !has_noselect(flags) {
                let info = RemoteFolderInfo {
                    name: name.clone(),
                    delimiter: match delimiter {
                        Some(d) => Some(d.clone()),
                        None => None,
                    },
                    flags: clone_strings(flags),
                    role: FolderRole::from_name(name.as_str()),
                };
                r.push(info);
                assert(r@.map_values(|f: RemoteFolderInfo| f@) =~= old_r.map_values(
                    |f: RemoteFolderInfo| f@,
                ).push(info@));
            } else {
            },
            _ => {},
        }
        i = i + 1;
    }
    assert(untagged@.take(untagged@.len() as int) =~= untagged@);
    r
}

/// What `SELECT` reports about the selected mailbox.
#[derive(Debug, Clone)]
pub struct SelectedFolderState {
    pub name: String,
    pub uid_validity: Option<u32>,
    pub uid_next: Option<u32>,
    pub exists: u32,
    pub recent: u32,
    pub read_only: bool,
}

pub struct SelectedView {
    pub uid_validity: Option<u32>,
    pub uid_next: Option<u32>,
    pub exists: u32,
    pub recent: u32,
}

pub open spec fn kw_uidvalidity_sp() -> Seq<char> {
    seq!['U', 'I', 'D', 'V', 'A', 'L', 'I', 'D', 'I', 'T', 'Y', ' ']
}

pub open spec fn kw_uidnext_sp() -> Seq<char> {
    seq!['U', 'I', 'D', 'N', 'E', 'X', 'T', ' ']
}

pub open spec fn kw_read_only() -> Seq<char> {
    seq!['R', 'E', 'A', 'D', '-', 'O', 'N', 'L', 'Y']
}

/// The counters a sequence of untagged `SELECT` responses sets; a later response
/// overrides an earlier one.
pub open spec fn select_scan(us: Seq<UntaggedView>) -> SelectedView
    decreases us.len(),
{
    if us.len() == 0 {
        SelectedView { uid_validity: None, uid_next: None, exists: 0, recent: 0 }
    } else {
        let st = select_scan(us.drop_last());
        match us.last() {
            UntaggedView::Exists(n) => SelectedView { exists: n, ..st },
            UntaggedView::Recent(n) => SelectedView { recent: n, ..st },
            UntaggedView::OK { code: Some(c), .. } => if kw_at(c, kw_uidvalidity_sp()) {
                match parse_uint(trim(c.skip(12)), u32::MAX as nat) {
                    Some(v) => SelectedView { uid_validity: Some(v as u32), ..st },
                    None => st,
                }
            } else if kw_at(c, kw_uidnext_sp()) {
                match parse_uint(trim(c.skip(8)), u32::MAX as nat) {
                    Some(v) => SelectedView { uid_next: Some(v as u32), ..st },
                    None => st,
                }
            } else {
                st
            },
            _ => st,
        }
    }
}

/// The mailbox is read-only when the completion carries the `READ-ONLY` code (any case).
pub open spec fn is_read_only(code: Option<Seq<char>>) -> bool {
    match code {
        Some(c) => lower_seq(c) == lower_seq(kw_read_only()),
        None => false,
    }
}

/// Reads a number after a prefix of `skip` characters of a response code.
fn code_number(c: &Vec<char>, skip: usize) -> (r: Option<u32>)
    requires
        skip <= c@.len(),
    ensures
        match parse_uint(trim(c@.skip(skip as int)), u32::MAX as nat) {
            Some(v) => r == Some(v as u32),
            None => r is None,
        },
{
    let (a, b) = trim_bounds(c.as_slice(), skip, c.len());
    assert(c@.subrange(skip as int, c@.len() as int) =~= c@.skip(skip as int));
    match parse_uint_in(c.as_slice(), a, b, 4294967295u64) {
        Some(v) => Some(v as u32),
        None => None,
    }
}

/// The state of a mailbox as reported by the responses to `SELECT`.
pub fn folder_state_from_select(
    folder_name: &str,
    tagged: &TaggedResponse,
    untagged: &Vec<UntaggedResponse>,
) -> (r: SelectedFolderState)
    ensures
        r.name@ == folder_name@,
        r.read_only == is_read_only(tagged@.code),
        ({
            let st = select_scan(untagged_views(untagged@));
            r.uid_validity == st.uid_validity && r.uid_next == st.uid_next && r.exists == st.exists
                && r.recent == st.recent
        }),
{
    proof {
        reveal_strlit("UIDVALIDITY ");
        reveal_strlit("UIDNEXT ");
        reveal_strlit("read-only");
    }
    let k_validity = chars_of("UIDVALIDITY ");
    let k_next = chars_of("UIDNEXT ");
    let k_ro = chars_of("read-only");
    assert(k_validity@ =~= kw_uidvalidity_sp());
    assert(k_next@ =~= kw_uidnext_sp());
    assert(k_ro@ =~= lower_seq(kw_read_only()));
    let read_only = match &tagged.code {
        Some(code) => {
            let cv = chars_of(code.as_str());
            let low = crate::text::lower_chars(cv.as_slice());
            crate::text::chars_eq_slice(low.as_slice(), k_ro.as_slice())
        },
        None => false,
    };
    let mut uid_validity: Option<u32> = None;
    let mut uid_next: Option<u32> = None;
    let mut exists: u32 = 0;
    let mut recent: u32 = 0;
    let mut i: usize = 0;
    while i < untagged.len()
        invariant
            0 <= i <= untagged@.len(),
            k_validity@ == kw_uidvalidity_sp(),
            k_next@ == kw_uidnext_sp(),
            ({
                let st = select_scan(untagged_views(untagged@.take(i as int)));
                uid_validity == st.uid_validity && uid_next == st.uid_next && exists == st.exists
                    && recent == st.recent
            }),
        decreases untagged@.len() - i,
    {
        assert(untagged_views(untagged@.take(i + 1)).drop_last() =~= untagged_views(
            untagged@.take(i as int),
        ));
        match &untagged[i] {
            UntaggedResponse::Exists(n) => {
                exists = *n;
            },
            UntaggedResponse::Recent(n) => {
                recent = *n;
            },
            UntaggedResponse::OK { code: Some(code), .. } => {
                let cv = chars_of(code.as_str());
                if crate::imap::parser::kw_at_exec(cv.as_slice(), 0, k_validity.as_slice()) {
                    assert(cv@.skip(0) =~= cv@);
                    if let Some(v) = code_number(&cv, 12) {
                        uid_validity = Some(v);
                    }
                } else if crate::imap::parser::kw_at_exec(cv.as_slice(), 0, k_next.as_slice()) {
                    assert(cv@.skip(0) =~= cv@);
                    if let Some(v) = code_number(&cv, 8) {
                        uid_next = Some(v);
                    }
                } else {
                    assert(cv@.skip(0) =~= cv@);
                }
            },
            _ => {},
        }
        i = i + 1;
    }
    assert(untagged@.take(untagged@.len() as int) =~= untagged@);
    SelectedFolderState {
        name: folder_name.to_owned(),
        uid_validity,
        uid_next,
        exists,
        recent,
        read_only,
    }
}

pub open spec fn kw_search() -> Seq<char> {
    seq!['S', 'E', 'A', 'R', 'C', 'H']
}

/// The numbers among a list of words that parse as 32-bit values, in order.
pub open spec fn numeric_words(ws: Seq<Seq<char>>) -> Seq<u32>
    decreases ws.len(),
{
    if ws.len() == 0 {
        seq![]
    } else {
        let rest = numeric_words(ws.drop_last());
        match parse_uint(ws.last(), u32::MAX as nat) {
            Some(v) => rest.push(v as u32),
            None => rest,
        }
    }
}

/// The message numbers announced by `SEARCH` responses, in order of arrival.
pub open spec fn search_hits(us: Seq<UntaggedView>) -> Seq<u32>
    decreases us.len(),
{
    if us.len() == 0 {
        seq![]
    } else {
        let rest = search_hits(us.drop_last());
        match us.last() {
            UntaggedView::Other(line) => if kw_at(line, kw_search()) {
                rest + numeric_words(words(line.skip(6)))
            } else {
                rest
            },
            _ => rest,
        }
    }
}

pub open spec fn sorted_u32(s: Seq<u32>) -> bool {
    forall|i: int, j: int| 0 <= i <= j < s.len() ==> s[i] <= s[j]
}

/// Inserts `x` into a sorted vector, keeping it sorted.
fn insert_sorted(v: &mut Vec<u32>, x: u32)
    requires
        sorted_u32(old(v)@),
    ensures
        sorted_u32(final(v)@),
        final(v)@.to_multiset() == old(v)@.to_multiset().insert(x),
{
    let mut k = v.len();
    while k > 0 && v[k - 1] > x
        invariant
            0 <= k <= v@.len(),
            sorted_u32(v@),
            forall|j: int| k <= j < v@.len() ==> v@[j] > x,
        decreases k,
    {
        k = k - 1;
    }
    let ghost before = v@;
    v.insert(k, x);
    proof {
        vstd::seq_lib::to_multiset_insert(before, k as int, x);
        assert(v@ == before.insert(k as int, x));
        assert forall|i: int, j: int| 0 <= i <= j < v@.len() implies v@[i] <= v@[j] by {
            if k > 0 {
                assert(before[k - 1] <= x);
            }
        }
    }
}

/// The UIDs reported by the responses to `UID SEARCH`, in ascending order.
pub fn uids_from_search(untagged: &Vec<UntaggedResponse>) -> (r: Vec<u32>)
    ensures
        sorted_u32(r@),
        r@.to_multiset() == search_hits(untagged_views(untagged@)).to_multiset(),
{
    proof {
        reveal_strlit("SEARCH");
    }
    let k_search = chars_of("SEARCH");
    assert(k_search@ =~= kw_search());
    let mut r: Vec<u32> = Vec::new();
    let ghost mut hits: Seq<u32> = seq![];
    let mut i: usize = 0;
    while i < untagged.len()
        invariant
            0 <= i <= untagged@.len(),
            k_search@ == kw_search(),
            hits == search_hits(untagged_views(untagged@.take(i as int))),
            sorted_u32(r@),
            r@.to_multiset() == hits.to_multiset(),
        decreases untagged@.len() - i,
    {
        assert(untagged_views(untagged@.take(i + 1)).drop_last() =~= untagged_views(
            untagged@.take(i as int),
        ));
        if let UntaggedResponse::Other(line) = &untagged[i] {
            let cv = chars_of(line.as_str());
            let is_search = crate::imap::parser::kw_at_exec(cv.as_slice(), 0, k_search.as_slice());
            assert(cv@.skip(0) =~= cv@);
            if is_search {
                let wb = split_words(cv.as_slice(), 6, cv.len());
                assert(cv@.subrange(6, cv@.len() as int) =~= cv@.skip(6));
                let ghost ws = words(cv@.skip(6));
                let mut j: usize = 0;
                let ghost base = hits;
                while j < wb.len()
                    invariant
                        0 <= j <= wb@.len(),
                        pieces(cv@, wb@) == ws,
                        forall|k: int|
                            0 <= k < wb@.len() ==> 6 <= (#[trigger] wb@[k]).0 <= wb@[k].1
                                <= cv@.len(),
                        hits == base + numeric_words(ws.take(j as int)),
                        sorted_u32(r@),
                        r@.to_multiset() == hits.to_multiset(),
                    decreases wb@.len() - j,
                {
                    let (a, b) = wb[j];
                    assert(ws.take(j + 1).drop_last() =~= ws.take(j as int));
                    assert(ws[j as int] == cv@.subrange(a as int, b as int));
                    match parse_uint_in(cv.as_slice(), a, b, 4294967295u64) {
                        Some(u) => {
                            insert_sorted(&mut r, u as u32);
                            proof {
                                let old_hits = hits;
                                hits = hits.push(u as u32);
                                vstd::seq_lib::to_multiset_build(old_hits, u as u32);
                                assert(base + numeric_words(ws.take(j + 1)) =~= (base
                                    + numeric_words(ws.take(j as int))).push(u as u32));
                            }
                        },
                        None => {},
                    }
                    j = j + 1;
                }
                assert(ws.take(wb@.len() as int) =~= ws);
            }
        }
        i = i + 1;
    }
    assert(untagged@.take(untagged@.len() as int) =~= untagged@);
    r
}

/// The `FETCH` responses among the answers, in order.
pub open spec fn fetched(us: Seq<UntaggedView>) -> Seq<FetchView>
    decreases us.len(),
{
    if us.len() == 0 {
        seq![]
    } else {
        let rest = fetched(us.drop_last());
        match us.last() {
            UntaggedView::Fetch(f) => rest.push(f),
            _ => rest,
        }
    }
}

/// The messages a `UID FETCH` command returned: its `FETCH` responses, in order.
pub fn fetches_from(untagged: Vec<UntaggedResponse>) -> (r: Vec<FetchResponse>)
    ensures
        r@.map_values(|f: FetchResponse| f@) == fetched(untagged_views(untagged@)),
{
    broadcast use vstd::std_specs::vec::axiom_spec_into_iter;
    let ghost elts = untagged@;
    let mut r: Vec<FetchResponse> = Vec::new();
    for u in it: untagged.into_iter()
        invariant
            it.seq() == elts,
            r@.map_values(|f: FetchResponse| f@) == fetched(
                untagged_views(elts.take(it.index() as int)),
            ),
    {
        let ghost old_r = r@;
        proof {
            assert(elts.take(it.index() + 1) == elts.take(it.index() as int).push(u));
            assert(untagged_views(elts.take(it.index() + 1)).drop_last() =~= untagged_views(
                elts.take(it.index() as int),
            ));
        }
        match u {
            UntaggedResponse::Fetch(f) => {
                let ghost fv = f@;
                r.push(f);
                assert(r@.map_values(|f: FetchResponse| f@) =~= old_r.map_values(
                    |f: FetchResponse| f@,
                ).push(fv));
            },
            _ => {},
        }
    }
    proof {
        assert(elts.take(elts.len() as int) == elts);
    }
    r
}

/// The flags a deletion stores: `\Deleted` alone.
pub open spec fn deleted_flag() -> MessageFlags {
    MessageFlags { seen: false, flagged: false, answered: false, draft: false, deleted: true }
}

/// Deleting a message: `UID STORE <uid> +FLAGS (\Deleted)`.
pub fn delete_command(uid: u32) -> (r: ImapCommand)
    ensures
        r matches ImapCommand::UidStoreFlags { uid: u, add, flags } && u == uid && add && flags
            == deleted_flag(),
{
    ImapCommand::UidStoreFlags {
        uid,
        add: true,
        flags: MessageFlags { seen: false, flagged: false, answered: false, draft: false, deleted: true },
    }
}

/// Where a move of one message stands.
#[derive(Debug, Clone, Copy, PartialEq, Eq, Structural)]
pub enum MoveStage {
    /// `UID MOVE` was sent.
    Move,
    /// The server refused the move; `UID COPY` was sent.
    Copy,
    /// `UID STORE +FLAGS (\Deleted)` was sent.
    Store,
    /// `EXPUNGE` was sent.
    Expunge,
    /// The move is over.
    Done,
}

/// A move of one message, with the fallback for servers that refuse `UID MOVE`.
#[derive(Debug)]
pub struct MoveRun {
    pub uid: u32,
    pub target: String,
    pub stage: MoveStage,
}

/// What to do after the answer to a command of a move.
#[derive(Debug, PartialEq, Eq)]
pub enum MoveStep {
    /// Send this command and hand over its result.
    Send(ImapCommand),
    /// The move is over, with this result.
    Finished(Result<(), ImapError>),
}

impl MoveRun {
    /// Starts a move: the first command is `UID MOVE`.
    pub fn start(uid: u32, target: &str) -> (r: (Self, ImapCommand))
        ensures
            r.0.uid == uid,
            r.0.target@ == target@,
            r.0.stage == MoveStage::Move,
            r.1 matches ImapCommand::UidMove { uid: u, target_mailbox: t } && u == uid && t@
                == target@,
    {
        (
            MoveRun { uid, target: target.to_owned(), stage: MoveStage::Move },
            ImapCommand::UidMove { uid, target_mailbox: target.to_owned() },
        )
    }

    /// The next step after the result of the last command: a move that succeeds
    /// is done; a refused move falls back to `UID COPY`, then the deletion, then
    /// `EXPUNGE`. The move succeeds exactly when `UID MOVE` does, or when the copy
    /// and the deletion do; the result of `EXPUNGE` does not count.
    pub fn on_result(&mut self, result: Result<(), ImapError>) -> (s: MoveStep)
        requires
            old(self).stage != MoveStage::Done,
        ensures
            final(self).uid == old(self).uid,
            final(self).target == old(self).target,
            match old(self).stage {
                MoveStage::Move => match result {
                    Ok(_) => final(self).stage == MoveStage::Done && s == MoveStep::Finished(Ok(())),
                    Err(_) => final(self).stage == MoveStage::Copy && (s matches MoveStep::Send(
                        ImapCommand::UidCopy { uid: u, target_mailbox: t },
                    ) && u == old(self).uid && t@ == old(self).target@),
                },
                MoveStage::Copy => match result {
                    Ok(_) => final(self).stage == MoveStage::Store && (s matches MoveStep::Send(
                        ImapCommand::UidStoreFlags { uid: u, add, flags },
                    ) && u == old(self).uid && add && flags == deleted_flag()),
                    Err(e) => final(self).stage == MoveStage::Done && s == MoveStep::Finished(Err(e)),
                },
                MoveStage::Store => match result {
                    Ok(_) => final(self).stage == MoveStage::Expunge && s == MoveStep::Send(
                        ImapCommand::Expunge,
                    ),
                    Err(e) => final(self).stage == MoveStage::Done && s == MoveStep::Finished(Err(e)),
                },
                _ => final(self).stage == MoveStage::Done && s == MoveStep::Finished(Ok(())),
            },
    {
        match self.stage {
            MoveStage::Move => match result {
                Ok(_) => {
                    self.stage = MoveStage::Done;
                    MoveStep::Finished(Ok(()))
                },
                Err(_) => {
                    self.stage = MoveStage::Copy;
                    MoveStep::Send(ImapCommand::UidCopy { uid: self.uid, target_mailbox: self.target.clone() })
                },
            },
            MoveStage::Copy => match result {
                Ok(_) => {
                    self.stage = MoveStage::Store;
                    MoveStep::Send(delete_command(self.uid))
                },
                Err(e) => {
                    self.stage = MoveStage::Done;
                    MoveStep::Finished(Err(e))
                },
            },
            MoveStage::Store => match result {
                Ok(_) => {
                    self.stage = MoveStage::Expunge;
                    MoveStep::Send(ImapCommand::Expunge)
                },
                Err(e) => {
                    self.stage = MoveStage::Done;
                    MoveStep::Finished(Err(e))
                },
            },
            _ => {
                self.stage = MoveStage::Done;
                MoveStep::Finished(Ok(()))
            },
        }
    }
}

} // verus!
