//! Client commands and their wire form.

use vstd::prelude::*;

use crate::imap::parser::flags_of_words;
use crate::message::MessageFlags;
use crate::scan::{is_word, lemma_words_of_join, words};
use crate::text::{chars_of, dec, join, lower_seq, push_char, push_decimal, push_str};

verus! {

/// A command the client sends.
#[derive(Debug, Clone, PartialEq, Eq)]
pub enum ImapCommand {
    Capability,
    Login { username: String, password: String },
    Logout,
    List { reference: String, wildcard: String },
    Select { mailbox: String },
    Examine { mailbox: String },
    UidSearch { query: String },
    UidFetch { uid_range: String, items: String },
    UidStoreFlags { uid: u32, add: bool, flags: MessageFlags },
    UidCopy { uid: u32, target_mailbox: String },
    UidMove { uid: u32, target_mailbox: String },
    Idle,
    Noop,
    Expunge,
}

/// The escaped form of one character inside a quoted string.
pub open spec fn escape_char(c: char) -> Seq<char> {
    if c == '\\' {
        seq!['\\', '\\']
    } else if c == '"' {
        seq!['\\', '"']
    } else {
        seq![c]
    }
}

/// Backslashes and double quotes preceded by a backslash.
pub open spec fn escape(s: Seq<char>) -> Seq<char>
    decreases s.len(),
{
    if s.len() == 0 {
        seq![]
    } else {
        escape(s.drop_last()) + escape_char(s.last())
    }
}

/// The system flag names present in `f`, in the order seen, flagged, answered,
/// draft, deleted.
pub open spec fn flag_names(f: MessageFlags) -> Seq<Seq<char>> {
    let a: Seq<Seq<char>> = if f.seen {
        seq!["\\Seen"@]
    } else {
        seq![]
    };
    let b: Seq<Seq<char>> = if f.flagged {
        seq!["\\Flagged"@]
    } else {
        seq![]
    };
    let c: Seq<Seq<char>> = if f.answered {
        seq!["\\Answered"@]
    } else {
        seq![]
    };
    let d: Seq<Seq<char>> = if f.draft {
        seq!["\\Draft"@]
    } else {
        seq![]
    };
    let e: Seq<Seq<char>> = if f.deleted {
        seq!["\\Deleted"@]
    } else {
        seq![]
    };
    a + b + c + d + e
}

/// The space-separated flag list of a `STORE` command.
pub open spec fn flags_text(f: MessageFlags) -> Seq<char> {
    join(flag_names(f), " "@)
}

pub open spec fn quoted(s: Seq<char>) -> Seq<char> {
    "\""@ + escape(s) + "\""@
}

/// The exact line sent for a command with the given tag.
pub open spec fn command_text(cmd: ImapCommand, tag: Seq<char>) -> Seq<char> {
    match cmd {
        ImapCommand::Capability => tag + " CAPABILITY\r\n"@,
        ImapCommand::Login { username, password } => tag + " LOGIN "@ + quoted(username@) + " "@
            + quoted(password@) + "\r\n"@,
        ImapCommand::Logout => tag + " LOGOUT\r\n"@,
        ImapCommand::List { reference, wildcard } => tag + " LIST "@ + quoted(reference@) + " "@
            + quoted(wildcard@) + "\r\n"@,
        ImapCommand::Select { mailbox } => tag + " SELECT "@ + quoted(mailbox@) + "\r\n"@,
        ImapCommand::Examine { mailbox } => tag + " EXAMINE "@ + quoted(mailbox@) + "\r\n"@,
        ImapCommand::UidSearch { query } => tag + " UID SEARCH "@ + query@ + "\r\n"@,
        ImapCommand::UidFetch { uid_range, items } => tag + " UID FETCH "@ + uid_range@ + " ("@
            + items@ + ")\r\n"@,
        ImapCommand::UidStoreFlags { uid, add, flags } => tag + " UID STORE "@ + dec(uid as nat)
            + " "@ + (if add {
            "+FLAGS"@
        } else {
            "-FLAGS"@
        }) + " ("@ + flags_text(flags) + ")\r\n"@,
        ImapCommand::UidCopy { uid, target_mailbox } => tag + " UID COPY "@ + dec(uid as nat)
            + " "@ + quoted(target_mailbox@) + "\r\n"@,
        ImapCommand::UidMove { uid, target_mailbox } => tag + " UID MOVE "@ + dec(uid as nat)
            + " "@ + quoted(target_mailbox@) + "\r\n"@,
        ImapCommand::Idle => tag + " IDLE\r\n"@,
        ImapCommand::Noop => tag + " NOOP\r\n"@,
        ImapCommand::Expunge => tag + " EXPUNGE\r\n"@,
    }
}

/// Appends `escape(s)` to `out`.
fn push_escaped(out: &mut String, s: &str)
    ensures
        final(out)@ == old(out)@ + escape(s@),
{
    let v = chars_of(s);
    let ghost start = out@;
    let mut i: usize = 0;
    while i < v.len()
        invariant
            0 <= i <= v@.len(),
            v@ == s@,
            out@ == start + escape(v@.take(i as int)),
        decreases v@.len() - i,
    {
        let c = v[i];
        if c == '\\' {
            push_char(out, '\\');
            push_char(out, '\\');
        } else if c == '"' {
            push_char(out, '\\');
            push_char(out, '"');
        } else {
            push_char(out, c);
        }
        assert(v@.take(i + 1).drop_last() =~= v@.take(i as int));
        i = i + 1;
        assert(out@ =~= start + escape(v@.take(i as int)));
    }
    assert(v@.take(v@.len() as int) =~= v@);
}

/// Appends `"` + `escape(s)` + `"`.
fn push_quoted(out: &mut String, s: &str)
    ensures
        final(out)@ == old(out)@ + quoted(s@),
{
    push_str(out, "\"");
    push_escaped(out, s);
    push_str(out, "\"");
    assert(final(out)@ =~= old(out)@ + quoted(s@));
}

/// Escapes backslashes and double quotes for use inside a quoted string.
pub fn escape_quote(s: &str) -> (r: String)
    ensures
        r@ == escape(s@),
{
    let mut r = String::new();
    push_escaped(&mut r, s);
    assert(r@ =~= escape(s@));
    r
}

proof fn lemma_join_push(parts: Seq<Seq<char>>, sep: Seq<char>, x: Seq<char>)
    ensures
        join(parts.push(x), sep) == if parts.len() == 0 {
            x
        } else {
            join(parts, sep) + sep + x
        },
{
    assert(parts.push(x).drop_last() =~= parts);
}

/// Appends one flag name, separated by a space from any earlier one.
fn push_flag_name(out: &mut String, Ghost(names): Ghost<Seq<Seq<char>>>, name: &str) -> (r: Ghost<
    Seq<Seq<char>>,
>)
    requires
        old(out)@ == join(names, " "@),
        name@.len() > 0,
        forall|i: int| 0 <= i < names.len() ==> (#[trigger] names[i]).len() > 0,
    ensures
        r@ == names.push(name@),
        final(out)@ == join(r@, " "@),
{
    proof {
        lemma_join_push(names, " "@, name@);
    }
    if out.as_str().unicode_len() > 0 {
        push_str(out, " ");
    } else {
        proof {
            if names.len() > 0 {
                lemma_join_nonempty(names, " "@);
            }
        }
    }
    push_str(out, name);
    assert(final(out)@ =~= join(names.push(name@), " "@));
    Ghost(names.push(name@))
}

proof fn lemma_join_nonempty(parts: Seq<Seq<char>>, sep: Seq<char>)
    requires
        parts.len() > 0,
        forall|i: int| 0 <= i < parts.len() ==> (#[trigger] parts[i]).len() > 0,
    ensures
        join(parts, sep).len() > 0,
    decreases parts.len(),
{
    if parts.len() > 1 {
        lemma_join_nonempty(parts.drop_last(), sep);
    }
}

/// The space-separated names of the set flags, e.g. `\Seen \Flagged`.
pub fn flags_to_imap_string(flags: &MessageFlags) -> (r: String)
    ensures
        r@ == flags_text(*flags),
{
    proof {
        reveal_strlit("\\Seen");
        reveal_strlit("\\Flagged");
        reveal_strlit("\\Answered");
        reveal_strlit("\\Draft");
        reveal_strlit("\\Deleted");
    }
    let mut out = String::new();
    let ghost mut names: Seq<Seq<char>> = seq![];
    assert(out@ =~= join(names, " "@));
    if flags.seen {
        let r = push_flag_name(&mut out, Ghost(names), "\\Seen");
        proof {
            names = r@;
        }
    }
    if flags.flagged {
        let r = push_flag_name(&mut out, Ghost(names), "\\Flagged");
        proof {
            names = r@;
        }
    }
    if flags.answered {
        let r = push_flag_name(&mut out, Ghost(names), "\\Answered");
        proof {
            names = r@;
        }
    }
    if flags.draft {
        let r = push_flag_name(&mut out, Ghost(names), "\\Draft");
        proof {
            names = r@;
        }
    }
    if flags.deleted {
        let r = push_flag_name(&mut out, Ghost(names), "\\Deleted");
        proof {
            names = r@;
        }
    }
    assert(names =~= flag_names(*flags));
    out
}

impl ImapCommand {
    /// The command line to send, tagged with `tag`.
    pub fn serialize(&self, tag: &str) -> (r: String)
        ensures
            r@ == command_text(*self, tag@),
    {
        let mut s = tag.to_owned();
        match self {
            ImapCommand::Capability => {
                push_str(&mut s, " CAPABILITY\r\n");
            },
            ImapCommand::Login { username, password } => {
                push_str(&mut s, " LOGIN ");
                push_quoted(&mut s, username.as_str());
                push_str(&mut s, " ");
                push_quoted(&mut s, password.as_str());
                push_str(&mut s, "\r\n");
            },
            ImapCommand::Logout => {
                push_str(&mut s, " LOGOUT\r\n");
            },
            ImapCommand::List { reference, wildcard } => {
                push_str(&mut s, " LIST ");
                push_quoted(&mut s, reference.as_str());
                push_str(&mut s, " ");
                push_quoted(&mut s, wildcard.as_str());
                push_str(&mut s, "\r\n");
            },
            ImapCommand::Select { mailbox } => {
                push_str(&mut s, " SELECT ");
                push_quoted(&mut s, mailbox.as_str());
                push_str(&mut s, "\r\n");
            },
            ImapCommand::Examine { mailbox } => {
                push_str(&mut s, " EXAMINE ");
                push_quoted(&mut s, mailbox.as_str());
                push_str(&mut s, "\r\n");
            },
            ImapCommand::UidSearch { query } => {
                push_str(&mut s, " UID SEARCH ");
                push_str(&mut s, query.as_str());
                push_str(&mut s, "\r\n");
            },
            ImapCommand::UidFetch { uid_range, items } => {
                push_str(&mut s, " UID FETCH ");
                push_str(&mut s, uid_range.as_str());
                push_str(&mut s, " (");
                push_str(&mut s, items.as_str());
                push_str(&mut s, ")\r\n");
            },
            ImapCommand::UidStoreFlags { uid, add, flags } => {
                push_str(&mut s, " UID STORE ");
                push_decimal(&mut s, *uid as u64);
                push_str(&mut s, " ");
                if *add {
                    push_str(&mut s, "+FLAGS");
                } else {
                    push_str(&mut s, "-FLAGS");
                }
                push_str(&mut s, " (");
                let ft = flags_to_imap_string(flags);
                push_str(&mut s, ft.as_str());
                push_str(&mut s, ")\r\n");
            },
            ImapCommand::UidCopy { uid, target_mailbox } => {
                push_str(&mut s, " UID COPY ");
                push_decimal(&mut s, *uid as u64);
                push_str(&mut s, " ");
                push_quoted(&mut s, target_mailbox.as_str());
                push_str(&mut s, "\r\n");
            },
            ImapCommand::UidMove { uid, target_mailbox } => {
                push_str(&mut s, " UID MOVE ");
                push_decimal(&mut s, *uid as u64);
                push_str(&mut s, " ");
                push_quoted(&mut s, target_mailbox.as_str());
                push_str(&mut s, "\r\n");
            },
            ImapCommand::Idle => {
                push_str(&mut s, " IDLE\r\n");
            },
            ImapCommand::Noop => {
                push_str(&mut s, " NOOP\r\n");
            },
            ImapCommand::Expunge => {
                push_str(&mut s, " EXPUNGE\r\n");
            },
        }
        assert(s@ =~= command_text(*self, tag@));
        s
    }
}

/// Whether `w` is the name of a flag that `f` has set.
pub open spec fn names_set_flag(w: Seq<char>, f: MessageFlags) -> bool {
    ||| w == "\\Seen"@ && f.seen
    ||| w == "\\Flagged"@ && f.flagged
    ||| w == "\\Answered"@ && f.answered
    ||| w == "\\Draft"@ && f.draft
    ||| w == "\\Deleted"@ && f.deleted
}

/// The flag list a `STORE` command writes is read back, unchanged, from the flag
/// list of a `FETCH` response: its words name exactly the flags that are set.
pub proof fn lemma_store_flags_read_back(f: MessageFlags)
    ensures
        flags_of_words(words(flags_text(f))) == f,
{
    reveal_strlit("\\Seen");
    reveal_strlit("\\Flagged");
    reveal_strlit("\\Answered");
    reveal_strlit("\\Draft");
    reveal_strlit("\\Deleted");
    let ls = "\\Seen"@;
    let lf = "\\Flagged"@;
    let la = "\\Answered"@;
    let ld = "\\Draft"@;
    let lx = "\\Deleted"@;
    let ks = seq!['\\', 's', 'e', 'e', 'n'];
    let kf = seq!['\\', 'f', 'l', 'a', 'g', 'g', 'e', 'd'];
    let ka = seq!['\\', 'a', 'n', 's', 'w', 'e', 'r', 'e', 'd'];
    let kd = seq!['\\', 'd', 'r', 'a', 'f', 't'];
    let kx = seq!['\\', 'd', 'e', 'l', 'e', 't', 'e', 'd'];
    assert(lower_seq(ls) =~= ks);
    assert(lower_seq(lf) =~= kf);
    assert(lower_seq(la) =~= ka);
    assert(lower_seq(ld) =~= kd);
    assert(lower_seq(lx) =~= kx);
    assert(kf[1] != kx[1]);
    let names = flag_names(f);
    let a: Seq<Seq<char>> = if f.seen { seq![ls] } else { seq![] };
    let b: Seq<Seq<char>> = if f.flagged { seq![lf] } else { seq![] };
    let c: Seq<Seq<char>> = if f.answered { seq![la] } else { seq![] };
    let d: Seq<Seq<char>> = if f.draft { seq![ld] } else { seq![] };
    let e: Seq<Seq<char>> = if f.deleted { seq![lx] } else { seq![] };
    assert(names == a + b + c + d + e);
    assert forall|i: int| 0 <= i < names.len() implies names_set_flag(#[trigger] names[i], f) by {
        assert((a + b + c + d + e)[i] == names[i]);
    }
    assert forall|i: int| 0 <= i < names.len() implies is_word(#[trigger] names[i]) by {
        assert(names_set_flag(names[i], f));
    }
    lemma_words_of_join(names);
    let g = flags_of_words(names);
    if f.seen {
        assert(names[0] == ls);
        assert(lower_seq(names[0]) == ks);
    }
    if f.flagged {
        assert(names[a.len() as int] == lf);
        assert(lower_seq(names[a.len() as int]) == kf);
    }
    if f.answered {
        assert(names[(a.len() + b.len()) as int] == la);
        assert(lower_seq(names[(a.len() + b.len()) as int]) == ka);
    }
    if f.draft {
        assert(names[(a.len() + b.len() + c.len()) as int] == ld);
        assert(lower_seq(names[(a.len() + b.len() + c.len()) as int]) == kd);
    }
    if f.deleted {
        assert(names[(a.len() + b.len() + c.len() + d.len()) as int] == lx);
        assert(lower_seq(names[(a.len() + b.len() + c.len() + d.len()) as int]) == kx);
    }
    assert forall|i: int| 0 <= i < names.len() implies {
        let k = lower_seq(#[trigger] names[i]);
        &&& (k == ks ==> f.seen)
        &&& (k == kf ==> f.flagged)
        &&& (k == ka ==> f.answered)
        &&& (k == kd ==> f.draft)
        &&& (k == kx ==> f.deleted)
    } by {
        assert(names_set_flag(names[i], f));
    }
    assert(g == f);
}

/// Whether a text holds no carriage return and no line feed.
pub open spec fn no_crlf(s: Seq<char>) -> bool {
    forall|i: int| 0 <= i < s.len() ==> #[trigger] s[i] != '\r' && s[i] != '\n'
}

/// A command line: the tag, a space, text without line breaks, then CRLF.
pub open spec fn framed_line(t: Seq<char>, tag: Seq<char>) -> bool {
    &&& t.len() >= tag.len() + 3
    &&& t.take(tag.len() as int) == tag
    &&& t[tag.len() as int] == ' '
    &&& t.skip(t.len() - 2) == "\r\n"@
    &&& no_crlf(t.take(t.len() - 2))
}

/// The free-text fields of a command hold no line breaks.
pub open spec fn fields_no_crlf(cmd: ImapCommand) -> bool {
    match cmd {
        ImapCommand::Login { username, password } => no_crlf(username@) && no_crlf(password@),
        ImapCommand::List { reference, wildcard } => no_crlf(reference@) && no_crlf(wildcard@),
        ImapCommand::Select { mailbox } => no_crlf(mailbox@),
        ImapCommand::Examine { mailbox } => no_crlf(mailbox@),
        ImapCommand::UidSearch { query } => no_crlf(query@),
        ImapCommand::UidFetch { uid_range, items } => no_crlf(uid_range@) && no_crlf(items@),
        ImapCommand::UidCopy { target_mailbox, .. } => no_crlf(target_mailbox@),
        ImapCommand::UidMove { target_mailbox, .. } => no_crlf(target_mailbox@),
        _ => true,
    }
}

proof fn lemma_no_crlf_concat(a: Seq<char>, b: Seq<char>)
    requires
        no_crlf(a),
        no_crlf(b),
    ensures
        no_crlf(a + b),
{
    assert forall|i: int| 0 <= i < (a + b).len() implies #[trigger] (a + b)[i] != '\r' && (a
        + b)[i] != '\n' by {
        if i < a.len() {
            assert((a + b)[i] == a[i]);
        } else {
            assert((a + b)[i] == b[i - a.len()]);
        }
    }
}

proof fn lemma_escape_no_crlf(s: Seq<char>)
    requires
        no_crlf(s),
    ensures
        no_crlf(escape(s)),
    decreases s.len(),
{
    if s.len() > 0 {
        assert(no_crlf(s.drop_last())) by {
            assert forall|i: int| 0 <= i < s.drop_last().len() implies #[trigger] s.drop_last()[i]
                != '\r' && s.drop_last()[i] != '\n' by {
                assert(s.drop_last()[i] == s[i]);
            }
        }
        lemma_escape_no_crlf(s.drop_last());
        let c = s.last();
        assert(c == s[s.len() - 1]);
        lemma_no_crlf_concat(escape(s.drop_last()), escape_char(c));
    }
}

proof fn lemma_dec_no_crlf(n: nat)
    ensures
        no_crlf(dec(n)),
    decreases n,
{
    if n >= 10 {
        lemma_dec_no_crlf(n / 10);
        lemma_no_crlf_concat(dec(n / 10), seq![crate::text::digit_char(n % 10)]);
        assert(dec(n) =~= dec(n / 10) + seq![crate::text::digit_char(n % 10)]);
    }
    assert(((n % 10 + 48) as u32) as char as u32 == (n % 10 + 48) as u32);
}

proof fn lemma_join_no_crlf(parts: Seq<Seq<char>>, sep: Seq<char>)
    requires
        no_crlf(sep),
        forall|i: int| 0 <= i < parts.len() ==> no_crlf(#[trigger] parts[i]),
    ensures
        no_crlf(join(parts, sep)),
    decreases parts.len(),
{
    if parts.len() >= 2 {
        lemma_join_no_crlf(parts.drop_last(), sep);
        assert(parts.last() == parts[parts.len() - 1]);
        lemma_no_crlf_concat(join(parts.drop_last(), sep), sep);
        lemma_no_crlf_concat(join(parts.drop_last(), sep) + sep, parts.last());
    } else if parts.len() == 1 {
        assert(parts[0] == parts[0]);
    }
}

proof fn lemma_flags_text_no_crlf(f: MessageFlags)
    ensures
        no_crlf(flags_text(f)),
{
    reveal_strlit("\\Seen");
    reveal_strlit("\\Flagged");
    reveal_strlit("\\Answered");
    reveal_strlit("\\Draft");
    reveal_strlit("\\Deleted");
    reveal_strlit(" ");
    let names = flag_names(f);
    assert forall|i: int| 0 <= i < names.len() implies no_crlf(#[trigger] names[i]) by {
        assert(names_set_flag(names[i], f)) by {
            let a: Seq<Seq<char>> = if f.seen { seq!["\\Seen"@] } else { seq![] };
            let b: Seq<Seq<char>> = if f.flagged { seq!["\\Flagged"@] } else { seq![] };
            let c: Seq<Seq<char>> = if f.answered { seq!["\\Answered"@] } else { seq![] };
            let d: Seq<Seq<char>> = if f.draft { seq!["\\Draft"@] } else { seq![] };
            let e: Seq<Seq<char>> = if f.deleted { seq!["\\Deleted"@] } else { seq![] };
            assert(names == a + b + c + d + e);
            assert((a + b + c + d + e)[i] == names[i]);
        }
    }
    lemma_join_no_crlf(names, " "@);
}

proof fn lemma_quoted_no_crlf(s: Seq<char>)
    requires
        no_crlf(s),
    ensures
        no_crlf(quoted(s)),
{
    reveal_strlit("\"");
    lemma_escape_no_crlf(s);
    lemma_no_crlf_concat("\""@, escape(s));
    lemma_no_crlf_concat("\""@ + escape(s), "\""@);
}

proof fn lemma_framed(tag: Seq<char>, rest: Seq<char>)
    requires
        no_crlf(tag),
        rest.len() >= 1,
        rest[0] == ' ',
        no_crlf(rest),
    ensures
        framed_line(tag + rest + "\r\n"@, tag),
{
    reveal_strlit("\r\n");
    let t = tag + rest + "\r\n"@;
    assert(t.take(tag.len() as int) =~= tag);
    assert(t[tag.len() as int] == rest[0]);
    assert(t.skip(t.len() - 2) =~= "\r\n"@);
    assert(t.take(t.len() - 2) =~= tag + rest);
    lemma_no_crlf_concat(tag, rest);
}

/// Every command is sent as one line: the tag, a space, text without line breaks,
/// and a final CRLF, as long as the tag and the command's free-text fields hold
/// no line breaks themselves.
pub proof fn lemma_command_framed(cmd: ImapCommand, tag: Seq<char>)
    requires
        no_crlf(tag),
        fields_no_crlf(cmd),
    ensures
        framed_line(command_text(cmd, tag), tag),
{
    reveal_strlit("\r\n");
    reveal_strlit(" ");
    reveal_strlit(" (");
    reveal_strlit(")\r\n");
    reveal_strlit(")");
    reveal_strlit("+FLAGS");
    reveal_strlit("-FLAGS");
    let crlf = "\r\n"@;
    match cmd {
        ImapCommand::Capability => {
            reveal_strlit(" CAPABILITY\r\n");
            reveal_strlit(" CAPABILITY");
            assert(" CAPABILITY\r\n"@ =~= " CAPABILITY"@ + crlf);
            lemma_framed(tag, " CAPABILITY"@);
            assert(command_text(cmd, tag) =~= tag + " CAPABILITY"@ + crlf);
        },
        ImapCommand::Logout => {
            reveal_strlit(" LOGOUT\r\n");
            reveal_strlit(" LOGOUT");
            assert(" LOGOUT\r\n"@ =~= " LOGOUT"@ + crlf);
            lemma_framed(tag, " LOGOUT"@);
            assert(command_text(cmd, tag) =~= tag + " LOGOUT"@ + crlf);
        },
        ImapCommand::Idle => {
            reveal_strlit(" IDLE\r\n");
            reveal_strlit(" IDLE");
            assert(" IDLE\r\n"@ =~= " IDLE"@ + crlf);
            lemma_framed(tag, " IDLE"@);
            assert(command_text(cmd, tag) =~= tag + " IDLE"@ + crlf);
        },
        ImapCommand::Noop => {
            reveal_strlit(" NOOP\r\n");
            reveal_strlit(" NOOP");
            assert(" NOOP\r\n"@ =~= " NOOP"@ + crlf);
            lemma_framed(tag, " NOOP"@);
            assert(command_text(cmd, tag) =~= tag + " NOOP"@ + crlf);
        },
        ImapCommand::Expunge => {
            reveal_strlit(" EXPUNGE\r\n");
            reveal_strlit(" EXPUNGE");
            assert(" EXPUNGE\r\n"@ =~= " EXPUNGE"@ + crlf);
            lemma_framed(tag, " EXPUNGE"@);
            assert(command_text(cmd, tag) =~= tag + " EXPUNGE"@ + crlf);
        },
        ImapCommand::Login { username, password } => {
            reveal_strlit(" LOGIN ");
            lemma_quoted_no_crlf(username@);
            lemma_quoted_no_crlf(password@);
            let rest = " LOGIN "@ + quoted(username@) + " "@ + quoted(password@);
            lemma_no_crlf_concat(" LOGIN "@, quoted(username@));
            lemma_no_crlf_concat(" LOGIN "@ + quoted(username@), " "@);
            lemma_no_crlf_concat(" LOGIN "@ + quoted(username@) + " "@, quoted(password@));
            lemma_framed(tag, rest);
            assert(command_text(cmd, tag) =~= tag + rest + crlf);
        },
        ImapCommand::List { reference, wildcard } => {
            reveal_strlit(" LIST ");
            lemma_quoted_no_crlf(reference@);
            lemma_quoted_no_crlf(wildcard@);
            let rest = " LIST "@ + quoted(reference@) + " "@ + quoted(wildcard@);
            lemma_no_crlf_concat(" LIST "@, quoted(reference@));
            lemma_no_crlf_concat(" LIST "@ + quoted(reference@), " "@);
            lemma_no_crlf_concat(" LIST "@ + quoted(reference@) + " "@, quoted(wildcard@));
            lemma_framed(tag, rest);
            assert(command_text(cmd, tag) =~= tag + rest + crlf);
        },
        ImapCommand::Select { mailbox } => {
            reveal_strlit(" SELECT ");
            lemma_quoted_no_crlf(mailbox@);
            let rest = " SELECT "@ + quoted(mailbox@);
            lemma_no_crlf_concat(" SELECT "@, quoted(mailbox@));
            lemma_framed(tag, rest);
            assert(command_text(cmd, tag) =~= tag + rest + crlf);
        },
        ImapCommand::Examine { mailbox } => {
            reveal_strlit(" EXAMINE ");
            lemma_quoted_no_crlf(mailbox@);
            let rest = " EXAMINE "@ + quoted(mailbox@);
            lemma_no_crlf_concat(" EXAMINE "@, quoted(mailbox@));
            lemma_framed(tag, rest);
            assert(command_text(cmd, tag) =~= tag + rest + crlf);
        },
        ImapCommand::UidSearch { query } => {
            reveal_strlit(" UID SEARCH ");
            let rest = " UID SEARCH "@ + query@;
            lemma_no_crlf_concat(" UID SEARCH "@, query@);
            lemma_framed(tag, rest);
            assert(command_text(cmd, tag) =~= tag + rest + crlf);
        },
        ImapCommand::UidFetch { uid_range, items } => {
            reveal_strlit(" UID FETCH ");
            let rest = " UID FETCH "@ + uid_range@ + " ("@ + items@ + ")"@;
            lemma_no_crlf_concat(" UID FETCH "@, uid_range@);
            lemma_no_crlf_concat(" UID FETCH "@ + uid_range@, " ("@);
            lemma_no_crlf_concat(" UID FETCH "@ + uid_range@ + " ("@, items@);
            lemma_no_crlf_concat(" UID FETCH "@ + uid_range@ + " ("@ + items@, ")"@);
            lemma_framed(tag, rest);
            assert(")\r\n"@ =~= ")"@ + crlf);
            assert(command_text(cmd, tag) =~= tag + rest + crlf);
        },
        ImapCommand::UidStoreFlags { uid, add, flags } => {
            reveal_strlit(" UID STORE ");
            lemma_dec_no_crlf(uid as nat);
            lemma_flags_text_no_crlf(flags);
            let sign = if add { "+FLAGS"@ } else { "-FLAGS"@ };
            let rest = " UID STORE "@ + dec(uid as nat) + " "@ + sign + " ("@ + flags_text(flags) + ")"@;
            lemma_no_crlf_concat(" UID STORE "@, dec(uid as nat));
            lemma_no_crlf_concat(" UID STORE "@ + dec(uid as nat), " "@);
            lemma_no_crlf_concat(" UID STORE "@ + dec(uid as nat) + " "@, sign);
            lemma_no_crlf_concat(" UID STORE "@ + dec(uid as nat) + " "@ + sign, " ("@);
            lemma_no_crlf_concat(" UID STORE "@ + dec(uid as nat) + " "@ + sign + " ("@, flags_text(flags));
            lemma_no_crlf_concat(
                " UID STORE "@ + dec(uid as nat) + " "@ + sign + " ("@ + flags_text(flags),
                ")"@,
            );
            lemma_framed(tag, rest);
            assert(")\r\n"@ =~= ")"@ + crlf);
            assert(command_text(cmd, tag) =~= tag + rest + crlf);
        },
        ImapCommand::UidCopy { uid, target_mailbox } => {
            reveal_strlit(" UID COPY ");
            lemma_dec_no_crlf(uid as nat);
            lemma_quoted_no_crlf(target_mailbox@);
            let rest = " UID COPY "@ + dec(uid as nat) + " "@ + quoted(target_mailbox@);
            lemma_no_crlf_concat(" UID COPY "@, dec(uid as nat));
            lemma_no_crlf_concat(" UID COPY "@ + dec(uid as nat), " "@);
            lemma_no_crlf_concat(" UID COPY "@ + dec(uid as nat) + " "@, quoted(target_mailbox@));
            lemma_framed(tag, rest);
            assert(command_text(cmd, tag) =~= tag + rest + crlf);
        },
        ImapCommand::UidMove { uid, target_mailbox } => {
            reveal_strlit(" UID MOVE ");
            lemma_dec_no_crlf(uid as nat);
            lemma_quoted_no_crlf(target_mailbox@);
            let rest = " UID MOVE "@ + dec(uid as nat) + " "@ + quoted(target_mailbox@);
            lemma_no_crlf_concat(" UID MOVE "@, dec(uid as nat));
            lemma_no_crlf_concat(" UID MOVE "@ + dec(uid as nat), " "@);
            lemma_no_crlf_concat(" UID MOVE "@ + dec(uid as nat) + " "@, quoted(target_mailbox@));
            lemma_framed(tag, rest);
            assert(command_text(cmd, tag) =~= tag + rest + crlf);
        },
    }
}

/// Quoting leaves alone a text without double quotes and backslashes.
pub proof fn lemma_escape_plain(s: Seq<char>)
    requires
        forall|i: int| 0 <= i < s.len() ==> #[trigger] s[i] != '"' && s[i] != '\\',
    ensures
        escape(s) == s,
    decreases s.len(),
{
    if s.len() > 0 {
        assert forall|i: int| 0 <= i < s.drop_last().len() implies #[trigger] s.drop_last()[i] != '"'
            && s.drop_last()[i] != '\\' by {
            assert(s.drop_last()[i] == s[i]);
        }
        lemma_escape_plain(s.drop_last());
        assert(s.last() == s[s.len() - 1]);
        assert(escape(s) =~= s.drop_last().push(s.last()));
        assert(s.drop_last().push(s.last()) =~= s);
    }
}

/// Quoting puts a backslash before each double quote and each backslash, and
/// keeps every other character: a quote becomes two characters.
pub proof fn lemma_escape_quote(s: Seq<char>, c: char)
    ensures
        escape(s.push(c)) == escape(s) + (if c == '"' {
            seq!['\\', '"']
        } else if c == '\\' {
            seq!['\\', '\\']
        } else {
            seq![c]
        }),
{
    assert(s.push(c).drop_last() =~= s);
}

/// The line sent for each command: the tag, then the command's own keywords and
/// its arguments, quoted (`"` + escaped text + `"`) where they are mailbox names
/// or credentials, then CRLF. `SELECT` opens a mailbox for writing and `EXAMINE`
/// read-only; a flag store adds with `+FLAGS` and removes with `-FLAGS`.
pub proof fn lemma_command_words(cmd: ImapCommand, tag: Seq<char>)
    ensures
        match cmd {
            ImapCommand::Capability => command_text(cmd, tag) == tag + " CAPABILITY\r\n"@,
            ImapCommand::Login { username, password } => command_text(cmd, tag) == tag
                + " LOGIN \""@ + escape(username@) + "\" \""@ + escape(password@) + "\"\r\n"@,
            ImapCommand::Logout => command_text(cmd, tag) == tag + " LOGOUT\r\n"@,
            ImapCommand::List { reference, wildcard } => command_text(cmd, tag) == tag
                + " LIST \""@ + escape(reference@) + "\" \""@ + escape(wildcard@) + "\"\r\n"@,
            ImapCommand::Select { mailbox } => command_text(cmd, tag) == tag + " SELECT \""@
                + escape(mailbox@) + "\"\r\n"@,
            ImapCommand::Examine { mailbox } => command_text(cmd, tag) == tag + " EXAMINE \""@
                + escape(mailbox@) + "\"\r\n"@,
            ImapCommand::UidSearch { query } => command_text(cmd, tag) == tag + " UID SEARCH "@
                + query@ + "\r\n"@,
            ImapCommand::UidFetch { uid_range, items } => command_text(cmd, tag) == tag
                + " UID FETCH "@ + uid_range@ + " ("@ + items@ + ")\r\n"@,
            ImapCommand::UidStoreFlags { uid, add, flags } => command_text(cmd, tag) == tag
                + " UID STORE "@ + dec(uid as nat) + (if add {
                " +FLAGS ("@
            } else {
                " -FLAGS ("@
            }) + flags_text(flags) + ")\r\n"@,
            ImapCommand::UidCopy { uid, target_mailbox } => command_text(cmd, tag) == tag
                + " UID COPY "@ + dec(uid as nat) + " \""@ + escape(target_mailbox@) + "\"\r\n"@,
            ImapCommand::UidMove { uid, target_mailbox } => command_text(cmd, tag) == tag
                + " UID MOVE "@ + dec(uid as nat) + " \""@ + escape(target_mailbox@) + "\"\r\n"@,
            ImapCommand::Idle => command_text(cmd, tag) == tag + " IDLE\r\n"@,
            ImapCommand::Noop => command_text(cmd, tag) == tag + " NOOP\r\n"@,
            ImapCommand::Expunge => command_text(cmd, tag) == tag + " EXPUNGE\r\n"@,
        },
{
    reveal_strlit("\"");
    reveal_strlit("\r\n");
    reveal_strlit(" ");
    reveal_strlit("\"\r\n");
    reveal_strlit("\" \"");
    reveal_strlit(" \"");
    reveal_strlit(" (");
    reveal_strlit(")\r\n");
    reveal_strlit("+FLAGS");
    reveal_strlit("-FLAGS");
    reveal_strlit(" +FLAGS (");
    reveal_strlit(" -FLAGS (");
    match cmd {
        ImapCommand::Login { username, password } => {
            reveal_strlit(" LOGIN ");
            reveal_strlit(" LOGIN \"");
            assert(command_text(cmd, tag) =~= tag + " LOGIN \""@ + escape(username@) + "\" \""@
                + escape(password@) + "\"\r\n"@);
        },
        ImapCommand::List { reference, wildcard } => {
            reveal_strlit(" LIST ");
            reveal_strlit(" LIST \"");
            assert(command_text(cmd, tag) =~= tag + " LIST \""@ + escape(reference@) + "\" \""@
                + escape(wildcard@) + "\"\r\n"@);
        },
        ImapCommand::Select { mailbox } => {
            reveal_strlit(" SELECT ");
            reveal_strlit(" SELECT \"");
            assert(command_text(cmd, tag) =~= tag + " SELECT \""@ + escape(mailbox@) + "\"\r\n"@);
        },
        ImapCommand::Examine { mailbox } => {
            reveal_strlit(" EXAMINE ");
            reveal_strlit(" EXAMINE \"");
            assert(command_text(cmd, tag) =~= tag + " EXAMINE \""@ + escape(mailbox@) + "\"\r\n"@);
        },
        ImapCommand::UidStoreFlags { uid, add, flags } => {
            reveal_strlit(" UID STORE ");
            assert(command_text(cmd, tag) =~= tag + " UID STORE "@ + dec(uid as nat) + (if add {
                " +FLAGS ("@
            } else {
                " -FLAGS ("@
            }) + flags_text(flags) + ")\r\n"@);
        },
        ImapCommand::UidCopy { uid, target_mailbox } => {
            reveal_strlit(" UID COPY ");
            assert(command_text(cmd, tag) =~= tag + " UID COPY "@ + dec(uid as nat) + " \""@ + escape(
                target_mailbox@,
            ) + "\"\r\n"@);
        },
        ImapCommand::UidMove { uid, target_mailbox } => {
            reveal_strlit(" UID MOVE ");
            assert(command_text(cmd, tag) =~= tag + " UID MOVE "@ + dec(uid as nat) + " \""@ + escape(
                target_mailbox@,
            ) + "\"\r\n"@);
        },
        _ => {},
    }
}

} // verus!
