//! The decisions of the SMTP dialogue: reading multi-line replies, the greeting,
//! EHLO, STARTTLS and authentication steps, one mail transaction, and the
//! dot-stuffing of the message. Reading and writing the socket, and the TLS
//! handshake, are left to the caller, which hands each reply to these functions
//! and performs the action they return.

use vstd::prelude::*;

use crate::account::SecurityMode;
use crate::imap::mime::cut_ok;
use crate::imap::response::strs_view;
use crate::scan::{parse_uint, parse_uint_in, trim, trim_bounds};
use crate::smtp::builder::{base64_encode, base64_standard};
use crate::smtp::error::SmtpError;
use crate::text::{
    char_len_utf8, chars_of, dec, join, join_strings, lemma_utf8_len_push,
    push_decimal, push_str, string_of_range, utf8_bytes, utf8_len,
};
use vstd::utf8::{decode_utf8, encode_utf8, valid_utf8};

verus! {

/// A complete reply: its code and its lines (trimmed).
#[derive(Debug, Clone, PartialEq, Eq)]
pub struct SmtpResponse {
    pub code: u16,
    pub lines: Vec<String>,
}

/// Whether the first three characters are ASCII.
pub open spec fn ascii3(t: Seq<char>) -> bool {
    t.len() >= 3 && (t[0] as u32) < 128 && (t[1] as u32) < 128 && (t[2] as u32) < 128
}

/// The reply code a trimmed line starts with: the number its first three bytes
/// spell (`str::parse::<u16>`, so an optional `+` and digits). When those bytes
/// are whole characters, they are three ASCII characters or the parse fails.
pub open spec fn reply_code(t: Seq<char>) -> Option<nat> {
    if ascii3(t) {
        parse_uint(t.take(3), 65535)
    } else {
        None
    }
}

/// Whether a received line can be read: its trimmed text has at most three bytes,
/// or its fourth byte starts a character.
pub open spec fn reply_line_readable(line: Seq<char>) -> bool {
    cut_ok(trim(line), 3)
}

/// Reads the lines of one reply.
#[derive(Debug, Clone)]
pub struct ReplyReader {
    pub lines: Vec<String>,
}

/// What one line of a reply leads to.
#[derive(Debug)]
pub enum ReplyStep {
    /// The reply goes on: read another line.
    More(ReplyReader),
    /// The reply is complete.
    Done(SmtpResponse),
    /// The line does not start with a reply code.
    Fail(SmtpError),
}

/// Whether the UTF-8 encoding of `v[from..to]` has at least three bytes.
fn at_least_three_bytes(v: &[char], from: usize, to: usize) -> (r: bool)
    requires
        from <= to <= v@.len(),
    ensures
        r == (utf8_len(v@.subrange(from as int, to as int)) >= 3),
{
    let ghost s = v@.subrange(from as int, to as int);
    let mut acc: usize = 0;
    let mut i = from;
    assert(s.take(0) =~= Seq::<char>::empty());
    while i < to && acc < 3
        invariant
            from <= i <= to <= v@.len(),
            s == v@.subrange(from as int, to as int),
            acc == utf8_len(s.take(i - from)),
            acc < 3 || i == from || acc <= 6,
        decreases to - i,
    {
        proof {
            assert(s.take(i - from + 1) =~= s.take(i - from).push(s[i - from]));
            lemma_utf8_len_push(s.take(i - from), s[i - from]);
        }
        acc = acc + char_len_utf8(v[i]);
        i = i + 1;
    }
    if acc >= 3 {
        proof {
            if i < to {
                crate::imap::mime::lemma_utf8_prefix_increasing(s, i - from, s.len() as int);
            }
            assert(s.take(s.len() as int) =~= s);
        }
        true
    } else {
        assert(s.take(i - from) =~= s);
        false
    }
}

impl ReplyReader {
    pub fn new() -> (r: Self)
        ensures
            r.lines@.len() == 0,
    {
        ReplyReader { lines: Vec::new() }
    }

    /// Takes one received line: lines of fewer than three bytes (after trimming)
    /// are skipped; a line without a code is a protocol error; a line whose code is
    /// followed by nothing or a space ends the reply.
    pub fn on_line(self, line: &str) -> (step: ReplyStep)
        requires
            reply_line_readable(line@),
        ensures
            ({
                let t = trim(line@);
                if utf8_len(t) < 3 {
                    step matches ReplyStep::More(r) && strs_view(r.lines@) == strs_view(self.lines@)
                } else {
                    match reply_code(t) {
                        None => (step matches ReplyStep::Fail(SmtpError::Protocol(m)) && m@
                            == "Invalid status code in: "@ + t),
                        Some(c) => if t.len() == 3 || t[3] == ' ' {
                            step matches ReplyStep::Done(resp) && resp.code == c && strs_view(
                                resp.lines@,
                            ) == strs_view(self.lines@).push(t)
                        } else {
                            step matches ReplyStep::More(r) && strs_view(r.lines@) == strs_view(
                                self.lines@,
                            ).push(t)
                        },
                    }
                }
            }),
    {
        let v = chars_of(line);
        let n = v.len();
        assert(v@.subrange(0, n as int) =~= v@);
        let (a, b) = trim_bounds(v.as_slice(), 0, n);
        let ghost t = trim(line@);
        assert(v@.subrange(a as int, b as int) == t);
        if !at_least_three_bytes(v.as_slice(), a, b) {
            return ReplyStep::More(self);
        }
        let text = string_of_range(v.as_slice(), a, b);
        let ascii = b - a >= 3 && (v[a] as u32) < 128 && (v[a + 1] as u32) < 128 && (v[a + 2] as u32)
            < 128;
        let code = if ascii {
            assert(v@.subrange(a as int, a + 3) =~= t.take(3));
            parse_uint_in(v.as_slice(), a, a + 3, 65535)
        } else {
            None
        };
        match code {
            None => {
                let mut m = "Invalid status code in: ".to_owned();
                push_str(&mut m, text.as_str());
                ReplyStep::Fail(SmtpError::Protocol(m))
            },
            Some(c) => {
                let last = b - a == 3 || v[a + 3] == ' ';
                let mut lines = self.lines;
                let ghost before = lines@;
                lines.push(text);
                assert(strs_view(lines@) =~= strs_view(before).push(t));
                if last {
                    ReplyStep::Done(SmtpResponse { code: c as u16, lines })
                } else {
                    ReplyStep::More(ReplyReader { lines })
                }
            },
        }
    }
}

/// The lines of a reply joined by spaces.
pub open spec fn reply_text(r: SmtpResponse) -> Seq<char> {
    join(strs_view(r.lines@), " "@)
}

/// `CommandRejected` with the code and text of a reply.
fn rejected(r: &SmtpResponse) -> (e: SmtpError)
    ensures
        e matches SmtpError::CommandRejected(c, m) && c == r.code && m@ == reply_text(*r),
{
    SmtpError::CommandRejected(r.code, join_strings(&r.lines, " "))
}

/// An authentication error: `what rejected: code <code> <reply text>`.
pub open spec fn auth_failure_text(what: Seq<char>, r: SmtpResponse) -> Seq<char> {
    what + " rejected: code "@ + dec(r.code as nat) + " "@ + reply_text(r)
}

fn auth_rejected(what: &str, r: &SmtpResponse) -> (e: SmtpError)
    ensures
        e matches SmtpError::Authentication(m) && m@ == auth_failure_text(what@, *r),
{
    let mut m = what.to_owned();
    push_str(&mut m, " rejected: code ");
    push_decimal(&mut m, r.code as u64);
    push_str(&mut m, " ");
    let t = join_strings(&r.lines, " ");
    push_str(&mut m, t.as_str());
    SmtpError::Authentication(m)
}

/// Where the opening dialogue stands: what the next reply answers.
#[derive(Debug, Clone, Copy, PartialEq, Eq, Structural)]
pub enum DialoguePhase {
    Greeting,
    Ehlo,
    StartTls,
    EhloAfterTls,
    AuthLogin,
    AuthUser,
    AuthPassword,
    AuthPlain,
    Ready,
}

/// The opening of an SMTP session: greeting, EHLO, STARTTLS when configured and
/// authentication when a user name is set.
#[derive(Debug, Clone)]
pub struct SmtpDialogue {
    pub phase: DialoguePhase,
    pub security: SecurityMode,
    pub username: String,
    pub password: String,
}

/// What the caller does next.
#[derive(Debug)]
pub enum SmtpAction {
    /// Send this command and hand over the reply.
    Send(String),
    /// Perform the TLS handshake, then call `after_tls`.
    UpgradeTls,
    /// The session is ready.
    Ready,
    /// The dialogue failed.
    Fail(SmtpError),
}

/// The bytes of the AUTH PLAIN credentials: NUL, user, NUL, password.
pub open spec fn plain_credentials(user: Seq<char>, password: Seq<char>) -> Seq<u8> {
    seq![0u8] + encode_utf8(user) + seq![0u8] + encode_utf8(password)
}

impl SmtpDialogue {
    /// A new session; the first reply to read is the greeting.
    pub fn new(security: SecurityMode, username: String, password: String) -> (r: Self)
        ensures
            r.phase == DialoguePhase::Greeting,
            r.security == security,
            r.username == username,
            r.password == password,
    {
        SmtpDialogue { phase: DialoguePhase::Greeting, security, username, password }
    }

    fn auth_or_ready(&mut self) -> (a: SmtpAction)
        ensures
            final(self).security == old(self).security,
            final(self).username == old(self).username,
            final(self).password == old(self).password,
            if old(self).username@.len() > 0 {
                final(self).phase == DialoguePhase::AuthLogin && (a matches SmtpAction::Send(c)
                    && c@ == "AUTH LOGIN\r\n"@)
            } else {
                final(self).phase == DialoguePhase::Ready && a is Ready
            },
    {
        if self.username.as_str().unicode_len() > 0 {
            self.phase = DialoguePhase::AuthLogin;
            SmtpAction::Send("AUTH LOGIN\r\n".to_owned())
        } else {
            self.phase = DialoguePhase::Ready;
            SmtpAction::Ready
        }
    }

    /// The next step after the TLS handshake: EHLO again.
    pub fn after_tls(&mut self) -> (a: SmtpAction)
        requires
            old(self).phase == DialoguePhase::EhloAfterTls,
        ensures
            *final(self) == *old(self),
            a matches SmtpAction::Send(c) && c@ == "EHLO localhost\r\n"@,
    {
        SmtpAction::Send("EHLO localhost\r\n".to_owned())
    }

    /// The next step after a reply.
    pub fn on_reply(&mut self, r: &SmtpResponse) -> (a: SmtpAction)
        requires
            old(self).phase != DialoguePhase::Ready,
        ensures
            final(self).security == old(self).security,
            final(self).username == old(self).username,
            final(self).password == old(self).password,
            match old(self).phase {
                DialoguePhase::Greeting => if r.code != 220 {
                    a matches SmtpAction::Fail(SmtpError::CommandRejected(c, m)) && c == r.code
                        && m@ == reply_text(*r)
                } else {
                    final(self).phase == DialoguePhase::Ehlo && (a matches SmtpAction::Send(c)
                        && c@ == "EHLO localhost\r\n"@)
                },
                DialoguePhase::Ehlo => if r.code != 250 {
                    a matches SmtpAction::Fail(SmtpError::CommandRejected(c, m)) && c == r.code
                        && m@ == reply_text(*r)
                } else if old(self).security == SecurityMode::StartTls {
                    final(self).phase == DialoguePhase::StartTls && (a matches SmtpAction::Send(c)
                        && c@ == "STARTTLS\r\n"@)
                } else if old(self).username@.len() > 0 {
                    final(self).phase == DialoguePhase::AuthLogin && (a matches SmtpAction::Send(c)
                        && c@ == "AUTH LOGIN\r\n"@)
                } else {
                    final(self).phase == DialoguePhase::Ready && a is Ready
                },
                DialoguePhase::StartTls => if r.code != 220 {
                    a matches SmtpAction::Fail(SmtpError::CommandRejected(c, m)) && c == r.code
                        && m@ == reply_text(*r)
                } else {
                    final(self).phase == DialoguePhase::EhloAfterTls && a is UpgradeTls
                },
                DialoguePhase::EhloAfterTls => if r.code != 250 {
                    a matches SmtpAction::Fail(SmtpError::CommandRejected(c, m)) && c == r.code
                        && m@ == reply_text(*r)
                } else if old(self).username@.len() > 0 {
                    final(self).phase == DialoguePhase::AuthLogin && (a matches SmtpAction::Send(c)
                        && c@ == "AUTH LOGIN\r\n"@)
                } else {
                    final(self).phase == DialoguePhase::Ready && a is Ready
                },
                DialoguePhase::AuthLogin => if r.code == 334 {
                    final(self).phase == DialoguePhase::AuthUser && (a matches SmtpAction::Send(c)
                        && c@ == base64_standard(encode_utf8(old(self).username@)) + "\r\n"@)
                } else {
                    final(self).phase == DialoguePhase::AuthPlain && (a matches SmtpAction::Send(c)
                        && c@ == "AUTH PLAIN "@ + base64_standard(
                        plain_credentials(old(self).username@, old(self).password@),
                    ) + "\r\n"@)
                },
                DialoguePhase::AuthUser => if r.code != 334 {
                    a matches SmtpAction::Fail(SmtpError::Authentication(m)) && m@
                        == auth_failure_text("AUTH LOGIN username"@, *r)
                } else {
                    final(self).phase == DialoguePhase::AuthPassword && (a matches SmtpAction::Send(
                        c,
                    ) && c@ == base64_standard(encode_utf8(old(self).password@)) + "\r\n"@)
                },
                DialoguePhase::AuthPassword => if r.code != 235 {
                    a matches SmtpAction::Fail(SmtpError::Authentication(m)) && m@
                        == auth_failure_text("AUTH LOGIN password"@, *r)
                } else {
                    final(self).phase == DialoguePhase::Ready && a is Ready
                },
                DialoguePhase::AuthPlain => if r.code != 235 {
                    a matches SmtpAction::Fail(SmtpError::Authentication(m)) && m@
                        == auth_failure_text("AUTH PLAIN"@, *r)
                } else {
                    final(self).phase == DialoguePhase::Ready && a is Ready
                },
                DialoguePhase::Ready => true,
            },
    {
        match self.phase {
            DialoguePhase::Greeting => {
                if r.code != 220 {
                    SmtpAction::Fail(rejected(r))
                } else {
                    self.phase = DialoguePhase::Ehlo;
                    SmtpAction::Send("EHLO localhost\r\n".to_owned())
                }
            },
            DialoguePhase::Ehlo => {
                if r.code != 250 {
                    SmtpAction::Fail(rejected(r))
                } else if self.security == SecurityMode::StartTls {
                    self.phase = DialoguePhase::StartTls;
                    SmtpAction::Send("STARTTLS\r\n".to_owned())
                } else {
                    self.auth_or_ready()
                }
            },
            DialoguePhase::StartTls => {
                if r.code != 220 {
                    SmtpAction::Fail(rejected(r))
                } else {
                    self.phase = DialoguePhase::EhloAfterTls;
                    SmtpAction::UpgradeTls
                }
            },
            DialoguePhase::EhloAfterTls => {
                if r.code != 250 {
                    SmtpAction::Fail(rejected(r))
                } else {
                    self.auth_or_ready()
                }
            },
            DialoguePhase::AuthLogin => {
                if r.code == 334 {
                    self.phase = DialoguePhase::AuthUser;
                    let user = utf8_bytes(self.username.as_str());
                    let mut c = base64_encode(user.as_slice());
                    push_str(&mut c, "\r\n");
                    SmtpAction::Send(c)
                } else {
                    self.phase = DialoguePhase::AuthPlain;
                    let mut bytes: Vec<u8> = Vec::new();
                    bytes.push(0u8);
                    let user = utf8_bytes(self.username.as_str());
                    let pass = utf8_bytes(self.password.as_str());
                    append_bytes(&mut bytes, &user);
                    bytes.push(0u8);
                    append_bytes(&mut bytes, &pass);
                    assert(bytes@ =~= plain_credentials(self.username@, self.password@));
                    let mut c = "AUTH PLAIN ".to_owned();
                    let b = base64_encode(bytes.as_slice());
                    push_str(&mut c, b.as_str());
                    push_str(&mut c, "\r\n");
                    SmtpAction::Send(c)
                }
            },
            DialoguePhase::AuthUser => {
                if r.code != 334 {
                    SmtpAction::Fail(auth_rejected("AUTH LOGIN username", r))
                } else {
                    self.phase = DialoguePhase::AuthPassword;
                    let pass = utf8_bytes(self.password.as_str());
                    let mut c = base64_encode(pass.as_slice());
                    push_str(&mut c, "\r\n");
                    SmtpAction::Send(c)
                }
            },
            DialoguePhase::AuthPassword => {
                if r.code != 235 {
                    SmtpAction::Fail(auth_rejected("AUTH LOGIN password", r))
                } else {
                    self.phase = DialoguePhase::Ready;
                    SmtpAction::Ready
                }
            },
            DialoguePhase::AuthPlain => {
                if r.code != 235 {
                    SmtpAction::Fail(auth_rejected("AUTH PLAIN", r))
                } else {
                    self.phase = DialoguePhase::Ready;
                    SmtpAction::Ready
                }
            },
            DialoguePhase::Ready => SmtpAction::Ready,
        }
    }
}

fn append_bytes(dst: &mut Vec<u8>, src: &Vec<u8>)
    ensures
        final(dst)@ == old(dst)@ + src@,
{
    let mut i: usize = 0;
    while i < src.len()
        invariant
            0 <= i <= src@.len(),
            dst@ == old(dst)@ + src@.take(i as int),
        decreases src@.len() - i,
    {
        dst.push(src[i]);
        i = i + 1;
        assert(dst@ =~= old(dst)@ + src@.take(i as int));
    }
    assert(src@.take(src@.len() as int) =~= src@);
}

/// `String::from_utf8_lossy`: the text of the bytes, each invalid sequence
/// replaced by U+FFFD.
pub uninterp spec fn utf8_lossy(bytes: Seq<u8>) -> Seq<char>;

/// `String::from_utf8_lossy(bytes).into_owned()`. For valid UTF-8 it is the
/// decoded text, as the documentation states.
#[verifier::external_body]
fn lossy_text(bytes: &[u8]) -> (r: String)
    ensures
        r@ == utf8_lossy(bytes@),
        valid_utf8(bytes@) ==> r@ == decode_utf8(bytes@),
{
    String::from_utf8_lossy(bytes).into_owned()
}

/// `str::lines`: the text split after each `\n`, each line without its `\n` and,
/// before it, one `\r`; a last line without `\n` is kept whole, and nothing
/// follows a final `\n`.
pub open spec fn text_lines(s: Seq<char>) -> Seq<Seq<char>>
    decreases s.len(),
{
    if s.len() == 0 {
        seq![]
    } else {
        match crate::scan::find_char(s, '\n') {
            None => seq![s],
            Some(i) => {
                let line = s.take(i as int);
                let line = if line.len() > 0 && line.last() == '\r' {
                    line.drop_last()
                } else {
                    line
                };
                proof {
                    crate::scan::lemma_find_char_bound(s, '\n');
                }
                seq![line] + text_lines(s.skip(i + 1 as int))
            },
        }
    }
}

/// A line as sent in DATA: with a `.` put before a leading `.`, and CRLF after.
pub open spec fn stuffed_line(l: Seq<char>) -> Seq<char> {
    (if l.len() > 0 && l[0] == '.' {
        "."@
    } else {
        seq![]
    }) + l + "\r\n"@
}

pub open spec fn stuffed_lines(ls: Seq<Seq<char>>) -> Seq<char>
    decreases ls.len(),
{
    if ls.len() == 0 {
        seq![]
    } else {
        stuffed_lines(ls.drop_last()) + stuffed_line(ls.last())
    }
}

/// The DATA payload of a message: its lines dot-stuffed, then `.` alone.
pub open spec fn dot_stuffed(raw: Seq<u8>) -> Seq<u8> {
    encode_utf8(stuffed_lines(text_lines(utf8_lossy(raw))) + ".\r\n"@)
}

/// The DATA payload of a message: its lines dot-stuffed, each ended by CRLF, then
/// the terminating `.` line.
pub fn dot_stuff(raw: &[u8]) -> (r: Vec<u8>)
    ensures
        r@ == dot_stuffed(raw@),
{
    let text = lossy_text(raw);
    let v = chars_of(text.as_str());
    let n = v.len();
    let mut out = String::new();
    let mut pos: usize = 0;
    let ghost mut done: Seq<Seq<char>> = seq![];
    assert(v@.skip(0) =~= v@);
    while pos < n
        invariant
            v@ == utf8_lossy(raw@),
            n == v@.len(),
            pos <= n,
            text_lines(v@) == done + text_lines(v@.skip(pos as int)),
            out@ == stuffed_lines(done),
        decreases n - pos,
    {
        let ghost rest = v@.skip(pos as int);
        assert(v@.subrange(pos as int, n as int) =~= rest);
        let (end, next) = match crate::scan::find_char_in(v.as_slice(), pos, n, '\n') {
            Some(k) => (pos + k, pos + k + 1),
            None => (n, n),
        };
        let mut stop = end;
        if stop > pos && v[stop - 1] == '\r' && next > end {
            stop = stop - 1;
        }
        let line = string_of_range(v.as_slice(), pos, stop);
        let ghost l = line@;
        proof {
            if next > end {
                assert(rest.take(end - pos) =~= v@.subrange(pos as int, end as int));
                assert(rest.skip(end - pos + 1) =~= v@.skip(next as int));
                if stop < end {
                    assert(v@.subrange(pos as int, end as int).drop_last() =~= l);
                }
            } else {
                assert(rest =~= l);
                assert(v@.skip(next as int).len() == 0);
                assert(text_lines(v@.skip(next as int)) =~= Seq::<Seq<char>>::empty());
            }
            assert(text_lines(rest) =~= seq![l] + text_lines(v@.skip(next as int)));
        }
        let ghost before = out@;
        if stop > pos && v[pos] == '.' {
            push_str(&mut out, ".");
        }
        push_str(&mut out, line.as_str());
        push_str(&mut out, "\r\n");
        proof {
            assert(l.len() > 0 ==> l[0] == v@[pos as int]);
            assert(out@ =~= before + stuffed_line(l));
            assert(done.push(l).drop_last() =~= done);
            assert(done + text_lines(rest) =~= done.push(l) + text_lines(v@.skip(next as int)));
            done = done.push(l);
        }
        pos = next;
    }
    assert(v@.skip(n as int).len() == 0);
    assert(done =~= text_lines(v@));
    push_str(&mut out, ".\r\n");
    utf8_bytes(out.as_str())
}

/// Where a mail transaction stands.
#[derive(Debug, Clone, Copy, PartialEq, Eq, Structural)]
pub enum MailPhase {
    MailFrom,
    Recipient(usize),
    Data,
    Body,
    Done,
}

/// One message handed to the server: MAIL FROM, RCPT TO for each recipient,
/// DATA, the dot-stuffed message.
#[derive(Debug, Clone)]
pub struct MailTransaction {
    pub phase: MailPhase,
    pub recipients: Vec<String>,
}

/// What the caller does next in a transaction.
#[derive(Debug)]
pub enum MailAction {
    /// Send this command and hand over the reply.
    Send(String),
    /// Send the dot-stuffed message and hand over the reply.
    SendBody,
    /// The server accepted the message.
    Accepted,
    /// The transaction failed.
    Fail(SmtpError),
}

pub open spec fn rcpt_command(r: Seq<char>) -> Seq<char> {
    "RCPT TO:<"@ + r + ">\r\n"@
}

fn rcpt(r: &String) -> (c: String)
    ensures
        c@ == rcpt_command(r@),
{
    let mut c = "RCPT TO:<".to_owned();
    push_str(&mut c, r.as_str());
    push_str(&mut c, ">\r\n");
    c
}

impl MailTransaction {
    /// Starts a transaction; the first command is MAIL FROM.
    pub fn start(from_address: &str, recipients: Vec<String>) -> (r: (Self, String))
        ensures
            r.0.phase == MailPhase::MailFrom,
            r.0.recipients@ == recipients@,
            r.1@ == "MAIL FROM:<"@ + from_address@ + ">\r\n"@,
    {
        let mut c = "MAIL FROM:<".to_owned();
        push_str(&mut c, from_address);
        push_str(&mut c, ">\r\n");
        (MailTransaction { phase: MailPhase::MailFrom, recipients }, c)
    }

    fn after_recipient(&mut self, i: usize) -> (a: MailAction)
        requires
            i < old(self).recipients@.len(),
        ensures
            final(self).recipients == old(self).recipients,
            if i + 1 < old(self).recipients@.len() {
                final(self).phase == MailPhase::Recipient((i + 1) as usize) && (a matches MailAction::Send(
                    c,
                ) && c@ == rcpt_command(old(self).recipients@[i + 1]@))
            } else {
                final(self).phase == MailPhase::Data && (a matches MailAction::Send(c) && c@
                    == "DATA\r\n"@)
            },
    {
        if i < self.recipients.len() - 1 {
            self.phase = MailPhase::Recipient(i + 1);
            MailAction::Send(rcpt(&self.recipients[i + 1]))
        } else {
            self.phase = MailPhase::Data;
            MailAction::Send("DATA\r\n".to_owned())
        }
    }

    /// The next step after a reply: MAIL FROM and each RCPT TO want 250 (RCPT also
    /// 251), DATA wants 354 and the message 250; anything else rejects the command.
    pub fn on_reply(&mut self, r: &SmtpResponse) -> (a: MailAction)
        requires
            old(self).phase != MailPhase::Done,
            old(self).phase matches MailPhase::Recipient(i) ==> i < old(self).recipients@.len(),
        ensures
            final(self).recipients == old(self).recipients,
            final(self).phase matches MailPhase::Recipient(i) ==> i < final(self).recipients@.len(),
            match old(self).phase {
                MailPhase::MailFrom => if r.code != 250 {
                    a matches MailAction::Fail(SmtpError::CommandRejected(c, m)) && c == r.code
                        && m@ == reply_text(*r)
                } else if old(self).recipients@.len() > 0 {
                    final(self).phase == MailPhase::Recipient(0) && (a matches MailAction::Send(c)
                        && c@ == rcpt_command(old(self).recipients@[0]@))
                } else {
                    final(self).phase == MailPhase::Data && (a matches MailAction::Send(c) && c@
                        == "DATA\r\n"@)
                },
                MailPhase::Recipient(i) => if r.code != 250 && r.code != 251 {
                    a matches MailAction::Fail(SmtpError::CommandRejected(c, m)) && c == r.code
                        && m@ == reply_text(*r)
                } else if i + 1 < old(self).recipients@.len() {
                    final(self).phase == MailPhase::Recipient((i + 1) as usize) && (a matches MailAction::Send(
                        c,
                    ) && c@ == rcpt_command(old(self).recipients@[i + 1]@))
                } else {
                    final(self).phase == MailPhase::Data && (a matches MailAction::Send(c) && c@
                        == "DATA\r\n"@)
                },
                MailPhase::Data => if r.code != 354 {
                    a matches MailAction::Fail(SmtpError::CommandRejected(c, m)) && c == r.code
                        && m@ == reply_text(*r)
                } else {
                    final(self).phase == MailPhase::Body && a is SendBody
                },
                MailPhase::Body => if r.code != 250 {
                    a matches MailAction::Fail(SmtpError::CommandRejected(c, m)) && c == r.code
                        && m@ == reply_text(*r)
                } else {
                    final(self).phase == MailPhase::Done && a is Accepted
                },
                MailPhase::Done => true,
            },
    {
        match self.phase {
            MailPhase::MailFrom => {
                if r.code != 250 {
                    MailAction::Fail(rejected(r))
                } else if self.recipients.len() > 0 {
                    self.phase = MailPhase::Recipient(0);
                    MailAction::Send(rcpt(&self.recipients[0]))
                } else {
                    self.phase = MailPhase::Data;
                    MailAction::Send("DATA\r\n".to_owned())
                }
            },
            MailPhase::Recipient(i) => {
                if r.code != 250 && r.code != 251 {
                    MailAction::Fail(rejected(r))
                } else {
                    self.after_recipient(i)
                }
            },
            MailPhase::Data => {
                if r.code != 354 {
                    MailAction::Fail(rejected(r))
                } else {
                    self.phase = MailPhase::Body;
                    MailAction::SendBody
                }
            },
            MailPhase::Body => {
                if r.code != 250 {
                    MailAction::Fail(rejected(r))
                } else {
                    self.phase = MailPhase::Done;
                    MailAction::Accepted
                }
            },
            MailPhase::Done => MailAction::Accepted,
        }
    }
}

} // verus!
