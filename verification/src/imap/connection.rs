//! The decisions of an IMAP connection: command tags, collecting the responses to
//! a command, and the IDLE handshake. Reading and writing the socket is left to
//! the caller, which hands each received line to these functions.

use vstd::prelude::*;

use crate::imap::error::ImapError;
use crate::imap::parser::{line_rule, parse_line};
use crate::imap::response::{
    FetchResponse, FetchView, ImapLine, LineView, Status, TaggedResponse, TaggedView, UntaggedResponse,
    UntaggedView,
};
use crate::text::{dec, digit_char, push_decimal, push_str};

verus! {

/// `count` in decimal, padded with zeros on the left to at least four digits.
pub open spec fn pad4(d: Seq<char>) -> Seq<char> {
    if d.len() < 4 {
        Seq::new((4 - d.len()) as nat, |i: int| '0') + d
    } else {
        d
    }
}

/// The tag of the command numbered `count`: `A` and the zero-padded number.
pub open spec fn tag_text(count: u64) -> Seq<char> {
    "A"@ + pad4(dec(count as nat))
}

/// The number a string of decimal digits spells (leading zeros allowed).
pub open spec fn digits_value(s: Seq<char>) -> int
    decreases s.len(),
{
    if s.len() == 0 {
        0
    } else {
        digits_value(s.drop_last()) * 10 + ((s.last() as u32) as int - 48)
    }
}

proof fn lemma_digit_value(d: nat)
    requires
        d < 10,
    ensures
        (digit_char(d) as u32) as int - 48 == d,
{
    assert(((d + 48) as u32) as char as u32 == (d + 48) as u32);
}

proof fn lemma_dec_value(n: nat)
    ensures
        digits_value(dec(n)) == n,
    decreases n,
{
    lemma_digit_value(n % 10);
    let d = dec(n);
    if n < 10 {
        assert(d.drop_last() =~= Seq::<char>::empty());
        assert(d.last() == digit_char(n));
        assert(digits_value(d) == digits_value(d.drop_last()) * 10 + ((d.last() as u32) as int - 48));
    } else {
        lemma_dec_value(n / 10);
        assert(d.drop_last() =~= dec(n / 10));
        assert(d.last() == digit_char(n % 10));
        assert(digits_value(d) == digits_value(d.drop_last()) * 10 + ((d.last() as u32) as int - 48));
        assert(n == (n / 10) * 10 + n % 10);
    }
}

proof fn lemma_zeros_value(z: Seq<char>, d: Seq<char>)
    requires
        forall|i: int| 0 <= i < z.len() ==> z[i] == '0',
    ensures
        digits_value(z + d) == digits_value(d),
    decreases z.len() + d.len(),
{
    if d.len() == 0 {
        assert(z + d =~= z);
        if z.len() > 0 {
            lemma_zeros_value(z.drop_last(), d);
            assert(z.drop_last() + d =~= z.drop_last());
        }
    } else {
        lemma_zeros_value(z, d.drop_last());
        assert((z + d).drop_last() =~= z + d.drop_last());
    }
}

proof fn lemma_pad4_value(n: nat)
    ensures
        digits_value(pad4(dec(n))) == n,
{
    lemma_dec_value(n);
    let d = dec(n);
    if d.len() < 4 {
        lemma_zeros_value(Seq::new((4 - d.len()) as nat, |i: int| '0'), d);
    }
}

/// Commands numbered differently get different tags: the tags of one connection,
/// whose commands are numbered one after another, are pairwise distinct.
pub proof fn lemma_tags_distinct(a: u64, b: u64)
    requires
        a != b,
    ensures
        tag_text(a) != tag_text(b),
{
    reveal_strlit("A");
    lemma_pad4_value(a as nat);
    lemma_pad4_value(b as nat);
    if tag_text(a) == tag_text(b) {
        assert(tag_text(a).skip(1) =~= pad4(dec(a as nat)));
        assert(tag_text(b).skip(1) =~= pad4(dec(b as nat)));
    }
}

/// The tag of the command numbered `count` (`format!("A{:04}", count)`).
pub fn next_tag(count: u64) -> (r: String)
    ensures
        r@ == tag_text(count),
{
    let mut digits = String::new();
    push_decimal(&mut digits, count);
    let mut r = "A".to_owned();
    let n = digits.as_str().unicode_len();
    let mut k = n;
    while k < 4
        invariant
            n <= k,
            k <= 4 || k == n,
            n == dec(count as nat).len(),
            r@ == "A"@ + Seq::new((k - n) as nat, |i: int| '0'),
        decreases 4 - k,
    {
        crate::text::push_char(&mut r, '0');
        k = k + 1;
        assert(r@ =~= "A"@ + Seq::new((k - n) as nat, |i: int| '0'));
    }
    push_str(&mut r, digits.as_str());
    assert(r@ =~= tag_text(count));
    r
}

/// The numbering of the commands sent on one connection, from 1.
#[derive(Debug)]
pub struct TagCounter {
    pub next: u64,
}

impl TagCounter {
    /// A new connection: its first command is numbered 1.
    pub fn new() -> (r: Self)
        ensures
            r.next == 1,
    {
        TagCounter { next: 1 }
    }

    /// The tag of the next command; the count moves on by one.
    pub fn take(&mut self) -> (r: String)
        requires
            old(self).next < u64::MAX,
        ensures
            r@ == tag_text(old(self).next),
            final(self).next == old(self).next + 1,
    {
        let t = next_tag(self.next);
        self.next = self.next + 1;
        t
    }
}

/// The name `Debug` gives a status.
pub open spec fn status_name(s: Status) -> Seq<char> {
    match s {
        Status::OK => "Ok"@,
        Status::No => "No"@,
        Status::Bad => "Bad"@,
        Status::PreAuth => "PreAuth"@,
        Status::Bye => "Bye"@,
    }
}

fn status_text(s: Status) -> (r: String)
    ensures
        r@ == status_name(s),
{
    match s {
        Status::OK => "Ok".to_owned(),
        Status::No => "No".to_owned(),
        Status::Bad => "Bad".to_owned(),
        Status::PreAuth => "PreAuth".to_owned(),
        Status::Bye => "Bye".to_owned(),
    }
}

/// The responses gathered so far for the command tagged `tag`.
#[derive(Debug)]
pub struct Exchange {
    pub tag: String,
    pub untagged: Vec<UntaggedResponse>,
}

/// What to do after a line of the exchange.
#[derive(Debug)]
pub enum ExchangeStep {
    /// Read the next line.
    Continue,
    /// The command completed: its tagged response, or the error it ended with.
    Finished(Result<TaggedResponse, ImapError>),
}

pub open spec fn untagged_seq(v: Seq<UntaggedResponse>) -> Seq<UntaggedView> {
    v.map_values(|u: UntaggedResponse| u@)
}

/// The `FETCH` response a line announces, completed with the literal that
/// followed it; `None` when there is no literal or the line is no `FETCH`.
pub open spec fn literal_fetch(line: Seq<char>, literal: Option<Seq<u8>>) -> Option<FetchView> {
    match literal {
        Some(d) => match line_rule(line) {
            Some(LineView::Untagged(UntaggedView::Fetch(f))) => Some(
                FetchView { rfc822_body: Some(d), ..f },
            ),
            _ => None,
        },
        None => None,
    }
}

pub open spec fn opt_bytes_view(o: Option<Vec<u8>>) -> Option<Seq<u8>> {
    match o {
        Some(b) => Some(b@),
        None => None,
    }
}

/// The gathered responses and the step after one line of the exchange.
pub open spec fn exchange_after(
    tag: Seq<char>,
    before: Seq<UntaggedView>,
    line: Seq<char>,
    literal: Option<Seq<u8>>,
    after: Seq<UntaggedView>,
    step: ExchangeStep,
) -> bool {
    match literal_fetch(line, literal) {
        Some(f) => after == before.push(UntaggedView::Fetch(f)) && step is Continue,
        None => match line_rule(line) {
            Some(LineView::Untagged(u)) => after == before.push(u) && step is Continue,
            Some(LineView::Tagged(t)) => after == before && if t.tag == tag {
                if t.status == Status::OK {
                    step matches ExchangeStep::Finished(Ok(x)) && x@ == t
                } else {
                    step matches ExchangeStep::Finished(Err(ImapError::CommandFailed(s, m)))
                        && s@ == status_name(t.status) && m@ == t.text
                }
            } else {
                step is Continue
            },
            _ => after == before && step is Continue,
        },
    }
}

fn push_untagged(v: &mut Vec<UntaggedResponse>, u: UntaggedResponse)
    ensures
        untagged_seq(final(v)@) == untagged_seq(old(v)@).push(u@),
{
    v.push(u);
    assert(untagged_seq(final(v)@) =~= untagged_seq(old(v)@).push(u@));
}

impl Exchange {
    /// A command tagged `tag` was sent; nothing received yet.
    pub fn new(tag: String) -> (r: Self)
        ensures
            r.tag == tag,
            r.untagged@.len() == 0,
    {
        Exchange { tag, untagged: Vec::new() }
    }

    /// Takes one received line and, when the line announced a literal, the bytes of
    /// that literal.
    pub fn on_line(&mut self, line: &str, literal: Option<Vec<u8>>) -> (step: ExchangeStep)
        ensures
            final(self).tag == old(self).tag,
            exchange_after(
                old(self).tag@,
                untagged_seq(old(self).untagged@),
                line@,
                opt_bytes_view(literal),
                untagged_seq(final(self).untagged@),
                step,
            ),
    {
        let parsed = parse_line(line);
        if let Some(data) = literal {
            if let Ok(ImapLine::Untagged(UntaggedResponse::Fetch(f))) = parsed {
                let fetch = FetchResponse {
                    seq: f.seq,
                    uid: f.uid,
                    flags: f.flags,
                    rfc822_size: f.rfc822_size,
                    rfc822_body: Some(data),
                };
                push_untagged(&mut self.untagged, UntaggedResponse::Fetch(fetch));
                return ExchangeStep::Continue;
            }
            return self.on_parsed(parse_line(line));
        }
        self.on_parsed(parsed)
    }

    fn on_parsed(&mut self, parsed: Result<ImapLine, crate::imap::parser::LineError>) -> (step: ExchangeStep)
        ensures
            final(self).tag == old(self).tag,
            match parsed {
                Ok(ImapLine::Untagged(u)) => untagged_seq(final(self).untagged@) == untagged_seq(
                    old(self).untagged@,
                ).push(u@) && step is Continue,
                Ok(ImapLine::Tagged(t)) => untagged_seq(final(self).untagged@) == untagged_seq(
                    old(self).untagged@,
                ) && if t.tag@ == old(self).tag@ {
                    if t.status == Status::OK {
                        step matches ExchangeStep::Finished(Ok(x)) && x@ == t@
                    } else {
                        step matches ExchangeStep::Finished(Err(ImapError::CommandFailed(s, m)))
                            && s@ == status_name(t.status) && m@ == t.text@
                    }
                } else {
                    step is Continue
                },
                _ => untagged_seq(final(self).untagged@) == untagged_seq(old(self).untagged@)
                    && step is Continue,
            },
    {
        match parsed {
            Ok(ImapLine::Tagged(t)) => {
                if crate::text::chars_eq_str(
                    crate::text::chars_of(t.tag.as_str()).as_slice(),
                    self.tag.as_str(),
                ) {
                    if t.status == Status::OK {
                        ExchangeStep::Finished(Ok(t))
                    } else {
                        let s = status_text(t.status);
                        ExchangeStep::Finished(Err(ImapError::CommandFailed(s, t.text)))
                    }
                } else {
                    ExchangeStep::Continue
                }
            },
            Ok(ImapLine::Untagged(u)) => {
                push_untagged(&mut self.untagged, u);
                ExchangeStep::Continue
            },
            _ => ExchangeStep::Continue,
        }
    }
}

/// How a command exchange ended.
pub enum ExchangeEnd {
    /// The tagged `OK` answer.
    Completed(TaggedView),
    /// A tagged `NO` or `BAD`: the status word and the text.
    Failed(Seq<char>, Seq<char>),
}

/// What one line (with the literal it announced) adds to the gathered answers.
pub open spec fn line_adds(line: Seq<char>, literal: Option<Seq<u8>>) -> Option<UntaggedView> {
    match literal_fetch(line, literal) {
        Some(f) => Some(UntaggedView::Fetch(f)),
        None => match line_rule(line) {
            Some(LineView::Untagged(u)) => Some(u),
            _ => None,
        },
    }
}

/// Whether one line ends the exchange of the command tagged `tag`, and how.
pub open spec fn line_ends(tag: Seq<char>, line: Seq<char>, literal: Option<Seq<u8>>) -> Option<ExchangeEnd> {
    match literal_fetch(line, literal) {
        Some(_) => None,
        None => match line_rule(line) {
            Some(LineView::Tagged(t)) => if t.tag == tag {
                if t.status == Status::OK {
                    Some(ExchangeEnd::Completed(t))
                } else {
                    Some(ExchangeEnd::Failed(status_name(t.status), t.text))
                }
            } else {
                None
            },
            _ => None,
        },
    }
}

/// The whole exchange of the command tagged `tag` over the received lines: the
/// answers gathered up to the line that ends it, and how it ended (`None` when no
/// line ends it). Lines after the end are not read.
pub open spec fn exchange_outcome(tag: Seq<char>, lines: Seq<(Seq<char>, Option<Seq<u8>>)>) -> (
    Seq<UntaggedView>,
    Option<ExchangeEnd>,
)
    decreases lines.len(),
{
    if lines.len() == 0 {
        (seq![], None)
    } else {
        let (before, end) = exchange_outcome(tag, lines.drop_last());
        let (line, literal) = lines.last();
        if end is Some {
            (before, end)
        } else {
            match line_ends(tag, line, literal) {
                Some(e) => (before, Some(e)),
                None => match line_adds(line, literal) {
                    Some(u) => (before.push(u), None),
                    None => (before, None),
                },
            }
        }
    }
}

pub open spec fn lines_view(v: Seq<(String, Option<Vec<u8>>)>) -> Seq<(Seq<char>, Option<Seq<u8>>)> {
    v.map_values(|p: (String, Option<Vec<u8>>)| (p.0@, opt_bytes_view(p.1)))
}

pub open spec fn end_view(r: Option<Result<TaggedResponse, ImapError>>) -> Option<ExchangeEnd> {
    match r {
        None => None,
        Some(Ok(t)) => Some(ExchangeEnd::Completed(t@)),
        Some(Err(ImapError::CommandFailed(s, m))) => Some(ExchangeEnd::Failed(s@, m@)),
        Some(Err(_)) => None,
    }
}

/// Runs the exchange of the command tagged `tag` over received lines, each with
/// the literal it announced: the answers gathered and how the exchange ended, as
/// `exchange_outcome` says.
pub fn run_exchange(tag: String, lines: Vec<(String, Option<Vec<u8>>)>) -> (r: (
    Vec<UntaggedResponse>,
    Option<Result<TaggedResponse, ImapError>>,
))
    ensures
        untagged_seq(r.0@) == exchange_outcome(tag@, lines_view(lines@)).0,
        end_view(r.1) == exchange_outcome(tag@, lines_view(lines@)).1,
        r.1 matches Some(Err(e)) ==> e is CommandFailed,
{
    broadcast use vstd::std_specs::vec::axiom_spec_into_iter;
    let ghost elts = lines@;
    let ghost t = tag@;
    let mut ex = Exchange::new(tag);
    let mut end: Option<Result<TaggedResponse, ImapError>> = None;
    for item in it: lines.into_iter()
        invariant
            it.seq() == elts,
            ex.tag@ == t,
            untagged_seq(ex.untagged@) == exchange_outcome(t, lines_view(elts.take(it.index() as int))).0,
            end_view(end) == exchange_outcome(t, lines_view(elts.take(it.index() as int))).1,
            end matches Some(Err(e)) ==> e is CommandFailed,
    {
        proof {
            assert(elts.take(it.index() + 1) == elts.take(it.index() as int).push(item));
            assert(lines_view(elts.take(it.index() + 1)).drop_last() =~= lines_view(
                elts.take(it.index() as int),
            ));
            assert(lines_view(elts.take(it.index() + 1)).last() == (item.0@, opt_bytes_view(item.1)));
        }
        if end.is_none() {
            let (line, literal) = item;
            match ex.on_line(line.as_str(), literal) {
                ExchangeStep::Continue => {},
                ExchangeStep::Finished(f) => {
                    end = Some(f);
                },
            }
        }
    }
    proof {
        assert(elts.take(elts.len() as int) == elts);
    }
    (ex.untagged, end)
}

/// What the server answers to `IDLE`: a continuation, or a protocol error quoting
/// the line.
pub open spec fn idle_answer(line: Seq<char>) -> Result<(), Seq<char>> {
    if line.len() > 0 && line[0] == '+' {
        Ok(())
    } else {
        Err("Expected continuation '+' for IDLE, got: "@ + line)
    }
}

/// Checks the server's first answer to `IDLE`.
pub fn check_idle_answer(line: &str) -> (r: Result<(), ImapError>)
    ensures
        match idle_answer(line@) {
            Ok(_) => r is Ok,
            Err(m) => (r matches Err(ImapError::Protocol(x)) && x@ == m),
        },
{
    let v = crate::text::chars_of(line);
    if v.len() > 0 && v[0] == '+' {
        Ok(())
    } else {
        let mut m = "Expected continuation '+' for IDLE, got: ".to_owned();
        push_str(&mut m, line);
        Err(ImapError::Protocol(m))
    }
}

/// Whether a line is the tagged completion of the `IDLE` command tagged `tag`.
pub fn ends_idle(line: &str, tag: &str) -> (r: bool)
    ensures
        r == (line_rule(line@) matches Some(LineView::Tagged(t)) && t.tag == tag@),
{
    match parse_line(line) {
        Ok(ImapLine::Tagged(t)) => crate::text::chars_eq_str(
            crate::text::chars_of(t.tag.as_str()).as_slice(),
            tag,
        ),
        _ => false,
    }
}

/// A line received outside a command: its untagged response, or the whole line.
pub fn classify_unsolicited(line: String) -> (r: UntaggedResponse)
    ensures
        match line_rule(line@) {
            Some(LineView::Untagged(u)) => r@ == u,
            _ => r@ == UntaggedView::Other(line@),
        },
{
    match parse_line(line.as_str()) {
        Ok(ImapLine::Untagged(u)) => u,
        _ => UntaggedResponse::Other(line),
    }
}

/// The error of a failed login: the user and the cause.
pub fn login_failure(username: &str, cause: &ImapError) -> (r: ImapError)
    ensures
        r matches ImapError::Authentication(m) && m@ == "Login failed for "@ + username@ + ": "@
            + crate::imap::error::imap_error_text(*cause),
{
    let mut m = "Login failed for ".to_owned();
    push_str(&mut m, username);
    push_str(&mut m, ": ");
    let c = cause.to_text();
    push_str(&mut m, c.as_str());
    ImapError::Authentication(m)
}

} // verus!
