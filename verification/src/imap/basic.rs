//! A minimal classifier of server lines: tagged status lines and untagged lines,
//! each ended by CRLF.

use vstd::prelude::*;

use crate::imap::parser::{space_len, space_len_at};
use crate::scan::{count_while, prefix_len};
use crate::text::{chars_of, string_of_range};

verus! {

/// The status word of a tagged line.
#[derive(Debug, Clone, Copy, PartialEq, Eq, Structural)]
pub enum Status {
    OK,
    No,
    Bad,
}

/// A classified line.
#[derive(Debug, Clone, PartialEq, Eq)]
pub enum ImapResponse {
    /// `* <data>`
    Untagged { data: String },
    /// `<tag> <status> <message>`
    Tagged { tag: String, status: Status, message: String },
    /// `+ <text>`
    Continuation(String),
}

pub enum ResponseView {
    Untagged(Seq<char>),
    Tagged(Seq<char>, Status, Seq<char>),
    Continuation(Seq<char>),
}

impl View for ImapResponse {
    type V = ResponseView;

    open spec fn view(&self) -> ResponseView {
        match self {
            ImapResponse::Untagged { data } => ResponseView::Untagged(data@),
            ImapResponse::Tagged { tag, status, message } => ResponseView::Tagged(
                tag@,
                *status,
                message@,
            ),
            ImapResponse::Continuation(t) => ResponseView::Continuation(t@),
        }
    }
}

/// `char::is_alphanumeric` (Unicode `Alphabetic` or `Numeric`).
pub uninterp spec fn alphanumeric(c: char) -> bool;

/// `char::is_alphanumeric`. Beyond naming its result, this states only what it is
/// on ASCII: the Latin letters and the decimal digits.
#[verifier::external_body]
fn char_is_alphanumeric(c: char) -> (r: bool)
    ensures
        r == alphanumeric(c),
        (c as u32) < 128 ==> (r <==> ('a' <= c <= 'z' || 'A' <= c <= 'Z' || '0' <= c <= '9')),
{
    c.is_alphanumeric()
}

pub open spec fn alnum_pred() -> spec_fn(char) -> bool {
    |c: char| alphanumeric(c)
}

pub open spec fn crlf_at(s: Seq<char>, j: int) -> bool {
    s[j] == '\r' && s[j + 1] == '\n'
}

/// Position of the first CRLF.
pub open spec fn find_crlf(s: Seq<char>) -> Option<nat>
    decreases s.len(),
{
    if s.len() < 2 {
        None
    } else if s[0] == '\r' && s[1] == '\n' {
        Some(0)
    } else {
        match find_crlf(s.drop_first()) {
            Some(k) => Some(k + 1),
            None => None,
        }
    }
}

/// The status word a text starts with, and its length: `OK`, `NO` or `BAD`.
pub open spec fn status_word(s: Seq<char>) -> Option<(Status, nat)> {
    if s.len() >= 2 && s[0] == 'O' && s[1] == 'K' {
        Some((Status::OK, 2))
    } else if s.len() >= 2 && s[0] == 'N' && s[1] == 'O' {
        Some((Status::No, 2))
    } else if s.len() >= 3 && s[0] == 'B' && s[1] == 'A' && s[2] == 'D' {
        Some((Status::Bad, 3))
    } else {
        None
    }
}

/// The start of a tagged line: a non-empty alphanumeric tag, blanks, a status
/// word and blanks; the tag's length, the status and where the message starts.
pub open spec fn tagged_head(s: Seq<char>) -> Option<(nat, Status, nat)> {
    let a = prefix_len(s, alnum_pred());
    let b = space_len(s.skip(a as int));
    if a == 0 || b == 0 {
        None
    } else {
        match status_word(s.skip((a + b) as int)) {
            None => None,
            Some((st, w)) => {
                let c = space_len(s.skip((a + b + w) as int));
                if c == 0 {
                    None
                } else {
                    Some((a, st, a + b + w + c))
                }
            },
        }
    }
}

/// A tagged line: its head and a message up to CRLF; with the number of
/// characters read (CRLF included).
pub open spec fn tagged_line(s: Seq<char>) -> Option<(nat, ResponseView)> {
    match tagged_head(s) {
        None => None,
        Some((a, st, start)) => match find_crlf(s.skip(start as int)) {
            None => None,
            Some(k) => Some(
                (
                    start + k + 2,
                    ResponseView::Tagged(s.take(a as int), st, s.skip(start as int).take(k as int)),
                ),
            ),
        },
    }
}

/// An untagged line: `*`, blanks, and data up to CRLF.
pub open spec fn untagged_line(s: Seq<char>) -> Option<(nat, ResponseView)> {
    if s.len() == 0 || s[0] != '*' {
        None
    } else {
        let r1 = s.skip(1);
        let b = space_len(r1);
        let r2 = r1.skip(b as int);
        if b == 0 {
            None
        } else {
            match find_crlf(r2) {
                None => None,
                Some(k) => Some((1 + b + k + 2, ResponseView::Untagged(r2.take(k as int)))),
            }
        }
    }
}

/// A line: tagged if it reads as one, else untagged.
pub open spec fn basic_line(s: Seq<char>) -> Option<(nat, ResponseView)> {
    match tagged_line(s) {
        Some(x) => Some(x),
        None => untagged_line(s),
    }
}

pub proof fn lemma_find_crlf(s: Seq<char>)
    ensures
        find_crlf(s) matches Some(k) ==> k + 2 <= s.len() && crlf_at(s, k as int)
            && forall|j: int| 0 <= j < k ==> !#[trigger] crlf_at(s, j),
        find_crlf(s) is None ==> forall|j: int| 0 <= j < s.len() - 1 ==> !#[trigger] crlf_at(s, j),
    decreases s.len(),
{
    if s.len() >= 2 && !crlf_at(s, 0) {
        let t = s.drop_first();
        lemma_find_crlf(t);
        assert forall|j: int| 1 <= j < s.len() - 1 implies #[trigger] crlf_at(s, j) == crlf_at(
            t,
            j - 1,
        ) by {
            assert(s[j] == t[j - 1]);
            assert(s[j + 1] == t[j]);
        }
        if let Some(k) = find_crlf(t) {
            assert(crlf_at(s, k as int + 1));
        }
    }
}

fn find_crlf_at(v: &[char], i: usize) -> (r: Option<usize>)
    requires
        i <= v@.len(),
    ensures
        match find_crlf(v@.skip(i as int)) {
            Some(k) => (r matches Some(x) && x == k && i + k + 2 <= v@.len()),
            None => r is None,
        },
{
    let ghost s = v@.skip(i as int);
    proof {
        lemma_find_crlf(s);
    }
    let n = v.len();
    let mut j = i;
    while n - j >= 2
        invariant
            i <= j <= n,
            n == v@.len(),
            s == v@.skip(i as int),
            forall|t: int| 0 <= t < j - i ==> !#[trigger] crlf_at(s, t),
        decreases n - j,
    {
        if v[j] == '\r' && v[j + 1] == '\n' {
            proof {
                lemma_find_crlf(s);
                assert(crlf_at(s, j - i));
            }
            return Some(j - i);
        }
        j = j + 1;
    }
    proof {
        lemma_find_crlf(s);
    }
    None
}

fn status_word_at(v: &[char], i: usize) -> (r: Option<(Status, usize)>)
    requires
        i <= v@.len(),
    ensures
        match status_word(v@.skip(i as int)) {
            Some((st, w)) => r == Some((st, w as usize)),
            None => r is None,
        },
{
    let n = v.len();
    if n - i >= 2 && v[i] == 'O' && v[i + 1] == 'K' {
        Some((Status::OK, 2))
    } else if n - i >= 2 && v[i] == 'N' && v[i + 1] == 'O' {
        Some((Status::No, 2))
    } else if n - i >= 3 && v[i] == 'B' && v[i + 1] == 'A' && v[i + 2] == 'D' {
        Some((Status::Bad, 3))
    } else {
        None
    }
}

fn is_alnum(c: char) -> (r: bool)
    ensures
        r == (alnum_pred())(c),
{
    char_is_alphanumeric(c)
}

fn tagged_head_at(v: &[char]) -> (r: Option<(usize, Status, usize)>)
    ensures
        match tagged_head(v@) {
            Some((a, st, start)) => (r matches Some((x, y, z)) && x == a && y == st && z == start
                && z <= v@.len()),
            None => r is None,
        },
{
    let vlen = v.len();
    assert(v@.skip(0) =~= v@);
    let a = count_while(v, 0, is_alnum, Ghost(alnum_pred()));
    let b = space_len_at(v, a);
    if a == 0 || b == 0 {
        return None;
    }
    match status_word_at(v, a + b) {
        None => None,
        Some((st, w)) => {
            let c = space_len_at(v, a + b + w);
            if c == 0 {
                None
            } else {
                Some((a, st, a + b + w + c))
            }
        },
    }
}

fn tagged_at(v: &[char]) -> (r: Option<(usize, ImapResponse)>)
    ensures
        r matches Some((m, _)) ==> m <= v@.len(),
        match tagged_line(v@) {
            Some((n, x)) => (r matches Some((m, y)) && m == n && y@ == x),
            None => r is None,
        },
{
    let vlen = v.len();
    match tagged_head_at(v) {
        None => None,
        Some((a, st, start)) => match find_crlf_at(v, start) {
            None => None,
            Some(k) => {
                let tag = string_of_range(v, 0, a);
                let message = string_of_range(v, start, start + k);
                assert(v@.subrange(0, a as int) =~= v@.take(a as int));
                assert(v@.subrange(start as int, start + k) =~= v@.skip(start as int).take(
                    k as int,
                ));
                Some((start + k + 2, ImapResponse::Tagged { tag, status: st, message }))
            },
        },
    }
}

fn untagged_at(v: &[char]) -> (r: Option<(usize, ImapResponse)>)
    ensures
        r matches Some((m, _)) ==> m <= v@.len(),
        match untagged_line(v@) {
            Some((n, x)) => (r matches Some((m, y)) && m == n && y@ == x),
            None => r is None,
        },
{
    let vlen = v.len();
    if v.len() == 0 || v[0] != '*' {
        return None;
    }
    let b = space_len_at(v, 1);
    if b == 0 {
        return None;
    }
    assert(v@.skip(1).skip(b as int) =~= v@.skip(1 + b));
    match find_crlf_at(v, 1 + b) {
        None => None,
        Some(k) => {
            let data = string_of_range(v, 1 + b, 1 + b + k);
            assert(v@.subrange(1 + b, 1 + b + k) =~= v@.skip(1 + b).take(k as int));
            Some((1 + b + k + 2, ImapResponse::Untagged { data }))
        },
    }
}

/// Reads one line from the start of `input`: the response and the text after its
/// CRLF, or `None` when it reads as neither kind of line.
pub fn parse_imap_line(input: &str) -> (r: Option<(String, ImapResponse)>)
    ensures
        match basic_line(input@) {
            Some((n, x)) => (r matches Some((rest, y)) && rest@ == input@.skip(n as int) && y@ == x),
            None => r is None,
        },
{
    let v = chars_of(input);
    let n = v.len();
    let found = match tagged_at(v.as_slice()) {
        Some(t) => Some(t),
        None => untagged_at(v.as_slice()),
    };
    match found {
        Some((k, resp)) => {
            let rest = string_of_range(v.as_slice(), k, n);
            assert(v@.subrange(k as int, n as int) =~= input@.skip(k as int));
            Some((rest, resp))
        },
        None => None,
    }
}

} // verus!
