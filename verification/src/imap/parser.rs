//! Parsing of server response lines.

use vstd::prelude::*;

use crate::imap::response::{
    Continuation, FetchResponse, FetchView, ImapLine, LineView, Status, TaggedResponse,
    TaggedView, UntaggedResponse, UntaggedView,
};
use crate::message::MessageFlags;
use crate::scan::{
    lemma_find_char_bound,
    count_while, digit_pred, find_char, find_char_in, lemma_prefix_len_bounds, non_ws_pred,
    parse_uint, parse_uint_in, pieces, prefix_len, split_words, trim, trim_bounds, words,
    ws_pred,
};
use crate::text::{char_is_ws, chars_of, is_ws, lower, lower_seq, string_of};

verus! {

// ---------------------------------------------------------------------------
// Lexical classes
// ---------------------------------------------------------------------------
pub open spec fn space_pred() -> spec_fn(char) -> bool {
    |c: char| c == ' ' || c == '\t'
}

pub open spec fn space_len(s: Seq<char>) -> nat {
    prefix_len(s, space_pred())
}

pub open spec fn is_atom_char(c: char) -> bool {
    !is_ws(c) && c != '(' && c != ')' && c != '{' && c != '}' && c != '%' && c != '*'
}

pub open spec fn atom_pred() -> spec_fn(char) -> bool {
    |c: char| is_atom_char(c)
}

/// `s` starts with `kw`, ignoring ASCII case.
pub open spec fn kw_at(s: Seq<char>, kw: Seq<char>) -> bool {
    kw.len() <= s.len() && forall|i: int| 0 <= i < kw.len() ==> lower(#[trigger] s[i]) == lower(
        kw[i],
    )
}

pub open spec fn kw_ok() -> Seq<char> {
    seq!['O', 'K']
}

pub open spec fn kw_no() -> Seq<char> {
    seq!['N', 'O']
}

pub open spec fn kw_bad() -> Seq<char> {
    seq!['B', 'A', 'D']
}

pub open spec fn kw_preauth() -> Seq<char> {
    seq!['P', 'R', 'E', 'A', 'U', 'T', 'H']
}

pub open spec fn kw_bye() -> Seq<char> {
    seq!['B', 'Y', 'E']
}

pub open spec fn kw_nil() -> Seq<char> {
    seq!['N', 'I', 'L']
}

pub open spec fn kw_list() -> Seq<char> {
    seq!['L', 'I', 'S', 'T']
}

pub open spec fn kw_exists() -> Seq<char> {
    seq!['E', 'X', 'I', 'S', 'T', 'S']
}

pub open spec fn kw_recent() -> Seq<char> {
    seq!['R', 'E', 'C', 'E', 'N', 'T']
}

pub open spec fn kw_expunge() -> Seq<char> {
    seq!['E', 'X', 'P', 'U', 'N', 'G', 'E']
}

pub open spec fn kw_fetch() -> Seq<char> {
    seq!['F', 'E', 'T', 'C', 'H']
}

pub open spec fn kw_uid_sp() -> Seq<char> {
    seq!['U', 'I', 'D', ' ']
}

pub open spec fn kw_flags_sp() -> Seq<char> {
    seq!['F', 'L', 'A', 'G', 'S', ' ']
}

pub open spec fn kw_size_sp() -> Seq<char> {
    seq!['R', 'F', 'C', '8', '2', '2', '.', 'S', 'I', 'Z', 'E', ' ']
}

// ---------------------------------------------------------------------------
// Grammar (each rule gives its value and the number of characters it consumes)
// ---------------------------------------------------------------------------
/// `OK`, `NO`, `BAD`, `PREAUTH` or `BYE`, in any case, as a prefix.
pub open spec fn status_rule(s: Seq<char>) -> Option<(Status, nat)> {
    if kw_at(s, kw_ok()) {
        Some((Status::OK, 2))
    } else if kw_at(s, kw_no()) {
        Some((Status::No, 2))
    } else if kw_at(s, kw_bad()) {
        Some((Status::Bad, 3))
    } else if kw_at(s, kw_preauth()) {
        Some((Status::PreAuth, 7))
    } else if kw_at(s, kw_bye()) {
        Some((Status::Bye, 3))
    } else {
        None
    }
}

/// `[` text up to the first `]` `]`.
pub open spec fn code_rule(s: Seq<char>) -> Option<(Seq<char>, nat)> {
    if s.len() > 0 && s[0] == '[' {
        match find_char(s.skip(1), ']') {
            Some(k) => Some((s.subrange(1, 1 + k as int), k + 2)),
            None => None,
        }
    } else {
        None
    }
}

/// An optional response code after at least one blank.
pub open spec fn opt_code_rule(s: Seq<char>) -> (Option<Seq<char>>, nat) {
    let n = space_len(s);
    if n > 0 {
        match code_rule(s.skip(n as int)) {
            Some((c, m)) => (Some(c), n + m),
            None => (None, 0),
        }
    } else {
        (None, 0)
    }
}

/// `"` text up to the next `"` `"` (no escapes).
pub open spec fn quoted_rule(s: Seq<char>) -> Option<(Seq<char>, nat)> {
    if s.len() > 0 && s[0] == '"' {
        match find_char(s.skip(1), '"') {
            Some(k) => Some((s.subrange(1, 1 + k as int), k + 2)),
            None => None,
        }
    } else {
        None
    }
}

pub open spec fn atom_rule(s: Seq<char>) -> Option<(Seq<char>, nat)> {
    let n = prefix_len(s, atom_pred());
    if n > 0 {
        Some((s.take(n as int), n))
    } else {
        None
    }
}

/// A quoted string, `NIL` (the empty string) or an atom.
pub open spec fn astring_rule(s: Seq<char>) -> Option<(Seq<char>, nat)> {
    match quoted_rule(s) {
        Some(r) => Some(r),
        None => if kw_at(s, kw_nil()) {
            Some((seq![], 3))
        } else {
            atom_rule(s)
        },
    }
}

/// A hierarchy delimiter: a quoted string, `NIL` (none) or an atom.
pub open spec fn delim_rule(s: Seq<char>) -> Option<(Option<Seq<char>>, nat)> {
    match quoted_rule(s) {
        Some((q, n)) => Some((Some(q), n)),
        None => if kw_at(s, kw_nil()) {
            Some((None, 3))
        } else {
            match atom_rule(s) {
                Some((a, n)) => Some((Some(a), n)),
                None => None,
            }
        },
    }
}

pub open spec fn tagged_rule(t: Seq<char>) -> Option<TaggedView> {
    let n1 = prefix_len(t, non_ws_pred());
    let r1 = t.skip(n1 as int);
    let n2 = space_len(r1);
    let r2 = r1.skip(n2 as int);
    if n1 == 0 || n2 == 0 {
        None
    } else {
        match status_rule(r2) {
            None => None,
            Some((st, k)) => {
                let r3 = r2.skip(k as int);
                let (code, m) = opt_code_rule(r3);
                Some(
                    TaggedView {
                        tag: t.take(n1 as int),
                        status: st,
                        code: code,
                        text: trim(r3.skip(m as int)),
                    },
                )
            },
        }
    }
}

pub open spec fn list_rule(u: Seq<char>) -> Option<UntaggedView> {
    if !kw_at(u, kw_list()) {
        None
    } else {
        let r1 = u.skip(4);
        let n1 = space_len(r1);
        let r2 = r1.skip(n1 as int);
        if n1 == 0 || r2.len() == 0 || r2[0] != '(' {
            None
        } else {
            match find_char(r2.skip(1), ')') {
                None => None,
                Some(k) => {
                    let content = r2.subrange(1, 1 + k as int);
                    let r3 = r2.skip(k as int + 2);
                    let n3 = space_len(r3);
                    let r4 = r3.skip(n3 as int);
                    if n3 == 0 {
                        None
                    } else {
                        match delim_rule(r4) {
                            None => None,
                            Some((d, m)) => {
                                let r5 = r4.skip(m as int);
                                let n5 = space_len(r5);
                                if n5 == 0 {
                                    None
                                } else {
                                    match astring_rule(r5.skip(n5 as int)) {
                                        None => None,
                                        Some((name, _)) => Some(
                                            UntaggedView::List {
                                                flags: words(content),
                                                delimiter: d,
                                                name: name,
                                            },
                                        ),
                                    }
                                }
                            },
                        }
                    }
                },
            }
        }
    }
}

/// `<number> <kw>` with a number that fits in 32 bits.
pub open spec fn num_kw_rule(u: Seq<char>, kw: Seq<char>) -> Option<u32> {
    let d = prefix_len(u, digit_pred());
    let r = u.skip(d as int);
    let n = space_len(r);
    if d == 0 || n == 0 || !kw_at(r.skip(n as int), kw) {
        None
    } else {
        match parse_uint(u.take(d as int), u32::MAX as nat) {
            Some(v) => Some(v as u32),
            None => None,
        }
    }
}

/// `<number> FETCH (`: the message number (0 when it does not fit) and where the
/// attributes start.
pub open spec fn fetch_head_rule(u: Seq<char>) -> Option<(u32, nat)> {
    let d = prefix_len(u, digit_pred());
    let r = u.skip(d as int);
    let n = space_len(r);
    let r2 = r.skip(n as int).skip(5);
    let n2 = space_len(r2);
    if d == 0 || n == 0 || !kw_at(r.skip(n as int), kw_fetch()) || n2 == 0 || r2.len() == n2
        || r2[n2 as int] != '(' {
        None
    } else {
        let seq_no: u32 = match parse_uint(u.take(d as int), u32::MAX as nat) {
            Some(v) => v as u32,
            None => 0,
        };
        Some((seq_no, d + n + 5 + n2 + 1))
    }
}

/// The flags named in a list of words (`\Seen`, `\Flagged`, ... in any case).
pub open spec fn flags_of_words(ws: Seq<Seq<char>>) -> MessageFlags {
    MessageFlags {
        seen: exists|i: int| 0 <= i < ws.len() && lower_seq(ws[i]) == seq!['\\', 's', 'e', 'e', 'n'],
        flagged: exists|i: int|
            0 <= i < ws.len() && lower_seq(ws[i]) == seq!['\\', 'f', 'l', 'a', 'g', 'g', 'e', 'd'],
        answered: exists|i: int|
            0 <= i < ws.len() && lower_seq(ws[i]) == seq![
                '\\',
                'a',
                'n',
                's',
                'w',
                'e',
                'r',
                'e',
                'd',
            ],
        draft: exists|i: int|
            0 <= i < ws.len() && lower_seq(ws[i]) == seq!['\\', 'd', 'r', 'a', 'f', 't'],
        deleted: exists|i: int|
            0 <= i < ws.len() && lower_seq(ws[i]) == seq!['\\', 'd', 'e', 'l', 'e', 't', 'e', 'd'],
    }
}

/// `(` flag words up to the first `)` `)`.
pub open spec fn flags_rule(s: Seq<char>) -> Option<(MessageFlags, nat)> {
    if s.len() > 0 && s[0] == '(' {
        match find_char(s.skip(1), ')') {
            Some(k) => Some((flags_of_words(words(s.subrange(1, 1 + k as int))), k + 2)),
            None => None,
        }
    } else {
        None
    }
}

/// Leading white space, then a run of ASCII digits (at least one).
pub open spec fn number_rule(s: Seq<char>) -> Option<(Seq<char>, nat)> {
    let a = prefix_len(s, ws_pred());
    let t = s.skip(a as int);
    let e = prefix_len(t, digit_pred());
    if e == 0 {
        None
    } else {
        Some((t.take(e as int), a + e))
    }
}

/// `char::is_alphabetic` (the Unicode `Alphabetic` property).
pub uninterp spec fn alphabetic(c: char) -> bool;

/// `char::is_alphabetic`. Beyond naming its result, this states only what the
/// property is on ASCII: exactly the 52 Latin letters are alphabetic there.
#[verifier::external_body]
fn char_is_alphabetic(c: char) -> (r: bool)
    ensures
        r == alphabetic(c),
        (c as u32) < 128 ==> (r <==> ('a' <= c <= 'z' || 'A' <= c <= 'Z')),
{
    c.is_alphabetic()
}

pub open spec fn attr_start(c: char) -> bool {
    alphabetic(c) || c == '\\'
}

pub open spec fn not_attr_start_pred() -> spec_fn(char) -> bool {
    |c: char| !attr_start(c)
}

pub struct FetchAcc {
    pub uid: Option<u32>,
    pub flags: Option<MessageFlags>,
    pub size: Option<u64>,
}

/// Scans fetch attributes left to right: each `UID`, `FLAGS` and `RFC822.SIZE`
/// item sets its field (the last occurrence wins); other tokens are skipped.
pub open spec fn fetch_scan(rem: Seq<char>, acc: FetchAcc) -> FetchAcc
    decreases rem.len(),
{
    let idx = prefix_len(rem, not_attr_start_pred());
    if idx >= rem.len() {
        acc
    } else {
        let r = rem.skip(idx as int);
        proof {
            lemma_prefix_len_bounds(rem, not_attr_start_pred());
        }
        if kw_at(r, kw_uid_sp()) {
            let r2 = r.skip(4);
            match number_rule(r2) {
                Some((num, c)) => {
                    proof {
                        lemma_number_rule_len(r2);
                    }
                    fetch_scan(
                        r2.skip(c as int),
                        FetchAcc {
                            uid: match parse_uint(num, u32::MAX as nat) {
                                Some(v) => Some(v as u32),
                                None => None,
                            },
                            ..acc
                        },
                    )
                },
                None => fetch_scan(r2, acc),
            }
        } else if kw_at(r, kw_flags_sp()) {
            let r2 = r.skip(6);
            match flags_rule(r2) {
                Some((f, c)) => {
                    proof {
                        lemma_flags_rule_len(r2);
                    }
                    fetch_scan(r2.skip(c as int), FetchAcc { flags: Some(f), ..acc })
                },
                None => fetch_scan(r2, acc),
            }
        } else if kw_at(r, kw_size_sp()) {
            let r2 = r.skip(12);
            match number_rule(r2) {
                Some((num, c)) => {
                    proof {
                        lemma_number_rule_len(r2);
                    }
                    fetch_scan(
                        r2.skip(c as int),
                        FetchAcc {
                            size: match parse_uint(num, u64::MAX as nat) {
                                Some(v) => Some(v as u64),
                                None => None,
                            },
                            ..acc
                        },
                    )
                },
                None => fetch_scan(r2, acc),
            }
        } else {
            match find_char(r, ' ') {
                Some(k) => {
                    proof {
                        lemma_find_char_bound(r, ' ');
                    }
                    fetch_scan(r.skip(k as int + 1), acc)
                },
                None => acc,
            }
        }
    }
}

pub proof fn lemma_number_rule_len(s: Seq<char>)
    ensures
        number_rule(s) matches Some((num, c)) ==> c <= s.len() && num.len() == c - prefix_len(
            s,
            ws_pred(),
        ) && prefix_len(s, ws_pred()) <= s.len(),
{
    lemma_prefix_len_bounds(s, ws_pred());
    let a = prefix_len(s, ws_pred());
    lemma_prefix_len_bounds(s.skip(a as int), digit_pred());
}

pub proof fn lemma_flags_rule_len(s: Seq<char>)
    ensures
        flags_rule(s) matches Some((f, c)) ==> c <= s.len(),
{
    if s.len() > 0 && s[0] == '(' {
        lemma_find_char_bound(s.skip(1), ')');
    }
}

pub open spec fn fetch_rule(seq_no: u32, body: Seq<char>) -> FetchView {
    let acc = fetch_scan(body, FetchAcc { uid: None, flags: None, size: None });
    FetchView {
        seq: seq_no,
        uid: acc.uid,
        flags: acc.flags,
        rfc822_size: acc.size,
        rfc822_body: None,
    }
}

/// An untagged line, given the line after its leading `*`.
pub open spec fn untagged_rule(t: Seq<char>) -> Option<UntaggedView> {
    if t.len() == 0 || t[0] != '*' || space_len(t.skip(1)) == 0 {
        None
    } else {
        let u = t.skip(1).skip(space_len(t.skip(1)) as int);
        if list_rule(u) is Some {
            list_rule(u)
        } else if num_kw_rule(u, kw_exists()) is Some {
            Some(UntaggedView::Exists(num_kw_rule(u, kw_exists())->0))
        } else if num_kw_rule(u, kw_recent()) is Some {
            Some(UntaggedView::Recent(num_kw_rule(u, kw_recent())->0))
        } else if num_kw_rule(u, kw_expunge()) is Some {
            Some(UntaggedView::Expunge(num_kw_rule(u, kw_expunge())->0))
        } else if fetch_head_rule(u) is Some {
            let (seq_no, off) = fetch_head_rule(u)->0;
            Some(UntaggedView::Fetch(fetch_rule(seq_no, u.skip(off as int))))
        } else if status_rule(u) is Some {
            let (st, k) = status_rule(u)->0;
            let (code, m) = opt_code_rule(u.skip(k as int));
            let text = trim(u.skip(k as int).skip(m as int));
            Some(
                match st {
                    Status::OK => UntaggedView::OK { code: code, text: text },
                    Status::No => UntaggedView::No { code: code, text: text },
                    Status::Bad => UntaggedView::Bad { code: code, text: text },
                    _ => UntaggedView::Other(trim(u)),
                },
            )
        } else {
            Some(UntaggedView::Other(trim(u)))
        }
    }
}

/// `str::trim_end_matches("\r\n")`: removes every trailing CR LF pair.
pub open spec fn strip_crlf(s: Seq<char>) -> Seq<char>
    decreases s.len(),
{
    if s.len() >= 2 && s[s.len() - 2] == '\r' && s[s.len() - 1] == '\n' {
        strip_crlf(s.take(s.len() - 2))
    } else {
        s
    }
}

/// The meaning of one response line: a continuation request, an untagged
/// response or a tagged completion; `None` when the line is malformed.
pub open spec fn line_rule(line: Seq<char>) -> Option<LineView> {
    let t = strip_crlf(line);
    if t.len() > 0 && t[0] == '+' {
        Some(LineView::Continuation(trim(t.skip(1))))
    } else if t.len() > 0 && t[0] == '*' {
        match untagged_rule(t) {
            Some(u) => Some(LineView::Untagged(u)),
            None => None,
        }
    } else {
        match tagged_rule(t) {
            Some(x) => Some(LineView::Tagged(x)),
            None => None,
        }
    }
}

// ---------------------------------------------------------------------------
// Executable parser
// ---------------------------------------------------------------------------
/// Whether `v[i..]` starts with `kw`, ignoring ASCII case.
pub(crate) fn kw_at_exec(v: &[char], i: usize, kw: &[char]) -> (r: bool)
    requires
        i <= v@.len(),
    ensures
        r == kw_at(v@.skip(i as int), kw@),
{
    let vlen = v.len();
    if kw.len() > v.len() - i {
        return false;
    }
    let mut j: usize = 0;
    while j < kw.len()
        invariant
            i + kw@.len() <= v@.len(),
            v@.len() <= usize::MAX,
            0 <= j <= kw@.len(),
            forall|m: int| 0 <= m < j ==> lower(v@[i + m]) == lower(kw@[m]),
        decreases kw@.len() - j,
    {
        if crate::text::char_lower(v[i + j]) != crate::text::char_lower(kw[j]) {
            assert(v@.skip(i as int)[j as int] == v@[i + j]);
            return false;
        }
        j = j + 1;
    }
    assert forall|m: int| 0 <= m < kw@.len() implies lower(#[trigger] v@.skip(i as int)[m])
        == lower(kw@[m]) by {
        assert(v@.skip(i as int)[m] == v@[i + m]);
    }
    true
}

pub proof fn lemma_skip_skip(s: Seq<char>, a: int, b: int)
    requires
        0 <= a,
        0 <= b,
        a + b <= s.len(),
    ensures
        s.skip(a).skip(b) == s.skip(a + b),
{
    assert(s.skip(a).skip(b) =~= s.skip(a + b));
}

pub(crate) fn space_len_at(v: &[char], i: usize) -> (n: usize)
    requires
        i <= v@.len(),
    ensures
        n == space_len(v@.skip(i as int)),
        i + n <= v@.len(),
{
    let vlen = v.len();
    count_while(v, i, is_space_tab, Ghost(space_pred()))
}

fn is_space_tab(c: char) -> (r: bool)
    ensures
        r == (space_pred())(c),
{
    c == ' ' || c == '\t'
}

fn status_at(v: &[char], i: usize) -> (r: Option<(Status, usize)>)
    requires
        i <= v@.len(),
    ensures
        match status_rule(v@.skip(i as int)) {
            Some((st, k)) => r == Some((st, k as usize)) && i + k <= v@.len(),
            None => r is None,
        },
{
    let vlen = v.len();
    proof {
        reveal_strlit("OK");
        reveal_strlit("NO");
        reveal_strlit("BAD");
        reveal_strlit("PREAUTH");
        reveal_strlit("BYE");
    }
    let ok = chars_of("OK");
    let no = chars_of("NO");
    let bad = chars_of("BAD");
    let preauth = chars_of("PREAUTH");
    let bye = chars_of("BYE");
    assert(ok@ =~= kw_ok());
    assert(no@ =~= kw_no());
    assert(bad@ =~= kw_bad());
    assert(preauth@ =~= kw_preauth());
    assert(bye@ =~= kw_bye());
    if kw_at_exec(v, i, ok.as_slice()) {
        Some((Status::OK, 2))
    } else if kw_at_exec(v, i, no.as_slice()) {
        Some((Status::No, 2))
    } else if kw_at_exec(v, i, bad.as_slice()) {
        Some((Status::Bad, 3))
    } else if kw_at_exec(v, i, preauth.as_slice()) {
        Some((Status::PreAuth, 7))
    } else if kw_at_exec(v, i, bye.as_slice()) {
        Some((Status::Bye, 3))
    } else {
        None
    }
}

/// `open text close`, with `open` at `v[i]`: the length of the text and the number of
/// characters consumed.
fn delimited_at(v: &[char], i: usize, open: char, close: char) -> (r: Option<(usize, usize)>)
    requires
        i <= v@.len(),
    ensures
        ({
            let s = v@.skip(i as int);
            if s.len() > 0 && s[0] == open {
                match find_char(s.skip(1), close) {
                    Some(k) => r == Some((k as usize, (k + 2) as usize)) && i + k + 2 <= v@.len()
                        && v@.subrange(i + 1, i + 1 + k) == s.subrange(1, 1 + k as int),
                    None => r is None,
                }
            } else {
                r is None
            }
        }),
{
    let vlen = v.len();
    let ghost s = v@.skip(i as int);
    if i < v.len() && v[i] == open {
        assert(s[0] == v@[i as int]);
        let found = find_char_in(v, i + 1, v.len(), close);
        assert(v@.subrange(i + 1, v@.len() as int) =~= s.skip(1));
        proof {
            lemma_find_char_bound(s.skip(1), close);
        }
        match found {
            Some(k) => {
                assert(v@.subrange(i + 1, i + 1 + k) =~= s.subrange(1, 1 + k as int));
                Some((k, k + 2))
            },
            None => None,
        }
    } else {
        if i < v.len() {
            assert(s[0] == v@[i as int]);
        }
        None
    }
}

fn opt_code_at(v: &[char], i: usize) -> (r: (Option<(usize, usize)>, usize))
    requires
        i <= v@.len(),
    ensures
        i + r.1 <= v@.len(),
        r.1 == opt_code_rule(v@.skip(i as int)).1,
        match opt_code_rule(v@.skip(i as int)).0 {
            Some(c) => r.0 matches Some((a, b)) && a <= b <= v@.len() && v@.subrange(
                a as int,
                b as int,
            ) == c,
            None => r.0 is None,
        },
{
    let vlen = v.len();
    let ghost s = v@.skip(i as int);
    let n = space_len_at(v, i);
    if n > 0 {
        proof {
            lemma_skip_skip(v@, i as int, n as int);
        }
        match delimited_at(v, i + n, '[', ']') {
            Some((k, m)) => (Some((i + n + 1, i + n + 1 + k)), n + m),
            None => (None, 0),
        }
    } else {
        (None, 0)
    }
}

fn opt_string(v: &[char], b: Option<(usize, usize)>) -> (r: Option<String>)
    requires
        b matches Some((x, y)) ==> x <= y <= v@.len(),
    ensures
        match b {
            Some((x, y)) => r matches Some(t) && t@ == v@.subrange(x as int, y as int),
            None => r is None,
        },
{
    let vlen = v.len();
    match b {
        Some((x, y)) => Some(string_of(&v[x..y])),
        None => None,
    }
}

/// Parses a tagged completion line (without its line ending).
fn tagged_line(v: &[char]) -> (r: Option<TaggedResponse>)
    ensures
        match tagged_rule(v@) {
            Some(x) => r matches Some(t) && t@ == x,
            None => r is None,
        },
{
    let vlen = v.len();
    let n1 = crate::scan::count_non_ws(v, 0);
    assert(v@.skip(0) =~= v@);
    let n2 = space_len_at(v, n1);
    if n1 == 0 || n2 == 0 {
        return None;
    }
    proof {
        lemma_skip_skip(v@, n1 as int, n2 as int);
    }
    let i2 = n1 + n2;
    match status_at(v, i2) {
        None => None,
        Some((st, k)) => {
            let i3 = i2 + k;
            proof {
                lemma_skip_skip(v@, i2 as int, k as int);
            }
            let (code, m) = opt_code_at(v, i3);
            proof {
                lemma_skip_skip(v@, i3 as int, m as int);
            }
            let (a, b) = trim_bounds(v, i3 + m, v.len());
            assert(v@.subrange((i3 + m) as int, v@.len() as int) =~= v@.skip((i3 + m) as int));
            let tag = string_of(&v[0..n1]);
            assert(v@.subrange(0, n1 as int) =~= v@.take(n1 as int));
            let code_s = opt_string(v, code);
            let text = string_of(&v[a..b]);
            let t = TaggedResponse { tag, status: st, code: code_s, text };
            assert(t@.code == opt_code_rule(v@.skip(i3 as int)).0);
            Some(t)
        },
    }
}

fn is_atom_char_exec(c: char) -> (r: bool)
    ensures
        r == (atom_pred())(c),
{
    !char_is_ws(c) && c != '(' && c != ')' && c != '{' && c != '}' && c != '%' && c != '*'
}

fn is_digit_exec(c: char) -> (r: bool)
    ensures
        r == (digit_pred())(c),
{
    '0' <= c && c <= '9'
}

fn is_ws_exec(c: char) -> (r: bool)
    ensures
        r == (ws_pred())(c),
{
    char_is_ws(c)
}

/// Bounds of a quoted string at `v[i..]` and the characters it takes.
fn quoted_at(v: &[char], i: usize) -> (r: Option<(usize, usize, usize)>)
    requires
        i <= v@.len(),
    ensures
        match quoted_rule(v@.skip(i as int)) {
            Some((q, n)) => r matches Some((a, b, m)) && a <= b <= v@.len() && v@.subrange(
                a as int,
                b as int,
            ) == q && m == n && i + n <= v@.len(),
            None => r is None,
        },
{
    let vlen = v.len();
    match delimited_at(v, i, '"', '"') {
        Some((k, m)) => Some((i + 1, i + 1 + k, m)),
        None => None,
    }
}

fn atom_at(v: &[char], i: usize) -> (r: Option<(usize, usize, usize)>)
    requires
        i <= v@.len(),
    ensures
        match atom_rule(v@.skip(i as int)) {
            Some((q, n)) => r matches Some((a, b, m)) && a <= b <= v@.len() && v@.subrange(
                a as int,
                b as int,
            ) == q && m == n && i + n <= v@.len(),
            None => r is None,
        },
{
    let vlen = v.len();
    let n = count_while(v, i, is_atom_char_exec, Ghost(atom_pred()));
    if n > 0 {
        assert(v@.subrange(i as int, (i + n) as int) =~= v@.skip(i as int).take(n as int));
        Some((i, i + n, n))
    } else {
        None
    }
}

fn nil_chars() -> (r: Vec<char>)
    ensures
        r@ == kw_nil(),
{
    proof {
        reveal_strlit("NIL");
    }
    let r = chars_of("NIL");
    assert(r@ =~= kw_nil());
    r
}

/// An astring at `v[i..]`: `Some((Some((a, b)), m))` for text `v[a..b]`, `Some((None, m))`
/// for `NIL`.
fn astring_at(v: &[char], i: usize) -> (r: Option<(Option<(usize, usize)>, usize)>)
    requires
        i <= v@.len(),
    ensures
        match astring_rule(v@.skip(i as int)) {
            Some((q, n)) => r matches Some((b, m)) && m == n && i + n <= v@.len() && match b {
                Some((x, y)) => x <= y <= v@.len() && v@.subrange(x as int, y as int) == q,
                None => q.len() == 0,
            },
            None => r is None,
        },
{
    let vlen = v.len();
    if let Some((a, b, m)) = quoted_at(v, i) {
        return Some((Some((a, b)), m));
    }
    let nil = nil_chars();
    if kw_at_exec(v, i, nil.as_slice()) {
        return Some((None, 3));
    }
    match atom_at(v, i) {
        Some((a, b, m)) => Some((Some((a, b)), m)),
        None => None,
    }
}

fn delim_at(v: &[char], i: usize) -> (r: Option<(Option<(usize, usize)>, usize)>)
    requires
        i <= v@.len(),
    ensures
        match delim_rule(v@.skip(i as int)) {
            Some((d, n)) => r matches Some((b, m)) && m == n && i + n <= v@.len() && match d {
                Some(q) => b matches Some((x, y)) && x <= y <= v@.len() && v@.subrange(
                    x as int,
                    y as int,
                ) == q,
                None => b is None,
            },
            None => r is None,
        },
{
    let vlen = v.len();
    if let Some((a, b, m)) = quoted_at(v, i) {
        return Some((Some((a, b)), m));
    }
    let nil = nil_chars();
    if kw_at_exec(v, i, nil.as_slice()) {
        return Some((None, 3));
    }
    match atom_at(v, i) {
        Some((a, b, m)) => Some((Some((a, b)), m)),
        None => None,
    }
}

/// The strings at the given bounds of `v`.
fn strings_at(v: &[char], b: &Vec<(usize, usize)>) -> (r: Vec<String>)
    requires
        forall|k: int| 0 <= k < b@.len() ==> (#[trigger] b@[k]).0 <= b@[k].1 <= v@.len(),
    ensures
        crate::imap::response::strs_view(r@) == pieces(v@, b@),
{
    let mut r: Vec<String> = Vec::new();
    let mut k: usize = 0;
    while k < b.len()
        invariant
            0 <= k <= b@.len(),
            forall|m: int| 0 <= m < b@.len() ==> (#[trigger] b@[m]).0 <= b@[m].1 <= v@.len(),
            crate::imap::response::strs_view(r@) == pieces(v@, b@.take(k as int)),
        decreases b@.len() - k,
    {
        let (x, y) = b[k];
        let ghost old_r = r@;
        let t = string_of(&v[x..y]);
        r.push(t);
        assert(crate::imap::response::strs_view(r@) =~= crate::imap::response::strs_view(
            old_r,
        ).push(t@));
        assert(pieces(v@, b@.take(k + 1)) =~= pieces(v@, b@.take(k as int)).push(
            v@.subrange(x as int, y as int),
        ));
        k = k + 1;
    }
    assert(b@.take(b@.len() as int) =~= b@);
    r
}

fn list_at(v: &[char], i: usize) -> (r: Option<UntaggedResponse>)
    requires
        i <= v@.len(),
    ensures
        match list_rule(v@.skip(i as int)) {
            Some(x) => r matches Some(u) && u@ == x,
            None => r is None,
        },
{
    let vlen = v.len();
    let ghost u = v@.skip(i as int);
    proof {
        reveal_strlit("LIST");
    }
    let kw = chars_of("LIST");
    assert(kw@ =~= kw_list());
    if !kw_at_exec(v, i, kw.as_slice()) {
        return None;
    }
    let i1 = i + 4;
    proof {
        lemma_skip_skip(v@, i as int, 4);
    }
    let n1 = space_len_at(v, i1);
    let i2 = i1 + n1;
    proof {
        lemma_skip_skip(v@, i1 as int, n1 as int);
    }
    if n1 == 0 {
        return None;
    }
    match delimited_at(v, i2, '(', ')') {
        None => {
            return None;
        },
        Some((k, m)) => {
            let ghost r2 = v@.skip(i2 as int);
            let i3 = i2 + m;
            proof {
                lemma_skip_skip(v@, i2 as int, m as int);
            }
            let n3 = space_len_at(v, i3);
            if n3 == 0 {
                return None;
            }
            let i4 = i3 + n3;
            proof {
                lemma_skip_skip(v@, i3 as int, n3 as int);
            }
            match delim_at(v, i4) {
                None => {
                    return None;
                },
                Some((d, dm)) => {
                    let i5 = i4 + dm;
                    proof {
                        lemma_skip_skip(v@, i4 as int, dm as int);
                    }
                    let n5 = space_len_at(v, i5);
                    if n5 == 0 {
                        return None;
                    }
                    let i6 = i5 + n5;
                    proof {
                        lemma_skip_skip(v@, i5 as int, n5 as int);
                    }
                    match astring_at(v, i6) {
                        None => {
                            return None;
                        },
                        Some((nb, _)) => {
                            let wb = split_words(v, i2 + 1, i2 + 1 + k);
                            let flags = strings_at(v, &wb);
                            let delimiter = opt_string(v, d);
                            let name = match nb {
                                Some((x, y)) => string_of(&v[x..y]),
                                None => String::new(),
                            };
                            let res = UntaggedResponse::List { flags, delimiter, name };
                            proof {
                                let nm = astring_rule(v@.skip(i6 as int)).unwrap().0;
                                if nb is None {
                                    assert(nm =~= Seq::<char>::empty());
                                }
                            }
                            Some(res)
                        },
                    }
                },
            }
        },
    }
}

/// `<number> <kw>` at `v[i..]`.
fn num_kw_at(v: &[char], i: usize, kw: &[char]) -> (r: Option<u32>)
    requires
        i <= v@.len(),
    ensures
        r == num_kw_rule(v@.skip(i as int), kw@),
{
    let vlen = v.len();
    let d = count_while(v, i, is_digit_exec, Ghost(digit_pred()));
    let n = space_len_at(v, i + d);
    proof {
        lemma_skip_skip(v@, i as int, d as int);
        lemma_skip_skip(v@, (i + d) as int, n as int);
    }
    if d == 0 || n == 0 || !kw_at_exec(v, i + d + n, kw) {
        return None;
    }
    let parsed = parse_uint_in(v, i, i + d, 4294967295u64);
    assert(v@.subrange(i as int, (i + d) as int) =~= v@.skip(i as int).take(d as int));
    match parsed {
        Some(x) => Some(x as u32),
        None => None,
    }
}

fn fetch_head_at(v: &[char], i: usize) -> (r: Option<(u32, usize)>)
    requires
        i <= v@.len(),
    ensures
        match fetch_head_rule(v@.skip(i as int)) {
            Some((sq, off)) => r == Some((sq, off as usize)) && i + off <= v@.len(),
            None => r is None,
        },
{
    let vlen = v.len();
    let ghost u = v@.skip(i as int);
    proof {
        reveal_strlit("FETCH");
    }
    let kw = chars_of("FETCH");
    assert(kw@ =~= kw_fetch());
    let d = count_while(v, i, is_digit_exec, Ghost(digit_pred()));
    let n = space_len_at(v, i + d);
    proof {
        lemma_skip_skip(v@, i as int, d as int);
        lemma_skip_skip(v@, (i + d) as int, n as int);
    }
    if d == 0 || n == 0 || !kw_at_exec(v, i + d + n, kw.as_slice()) {
        return None;
    }
    let i2 = i + d + n + 5;
    proof {
        lemma_skip_skip(v@, (i + d + n) as int, 5);
        assert(u.skip(d as int).skip(n as int).skip(5) =~= v@.skip(i2 as int));
    }
    let n2 = space_len_at(v, i2);
    if n2 == 0 || i2 + n2 == vlen || v[i2 + n2] != '(' {
        proof {
            if i2 + n2 < vlen {
                assert(v@.skip(i2 as int)[n2 as int] == v@[(i2 + n2) as int]);
            }
        }
        return None;
    }
    assert(v@.skip(i2 as int)[n2 as int] == v@[(i2 + n2) as int]);
    let parsed = parse_uint_in(v, i, i + d, 4294967295u64);
    assert(v@.subrange(i as int, (i + d) as int) =~= u.take(d as int));
    let seq_no: u32 = match parsed {
        Some(x) => x as u32,
        None => 0,
    };
    Some((seq_no, d + n + 5 + n2 + 1))
}

fn flag_word_chars() -> (r: (Vec<char>, Vec<char>, Vec<char>, Vec<char>, Vec<char>))
    ensures
        r.0@ == seq!['\\', 's', 'e', 'e', 'n'],
        r.1@ == seq!['\\', 'f', 'l', 'a', 'g', 'g', 'e', 'd'],
        r.2@ == seq!['\\', 'a', 'n', 's', 'w', 'e', 'r', 'e', 'd'],
        r.3@ == seq!['\\', 'd', 'r', 'a', 'f', 't'],
        r.4@ == seq!['\\', 'd', 'e', 'l', 'e', 't', 'e', 'd'],
{
    proof {
        reveal_strlit("\\seen");
        reveal_strlit("\\flagged");
        reveal_strlit("\\answered");
        reveal_strlit("\\draft");
        reveal_strlit("\\deleted");
    }
    let a = chars_of("\\seen");
    let b = chars_of("\\flagged");
    let c = chars_of("\\answered");
    let d = chars_of("\\draft");
    let e = chars_of("\\deleted");
    assert(a@ =~= seq!['\\', 's', 'e', 'e', 'n']);
    assert(b@ =~= seq!['\\', 'f', 'l', 'a', 'g', 'g', 'e', 'd']);
    assert(c@ =~= seq!['\\', 'a', 'n', 's', 'w', 'e', 'r', 'e', 'd']);
    assert(d@ =~= seq!['\\', 'd', 'r', 'a', 'f', 't']);
    assert(e@ =~= seq!['\\', 'd', 'e', 'l', 'e', 't', 'e', 'd']);
    (a, b, c, d, e)
}

/// The flags named by the words of `v[from..to]`.
fn flags_in(v: &[char], from: usize, to: usize) -> (f: MessageFlags)
    requires
        from <= to <= v@.len(),
    ensures
        f == flags_of_words(words(v@.subrange(from as int, to as int))),
{
    let wb = split_words(v, from, to);
    let ghost ws = words(v@.subrange(from as int, to as int));
    let (k_seen, k_flagged, k_answered, k_draft, k_deleted) = flag_word_chars();
    let mut f = MessageFlags {
        seen: false,
        flagged: false,
        answered: false,
        draft: false,
        deleted: false,
    };
    let mut j: usize = 0;
    while j < wb.len()
        invariant
            0 <= j <= wb@.len(),
            ws == pieces(v@, wb@),
            forall|k: int| 0 <= k < wb@.len() ==> from <= (#[trigger] wb@[k]).0 <= wb@[k].1 <= to,
            to <= v@.len(),
            k_seen@ == seq!['\\', 's', 'e', 'e', 'n'],
            k_flagged@ == seq!['\\', 'f', 'l', 'a', 'g', 'g', 'e', 'd'],
            k_answered@ == seq!['\\', 'a', 'n', 's', 'w', 'e', 'r', 'e', 'd'],
            k_draft@ == seq!['\\', 'd', 'r', 'a', 'f', 't'],
            k_deleted@ == seq!['\\', 'd', 'e', 'l', 'e', 't', 'e', 'd'],
            f.seen == exists|i: int| 0 <= i < j && lower_seq(ws[i]) == k_seen@,
            f.flagged == exists|i: int| 0 <= i < j && lower_seq(ws[i]) == k_flagged@,
            f.answered == exists|i: int| 0 <= i < j && lower_seq(ws[i]) == k_answered@,
            f.draft == exists|i: int| 0 <= i < j && lower_seq(ws[i]) == k_draft@,
            f.deleted == exists|i: int| 0 <= i < j && lower_seq(ws[i]) == k_deleted@,
        decreases wb@.len() - j,
    {
        let (x, y) = wb[j];
        let low = crate::text::lower_chars(&v[x..y]);
        assert(ws[j as int] == v@.subrange(x as int, y as int));
        let l = low.as_slice();
        if crate::text::chars_eq_slice(l, k_seen.as_slice()) {
            f.seen = true;
        }
        if crate::text::chars_eq_slice(l, k_flagged.as_slice()) {
            f.flagged = true;
        }
        if crate::text::chars_eq_slice(l, k_answered.as_slice()) {
            f.answered = true;
        }
        if crate::text::chars_eq_slice(l, k_draft.as_slice()) {
            f.draft = true;
        }
        if crate::text::chars_eq_slice(l, k_deleted.as_slice()) {
            f.deleted = true;
        }
        j = j + 1;
    }
    f
}

fn flags_at(v: &[char], i: usize) -> (r: Option<(MessageFlags, usize)>)
    requires
        i <= v@.len(),
    ensures
        match flags_rule(v@.skip(i as int)) {
            Some((f, n)) => r == Some((f, n as usize)) && i + n <= v@.len(),
            None => r is None,
        },
{
    let vlen = v.len();
    match delimited_at(v, i, '(', ')') {
        Some((k, m)) => {
            let f = flags_in(v, i + 1, i + 1 + k);
            Some((f, m))
        },
        None => None,
    }
}

/// Optional blanks then digits at `v[i..]`: the digits' bounds and the characters taken.
fn number_at(v: &[char], i: usize) -> (r: Option<(usize, usize, usize)>)
    requires
        i <= v@.len(),
    ensures
        match number_rule(v@.skip(i as int)) {
            Some((num, n)) => r matches Some((a, b, m)) && a <= b <= v@.len() && v@.subrange(
                a as int,
                b as int,
            ) == num && m == n && i + n <= v@.len(),
            None => r is None,
        },
{
    let vlen = v.len();
    let a = count_while(v, i, is_ws_exec, Ghost(ws_pred()));
    let e = count_while(v, i + a, is_digit_exec, Ghost(digit_pred()));
    proof {
        lemma_skip_skip(v@, i as int, a as int);
    }
    if e == 0 {
        None
    } else {
        assert(v@.subrange((i + a) as int, (i + a + e) as int) =~= v@.skip((i + a) as int).take(
            e as int,
        ));
        Some((i + a, i + a + e, a + e))
    }
}

fn not_attr_start_exec(c: char) -> (r: bool)
    ensures
        r == (not_attr_start_pred())(c),
{
    !(char_is_alphabetic(c) || c == '\\')
}

/// Scans the fetch attributes in `v[i..]`.
fn fetch_scan_exec(v: &[char], i: usize) -> (r: (Option<u32>, Option<MessageFlags>, Option<u64>))
    requires
        i <= v@.len(),
    ensures
        ({
            let acc = fetch_scan(v@.skip(i as int), FetchAcc { uid: None, flags: None, size: None });
            r == (acc.uid, acc.flags, acc.size)
        }),
{
    let vlen = v.len();
    proof {
        reveal_strlit("UID ");
        reveal_strlit("FLAGS ");
        reveal_strlit("RFC822.SIZE ");
    }
    let kw_uid = chars_of("UID ");
    let kw_flags = chars_of("FLAGS ");
    let kw_size = chars_of("RFC822.SIZE ");
    assert(kw_uid@ =~= kw_uid_sp());
    assert(kw_flags@ =~= kw_flags_sp());
    assert(kw_size@ =~= kw_size_sp());
    let ghost goal = fetch_scan(v@.skip(i as int), FetchAcc { uid: None, flags: None, size: None });
    let mut uid: Option<u32> = None;
    let mut flags: Option<MessageFlags> = None;
    let mut size: Option<u64> = None;
    let mut p = i;
    loop
        invariant
            i <= p <= v@.len(),
            vlen == v@.len(),
            kw_uid@ == kw_uid_sp(),
            kw_flags@ == kw_flags_sp(),
            kw_size@ == kw_size_sp(),
            fetch_scan(v@.skip(p as int), FetchAcc { uid: uid, flags: flags, size: size }) == goal,
        ensures
            (uid, flags, size) == (goal.uid, goal.flags, goal.size),
        decreases v@.len() - p,
    {
        let ghost rem = v@.skip(p as int);
        let ghost acc = FetchAcc { uid: uid, flags: flags, size: size };
        let idx = count_while(v, p, not_attr_start_exec, Ghost(not_attr_start_pred()));
        if p + idx >= vlen {
            break;
        }
        let q = p + idx;
        proof {
            lemma_skip_skip(v@, p as int, idx as int);
        }
        if kw_at_exec(v, q, kw_uid.as_slice()) {
            let q2 = q + 4;
            proof {
                lemma_skip_skip(v@, q as int, 4);
            }
            match number_at(v, q2) {
                Some((a, b, m)) => {
                    proof {
                        lemma_skip_skip(v@, q2 as int, m as int);
                    }
                    let parsed = parse_uint_in(v, a, b, 4294967295u64);
                    uid = match parsed {
                        Some(x) => Some(x as u32),
                        None => None,
                    };
                    p = q2 + m;
                },
                None => {
                    p = q2;
                },
            }
        } else if kw_at_exec(v, q, kw_flags.as_slice()) {
            let q2 = q + 6;
            proof {
                lemma_skip_skip(v@, q as int, 6);
            }
            match flags_at(v, q2) {
                Some((f, m)) => {
                    proof {
                        lemma_skip_skip(v@, q2 as int, m as int);
                    }
                    flags = Some(f);
                    p = q2 + m;
                },
                None => {
                    p = q2;
                },
            }
        } else if kw_at_exec(v, q, kw_size.as_slice()) {
            let q2 = q + 12;
            proof {
                lemma_skip_skip(v@, q as int, 12);
            }
            match number_at(v, q2) {
                Some((a, b, m)) => {
                    proof {
                        lemma_skip_skip(v@, q2 as int, m as int);
                    }
                    let parsed = parse_uint_in(v, a, b, 18446744073709551615u64);
                    size = parsed;
                    p = q2 + m;
                },
                None => {
                    p = q2;
                },
            }
        } else {
            let found = find_char_in(v, q, vlen, ' ');
            assert(v@.subrange(q as int, vlen as int) =~= v@.skip(q as int));
            match found {
                Some(k) => {
                    proof {
                        lemma_find_char_bound(v@.skip(q as int), ' ');
                        lemma_skip_skip(v@, q as int, k as int + 1);
                    }
                    p = q + k + 1;
                },
                None => {
                    break;
                },
            }
        }
    }
    (uid, flags, size)
}

fn trimmed_string(v: &[char], from: usize, to: usize) -> (r: String)
    requires
        from <= to <= v@.len(),
    ensures
        r@ == trim(v@.subrange(from as int, to as int)),
{
    let (a, b) = trim_bounds(v, from, to);
    string_of(&v[a..b])
}

/// Parses an untagged line (without its line ending).
fn untagged_line(v: &[char]) -> (r: Option<UntaggedResponse>)
    ensures
        match untagged_rule(v@) {
            Some(x) => r matches Some(u) && u@ == x,
            None => r is None,
        },
{
    let vlen = v.len();
    if vlen == 0 || v[0] != '*' {
        return None;
    }
    let n = space_len_at(v, 1);
    if n == 0 {
        return None;
    }
    let i = 1 + n;
    proof {
        lemma_skip_skip(v@, 1, n as int);
    }
    let ghost u = v@.skip(i as int);
    assert(u =~= v@.subrange(i as int, vlen as int));
    if let Some(l) = list_at(v, i) {
        return Some(l);
    }
    proof {
        reveal_strlit("EXISTS");
        reveal_strlit("RECENT");
        reveal_strlit("EXPUNGE");
    }
    let k_exists = chars_of("EXISTS");
    let k_recent = chars_of("RECENT");
    let k_expunge = chars_of("EXPUNGE");
    assert(k_exists@ =~= kw_exists());
    assert(k_recent@ =~= kw_recent());
    assert(k_expunge@ =~= kw_expunge());
    if let Some(x) = num_kw_at(v, i, k_exists.as_slice()) {
        return Some(UntaggedResponse::Exists(x));
    }
    if let Some(x) = num_kw_at(v, i, k_recent.as_slice()) {
        return Some(UntaggedResponse::Recent(x));
    }
    if let Some(x) = num_kw_at(v, i, k_expunge.as_slice()) {
        return Some(UntaggedResponse::Expunge(x));
    }
    if let Some((seq_no, off)) = fetch_head_at(v, i) {
        proof {
            lemma_skip_skip(v@, i as int, off as int);
        }
        let (uid, flags, size) = fetch_scan_exec(v, i + off);
        return Some(
            UntaggedResponse::Fetch(
                FetchResponse { seq: seq_no, uid, flags, rfc822_size: size, rfc822_body: None },
            ),
        );
    }
    if let Some((st, k)) = status_at(v, i) {
        proof {
            lemma_skip_skip(v@, i as int, k as int);
        }
        let (code, m) = opt_code_at(v, i + k);
        proof {
            lemma_skip_skip(v@, (i + k) as int, m as int);
        }
        assert(v@.subrange((i + k + m) as int, vlen as int) =~= v@.skip((i + k + m) as int));
        let res = match st {
            Status::OK => UntaggedResponse::OK {
                code: opt_string(v, code),
                text: trimmed_string(v, i + k + m, vlen),
            },
            Status::No => UntaggedResponse::No {
                code: opt_string(v, code),
                text: trimmed_string(v, i + k + m, vlen),
            },
            Status::Bad => UntaggedResponse::Bad {
                code: opt_string(v, code),
                text: trimmed_string(v, i + k + m, vlen),
            },
            _ => UntaggedResponse::Other(trimmed_string(v, i, vlen)),
        };
        return Some(res);
    }
    Some(UntaggedResponse::Other(trimmed_string(v, i, vlen)))
}

/// Length of `strip_crlf(v[..to])`.
fn strip_crlf_len(v: &[char], to: usize) -> (n: usize)
    requires
        to <= v@.len(),
    ensures
        n <= to,
        v@.subrange(0, n as int) == strip_crlf(v@.subrange(0, to as int)),
    decreases to,
{
    if to >= 2 && v[to - 2] == '\r' && v[to - 1] == '\n' {
        let ghost s = v@.subrange(0, to as int);
        assert(s.take(s.len() - 2) =~= v@.subrange(0, to - 2));
        strip_crlf_len(v, to - 2)
    } else {
        to
    }
}

/// A response line that could not be parsed.
#[derive(Debug, Clone, PartialEq, Eq)]
pub struct LineError {
    pub line: String,
}

/// Classifies and parses one line received from the server.
pub fn parse_line(line: &str) -> (r: Result<ImapLine, LineError>)
    ensures
        match line_rule(line@) {
            Some(x) => r matches Ok(l) && l@ == x,
            None => r matches Err(e) && e.line@ == line@,
        },
{
    let all = chars_of(line);
    let n = strip_crlf_len(all.as_slice(), all.len());
    let v = &all.as_slice()[0..n];
    assert(all@.subrange(0, all@.len() as int) =~= all@);
    assert(v@ == strip_crlf(line@));
    if n > 0 && v[0] == '+' {
        let text = trimmed_string(v, 1, n);
        assert(v@.subrange(1, n as int) =~= v@.skip(1));
        return Ok(ImapLine::Continuation(Continuation(text)));
    }
    if n > 0 && v[0] == '*' {
        match untagged_line(v) {
            Some(u) => Ok(ImapLine::Untagged(u)),
            None => Err(LineError { line: line.to_owned() }),
        }
    } else {
        match tagged_line(v) {
            Some(t) => Ok(ImapLine::Tagged(t)),
            None => Err(LineError { line: line.to_owned() }),
        }
    }
}

/// Position of the last occurrence of `c` in `s`.
pub open spec fn rfind_char(s: Seq<char>, c: char) -> Option<nat>
    decreases s.len(),
{
    if s.len() == 0 {
        None
    } else if s.last() == c {
        Some((s.len() - 1) as nat)
    } else {
        rfind_char(s.drop_last(), c)
    }
}

/// The announced size of a literal that ends a line (`... {1024}`), if any.
pub open spec fn literal_length_rule(line: Seq<char>) -> Option<nat> {
    let t = crate::scan::trim_end(strip_crlf(line));
    if t.len() > 0 && t.last() == '}' {
        match rfind_char(t, '{') {
            Some(o) => parse_uint(t.subrange(o as int + 1, t.len() - 1), usize::MAX as nat),
            None => None,
        }
    } else {
        None
    }
}

/// Checks whether a line ends with an IMAP literal announcement such as `{1234}`
/// and returns the announced length.
pub fn parse_literal_length(line: &str) -> (r: Option<usize>)
    ensures
        match literal_length_rule(line@) {
            Some(n) => r == Some(n as usize),
            None => r is None,
        },
{
    let all = chars_of(line);
    let n = strip_crlf_len(all.as_slice(), all.len());
    assert(all@.subrange(0, all@.len() as int) =~= all@);
    let v = all.as_slice();
    let back = crate::scan::count_ws_back(v, n);
    let e = n - back;
    let ghost t = v@.subrange(0, e as int);
    assert(t =~= crate::scan::trim_end(strip_crlf(line@)));
    if e == 0 || v[e - 1] != '}' {
        return None;
    }
    let mut o = e - 1;
    while o > 0 && v[o - 1] != '{'
        invariant
            0 <= o < e <= v@.len(),
            t == v@.subrange(0, e as int),
            rfind_char(t, '{') == rfind_char(t.take(o as int), '{'),
        decreases o,
    {
        assert(t.take(o as int).drop_last() =~= t.take(o - 1));
        o = o - 1;
    }
    if o == 0 {
        assert(t.take(0).len() == 0);
        return None;
    }
    assert(t.take(o as int).last() == '{');
    let parsed = parse_uint_in(v, o, e - 1, usize::MAX as u64);
    assert(v@.subrange(o as int, e - 1) =~= t.subrange(o as int, t.len() - 1));
    match parsed {
        Some(x) => Some(x as usize),
        None => None,
    }
}

} // verus!
