//! Composition of the MIME message that is handed to the SMTP server.

use vstd::prelude::*;

use base64::engine::general_purpose::STANDARD as BASE64;
use base64::Engine;

use crate::ids::{
    fresh_uuid, is_v7_uuid, rfc2822_text, uuid_simple_text, uuid_text, uuid_to_string, Timestamp,
};
use crate::message::{format_address, EmailAddress};
use crate::outbox::{DraftAttachment, OutboxMessage};
use crate::scan::find_char;
use crate::smtp::error::SmtpError;
use crate::text::{
    chars_of, join, join_strings, lemma_join_contains, lemma_join_push, push_str, string_of_range,
    utf8_bytes,
};
use vstd::utf8::encode_utf8;

verus! {

/// A character of the standard base64 alphabet: `A`-`Z`, `a`-`z`, `0`-`9`, `+`, `/`.
pub open spec fn b64_char(v: int) -> char {
    if v < 26 {
        (65 + v) as char
    } else if v < 52 {
        (71 + v) as char
    } else if v < 62 {
        (v - 4) as char
    } else if v == 62 {
        '+'
    } else {
        '/'
    }
}

/// `STANDARD.encode` of base64: each group of three bytes as four characters of
/// six bits each, most significant first; a last group of one or two bytes is
/// padded with zero bits and completed with `=`.
pub open spec fn base64_standard(data: Seq<u8>) -> Seq<char>
    decreases data.len(),
{
    if data.len() == 0 {
        seq![]
    } else if data.len() == 1 {
        let n = data[0] as int * 65536;
        seq![b64_char(n / 262144), b64_char((n / 4096) % 64), '=', '=']
    } else if data.len() == 2 {
        let n = data[0] as int * 65536 + data[1] as int * 256;
        seq![b64_char(n / 262144), b64_char((n / 4096) % 64), b64_char((n / 64) % 64), '=']
    } else {
        let n = data[0] as int * 65536 + data[1] as int * 256 + data[2] as int;
        seq![b64_char(n / 262144), b64_char((n / 4096) % 64), b64_char((n / 64) % 64), b64_char(n % 64)]
            + base64_standard(data.skip(3))
    }
}

/// `general_purpose::STANDARD.encode` of the base64 crate.
#[verifier::external_body]
pub(crate) fn base64_encode(data: &[u8]) -> (r: String)
    ensures
        r@ == base64_standard(data@),
{
    BASE64.encode(data)
}

/// The simple (unhyphenated) text of a UUID, `Uuid::simple().to_string()`.
#[verifier::external_body]
fn uuid_simple(u: u128) -> (r: String)
    ensures
        r@ == uuid_simple_text(u),
{
    uuid::Uuid::from_u128(u).simple().to_string()
}

/// The domain that names the sender in a Message-ID: the text after the first `@`
/// of the address up to the next `@`, or `localhost` when there is no `@`.
pub open spec fn mail_domain(address: Seq<char>) -> Seq<char> {
    match find_char(address, '@') {
        None => "localhost"@,
        Some(i) => {
            let rest = address.skip(i + 1 as int);
            match find_char(rest, '@') {
                None => rest,
                Some(j) => rest.take(j as int),
            }
        },
    }
}

/// The comma-separated display forms of a list of addresses.
pub open spec fn address_list(v: Seq<EmailAddress>) -> Seq<char> {
    join(v.map_values(|a: EmailAddress| format_address(a@)), ", "@)
}

pub open spec fn has_text(m: OutboxMessage) -> bool {
    m.body_text matches Some(t) && t@.len() > 0
}

pub open spec fn has_html(m: OutboxMessage) -> bool {
    m.body_html matches Some(h) && h@.len() > 0
}

pub open spec fn text_or_empty(b: Option<String>) -> Seq<char> {
    match b {
        Some(t) => t@,
        None => seq![],
    }
}

/// The header lines every message carries, before its content type.
pub open spec fn base_headers(m: OutboxMessage, uuid: Seq<char>, date: Seq<char>) -> Seq<
    Seq<char>,
> {
    let h = seq![
        "Message-ID: <"@ + uuid + "@"@ + mail_domain(m.from.address@) + ">"@,
        "Date: "@ + date,
        "From: "@ + format_address(m.from@),
    ];
    let h = if m.to@.len() > 0 {
        h.push("To: "@ + address_list(m.to@))
    } else {
        h
    };
    let h = if m.cc@.len() > 0 {
        h.push("Cc: "@ + address_list(m.cc@))
    } else {
        h
    };
    let h = h.push("Subject: "@ + m.subject@);
    let h = match m.in_reply_to {
        Some(r) => h.push("In-Reply-To: "@ + r@),
        None => h,
    };
    let h = match m.references {
        Some(r) => h.push("References: "@ + r@),
        None => h,
    };
    h.push("MIME-Version: 1.0"@)
}

pub open spec fn mixed_boundary(token: Seq<char>) -> Seq<char> {
    "==_edvige_mixed_"@ + token
}

pub open spec fn alt_boundary(token: Seq<char>) -> Seq<char> {
    "==_edvige_alt_"@ + token
}

/// The header lines that describe the content, by the shape of the message.
pub open spec fn content_headers(m: OutboxMessage, mixed: Seq<char>, alt: Seq<char>) -> Seq<
    Seq<char>,
> {
    if m.attachments@.len() > 0 {
        seq!["Content-Type: multipart/mixed; boundary=\""@ + mixed_boundary(mixed) + "\""@]
    } else if has_text(m) && has_html(m) {
        seq!["Content-Type: multipart/alternative; boundary=\""@ + alt_boundary(alt) + "\""@]
    } else if has_html(m) {
        seq!["Content-Type: text/html; charset=utf-8"@, "Content-Transfer-Encoding: 8bit"@]
    } else {
        seq!["Content-Type: text/plain; charset=utf-8"@, "Content-Transfer-Encoding: 8bit"@]
    }
}

pub open spec fn text_part(boundary: Seq<char>, text: Seq<char>) -> Seq<char> {
    "--"@ + boundary + "\r\n"@ + "Content-Type: text/plain; charset=utf-8\r\n"@
        + "Content-Transfer-Encoding: 8bit\r\n\r\n"@ + text + "\r\n"@
}

pub open spec fn html_part(boundary: Seq<char>, html: Seq<char>) -> Seq<char> {
    "--"@ + boundary + "\r\n"@ + "Content-Type: text/html; charset=utf-8\r\n"@
        + "Content-Transfer-Encoding: 8bit\r\n\r\n"@ + html + "\r\n"@
}

/// The plain and HTML alternatives, closed by the final boundary.
pub open spec fn alternatives(boundary: Seq<char>, text: Seq<char>, html: Seq<char>) -> Seq<
    char,
> {
    text_part(boundary, text) + html_part(boundary, html) + "--"@ + boundary + "--\r\n"@
}

/// A base64 text cut into lines of 76 characters, each ended by CRLF.
pub open spec fn wrap76(s: Seq<char>) -> Seq<char>
    decreases s.len(),
{
    if s.len() == 0 {
        seq![]
    } else if s.len() <= 76 {
        s + "\r\n"@
    } else {
        s.take(76) + "\r\n"@ + wrap76(s.skip(76))
    }
}

/// The MIME headers of an attachment part.
pub open spec fn attachment_headers(a: DraftAttachment) -> Seq<char> {
    "Content-Type: "@ + a.content_type@ + "; name=\""@ + a.filename@ + "\"\r\n"@
        + "Content-Transfer-Encoding: base64\r\n"@ + "Content-Disposition: "@ + (if a.is_inline {
        "inline"@
    } else {
        "attachment"@
    }) + "; filename=\""@ + a.filename@ + "\"\r\n"@ + (match a.content_id {
        Some(c) => "Content-ID: <"@ + c@ + ">\r\n"@,
        None => seq![],
    })
}

pub open spec fn attachment_part(boundary: Seq<char>, a: DraftAttachment) -> Seq<char> {
    "--"@ + boundary + "\r\n"@ + attachment_headers(a) + "\r\n"@ + wrap76(base64_standard(a.data@))
}

pub open spec fn attachment_parts(boundary: Seq<char>, atts: Seq<DraftAttachment>) -> Seq<char>
    decreases atts.len(),
{
    if atts.len() == 0 {
        seq![]
    } else {
        attachment_parts(boundary, atts.drop_last()) + attachment_part(boundary, atts.last())
    }
}

/// The first part of a multipart/mixed message: the alternatives, or the one body.
pub open spec fn mixed_first_part(m: OutboxMessage, alt: Seq<char>) -> Seq<char> {
    if has_text(m) && has_html(m) {
        "Content-Type: multipart/alternative; boundary=\""@ + alt_boundary(alt) + "\"\r\n\r\n"@
            + alternatives(alt_boundary(alt), text_or_empty(m.body_text), text_or_empty(m.body_html))
    } else if has_html(m) {
        "Content-Type: text/html; charset=utf-8\r\nContent-Transfer-Encoding: 8bit\r\n\r\n"@
            + text_or_empty(m.body_html) + "\r\n"@
    } else {
        "Content-Type: text/plain; charset=utf-8\r\nContent-Transfer-Encoding: 8bit\r\n\r\n"@
            + text_or_empty(m.body_text) + "\r\n"@
    }
}

/// What follows the blank line after the headers.
pub open spec fn mime_body(m: OutboxMessage, mixed: Seq<char>, alt: Seq<char>) -> Seq<char> {
    if m.attachments@.len() > 0 {
        "--"@ + mixed_boundary(mixed) + "\r\n"@ + mixed_first_part(m, alt) + attachment_parts(
            mixed_boundary(mixed),
            m.attachments@,
        ) + "--"@ + mixed_boundary(mixed) + "--\r\n"@
    } else if has_text(m) && has_html(m) {
        alternatives(alt_boundary(alt), text_or_empty(m.body_text), text_or_empty(m.body_html))
    } else if has_html(m) {
        text_or_empty(m.body_html) + "\r\n"@
    } else {
        text_or_empty(m.body_text) + "\r\n"@
    }
}

/// The whole message text for the given Message-ID UUID text, date text and
/// boundary tokens.
pub open spec fn mime_text(
    m: OutboxMessage,
    uuid: Seq<char>,
    date: Seq<char>,
    mixed: Seq<char>,
    alt: Seq<char>,
) -> Seq<char> {
    join(base_headers(m, uuid, date) + content_headers(m, mixed, alt), "\r\n"@) + "\r\n\r\n"@
        + mime_body(m, mixed, alt)
}

/// Blind copies stay blind: the message text does not depend on the Bcc list, so
/// two messages that differ only in their Bcc recipients are built alike and no
/// Bcc address is written into the message by way of that list.
pub proof fn lemma_bcc_not_written(
    m: OutboxMessage,
    n: OutboxMessage,
    uuid: Seq<char>,
    date: Seq<char>,
    mixed: Seq<char>,
    alt: Seq<char>,
)
    requires
        n == (OutboxMessage { bcc: n.bcc, ..m }),
    ensures
        mime_text(m, uuid, date, mixed, alt) == mime_text(n, uuid, date, mixed, alt),
{
    assert(base_headers(m, uuid, date) == base_headers(n, uuid, date));
    assert(content_headers(m, mixed, alt) == content_headers(n, mixed, alt));
    assert(mime_body(m, mixed, alt) == mime_body(n, mixed, alt));
}

/// `line`, ended by CRLF, occurs somewhere in `text`.
pub open spec fn contains_line(text: Seq<char>, line: Seq<char>) -> bool {
    exists|k: int|
        0 <= k && k + line.len() + 2 <= text.len() && #[trigger] text.subrange(
            k,
            k + line.len() + 2,
        ) == line + "\r\n"@
}

/// Each header line is written into the message text, followed by CRLF.
proof fn lemma_base_line_written(
    m: OutboxMessage,
    uuid: Seq<char>,
    date: Seq<char>,
    mixed: Seq<char>,
    alt: Seq<char>,
    i: int,
)
    requires
        0 <= i < base_headers(m, uuid, date).len(),
    ensures
        contains_line(mime_text(m, uuid, date, mixed, alt), base_headers(m, uuid, date)[i]),
{
    reveal_strlit("\r\n");
    let base = base_headers(m, uuid, date);
    let hs = base + content_headers(m, mixed, alt);
    let crlf = "\r\n"@;
    assert(content_headers(m, mixed, alt).len() >= 1);
    assert(hs[i] == base[i]);
    lemma_join_contains(hs, crlf, i);
    let j = join(hs, crlf);
    let k = choose|k: int|
        0 <= k && k + hs[i].len() + crlf.len() <= j.len() && #[trigger] j.subrange(
            k,
            k + hs[i].len() + crlf.len(),
        ) == hs[i] + crlf;
    let t = mime_text(m, uuid, date, mixed, alt);
    assert(t == j + ("\r\n\r\n"@ + mime_body(m, mixed, alt)));
    assert(t.subrange(k, k + base[i].len() + 2) =~= j.subrange(k, k + base[i].len() + 2));
    assert(t.subrange(k, k + base[i].len() + 2) == base[i] + crlf);
}

/// The headers that a message asks for are written into its text, each on a line
/// of its own: the date, the sender, the recipients when there are any, the
/// subject, the reply and thread references when the message has them, and the
/// MIME version.
pub proof fn lemma_headers_written(
    m: OutboxMessage,
    uuid: Seq<char>,
    date: Seq<char>,
    mixed: Seq<char>,
    alt: Seq<char>,
)
    ensures
        contains_line(
            mime_text(m, uuid, date, mixed, alt),
            "Message-ID: <"@ + uuid + "@"@ + mail_domain(m.from.address@) + ">"@,
        ),
        contains_line(mime_text(m, uuid, date, mixed, alt), "Date: "@ + date),
        contains_line(mime_text(m, uuid, date, mixed, alt), "From: "@ + format_address(m.from@)),
        m.to@.len() > 0 ==> contains_line(
            mime_text(m, uuid, date, mixed, alt),
            "To: "@ + address_list(m.to@),
        ),
        m.cc@.len() > 0 ==> contains_line(
            mime_text(m, uuid, date, mixed, alt),
            "Cc: "@ + address_list(m.cc@),
        ),
        contains_line(mime_text(m, uuid, date, mixed, alt), "Subject: "@ + m.subject@),
        m.in_reply_to matches Some(r) ==> contains_line(
            mime_text(m, uuid, date, mixed, alt),
            "In-Reply-To: "@ + r@,
        ),
        m.references matches Some(r) ==> contains_line(
            mime_text(m, uuid, date, mixed, alt),
            "References: "@ + r@,
        ),
        contains_line(mime_text(m, uuid, date, mixed, alt), "MIME-Version: 1.0"@),
{
    let h0 = seq![
        "Message-ID: <"@ + uuid + "@"@ + mail_domain(m.from.address@) + ">"@,
        "Date: "@ + date,
        "From: "@ + format_address(m.from@),
    ];
    let h1 = if m.to@.len() > 0 {
        h0.push("To: "@ + address_list(m.to@))
    } else {
        h0
    };
    let h2 = if m.cc@.len() > 0 {
        h1.push("Cc: "@ + address_list(m.cc@))
    } else {
        h1
    };
    let h3 = h2.push("Subject: "@ + m.subject@);
    let h4 = match m.in_reply_to {
        Some(r) => h3.push("In-Reply-To: "@ + r@),
        None => h3,
    };
    let h5 = match m.references {
        Some(r) => h4.push("References: "@ + r@),
        None => h4,
    };
    let base = base_headers(m, uuid, date);
    assert(base == h5.push("MIME-Version: 1.0"@));
    assert(h0.len() <= h1.len() <= h2.len() < h3.len() <= h4.len() <= h5.len());
    lemma_base_line_written(m, uuid, date, mixed, alt, 0);
    lemma_base_line_written(m, uuid, date, mixed, alt, 1);
    lemma_base_line_written(m, uuid, date, mixed, alt, 2);
    if m.to@.len() > 0 {
        assert(base[3] == h1[3]);
        lemma_base_line_written(m, uuid, date, mixed, alt, 3);
    }
    if m.cc@.len() > 0 {
        assert(base[h1.len() as int] == h2[h1.len() as int]);
        lemma_base_line_written(m, uuid, date, mixed, alt, h1.len() as int);
    }
    assert(base[h2.len() as int] == h3[h2.len() as int]);
    lemma_base_line_written(m, uuid, date, mixed, alt, h2.len() as int);
    if m.in_reply_to is Some {
        assert(base[h3.len() as int] == h4[h3.len() as int]);
        lemma_base_line_written(m, uuid, date, mixed, alt, h3.len() as int);
    }
    if m.references is Some {
        assert(base[h4.len() as int] == h5[h4.len() as int]);
        lemma_base_line_written(m, uuid, date, mixed, alt, h4.len() as int);
    }
    lemma_base_line_written(m, uuid, date, mixed, alt, h5.len() as int);
}

/// The domain part used in the Message-ID.
fn domain_of(address: &str) -> (r: String)
    ensures
        r@ == mail_domain(address@),
{
    let v = chars_of(address);
    let n = v.len();
    assert(v@.subrange(0, n as int) =~= v@);
    match crate::scan::find_char_in(v.as_slice(), 0, n, '@') {
        None => {
            assert(find_char(address@, '@') is None);
            "localhost".to_owned()
        },
        Some(i) => {
            assert(find_char(address@, '@') == Some(i as nat));
            let ghost rest = address@.skip(i + 1 as int);
            assert(v@.subrange(i + 1, n as int) =~= rest);
            match crate::scan::find_char_in(v.as_slice(), i + 1, n, '@') {
                None => {
                    assert(find_char(rest, '@') is None);
                    string_of_range(v.as_slice(), i + 1, n)
                },
                Some(j) => {
                    assert(find_char(rest, '@') == Some(j as nat));
                    assert(v@.subrange(i + 1, i + 1 + j) =~= rest.take(j as int));
                    string_of_range(v.as_slice(), i + 1, i + 1 + j)
                },
            }
        },
    }
}

/// The comma-separated display forms of a list of addresses.
pub(crate) fn format_list(v: &Vec<EmailAddress>) -> (r: String)
    ensures
        r@ == address_list(v@),
{
    let mut s = String::new();
    let mut i: usize = 0;
    while i < v.len()
        invariant
            0 <= i <= v@.len(),
            s@ == join(v@.take(i as int).map_values(|a: EmailAddress| format_address(a@)), ", "@),
        decreases v@.len() - i,
    {
        let ghost before = v@.take(i as int).map_values(|a: EmailAddress| format_address(a@));
        let f = v[i].format();
        if i > 0 {
            push_str(&mut s, ", ");
        }
        push_str(&mut s, f.as_str());
        proof {
            lemma_join_push(before, ", "@, f@);
            assert(v@.take(i + 1).map_values(|a: EmailAddress| format_address(a@)) =~= before.push(
                f@,
            ));
        }
        i = i + 1;
    }
    assert(v@.take(v@.len() as int) =~= v@);
    s
}

/// `prefix` followed by `text`, as a new string.
fn concat(prefix: &str, text: &str) -> (r: String)
    ensures
        r@ == prefix@ + text@,
{
    let mut s = prefix.to_owned();
    push_str(&mut s, text);
    s
}

/// Pushes a header line onto the list.
fn push_line(lines: &mut Vec<String>, line: String)
    ensures
        final(lines)@.map_values(|s: String| s@) == old(lines)@.map_values(|s: String| s@).push(
            line@,
        ),
        final(lines)@.len() == old(lines)@.len() + 1,
{
    lines.push(line);
    assert(final(lines)@.map_values(|s: String| s@) =~= old(lines)@.map_values(|s: String| s@).push(
        line@,
    ));
}

/// The header lines of `base_headers`, as strings.
fn build_base_headers(msg: &OutboxMessage, uuid: &str, date: &str) -> (r: Vec<String>)
    ensures
        r@.map_values(|s: String| s@) == base_headers(*msg, uuid@, date@),
{
    let mut lines: Vec<String> = Vec::new();
    let mut l = concat("Message-ID: <", uuid);
    push_str(&mut l, "@");
    let d = domain_of(msg.from.address.as_str());
    push_str(&mut l, d.as_str());
    push_str(&mut l, ">");
    push_line(&mut lines, l);
    push_line(&mut lines, concat("Date: ", date));
    let f = msg.from.format();
    push_line(&mut lines, concat("From: ", f.as_str()));
    let ghost h = seq![
        "Message-ID: <"@ + uuid@ + "@"@ + mail_domain(msg.from.address@) + ">"@,
        "Date: "@ + date@,
        "From: "@ + format_address(msg.from@),
    ];
    assert(lines@.map_values(|s: String| s@) =~= h);
    if msg.to.len() > 0 {
        let t = format_list(&msg.to);
        push_line(&mut lines, concat("To: ", t.as_str()));
    }
    if msg.cc.len() > 0 {
        let c = format_list(&msg.cc);
        push_line(&mut lines, concat("Cc: ", c.as_str()));
    }
    push_line(&mut lines, concat("Subject: ", msg.subject.as_str()));
    match &msg.in_reply_to {
        Some(r) => push_line(&mut lines, concat("In-Reply-To: ", r.as_str())),
        None => {},
    }
    match &msg.references {
        Some(r) => push_line(&mut lines, concat("References: ", r.as_str())),
        None => {},
    }
    push_line(&mut lines, "MIME-Version: 1.0".to_owned());
    lines
}

/// Appends one part of a plain or HTML alternative.
fn write_text_part(buf: &mut String, boundary: &str, text: &str)
    ensures
        final(buf)@ == old(buf)@ + text_part(boundary@, text@),
{
    push_str(buf, "--");
    push_str(buf, boundary);
    push_str(buf, "\r\n");
    push_str(buf, "Content-Type: text/plain; charset=utf-8\r\n");
    push_str(buf, "Content-Transfer-Encoding: 8bit\r\n\r\n");
    push_str(buf, text);
    push_str(buf, "\r\n");
    assert(final(buf)@ =~= old(buf)@ + text_part(boundary@, text@));
}

fn write_html_part(buf: &mut String, boundary: &str, html: &str)
    ensures
        final(buf)@ == old(buf)@ + html_part(boundary@, html@),
{
    push_str(buf, "--");
    push_str(buf, boundary);
    push_str(buf, "\r\n");
    push_str(buf, "Content-Type: text/html; charset=utf-8\r\n");
    push_str(buf, "Content-Transfer-Encoding: 8bit\r\n\r\n");
    push_str(buf, html);
    push_str(buf, "\r\n");
    assert(final(buf)@ =~= old(buf)@ + html_part(boundary@, html@));
}

fn body_str(b: &Option<String>) -> (r: &str)
    ensures
        r@ == text_or_empty(*b),
{
    match b {
        Some(t) => t.as_str(),
        None => {
            proof {
                reveal_strlit("");
            }
            ""
        },
    }
}

/// Appends both alternatives and the closing boundary.
fn push_alternatives(buf: &mut String, boundary: &str, text: &str, html: &str)
    ensures
        final(buf)@ == old(buf)@ + alternatives(boundary@, text@, html@),
{
    write_text_part(buf, boundary, text);
    write_html_part(buf, boundary, html);
    push_str(buf, "--");
    push_str(buf, boundary);
    push_str(buf, "--\r\n");
    assert(final(buf)@ =~= old(buf)@ + alternatives(boundary@, text@, html@));
}

/// Appends a base64 text in lines of 76 characters.
fn push_wrapped(buf: &mut String, encoded: &str)
    ensures
        final(buf)@ == old(buf)@ + wrap76(encoded@),
{
    let v = chars_of(encoded);
    let n = v.len();
    let mut i: usize = 0;
    assert(v@.skip(0) =~= v@);
    while i < n
        invariant
            v@ == encoded@,
            n == v@.len(),
            i <= n,
            old(buf)@ + wrap76(v@) == buf@ + wrap76(v@.skip(i as int)),
        decreases n - i,
    {
        let ghost rest = v@.skip(i as int);
        let end = if n - i > 76 {
            i + 76
        } else {
            n
        };
        let chunk = string_of_range(v.as_slice(), i, end);
        push_str(buf, chunk.as_str());
        push_str(buf, "\r\n");
        proof {
            if n - i > 76 {
                assert(rest.take(76) =~= chunk@);
                assert(rest.skip(76) =~= v@.skip(end as int));
            } else {
                assert(rest =~= chunk@);
                assert(v@.skip(end as int).len() == 0);
            }
        }
        i = end;
    }
    assert(v@.skip(n as int).len() == 0);
}

/// Appends the MIME headers of an attachment part.
fn push_attachment_headers(buf: &mut String, att: &DraftAttachment)
    ensures
        final(buf)@ == old(buf)@ + attachment_headers(*att),
{
    push_str(buf, "Content-Type: ");
    push_str(buf, att.content_type.as_str());
    push_str(buf, "; name=\"");
    push_str(buf, att.filename.as_str());
    push_str(buf, "\"\r\n");
    push_str(buf, "Content-Transfer-Encoding: base64\r\n");
    push_str(buf, "Content-Disposition: ");
    let ghost mid = buf@;
    if att.is_inline {
        push_str(buf, "inline");
    } else {
        push_str(buf, "attachment");
    }
    push_str(buf, "; filename=\"");
    push_str(buf, att.filename.as_str());
    push_str(buf, "\"\r\n");
    let ghost before_cid = buf@;
    match &att.content_id {
        Some(cid) => {
            push_str(buf, "Content-ID: <");
            push_str(buf, cid.as_str());
            push_str(buf, ">\r\n");
        },
        None => {},
    }
    assert(final(buf)@ =~= old(buf)@ + attachment_headers(*att));
}

/// Appends the part of one attachment.
fn write_attachment_part(buf: &mut String, boundary: &str, att: &DraftAttachment)
    ensures
        final(buf)@ == old(buf)@ + attachment_part(boundary@, *att),
{
    push_str(buf, "--");
    push_str(buf, boundary);
    push_str(buf, "\r\n");
    push_attachment_headers(buf, att);
    push_str(buf, "\r\n");
    let encoded = base64_encode(att.data.as_slice());
    push_wrapped(buf, encoded.as_str());
    assert(final(buf)@ =~= old(buf)@ + attachment_part(boundary@, *att));
}

/// The body of the message (what follows the blank line after the headers).
fn build_body(msg: &OutboxMessage, mixed: &str, alt: &str) -> (r: String)
    ensures
        r@ == mime_body(*msg, mixed@, alt@),
{
    let text = body_str(&msg.body_text);
    let html = body_str(&msg.body_html);
    let has_text = text.unicode_len() > 0;
    let has_html = html.unicode_len() > 0;
    let mut buf = String::new();
    if msg.attachments.len() > 0 {
        let mb = concat("==_edvige_mixed_", mixed);
        push_str(&mut buf, "--");
        push_str(&mut buf, mb.as_str());
        push_str(&mut buf, "\r\n");
        let ghost after_open = buf@;
        if has_text && has_html {
            let ab = concat("==_edvige_alt_", alt);
            push_str(&mut buf, "Content-Type: multipart/alternative; boundary=\"");
            push_str(&mut buf, ab.as_str());
            push_str(&mut buf, "\"\r\n\r\n");
            push_alternatives(&mut buf, ab.as_str(), text, html);
        } else if has_html {
            push_str(
                &mut buf,
                "Content-Type: text/html; charset=utf-8\r\nContent-Transfer-Encoding: 8bit\r\n\r\n",
            );
            push_str(&mut buf, html);
            push_str(&mut buf, "\r\n");
        } else {
            push_str(
                &mut buf,
                "Content-Type: text/plain; charset=utf-8\r\nContent-Transfer-Encoding: 8bit\r\n\r\n",
            );
            push_str(&mut buf, text);
            push_str(&mut buf, "\r\n");
        }
        assert(buf@ =~= after_open + mixed_first_part(*msg, alt@));
        let ghost before_atts = buf@;
        let mut i: usize = 0;
        while i < msg.attachments.len()
            invariant
                0 <= i <= msg.attachments@.len(),
                buf@ == before_atts + attachment_parts(mb@, msg.attachments@.take(i as int)),
            decreases msg.attachments@.len() - i,
        {
            write_attachment_part(&mut buf, mb.as_str(), &msg.attachments[i]);
            proof {
                let t = msg.attachments@.take(i + 1);
                assert(t.drop_last() =~= msg.attachments@.take(i as int));
            }
            i = i + 1;
        }
        assert(msg.attachments@.take(msg.attachments@.len() as int) =~= msg.attachments@);
        push_str(&mut buf, "--");
        push_str(&mut buf, mb.as_str());
        push_str(&mut buf, "--\r\n");
        assert(buf@ =~= mime_body(*msg, mixed@, alt@));
    } else if has_text && has_html {
        let ab = concat("==_edvige_alt_", alt);
        push_alternatives(&mut buf, ab.as_str(), text, html);
        assert(buf@ =~= mime_body(*msg, mixed@, alt@));
    } else if has_html {
        push_str(&mut buf, html);
        push_str(&mut buf, "\r\n");
        assert(buf@ =~= mime_body(*msg, mixed@, alt@));
    } else {
        push_str(&mut buf, text);
        push_str(&mut buf, "\r\n");
        assert(buf@ =~= mime_body(*msg, mixed@, alt@));
    }
    buf
}

/// Builds the MIME message of an outgoing message.
pub struct MimeBuilder;

impl MimeBuilder {
    /// The message bytes for the given Message-ID UUID text, `Date:` text and
    /// boundary tokens.
    pub fn build_with(
        msg: &OutboxMessage,
        uuid: &str,
        date: &str,
        mixed: &str,
        alt: &str,
    ) -> (r: Vec<u8>)
        ensures
            r@ == encode_utf8(mime_text(*msg, uuid@, date@, mixed@, alt@)),
    {
        let mut lines = build_base_headers(msg, uuid, date);
        let text = body_str(&msg.body_text);
        let html = body_str(&msg.body_html);
        let has_text = text.unicode_len() > 0;
        let has_html = html.unicode_len() > 0;
        let ghost base = lines@.map_values(|s: String| s@);
        if msg.attachments.len() > 0 {
            let mut l = concat("Content-Type: multipart/mixed; boundary=\"", "==_edvige_mixed_");
            push_str(&mut l, mixed);
            push_str(&mut l, "\"");
            assert(l@ =~= "Content-Type: multipart/mixed; boundary=\""@ + mixed_boundary(mixed@)
                + "\""@);
            push_line(&mut lines, l);
        } else if has_text && has_html {
            let mut l = concat("Content-Type: multipart/alternative; boundary=\"", "==_edvige_alt_");
            push_str(&mut l, alt);
            push_str(&mut l, "\"");
            assert(l@ =~= "Content-Type: multipart/alternative; boundary=\""@ + alt_boundary(alt@)
                + "\""@);
            push_line(&mut lines, l);
        } else if has_html {
            push_line(&mut lines, "Content-Type: text/html; charset=utf-8".to_owned());
            push_line(&mut lines, "Content-Transfer-Encoding: 8bit".to_owned());
        } else {
            push_line(&mut lines, "Content-Type: text/plain; charset=utf-8".to_owned());
            push_line(&mut lines, "Content-Transfer-Encoding: 8bit".to_owned());
        }
        assert(lines@.map_values(|s: String| s@) =~= base + content_headers(*msg, mixed@, alt@));
        let mut out = join_strings(&lines, "\r\n");
        push_str(&mut out, "\r\n\r\n");
        let body = build_body(msg, mixed, alt);
        push_str(&mut out, body.as_str());
        assert(out@ =~= mime_text(*msg, uuid@, date@, mixed@, alt@));
        utf8_bytes(out.as_str())
    }

    /// The message bytes for a Message-ID made from the UUID `id`, the `Date:` of
    /// the instant `now` and boundaries made from the UUIDs `mixed` and `alt`. An
    /// instant whose year lies outside 0 to 9999 (or a leap second) cannot be
    /// written in RFC 2822 and is refused.
    pub fn build_at(msg: &OutboxMessage, id: u128, now: Timestamp, mixed: u128, alt: u128) -> (r:
        Result<Vec<u8>, SmtpError>)
        requires
            now.valid(),
        ensures
            now.plain() ==> (r matches Ok(b) && b@ == encode_utf8(
                mime_text(
                    *msg,
                    uuid_text(id),
                    rfc2822_text(now.secs, now.nanos),
                    uuid_simple_text(mixed),
                    uuid_simple_text(alt),
                ),
            )),
            !now.plain() ==> (r matches Err(SmtpError::MimeBuild(m)) && m@
                == "Date cannot be represented by RFC 2822"@),
    {
        if !now.is_plain() {
            return Err(SmtpError::MimeBuild("Date cannot be represented by RFC 2822".to_owned()));
        }
        let uuid = uuid_to_string(id);
        let date = now.to_rfc2822();
        let mixed_text = uuid_simple(mixed);
        let alt_text = uuid_simple(alt);
        Ok(Self::build_with(msg, uuid.as_str(), date.as_str(), mixed_text.as_str(), alt_text.as_str()))
    }

    /// The message bytes, with a fresh Message-ID, the current date and fresh
    /// boundaries: `build_at` with three fresh version-7 UUIDs and the clock's
    /// reading.
    pub fn build(msg: &OutboxMessage) -> (r: Result<Vec<u8>, SmtpError>)
        ensures
            exists|id: u128, t: Timestamp, m: u128, a: u128|
                #![trigger mime_text(*msg, uuid_text(id), rfc2822_text(t.secs, t.nanos), uuid_simple_text(m), uuid_simple_text(a))]
                is_v7_uuid(id) && is_v7_uuid(m) && is_v7_uuid(a) && t.valid() && (t.plain() ==> (
                r matches Ok(b) && b@ == encode_utf8(
                    mime_text(
                        *msg,
                        uuid_text(id),
                        rfc2822_text(t.secs, t.nanos),
                        uuid_simple_text(m),
                        uuid_simple_text(a),
                    ),
                ))) && (!t.plain() ==> (r matches Err(SmtpError::MimeBuild(e)) && e@
                    == "Date cannot be represented by RFC 2822"@)),
    {
        let id = fresh_uuid();
        let now = Timestamp::now();
        let m = fresh_uuid();
        let a = fresh_uuid();
        let r = Self::build_at(msg, id, now, m, a);
        assert(mime_text(
            *msg,
            uuid_text(id),
            rfc2822_text(now.secs, now.nanos),
            uuid_simple_text(m),
            uuid_simple_text(a),
        ) == mime_text(
            *msg,
            uuid_text(id),
            rfc2822_text(now.secs, now.nanos),
            uuid_simple_text(m),
            uuid_simple_text(a),
        ));
        r
    }
}

} // verus!
