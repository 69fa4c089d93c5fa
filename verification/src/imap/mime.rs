//! Reading a fetched message: its MIME structure, addresses, snippet and
//! attachments.

use vstd::prelude::*;

use mail_parser::{Addr, Address, MessageParser, MimeHeaders};

use crate::attachment::AttachmentMetadata;
use crate::ids::{instant_exists, timestamp_exists, AccountId, FolderId, MessageId, Timestamp};
use crate::imap::error::ImapError;
use crate::imap::response::opt_str_view;
use crate::message::{
    EmailAddress, EmailAddressView, Envelope, MessageDetail, MessageFlags, MessageSummary,
};
use crate::scan::{pieces, split_words, words};
use crate::text::{char_len_utf8, chars_of, join, lemma_join_push, lemma_utf8_len_push, push_str, string_of, utf8_len};

verus! {

/// The white-space separated words of a text joined by single spaces.
pub open spec fn single_line(text: Seq<char>) -> Seq<char> {
    join(words(text), " "@)
}

/// Whether a line longer than `max` bytes can be cut after exactly `max` bytes,
/// that is, whether byte `max` starts a character.
pub open spec fn cut_ok(s: Seq<char>, max: nat) -> bool {
    utf8_len(s) > max ==> exists|k: int| 0 <= k <= s.len() && #[trigger] utf8_len(s.take(k)) == max
}

/// The number of characters in the first `max` bytes.
pub open spec fn cut_at(s: Seq<char>, max: nat) -> int {
    choose|k: int| 0 <= k <= s.len() && #[trigger] utf8_len(s.take(k)) == max
}

/// A one-line preview of a text: its words joined by spaces, cut after `max` bytes
/// with `...` appended when longer.
pub open spec fn snippet(text: Seq<char>, max: nat) -> Seq<char> {
    let l = single_line(text);
    if utf8_len(l) > max {
        l.take(cut_at(l, max)) + "..."@
    } else {
        l
    }
}

/// The text of an HTML fragment with every tag dropped and a space put where each
/// tag closed.
pub open spec fn strip_tags(s: Seq<char>, in_tag: bool) -> Seq<char>
    decreases s.len(),
{
    if s.len() == 0 {
        seq![]
    } else if s[0] == '<' {
        strip_tags(s.drop_first(), true)
    } else if s[0] == '>' {
        seq![' '] + strip_tags(s.drop_first(), false)
    } else if !in_tag {
        seq![s[0]] + strip_tags(s.drop_first(), in_tag)
    } else {
        strip_tags(s.drop_first(), in_tag)
    }
}

/// Longer prefixes have longer encodings.
pub proof fn lemma_utf8_prefix_increasing(s: Seq<char>, i: int, j: int)
    requires
        0 <= i < j <= s.len(),
    ensures
        utf8_len(s.take(i)) < utf8_len(s.take(j)),
    decreases j - i,
{
    assert(s.take(j) =~= s.take(j - 1).push(s[j - 1]));
    lemma_utf8_len_push(s.take(j - 1), s[j - 1]);
    if i < j - 1 {
        lemma_utf8_prefix_increasing(s, i, j - 1);
    }
}

/// The words of a text joined by single spaces.
pub fn single_line_chars(v: &[char]) -> (r: Vec<char>)
    ensures
        r@ == single_line(v@),
{
    let n = v.len();
    let bounds = split_words(v, 0, n);
    assert(v@.subrange(0, n as int) =~= v@);
    let mut r: Vec<char> = Vec::new();
    let mut i: usize = 0;
    while i < bounds.len()
        invariant
            0 <= i <= bounds@.len(),
            n == v@.len(),
            pieces(v@, bounds@) == words(v@),
            forall|k: int| 0 <= k < bounds@.len() ==> 0 <= (#[trigger] bounds@[k]).0 <= bounds@[k].1 <= n,
            r@ == join(pieces(v@, bounds@.take(i as int)), " "@),
        decreases bounds@.len() - i,
    {
        let (a, b) = bounds[i];
        let ghost before = pieces(v@, bounds@.take(i as int));
        let ghost old_r = r@;
        if i > 0 {
            r.push(' ');
        }
        proof {
            reveal_strlit(" ");
        }
        assert(r@ =~= (if i > 0 {
            old_r + " "@
        } else {
            old_r
        }) + v@.subrange(a as int, a as int));
        let mut j = a;
        while j < b
            invariant
                a <= j <= b <= v@.len(),
                r@ == (if i > 0 {
                    old_r + " "@
                } else {
                    old_r
                }) + v@.subrange(a as int, j as int),
            decreases b - j,
        {
            r.push(v[j]);
            j = j + 1;
            proof {
                reveal_strlit(" ");
            }
            assert(r@ =~= (if i > 0 {
                old_r + " "@
            } else {
                old_r
            }) + v@.subrange(a as int, j as int));
        }
        proof {
            reveal_strlit(" ");
            lemma_join_push(before, " "@, v@.subrange(a as int, b as int));
            assert(pieces(v@, bounds@.take(i + 1)) =~= before.push(v@.subrange(a as int, b as int)));
            if i > 0 {
                assert(r@ =~= old_r + " "@ + v@.subrange(a as int, b as int));
            } else {
                assert(r@ =~= old_r + v@.subrange(a as int, b as int));
                assert(before.len() == 0);
            }
        }
        i = i + 1;
    }
    assert(bounds@.take(bounds@.len() as int) =~= bounds@);
    r
}

/// A one-line preview of a text, cut after `max_len` bytes.
pub fn clean_snippet(text: &str, max_len: usize) -> (r: String)
    requires
        cut_ok(single_line(text@), max_len as nat),
    ensures
        r@ == snippet(text@, max_len as nat),
{
    let v = chars_of(text);
    let line = single_line_chars(v.as_slice());
    let ghost l = line@;
    let mut acc: usize = 0;
    let mut k: usize = 0;
    assert(l.take(0) =~= Seq::<char>::empty());
    while k < line.len() && char_len_utf8(line[k]) <= max_len - acc
        invariant
            0 <= k <= l.len(),
            l == line@,
            acc <= max_len,
            acc == utf8_len(l.take(k as int)),
        decreases l.len() - k,
    {
        let w = char_len_utf8(line[k]);
        proof {
            assert(l.take(k + 1) =~= l.take(k as int).push(l[k as int]));
            lemma_utf8_len_push(l.take(k as int), l[k as int]);
        }
        acc = acc + w;
        k = k + 1;
    }
    if k == line.len() {
        assert(l.take(k as int) =~= l);
        string_of(line.as_slice())
    } else {
        proof {
            assert(l.take(k + 1) =~= l.take(k as int).push(l[k as int]));
            lemma_utf8_len_push(l.take(k as int), l[k as int]);
            if k + 1 < l.len() {
                lemma_utf8_prefix_increasing(l, k + 1, l.len() as int);
            }
            assert(l.take(l.len() as int) =~= l);
            let c = cut_at(l, max_len as nat);
            assert(0 <= c <= l.len() && utf8_len(l.take(c)) == max_len);
            if c < k {
                lemma_utf8_prefix_increasing(l, c, k as int);
            } else if c > k {
                if c > k + 1 {
                    lemma_utf8_prefix_increasing(l, k + 1, c);
                }
            }
            assert(c == k);
        }
        let mut s = string_of(&line.as_slice()[0..k]);
        push_str(&mut s, "...");
        s
    }
}

/// The text of an HTML fragment without its tags.
pub fn strip_html_tags(html: &str) -> (r: Vec<char>)
    ensures
        r@ == strip_tags(html@, false),
{
    let v = chars_of(html);
    let mut r: Vec<char> = Vec::new();
    let mut in_tag = false;
    let mut i: usize = 0;
    assert(v@.skip(0) =~= v@);
    while i < v.len()
        invariant
            0 <= i <= v@.len(),
            v@ == html@,
            r@ + strip_tags(v@.skip(i as int), in_tag) == strip_tags(html@, false),
        decreases v@.len() - i,
    {
        let c = v[i];
        let ghost rest = v@.skip(i as int);
        assert(rest.drop_first() =~= v@.skip(i + 1));
        assert(rest[0] == c);
        if c == '<' {
            in_tag = true;
        } else if c == '>' {
            in_tag = false;
            r.push(' ');
        } else if !in_tag {
            r.push(c);
        }
        i = i + 1;
    }
    assert(v@.skip(i as int) =~= Seq::<char>::empty());
    r
}

/// A one-line preview of an HTML fragment, cut after `max_len` bytes.
pub fn clean_html_snippet(html: &str, max_len: usize) -> (r: String)
    requires
        cut_ok(single_line(strip_tags(html@, false)), max_len as nat),
    ensures
        r@ == snippet(strip_tags(html@, false), max_len as nat),
{
    let stripped = strip_html_tags(html);
    let s = string_of(stripped.as_slice());
    clean_snippet(s.as_str(), max_len)
}

/// Whether a line can be cut after `max_len` bytes (see `cut_ok`).
pub fn cut_fits(line: &[char], max_len: usize) -> (r: bool)
    ensures
        r == cut_ok(line@, max_len as nat),
{
    let ghost l = line@;
    let mut acc: usize = 0;
    let mut k: usize = 0;
    assert(l.take(0) =~= Seq::<char>::empty());
    while k < line.len() && char_len_utf8(line[k]) <= max_len - acc
        invariant
            0 <= k <= l.len(),
            l == line@,
            acc <= max_len,
            acc == utf8_len(l.take(k as int)),
        decreases l.len() - k,
    {
        let w = char_len_utf8(line[k]);
        proof {
            assert(l.take(k + 1) =~= l.take(k as int).push(l[k as int]));
            lemma_utf8_len_push(l.take(k as int), l[k as int]);
        }
        acc = acc + w;
        k = k + 1;
    }
    if k == line.len() {
        assert(l.take(k as int) =~= l);
        true
    } else {
        proof {
            assert(l.take(k + 1) =~= l.take(k as int).push(l[k as int]));
            lemma_utf8_len_push(l.take(k as int), l[k as int]);
            if k + 1 < l.len() {
                lemma_utf8_prefix_increasing(l, k + 1, l.len() as int);
            }
            assert(l.take(l.len() as int) =~= l);
            if acc < max_len {
                assert forall|c: int| 0 <= c <= l.len() implies #[trigger] utf8_len(l.take(c))
                    != max_len by {
                    if c < k {
                        lemma_utf8_prefix_increasing(l, c, k as int);
                    } else if c > k + 1 {
                        lemma_utf8_prefix_increasing(l, k + 1, c);
                    }
                }
            }
        }
        acc == max_len
    }
}

/// One mailbox of an address header, as the parser gives it.
#[derive(Debug, Clone, PartialEq, Eq)]
pub struct AddrValue {
    pub name: Option<String>,
    pub address: Option<String>,
}

pub struct AddrView {
    pub name: Option<Seq<char>>,
    pub address: Option<Seq<char>>,
}

impl View for AddrValue {
    type V = AddrView;

    open spec fn view(&self) -> AddrView {
        AddrView { name: opt_str_view(self.name), address: opt_str_view(self.address) }
    }
}

pub open spec fn addrs_view(v: Seq<AddrValue>) -> Seq<AddrView> {
    v.map_values(|a: AddrValue| a@)
}

/// An address header: a plain list of mailboxes, or named groups of them.
#[derive(Debug, Clone, PartialEq, Eq)]
pub enum AddressField {
    List(Vec<AddrValue>),
    Group(Vec<Vec<AddrValue>>),
}

pub enum AddressFieldView {
    List(Seq<AddrView>),
    Group(Seq<Seq<AddrView>>),
}

impl View for AddressField {
    type V = AddressFieldView;

    open spec fn view(&self) -> AddressFieldView {
        match self {
            AddressField::List(l) => AddressFieldView::List(addrs_view(l@)),
            AddressField::Group(g) => AddressFieldView::Group(
                g@.map_values(|v: Vec<AddrValue>| addrs_view(v@)),
            ),
        }
    }
}

pub open spec fn opt_field_view(f: Option<AddressField>) -> Option<AddressFieldView> {
    match f {
        Some(f) => Some(f@),
        None => None,
    }
}

/// An attachment of a parsed message.
#[derive(Debug, Clone, PartialEq, Eq)]
pub struct AttachmentPart {
    pub name: Option<String>,
    pub content_type: Option<String>,
    pub contents: Vec<u8>,
    pub content_id: Option<String>,
    pub disposition_inline: Option<bool>,
}

pub struct AttachmentPartView {
    pub name: Option<Seq<char>>,
    pub content_type: Option<Seq<char>>,
    pub contents: Seq<u8>,
    pub content_id: Option<Seq<char>>,
    pub disposition_inline: Option<bool>,
}

impl View for AttachmentPart {
    type V = AttachmentPartView;

    open spec fn view(&self) -> AttachmentPartView {
        AttachmentPartView {
            name: opt_str_view(self.name),
            content_type: opt_str_view(self.content_type),
            contents: self.contents@,
            content_id: opt_str_view(self.content_id),
            disposition_inline: self.disposition_inline,
        }
    }
}

/// The single-valued fields of a parsed message.
#[derive(Debug, Clone, PartialEq, Eq)]
pub struct MimeText {
    pub message_id: Option<String>,
    pub in_reply_to: Option<String>,
    pub subject: Option<String>,
    pub date: Option<i64>,
    pub body_text: Option<String>,
    pub body_html: Option<String>,
}

/// The address headers of a parsed message.
#[derive(Debug, Clone, PartialEq, Eq)]
pub struct MimeAddresses {
    pub from: Option<AddressField>,
    pub to: Option<AddressField>,
    pub cc: Option<AddressField>,
    pub bcc: Option<AddressField>,
    pub reply_to: Option<AddressField>,
}

/// What the message parser found in a raw message.
#[derive(Debug, Clone, PartialEq, Eq)]
pub struct ParsedMail {
    pub text: MimeText,
    pub addresses: MimeAddresses,
    pub attachments: Vec<AttachmentPart>,
}

/// Whether `MessageParser::default().parse` accepts the bytes.
pub uninterp spec fn mime_parses(raw: Seq<u8>) -> bool;

/// `Message::message_id` of the parsed bytes.
pub uninterp spec fn mime_message_id(raw: Seq<u8>) -> Option<Seq<char>>;

/// `Message::in_reply_to().as_text()` of the parsed bytes.
pub uninterp spec fn mime_in_reply_to(raw: Seq<u8>) -> Option<Seq<char>>;

/// `Message::subject` of the parsed bytes.
pub uninterp spec fn mime_subject(raw: Seq<u8>) -> Option<Seq<char>>;

/// `Message::date` of the parsed bytes, as `DateTime::to_timestamp`.
pub uninterp spec fn mime_date(raw: Seq<u8>) -> Option<i64>;

/// `Message::body_text(0)` of the parsed bytes.
pub uninterp spec fn mime_body_text(raw: Seq<u8>) -> Option<Seq<char>>;

/// `Message::body_html(0)` of the parsed bytes.
pub uninterp spec fn mime_body_html(raw: Seq<u8>) -> Option<Seq<char>>;

/// `Message::from` of the parsed bytes.
pub uninterp spec fn mime_from(raw: Seq<u8>) -> Option<AddressFieldView>;

/// `Message::to` of the parsed bytes.
pub uninterp spec fn mime_to(raw: Seq<u8>) -> Option<AddressFieldView>;

/// `Message::cc` of the parsed bytes.
pub uninterp spec fn mime_cc(raw: Seq<u8>) -> Option<AddressFieldView>;

/// `Message::bcc` of the parsed bytes.
pub uninterp spec fn mime_bcc(raw: Seq<u8>) -> Option<AddressFieldView>;

/// `Message::reply_to` of the parsed bytes.
pub uninterp spec fn mime_reply_to(raw: Seq<u8>) -> Option<AddressFieldView>;

/// `Message::attachments` of the parsed bytes, each with its name, content type,
/// contents, content id and whether its disposition is inline.
pub uninterp spec fn mime_attachments(raw: Seq<u8>) -> Seq<AttachmentPartView>;

/// `MessageParser::default().parse(raw).is_some()`.
#[verifier::external_body]
fn mime_check(raw: &[u8]) -> (r: bool)
    ensures
        r == mime_parses(raw@),
{
    MessageParser::default().parse(raw).is_some()
}

/// `Message::message_id` of `MessageParser::default().parse(raw)`.
#[verifier::external_body]
fn mime_message_id_field(raw: &[u8]) -> (r: Option<String>)
    requires
        mime_parses(raw@),
    ensures
        opt_str_view(r) == mime_message_id(raw@),
{
    let m = MessageParser::default().parse(raw).unwrap();
    m.message_id().map(|s| s.to_string())
}

/// `Message::in_reply_to().as_text()` of `MessageParser::default().parse(raw)`.
#[verifier::external_body]
fn mime_in_reply_to_field(raw: &[u8]) -> (r: Option<String>)
    requires
        mime_parses(raw@),
    ensures
        opt_str_view(r) == mime_in_reply_to(raw@),
{
    let m = MessageParser::default().parse(raw).unwrap();
    m.in_reply_to().as_text().map(|s| s.to_string())
}

/// `Message::subject` of `MessageParser::default().parse(raw)`.
#[verifier::external_body]
fn mime_subject_field(raw: &[u8]) -> (r: Option<String>)
    requires
        mime_parses(raw@),
    ensures
        opt_str_view(r) == mime_subject(raw@),
{
    let m = MessageParser::default().parse(raw).unwrap();
    m.subject().map(|s| s.to_string())
}

/// `Message::date`, as `DateTime::to_timestamp`, of `MessageParser::default().parse(raw)`.
#[verifier::external_body]
fn mime_date_field(raw: &[u8]) -> (r: Option<i64>)
    requires
        mime_parses(raw@),
    ensures
        r == mime_date(raw@),
{
    let m = MessageParser::default().parse(raw).unwrap();
    m.date().map(|d| d.to_timestamp())
}

/// `Message::body_text(0)` of `MessageParser::default().parse(raw)`.
#[verifier::external_body]
fn mime_body_text_field(raw: &[u8]) -> (r: Option<String>)
    requires
        mime_parses(raw@),
    ensures
        opt_str_view(r) == mime_body_text(raw@),
{
    let m = MessageParser::default().parse(raw).unwrap();
    m.body_text(0).map(|s| s.to_string())
}

/// `Message::body_html(0)` of `MessageParser::default().parse(raw)`.
#[verifier::external_body]
fn mime_body_html_field(raw: &[u8]) -> (r: Option<String>)
    requires
        mime_parses(raw@),
    ensures
        opt_str_view(r) == mime_body_html(raw@),
{
    let m = MessageParser::default().parse(raw).unwrap();
    m.body_html(0).map(|s| s.to_string())
}

/// `Message::from` of `MessageParser::default().parse(raw)`, each mailbox with its
/// name and address.
#[verifier::external_body]
fn mime_from_field(raw: &[u8]) -> (r: Option<AddressField>)
    requires
        mime_parses(raw@),
    ensures
        opt_field_view(r) == mime_from(raw@),
{
    let m = MessageParser::default().parse(raw).unwrap();
    let addr = |x: &Addr| AddrValue {
        name: x.name.as_ref().map(|s| s.to_string()),
        address: x.address.as_ref().map(|s| s.to_string()),
    };
    m.from().map(|a| match a {
        Address::List(l) => AddressField::List(l.iter().map(addr).collect()),
        Address::Group(g) => AddressField::Group(
            g.iter().map(|x| x.addresses.iter().map(addr).collect()).collect(),
        ),
    })
}

/// `Message::to` of `MessageParser::default().parse(raw)`, each mailbox with its
/// name and address.
#[verifier::external_body]
fn mime_to_field(raw: &[u8]) -> (r: Option<AddressField>)
    requires
        mime_parses(raw@),
    ensures
        opt_field_view(r) == mime_to(raw@),
{
    let m = MessageParser::default().parse(raw).unwrap();
    let addr = |x: &Addr| AddrValue {
        name: x.name.as_ref().map(|s| s.to_string()),
        address: x.address.as_ref().map(|s| s.to_string()),
    };
    m.to().map(|a| match a {
        Address::List(l) => AddressField::List(l.iter().map(addr).collect()),
        Address::Group(g) => AddressField::Group(
            g.iter().map(|x| x.addresses.iter().map(addr).collect()).collect(),
        ),
    })
}

/// `Message::cc` of `MessageParser::default().parse(raw)`, each mailbox with its
/// name and address.
#[verifier::external_body]
fn mime_cc_field(raw: &[u8]) -> (r: Option<AddressField>)
    requires
        mime_parses(raw@),
    ensures
        opt_field_view(r) == mime_cc(raw@),
{
    let m = MessageParser::default().parse(raw).unwrap();
    let addr = |x: &Addr| AddrValue {
        name: x.name.as_ref().map(|s| s.to_string()),
        address: x.address.as_ref().map(|s| s.to_string()),
    };
    m.cc().map(|a| match a {
        Address::List(l) => AddressField::List(l.iter().map(addr).collect()),
        Address::Group(g) => AddressField::Group(
            g.iter().map(|x| x.addresses.iter().map(addr).collect()).collect(),
        ),
    })
}

/// `Message::bcc` of `MessageParser::default().parse(raw)`, each mailbox with its
/// name and address.
#[verifier::external_body]
fn mime_bcc_field(raw: &[u8]) -> (r: Option<AddressField>)
    requires
        mime_parses(raw@),
    ensures
        opt_field_view(r) == mime_bcc(raw@),
{
    let m = MessageParser::default().parse(raw).unwrap();
    let addr = |x: &Addr| AddrValue {
        name: x.name.as_ref().map(|s| s.to_string()),
        address: x.address.as_ref().map(|s| s.to_string()),
    };
    m.bcc().map(|a| match a {
        Address::List(l) => AddressField::List(l.iter().map(addr).collect()),
        Address::Group(g) => AddressField::Group(
            g.iter().map(|x| x.addresses.iter().map(addr).collect()).collect(),
        ),
    })
}

/// `Message::reply_to` of `MessageParser::default().parse(raw)`, each mailbox with its
/// name and address.
#[verifier::external_body]
fn mime_reply_to_field(raw: &[u8]) -> (r: Option<AddressField>)
    requires
        mime_parses(raw@),
    ensures
        opt_field_view(r) == mime_reply_to(raw@),
{
    let m = MessageParser::default().parse(raw).unwrap();
    let addr = |x: &Addr| AddrValue {
        name: x.name.as_ref().map(|s| s.to_string()),
        address: x.address.as_ref().map(|s| s.to_string()),
    };
    m.reply_to().map(|a| match a {
        Address::List(l) => AddressField::List(l.iter().map(addr).collect()),
        Address::Group(g) => AddressField::Group(
            g.iter().map(|x| x.addresses.iter().map(addr).collect()).collect(),
        ),
    })
}

/// The attachments of `MessageParser::default().parse(raw)`.
#[verifier::external_body]
fn mime_attachment_parts(raw: &[u8]) -> (r: Vec<AttachmentPart>)
    requires
        mime_parses(raw@),
    ensures
        r@.map_values(|a: AttachmentPart| a@) == mime_attachments(raw@),
{
    let m = MessageParser::default().parse(raw).unwrap();
    m.attachments().map(|a| AttachmentPart {
        name: a.attachment_name().map(|s| s.to_string()),
        content_type: a.content_type().map(|c| c.ctype().to_string()),
        contents: a.contents().to_vec(),
        content_id: a.content_id().map(|s| s.to_string()),
        disposition_inline: a.content_disposition().map(|d| d.is_inline()),
    }).collect()
}

/// `p` holds what the parser found in `raw`.
pub open spec fn parsed_from(raw: Seq<u8>, p: ParsedMail) -> bool {
    &&& opt_str_view(p.text.message_id) == mime_message_id(raw)
    &&& opt_str_view(p.text.in_reply_to) == mime_in_reply_to(raw)
    &&& opt_str_view(p.text.subject) == mime_subject(raw)
    &&& p.text.date == mime_date(raw)
    &&& opt_str_view(p.text.body_text) == mime_body_text(raw)
    &&& opt_str_view(p.text.body_html) == mime_body_html(raw)
    &&& opt_field_view(p.addresses.from) == mime_from(raw)
    &&& opt_field_view(p.addresses.to) == mime_to(raw)
    &&& opt_field_view(p.addresses.cc) == mime_cc(raw)
    &&& opt_field_view(p.addresses.bcc) == mime_bcc(raw)
    &&& opt_field_view(p.addresses.reply_to) == mime_reply_to(raw)
    &&& p.attachments@.map_values(|a: AttachmentPart| a@) == mime_attachments(raw)
}

/// Parses a raw RFC 5322 message.
pub fn read_mime(raw: &[u8]) -> (r: Result<ParsedMail, ImapError>)
    ensures
        match r {
            Ok(p) => mime_parses(raw@) && parsed_from(raw@, p),
            Err(e) => !mime_parses(raw@) && (e matches ImapError::MimeDecode(m) && m@
                == "Failed to parse RFC5322 MIME message"@),
        },
{
    if !mime_check(raw) {
        return Err(ImapError::MimeDecode("Failed to parse RFC5322 MIME message".to_owned()));
    }
    let text = MimeText {
        message_id: mime_message_id_field(raw),
        in_reply_to: mime_in_reply_to_field(raw),
        subject: mime_subject_field(raw),
        date: mime_date_field(raw),
        body_text: mime_body_text_field(raw),
        body_html: mime_body_html_field(raw),
    };
    let addresses = MimeAddresses {
        from: mime_from_field(raw),
        to: mime_to_field(raw),
        cc: mime_cc_field(raw),
        bcc: mime_bcc_field(raw),
        reply_to: mime_reply_to_field(raw),
    };
    let attachments = mime_attachment_parts(raw);
    Ok(ParsedMail { text, addresses, attachments })
}

/// The model of one parsed mailbox: a missing address becomes empty.
pub open spec fn addr_model(a: AddrView) -> EmailAddressView {
    EmailAddressView {
        name: a.name,
        address: match a.address {
            Some(x) => x,
            None => seq![],
        },
    }
}

/// The mailboxes of an address header, groups flattened in order.
pub open spec fn field_addresses(f: Option<AddressFieldView>) -> Seq<EmailAddressView> {
    match f {
        None => seq![],
        Some(AddressFieldView::List(l)) => l.map_values(|a: AddrView| addr_model(a)),
        Some(AddressFieldView::Group(g)) => g.map_values(
            |v: Seq<AddrView>| v.map_values(|a: AddrView| addr_model(a)),
        ).flatten(),
    }
}

pub open spec fn addresses_view(v: Seq<EmailAddress>) -> Seq<EmailAddressView> {
    v.map_values(|a: EmailAddress| a@)
}

fn addr_to_model(a: &AddrValue) -> (r: EmailAddress)
    ensures
        r@ == addr_model(a@),
{
    EmailAddress {
        name: match &a.name {
            Some(n) => Some(n.clone()),
            None => None,
        },
        address: match &a.address {
            Some(x) => x.clone(),
            None => String::new(),
        },
    }
}

/// Appends the models of a list of mailboxes.
fn push_addrs(out: &mut Vec<EmailAddress>, l: &Vec<AddrValue>)
    ensures
        addresses_view(final(out)@) == addresses_view(old(out)@) + addrs_view(l@).map_values(
            |a: AddrView| addr_model(a),
        ),
{
    let mut i: usize = 0;
    while i < l.len()
        invariant
            0 <= i <= l@.len(),
            addresses_view(out@) == addresses_view(old(out)@) + addrs_view(l@.take(i as int)).map_values(
                |a: AddrView| addr_model(a),
            ),
        decreases l@.len() - i,
    {
        let e = addr_to_model(&l[i]);
        let ghost before = out@;
        out.push(e);
        proof {
            assert(addresses_view(out@) =~= addresses_view(before).push(e@));
            assert(addrs_view(l@.take(i + 1)).map_values(|a: AddrView| addr_model(a)) =~= addrs_view(
                l@.take(i as int),
            ).map_values(|a: AddrView| addr_model(a)).push(addr_model(l@[i as int]@)));
            assert(addresses_view(out@) =~= addresses_view(old(out)@) + addrs_view(
                l@.take(i + 1),
            ).map_values(|a: AddrView| addr_model(a)));
        }
        i = i + 1;
    }
    assert(l@.take(l@.len() as int) =~= l@);
}

/// The mailboxes of an address header, groups flattened in order.
pub fn extract_addresses(f: &Option<AddressField>) -> (r: Vec<EmailAddress>)
    ensures
        addresses_view(r@) == field_addresses(opt_field_view(*f)),
{
    let mut out: Vec<EmailAddress> = Vec::new();
    match f {
        None => {
            assert(addresses_view(out@) =~= Seq::<EmailAddressView>::empty());
        },
        Some(AddressField::List(l)) => {
            push_addrs(&mut out, l);
            assert(addresses_view(out@) =~= field_addresses(opt_field_view(*f)));
        },
        Some(AddressField::Group(g)) => {
            let ghost gs = g@.map_values(|v: Vec<AddrValue>| addrs_view(v@)).map_values(
                |v: Seq<AddrView>| v.map_values(|a: AddrView| addr_model(a)),
            );
            let mut i: usize = 0;
            assert(addresses_view(out@) =~= gs.take(0).flatten());
            while i < g.len()
                invariant
                    0 <= i <= g@.len(),
                    gs == g@.map_values(|v: Vec<AddrValue>| addrs_view(v@)).map_values(
                        |v: Seq<AddrView>| v.map_values(|a: AddrView| addr_model(a)),
                    ),
                    addresses_view(out@) == gs.take(i as int).flatten(),
                decreases g@.len() - i,
            {
                push_addrs(&mut out, &g[i]);
                proof {
                    assert(gs.take(i + 1) =~= gs.take(i as int).push(gs[i as int]));
                    gs.take(i as int).lemma_flatten_push(gs[i as int]);
                }
                i = i + 1;
            }
            assert(gs.take(g@.len() as int) =~= gs);
        },
    }
    out
}

/// The preview text of a parsed message: from its plain body, else from its HTML
/// body, else empty.
pub open spec fn message_snippet(p: ParsedMail) -> Seq<char> {
    match p.text.body_text {
        Some(t) => snippet(t@, 200),
        None => match p.text.body_html {
            Some(h) => snippet(strip_tags(h@, false), 200),
            None => seq![],
        },
    }
}

/// Whether the preview of a parsed message can be cut on a character boundary.
pub open spec fn snippet_ok(p: ParsedMail) -> bool {
    match p.text.body_text {
        Some(t) => cut_ok(single_line(t@), 200),
        None => match p.text.body_html {
            Some(h) => cut_ok(single_line(strip_tags(h@, false)), 200),
            None => true,
        },
    }
}

/// Whether `snippet_ok` holds, checked on the message.
pub fn snippet_cuts_cleanly(p: &ParsedMail) -> (r: bool)
    ensures
        r == snippet_ok(*p),
{
    match &p.text.body_text {
        Some(t) => {
            let v = chars_of(t.as_str());
            let l = single_line_chars(v.as_slice());
            cut_fits(l.as_slice(), 200)
        },
        None => match &p.text.body_html {
            Some(h) => {
                let v = strip_html_tags(h.as_str());
                let l = single_line_chars(v.as_slice());
                cut_fits(l.as_slice(), 200)
            },
            None => true,
        },
    }
}

pub open spec fn subject_or_default(p: ParsedMail) -> Seq<char> {
    match p.text.subject {
        Some(s) => s@,
        None => "(No Subject)"@,
    }
}

/// The date of a parsed message: the instant of its header's timestamp, or, when
/// no instant has those seconds, some valid instant (the current time).
pub open spec fn date_fits(p: ParsedMail, d: Option<Timestamp>) -> bool {
    match p.text.date {
        None => d is None,
        Some(secs) => d matches Some(t) && if instant_exists(secs, 0) {
            t == Timestamp { secs, nanos: 0 }
        } else {
            t.valid()
        },
    }
}

/// The metadata of attachment `a`, stored under `hash`, of message `id`.
pub open spec fn metadata_fits(m: AttachmentMetadata, a: AttachmentPartView, hash: Seq<char>, id: MessageId) -> bool {
    &&& m.message_id == id
    &&& m.filename@ == (match a.name {
        Some(n) => n,
        None => "unnamed_attachment"@,
    })
    &&& m.content_type@ == (match a.content_type {
        Some(c) => c,
        None => "application/octet-stream"@,
    })
    &&& m.size == a.contents.len()
    &&& m.blob_hash@ == hash
    &&& opt_str_view(m.content_id) == a.content_id
    &&& m.is_inline == (a.content_id is Some || a.disposition_inline == Some(true))
}

fn clone_opt(o: &Option<String>) -> (r: Option<String>)
    ensures
        opt_str_view(r) == opt_str_view(*o),
{
    match o {
        Some(s) => Some(s.clone()),
        None => None,
    }
}

fn or_default<'a>(o: &'a Option<String>, d: &'a str) -> (r: &'a str)
    ensures
        r@ == (match *o {
            Some(s) => s@,
            None => d@,
        }),
{
    match o {
        Some(s) => s.as_str(),
        None => d,
    }
}

/// `r` is the stored form of the parsed message `parsed`, of `raw_len` bytes, read
/// for the account and mailbox given with its UID and flags, with the raw message
/// stored under `raw_blob_hash` and its attachments under `attachment_hashes`.
pub open spec fn stored_detail(
    account_id: AccountId,
    folder_id: FolderId,
    uid: Option<u32>,
    flags: MessageFlags,
    raw_len: u64,
    parsed: ParsedMail,
    raw_blob_hash: String,
    attachment_hashes: Seq<String>,
    r: MessageDetail,
) -> bool {
    &&& r.summary.account_id == account_id
    &&& r.summary.folder_id == folder_id
    &&& r.summary.uid == uid
    &&& r.summary.flags == flags
    &&& r.summary.size == raw_len
    &&& r.summary.thread_id is None
    &&& opt_str_view(r.summary.message_id_header) == opt_str_view(parsed.text.message_id)
    &&& opt_str_view(r.envelope.message_id_header) == opt_str_view(parsed.text.message_id)
    &&& opt_str_view(r.envelope.in_reply_to) == opt_str_view(parsed.text.in_reply_to)
    &&& r.summary.subject@ == subject_or_default(parsed)
    &&& r.envelope.subject@ == subject_or_default(parsed)
    &&& addresses_view(r.envelope.from@) == field_addresses(opt_field_view(parsed.addresses.from))
    &&& addresses_view(r.envelope.to@) == field_addresses(opt_field_view(parsed.addresses.to))
    &&& addresses_view(r.envelope.cc@) == field_addresses(opt_field_view(parsed.addresses.cc))
    &&& addresses_view(r.envelope.bcc@) == field_addresses(opt_field_view(parsed.addresses.bcc))
    &&& addresses_view(r.envelope.reply_to@) == field_addresses(
        opt_field_view(parsed.addresses.reply_to),
    )
    &&& addresses_view(r.summary.recipients@) == field_addresses(opt_field_view(parsed.addresses.to))
    &&& (if r.envelope.from@.len() > 0 {
        r.summary.sender matches Some(s) && s@ == r.envelope.from@[0]@
    } else {
        r.summary.sender is None
    })
    &&& date_fits(parsed, r.summary.date)
    &&& r.envelope.date == r.summary.date
    &&& opt_str_view(r.body_text) == opt_str_view(parsed.text.body_text)
    &&& opt_str_view(r.body_html) == opt_str_view(parsed.text.body_html)
    &&& r.summary.snippet@ == message_snippet(parsed)
    &&& r.raw_blob_hash == Some(raw_blob_hash)
    &&& r.summary.has_attachments == (parsed.attachments@.len() > 0)
    &&& r.attachments@.len() == parsed.attachments@.len()
    &&& forall|i: int|
        0 <= i < r.attachments@.len() ==> metadata_fits(
            #[trigger] r.attachments@[i],
            parsed.attachments@[i]@,
            attachment_hashes[i]@,
            r.summary.id,
        )
}

/// The stored form of a parsed message: its summary, envelope, bodies and the
/// metadata of its attachments, whose contents were stored under
/// `attachment_hashes` (in order) and the raw message under `raw_blob_hash`.
pub fn parse_email_message(
    account_id: AccountId,
    folder_id: FolderId,
    uid: Option<u32>,
    flags: MessageFlags,
    raw_len: u64,
    parsed: ParsedMail,
    raw_blob_hash: String,
    attachment_hashes: Vec<String>,
) -> (r: MessageDetail)
    requires
        attachment_hashes@.len() == parsed.attachments@.len(),
        snippet_ok(parsed),
    ensures
        stored_detail(
            account_id,
            folder_id,
            uid,
            flags,
            raw_len,
            parsed,
            raw_blob_hash,
            attachment_hashes@,
            r,
        ),
{
    let message_id = MessageId::new();
    let subject = or_default(&parsed.text.subject, "(No Subject)").to_owned();
    let from = extract_addresses(&parsed.addresses.from);
    let to = extract_addresses(&parsed.addresses.to);
    let recipients = extract_addresses(&parsed.addresses.to);
    let cc = extract_addresses(&parsed.addresses.cc);
    let bcc = extract_addresses(&parsed.addresses.bcc);
    let reply_to = extract_addresses(&parsed.addresses.reply_to);
    let sender = if from.len() > 0 {
        Some(from[0].duplicate())
    } else {
        None
    };
    let date = match parsed.text.date {
        Some(secs) => {
            if timestamp_exists(secs, 0) {
                Some(Timestamp { secs, nanos: 0 })
            } else {
                Some(Timestamp::now())
            }
        },
        None => None,
    };
    let snippet = match &parsed.text.body_text {
        Some(t) => clean_snippet(t.as_str(), 200),
        None => match &parsed.text.body_html {
            Some(h) => clean_html_snippet(h.as_str(), 200),
            None => String::new(),
        },
    };
    let mut attachments: Vec<AttachmentMetadata> = Vec::new();
    let mut i: usize = 0;
    while i < parsed.attachments.len()
        invariant
            0 <= i <= parsed.attachments@.len(),
            attachment_hashes@.len() == parsed.attachments@.len(),
            attachments@.len() == i,
            forall|j: int|
                0 <= j < i ==> metadata_fits(
                    #[trigger] attachments@[j],
                    parsed.attachments@[j]@,
                    attachment_hashes@[j]@,
                    message_id,
                ),
        decreases parsed.attachments@.len() - i,
    {
        let a = &parsed.attachments[i];
        let filename = or_default(&a.name, "unnamed_attachment");
        let content_type = or_default(&a.content_type, "application/octet-stream");
        let mut meta = AttachmentMetadata::new(
            message_id,
            filename,
            content_type,
            a.contents.len() as u64,
            attachment_hashes[i].as_str(),
        );
        meta.content_id = clone_opt(&a.content_id);
        meta.is_inline = a.content_id.is_some() || match a.disposition_inline {
            Some(b) => b,
            None => false,
        };
        attachments.push(meta);
        i = i + 1;
    }
    let has_attachments = attachments.len() > 0;
    let envelope = Envelope {
        message_id_header: clone_opt(&parsed.text.message_id),
        subject: subject.clone(),
        from,
        to,
        cc,
        bcc,
        reply_to,
        in_reply_to: clone_opt(&parsed.text.in_reply_to),
        date,
    };
    let summary = MessageSummary {
        id: message_id,
        account_id,
        folder_id,
        uid,
        message_id_header: clone_opt(&parsed.text.message_id),
        thread_id: None,
        subject,
        sender,
        recipients,
        date,
        flags,
        snippet,
        size: raw_len,
        has_attachments,
    };
    MessageDetail {
        summary,
        envelope,
        body_text: parsed.text.body_text,
        body_html: parsed.text.body_html,
        raw_blob_hash: Some(raw_blob_hash),
        attachments,
    }
}

/// Reads a raw message and gives its stored form, its size being the length of
/// `raw`. It fails when the parser refuses the bytes, when `attachment_hashes` does
/// not hold one hash per attachment found, or when the snippet would end inside a
/// character.
pub fn parse_raw_email(
    account_id: AccountId,
    folder_id: FolderId,
    uid: Option<u32>,
    flags: MessageFlags,
    raw: &[u8],
    raw_blob_hash: String,
    attachment_hashes: Vec<String>,
) -> (r: Result<MessageDetail, ImapError>)
    ensures
        match r {
            Ok(d) => exists|p: ParsedMail|
                #![trigger parsed_from(raw@, p)]
                parsed_from(raw@, p) && mime_parses(raw@) && snippet_ok(p)
                    && p.attachments@.len() == attachment_hashes@.len() && stored_detail(
                    account_id,
                    folder_id,
                    uid,
                    flags,
                    raw@.len() as u64,
                    p,
                    raw_blob_hash,
                    attachment_hashes@,
                    d,
                ),
            Err(ImapError::MimeDecode(m)) => if !mime_parses(raw@) {
                m@ == "Failed to parse RFC5322 MIME message"@
            } else {
                exists|p: ParsedMail|
                    #![trigger parsed_from(raw@, p)]
                    parsed_from(raw@, p) && if p.attachments@.len() != attachment_hashes@.len() {
                        m@ == "Attachment hashes do not match the attachments"@
                    } else {
                        !snippet_ok(p) && m@ == "Snippet would end inside a character"@
                    }
            },
            Err(_) => false,
        },
{
    let parsed = match read_mime(raw) {
        Ok(p) => p,
        Err(e) => return Err(e),
    };
    if attachment_hashes.len() != parsed.attachments.len() {
        return Err(ImapError::MimeDecode("Attachment hashes do not match the attachments".to_owned()));
    }
    if !snippet_cuts_cleanly(&parsed) {
        return Err(ImapError::MimeDecode("Snippet would end inside a character".to_owned()));
    }
    let ghost p = parsed;
    let size = raw.len() as u64;
    let d = parse_email_message(
        account_id,
        folder_id,
        uid,
        flags,
        size,
        parsed,
        raw_blob_hash,
        attachment_hashes,
    );
    assert(parsed_from(raw@, p));
    Ok(d)
}

} // verus!
