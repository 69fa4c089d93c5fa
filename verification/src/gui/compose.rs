//! Writing messages from the window: replies, forwards, the composer's address
//! fields, and the account wizard.

use vstd::prelude::*;

use crate::account::{Account, AccountCredentials, ServerConfig};
use crate::gui::state::{account_index, AppState};
use crate::ids::rfc3339_text;
use crate::message::{EmailAddress, EmailAddressView, MessageDetail};
use crate::outbox::{DraftAttachment, OutboxMessage, OutboxStatus};
use crate::scan::{find_char, trim, trim_bounds};
use crate::text::{chars_of, push_str, string_of_range};

verus! {

/// Whether `s` starts with `p`.
pub open spec fn starts_with(s: Seq<char>, p: Seq<char>) -> bool {
    p.len() <= s.len() && s.take(p.len() as int) == p
}

fn str_starts_with(s: &str, p: &str) -> (r: bool)
    ensures
        r == starts_with(s@, p@),
{
    let v = chars_of(s);
    let w = chars_of(p);
    if w.len() > v.len() {
        return false;
    }
    let r = crate::text::chars_eq_slice(&v.as_slice()[0..w.len()], w.as_slice());
    assert(v@.subrange(0, w@.len() as int) =~= v@.take(w@.len() as int));
    r
}

/// The subject of a reply: kept when it starts with `Re:`, else prefixed by `Re: `.
pub open spec fn reply_subject(s: Seq<char>) -> Seq<char> {
    if starts_with(s, "Re:"@) {
        s
    } else {
        "Re: "@ + s
    }
}

/// The subject of a forward: kept when it starts with `Fwd:`, else prefixed by
/// `Fwd: `.
pub open spec fn forward_subject(s: Seq<char>) -> Seq<char> {
    if starts_with(s, "Fwd:"@) {
        s
    } else {
        "Fwd: "@ + s
    }
}

pub open spec fn body_or_empty(b: Option<String>) -> Seq<char> {
    match b {
        Some(t) => t@,
        None => seq![],
    }
}

/// The quoted body of a reply: a blank line, the attribution with the date (empty
/// when unknown), then the plain body of the message answered.
pub open spec fn reply_body(d: MessageDetail) -> Seq<char> {
    "\n\n--- On "@ + (match d.summary.date {
        Some(t) => rfc3339_text(t.secs, t.nanos),
        None => seq![],
    }) + " wrote ---\n"@ + body_or_empty(d.body_text)
}

/// The body of a forward: a blank line, a marker, then the plain body of the message forwarded.
pub open spec fn forward_body(d: MessageDetail) -> Seq<char> {
    "\n\n--- Forwarded Message ---\n"@ + body_or_empty(d.body_text)
}

/// A forward carries the forwarded message's text whole: the composer body is
/// the marker line `--- Forwarded Message ---` after a blank line, then exactly
/// the message's plain text (nothing when it has none).
pub proof fn lemma_forward_carries_text(d: MessageDetail)
    ensures
        forward_body(d).len() == 28 + body_or_empty(d.body_text).len(),
        forward_body(d).take(28) == seq![
            '\n', '\n', '-', '-', '-', ' ', 'F', 'o', 'r', 'w', 'a', 'r', 'd', 'e', 'd', ' ', 'M',
            'e', 's', 's', 'a', 'g', 'e', ' ', '-', '-', '-', '\n'
        ],
        d.body_text matches Some(t) ==> forward_body(d).skip(28) == t@,
        d.body_text is None ==> forward_body(d).skip(28).len() == 0,
{
    reveal_strlit("\n\n--- Forwarded Message ---\n");
    let m = "\n\n--- Forwarded Message ---\n"@;
    assert(forward_body(d).take(28) =~= m);
    assert(forward_body(d).skip(28) =~= body_or_empty(d.body_text));
}

/// A reply quotes the answered message's text whole, at its end, after an
/// attribution line that starts with a blank line and `--- On ` and ends with
/// ` wrote ---`.
pub proof fn lemma_reply_quotes_text(d: MessageDetail)
    ensures
        reply_body(d).len() >= 20 + body_or_empty(d.body_text).len(),
        reply_body(d).take(9) == seq!['\n', '\n', '-', '-', '-', ' ', 'O', 'n', ' '],
        d.body_text matches Some(t) ==> reply_body(d).skip(reply_body(d).len() - t@.len()) == t@,
        reply_body(d).subrange(
            reply_body(d).len() - body_or_empty(d.body_text).len() - 11,
            reply_body(d).len() - body_or_empty(d.body_text).len(),
        ) == seq![' ', 'w', 'r', 'o', 't', 'e', ' ', '-', '-', '-', '\n'],
{
    reveal_strlit("\n\n--- On ");
    reveal_strlit(" wrote ---\n");
    let a = "\n\n--- On "@;
    let date: Seq<char> = match d.summary.date {
        Some(t) => rfc3339_text(t.secs, t.nanos),
        None => seq![],
    };
    let w = " wrote ---\n"@;
    let b = body_or_empty(d.body_text);
    assert(reply_body(d) == a + date + w + b);
    assert((a + date + w + b).take(9) =~= a);
    assert((a + date + w + b).skip((a + date + w + b).len() - b.len()) =~= b);
    assert((a + date + w + b).subrange(
        (a + date + w + b).len() - b.len() - 11,
        (a + date + w + b).len() - b.len(),
    ) =~= w);
}

/// The subject of a forward ends with the original subject, and gains `Fwd: ` in
/// front unless it already starts with `Fwd:`; a reply's likewise with `Re: `.
pub proof fn lemma_forward_reply_subjects(s: Seq<char>)
    ensures
        starts_with(s, seq!['F', 'w', 'd', ':']) ==> forward_subject(s) == s,
        !starts_with(s, seq!['F', 'w', 'd', ':']) ==> forward_subject(s) == seq!['F', 'w', 'd', ':', ' '] + s,
        starts_with(s, seq!['R', 'e', ':']) ==> reply_subject(s) == s,
        !starts_with(s, seq!['R', 'e', ':']) ==> reply_subject(s) == seq!['R', 'e', ':', ' '] + s,
{
    reveal_strlit("Fwd:");
    reveal_strlit("Fwd: ");
    reveal_strlit("Re:");
    reveal_strlit("Re: ");
    assert("Fwd:"@ =~= seq!['F', 'w', 'd', ':']);
    assert("Fwd: "@ =~= seq!['F', 'w', 'd', ':', ' ']);
    assert("Re:"@ =~= seq!['R', 'e', ':']);
    assert("Re: "@ =~= seq!['R', 'e', ':', ' ']);
}

fn prefixed(prefix: &str, s: &str) -> (r: String)
    ensures
        r@ == prefix@ + s@,
{
    let mut r = prefix.to_owned();
    push_str(&mut r, s);
    r
}

impl AppState {
    /// Fills the composer with a reply to the loaded message `id`, when it has a
    /// sender, and opens it.
    pub fn prepare_reply(&mut self, id: crate::ids::MessageId)
        requires
            old(self).selected_message_detail matches Some(d) ==> (d.summary.date matches Some(
                t,
            ) ==> t.valid()),
        ensures
            match old(self).selected_message_detail {
                Some(d) => if d.summary.id == id && d.summary.sender is Some {
                    final(self).composer_to@ == d.summary.sender.unwrap().address@
                        && final(self).composer_subject@ == reply_subject(d.summary.subject@)
                        && final(self).composer_body@ == reply_body(d) && *final(self) == (AppState {
                        composer_to: final(self).composer_to,
                        composer_subject: final(self).composer_subject,
                        composer_body: final(self).composer_body,
                        show_compose: true,
                        ..*old(self)
                    })
                } else {
                    *final(self) == *old(self)
                },
                None => *final(self) == *old(self),
            },
    {
        let mut to: Option<String> = None;
        let mut subject: Option<String> = None;
        let mut body: Option<String> = None;
        match &self.selected_message_detail {
            Some(d) => {
                if d.summary.id == id {
                    match &d.summary.sender {
                        Some(sender) => {
                            to = Some(sender.address.clone());
                            subject = Some(
                                if str_starts_with(d.summary.subject.as_str(), "Re:") {
                                    d.summary.subject.clone()
                                } else {
                                    prefixed("Re: ", d.summary.subject.as_str())
                                },
                            );
                            let mut b = "\n\n--- On ".to_owned();
                            match &d.summary.date {
                                Some(t) => {
                                    let txt = t.to_rfc3339();
                                    push_str(&mut b, txt.as_str());
                                },
                                None => {},
                            }
                            push_str(&mut b, " wrote ---\n");
                            match &d.body_text {
                                Some(t) => push_str(&mut b, t.as_str()),
                                None => {},
                            }
                            assert(b@ =~= reply_body(*d));
                            body = Some(b);
                        },
                        None => {},
                    }
                }
            },
            None => {},
        }
        match (to, subject, body) {
            (Some(t), Some(s), Some(b)) => {
                self.composer_to = t;
                self.composer_subject = s;
                self.composer_body = b;
                self.show_compose = true;
            },
            _ => {},
        }
    }

    /// Fills the composer with a forward of the loaded message `id` and opens it.
    pub fn prepare_forward(&mut self, id: crate::ids::MessageId)
        ensures
            match old(self).selected_message_detail {
                Some(d) => if d.summary.id == id {
                    final(self).composer_to@.len() == 0 && final(self).composer_subject@
                        == forward_subject(d.summary.subject@) && final(self).composer_body@
                        == forward_body(d) && *final(self) == (AppState {
                        composer_to: final(self).composer_to,
                        composer_subject: final(self).composer_subject,
                        composer_body: final(self).composer_body,
                        show_compose: true,
                        ..*old(self)
                    })
                } else {
                    *final(self) == *old(self)
                },
                None => *final(self) == *old(self),
            },
    {
        let mut subject: Option<String> = None;
        let mut body: Option<String> = None;
        match &self.selected_message_detail {
            Some(d) => {
                if d.summary.id == id {
                    subject = Some(
                        if str_starts_with(d.summary.subject.as_str(), "Fwd:") {
                            d.summary.subject.clone()
                        } else {
                            prefixed("Fwd: ", d.summary.subject.as_str())
                        },
                    );
                    let mut b = "\n\n--- Forwarded Message ---\n".to_owned();
                    match &d.body_text {
                        Some(t) => push_str(&mut b, t.as_str()),
                        None => {},
                    }
                    assert(b@ =~= forward_body(*d));
                    body = Some(b);
                }
            },
            None => {},
        }
        match (subject, body) {
            (Some(s), Some(b)) => {
                self.composer_to = String::new();
                self.composer_subject = s;
                self.composer_body = b;
                self.show_compose = true;
            },
            _ => {},
        }
    }
}

/// The pieces of `s` between the occurrences of `c`.
pub open spec fn split_char(s: Seq<char>, c: char) -> Seq<Seq<char>>
    decreases s.len(),
{
    match find_char(s, c) {
        None => seq![s],
        Some(i) => {
            proof {
                crate::scan::lemma_find_char_bound(s, c);
            }
            seq![s.take(i as int)] + split_char(s.skip(i + 1 as int), c)
        },
    }
}

/// The trimmed pieces that are not empty.
pub open spec fn trimmed_entries(ps: Seq<Seq<char>>) -> Seq<Seq<char>>
    decreases ps.len(),
{
    if ps.len() == 0 {
        seq![]
    } else {
        (if trim(ps[0]).len() > 0 {
            seq![trim(ps[0])]
        } else {
            seq![]
        }) + trimmed_entries(ps.drop_first())
    }
}

/// The addresses typed in a composer field: the comma-separated entries, trimmed,
/// empty ones dropped.
pub open spec fn address_entries(s: Seq<char>) -> Seq<Seq<char>> {
    trimmed_entries(split_char(s, ','))
}

pub open spec fn bare_addresses(v: Seq<Seq<char>>) -> Seq<EmailAddressView> {
    v.map_values(|a: Seq<char>| EmailAddressView { name: None, address: a })
}

/// The addresses typed in a composer field, each without a name.
pub fn parse_address_list(text: &str) -> (r: Vec<EmailAddress>)
    ensures
        r@.map_values(|a: EmailAddress| a@) == bare_addresses(address_entries(text@)),
{
    let v = chars_of(text);
    let n = v.len();
    let mut out: Vec<EmailAddress> = Vec::new();
    let mut pos: usize = 0;
    let ghost mut done: Seq<Seq<char>> = seq![];
    let mut finished = false;
    assert(v@.skip(0) =~= v@);
    while !finished
        invariant
            v@ == text@,
            n == v@.len(),
            pos <= n,
            !finished ==> address_entries(text@) == done + trimmed_entries(
                split_char(v@.skip(pos as int), ','),
            ),
            finished ==> address_entries(text@) == done,
            out@.map_values(|a: EmailAddress| a@) == bare_addresses(done),
        decreases n - pos + (if finished {
            0int
        } else {
            1int
        }),
    {
        let ghost rest = v@.skip(pos as int);
        assert(v@.subrange(pos as int, n as int) =~= rest);
        let (end, last) = match crate::scan::find_char_in(v.as_slice(), pos, n, ',') {
            Some(k) => (pos + k, false),
            None => (n, true),
        };
        let (a, b) = trim_bounds(v.as_slice(), pos, end);
        let ghost piece = v@.subrange(pos as int, end as int);
        proof {
            if last {
                assert(rest =~= piece);
                assert(split_char(rest, ',') =~= seq![piece]);
                assert(seq![piece].drop_first() =~= Seq::<Seq<char>>::empty());
            } else {
                assert(rest.take(end - pos) =~= piece);
                assert(rest.skip(end - pos + 1) =~= v@.skip(end + 1));
                assert(split_char(rest, ',') =~= seq![piece] + split_char(v@.skip(end + 1), ','));
                assert((seq![piece] + split_char(v@.skip(end + 1), ',')).drop_first()
                    =~= split_char(v@.skip(end + 1), ','));
            }
        }
        let ghost before = out@;
        if b > a {
            let s = string_of_range(v.as_slice(), a, b);
            out.push(EmailAddress::new(s.as_str()));
            proof {
                assert(out@.map_values(|x: EmailAddress| x@) =~= before.map_values(
                    |x: EmailAddress| x@,
                ).push(EmailAddressView { name: None, address: trim(piece) }));
                assert(bare_addresses(done.push(trim(piece))) =~= bare_addresses(done).push(
                    EmailAddressView { name: None, address: trim(piece) },
                ));
                assert(done + (seq![trim(piece)] + trimmed_entries(
                    if last {
                        Seq::<Seq<char>>::empty()
                    } else {
                        split_char(v@.skip(end + 1), ',')
                    },
                )) =~= done.push(trim(piece)) + trimmed_entries(
                    if last {
                        Seq::<Seq<char>>::empty()
                    } else {
                        split_char(v@.skip(end + 1), ',')
                    },
                ));
                done = done.push(trim(piece));
            }
        } else {
            proof {
                assert(seq![] + trimmed_entries(
                    if last {
                        Seq::<Seq<char>>::empty()
                    } else {
                        split_char(v@.skip(end + 1), ',')
                    },
                ) =~= trimmed_entries(
                    if last {
                        Seq::<Seq<char>>::empty()
                    } else {
                        split_char(v@.skip(end + 1), ',')
                    },
                ));
            }
        }
        if last {
            finished = true;
            proof {
                assert(done + Seq::<Seq<char>>::empty() =~= done);
            }
        } else {
            pos = end + 1;
        }
    }
    out
}

/// The attachment the composer holds as (name, content type, bytes).
pub open spec fn composed_attachment(a: (String, String, Vec<u8>), d: DraftAttachment) -> bool {
    &&& d.filename@ == a.0@
    &&& d.content_type@ == a.1@
    &&& d.data@ == a.2@
    &&& d.content_id is None
    &&& !d.is_inline
}

fn copy_bytes(v: &Vec<u8>) -> (r: Vec<u8>)
    ensures
        r@ == v@,
{
    let mut r: Vec<u8> = Vec::new();
    let mut i: usize = 0;
    while i < v.len()
        invariant
            0 <= i <= v@.len(),
            r@ == v@.take(i as int),
        decreases v@.len() - i,
    {
        r.push(v[i]);
        i = i + 1;
        assert(r@ =~= v@.take(i as int));
    }
    assert(v@.take(v@.len() as int) =~= v@);
    r
}

/// The message the composer describes for account `acc`: from the account's name
/// and address, to, cc and bcc from the address fields, the subject and plain body
/// as typed, and the chosen attachments.
pub open spec fn composed_message(s: AppState, acc: Account, m: OutboxMessage) -> bool {
    &&& m.account_id == acc.id
    &&& m.from@ == EmailAddressView { name: Some(acc.name@), address: acc.email@ }
    &&& m.to@.map_values(|a: EmailAddress| a@) == bare_addresses(address_entries(s.composer_to@))
    &&& m.subject@ == s.composer_subject@
    &&& m.body_text matches Some(b) && b@ == s.composer_body@
    &&& m.body_html is None
    &&& m.in_reply_to is None
    &&& m.references is None
    &&& m.retry_count == 0
    &&& m.last_error is None
    &&& m.sent_at is None
    &&& m.wf()
}

impl AppState {
    /// Sends what the composer holds, from the selected account: the message is
    /// queued, and the composer is emptied and closed. Without a selected account
    /// nothing happens.
    pub fn compose_outbox(&mut self) -> (r: Option<OutboxMessage>)
        ensures
            match old(self).selected_account_id {
                Some(id) => match account_index(old(self).accounts@, id) {
                    Some(k) => (r matches Some(m) && {
                        &&& composed_message(*old(self), old(self).accounts@[k], m)
                        &&& m.cc@.map_values(|a: EmailAddress| a@) == bare_addresses(
                            address_entries(old(self).composer_cc@),
                        )
                        &&& m.bcc@.map_values(|a: EmailAddress| a@) == bare_addresses(
                            address_entries(old(self).composer_bcc@),
                        )
                        &&& m.attachments@.len() == old(self).composer_attachments@.len()
                        &&& forall|i: int|
                            0 <= i < m.attachments@.len() ==> composed_attachment(
                                old(self).composer_attachments@[i],
                                #[trigger] m.attachments@[i],
                            )
                        &&& m.status == OutboxStatus::Queued
                    }) && final(self).composer_to@.len() == 0 && final(self).composer_cc@.len()
                        == 0 && final(self).composer_bcc@.len() == 0
                        && final(self).composer_subject@.len() == 0
                        && final(self).composer_body@.len() == 0
                        && final(self).composer_attachments@.len() == 0 && *final(self) == (
                    AppState {
                        show_compose: false,
                        composer_to: final(self).composer_to,
                        composer_cc: final(self).composer_cc,
                        composer_bcc: final(self).composer_bcc,
                        composer_subject: final(self).composer_subject,
                        composer_body: final(self).composer_body,
                        composer_attachments: final(self).composer_attachments,
                        ..*old(self)
                    }),
                    None => r is None && *final(self) == *old(self),
                },
                None => r is None && *final(self) == *old(self),
            },
    {
        let acc = match self.selected_account() {
            Some(a) => a,
            None => {
                return None;
            },
        };
        let to = parse_address_list(self.composer_to.as_str());
        let cc = parse_address_list(self.composer_cc.as_str());
        let bcc = parse_address_list(self.composer_bcc.as_str());
        let mut outbox = OutboxMessage::new_draft(
            acc.id,
            EmailAddress::with_name(acc.name.as_str(), acc.email.as_str()),
            to,
            self.composer_subject.as_str(),
        );
        outbox.cc = cc;
        outbox.bcc = bcc;
        outbox.body_text = Some(self.composer_body.clone());
        let mut atts: Vec<DraftAttachment> = Vec::new();
        let mut i: usize = 0;
        while i < self.composer_attachments.len()
            invariant
                0 <= i <= self.composer_attachments@.len(),
                atts@.len() == i,
                forall|j: int|
                    0 <= j < i ==> composed_attachment(
                        self.composer_attachments@[j],
                        #[trigger] atts@[j],
                    ),
            decreases self.composer_attachments@.len() - i,
        {
            let (name, ctype, data) = &self.composer_attachments[i];
            atts.push(
                DraftAttachment {
                    filename: name.clone(),
                    content_type: ctype.clone(),
                    data: copy_bytes(data),
                    content_id: None,
                    is_inline: false,
                },
            );
            i = i + 1;
        }
        outbox.attachments = atts;
        outbox.queue();
        self.show_compose = false;
        self.composer_to = String::new();
        self.composer_cc = String::new();
        self.composer_bcc = String::new();
        self.composer_subject = String::new();
        self.composer_body = String::new();
        self.composer_attachments = Vec::new();
        Some(outbox)
    }

    /// The draft the composer holds, from the selected account (to, subject and
    /// body only); the composer stays as it is.
    pub fn draft_outbox(&self) -> (r: Option<OutboxMessage>)
        ensures
            match self.selected_account_id {
                Some(id) => match account_index(self.accounts@, id) {
                    Some(k) => (r matches Some(m) && composed_message(*self, self.accounts@[k], m)
                        && m.cc@.len() == 0 && m.bcc@.len() == 0 && m.attachments@.len() == 0
                        && m.status == OutboxStatus::Draft),
                    None => r is None,
                },
                None => r is None,
            },
    {
        let acc = match self.selected_account() {
            Some(a) => a,
            None => {
                return None;
            },
        };
        let to = parse_address_list(self.composer_to.as_str());
        let mut outbox = OutboxMessage::new_draft(
            acc.id,
            EmailAddress::with_name(acc.name.as_str(), acc.email.as_str()),
            to,
            self.composer_subject.as_str(),
        );
        outbox.body_text = Some(self.composer_body.clone());
        Some(outbox)
    }

    /// Adds a picked file to the composer's attachments, typed as generic bytes.
    pub fn add_attachment(&mut self, filename: String, bytes: Vec<u8>)
        ensures
            final(self).composer_attachments@.len() == old(self).composer_attachments@.len() + 1,
            final(self).composer_attachments@.drop_last() == old(self).composer_attachments@,
            final(self).composer_attachments@.last().0 == filename,
            final(self).composer_attachments@.last().1@ == "application/octet-stream"@,
            final(self).composer_attachments@.last().2 == bytes,
            *final(self) == (AppState {
                composer_attachments: final(self).composer_attachments,
                ..*old(self)
            }),
    {
        self.composer_attachments.push((filename, "application/octet-stream".to_owned(), bytes));
        assert(self.composer_attachments@.drop_last() =~= old(self).composer_attachments@);
    }

    /// Removes the attachment at `idx`, when there is one.
    pub fn remove_attachment(&mut self, idx: usize)
        ensures
            if idx < old(self).composer_attachments@.len() {
                final(self).composer_attachments@ == old(self).composer_attachments@.remove(
                    idx as int,
                )
            } else {
                final(self).composer_attachments@ == old(self).composer_attachments@
            },
            *final(self) == (AppState {
                composer_attachments: final(self).composer_attachments,
                ..*old(self)
            }),
    {
        if idx < self.composer_attachments.len() {
            self.composer_attachments.remove(idx);
        }
    }

    /// The account the wizard describes, with a fresh identifier; the wizard closes.
    pub fn account_from_wizard(&mut self) -> (r: Account)
        ensures
            r.wf(),
            r.name@ == old(self).wizard_name@,
            r.email@ == old(self).wizard_email@,
            r.imap_config.host@ == old(self).wizard_imap_host@,
            r.imap_config.port == old(self).wizard_imap_port,
            r.imap_config.security == old(self).wizard_imap_sec,
            r.smtp_config.host@ == old(self).wizard_smtp_host@,
            r.smtp_config.port == old(self).wizard_smtp_port,
            r.smtp_config.security == old(self).wizard_smtp_sec,
            r.credentials.username@ == old(self).wizard_user@,
            r.credentials.password@ == old(self).wizard_pass@,
            *final(self) == (AppState { show_account_wizard: false, ..*old(self) }),
    {
        let imap = ServerConfig {
            host: self.wizard_imap_host.clone(),
            port: self.wizard_imap_port,
            security: self.wizard_imap_sec,
        };
        let smtp = ServerConfig {
            host: self.wizard_smtp_host.clone(),
            port: self.wizard_smtp_port,
            security: self.wizard_smtp_sec,
        };
        let creds = AccountCredentials {
            username: self.wizard_user.clone(),
            password: self.wizard_pass.clone(),
        };
        let account = Account::new(
            self.wizard_name.as_str(),
            self.wizard_email.as_str(),
            imap,
            smtp,
            creds,
        );
        self.show_account_wizard = false;
        account
    }
}

} // verus!
