//! What the window's views show: labels, the message body, dates and the status
//! toast.

use vstd::prelude::*;

use crate::account::Account;
use crate::attachment::AttachmentMetadata;
use crate::folder::{Folder, FolderRole};
use crate::gui::actions::{MessageListAction, MessageViewAction};
use crate::gui::state::AppState;
use crate::imap::mime::{strip_html_tags, strip_tags};
use crate::message::{EmailAddress, MessageDetail, MessageSummary};
use crate::scan::{trim, trim_bounds};
use crate::smtp::builder::{address_list, format_list};
use crate::smtp::client::text_lines;
use crate::text::{dec, join, lemma_join_push, push_decimal, push_str, string_of_range};

verus! {

/// The name shown for the sender of a listed message: its non-empty name, else its
/// address, else `Unknown`.
pub open spec fn sender_label_text(m: MessageSummary) -> Seq<char> {
    match m.sender {
        Some(s) => match s.name {
            Some(n) => if n@.len() > 0 {
                n@
            } else {
                s.address@
            },
            None => s.address@,
        },
        None => "Unknown"@,
    }
}

pub fn sender_label(m: &MessageSummary) -> (r: String)
    ensures
        r@ == sender_label_text(*m),
{
    match &m.sender {
        Some(s) => match &s.name {
            Some(n) => if n.as_str().unicode_len() > 0 {
                n.clone()
            } else {
                s.address.clone()
            },
            None => s.address.clone(),
        },
        None => "Unknown".to_owned(),
    }
}

/// A subject as shown: `(No Subject)` when empty.
pub open spec fn subject_label_text(s: Seq<char>) -> Seq<char> {
    if s.len() == 0 {
        "(No Subject)"@
    } else {
        s
    }
}

pub fn subject_label(s: &str) -> (r: String)
    ensures
        r@ == subject_label_text(s@),
{
    if s.unicode_len() == 0 {
        "(No Subject)".to_owned()
    } else {
        s.to_owned()
    }
}

/// An account as listed: `name (email)`.
pub fn account_label(a: &Account) -> (r: String)
    ensures
        r@ == a.name@ + " ("@ + a.email@ + ")"@,
{
    let mut s = a.name.clone();
    push_str(&mut s, " (");
    push_str(&mut s, a.email.as_str());
    push_str(&mut s, ")");
    s
}

pub open spec fn role_icon_text(r: FolderRole) -> Seq<char> {
    match r {
        FolderRole::Inbox => "📥"@,
        FolderRole::Sent => "📤"@,
        FolderRole::Drafts => "📝"@,
        FolderRole::Trash => "🗑️"@,
        FolderRole::Archive => "📦"@,
        FolderRole::Spam => "🚫"@,
        FolderRole::Junk => "⚠️"@,
        FolderRole::Custom => "📁"@,
    }
}

/// The icon shown before a mailbox of the role.
pub fn role_icon(r: FolderRole) -> (s: &'static str)
    ensures
        s@ == role_icon_text(r),
{
    match r {
        FolderRole::Inbox => "📥",
        FolderRole::Sent => "📤",
        FolderRole::Drafts => "📝",
        FolderRole::Trash => "🗑️",
        FolderRole::Archive => "📦",
        FolderRole::Spam => "🚫",
        FolderRole::Junk => "⚠️",
        FolderRole::Custom => "📁",
    }
}

/// A mailbox as listed: its icon and name, and its unread count in parentheses
/// when there is unread mail.
pub open spec fn folder_label_text(f: Folder) -> Seq<char> {
    role_icon_text(f.role) + " "@ + f.display_name@ + (if f.unread_count > 0 {
        " ("@ + dec(f.unread_count as nat) + ")"@
    } else {
        seq![]
    })
}

pub fn folder_label(f: &Folder) -> (r: String)
    ensures
        r@ == folder_label_text(*f),
{
    let mut s = role_icon(f.role).to_owned();
    push_str(&mut s, " ");
    push_str(&mut s, f.display_name.as_str());
    if f.unread_count > 0 {
        push_str(&mut s, " (");
        push_decimal(&mut s, f.unread_count as u64);
        push_str(&mut s, ")");
    }
    proof {
        reveal_strlit("");
    }
    assert(s@ =~= folder_label_text(*f));
    s
}

/// The recipients line of a message: their display forms separated by commas.
pub fn recipients_line(v: &Vec<EmailAddress>) -> (r: String)
    ensures
        r@ == address_list(v@),
{
    format_list(v)
}

/// An attachment as offered for download: its name and size in whole KiB.
pub fn attachment_label(a: &AttachmentMetadata) -> (r: String)
    ensures
        r@ == "📎 "@ + a.filename@ + " ("@ + dec((a.size / 1024) as nat) + " KB)"@,
{
    let mut s = "📎 ".to_owned();
    push_str(&mut s, a.filename.as_str());
    push_str(&mut s, " (");
    push_decimal(&mut s, a.size / 1024);
    push_str(&mut s, " KB)");
    s
}

/// The text lines of `s`, trimmed, without the empty ones.
pub open spec fn nonblank_lines(ls: Seq<Seq<char>>) -> Seq<Seq<char>>
    decreases ls.len(),
{
    if ls.len() == 0 {
        seq![]
    } else {
        nonblank_lines(ls.drop_last()) + (if trim(ls.last()).len() > 0 {
            seq![trim(ls.last())]
        } else {
            seq![]
        })
    }
}

/// A readable text of an HTML body: tags dropped, lines trimmed, blank lines
/// removed, paragraphs separated by a blank line.
pub open spec fn html_as_text(html: Seq<char>) -> Seq<char> {
    join(nonblank_lines(text_lines(strip_tags(html, false))), "\n\n"@)
}

pub fn html2text_simple(html: &str) -> (r: String)
    ensures
        r@ == html_as_text(html@),
{
    let v = strip_html_tags(html);
    let n = v.len();
    let mut out = String::new();
    let mut pos: usize = 0;
    let ghost mut done: Seq<Seq<char>> = seq![];
    let ghost mut kept: Seq<Seq<char>> = seq![];
    let mut any = false;
    assert(v@.skip(0) =~= v@);
    while pos < n
        invariant
            n == v@.len(),
            pos <= n,
            text_lines(v@) == done + text_lines(v@.skip(pos as int)),
            kept == nonblank_lines(done),
            any == (kept.len() > 0),
            out@ == join(kept, "\n\n"@),
        decreases n - pos,
    {
        let ghost rest = v@.skip(pos as int);
        assert(v@.subrange(pos as int, n as int) =~= rest);
        let (end, next) = match crate::scan::find_char_in(v.as_slice(), pos, n, '\n') {
            Some(k) => (pos + k, pos + k + 1),
            None => (n, n),
        };
        let mut stop = end;
        if stop > pos && v[stop - 1] == '\r' && next > end {
            stop = stop - 1;
        }
        let ghost l = v@.subrange(pos as int, stop as int);
        proof {
            if next > end {
                assert(rest.take(end - pos) =~= v@.subrange(pos as int, end as int));
                assert(rest.skip(end - pos + 1) =~= v@.skip(next as int));
                if stop < end {
                    assert(v@.subrange(pos as int, end as int).drop_last() =~= l);
                }
            } else {
                assert(rest =~= l);
                assert(v@.skip(next as int).len() == 0);
                assert(text_lines(v@.skip(next as int)) =~= Seq::<Seq<char>>::empty());
            }
            assert(text_lines(rest) =~= seq![l] + text_lines(v@.skip(next as int)));
            assert(done + text_lines(rest) =~= done.push(l) + text_lines(v@.skip(next as int)));
            assert(done.push(l).drop_last() =~= done);
        }
        let (a, b) = trim_bounds(v.as_slice(), pos, stop);
        if b > a {
            let t = string_of_range(v.as_slice(), a, b);
            if any {
                push_str(&mut out, "\n\n");
            }
            push_str(&mut out, t.as_str());
            any = true;
            proof {
                lemma_join_push(kept, "\n\n"@, trim(l));
                if kept.len() == 0 {
                    reveal_strlit("\n\n");
                }
                kept = kept.push(trim(l));
            }
        } else {
            proof {
                assert(nonblank_lines(done.push(l)) =~= nonblank_lines(done));
            }
        }
        proof {
            done = done.push(l);
        }
        pos = next;
    }
    assert(v@.skip(n as int).len() == 0);
    assert(done + Seq::<Seq<char>>::empty() =~= done);
    out
}

/// What the message view shows as body.
#[derive(Debug, Clone, PartialEq, Eq)]
pub enum BodyView {
    /// The plain body.
    Text(String),
    /// The readable text of the HTML body.
    Html(String),
    /// Neither body has content.
    Empty,
}

/// The body to show: the plain body when it has content, else the text of the
/// HTML body when it has content, else nothing.
pub fn body_view(d: &MessageDetail) -> (r: BodyView)
    ensures
        match (d.body_text, d.body_html) {
            (Some(t), _) if t@.len() > 0 => (r matches BodyView::Text(x) && x@ == t@),
            (_, Some(h)) if h@.len() > 0 => (r matches BodyView::Html(x) && x@ == html_as_text(h@)),
            _ => r is Empty,
        },
{
    match &d.body_text {
        Some(t) => {
            if t.as_str().unicode_len() > 0 {
                return BodyView::Text(t.clone());
            }
        },
        None => {},
    }
    match &d.body_html {
        Some(h) => {
            if h.as_str().unicode_len() > 0 {
                return BodyView::Html(html2text_simple(h.as_str()));
            }
        },
        None => {},
    }
    BodyView::Empty
}

/// The status message to show at time `now_ms`: one set less than four seconds
/// before.
pub fn visible_status(s: &AppState, now_ms: u64) -> (r: Option<String>)
    ensures
        match s.status_message {
            Some((m, t)) => if now_ms >= t && now_ms - t < 4000 {
                r matches Some(x) && x@ == m@
            } else {
                r is None
            },
            None => r is None,
        },
{
    match &s.status_message {
        Some((m, t)) => {
            if now_ms >= *t && now_ms - *t < 4000 {
                Some(m.clone())
            } else {
                None
            }
        },
        None => None,
    }
}

/// The placeholder of an empty message list.
pub fn empty_list_label(searching: bool) -> (r: &'static str)
    ensures
        r@ == (if searching {
            "No messages matching your search."@
        } else {
            "No messages in this folder."@
        }),
{
    if searching {
        "No messages matching your search."
    } else {
        "No messages in this folder."
    }
}

/// How a message date is shown.
#[derive(Debug, Clone, Copy, PartialEq, Eq, Structural)]
pub enum DateDisplay {
    /// `%H:%M`: today, less than a day ago.
    Time,
    /// `%a %H:%M`: less than a week ago.
    WeekdayTime,
    /// `%b %d, %Y`: older.
    Date,
}

/// The day (UTC) of a UNIX time.
pub open spec fn day_of(secs: int) -> int {
    secs / 86400
}

/// The second of its day (UTC) of a UNIX time.
pub open spec fn second_of_day(secs: int) -> int {
    secs % 86400
}

/// The correction chrono applies to a time difference when one side is a leap
/// second (nanoseconds of a second at or past 10^9): the leap second counts as one
/// more second when it lies between the two times of day.
pub open spec fn leap_adjust(now_s: int, now_n: int, dt_s: int, dt_n: int) -> int {
    if second_of_day(now_s) > second_of_day(dt_s) && dt_n >= 1_000_000_000 {
        1_000_000_000
    } else if second_of_day(now_s) < second_of_day(dt_s) && now_n >= 1_000_000_000 {
        -1_000_000_000
    } else {
        0
    }
}

/// How a date `dt` is shown at time `now` (seconds and nanoseconds since the
/// epoch, leap seconds with nanoseconds past 10^9): the time alone when it is on
/// the same day and less than a day before, with the weekday when less than a
/// week before, else the full date. The difference is chrono's
/// `signed_duration_since`, leap seconds included.
pub open spec fn date_display(now_s: int, now_n: int, dt_s: int, dt_n: int) -> DateDisplay {
    let diff = (now_s - dt_s) * 1_000_000_000 + (now_n - dt_n) + leap_adjust(now_s, now_n, dt_s, dt_n);
    if diff < 86400 * 1_000_000_000 && day_of(now_s) == day_of(dt_s) {
        DateDisplay::Time
    } else if diff < 7 * 86400 * 1_000_000_000 {
        DateDisplay::WeekdayTime
    } else {
        DateDisplay::Date
    }
}

fn floor_day(secs: i64) -> (r: i64)
    requires
        secs > i64::MIN,
    ensures
        r == day_of(secs as int),
{
    if secs >= 0 {
        secs / 86400
    } else {
        let r = -((-secs - 1) / 86400) - 1;
        assert(r == (secs as int) / 86400) by (nonlinear_arith)
            requires
                secs < 0,
                r == -((-secs - 1) / 86400) - 1,
        ;
        r
    }
}

/// The display kind of date `dt` at time `now`.
pub fn date_display_kind(now: crate::ids::Timestamp, dt: crate::ids::Timestamp) -> (r: DateDisplay)
    requires
        now.valid() && dt.valid(),
        -(1i64 << 50) <= now.secs <= (1i64 << 50),
        -(1i64 << 50) <= dt.secs <= (1i64 << 50),
    ensures
        r == date_display(now.secs as int, now.nanos as int, dt.secs as int, dt.nanos as int),
{
    let now_day = floor_day(now.secs);
    let dt_day = floor_day(dt.secs);
    assert((1i64 << 50) == 1125899906842624i64) by (bit_vector);
    assert(0 <= now.secs - now_day * 86400 < 86400) by (nonlinear_arith)
        requires
            now_day == now.secs as int / 86400,
    ;
    assert(0 <= dt.secs - dt_day * 86400 < 86400) by (nonlinear_arith)
        requires
            dt_day == dt.secs as int / 86400,
    ;
    let now_tod: i64 = now.secs - now_day * 86400;
    let dt_tod: i64 = dt.secs - dt_day * 86400;
    assert(now_tod == second_of_day(now.secs as int));
    assert(dt_tod == second_of_day(dt.secs as int));
    let adjust: i128 = if now_tod > dt_tod && dt.nanos >= 1_000_000_000 {
        1_000_000_000
    } else if now_tod < dt_tod && now.nanos >= 1_000_000_000 {
        -1_000_000_000
    } else {
        0
    };
    let diff: i128 = (now.secs as i128 - dt.secs as i128) * 1_000_000_000 + (now.nanos as i128
        - dt.nanos as i128) + adjust;
    let same_day = now_day == dt_day;
    if diff < 86400 * 1_000_000_000 && same_day {
        DateDisplay::Time
    } else if diff < 7 * 86400 * 1_000_000_000 {
        DateDisplay::WeekdayTime
    } else {
        DateDisplay::Date
    }
}

/// `DateTime::format(pattern).to_string()` of the instant with these coordinates.
pub uninterp spec fn strftime_text(secs: i64, nanos: u32, pattern: Seq<char>) -> Seq<char>;

pub open spec fn date_pattern(k: DateDisplay) -> Seq<char> {
    match k {
        DateDisplay::Time => "%H:%M"@,
        DateDisplay::WeekdayTime => "%a %H:%M"@,
        DateDisplay::Date => "%b %d, %Y"@,
    }
}

/// `DateTime::from_timestamp(secs, nanos).format(pattern).to_string()`, for one of
/// the patterns the message list uses (each made of valid specifiers only).
#[verifier::external_body]
fn format_instant(t: &crate::ids::Timestamp, pattern: &str) -> (r: String)
    requires
        t.valid(),
        pattern@ == "%H:%M"@ || pattern@ == "%a %H:%M"@ || pattern@ == "%b %d, %Y"@,
    ensures
        r@ == strftime_text(t.secs, t.nanos, pattern@),
{
    chrono::DateTime::from_timestamp(t.secs, t.nanos).unwrap().format(pattern).to_string()
}

/// A message date as the list shows it at time `now`.
pub fn format_date(dt: crate::ids::Timestamp, now: crate::ids::Timestamp) -> (r: String)
    requires
        now.valid() && dt.valid(),
        -(1i64 << 50) <= now.secs <= (1i64 << 50),
        -(1i64 << 50) <= dt.secs <= (1i64 << 50),
    ensures
        r@ == strftime_text(
            dt.secs,
            dt.nanos,
            date_pattern(
                date_display(now.secs as int, now.nanos as int, dt.secs as int, dt.nanos as int),
            ),
        ),
{
    let pattern = match date_display_kind(now, dt) {
        DateDisplay::Time => "%H:%M",
        DateDisplay::WeekdayTime => "%a %H:%M",
        DateDisplay::Date => "%b %d, %Y",
    };
    format_instant(&dt, pattern)
}

/// The buttons of the toolbar above an open message.
#[derive(Debug, Clone, Copy, PartialEq, Eq, Structural)]
pub enum ViewButton {
    Reply,
    Forward,
    Star,
    Read,
    Delete,
    OpenHtml,
}

/// What a click on the star of a row of the message list asks for: the flag of
/// that message, flipped.
pub fn list_star_clicked(m: &MessageSummary) -> (r: MessageListAction)
    ensures
        r == MessageListAction::ToggleFlag(m.id, !m.flags.flagged),
{
    MessageListAction::ToggleFlag(m.id, !m.flags.flagged)
}

/// What a click on a toolbar button of the open message asks for: the star flips
/// the flag, the read button flips the seen state, and the browser button, shown
/// only for a non-empty HTML body, hands that body over.
pub fn view_button_clicked(d: &MessageDetail, b: ViewButton) -> (r: Option<MessageViewAction>)
    ensures
        match b {
            ViewButton::Reply => r == Some(MessageViewAction::Reply(d.summary.id)),
            ViewButton::Forward => r == Some(MessageViewAction::Forward(d.summary.id)),
            ViewButton::Star => r == Some(
                MessageViewAction::ToggleFlag(d.summary.id, !d.summary.flags.flagged),
            ),
            ViewButton::Read => r == Some(
                MessageViewAction::ToggleRead(d.summary.id, !d.summary.flags.seen),
            ),
            ViewButton::Delete => r == Some(MessageViewAction::Delete(d.summary.id)),
            ViewButton::OpenHtml => match d.body_html {
                Some(h) => if h@.len() > 0 {
                    r matches Some(MessageViewAction::OpenHtmlInBrowser(x)) && x@ == h@
                } else {
                    r is None
                },
                None => r is None,
            },
        },
{
    let id = d.summary.id;
    match b {
        ViewButton::Reply => Some(MessageViewAction::Reply(id)),
        ViewButton::Forward => Some(MessageViewAction::Forward(id)),
        ViewButton::Star => Some(MessageViewAction::ToggleFlag(id, !d.summary.flags.flagged)),
        ViewButton::Read => Some(MessageViewAction::ToggleRead(id, !d.summary.flags.seen)),
        ViewButton::Delete => Some(MessageViewAction::Delete(id)),
        ViewButton::OpenHtml => match &d.body_html {
            Some(h) => if h.as_str().unicode_len() > 0 {
                Some(MessageViewAction::OpenHtmlInBrowser(h.clone()))
            } else {
                None
            },
            None => None,
        },
    }
}

} // verus!
