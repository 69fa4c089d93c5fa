//! Texts and icon data of the system tray entry.

use vstd::prelude::*;

use crate::text::{dec, push_decimal, push_str};

verus! {

/// Tray title: the unread count in parentheses when there is unread mail.
pub open spec fn tray_title_text(unread: u32) -> Seq<char> {
    if unread > 0 {
        "Edvige Mail ("@ + dec(unread as nat) + ")"@
    } else {
        "Edvige Mail"@
    }
}

pub fn tray_title(unread: u32) -> (r: String)
    ensures
        r@ == tray_title_text(unread),
{
    let mut s = String::new();
    push_str(&mut s, "Edvige Mail");
    if unread > 0 {
        push_str(&mut s, " (");
        push_decimal(&mut s, unread as u64);
        push_str(&mut s, ")");
    }
    proof {
        reveal_strlit("Edvige Mail");
        reveal_strlit(" (");
        reveal_strlit("Edvige Mail (");
    }
    assert(s@ =~= tray_title_text(unread));
    s
}

pub open spec fn tray_tooltip_text(unread: u32) -> Seq<char> {
    if unread > 0 {
        dec(unread as nat) + " unread email(s)"@
    } else {
        "All mail read - Background sync active"@
    }
}

pub fn tray_tooltip(unread: u32) -> (r: String)
    ensures
        r@ == tray_tooltip_text(unread),
{
    let mut s = String::new();
    if unread > 0 {
        push_decimal(&mut s, unread as u64);
        push_str(&mut s, " unread email(s)");
    } else {
        push_str(&mut s, "All mail read - Background sync active");
    }
    assert(s@ =~= tray_tooltip_text(unread));
    s
}

/// Pixel bytes reordered from R, G, B, A to A, R, G, B; a trailing partial pixel
/// is dropped.
pub open spec fn argb_of(raw: Seq<u8>) -> Seq<u8> {
    Seq::new(
        (raw.len() / 4 * 4) as nat,
        |i: int|
            {
                let p = i / 4 * 4;
                let k = i % 4;
                if k == 0 {
                    raw[p + 3]
                } else {
                    raw[p + k - 1]
                }
            },
    )
}

pub fn rgba_to_argb(raw: &[u8]) -> (r: Vec<u8>)
    ensures
        r@ == argb_of(raw@),
{
    let mut out: Vec<u8> = Vec::new();
    let len = raw.len();
    let n = len / 4;
    let mut i: usize = 0;
    while i < n
        invariant
            0 <= i <= n,
            n == raw@.len() / 4,
            raw@.len() <= usize::MAX,
            out@.len() == 4 * i,
            forall|j: int| 0 <= j < out@.len() ==> out@[j] == argb_of(raw@)[j],
        decreases n - i,
    {
        let p = 4 * i;
        out.push(raw[p + 3]);
        out.push(raw[p]);
        out.push(raw[p + 1]);
        out.push(raw[p + 2]);
        proof {
            assert forall|j: int| 4 * i <= j < 4 * i + 4 implies out@[j] == argb_of(raw@)[j] by {
                assert(j / 4 == i as int);
                assert(j % 4 == j - 4 * i);
            }
        }
        i = i + 1;
    }
    assert(out@ =~= argb_of(raw@));
    out
}

/// Delay before the next attempt to register the tray entry: one second more,
/// at most ten.
pub fn next_tray_retry_secs(current: u64) -> (r: u64)
    ensures
        r == if current + 1 < 10 {
            current + 1
        } else {
            10
        },
{
    if current < 9 {
        current + 1
    } else {
        10
    }
}

} // verus!
