//! The texts of desktop notifications.

use vstd::prelude::*;

use crate::text::{dec, push_decimal, push_str};

verus! {

/// Shows desktop notifications about mail.
pub struct DesktopNotifier;

/// Title of the new-mail notification.
pub open spec fn new_mail_summary_text(folder: Seq<char>, count: u32) -> Seq<char> {
    if count == 1 {
        "New email in "@ + folder
    } else {
        dec(count as nat) + " new emails in "@ + folder
    }
}

/// Body of the new-mail notification.
pub open spec fn new_mail_body_text(account: Seq<char>, latest_subject: Option<Seq<char>>) -> Seq<
    char,
> {
    match latest_subject {
        Some(s) => if s.len() > 0 {
            account + ": "@ + s
        } else {
            "Received for "@ + account
        },
        None => "Received for "@ + account,
    }
}

impl DesktopNotifier {
    /// Title and body of the notification that new mail arrived in a folder.
    pub fn new_mail_texts(
        account_email: &str,
        folder_name: &str,
        count: u32,
        latest_subject: Option<&str>,
    ) -> (r: (String, String))
        ensures
            r.0@ == new_mail_summary_text(folder_name@, count),
            r.1@ == new_mail_body_text(
                account_email@,
                match latest_subject {
                    Some(s) => Some(s@),
                    None => None,
                },
            ),
    {
        let mut summary = String::new();
        if count == 1 {
            push_str(&mut summary, "New email in ");
        } else {
            push_decimal(&mut summary, count as u64);
            push_str(&mut summary, " new emails in ");
        }
        push_str(&mut summary, folder_name);
        let mut body = String::new();
        match latest_subject {
            Some(subj) if subj.unicode_len() > 0 => {
                push_str(&mut body, account_email);
                push_str(&mut body, ": ");
                push_str(&mut body, subj);
            },
            _ => {
                push_str(&mut body, "Received for ");
                push_str(&mut body, account_email);
            },
        }
        assert(summary@ =~= new_mail_summary_text(folder_name@, count));
        (summary, body)
    }

    /// Title and body of the notification that a message could not be sent.
    pub fn send_failed_texts(subject: &str, error: &str) -> (r: (String, String))
        ensures
            r.0@ == "Failed to send email"@,
            r.1@ == "Subject: "@ + subject@ + "\nError: "@ + error@,
    {
        let mut body = String::new();
        push_str(&mut body, "Subject: ");
        push_str(&mut body, subject);
        push_str(&mut body, "\nError: ");
        push_str(&mut body, error);
        ("Failed to send email".to_owned(), body)
    }
}

} // verus!
