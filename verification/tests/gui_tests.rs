use edvige::account::{Account, AccountCredentials, SecurityMode, ServerConfig};
use edvige::attachment::AttachmentMetadata;
use edvige::folder::{Folder, FolderRole};
use edvige::gui::actions::{CliCommand, ConnectionStatus, MessageListAction, MessageViewAction, TrayCommand};
use edvige::gui::compose::parse_address_list;
use edvige::gui::state::AppState;
use edvige::gui::notifier::DesktopNotifier;
use edvige::gui::tray::{next_tray_retry_secs, rgba_to_argb, tray_title, tray_tooltip};
use edvige::gui::supervisor::{
    first_line_caller, forward_event, initial_command, Caller, plain_cli_word, reply_is_ok, surface_action,
    sync_status_message, total_unread, tray_decision, AppEvent, SupervisorToGui, SurfaceAction,
    WorkerSet,
};
use edvige::gui::view::{
    account_label, attachment_label, body_view, date_display_kind, empty_list_label,
    folder_label, html2text_simple, list_star_clicked, recipients_line, sender_label, view_button_clicked, ViewButton, subject_label, visible_status, BodyView,
    DateDisplay,
};
use edvige::ids::{AccountId, FolderId, MessageId, Timestamp};
use edvige::imap::error::ImapError;
use edvige::message::{EmailAddress, Envelope, MessageDetail, MessageFlags, MessageSummary};
use edvige::outbox::OutboxStatus;

fn account(name: &str, email: &str) -> Account {
    Account::new(
        name,
        email,
        ServerConfig { host: "i".into(), port: 993, security: SecurityMode::Tls },
        ServerConfig { host: "s".into(), port: 465, security: SecurityMode::Tls },
        AccountCredentials { username: "u".into(), password: "p".into() },
    )
}

fn summary(id: MessageId, subject: &str) -> MessageSummary {
    MessageSummary {
        id,
        account_id: AccountId::new(),
        folder_id: FolderId::new(),
        uid: Some(1),
        message_id_header: None,
        thread_id: None,
        subject: subject.into(),
        sender: Some(EmailAddress::with_name("Ann", "ann@x")),
        recipients: vec![],
        date: Some(Timestamp { secs: 1_700_000_000, nanos: 0 }),
        flags: MessageFlags::default(),
        snippet: String::new(),
        size: 10,
        has_attachments: false,
    }
}

fn detail(s: MessageSummary, body: Option<&str>, html: Option<&str>) -> MessageDetail {
    MessageDetail {
        summary: s,
        envelope: Envelope::default(),
        body_text: body.map(|b| b.to_string()),
        body_html: html.map(|h| h.to_string()),
        raw_blob_hash: None,
        attachments: vec![],
    }
}

#[test]
fn defaults() {
    let s = AppState::default();
    assert_eq!(s.connection_status, ConnectionStatus::Connecting);
    assert_eq!(s.wizard_imap_host, "imap.gmail.com");
    assert_eq!(s.wizard_smtp_port, 465);
    assert!(!s.show_compose);
}

#[test]
fn loading_selects_first_account_and_inbox() {
    let mut s = AppState::default();
    let a = account("A", "a@x");
    let b = account("B", "b@x");
    let aid = a.id;
    assert_eq!(s.on_accounts_loaded(vec![a.clone(), b.clone()]), Some(aid));
    assert_eq!(s.selected_account_id, Some(aid));
    assert_eq!(s.on_accounts_loaded(vec![b.clone(), a]), None);
    assert_eq!(s.selected_account().unwrap().email, "a@x");

    let custom = Folder::new(aid, "Work", "Work", None, FolderRole::Custom);
    let inbox = Folder::new(aid, "INBOX", "Inbox", None, FolderRole::Inbox);
    let inbox_id = inbox.id;
    assert_eq!(s.on_folders_loaded(vec![custom.clone(), inbox]), Some(inbox_id));
    assert_eq!(s.selected_folder().unwrap().display_name, "Inbox");
    let mut s2 = AppState::default();
    assert_eq!(s2.on_folders_loaded(vec![custom.clone()]), Some(custom.id));
    assert_eq!(s2.on_folders_loaded(vec![]), None);
}

#[test]
fn flags_and_deletion_update_the_list() {
    let mut s = AppState::default();
    let id = MessageId::new();
    let other = MessageId::new();
    s.on_messages_loaded(vec![summary(id, "one"), summary(other, "two")]);
    s.select_message(id);
    s.on_detail_loaded(Some(detail(summary(id, "one"), Some("body"), None)));
    let f = s.flags_with_flagged(id, true);
    assert!(f.flagged && !f.seen);
    s.on_flags_updated(id, f);
    assert!(s.messages[0].flags.flagged);
    assert!(s.selected_message_detail.as_ref().unwrap().summary.flags.flagged);
    assert_eq!(s.flags_with_seen(MessageId::new(), true), MessageFlags { seen: true, ..MessageFlags::default() });
    s.on_message_deleted(id);
    assert_eq!(s.messages.len(), 1);
    assert_eq!(s.messages[0].id, other);
    assert!(s.selected_message_id.is_none());
    assert!(s.selected_message_detail.is_none());
}

#[test]
fn service_notices() {
    let mut s = AppState::default();
    let a = account("A", "a@x");
    let aid = a.id;
    s.on_accounts_loaded(vec![a]);
    let f = Folder::new(aid, "INBOX", "Inbox", None, FolderRole::Inbox);
    let fid = f.id;
    s.on_folders_loaded(vec![f]);
    s.on_folder_updated(aid, fid, 10, 3);
    assert_eq!(s.folders[0].total_count, 10);
    assert_eq!(s.folders[0].unread_count, 3);
    s.on_folder_updated(AccountId::new(), fid, 1, 1);
    assert_eq!(s.folders[0].total_count, 10);
    assert!(s.reload_on_new_messages(aid, fid));
    assert_eq!(s.start_search(), Some(aid));
    assert!(!s.reload_on_new_messages(aid, fid));
    assert_eq!(s.clear_search(), Some(fid));
    assert_eq!(s.request_folder_sync(1000), Some((aid, fid)));
    assert_eq!(visible_status(&s, 2000).as_deref(), Some("Synchronizing folder..."));
    assert_eq!(visible_status(&s, 5000), None);
    assert_eq!(s.request_folders_sync(7), Some(aid));
    s.select_account(AccountId::new());
    assert!(s.selected_folder_id.is_none() && s.messages.is_empty());
}

#[test]
fn reply_and_forward() {
    let mut s = AppState::default();
    let id = MessageId::new();
    s.on_detail_loaded(Some(detail(summary(id, "Plans"), Some("see you"), None)));
    s.prepare_reply(id);
    assert!(s.show_compose);
    assert_eq!(s.composer_to, "ann@x");
    assert_eq!(s.composer_subject, "Re: Plans");
    assert_eq!(s.composer_body, "\n\n--- On 2023-11-14T22:13:20+00:00 wrote ---\nsee you");
    s.on_detail_loaded(Some(detail(summary(id, "Re: Plans"), None, None)));
    s.prepare_reply(id);
    assert_eq!(s.composer_subject, "Re: Plans");
    s.prepare_forward(id);
    assert_eq!(s.composer_to, "");
    assert_eq!(s.composer_subject, "Fwd: Re: Plans");
    assert_eq!(s.composer_body, "\n\n--- Forwarded Message ---\n");
}

#[test]
fn composer_builds_the_outgoing_message() {
    let v = parse_address_list(" a@x , ,b@y,");
    assert_eq!(v.len(), 2);
    assert_eq!(v[0].address, "a@x");
    assert_eq!(v[1].address, "b@y");
    assert!(parse_address_list("").is_empty());

    let mut s = AppState::default();
    assert!(s.compose_outbox().is_none());
    let a = account("Al", "al@x");
    s.on_accounts_loaded(vec![a]);
    s.composer_to = "b@y, c@z".into();
    s.composer_cc = "d@w".into();
    s.composer_subject = "Hi".into();
    s.composer_body = "text".into();
    s.add_attachment("f.bin".into(), vec![1, 2, 3]);
    s.add_attachment("g.bin".into(), vec![4]);
    s.remove_attachment(1);
    s.remove_attachment(5);
    let draft = s.draft_outbox().unwrap();
    assert_eq!(draft.status, OutboxStatus::Draft);
    assert_eq!(draft.to.len(), 2);
    let m = s.compose_outbox().unwrap();
    assert_eq!(m.status, OutboxStatus::Queued);
    assert_eq!(m.from.format(), "Al <al@x>");
    assert_eq!(m.cc[0].address, "d@w");
    assert_eq!(m.body_text.as_deref(), Some("text"));
    assert_eq!(m.attachments.len(), 1);
    assert_eq!(m.attachments[0].content_type, "application/octet-stream");
    assert_eq!(m.attachments[0].data, vec![1, 2, 3]);
    assert!(!s.show_compose && s.composer_to.is_empty() && s.composer_attachments.is_empty());

    s.wizard_name = "N".into();
    s.wizard_email = "n@x".into();
    s.show_account_wizard = true;
    let acc = s.account_from_wizard();
    assert_eq!(acc.imap_config.host, "imap.gmail.com");
    assert_eq!(acc.smtp_config.port, 465);
    assert!(!s.show_account_wizard);
}

#[test]
fn view_labels() {
    let id = MessageId::new();
    let mut m = summary(id, "");
    assert_eq!(sender_label(&m), "Ann");
    m.sender = Some(EmailAddress::with_name("", "z@z"));
    assert_eq!(sender_label(&m), "z@z");
    m.sender = None;
    assert_eq!(sender_label(&m), "Unknown");
    assert_eq!(subject_label(""), "(No Subject)");
    assert_eq!(subject_label("x"), "x");
    assert_eq!(account_label(&account("A", "a@x")), "A (a@x)");
    let mut f = Folder::new(AccountId::new(), "INBOX", "Inbox", None, FolderRole::Inbox);
    assert_eq!(folder_label(&f), "📥 Inbox");
    f.unread_count = 2;
    assert_eq!(folder_label(&f), "📥 Inbox (2)");
    let att = AttachmentMetadata::new(id, "doc.pdf", "application/pdf", 4096, "h");
    assert_eq!(attachment_label(&att), "📎 doc.pdf (4 KB)");
    assert_eq!(empty_list_label(true), "No messages matching your search.");
    assert_eq!(empty_list_label(false), "No messages in this folder.");
}

#[test]
fn bodies_and_dates() {
    assert_eq!(html2text_simple("<p>Hello</p>\n\n  <p>World</p>  \n"), "Hello\n\nWorld");
    assert_eq!(html2text_simple(""), "");
    let id = MessageId::new();
    assert_eq!(body_view(&detail(summary(id, "s"), Some("t"), Some("<b>h</b>"))), BodyView::Text("t".into()));
    assert_eq!(body_view(&detail(summary(id, "s"), Some(""), Some("<b>h</b>"))), BodyView::Html("h".into()));
    assert_eq!(body_view(&detail(summary(id, "s"), None, None)), BodyView::Empty);
    let now = Timestamp { secs: 1_700_000_000, nanos: 0 };
    assert_eq!(date_display_kind(now, Timestamp { secs: 1_700_000_000 - 60, nanos: 0 }), DateDisplay::Time);
    assert_eq!(date_display_kind(now, Timestamp { secs: 1_700_000_000 - 86_400, nanos: 0 }), DateDisplay::WeekdayTime);
    assert_eq!(date_display_kind(now, Timestamp { secs: 1_700_000_000 - 30 * 86_400, nanos: 0 }), DateDisplay::Date);
    assert_eq!(date_display_kind(now, Timestamp { secs: 1_699_920_000 - 1, nanos: 0 }), DateDisplay::WeekdayTime);
    assert_eq!(edvige::gui::view::format_date(Timestamp { secs: 1_700_000_000 - 60, nanos: 0 }, now), "22:12");
}

#[test]
fn supervisor_decisions() {
    assert_eq!(initial_command(true), CliCommand::Compose);
    assert_eq!(initial_command(false), CliCommand::Show);
    assert_eq!(plain_cli_word(" show\n"), Some(CliCommand::Show));
    assert_eq!(plain_cli_word("compose"), Some(CliCommand::Compose));
    assert_eq!(plain_cli_word("Show"), None);
    assert!(reply_is_ok("ok\n"));
    assert!(!reply_is_ok("no"));
    assert_eq!(surface_action(true, true), SurfaceAction::Notify(SupervisorToGui::Compose));
    assert_eq!(surface_action(true, false), SurfaceAction::Notify(SupervisorToGui::Focus));
    assert_eq!(surface_action(false, true), SurfaceAction::Spawn(vec!["--gui".into(), "--compose".into()]));
    assert_eq!(tray_decision(TrayCommand::Quit), None);
    assert_eq!(tray_decision(TrayCommand::Compose), Some(true));
    let a = AccountId::new();
    let f = FolderId::new();
    assert_eq!(
        forward_event(&AppEvent::NewMessages { account_id: a, folder_id: f, count: 2 }),
        Some(SupervisorToGui::NewMessages { account_id: a, folder_id: f, count: 2 })
    );
    assert_eq!(forward_event(&AppEvent::SyncProgress { account_id: a, message: "x".into() }), None);
    assert_eq!(sync_status_message(&Ok(3)), "Synced 3 messages");
    assert_eq!(sync_status_message(&Err(ImapError::Timeout)), "Sync error: Timeout error");
    let mut x = Folder::new(a, "A", "A", None, FolderRole::Inbox);
    x.unread_count = 2;
    let mut y = x.clone();
    y.unread_count = 5;
    assert_eq!(total_unread(&vec![x, y]), 7);
    let mut w = WorkerSet::new();
    assert!(w.start(a));
    assert!(!w.start(a));
    assert!(w.stop(a));
    assert!(!w.stop(a));
}

#[test]
fn tray_texts() {
    assert_eq!(tray_title(0), "Edvige Mail");
    assert_eq!(tray_title(3), "Edvige Mail (3)");
    assert_eq!(tray_tooltip(0), "All mail read - Background sync active");
    assert_eq!(tray_tooltip(12), "12 unread email(s)");
}

#[test]
fn tray_icon_pixels_become_argb() {
    assert_eq!(rgba_to_argb(&[1, 2, 3, 4, 5, 6, 7, 8]), vec![4, 1, 2, 3, 8, 5, 6, 7]);
    assert_eq!(rgba_to_argb(&[1, 2, 3, 4, 9]), vec![4, 1, 2, 3]);
    assert!(rgba_to_argb(&[]).is_empty());
}

#[test]
fn tray_retry_grows_to_ten_seconds() {
    assert_eq!(next_tray_retry_secs(1), 2);
    assert_eq!(next_tray_retry_secs(9), 10);
    assert_eq!(next_tray_retry_secs(10), 10);
    assert_eq!(next_tray_retry_secs(u64::MAX), 10);
}

#[test]
fn notification_texts() {
    let (summary, body) = DesktopNotifier::new_mail_texts("me@x", "Inbox", 1, Some("Hi"));
    assert_eq!(summary, "New email in Inbox");
    assert_eq!(body, "me@x: Hi");
    let (summary, body) = DesktopNotifier::new_mail_texts("me@x", "Inbox", 4, Some(""));
    assert_eq!(summary, "4 new emails in Inbox");
    assert_eq!(body, "Received for me@x");
    let (_, body) = DesktopNotifier::new_mail_texts("me@x", "Inbox", 2, None);
    assert_eq!(body, "Received for me@x");
    let (summary, body) = DesktopNotifier::send_failed_texts("Report", "timeout");
    assert_eq!(summary, "Failed to send email");
    assert_eq!(body, "Subject: Report\nError: timeout");
}

#[test]
fn recipients_are_listed_with_names() {
    let v = vec![EmailAddress::with_name("Ann", "ann@x"), EmailAddress::new("bob@x")];
    assert_eq!(recipients_line(&v), "Ann <ann@x>, bob@x");
    assert_eq!(recipients_line(&vec![]), "");
}

#[test]
fn flag_notices_touch_only_the_open_folder() {
    let mut s = AppState::default();
    let a = account("A", "a@x");
    let aid = a.id;
    s.on_accounts_loaded(vec![a]);
    let f = Folder::new(aid, "INBOX", "Inbox", None, FolderRole::Inbox);
    let fid = f.id;
    s.on_folders_loaded(vec![f]);
    let id = MessageId::new();
    s.on_messages_loaded(vec![summary(id, "one")]);
    let seen = MessageFlags { seen: true, ..MessageFlags::default() };
    s.on_flags_changed(FolderId::new(), id, seen);
    assert!(!s.messages[0].flags.seen);
    s.on_flags_changed(fid, id, seen);
    assert!(s.messages[0].flags.seen);
}

#[test]
fn first_lines_tell_who_is_calling() {
    assert_eq!(first_line_caller(Some(CliCommand::Compose), "{\"type\":\"compose\"}", false), Caller::Cli(CliCommand::Compose));
    assert_eq!(first_line_caller(None, "  show ", false), Caller::Cli(CliCommand::Show));
    assert_eq!(first_line_caller(None, "compose", true), Caller::Cli(CliCommand::Compose));
    assert_eq!(first_line_caller(None, "{\"type\":\"hello\"}", true), Caller::Window);
    assert_eq!(first_line_caller(None, "hello", false), Caller::Unknown);
}

#[test]
fn clicks_flip_the_flags() {
    let id = MessageId::new();
    let mut s = summary(id, "one");
    assert_eq!(list_star_clicked(&s), MessageListAction::ToggleFlag(id, true));
    s.flags.flagged = true;
    assert_eq!(list_star_clicked(&s), MessageListAction::ToggleFlag(id, false));
    let mut d = detail(s.clone(), Some("body"), None);
    assert_eq!(view_button_clicked(&d, ViewButton::Star), Some(MessageViewAction::ToggleFlag(id, false)));
    assert_eq!(view_button_clicked(&d, ViewButton::Read), Some(MessageViewAction::ToggleRead(id, true)));
    assert_eq!(view_button_clicked(&d, ViewButton::Reply), Some(MessageViewAction::Reply(id)));
    assert_eq!(view_button_clicked(&d, ViewButton::Delete), Some(MessageViewAction::Delete(id)));
    assert_eq!(view_button_clicked(&d, ViewButton::OpenHtml), None);
    d.body_html = Some("<p>x</p>".into());
    assert_eq!(view_button_clicked(&d, ViewButton::OpenHtml), Some(MessageViewAction::OpenHtmlInBrowser("<p>x</p>".into())));
    d.body_html = Some(String::new());
    assert_eq!(view_button_clicked(&d, ViewButton::OpenHtml), None);
}
