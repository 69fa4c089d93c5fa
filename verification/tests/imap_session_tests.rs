use edvige::folder::{Folder, FolderRole};
use edvige::ids::{AccountId, FolderId, MessageId};
use edvige::imap::client::{
    delete_command, fetches_from, folders_from_list, MoveRun, MoveStage, MoveStep, RemoteFolderInfo,
    SelectedFolderState,
};
use edvige::imap::commands::ImapCommand;
use edvige::imap::connection::{
    check_idle_answer, classify_unsolicited, ends_idle, login_failure, next_tag, run_exchange, Exchange,
    TagCounter,
    ExchangeStep,
};
use edvige::imap::error::ImapError;
use edvige::imap::response::{FetchResponse, Status, UntaggedResponse};
use edvige::imap::sync::{
    completed_in_run, record_import, record_mutation, FolderSync, FolderSyncAction, FolderSyncPhase,
    MutationPlan as Plan, MutationRun, RunAction, ImportOutcome, MutationOutcome, MutationRecord,
    MUTATION_BATCH, MUTATION_RETRIES,
    fetch_range, folder_display_name, folders_needed, import_candidate, last_segment,
    next_backoff_secs, op_failure, plan_mutation, push_needs_sync, start_uid, sync_folder_list,
    uid_validity_changed, MutationPlan, OpFailure, ServerOp, SyncStats,
};
use edvige::message::MessageFlags;
use edvige::mutation::MutationType;

#[test]
fn tags_are_zero_padded() {
    assert_eq!(next_tag(0), "A0000");
    assert_eq!(next_tag(42), "A0042");
    assert_eq!(next_tag(12345), "A12345");
}

#[test]
fn exchange_collects_until_its_tag() {
    let mut ex = Exchange::new("A0001".to_string());
    assert!(matches!(ex.on_line("* 3 EXISTS\r\n", None), ExchangeStep::Continue));
    assert!(matches!(ex.on_line("A0000 OK old\r\n", None), ExchangeStep::Continue));
    assert!(matches!(ex.on_line("+ go on\r\n", None), ExchangeStep::Continue));
    assert!(matches!(
        ex.on_line("* 1 FETCH (UID 9 RFC822 {5}\r\n", Some(b"hello".to_vec())),
        ExchangeStep::Continue
    ));
    match ex.on_line("A0001 OK [READ-WRITE] done\r\n", None) {
        ExchangeStep::Finished(Ok(t)) => {
            assert_eq!(t.status, Status::OK);
            assert_eq!(t.code.as_deref(), Some("READ-WRITE"));
        }
        other => panic!("unexpected {:?}", other),
    }
    assert_eq!(ex.untagged.len(), 2);
    assert_eq!(ex.untagged[0], UntaggedResponse::Exists(3));
    match &ex.untagged[1] {
        UntaggedResponse::Fetch(f) => {
            assert_eq!(f.uid, Some(9));
            assert_eq!(f.rfc822_body.as_deref(), Some(&b"hello"[..]));
        }
        other => panic!("unexpected {:?}", other),
    }
}

#[test]
fn exchange_reports_rejections() {
    let mut ex = Exchange::new("A0007".to_string());
    match ex.on_line("A0007 NO [TRYCREATE] no such mailbox\r\n", None) {
        ExchangeStep::Finished(Err(ImapError::CommandFailed(s, m))) => {
            assert_eq!(s, "No");
            assert_eq!(m, "no such mailbox");
            let e = ImapError::CommandFailed(s, m);
            assert_eq!(e.to_text(), "Command rejected (No): no such mailbox");
        }
        other => panic!("unexpected {:?}", other),
    }
}

#[test]
fn idle_handshake() {
    assert!(check_idle_answer("+ idling\r\n").is_ok());
    match check_idle_answer("A1 BAD nope") {
        Err(ImapError::Protocol(m)) => assert_eq!(m, "Expected continuation '+' for IDLE, got: A1 BAD nope"),
        other => panic!("unexpected {:?}", other),
    }
    assert!(ends_idle("A0003 OK IDLE terminated\r\n", "A0003"));
    assert!(!ends_idle("A0004 OK IDLE terminated\r\n", "A0003"));
    assert!(!ends_idle("* 4 EXISTS\r\n", "A0003"));
    assert_eq!(classify_unsolicited("* 4 EXISTS\r\n".to_string()), UntaggedResponse::Exists(4));
    assert_eq!(
        classify_unsolicited("garbage".to_string()),
        UntaggedResponse::Other("garbage".to_string())
    );
    let e = login_failure("bob", &ImapError::Timeout);
    assert_eq!(e, ImapError::Authentication("Login failed for bob: Timeout error".to_string()));
}

#[test]
fn display_names_follow_the_delimiter() {
    assert_eq!(folder_display_name("INBOX/Work/2024", &Some("/".into())), "2024");
    assert_eq!(folder_display_name("INBOX.Work", &Some(".".into())), "Work");
    assert_eq!(folder_display_name("Archive", &None), "Archive");
    assert_eq!(folder_display_name("a/b", &None), "b");
    assert_eq!(last_segment("aaa", "aa"), "a");
    assert_eq!(last_segment("x", ""), "");
    assert_eq!(last_segment("a/", "/"), "");
}

#[test]
fn folder_list_sync_keeps_known_and_creates_new() {
    let account = AccountId::new();
    let mut known = Folder::new(account, "INBOX", "Inbox", Some(".".into()), FolderRole::Inbox);
    known.unread_count = 4;
    let remote = vec![
        RemoteFolderInfo { name: "INBOX".into(), delimiter: Some("/".into()), flags: vec![], role: FolderRole::Inbox },
        RemoteFolderInfo { name: "Work/Reports".into(), delimiter: Some("/".into()), flags: vec![], role: FolderRole::Custom },
    ];
    let r = sync_folder_list(account, &remote, &vec![known.clone()]);
    assert_eq!(r.len(), 2);
    assert!(!r[0].is_new);
    assert_eq!(r[0].folder.id, known.id);
    assert_eq!(r[0].folder.delimiter.as_deref(), Some("/"));
    assert_eq!(r[0].folder.unread_count, 4);
    assert!(r[1].is_new);
    assert_eq!(r[1].folder.display_name, "Reports");
    assert_eq!(r[1].folder.remote_name, "Work/Reports");
    assert_eq!(r[1].folder.account_id, account);
}

#[test]
fn uid_bookkeeping() {
    assert!(uid_validity_changed(Some(1), Some(2)));
    assert!(!uid_validity_changed(Some(1), Some(1)));
    assert!(!uid_validity_changed(None, Some(2)));
    assert_eq!(start_uid(true, Some(10)), 1);
    assert_eq!(start_uid(false, Some(10)), 11);
    assert_eq!(start_uid(false, None), 1);
    assert_eq!(fetch_range(11), "11:*");
    let f = FetchResponse { seq: 1, uid: Some(12), flags: None, rfc822_size: None, rfc822_body: Some(vec![1]) };
    assert_eq!(import_candidate(&f, 11), Some((12, MessageFlags::default())));
    assert_eq!(import_candidate(&f, 13), None);
    let g = FetchResponse { rfc822_body: None, ..f };
    assert_eq!(import_candidate(&g, 1), None);
    assert_eq!(SyncStats::default().errors, 0);
}

#[test]
fn idle_and_backoff() {
    assert!(push_needs_sync(&UntaggedResponse::Exists(1)));
    assert!(push_needs_sync(&UntaggedResponse::Expunge(1)));
    assert!(!push_needs_sync(&UntaggedResponse::Other("x".into())));
    assert_eq!(next_backoff_secs(2), 4);
    assert_eq!(next_backoff_secs(32), 60);
    assert_eq!(next_backoff_secs(60), 60);
    assert_eq!(next_backoff_secs(u64::MAX), 60);
}

#[test]
fn mutation_plans() {
    let add = MessageFlags { seen: true, ..MessageFlags::default() };
    let set = MutationType::SetFlags {
        message_id: MessageId::new(),
        folder_id: FolderId::new(),
        uid: Some(5),
        add_flags: add,
        remove_flags: MessageFlags::default(),
    };
    assert_eq!(folders_needed(&set).len(), 1);
    match plan_mutation(&set, &vec![Some("INBOX".into())]) {
        MutationPlan::Run(ops) => {
            assert_eq!(ops, vec![
                ServerOp::Select { mailbox: "INBOX".into() },
                ServerOp::StoreFlags { uid: 5, add: true, flags: add },
            ]);
        }
        other => panic!("unexpected {:?}", other),
    }
    match plan_mutation(&set, &vec![None]) {
        MutationPlan::Fail(ImapError::Mailbox(m)) => assert_eq!(m, "Folder not found"),
        other => panic!("unexpected {:?}", other),
    }
    let mv = MutationType::MoveMessage {
        message_id: MessageId::new(),
        source_folder_id: FolderId::new(),
        source_uid: Some(3),
        target_folder_id: FolderId::new(),
    };
    match plan_mutation(&mv, &vec![Some("A".into()), Some("B".into())]) {
        MutationPlan::Run(ops) => assert_eq!(ops[1], ServerOp::Move { uid: 3, target: "B".into() }),
        other => panic!("unexpected {:?}", other),
    }
    match plan_mutation(&mv, &vec![Some("A".into()), None]) {
        MutationPlan::Fail(ImapError::Mailbox(m)) => assert_eq!(m, "Source or target folder not found"),
        other => panic!("unexpected {:?}", other),
    }
    let send = MutationType::SendMail { outbox_message_id: MessageId::new() };
    assert!(matches!(plan_mutation(&send, &vec![]), MutationPlan::Nothing));
    match op_failure(&ServerOp::StoreFlags { uid: 1, add: true, flags: add }, ImapError::Timeout) {
        OpFailure::MutationFailed(m) => assert_eq!(m, "Command rejected (SetFlags): Failed setting flags"),
        other => panic!("unexpected {:?}", other),
    }
    match op_failure(&ServerOp::Select { mailbox: "X".into() }, ImapError::Timeout) {
        OpFailure::Abort(e) => assert_eq!(e, ImapError::Timeout),
        other => panic!("unexpected {:?}", other),
    }
    match op_failure(&ServerOp::Delete { uid: 1 }, ImapError::Fetch("x".into())) {
        OpFailure::MutationFailed(m) => assert_eq!(m, "Fetch error: x"),
        other => panic!("unexpected {:?}", other),
    }
}

#[test]
fn fetch_answers_keep_only_fetch_responses() {
    let f1 = FetchResponse { seq: 1, uid: Some(10), flags: None, rfc822_size: Some(5), rfc822_body: Some(b"hello".to_vec()) };
    let f2 = FetchResponse { seq: 2, uid: Some(11), flags: None, rfc822_size: None, rfc822_body: None };
    let answers = vec![
        UntaggedResponse::Exists(2),
        UntaggedResponse::Fetch(f1.clone()),
        UntaggedResponse::Recent(0),
        UntaggedResponse::Fetch(f2.clone()),
    ];
    assert_eq!(fetches_from(answers), vec![f1, f2]);
    assert!(fetches_from(vec![UntaggedResponse::Exists(3)]).is_empty());
}

#[test]
fn delete_and_move_commands() {
    let deleted = MessageFlags { seen: false, flagged: false, answered: false, draft: false, deleted: true };
    assert_eq!(delete_command(7), ImapCommand::UidStoreFlags { uid: 7, add: true, flags: deleted });
    let (mut run, first) = MoveRun::start(7, "Archive");
    assert_eq!(first, ImapCommand::UidMove { uid: 7, target_mailbox: "Archive".to_string() });
    let refused = Err(ImapError::CommandFailed("NO".into(), "no MOVE".into()));
    assert_eq!(
        run.on_result(refused),
        MoveStep::Send(ImapCommand::UidCopy { uid: 7, target_mailbox: "Archive".to_string() })
    );
    assert_eq!(run.on_result(Ok(())), MoveStep::Send(ImapCommand::UidStoreFlags { uid: 7, add: true, flags: deleted }));
    assert_eq!(run.on_result(Ok(())), MoveStep::Send(ImapCommand::Expunge));
    assert_eq!(run.on_result(Err(ImapError::Timeout)), MoveStep::Finished(Ok(())));
    assert_eq!(run.stage, MoveStage::Done);
    let (mut quick, _) = MoveRun::start(8, "Trash");
    assert_eq!(quick.on_result(Ok(())), MoveStep::Finished(Ok(())));
    let (mut failing, _) = MoveRun::start(8, "Trash");
    failing.on_result(Err(ImapError::Timeout));
    assert_eq!(failing.on_result(Err(ImapError::Timeout)), MoveStep::Finished(Err(ImapError::Timeout)));
    assert_eq!(first.serialize("A0001"), "A0001 UID MOVE 7 \"Archive\"\r\n");
    assert_eq!(ImapCommand::Expunge.serialize("A0002"), "A0002 EXPUNGE\r\n");
}

#[test]
fn listing_skips_noselect_mailboxes() {
    let list = |flags: &[&str], name: &str| UntaggedResponse::List {
        flags: flags.iter().map(|f| f.to_string()).collect(),
        delimiter: Some("/".to_string()),
        name: name.to_string(),
    };
    let answers = vec![
        list(&["\\HasChildren", "\\Noselect"], "[Gmail]"),
        list(&["\\HasNoChildren"], "INBOX"),
        UntaggedResponse::Exists(3),
        list(&["\\NOSELECT"], "Shared"),
        list(&["\\HasNoChildren", "\\Sent"], "Sent Messages"),
    ];
    let folders = folders_from_list(&answers);
    let names: Vec<&str> = folders.iter().map(|f| f.name.as_str()).collect();
    assert_eq!(names, vec!["INBOX", "Sent Messages"]);
    assert_eq!(folders[0].role, FolderRole::Inbox);
    assert_eq!(folders[1].role, FolderRole::Sent);
    assert_eq!(folders[1].flags, vec!["\\HasNoChildren".to_string(), "\\Sent".to_string()]);
    assert_eq!(folders[0].delimiter.as_deref(), Some("/"));
}

#[test]
fn import_outcomes_are_counted_once() {
    let mut stats = SyncStats::default();
    for o in [ImportOutcome::Stored, ImportOutcome::Skipped, ImportOutcome::Failed, ImportOutcome::Stored] {
        record_import(&mut stats, o);
    }
    assert_eq!(stats.messages_fetched, 2);
    assert_eq!(stats.errors, 1);
    assert_eq!(stats.messages_updated, 0);
}

#[test]
fn mutation_runs_count_completed_ones() {
    assert_eq!(MUTATION_BATCH, 20);
    assert_eq!(record_mutation(4, MutationOutcome::Completed), (5, MutationRecord::MarkCompleted));
    assert_eq!(
        record_mutation(4, MutationOutcome::Failed("Mailbox error: Folder not found".into())),
        (4, MutationRecord::MarkFailed { error: "Mailbox error: Folder not found".into(), max_retries: MUTATION_RETRIES })
    );
    assert_eq!(MUTATION_RETRIES, 3);
    let run = vec![
        MutationOutcome::Completed,
        MutationOutcome::Failed("x".into()),
        MutationOutcome::Completed,
    ];
    assert_eq!(completed_in_run(&run), 2);
    assert_eq!(completed_in_run(&vec![]), 0);
}

#[test]
fn tags_of_a_connection_are_distinct() {
    let mut seen = std::collections::HashSet::new();
    for k in 1u64..=20_000 {
        assert!(seen.insert(next_tag(k)));
    }
    assert_eq!(next_tag(1), "A0001");
    assert_eq!(next_tag(2), "A0002");
}

#[test]
fn every_command_is_one_line() {
    let flags = MessageFlags { seen: true, flagged: true, ..MessageFlags::default() };
    let cmds = vec![
        ImapCommand::Capability,
        ImapCommand::Login { username: "u\\x".into(), password: "p\"w".into() },
        ImapCommand::Logout,
        ImapCommand::List { reference: String::new(), wildcard: "*".into() },
        ImapCommand::Select { mailbox: "INBOX".into() },
        ImapCommand::Examine { mailbox: "INBOX".into() },
        ImapCommand::UidSearch { query: "ALL".into() },
        ImapCommand::UidFetch { uid_range: "1:*".into(), items: "UID FLAGS".into() },
        ImapCommand::UidStoreFlags { uid: 9, add: false, flags },
        ImapCommand::UidCopy { uid: 9, target_mailbox: "Trash".into() },
        ImapCommand::UidMove { uid: 9, target_mailbox: "Trash".into() },
        ImapCommand::Idle,
        ImapCommand::Noop,
        ImapCommand::Expunge,
    ];
    for c in cmds {
        let t = c.serialize("A0007");
        assert!(t.starts_with("A0007 "));
        assert!(t.ends_with("\r\n"));
        let body = &t[..t.len() - 2];
        assert!(!body.contains('\r') && !body.contains('\n'), "{:?}", t);
    }
    let login = ImapCommand::Login { username: "u\\x".into(), password: "p\"w".into() }.serialize("T");
    assert_eq!(login, "T LOGIN \"u\\\\x\" \"p\\\"w\"\r\n");
}

#[test]
fn a_connection_numbers_its_commands_from_one() {
    let mut c = TagCounter::new();
    assert_eq!(c.take(), "A0001");
    assert_eq!(c.take(), "A0002");
    assert_eq!(c.next, 3);
}

#[test]
fn a_mutation_run_sends_each_command_and_records_the_end() {
    let mut run = MutationRun::new();
    let ops = vec![
        ServerOp::Select { mailbox: "INBOX".into() },
        ServerOp::StoreFlags { uid: 4, add: true, flags: MessageFlags { seen: true, ..MessageFlags::default() } },
    ];
    match run.begin(Plan::Run(ops.clone())) {
        RunAction::Execute(op) => assert_eq!(op, ops[0]),
        other => panic!("unexpected {:?}", other),
    }
    match run.on_result(Ok(())) {
        RunAction::Execute(op) => assert_eq!(op, ops[1]),
        other => panic!("unexpected {:?}", other),
    }
    assert!(matches!(run.on_result(Ok(())), RunAction::Record(MutationRecord::MarkCompleted)));
    assert_eq!(run.processed, 1);
    // a failed store fails the mutation only
    run.begin(Plan::Run(ops.clone()));
    run.on_result(Ok(()));
    match run.on_result(Err(ImapError::Timeout)) {
        RunAction::Record(MutationRecord::MarkFailed { error, max_retries }) => {
            assert_eq!(error, "Command rejected (SetFlags): Failed setting flags");
            assert_eq!(max_retries, 3);
        }
        other => panic!("unexpected {:?}", other),
    }
    // a failed select stops the run
    run.begin(Plan::Run(ops.clone()));
    assert!(matches!(run.on_result(Err(ImapError::Timeout)), RunAction::Abort(ImapError::Timeout)));
    assert!(matches!(run.begin(Plan::Nothing), RunAction::Record(MutationRecord::MarkCompleted)));
    assert!(matches!(
        run.begin(Plan::Fail(ImapError::Mailbox("Folder not found".into()))),
        RunAction::Record(MutationRecord::MarkFailed { .. })
    ));
    assert_eq!(run.processed, 2);
    assert_eq!(run.taken, 5);
}

#[test]
fn a_folder_sync_fetches_past_the_stored_uids() {
    let state = SelectedFolderState {
        name: "INBOX".into(),
        uid_validity: Some(7),
        uid_next: Some(50),
        exists: 3,
        recent: 0,
        read_only: false,
    };
    let (mut f, a) = FolderSync::after_select(Some(7), &state);
    assert_eq!(a, FolderSyncAction::AskMaxUid);
    assert_eq!(f.on_max_uid(Some(41)), FolderSyncAction::Fetch("42:*".into()));
    f.on_imported(ImportOutcome::Stored);
    f.on_imported(ImportOutcome::Failed);
    assert_eq!(
        f.finish(),
        FolderSyncAction::UpdateFolder { uid_validity: Some(7), uid_next: Some(50), exists: 3 }
    );
    assert_eq!(f.phase, FolderSyncPhase::Done);
    assert_eq!((f.stats.messages_fetched, f.stats.errors), (1, 1));

    let (mut g, a) = FolderSync::after_select(Some(6), &state);
    assert_eq!(a, FolderSyncAction::ClearCache);
    assert_eq!(g.on_cleared(), FolderSyncAction::Fetch("1:*".into()));

    let empty = SelectedFolderState { exists: 0, ..state };
    let (mut h, _) = FolderSync::after_select(None, &empty);
    assert_eq!(
        h.on_max_uid(None),
        FolderSyncAction::UpdateFolder { uid_validity: Some(7), uid_next: Some(50), exists: 0 }
    );
}

#[test]
fn a_whole_exchange_gathers_answers_up_to_its_tag() {
    let lines = vec![
        ("* 3 EXISTS\r\n".to_string(), None),
        ("* 1 FETCH (UID 5 RFC822 {5}\r\n".to_string(), Some(b"hello".to_vec())),
        ("B9 OK other\r\n".to_string(), None),
        ("A1 OK done\r\n".to_string(), None),
        ("* 9 EXISTS\r\n".to_string(), None),
    ];
    let (untagged, end) = run_exchange("A1".to_string(), lines);
    assert_eq!(untagged.len(), 2);
    assert_eq!(untagged[0], UntaggedResponse::Exists(3));
    match &untagged[1] {
        UntaggedResponse::Fetch(f) => {
            assert_eq!(f.uid, Some(5));
            assert_eq!(f.rfc822_body.as_deref(), Some(&b"hello"[..]));
        }
        other => panic!("unexpected {:?}", other),
    }
    let tagged = end.unwrap().unwrap();
    assert_eq!(tagged.tag, "A1");
    assert_eq!(tagged.text, "done");
    let (_, end) = run_exchange("A1".to_string(), vec![("A1 NO nope\r\n".to_string(), None)]);
    assert_eq!(end, Some(Err(ImapError::CommandFailed("No".into(), "nope".into()))));
    let (u, end) = run_exchange("A1".to_string(), vec![("* 2 RECENT\r\n".to_string(), None)]);
    assert_eq!(u, vec![UntaggedResponse::Recent(2)]);
    assert!(end.is_none());
}
