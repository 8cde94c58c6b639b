use fckn_gay::dns::record::{Record, RecordType};
use fckn_gay::dns::Key;
use fckn_gay::server::edit_user::{backoff_secs, rename_start, rename_step, EditUserOpts, RenameAction, RenameEvent, RenameState};
use fckn_gay::server::names::PublicSuffix;
use fckn_gay::user_database::{DatabaseDnsRecord, DnsRecordId, UserState};

fn suffix() -> PublicSuffix {
    PublicSuffix::new(".is.fckn.gay".to_string())
}

fn db_record(id: u128, name: &str, key: &str) -> DatabaseDnsRecord {
    DatabaseDnsRecord {
        id: DnsRecordId(id),
        provider_key: key.to_string(),
        record: Record {
            name: name.to_string(),
            record_type: RecordType::A,
            content: "1.2.3.4".to_string(),
            ttl_seconds: 600,
            priority: None,
        },
    }
}

#[test]
fn opts_with_nothing_to_do() {
    let opts = EditUserOpts { email: None, state: None, reset_password: false, rename: None, dry_run: false };
    assert!(!opts.has_changes());
    let opts = EditUserOpts { email: None, state: Some(UserState::Banned), reset_password: false, rename: None, dry_run: true };
    assert!(opts.has_changes());
}

#[test]
fn backoff_doubles() {
    assert_eq!(backoff_secs(0), 1);
    assert_eq!(backoff_secs(1), 2);
    assert_eq!(backoff_secs(2), 4);
}

#[test]
fn rename_refuses_invalid_username() {
    let (state, action) = rename_start(1, "alice".to_string(), "Bad_Name".to_string(), suffix(), false);
    assert!(matches!(state, RenameState::Done));
    match action {
        RenameAction::Finish(Err(m)) => assert_eq!(m, "username 'Bad_Name' is invalid: Username can only contain lowercase letters, numbers, and dashes"),
        _ => panic!("expected a refusal"),
    }
}

#[test]
fn rename_refuses_taken_username() {
    let (state, _) = rename_start(1, "alice".to_string(), "bobby".to_string(), suffix(), false);
    let (state, action) = rename_step(state, RenameEvent::Availability(false));
    assert!(matches!(state, RenameState::Done));
    match action {
        RenameAction::Finish(Err(m)) => assert_eq!(m, "username 'bobby' is already taken, can't rename"),
        _ => panic!("expected a refusal"),
    }
}

#[test]
fn rename_dry_run_plans_names() {
    let (state, action) = rename_start(1, "alice".to_string(), "bobby".to_string(), suffix(), true);
    assert!(matches!(action, RenameAction::CheckAvailable(ref n) if n == "bobby"));
    let (state, action) = rename_step(state, RenameEvent::Availability(true));
    assert!(matches!(action, RenameAction::FetchRecords(1)));
    let records = vec![db_record(1, "alice.is.fckn.gay", "Dummy:0"), db_record(2, "*.alice.is.fckn.gay", "Dummy:1")];
    let (state, action) = rename_step(state, RenameEvent::Records(Ok(records)));
    assert!(matches!(state, RenameState::Done));
    match action {
        RenameAction::Finish(Ok(report)) => {
            assert_eq!(
                report.planned,
                vec![
                    ("alice.is.fckn.gay".to_string(), "bobby.is.fckn.gay".to_string()),
                    ("*.alice.is.fckn.gay".to_string(), "*.bobby.is.fckn.gay".to_string()),
                ]
            );
            assert_eq!(report.succeeded, 0);
        }
        _ => panic!("expected a plan"),
    }
}

#[test]
fn rename_moves_each_record() {
    let (state, _) = rename_start(1, "alice".to_string(), "bobby".to_string(), suffix(), false);
    let (state, _) = rename_step(state, RenameEvent::Availability(true));
    let records = vec![db_record(5, "www.alice.is.fckn.gay", "Dummy:0")];
    let (state, action) = rename_step(state, RenameEvent::Records(Ok(records)));
    assert!(matches!(action, RenameAction::UpdateUsername { user_id: 1, ref new_username } if new_username == "bobby"));
    let (state, action) = rename_step(state, RenameEvent::UsernameUpdated(Ok(())));
    match &action {
        RenameAction::AddUpstream { record, wait_secs } => {
            assert_eq!(record.name, "www.bobby.is.fckn.gay");
            assert_eq!(*wait_secs, 0);
        }
        _ => panic!("expected the new record upstream"),
    }
    let (state, action) = rename_step(state, RenameEvent::Upstreamed(Ok(Key::Dummy(7))));
    match &action {
        RenameAction::AddToDatabase { provider_key, .. } => assert_eq!(provider_key, "Dummy:7"),
        _ => panic!("expected a database insert"),
    }
    let (state, action) = rename_step(state, RenameEvent::Stored(Ok(DnsRecordId(9))));
    assert!(matches!(action, RenameAction::DeleteOldUpstream { key: Key::Dummy(0), wait_secs: 0 }));
    let (state, action) = rename_step(state, RenameEvent::OldUpstreamDeleted(Ok(())));
    assert!(matches!(action, RenameAction::DeleteOldFromDatabase { user_id: 1, record_id: DnsRecordId(5), wait_secs: 0 }));
    let (state, action) = rename_step(state, RenameEvent::OldDatabaseDeleted(Ok(())));
    assert!(matches!(state, RenameState::Done));
    match action {
        RenameAction::Finish(Ok(report)) => {
            assert_eq!(report.succeeded, 1);
            assert_eq!(report.failed, 0);
            assert_eq!(report.dangling_old, 0);
        }
        _ => panic!("expected a report"),
    }
}

#[test]
fn rename_retries_with_backoff_then_gives_up() {
    let (state, _) = rename_start(1, "alice".to_string(), "bobby".to_string(), suffix(), false);
    let (state, _) = rename_step(state, RenameEvent::Availability(true));
    let (state, _) = rename_step(state, RenameEvent::Records(Ok(vec![db_record(5, "alice.is.fckn.gay", "Dummy:0")])));
    let (mut state, _) = rename_step(state, RenameEvent::UsernameUpdated(Ok(())));
    let mut waits = Vec::new();
    for _ in 0..3 {
        let (s, action) = rename_step(state, RenameEvent::Upstreamed(Err("nope".to_string())));
        match action {
            RenameAction::AddUpstream { wait_secs, .. } => waits.push(wait_secs),
            _ => panic!("expected a retry"),
        }
        state = s;
    }
    assert_eq!(waits, vec![1, 2, 4]);
    let (state, action) = rename_step(state, RenameEvent::Upstreamed(Err("nope".to_string())));
    assert!(matches!(state, RenameState::Done));
    match action {
        RenameAction::Finish(Ok(report)) => {
            assert_eq!(report.failed, 1);
            assert_eq!(report.failed_names, vec!["bobby.is.fckn.gay".to_string()]);
        }
        _ => panic!("expected a report"),
    }
}

#[test]
fn rename_reports_every_record_once() {
    let (state, _) = rename_start(1, "alice".to_string(), "bobby".to_string(), suffix(), false);
    let (state, _) = rename_step(state, RenameEvent::Availability(true));
    let records = vec![db_record(5, "alice.is.fckn.gay", "Dummy:0"), db_record(6, "www.alice.is.fckn.gay", "Dummy:1")];
    let (state, _) = rename_step(state, RenameEvent::Records(Ok(records)));
    let (state, _) = rename_step(state, RenameEvent::UsernameUpdated(Ok(())));
    // the first record: added upstream, but the database refuses it every time
    let (mut state, _) = rename_step(state, RenameEvent::Upstreamed(Ok(Key::Dummy(7))));
    for _ in 0..3 {
        let (s, action) = rename_step(state, RenameEvent::Stored(Err("db down".to_string())));
        assert!(matches!(action, RenameAction::AddToDatabase { .. }));
        state = s;
    }
    let (state, action) = rename_step(state, RenameEvent::Stored(Err("db down".to_string())));
    assert!(matches!(action, RenameAction::RollbackUpstream(Key::Dummy(7))));
    let (state, action) = rename_step(state, RenameEvent::RolledBack(Ok(())));
    match &action {
        RenameAction::AddUpstream { record, .. } => assert_eq!(record.name, "www.bobby.is.fckn.gay"),
        _ => panic!("expected the second record"),
    }
    // the second record moves, but its old copy stays at the provider
    let (state, _) = rename_step(state, RenameEvent::Upstreamed(Ok(Key::Dummy(8))));
    let (state, _) = rename_step(state, RenameEvent::Stored(Ok(DnsRecordId(10))));
    let mut state = state;
    for _ in 0..3 {
        let (s, action) = rename_step(state, RenameEvent::OldUpstreamDeleted(Err("gone".to_string())));
        assert!(matches!(action, RenameAction::DeleteOldUpstream { .. }));
        state = s;
    }
    let (state, action) = rename_step(state, RenameEvent::OldUpstreamDeleted(Err("gone".to_string())));
    assert!(matches!(action, RenameAction::DeleteOldFromDatabase { record_id: DnsRecordId(6), .. }));
    let (state, action) = rename_step(state, RenameEvent::OldDatabaseDeleted(Ok(())));
    assert!(matches!(state, RenameState::Done));
    match action {
        RenameAction::Finish(Ok(report)) => {
            assert_eq!(report.succeeded + report.failed, 2);
            assert_eq!(report.succeeded, 1);
            assert_eq!(report.failed, 1);
            assert_eq!(report.dangling_old, 1);
            assert_eq!(report.failed_names, vec!["bobby.is.fckn.gay".to_string()]);
        }
        _ => panic!("expected a report"),
    }
}
