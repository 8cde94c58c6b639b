use fckn_gay::dns::record::{Record, RecordType};
use fckn_gay::server::migration::{
    migration_event_fits_exec, migration_start, migration_step, MigrationAction, MigrationEvent, MigrationNote,
    MigrationState,
};
use fckn_gay::server::names::PublicSuffix;
use fckn_gay::user_database::{DatabaseDnsRecord, DnsRecordId, PasswordHash, UserEntry, UserState};

fn record(name: &str) -> Record {
    Record {
        name: name.to_string(),
        record_type: RecordType::A,
        content: "1.2.3.4".to_string(),
        ttl_seconds: 600,
        priority: None,
    }
}

fn user(id: u128, name: &str) -> UserEntry {
    UserEntry {
        id,
        username: name.to_string(),
        password_hash: PasswordHash::from_raw("h".to_string()),
        email: "e@x".to_string(),
        state: UserState::Active,
        created_at: 0,
        last_login: None,
    }
}

fn step(state: MigrationState, event: MigrationEvent) -> (MigrationState, MigrationAction) {
    assert!(migration_event_fits_exec(&state, &event));
    migration_step(state, event)
}

fn upstream() -> Vec<(String, Record)> {
    vec![
        ("k1".to_string(), record("alice.is.fckn.gay")),
        ("k2".to_string(), record("www.bob.is.fckn.gay")),
        ("k3".to_string(), record("elsewhere.example")),
    ]
}

#[test]
fn migration_dry_run_only_counts() {
    let (state, action) = migration_start(&PublicSuffix::new("is.fckn.gay".to_string()), true);
    assert!(matches!(action, MigrationAction::FetchUpstream));
    let (state, action) = step(state, MigrationEvent::Upstream(Ok(upstream())));
    match &action {
        MigrationAction::Report(MigrationNote::Grouping(line)) => {
            assert_eq!(line, "   2 users with 2 records match suffix '.is.fckn.gay' (1 records skipped)")
        }
        _ => panic!("expected the grouping"),
    }
    let (state, action) = step(state, MigrationEvent::Reported);
    assert!(matches!(action, MigrationAction::CheckAvailable { ref username, upstream_records: 1 } if username == "alice"));
    // alice is new: counted, nothing created
    let (state, action) = step(state, MigrationEvent::Availability(true));
    match &action {
        MigrationAction::Report(MigrationNote::Plan { username, new_user, import, delete }) => {
            assert_eq!(username, "alice");
            assert!(*new_user);
            assert_eq!(import.len(), 1);
            assert!(delete.is_empty());
        }
        _ => panic!("expected a plan"),
    }
    let (state, action) = step(state, MigrationEvent::Reported);
    assert!(matches!(action, MigrationAction::CheckAvailable { ref username, .. } if username == "bob"));
    // bob exists with one stale record
    let (state, action) = step(state, MigrationEvent::Availability(false));
    assert!(matches!(action, MigrationAction::LookupUser(ref n) if n == "bob"));
    let (state, action) = step(state, MigrationEvent::UserFound(Ok(Some(user(7, "bob")))));
    assert!(matches!(action, MigrationAction::FetchDbRecords(7)));
    let stale = DatabaseDnsRecord { id: DnsRecordId(3), provider_key: "old".to_string(), record: record("x.bob.is.fckn.gay") };
    let (state, action) = step(state, MigrationEvent::DbRecords(Ok(vec![stale])));
    match &action {
        MigrationAction::Report(MigrationNote::Plan { new_user, import, delete, .. }) => {
            assert!(!*new_user);
            assert_eq!(import.len(), 1);
            assert_eq!(delete.len(), 1);
        }
        _ => panic!("expected a plan"),
    }
    let (state, action) = step(state, MigrationEvent::Reported);
    assert!(matches!(action, MigrationAction::ListUsers));
    let (state, action) = step(state, MigrationEvent::Users(Ok(vec![user(7, "bob"), user(9, "carol")])));
    assert!(matches!(action, MigrationAction::CountOrphanRecords(9)));
    let (state, action) = step(state, MigrationEvent::OrphanRecords(Ok(vec![])));
    assert!(matches!(action, MigrationAction::Report(MigrationNote::WouldDeleteUser { ref username, records: 0 }) if username == "carol"));
    let (state, action) = step(state, MigrationEvent::Reported);
    assert!(matches!(state, MigrationState::Done));
    match action {
        MigrationAction::Finish(Ok(Some(stats))) => {
            assert_eq!(stats.users_created, 1);
            assert_eq!(stats.users_deleted, 1);
            assert_eq!(stats.records_imported, 2);
            assert_eq!(stats.records_deleted, 1);
            assert_eq!(stats.records_already_synced, 0);
        }
        _ => panic!("expected the counts"),
    }
}

#[test]
fn migration_creates_users_and_imports() {
    let (state, _) = migration_start(&PublicSuffix::new(".is.fckn.gay".to_string()), false);
    let ups = vec![("k1".to_string(), record("alice.is.fckn.gay"))];
    let (state, _) = step(state, MigrationEvent::Upstream(Ok(ups)));
    let (state, _) = step(state, MigrationEvent::Reported);
    let (state, action) = step(state, MigrationEvent::Availability(true));
    assert!(matches!(action, MigrationAction::PromptPassword));
    let (state, action) = step(state, MigrationEvent::PasswordEntered(None));
    assert!(matches!(action, MigrationAction::PromptEmail));
    let (state, action) = step(state, MigrationEvent::EmailEntered(None));
    match &action {
        MigrationAction::AddUser { username, password, email } => {
            assert_eq!(username, "alice");
            assert_eq!(password.len(), 32);
            assert_eq!(email, "im@fckn.gay");
        }
        _ => panic!("expected the new user"),
    }
    let (state, action) = step(state, MigrationEvent::UserAdded(Ok(5)));
    assert!(matches!(action, MigrationAction::ActivateUser(5)));
    let (state, action) = step(state, MigrationEvent::UserActivated(Ok(())));
    assert!(matches!(action, MigrationAction::FetchDbRecords(5)));
    let (state, action) = step(state, MigrationEvent::DbRecords(Ok(vec![])));
    match &action {
        MigrationAction::AddRecord { user_id, record, provider_key } => {
            assert_eq!(*user_id, 5);
            assert_eq!(record.name, "alice.is.fckn.gay");
            assert_eq!(provider_key, "k1");
        }
        _ => panic!("expected an import"),
    }
    let (state, action) = step(state, MigrationEvent::RecordAdded(Ok(DnsRecordId(1))));
    assert!(matches!(action, MigrationAction::ListUsers));
    let (state, action) = step(state, MigrationEvent::Users(Ok(vec![user(5, "alice"), user(6, "zed")])));
    assert!(matches!(action, MigrationAction::CountOrphanRecords(6)));
    let old = DatabaseDnsRecord { id: DnsRecordId(8), provider_key: "k9".to_string(), record: record("zed.is.fckn.gay") };
    let (state, action) = step(state, MigrationEvent::OrphanRecords(Ok(vec![old.clone()])));
    assert!(matches!(action, MigrationAction::AskDelete { ref username, records: 1 } if username == "zed"));
    let (state, action) = step(state, MigrationEvent::Answer(" y\n".to_string()));
    assert!(matches!(action, MigrationAction::FetchOrphanRecords(6)));
    let (state, action) = step(state, MigrationEvent::OrphanRecords(Ok(vec![old])));
    assert!(matches!(action, MigrationAction::DeleteRecord { user_id: 6, record_id: DnsRecordId(8) }));
    let (state, action) = step(state, MigrationEvent::RecordDeleted(Ok(())));
    assert!(matches!(action, MigrationAction::DeleteUser(ref n) if n == "zed"));
    let (state, action) = step(state, MigrationEvent::UserDeleted(Ok(())));
    assert!(matches!(state, MigrationState::Done));
    match action {
        MigrationAction::Finish(Ok(Some(stats))) => {
            assert_eq!(stats.users_created, 1);
            assert_eq!(stats.records_imported, 1);
            assert_eq!(stats.users_deleted, 1);
            assert_eq!(stats.records_deleted, 1);
        }
        _ => panic!("expected the counts"),
    }
}

#[test]
fn migration_stops_on_errors_and_skips_declined_orphans() {
    let (state, _) = migration_start(&PublicSuffix::new(".is.fckn.gay".to_string()), false);
    let (_, action) = step(state, MigrationEvent::Upstream(Err("timeout".to_string())));
    assert!(matches!(action, MigrationAction::Finish(Err(ref m)) if m == "failed to list records from DNS provider: timeout"));

    let (state, _) = migration_start(&PublicSuffix::new(".is.fckn.gay".to_string()), false);
    let (state, _) = step(state, MigrationEvent::Upstream(Ok(vec![("k1".to_string(), record("alice.is.fckn.gay"))])));
    let (state, _) = step(state, MigrationEvent::Reported);
    let (state, _) = step(state, MigrationEvent::Availability(false));
    let (_, action) = step(state, MigrationEvent::UserFound(Ok(None)));
    assert!(matches!(action, MigrationAction::Finish(Err(ref m)) if m == "user 'alice' is marked as unavailable but we can't find them 💀"));

    let (state, _) = migration_start(&PublicSuffix::new(".is.fckn.gay".to_string()), false);
    let (state, _) = step(state, MigrationEvent::Upstream(Ok(vec![("k1".to_string(), record("alice.is.fckn.gay"))])));
    let (state, _) = step(state, MigrationEvent::Reported);
    let (state, _) = step(state, MigrationEvent::Availability(false));
    let (state, _) = step(state, MigrationEvent::UserFound(Ok(Some(user(1, "alice")))));
    let (state, _) = step(state, MigrationEvent::DbRecords(Ok(vec![])));
    let (_, action) = step(state, MigrationEvent::RecordAdded(Err("locked".to_string())));
    assert!(matches!(action, MigrationAction::Finish(Err(ref m)) if m == "failed to import record 'alice.is.fckn.gay' (A) for 'alice': locked"));
}

#[test]
fn migration_with_nothing_to_do() {
    let (state, _) = migration_start(&PublicSuffix::new(".is.fckn.gay".to_string()), false);
    let (state, _) = step(state, MigrationEvent::Upstream(Ok(vec![("k".to_string(), record("other.example"))])));
    let (state, action) = step(state, MigrationEvent::Reported);
    assert!(matches!(state, MigrationState::Done));
    assert!(matches!(action, MigrationAction::Finish(Ok(None))));
}

#[test]
fn declined_orphan_is_skipped() {
    let (state, _) = migration_start(&PublicSuffix::new(".is.fckn.gay".to_string()), false);
    let (state, _) = step(state, MigrationEvent::Upstream(Ok(vec![("k1".to_string(), record("alice.is.fckn.gay"))])));
    let (state, _) = step(state, MigrationEvent::Reported);
    let (state, _) = step(state, MigrationEvent::Availability(false));
    let (state, _) = step(state, MigrationEvent::UserFound(Ok(Some(user(1, "alice")))));
    let synced = DatabaseDnsRecord { id: DnsRecordId(2), provider_key: "k1".to_string(), record: record("alice.is.fckn.gay") };
    let (state, action) = step(state, MigrationEvent::DbRecords(Ok(vec![synced])));
    assert!(matches!(action, MigrationAction::ListUsers));
    let (state, _) = step(state, MigrationEvent::Users(Ok(vec![user(1, "alice"), user(3, "zed")])));
    let (state, _) = step(state, MigrationEvent::OrphanRecords(Err("x".to_string())));
    let (state, action) = step(state, MigrationEvent::Answer("n".to_string()));
    assert!(matches!(action, MigrationAction::Report(MigrationNote::SkippedUser(ref n)) if n == "zed"));
    let (_, action) = step(state, MigrationEvent::Reported);
    match action {
        MigrationAction::Finish(Ok(Some(stats))) => {
            assert_eq!(stats.records_already_synced, 1);
            assert_eq!(stats.users_deleted, 0);
        }
        _ => panic!("expected the counts"),
    }
}
