use fckn_gay::dns::record::{Record, RecordType};
use fckn_gay::dns::Key;
use fckn_gay::server::api::{
    add_record_start, add_record_step, delete_record_start, delete_record_step, update_record_start,
    update_record_step, AddAction, AddEvent, AddState, DeleteAction, DeleteEvent, DeleteState, UpdateAction,
    UpdateEvent, UpdateState,
};
use fckn_gay::server::names::{validate_record_for_user, PublicSuffix};
use fckn_gay::user_database::DnsRecordId;

fn suffix() -> PublicSuffix {
    PublicSuffix::new("is.fckn.gay".to_string())
}

fn record(name: &str) -> Record {
    Record {
        name: name.to_string(),
        record_type: RecordType::A,
        content: "1.2.3.4".to_string(),
        ttl_seconds: 600,
        priority: None,
    }
}

#[test]
fn record_outside_user_domain_is_refused() {
    let e = validate_record_for_user("www.bob.is.fckn.gay", "alice", &suffix()).unwrap_err();
    assert_eq!(e.status, 400);
    assert_eq!(e.message, "record name must end with '.alice.is.fckn.gay' (or be exactly 'alice.is.fckn.gay')");
    assert!(validate_record_for_user("www.alice.is.fckn.gay", "alice", &suffix()).is_ok());
}

#[test]
fn malformed_record_name_is_refused() {
    let e = validate_record_for_user("bad..alice.is.fckn.gay", "alice", &suffix()).unwrap_err();
    assert_eq!(e.status, 400);
    assert!(e.message.starts_with("invalid record name: "));
}

#[test]
fn add_flow_happy_path() {
    let (state, action) = add_record_start("alice", 7, &suffix(), record("www.alice.is.fckn.gay"));
    match action {
        AddAction::AddToDns(r) => assert_eq!(r.name, "www.alice.is.fckn.gay"),
        _ => panic!("expected the record to go to the provider"),
    }
    let (state, action) = add_record_step(state, AddEvent::DnsAdded(Key::Dummy(3)));
    match action {
        AddAction::AddToDatabase { user_id, record, provider_key } => {
            assert_eq!(user_id, 7);
            assert_eq!(record.name, "www.alice.is.fckn.gay");
            assert_eq!(provider_key, "Dummy:3");
        }
        _ => panic!("expected a database insert"),
    }
    let (state, action) = add_record_step(state, AddEvent::DatabaseAdded(DnsRecordId(11)));
    assert!(matches!(state, AddState::Done));
    match action {
        AddAction::Reply { result: Ok((status, id)), log_error: None } => {
            assert_eq!(status, 201);
            assert_eq!(id, DnsRecordId(11));
        }
        _ => panic!("expected the new id"),
    }
}

#[test]
fn add_flow_refuses_foreign_names() {
    let (state, action) = add_record_start("alice", 7, &suffix(), record("bob.is.fckn.gay"));
    assert!(matches!(state, AddState::Done));
    match action {
        AddAction::Reply { result: Err(e), log_error: None } => assert_eq!(e.status, 400),
        _ => panic!("expected a refusal"),
    }
}

#[test]
fn add_flow_dns_failure_is_bad_gateway() {
    let (state, _) = add_record_start("alice", 7, &suffix(), record("alice.is.fckn.gay"));
    let (state, action) = add_record_step(state, AddEvent::DnsFailed("down".to_string()));
    assert!(matches!(state, AddState::Done));
    match action {
        AddAction::Reply { result: Err(e), .. } => {
            assert_eq!(e.status, 502);
            assert_eq!(e.message, "Failed to add record to DNS provider: down");
        }
        _ => panic!("expected a refusal"),
    }
}

#[test]
fn add_flow_rolls_back_on_database_failure() {
    let (state, _) = add_record_start("alice", 7, &suffix(), record("alice.is.fckn.gay"));
    let (state, _) = add_record_step(state, AddEvent::DnsAdded(Key::Hickory(5)));
    let (state, action) = add_record_step(state, AddEvent::DatabaseFailed("disk full".to_string()));
    match action {
        AddAction::RemoveFromDns(Key::Hickory(5)) => {}
        _ => panic!("expected the provider record to be removed"),
    }
    let (state, action) = add_record_step(state, AddEvent::RollbackFailed("gone".to_string()));
    assert!(matches!(state, AddState::Done));
    match action {
        AddAction::Reply { result: Err(e), log_error: Some(l) } => {
            assert_eq!(e.status, 500);
            assert_eq!(e.message, "Failed to add record to database: disk full");
            assert_eq!(l, "Failed to rollback DNS record: gone");
        }
        _ => panic!("expected a refusal with a logged rollback failure"),
    }
}

#[test]
fn delete_flow_happy_path() {
    let (state, action) = delete_record_start(7, DnsRecordId(9));
    assert!(matches!(action, DeleteAction::GetProviderKey { user_id: 7, .. }));
    let (state, action) = delete_record_step(state, DeleteEvent::ProviderKey("Porkbun:123".to_string()));
    assert!(matches!(action, DeleteAction::DeleteFromDatabase { user_id: 7, .. }));
    let (state, action) = delete_record_step(state, DeleteEvent::DatabaseDeleted);
    match action {
        DeleteAction::DeleteFromDns(Key::Porkbun(k)) => assert_eq!(k, "123"),
        _ => panic!("expected the provider delete"),
    }
    let (state, action) = delete_record_step(state, DeleteEvent::DnsDeleted);
    assert!(matches!(state, DeleteState::Done));
    assert!(matches!(action, DeleteAction::Reply { result: Ok(204), log_error: None }));
}

#[test]
fn delete_flow_bad_key_and_missing_record() {
    let (state, _) = delete_record_start(7, DnsRecordId(9));
    let (_, action) = delete_record_step(state, DeleteEvent::ProviderKey("Nope:1".to_string()));
    match action {
        DeleteAction::Reply { result: Err(e), .. } => {
            assert_eq!(e.status, 500);
            assert!(e.message.starts_with("Failed to parse provider key: "));
        }
        _ => panic!("expected a refusal"),
    }
    let (state, _) = delete_record_start(7, DnsRecordId(9));
    let (_, action) = delete_record_step(state, DeleteEvent::KeyNotFound("record not found".to_string()));
    match action {
        DeleteAction::Reply { result: Err(e), .. } => {
            assert_eq!(e.status, 404);
            assert_eq!(e.message, "Record not found: record not found");
        }
        _ => panic!("expected a refusal"),
    }
}

#[test]
fn update_flow_happy_path_and_failure() {
    let (state, action) = update_record_start("alice", 7, &suffix(), DnsRecordId(9), record("alice.is.fckn.gay"));
    assert!(matches!(action, UpdateAction::GetProviderKey { user_id: 7, .. }));
    let (state, action) = update_record_step(state, UpdateEvent::ProviderKey("Dummy:2".to_string()));
    assert!(matches!(action, UpdateAction::UpdateAtDns { key: Key::Dummy(2), .. }));
    let (state, action) = update_record_step(state, UpdateEvent::DnsUpdated);
    assert!(matches!(action, UpdateAction::UpdateInDatabase { user_id: 7, .. }));
    let (state, action) = update_record_step(state, UpdateEvent::DatabaseFailed("locked".to_string()));
    assert!(matches!(state, UpdateState::Done));
    match action {
        UpdateAction::Reply { result: Err(e), log_error: Some(l) } => {
            assert_eq!(e.status, 500);
            assert_eq!(e.message, "Failed to update record in database: locked");
            assert_eq!(l, "Failed to update record in database: locked");
        }
        _ => panic!("expected a refusal"),
    }
}
