use fckn_gay::dns::record::{Record, RecordType};
use fckn_gay::user_database::csv::{Database as CsvDatabase, User as CsvUser};
use fckn_gay::user_database::dummy::{Config as DummyUsers, Database, Error as DummyError};
use fckn_gay::user_database::{
    Compiled, Config, ConfigError, DnsRecordId, PasswordHash, Providers, UserState,
};

fn record(name: &str, content: &str) -> Record {
    Record {
        name: name.to_string(),
        record_type: RecordType::A,
        content: content.to_string(),
        ttl_seconds: 600,
        priority: None,
    }
}

fn db_with_alice() -> Database {
    Database::new(DummyUsers(vec![("alice".to_string(), "correct horse".to_string())])).unwrap()
}

#[test]
fn configured_users_can_log_in() {
    let db = db_with_alice();
    assert!(db.is_valid("alice", "correct horse"));
    assert!(!db.is_valid("alice", "wrong"));
    assert!(!db.is_valid("bob", "correct horse"));
    assert!(db.validate_and_get_user_id("alice", "correct horse").is_some());
    assert!(db.validate_and_get_user_id("alice", "nope").is_none());
}

#[test]
fn configured_users_get_placeholder_email() {
    let db = db_with_alice();
    let user = db.get_user_by_username_or_email("alice").unwrap().unwrap();
    assert_eq!(user.email, "\"alice\"@example.com");
    assert!(user.is_active());
    let by_mail = db.get_user_by_username_or_email("\"alice\"@example.com").unwrap().unwrap();
    assert_eq!(by_mail.id, user.id);
    assert!(db.get_user_by_username_or_email("nobody").unwrap().is_none());
}

#[test]
fn signup_is_pending_until_activated() {
    let mut db = db_with_alice();
    assert!(db.is_available("bob"));
    assert!(!db.is_available("alice"));
    let id = db.add_user("bob", "hunter22", "bob@example.com").unwrap();
    assert!(!db.is_available("bob"));
    assert!(!db.is_valid("bob", "hunter22"));
    let pending = db.get_user_by_username_or_email("bob@example.com").unwrap().unwrap();
    assert_eq!(pending.state, UserState::Pending);
    db.activate_user(id).unwrap();
    assert!(db.is_valid("bob", "hunter22"));
    assert_eq!(db.validate_and_get_user_id("bob", "hunter22"), Some(id));
    assert_eq!(db.activate_user(id), Err(DummyError::UserNotFound));
}

#[test]
fn duplicate_signup_is_refused() {
    let mut db = db_with_alice();
    assert_eq!(db.add_user("alice", "x", "a@b.c"), Err(DummyError::UserExists));
}

#[test]
fn password_update_changes_login() {
    let mut db = db_with_alice();
    let id = db.validate_and_get_user_id("alice", "correct horse").unwrap();
    db.update_user_password(id, PasswordHash::new("new password").unwrap()).unwrap();
    assert!(!db.is_valid("alice", "correct horse"));
    assert!(db.is_valid("alice", "new password"));
    assert_eq!(db.update_user_password(7, PasswordHash::new("x").unwrap()), Err(DummyError::UserNotFound));
}

#[test]
fn dns_records_are_stored_per_user() {
    let mut db = db_with_alice();
    let id = db.validate_and_get_user_id("alice", "correct horse").unwrap();
    assert!(db.get_user_dns_records(id).unwrap().is_empty());
    let rid = db.add_dns_record(id, record("alice.is.fckn.gay", "1.2.3.4"), "key-1".to_string()).unwrap();
    let records = db.get_user_dns_records(id).unwrap();
    assert_eq!(records.len(), 1);
    assert_eq!(records[0].provider_key, "key-1");
    assert_eq!(records[0].record.content, "1.2.3.4");
    assert_eq!(db.get_dns_record_provider_key(id, rid).unwrap(), "key-1");
    db.update_dns_record(id, rid, record("alice.is.fckn.gay", "5.6.7.8")).unwrap();
    assert_eq!(db.get_user_dns_records(id).unwrap()[0].record.content, "5.6.7.8");
    db.delete_dns_record(id, rid).unwrap();
    assert!(db.get_user_dns_records(id).unwrap().is_empty());
    assert_eq!(db.delete_dns_record(id, rid), Err(DummyError::RecordNotFound));
    assert_eq!(db.get_dns_record_provider_key(id, rid), Err(DummyError::RecordNotFound));
}

#[test]
fn dns_records_are_kept_per_user_id() {
    let mut db = db_with_alice();
    let rid = db.add_dns_record(42, record("x.is.fckn.gay", "1.1.1.1"), "k".to_string()).unwrap();
    assert_eq!(db.get_user_dns_records(42).unwrap().len(), 1);
    assert_eq!(db.get_dns_record_provider_key(43, rid), Err(DummyError::RecordNotFound));
}

#[test]
fn dummy_error_messages() {
    assert_eq!(DummyError::UserExists.message(), "user already exists");
    assert_eq!(DummyError::UserNotFound.message(), "user not found");
    assert_eq!(DummyError::RecordNotFound.message(), "record not found");
}

#[test]
fn password_hash_validates_its_password() {
    let h = PasswordHash::new("s3cret").unwrap();
    assert!(h.validate("s3cret"));
    assert!(!h.validate("other"));
}

#[test]
fn user_state_codes_roundtrip() {
    for s in [UserState::Pending, UserState::Active, UserState::Inactive, UserState::Banned] {
        assert_eq!(UserState::from_code(s.code()), Some(s));
    }
    assert_eq!(UserState::from_code(99), None);
}

#[test]
fn csv_users_log_in_with_plain_passwords() {
    let db = CsvDatabase::from_rows(vec![CsvUser { username: "carol".to_string(), password: "pw".to_string() }]);
    assert!(db.is_valid("carol", "pw"));
    assert!(!db.is_valid("carol", "px"));
    assert!(db.validate_and_get_user_id("carol", "pw").is_some());
    assert!(db.validate_and_get_user_id("dave", "pw").is_none());
    assert!(!db.is_available("carol"));
    assert!(db.is_available("dave"));
}

#[test]
fn csv_provider_keys_are_prefixed() {
    let db = CsvDatabase::from_rows(vec![]);
    let key = db.get_dns_record_provider_key(1, DnsRecordId(2));
    assert_eq!(key, "csv_key_00000000-0000-0000-0000-000000000002");
    assert!(db.get_user_dns_records(1).is_empty());
}

fn compiled_all() -> Compiled {
    Compiled { dummy: true, csv: true, diesel: true }
}

#[test]
fn user_db_missing_provider_is_an_error() {
    let config = Config { provider: None, dummy: None, csv: None, diesel: None };
    match config.active() {
        Err(ConfigError::MissingConfig(m)) => assert_eq!(m, "No provider specified"),
        _ => panic!("expected a missing config error"),
    }
}

#[test]
fn user_db_ambiguous_config_errors() {
    let config = Config {
        provider: None,
        dummy: Some(DummyUsers(vec![])),
        csv: Some(fckn_gay::user_database::csv::Config { file: "users.csv".to_string() }),
        diesel: None,
    };
    assert!(matches!(config.active(), Err(ConfigError::CantChoseProvider)));
}

#[test]
fn user_db_explicit_provider_resolves_ambiguity() {
    let config = Config {
        provider: Some(Providers::Csv),
        dummy: Some(DummyUsers(vec![])),
        csv: Some(fckn_gay::user_database::csv::Config { file: "users.csv".to_string() }),
        diesel: None,
    };
    assert!(matches!(config.active(), Ok(Providers::Csv)));
    assert!(matches!(config.select(compiled_all()), Ok(Providers::Csv)));
}

#[test]
fn user_db_provider_not_compiled() {
    let config = Config { provider: None, dummy: None, csv: None, diesel: Some(fckn_gay::user_database::DieselConfig { database_url: "db.sqlite".to_string() }) };
    let compiled = Compiled { dummy: true, csv: true, diesel: false };
    match config.select(compiled) {
        Err(e) => assert_eq!(
            e.message(),
            "Provider 'diesel' was selected but is not compiled into this binary. Recompile with the 'diesel' feature enabled."
        ),
        Ok(_) => panic!("expected an error"),
    }
    assert_eq!(config.uncompiled_sections(compiled), vec![Providers::Diesel]);
}

#[test]
fn user_db_provider_names() {
    assert_eq!(Providers::Dummy.name(), "dummy");
    assert_eq!(Providers::Csv.name(), "csv");
    assert_eq!(Providers::Diesel.name(), "diesel");
}

use fckn_gay::user_database::rows::{record_from_row, record_id_from_row, user_from_row, NewDnsRecord, NewUser};

#[test]
fn rows_store_ids_in_uuid_le_layout() {
    let id: u128 = 0xa1a2a3a4_b1b2_c1c2_d1d2_d3d4d5d6d7d8;
    let row = NewUser::new(id, "alice", "hash", "a@b.c");
    assert_eq!(
        row.id,
        [0xa4, 0xa3, 0xa2, 0xa1, 0xb2, 0xb1, 0xc2, 0xc1, 0xd1, 0xd2, 0xd3, 0xd4, 0xd5, 0xd6, 0xd7, 0xd8]
    );
    assert_eq!(record_id_from_row(&row.id.to_vec()), DnsRecordId(id));
    let back = user_from_row(&row.id.to_vec(), "alice".to_string(), "hash".to_string(), "a@b.c".to_string(), 3, 10, None);
    assert_eq!(back.id, id);
    assert_eq!(back.state, UserState::Banned);
    assert_eq!(back.created_at, 10);
}

#[test]
fn record_rows_use_numbers() {
    let r = Record { name: "x".to_string(), record_type: RecordType::MX, content: "mail".to_string(), ttl_seconds: 300, priority: Some(10) };
    let row = NewDnsRecord::from_interface(DnsRecordId(1), 2, &r, "key");
    assert_eq!(row.record_type, 1);
    assert_eq!(row.ttl_seconds, 300);
    assert_eq!(row.priority, Some(10));
    assert_eq!(row.name, "x");
    let back = record_from_row("x".to_string(), 1, "mail".to_string(), 300, Some(10));
    assert_eq!(back.record_type, RecordType::MX);
    assert_eq!(back.ttl_seconds, 300);
    assert_eq!(back.priority, Some(10));
}

#[test]
fn fresh_record_ids_are_version_four_uuids() {
    let a = DnsRecordId::new().unwrap();
    let b = DnsRecordId::new().unwrap();
    for id in [a, b] {
        assert_eq!((id.0 >> 76) & 0xf, 4);
        assert_eq!((id.0 >> 62) & 3, 2);
    }
    assert_ne!(a, b);
}
